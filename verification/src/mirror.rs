//! The bus mirror: routes inbound bus messages by topic into the store.
//!
//! A state-topic payload that decodes replaces the stored state; a
//! status-topic payload that is well-formed text replaces the stored status;
//! everything else — malformed payloads and unrecognized topics — leaves the
//! store exactly as it was. One bad message never stops the mirror; the
//! caller simply hands it the next one.

use vstd::prelude::*;
use crate::codec::spec_parse_state;
use crate::codec::parse_state;
use crate::device::SvenState;
use crate::store::DeskStore;
use crate::utf8::spec_is_utf8;
use crate::utf8::is_utf8;

verus! {

/// The inbound topic carrying state reports, `sven/state`.
pub open spec fn spec_topic_state() -> Seq<u8> {
    seq![115u8, 118, 101, 110, 47, 115, 116, 97, 116, 101]
}

/// The inbound topic carrying connectivity status, `sven/status`.
pub open spec fn spec_topic_status() -> Seq<u8> {
    seq![115u8, 118, 101, 110, 47, 115, 116, 97, 116, 117, 115]
}

/// How the mirror answered one message.
#[derive(Clone, Copy, Debug, PartialEq, Eq, Structural)]
pub enum MirrorOutcome {
    /// A state report decoded and replaced the stored state.
    StateUpdated,
    /// A state-topic payload failed to decode; the store is untouched.
    StateRejected,
    /// A status payload was well-formed text and replaced the stored status.
    StatusUpdated,
    /// A status-topic payload was not well-formed text; the store is
    /// untouched.
    StatusRejected,
    /// A topic the mirror does not know; the store is untouched.
    Unrecognized,
}

/// What one message leaves in the store: the pair of state and status after
/// the message is routed, decoded and applied — or the old pair, untouched,
/// when the message is malformed or unrecognized.
pub open spec fn spec_apply_message(
    state: SvenState,
    status: Seq<u8>,
    topic: Seq<u8>,
    payload: Seq<u8>,
) -> (SvenState, Seq<u8>) {
    if topic == spec_topic_state() {
        match spec_parse_state(payload) {
            Some(v) => (v, status),
            None => (state, status),
        }
    } else if topic == spec_topic_status() {
        if spec_is_utf8(payload) {
            (state, payload)
        } else {
            (state, status)
        }
    } else {
        (state, status)
    }
}

/// The bytes of the state topic's name.
fn topic_state_bytes() -> (r: Vec<u8>)
    ensures
        r@ == spec_topic_state(),
{
    let mut v: Vec<u8> = Vec::new();
    v.push(115);
    v.push(118);
    v.push(101);
    v.push(110);
    v.push(47);
    v.push(115);
    v.push(116);
    v.push(97);
    v.push(116);
    v.push(101);
    proof {
        assert(v@ =~= spec_topic_state());
    }
    v
}

/// The bytes of the status topic's name.
fn topic_status_bytes() -> (r: Vec<u8>)
    ensures
        r@ == spec_topic_status(),
{
    let mut v: Vec<u8> = Vec::new();
    v.push(115);
    v.push(118);
    v.push(101);
    v.push(110);
    v.push(47);
    v.push(115);
    v.push(116);
    v.push(97);
    v.push(116);
    v.push(117);
    v.push(115);
    proof {
        assert(v@ =~= spec_topic_status());
    }
    v
}

/// Whether a slice holds exactly the bytes of `pat`.
fn bytes_eq(a: &[u8], pat: &Vec<u8>) -> (r: bool)
    ensures
        r == (a@ == pat@),
{
    if a.len() != pat.len() {
        return false;
    }
    let mut t: usize = 0;
    while t < pat.len()
        invariant
            t <= pat@.len(),
            a@.len() == pat@.len(),
            forall|m: int| 0 <= m < t ==> a@[m] == pat@[m],
        decreases pat@.len() - t,
    {
        if a[t] != pat[t] {
            return false;
        }
        t = t + 1;
    }
    proof {
        assert(a@ =~= pat@);
    }
    true
}

/// Route one inbound message into the store. A malformed payload or an
/// unknown topic leaves the store exactly as it was — never a partial write.
pub fn handle_message(store: &mut DeskStore, topic: &[u8], payload: &[u8]) -> (r: MirrorOutcome)
    ensures
        (final(store).state_model(), final(store).status_model()) == spec_apply_message(
            old(store).state_model(),
            old(store).status_model(),
            topic@,
            payload@,
        ),
        r is StateUpdated <==> topic@ == spec_topic_state() && spec_parse_state(payload@) is Some,
        r is StateRejected <==> topic@ == spec_topic_state() && spec_parse_state(payload@) is None,
        r is StatusUpdated <==> topic@ != spec_topic_state() && topic@ == spec_topic_status()
            && spec_is_utf8(payload@),
        r is StatusRejected <==> topic@ != spec_topic_state() && topic@ == spec_topic_status()
            && !spec_is_utf8(payload@),
        r is Unrecognized <==> topic@ != spec_topic_state() && topic@ != spec_topic_status(),
        !(r is StateUpdated || r is StatusUpdated) ==> final(store).state_model() == old(
            store,
        ).state_model() && final(store).status_model() == old(store).status_model(),
{
    if bytes_eq(topic, &topic_state_bytes()) {
        match parse_state(payload) {
            Some(v) => {
                store.write_state(v);
                MirrorOutcome::StateUpdated
            },
            None => MirrorOutcome::StateRejected,
        }
    } else if bytes_eq(topic, &topic_status_bytes()) {
        if is_utf8(payload) {
            store.write_status(vstd::slice::slice_to_vec(payload));
            MirrorOutcome::StatusUpdated
        } else {
            MirrorOutcome::StatusRejected
        }
    } else {
        MirrorOutcome::Unrecognized
    }
}

/// What a whole inbound sequence leaves in the store, message by message in
/// arrival order.
pub open spec fn spec_mirror_run(
    state: SvenState,
    status: Seq<u8>,
    msgs: Seq<(Seq<u8>, Seq<u8>)>,
) -> (SvenState, Seq<u8>)
    decreases msgs.len(),
{
    if msgs.len() == 0 {
        (state, status)
    } else {
        let prev = spec_mirror_run(state, status, msgs.drop_last());
        spec_apply_message(prev.0, prev.1, msgs.last().0, msgs.last().1)
    }
}

/// The state carried by the most recent valid state report in `msgs`, or
/// `dflt` when there is none.
pub open spec fn spec_last_reported_state(dflt: SvenState, msgs: Seq<(Seq<u8>, Seq<u8>)>) -> SvenState
    decreases msgs.len(),
{
    if msgs.len() == 0 {
        dflt
    } else if msgs.last().0 == spec_topic_state() && spec_parse_state(msgs.last().1) is Some {
        spec_parse_state(msgs.last().1)->Some_0
    } else {
        spec_last_reported_state(dflt, msgs.drop_last())
    }
}

/// The text carried by the most recent well-formed status message in `msgs`,
/// or `dflt` when there is none.
pub open spec fn spec_last_reported_status(dflt: Seq<u8>, msgs: Seq<(Seq<u8>, Seq<u8>)>) -> Seq<u8>
    decreases msgs.len(),
{
    if msgs.len() == 0 {
        dflt
    } else if msgs.last().0 != spec_topic_state() && msgs.last().0 == spec_topic_status()
        && spec_is_utf8(msgs.last().1) {
        msgs.last().1
    } else {
        spec_last_reported_status(dflt, msgs.drop_last())
    }
}

/// Last write wins: after any sequence of inbound messages, the store holds
/// exactly the state of the most recent valid state report — malformed
/// messages and other topics in between change nothing — and likewise the
/// text of the most recent well-formed status message.
pub proof fn lemma_mirror_follows_last_valid(
    state: SvenState,
    status: Seq<u8>,
    msgs: Seq<(Seq<u8>, Seq<u8>)>,
)
    ensures
        spec_mirror_run(state, status, msgs).0 == spec_last_reported_state(state, msgs),
        spec_mirror_run(state, status, msgs).1 == spec_last_reported_status(status, msgs),
    decreases msgs.len(),
{
    if msgs.len() > 0 {
        lemma_mirror_follows_last_valid(state, status, msgs.drop_last());
    }
}

/// Applying the same message twice leaves the store exactly as applying it
/// once: a re-delivered report, or the settled report that a re-issued
/// absolute-height command produces again, converges instead of compounding.
pub proof fn lemma_apply_idempotent(
    state: SvenState,
    status: Seq<u8>,
    topic: Seq<u8>,
    payload: Seq<u8>,
)
    ensures
        spec_apply_message(
            spec_apply_message(state, status, topic, payload).0,
            spec_apply_message(state, status, topic, payload).1,
            topic,
            payload,
        ) == spec_apply_message(state, status, topic, payload),
{
}

} // verus!
