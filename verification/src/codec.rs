//! The wire format of the bus messages: JSON documents of a fixed shape.
//!
//! Outbound commands are encoded as `{"command":"<kind>","value":<n>}`.
//! Inbound state reports are parsed from `{"height_mm":<n>,"position":"<name>"}`,
//! with insignificant whitespace allowed between tokens and the two members
//! accepted in either order. A payload of any other shape is rejected as a
//! whole.

use vstd::prelude::*;
use crate::device::DeskCommand;
use crate::device::SvenCommand;
use crate::device::SvenPosition;
use crate::device::SvenState;

verus! {

/// `"` starts and ends every string token.
pub const B_QUOTE: u8 = 34;

/// `,` separates the two members.
pub const B_COMMA: u8 = 44;

/// `:` separates a key from its value.
pub const B_COLON: u8 = 58;

/// `{` opens the document.
pub const B_LBRACE: u8 = 123;

/// `}` closes the document.
pub const B_RBRACE: u8 = 125;

/// `0`, the first decimal digit.
pub const B_ZERO: u8 = 48;

/// The largest value a payload number may take.
pub const NUMBER_MAX: u32 = 4294967295;

/// Whether a byte is insignificant whitespace between tokens.
pub open spec fn spec_is_ws(b: u8) -> bool {
    b == 32 || b == 9 || b == 10 || b == 13
}

/// Whether a byte is a decimal digit.
pub open spec fn spec_is_digit(b: u8) -> bool {
    B_ZERO <= b <= 57
}

/// The key of the height member, `height_mm`.
pub open spec fn spec_key_height() -> Seq<u8> {
    seq![104u8, 101, 105, 103, 104, 116, 95, 109, 109]
}

/// The key of the position member, `position`.
pub open spec fn spec_key_position() -> Seq<u8> {
    seq![112u8, 111, 115, 105, 116, 105, 111, 110]
}

/// The key of a command's kind member, `command`.
pub open spec fn spec_key_command() -> Seq<u8> {
    seq![99u8, 111, 109, 109, 97, 110, 100]
}

/// The key of a command's payload member, `value`.
pub open spec fn spec_key_value() -> Seq<u8> {
    seq![118u8, 97, 108, 117, 101]
}

/// The name under which a position appears on the wire.
pub open spec fn spec_pos_name(p: SvenPosition) -> Seq<u8> {
    match p {
        SvenPosition::Bottom => seq![66u8, 111, 116, 116, 111, 109],
        SvenPosition::Top => seq![84u8, 111, 112],
        SvenPosition::Armrest => seq![65u8, 114, 109, 114, 101, 115, 116],
        SvenPosition::AboveArmrest => seq![65u8, 98, 111, 118, 101, 65, 114, 109, 114, 101, 115, 116],
        SvenPosition::Standing => seq![83u8, 116, 97, 110, 100, 105, 110, 103],
        SvenPosition::Custom => seq![67u8, 117, 115, 116, 111, 109],
    }
}

/// The name under which a command kind appears on the wire.
pub open spec fn spec_cmd_name(c: SvenCommand) -> Seq<u8> {
    match c {
        SvenCommand::UpDuration => seq![85u8, 112, 68, 117, 114, 97, 116, 105, 111, 110],
        SvenCommand::DownDuration => seq![68u8, 111, 119, 110, 68, 117, 114, 97, 116, 105, 111, 110],
        SvenCommand::UpRelative => seq![85u8, 112, 82, 101, 108, 97, 116, 105, 118, 101],
        SvenCommand::DownRelative => seq![68u8, 111, 119, 110, 82, 101, 108, 97, 116, 105, 118, 101],
        SvenCommand::AbsoluteHeight => seq![65u8, 98, 115, 111, 108, 117, 116, 101, 72, 101, 105, 103, 104, 116],
        SvenCommand::Position => seq![80u8, 111, 115, 105, 116, 105, 111, 110],
    }
}

/// The position a wire name stands for, if any.
pub open spec fn spec_name_position(name: Seq<u8>) -> Option<SvenPosition> {
    if name == spec_pos_name(SvenPosition::Bottom) {
        Some(SvenPosition::Bottom)
    } else if name == spec_pos_name(SvenPosition::Top) {
        Some(SvenPosition::Top)
    } else if name == spec_pos_name(SvenPosition::Armrest) {
        Some(SvenPosition::Armrest)
    } else if name == spec_pos_name(SvenPosition::AboveArmrest) {
        Some(SvenPosition::AboveArmrest)
    } else if name == spec_pos_name(SvenPosition::Standing) {
        Some(SvenPosition::Standing)
    } else if name == spec_pos_name(SvenPosition::Custom) {
        Some(SvenPosition::Custom)
    } else {
        None
    }
}

/// The decimal digits of `n`, most significant first.
pub open spec fn spec_digits_of(n: int) -> Seq<u8>
    decreases n,
{
    if n < 10 {
        seq![(B_ZERO + n) as u8]
    } else {
        spec_digits_of(n / 10) + seq![(B_ZERO + n % 10) as u8]
    }
}

/// The value of a sequence of decimal digits, most significant first.
pub open spec fn spec_digits_value(s: Seq<u8>) -> int
    decreases s.len(),
{
    if s.len() == 0 {
        0
    } else {
        spec_digits_value(s.drop_last()) * 10 + (s.last() - B_ZERO)
    }
}

/// The encoding of a state report: both members, height first, no
/// whitespace.
pub open spec fn spec_encode_state(v: SvenState) -> Seq<u8> {
    seq![B_LBRACE, B_QUOTE] + spec_key_height() + seq![B_QUOTE, B_COLON]
        + spec_digits_of(v.height_mm as int) + seq![B_COMMA, B_QUOTE] + spec_key_position()
        + seq![B_QUOTE, B_COLON, B_QUOTE] + spec_pos_name(v.position) + seq![B_QUOTE, B_RBRACE]
}

/// The encoding of a command: kind first, then the payload, no whitespace.
pub open spec fn spec_encode_command(c: DeskCommand) -> Seq<u8> {
    seq![B_LBRACE, B_QUOTE] + spec_key_command() + seq![B_QUOTE, B_COLON, B_QUOTE]
        + spec_cmd_name(c.command) + seq![B_QUOTE, B_COMMA, B_QUOTE] + spec_key_value()
        + seq![B_QUOTE, B_COLON] + spec_digits_of(c.value as int) + seq![B_RBRACE]
}

/// The first index at or after `i` that does not hold whitespace.
pub open spec fn spec_skip_ws(s: Seq<u8>, i: int) -> int
    decreases s.len() - i,
{
    if 0 <= i < s.len() && spec_is_ws(s[i]) {
        spec_skip_ws(s, i + 1)
    } else {
        i
    }
}

/// The index of the next `"` at or after `i`, if there is one.
pub open spec fn spec_scan_quote(s: Seq<u8>, i: int) -> Option<int>
    decreases s.len() - i,
{
    if i >= s.len() {
        None
    } else if s[i] == B_QUOTE {
        Some(i)
    } else {
        spec_scan_quote(s, i + 1)
    }
}

/// The first index at or after `i` that does not hold a digit.
pub open spec fn spec_scan_digits(s: Seq<u8>, i: int) -> int
    decreases s.len() - i,
{
    if 0 <= i < s.len() && spec_is_digit(s[i]) {
        spec_scan_digits(s, i + 1)
    } else {
        i
    }
}

/// After optional whitespace, the single byte `b`; yields the index after it.
pub open spec fn spec_tok_byte(s: Seq<u8>, i: int, b: u8) -> Option<int> {
    let j = spec_skip_ws(s, i);
    if j < s.len() && s[j] == b {
        Some(j + 1)
    } else {
        None
    }
}

/// After optional whitespace, a quoted string with no escapes; yields its
/// contents and the index after the closing quote.
pub open spec fn spec_tok_string(s: Seq<u8>, i: int) -> Option<(Seq<u8>, int)> {
    let j = spec_skip_ws(s, i);
    if j < s.len() && s[j] == B_QUOTE {
        match spec_scan_quote(s, j + 1) {
            Some(k) => Some((s.subrange(j + 1, k), k + 1)),
            None => None,
        }
    } else {
        None
    }
}

/// After optional whitespace, an unsigned decimal number: at least one
/// digit, no redundant leading zero, value within `NUMBER_MAX`.
pub open spec fn spec_tok_number(s: Seq<u8>, i: int) -> Option<(u32, int)> {
    let j = spec_skip_ws(s, i);
    let k = spec_scan_digits(s, j);
    if j < k && (s[j] == B_ZERO ==> k == j + 1) && spec_digits_value(s.subrange(j, k)) <= NUMBER_MAX {
        Some((spec_digits_value(s.subrange(j, k)) as u32, k))
    } else {
        None
    }
}

/// A colon, then a number: the tail of the height member.
pub open spec fn spec_height_value(s: Seq<u8>, i: int) -> Option<(u32, int)> {
    match spec_tok_byte(s, i, B_COLON) {
        Some(j) => spec_tok_number(s, j),
        None => None,
    }
}

/// A colon, then one of the six position names in quotes: the tail of the
/// position member.
pub open spec fn spec_position_value(s: Seq<u8>, i: int) -> Option<(SvenPosition, int)> {
    match spec_tok_byte(s, i, B_COLON) {
        Some(j) => match spec_tok_string(s, j) {
            Some((name, k)) => match spec_name_position(name) {
                Some(p) => Some((p, k)),
                None => None,
            },
            None => None,
        },
        None => None,
    }
}

/// The closing brace and the end of the payload; nothing but whitespace may
/// follow.
pub open spec fn spec_finish(s: Seq<u8>, i: int, v: SvenState) -> Option<SvenState> {
    match spec_tok_byte(s, i, B_RBRACE) {
        Some(j) => if spec_skip_ws(s, j) == s.len() {
            Some(v)
        } else {
            None
        },
        None => None,
    }
}

/// The state a payload decodes to, if it is a well-formed state report:
/// a document with exactly the height and position members, in either order.
pub open spec fn spec_parse_state(s: Seq<u8>) -> Option<SvenState> {
    match spec_tok_byte(s, 0, B_LBRACE) {
        None => None,
        Some(i1) => match spec_tok_string(s, i1) {
            None => None,
            Some((key1, i2)) => if key1 == spec_key_height() {
                match spec_height_value(s, i2) {
                    None => None,
                    Some((h, i3)) => match spec_tok_byte(s, i3, B_COMMA) {
                        None => None,
                        Some(i4) => match spec_tok_string(s, i4) {
                            None => None,
                            Some((key2, i5)) => if key2 == spec_key_position() {
                                match spec_position_value(s, i5) {
                                    None => None,
                                    Some((p, i6)) => spec_finish(
                                        s,
                                        i6,
                                        SvenState { height_mm: h, position: p },
                                    ),
                                }
                            } else {
                                None
                            },
                        },
                    },
                }
            } else if key1 == spec_key_position() {
                match spec_position_value(s, i2) {
                    None => None,
                    Some((p, i3)) => match spec_tok_byte(s, i3, B_COMMA) {
                        None => None,
                        Some(i4) => match spec_tok_string(s, i4) {
                            None => None,
                            Some((key2, i5)) => if key2 == spec_key_height() {
                                match spec_height_value(s, i5) {
                                    None => None,
                                    Some((h, i6)) => spec_finish(
                                        s,
                                        i6,
                                        SvenState { height_mm: h, position: p },
                                    ),
                                }
                            } else {
                                None
                            },
                        },
                    },
                }
            } else {
                None
            },
        },
    }
}

fn push_key_height(out: &mut Vec<u8>)
    ensures
        final(out)@ == old(out)@ + spec_key_height(),
{
    out.push(104);
    out.push(101);
    out.push(105);
    out.push(103);
    out.push(104);
    out.push(116);
    out.push(95);
    out.push(109);
    out.push(109);
    proof {
        assert(out@ =~= old(out)@ + spec_key_height());
    }
}

fn push_key_position(out: &mut Vec<u8>)
    ensures
        final(out)@ == old(out)@ + spec_key_position(),
{
    out.push(112);
    out.push(111);
    out.push(115);
    out.push(105);
    out.push(116);
    out.push(105);
    out.push(111);
    out.push(110);
    proof {
        assert(out@ =~= old(out)@ + spec_key_position());
    }
}

fn push_key_command(out: &mut Vec<u8>)
    ensures
        final(out)@ == old(out)@ + spec_key_command(),
{
    out.push(99);
    out.push(111);
    out.push(109);
    out.push(109);
    out.push(97);
    out.push(110);
    out.push(100);
    proof {
        assert(out@ =~= old(out)@ + spec_key_command());
    }
}

fn push_key_value(out: &mut Vec<u8>)
    ensures
        final(out)@ == old(out)@ + spec_key_value(),
{
    out.push(118);
    out.push(97);
    out.push(108);
    out.push(117);
    out.push(101);
    proof {
        assert(out@ =~= old(out)@ + spec_key_value());
    }
}

fn push_pos_name(out: &mut Vec<u8>, p: SvenPosition)
    ensures
        final(out)@ == old(out)@ + spec_pos_name(p),
{
    match p {
        SvenPosition::Bottom => {
            out.push(66);
            out.push(111);
            out.push(116);
            out.push(116);
            out.push(111);
            out.push(109);
        },
        SvenPosition::Top => {
            out.push(84);
            out.push(111);
            out.push(112);
        },
        SvenPosition::Armrest => {
            out.push(65);
            out.push(114);
            out.push(109);
            out.push(114);
            out.push(101);
            out.push(115);
            out.push(116);
        },
        SvenPosition::AboveArmrest => {
            out.push(65);
            out.push(98);
            out.push(111);
            out.push(118);
            out.push(101);
            out.push(65);
            out.push(114);
            out.push(109);
            out.push(114);
            out.push(101);
            out.push(115);
            out.push(116);
        },
        SvenPosition::Standing => {
            out.push(83);
            out.push(116);
            out.push(97);
            out.push(110);
            out.push(100);
            out.push(105);
            out.push(110);
            out.push(103);
        },
        SvenPosition::Custom => {
            out.push(67);
            out.push(117);
            out.push(115);
            out.push(116);
            out.push(111);
            out.push(109);
        },
    }
    proof {
        assert(out@ =~= old(out)@ + spec_pos_name(p));
    }
}

fn push_cmd_name(out: &mut Vec<u8>, c: SvenCommand)
    ensures
        final(out)@ == old(out)@ + spec_cmd_name(c),
{
    match c {
        SvenCommand::UpDuration => {
            out.push(85);
            out.push(112);
            out.push(68);
            out.push(117);
            out.push(114);
            out.push(97);
            out.push(116);
            out.push(105);
            out.push(111);
            out.push(110);
        },
        SvenCommand::DownDuration => {
            out.push(68);
            out.push(111);
            out.push(119);
            out.push(110);
            out.push(68);
            out.push(117);
            out.push(114);
            out.push(97);
            out.push(116);
            out.push(105);
            out.push(111);
            out.push(110);
        },
        SvenCommand::UpRelative => {
            out.push(85);
            out.push(112);
            out.push(82);
            out.push(101);
            out.push(108);
            out.push(97);
            out.push(116);
            out.push(105);
            out.push(118);
            out.push(101);
        },
        SvenCommand::DownRelative => {
            out.push(68);
            out.push(111);
            out.push(119);
            out.push(110);
            out.push(82);
            out.push(101);
            out.push(108);
            out.push(97);
            out.push(116);
            out.push(105);
            out.push(118);
            out.push(101);
        },
        SvenCommand::AbsoluteHeight => {
            out.push(65);
            out.push(98);
            out.push(115);
            out.push(111);
            out.push(108);
            out.push(117);
            out.push(116);
            out.push(101);
            out.push(72);
            out.push(101);
            out.push(105);
            out.push(103);
            out.push(104);
            out.push(116);
        },
        SvenCommand::Position => {
            out.push(80);
            out.push(111);
            out.push(115);
            out.push(105);
            out.push(116);
            out.push(105);
            out.push(111);
            out.push(110);
        },
    }
    proof {
        assert(out@ =~= old(out)@ + spec_cmd_name(c));
    }
}

/// The decimal digits of `n`, most significant first.
fn push_digits(out: &mut Vec<u8>, n: u32)
    ensures
        final(out)@ == old(out)@ + spec_digits_of(n as int),
    decreases n,
{
    if n >= 10 {
        push_digits(out, n / 10);
    }
    out.push(B_ZERO + (n % 10) as u8);
    proof {
        assert(out@ =~= old(out)@ + spec_digits_of(n as int));
    }
}

/// The bytes of the height key, for comparisons while parsing.
fn key_height_bytes() -> (r: Vec<u8>)
    ensures
        r@ == spec_key_height(),
{
    let mut v: Vec<u8> = Vec::new();
    push_key_height(&mut v);
    proof {
        assert(v@ =~= spec_key_height());
    }
    v
}

/// The bytes of the position key, for comparisons while parsing.
fn key_position_bytes() -> (r: Vec<u8>)
    ensures
        r@ == spec_key_position(),
{
    let mut v: Vec<u8> = Vec::new();
    push_key_position(&mut v);
    proof {
        assert(v@ =~= spec_key_position());
    }
    v
}

/// The bytes of a position's wire name, for comparisons while parsing.
fn pos_name_bytes(p: SvenPosition) -> (r: Vec<u8>)
    ensures
        r@ == spec_pos_name(p),
{
    let mut v: Vec<u8> = Vec::new();
    push_pos_name(&mut v, p);
    proof {
        assert(v@ =~= spec_pos_name(p));
    }
    v
}

/// Whether the bytes of `s` in `[a, b)` are exactly `pat`.
fn range_eq(s: &[u8], a: usize, b: usize, pat: &Vec<u8>) -> (r: bool)
    requires
        a <= b <= s@.len(),
    ensures
        r == (s@.subrange(a as int, b as int) == pat@),
{
    if b - a != pat.len() {
        proof {
            assert(s@.subrange(a as int, b as int).len() != pat@.len());
        }
        return false;
    }
    let mut t: usize = 0;
    while t < pat.len()
        invariant
            a <= b <= s@.len(),
            b - a == pat@.len(),
            t <= pat@.len(),
            forall|m: int| 0 <= m < t ==> s@[a + m] == pat@[m],
        decreases pat@.len() - t,
    {
        if s[a + t] != pat[t] {
            proof {
                assert(s@.subrange(a as int, b as int)[t as int] == s@[a + t]);
            }
            return false;
        }
        t = t + 1;
    }
    proof {
        assert(s@.subrange(a as int, b as int) =~= pat@);
    }
    true
}

/// The position whose wire name stands in `s` at `[a, b)`, if any.
fn name_to_position(s: &[u8], a: usize, b: usize) -> (r: Option<SvenPosition>)
    requires
        a <= b <= s@.len(),
    ensures
        r == spec_name_position(s@.subrange(a as int, b as int)),
{
    if range_eq(s, a, b, &pos_name_bytes(SvenPosition::Bottom)) {
        Some(SvenPosition::Bottom)
    } else if range_eq(s, a, b, &pos_name_bytes(SvenPosition::Top)) {
        Some(SvenPosition::Top)
    } else if range_eq(s, a, b, &pos_name_bytes(SvenPosition::Armrest)) {
        Some(SvenPosition::Armrest)
    } else if range_eq(s, a, b, &pos_name_bytes(SvenPosition::AboveArmrest)) {
        Some(SvenPosition::AboveArmrest)
    } else if range_eq(s, a, b, &pos_name_bytes(SvenPosition::Standing)) {
        Some(SvenPosition::Standing)
    } else if range_eq(s, a, b, &pos_name_bytes(SvenPosition::Custom)) {
        Some(SvenPosition::Custom)
    } else {
        None
    }
}

/// The index of the first non-whitespace byte at or after `i`.
fn skip_ws(s: &[u8], i: usize) -> (r: usize)
    requires
        i <= s@.len(),
    ensures
        r == spec_skip_ws(s@, i as int),
        i <= r <= s@.len(),
{
    let n: usize = s.len();
    let mut j: usize = i;
    while j < n && (s[j] == 32 || s[j] == 9 || s[j] == 10 || s[j] == 13)
        invariant
            i <= j <= n,
            n == s@.len(),
            spec_skip_ws(s@, i as int) == spec_skip_ws(s@, j as int),
        decreases n - j,
    {
        j = j + 1;
    }
    j
}

/// The index of the first non-digit byte at or after `i`.
fn scan_digits(s: &[u8], i: usize) -> (r: usize)
    requires
        i <= s@.len(),
    ensures
        r == spec_scan_digits(s@, i as int),
        i <= r <= s@.len(),
        forall|m: int| i <= m < r ==> spec_is_digit(s@[m]),
    decreases s@.len() - i,
{
    let n: usize = s.len();
    let mut j: usize = i;
    while j < n && B_ZERO <= s[j] && s[j] <= 57
        invariant
            i <= j <= n,
            n == s@.len(),
            spec_scan_digits(s@, i as int) == spec_scan_digits(s@, j as int),
            forall|m: int| i <= m < j ==> spec_is_digit(s@[m]),
        decreases n - j,
    {
        j = j + 1;
    }
    j
}

/// After optional whitespace, the single byte `b`.
fn tok_byte(s: &[u8], i: usize, b: u8) -> (r: Option<usize>)
    requires
        i <= s@.len(),
    ensures
        match r {
            Some(j) => spec_tok_byte(s@, i as int, b) == Some(j as int) && i < j <= s@.len(),
            None => spec_tok_byte(s@, i as int, b) is None,
        },
{
    let j: usize = skip_ws(s, i);
    if j < s.len() && s[j] == b {
        Some(j + 1)
    } else {
        None
    }
}

/// After optional whitespace, a quoted string with no escapes; yields the
/// bounds of its contents. The index after the closing quote is `r.1 + 1`.
fn tok_string(s: &[u8], i: usize) -> (r: Option<(usize, usize)>)
    requires
        i <= s@.len(),
    ensures
        match r {
            Some(ab) => {
                &&& spec_tok_string(s@, i as int) == Some(
                    (s@.subrange(ab.0 as int, ab.1 as int), ab.1 as int + 1),
                )
                &&& i < ab.0 <= ab.1 < s@.len()
            },
            None => spec_tok_string(s@, i as int) is None,
        },
{
    let n: usize = s.len();
    let j: usize = skip_ws(s, i);
    if !(j < n && s[j] == B_QUOTE) {
        return None;
    }
    let mut k: usize = j + 1;
    loop
        invariant
            i <= j < n,
            j + 1 <= k <= n,
            n == s@.len(),
            spec_skip_ws(s@, i as int) == j,
            s@[j as int] == B_QUOTE,
            spec_scan_quote(s@, j + 1) == spec_scan_quote(s@, k as int),
        decreases n - k,
    {
        if k >= n {
            return None;
        }
        if s[k] == B_QUOTE {
            return Some((j + 1, k));
        }
        k = k + 1;
    }
}

/// Every digit sequence has a value of at least zero.
proof fn lemma_digits_value_nonneg(s: Seq<u8>)
    requires
        forall|m: int| 0 <= m < s.len() ==> spec_is_digit(s[m]),
    ensures
        spec_digits_value(s) >= 0,
    decreases s.len(),
{
    if s.len() > 0 {
        lemma_digits_value_nonneg(s.drop_last());
    }
}

/// Extending a digit sequence to the right never shrinks its value.
proof fn lemma_digits_value_extend(s: Seq<u8>, i: int, p: int, q: int)
    requires
        0 <= i <= p <= q <= s.len(),
        forall|m: int| i <= m < q ==> spec_is_digit(s[m]),
    ensures
        spec_digits_value(s.subrange(i, p)) <= spec_digits_value(s.subrange(i, q)),
    decreases q - p,
{
    if p < q {
        lemma_digits_value_extend(s, i, p, q - 1);
        assert(s.subrange(i, q).drop_last() =~= s.subrange(i, q - 1));
        assert(forall|m: int| 0 <= m < q - 1 - i ==> spec_is_digit(#[trigger] s.subrange(i, q - 1)[m]));
        lemma_digits_value_nonneg(s.subrange(i, q - 1));
    }
}

/// After optional whitespace, an unsigned decimal number.
fn tok_number(s: &[u8], i: usize) -> (r: Option<(u32, usize)>)
    requires
        i <= s@.len(),
    ensures
        match r {
            Some(vj) => spec_tok_number(s@, i as int) == Some((vj.0, vj.1 as int)) && i <= vj.1
                <= s@.len(),
            None => spec_tok_number(s@, i as int) is None,
        },
{
    let n: usize = s.len();
    let j: usize = skip_ws(s, i);
    let k: usize = scan_digits(s, j);
    if k == j {
        return None;
    }
    if s[j] == B_ZERO && k > j + 1 {
        return None;
    }
    let mut acc: u64 = 0;
    let mut t: usize = j;
    while t < k
        invariant
            i <= j <= t <= k <= n,
            n == s@.len(),
            spec_skip_ws(s@, i as int) == j,
            spec_scan_digits(s@, j as int) == k,
            forall|m: int| j <= m < k ==> spec_is_digit(s@[m]),
            acc == spec_digits_value(s@.subrange(j as int, t as int)),
            acc <= NUMBER_MAX,
        decreases k - t,
    {
        let d: u64 = (s[t] - B_ZERO) as u64;
        let next: u64 = acc * 10 + d;
        proof {
            assert(s@.subrange(j as int, t + 1).drop_last() =~= s@.subrange(j as int, t as int));
        }
        if next > NUMBER_MAX as u64 {
            proof {
                lemma_digits_value_extend(s@, j as int, t + 1, k as int);
            }
            return None;
        }
        acc = next;
        t = t + 1;
    }
    Some((acc as u32, k))
}

/// A colon, then a number: the tail of the height member.
fn height_value(s: &[u8], i: usize) -> (r: Option<(u32, usize)>)
    requires
        i <= s@.len(),
    ensures
        match r {
            Some(vj) => spec_height_value(s@, i as int) == Some((vj.0, vj.1 as int)) && i <= vj.1
                <= s@.len(),
            None => spec_height_value(s@, i as int) is None,
        },
{
    let j: usize = match tok_byte(s, i, B_COLON) {
        Some(j) => j,
        None => return None,
    };
    tok_number(s, j)
}

/// A colon, then a quoted position name: the tail of the position member.
fn position_value(s: &[u8], i: usize) -> (r: Option<(SvenPosition, usize)>)
    requires
        i <= s@.len(),
    ensures
        match r {
            Some(pj) => spec_position_value(s@, i as int) == Some((pj.0, pj.1 as int)) && i <= pj.1
                <= s@.len(),
            None => spec_position_value(s@, i as int) is None,
        },
{
    let j: usize = match tok_byte(s, i, B_COLON) {
        Some(j) => j,
        None => return None,
    };
    let ab: (usize, usize) = match tok_string(s, j) {
        Some(ab) => ab,
        None => return None,
    };
    let n: usize = s.len();
    match name_to_position(s, ab.0, ab.1) {
        Some(p) => Some((p, ab.1 + 1)),
        None => None,
    }
}

/// The closing brace and the end of the payload.
fn finish(s: &[u8], i: usize, v: SvenState) -> (r: Option<SvenState>)
    requires
        i <= s@.len(),
    ensures
        r == spec_finish(s@, i as int, v),
{
    let j: usize = match tok_byte(s, i, B_RBRACE) {
        Some(j) => j,
        None => return None,
    };
    if skip_ws(s, j) == s.len() {
        Some(v)
    } else {
        None
    }
}

/// Decode a state report, if the payload is well-formed; any malformed
/// payload is rejected as a whole.
pub fn parse_state(s: &[u8]) -> (r: Option<SvenState>)
    ensures
        r == spec_parse_state(s@),
{
    let n: usize = s.len();
    let key_h: Vec<u8> = key_height_bytes();
    let key_p: Vec<u8> = key_position_bytes();
    let i1: usize = match tok_byte(s, 0, B_LBRACE) {
        Some(i) => i,
        None => return None,
    };
    let ab1: (usize, usize) = match tok_string(s, i1) {
        Some(ab) => ab,
        None => return None,
    };
    let i2: usize = ab1.1 + 1;
    if range_eq(s, ab1.0, ab1.1, &key_h) {
        let hv: (u32, usize) = match height_value(s, i2) {
            Some(x) => x,
            None => return None,
        };
        let i4: usize = match tok_byte(s, hv.1, B_COMMA) {
            Some(i) => i,
            None => return None,
        };
        let ab2: (usize, usize) = match tok_string(s, i4) {
            Some(ab) => ab,
            None => return None,
        };
        if !range_eq(s, ab2.0, ab2.1, &key_p) {
            return None;
        }
        let pv: (SvenPosition, usize) = match position_value(s, ab2.1 + 1) {
            Some(x) => x,
            None => return None,
        };
        finish(s, pv.1, SvenState { height_mm: hv.0, position: pv.0 })
    } else if range_eq(s, ab1.0, ab1.1, &key_p) {
        let pv: (SvenPosition, usize) = match position_value(s, i2) {
            Some(x) => x,
            None => return None,
        };
        let i4: usize = match tok_byte(s, pv.1, B_COMMA) {
            Some(i) => i,
            None => return None,
        };
        let ab2: (usize, usize) = match tok_string(s, i4) {
            Some(ab) => ab,
            None => return None,
        };
        if !range_eq(s, ab2.0, ab2.1, &key_h) {
            return None;
        }
        let hv: (u32, usize) = match height_value(s, ab2.1 + 1) {
            Some(x) => x,
            None => return None,
        };
        finish(s, hv.1, SvenState { height_mm: hv.0, position: pv.0 })
    } else {
        None
    }
}

/// Encode a state report the way the desk publishes it.
pub fn encode_state(v: &SvenState) -> (r: Vec<u8>)
    ensures
        r@ == spec_encode_state(*v),
{
    let mut out: Vec<u8> = Vec::new();
    out.push(B_LBRACE);
    out.push(B_QUOTE);
    push_key_height(&mut out);
    out.push(B_QUOTE);
    out.push(B_COLON);
    push_digits(&mut out, v.height_mm);
    out.push(B_COMMA);
    out.push(B_QUOTE);
    push_key_position(&mut out);
    out.push(B_QUOTE);
    out.push(B_COLON);
    out.push(B_QUOTE);
    push_pos_name(&mut out, v.position);
    out.push(B_QUOTE);
    out.push(B_RBRACE);
    proof {
        assert(out@ =~= spec_encode_state(*v));
    }
    out
}

/// Encode a command for the outbound commands topic.
pub fn encode_command(c: &DeskCommand) -> (r: Vec<u8>)
    ensures
        r@ == spec_encode_command(*c),
{
    let mut out: Vec<u8> = Vec::new();
    out.push(B_LBRACE);
    out.push(B_QUOTE);
    push_key_command(&mut out);
    out.push(B_QUOTE);
    out.push(B_COLON);
    out.push(B_QUOTE);
    push_cmd_name(&mut out, c.command);
    out.push(B_QUOTE);
    out.push(B_COMMA);
    out.push(B_QUOTE);
    push_key_value(&mut out);
    out.push(B_QUOTE);
    out.push(B_COLON);
    push_digits(&mut out, c.value);
    out.push(B_RBRACE);
    proof {
        assert(out@ =~= spec_encode_command(*c));
    }
    out
}

/// A number's decimal digits are digits, and there is at least one.
proof fn lemma_digits_of_are_digits(n: int)
    requires
        n >= 0,
    ensures
        spec_digits_of(n).len() >= 1,
        forall|k: int| 0 <= k < spec_digits_of(n).len() ==> spec_is_digit(
            #[trigger] spec_digits_of(n)[k],
        ),
    decreases n,
{
    if n >= 10 {
        lemma_digits_of_are_digits(n / 10);
    }
}

/// Reading a number's decimal digits back gives the number.
proof fn lemma_digits_of_value(n: int)
    requires
        n >= 0,
    ensures
        spec_digits_value(spec_digits_of(n)) == n,
    decreases n,
{
    if n < 10 {
        let s = spec_digits_of(n);
        assert(s.len() == 1);
        assert(s.last() == (B_ZERO + n) as u8);
        assert((B_ZERO + n) as u8 == B_ZERO + n);
        assert(s.drop_last() =~= Seq::<u8>::empty());
        assert(spec_digits_value(Seq::<u8>::empty()) == 0);
        assert(spec_digits_value(s) == spec_digits_value(s.drop_last()) * 10 + (s.last()
            - B_ZERO));
    } else {
        lemma_digits_of_value(n / 10);
        assert(spec_digits_of(n).drop_last() =~= spec_digits_of(n / 10));
        assert(spec_digits_of(n).last() == (B_ZERO + n % 10) as u8);
    }
}

/// Only zero's decimal digits start with the digit zero.
proof fn lemma_digits_of_first(n: int)
    requires
        n >= 1,
    ensures
        spec_digits_of(n)[0] != B_ZERO,
    decreases n,
{
    if n >= 10 {
        lemma_digits_of_are_digits(n / 10);
        lemma_digits_of_first(n / 10);
        assert(spec_digits_of(n)[0] == spec_digits_of(n / 10)[0]);
    }
}

/// Scanning from `i` finds the quote at `j` when nothing before it is one.
proof fn lemma_scan_quote_finds(s: Seq<u8>, i: int, j: int)
    requires
        0 <= i <= j < s.len(),
        forall|m: int| i <= m < j ==> s[m] != B_QUOTE,
        s[j] == B_QUOTE,
    ensures
        spec_scan_quote(s, i) == Some(j),
    decreases j - i,
{
    if i < j {
        lemma_scan_quote_finds(s, i + 1, j);
    }
}

/// Scanning from `i` stops exactly at `j` when `[i, j)` holds digits and
/// `j` does not.
proof fn lemma_scan_digits_finds(s: Seq<u8>, i: int, j: int)
    requires
        0 <= i <= j <= s.len(),
        forall|m: int| i <= m < j ==> spec_is_digit(s[m]),
        j < s.len() ==> !spec_is_digit(s[j]),
    ensures
        spec_scan_digits(s, i) == j,
    decreases j - i,
{
    if i < j {
        lemma_scan_digits_finds(s, i + 1, j);
    }
}

/// No position's wire name holds a quote, and none is empty.
proof fn lemma_pos_name_quote_free(p: SvenPosition)
    ensures
        spec_pos_name(p).len() >= 1,
        forall|t: int| 0 <= t < spec_pos_name(p).len() ==> #[trigger] spec_pos_name(p)[t]
            != B_QUOTE,
{
}

/// Encoding a state and decoding the bytes gives the state back: the parser
/// accepts everything the encoder emits, unchanged.
#[verifier::rlimit(100)]
pub proof fn lemma_parse_encode_state(v: SvenState)
    ensures
        spec_parse_state(spec_encode_state(v)) == Some(v),
{
    let s = spec_encode_state(v);
    let d = spec_digits_of(v.height_mm as int);
    let nm = spec_pos_name(v.position);
    let l = d.len() as int;
    let m = nm.len() as int;
    lemma_digits_of_are_digits(v.height_mm as int);
    lemma_pos_name_quote_free(v.position);
    assert(s.len() == 28 + l + m);
    assert(s[0] == B_LBRACE);
    assert(s[1] == B_QUOTE);
    assert(forall|t: int| 0 <= t < 9 ==> s[2 + t] == #[trigger] spec_key_height()[t]);
    assert(s[11] == B_QUOTE);
    assert(s[12] == B_COLON);
    assert(forall|t: int| 0 <= t < l ==> s[13 + t] == #[trigger] d[t]);
    assert(s[13 + l] == B_COMMA);
    assert(s[14 + l] == B_QUOTE);
    assert(forall|t: int| 0 <= t < 8 ==> s[15 + l + t] == #[trigger] spec_key_position()[t]);
    assert(s[23 + l] == B_QUOTE);
    assert(s[24 + l] == B_COLON);
    assert(s[25 + l] == B_QUOTE);
    assert(forall|t: int| 0 <= t < m ==> s[26 + l + t] == #[trigger] nm[t]);
    assert(s[26 + l + m] == B_QUOTE);
    assert(s[27 + l + m] == B_RBRACE);

    // The opening brace.
    assert(spec_skip_ws(s, 0) == 0);
    assert(spec_tok_byte(s, 0, B_LBRACE) == Some(1int));

    // The height key.
    assert(spec_skip_ws(s, 1) == 1);
    assert(forall|t: int| 0 <= t < 9 ==> #[trigger] spec_key_height()[t] != B_QUOTE);
    lemma_scan_quote_finds(s, 2, 11);
    assert(s.subrange(2, 11) =~= spec_key_height());
    assert(spec_tok_string(s, 1) == Some((spec_key_height(), 12int)));
    assert(spec_key_height() != spec_key_position());

    // The colon and the number.
    assert(spec_skip_ws(s, 12) == 12);
    assert(spec_tok_byte(s, 12, B_COLON) == Some(13int));
    assert(spec_is_digit(s[13]));
    assert(spec_skip_ws(s, 13) == 13);
    lemma_scan_digits_finds(s, 13, 13 + l);
    assert(s.subrange(13, 13 + l) =~= d);
    lemma_digits_of_value(v.height_mm as int);
    if v.height_mm == 0 {
        assert(l == 1);
    } else {
        lemma_digits_of_first(v.height_mm as int);
        assert(s[13] != B_ZERO);
    }
    assert(spec_tok_number(s, 13int) == Some((v.height_mm, 13 + l)));
    assert(spec_height_value(s, 12) == Some((v.height_mm, 13 + l)));

    // The comma and the position key.
    assert(spec_skip_ws(s, 13 + l) == 13 + l);
    assert(spec_tok_byte(s, 13 + l, B_COMMA) == Some(14 + l));
    assert(spec_skip_ws(s, 14 + l) == 14 + l);
    assert(forall|t: int| 0 <= t < 8 ==> #[trigger] spec_key_position()[t] != B_QUOTE);
    lemma_scan_quote_finds(s, 15 + l, 23 + l);
    assert(s.subrange(15 + l, 23 + l) =~= spec_key_position());
    assert(spec_tok_string(s, 14 + l) == Some((spec_key_position(), 24 + l)));

    // The colon and the position name.
    assert(spec_skip_ws(s, 24 + l) == 24 + l);
    assert(spec_tok_byte(s, 24 + l, B_COLON) == Some(25 + l));
    assert(spec_skip_ws(s, 25 + l) == 25 + l);
    lemma_scan_quote_finds(s, 26 + l, 26 + l + m);
    assert(s.subrange(26 + l, 26 + l + m) =~= nm);
    assert(spec_tok_string(s, 25 + l) == Some((nm, 27 + l + m)));
    assert(spec_name_position(nm) == Some(v.position));
    assert(spec_position_value(s, 24 + l) == Some((v.position, 27 + l + m)));

    // The closing brace and the end.
    assert(spec_skip_ws(s, 27 + l + m) == 27 + l + m);
    assert(spec_tok_byte(s, 27 + l + m, B_RBRACE) == Some(28 + l + m));
    assert(spec_skip_ws(s, 28 + l + m) == 28 + l + m);
    assert(spec_finish(s, 27 + l + m, v) == Some(v));
}

} // verus!
