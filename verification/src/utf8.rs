//! Validation of status-topic payloads, which carry freeform text and are
//! accepted only when they are well-formed UTF-8.

use vstd::prelude::*;

verus! {

/// Whether a byte is a UTF-8 continuation byte.
pub open spec fn spec_is_cont(b: u8) -> bool {
    0x80 <= b <= 0xBF
}

/// Whether the bytes from `i` on are a well-formed UTF-8 suffix: a sequence
/// of scalar encodings, shortest-form only and with the surrogate range
/// excluded.
pub open spec fn spec_is_utf8_from(s: Seq<u8>, i: int) -> bool
    decreases s.len() - i,
{
    if i >= s.len() {
        true
    } else {
        let b0 = s[i];
        if b0 < 0x80 {
            spec_is_utf8_from(s, i + 1)
        } else if 0xC2 <= b0 <= 0xDF {
            i + 1 < s.len() && spec_is_cont(s[i + 1]) && spec_is_utf8_from(s, i + 2)
        } else if b0 == 0xE0 {
            i + 2 < s.len() && 0xA0 <= s[i + 1] <= 0xBF && spec_is_cont(s[i + 2])
                && spec_is_utf8_from(s, i + 3)
        } else if 0xE1 <= b0 <= 0xEC || b0 == 0xEE || b0 == 0xEF {
            i + 2 < s.len() && spec_is_cont(s[i + 1]) && spec_is_cont(s[i + 2])
                && spec_is_utf8_from(s, i + 3)
        } else if b0 == 0xED {
            i + 2 < s.len() && 0x80 <= s[i + 1] <= 0x9F && spec_is_cont(s[i + 2])
                && spec_is_utf8_from(s, i + 3)
        } else if b0 == 0xF0 {
            i + 3 < s.len() && 0x90 <= s[i + 1] <= 0xBF && spec_is_cont(s[i + 2])
                && spec_is_cont(s[i + 3]) && spec_is_utf8_from(s, i + 4)
        } else if 0xF1 <= b0 <= 0xF3 {
            i + 3 < s.len() && spec_is_cont(s[i + 1]) && spec_is_cont(s[i + 2])
                && spec_is_cont(s[i + 3]) && spec_is_utf8_from(s, i + 4)
        } else if b0 == 0xF4 {
            i + 3 < s.len() && 0x80 <= s[i + 1] <= 0x8F && spec_is_cont(s[i + 2])
                && spec_is_cont(s[i + 3]) && spec_is_utf8_from(s, i + 4)
        } else {
            false
        }
    }
}

/// Whether a byte sequence is well-formed UTF-8.
pub open spec fn spec_is_utf8(s: Seq<u8>) -> bool {
    spec_is_utf8_from(s, 0)
}

/// Whether a payload is well-formed UTF-8 text.
pub fn is_utf8(s: &[u8]) -> (r: bool)
    ensures
        r == spec_is_utf8(s@),
{
    let n: usize = s.len();
    let mut i: usize = 0;
    loop
        invariant
            i <= n,
            n == s.len(),
            spec_is_utf8(s@) == spec_is_utf8_from(s@, i as int),
        decreases n - i,
    {
        if i >= n {
            return true;
        }
        let b0: u8 = s[i];
        if b0 < 0x80 {
            i = i + 1;
        } else if 0xC2 <= b0 && b0 <= 0xDF {
            if !(n - i > 1 && 0x80 <= s[i + 1] && s[i + 1] <= 0xBF) {
                return false;
            }
            i = i + 2;
        } else if b0 == 0xE0 {
            if !(n - i > 2 && 0xA0 <= s[i + 1] && s[i + 1] <= 0xBF && 0x80 <= s[i + 2]
                && s[i + 2] <= 0xBF) {
                return false;
            }
            i = i + 3;
        } else if (0xE1 <= b0 && b0 <= 0xEC) || b0 == 0xEE || b0 == 0xEF {
            if !(n - i > 2 && 0x80 <= s[i + 1] && s[i + 1] <= 0xBF && 0x80 <= s[i + 2]
                && s[i + 2] <= 0xBF) {
                return false;
            }
            i = i + 3;
        } else if b0 == 0xED {
            if !(n - i > 2 && 0x80 <= s[i + 1] && s[i + 1] <= 0x9F && 0x80 <= s[i + 2]
                && s[i + 2] <= 0xBF) {
                return false;
            }
            i = i + 3;
        } else if b0 == 0xF0 {
            if !(n - i > 3 && 0x90 <= s[i + 1] && s[i + 1] <= 0xBF && 0x80 <= s[i + 2]
                && s[i + 2] <= 0xBF && 0x80 <= s[i + 3] && s[i + 3] <= 0xBF) {
                return false;
            }
            i = i + 4;
        } else if 0xF1 <= b0 && b0 <= 0xF3 {
            if !(n - i > 3 && 0x80 <= s[i + 1] && s[i + 1] <= 0xBF && 0x80 <= s[i + 2]
                && s[i + 2] <= 0xBF && 0x80 <= s[i + 3] && s[i + 3] <= 0xBF) {
                return false;
            }
            i = i + 4;
        } else if b0 == 0xF4 {
            if !(n - i > 3 && 0x80 <= s[i + 1] && s[i + 1] <= 0x8F && 0x80 <= s[i + 2]
                && s[i + 2] <= 0xBF && 0x80 <= s[i + 3] && s[i + 3] <= 0xBF) {
                return false;
            }
            i = i + 4;
        } else {
            return false;
        }
    }
}

} // verus!
