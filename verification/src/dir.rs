//! Choosing a file from a listed directory.
//!
//! The host lists the files, prints them numbered from one, and reads a
//! line from the operator; `Navigator::select_index` decides what that
//! line selects.  The line, trimmed of ASCII whitespace, must be a
//! decimal number between one and the number of listed files; anything
//! else (empty, stray characters, zero, out of range, or a number too
//! large for 32 bits) selects nothing and the host asks again.

use vstd::prelude::*;

verus! {

/// An ASCII decimal digit.
pub open spec fn is_digit(b: u8) -> bool {
    0x30 <= b <= 0x39
}

/// ASCII whitespace as trimmed from an input line: space, tab,
/// line feed, carriage return.
pub open spec fn is_space(b: u8) -> bool {
    b == 0x20 || b == 0x09 || b == 0x0A || b == 0x0D
}

/// The line with its leading whitespace removed.
pub open spec fn trim_front(s: Seq<u8>) -> Seq<u8>
    decreases s.len(),
{
    if s.len() > 0 && is_space(s.first()) {
        trim_front(s.subrange(1, s.len() as int))
    } else {
        s
    }
}

/// The line with its trailing whitespace removed.
pub open spec fn trim_back(s: Seq<u8>) -> Seq<u8>
    decreases s.len(),
{
    if s.len() > 0 && is_space(s.last()) {
        trim_back(s.drop_last())
    } else {
        s
    }
}

/// The line with whitespace removed from both ends.
pub open spec fn trimmed(s: Seq<u8>) -> Seq<u8> {
    trim_back(trim_front(s))
}

/// Every byte is an ASCII decimal digit.
pub open spec fn all_digits(s: Seq<u8>) -> bool {
    forall|k: int| 0 <= k < s.len() ==> is_digit(s[k])
}

/// The number the digit string denotes, most significant digit first.
pub open spec fn digits_val(s: Seq<u8>) -> int
    decreases s.len(),
{
    if s.len() == 0 {
        0
    } else {
        digits_val(s.drop_last()) * 10 + s.last() - 0x30
    }
}

/// Whether the line selects one of `count` listed entries: trimmed it
/// is a non-empty digit string whose value fits in 32 bits and lies
/// between one and `count`.
pub open spec fn valid_selection(s: Seq<u8>, count: nat) -> bool {
    let c = trimmed(s);
    &&& c.len() > 0
    &&& all_digits(c)
    &&& 1 <= digits_val(c)
    &&& digits_val(c) <= count
    &&& digits_val(c) <= 0xFFFF_FFFF
}

/// The zero-based entry the line selects, if any.
pub open spec fn selection(s: Seq<u8>, count: nat) -> Option<usize> {
    if valid_selection(s, count) {
        Some((digits_val(trimmed(s)) - 1) as usize)
    } else {
        None
    }
}

/// A digit string denotes a non-negative number.
proof fn lemma_digits_nonneg(s: Seq<u8>)
    requires
        all_digits(s),
    ensures
        digits_val(s) >= 0,
    decreases s.len(),
{
    if s.len() > 0 {
        lemma_digits_nonneg(s.drop_last());
    }
}

/// A prefix of a digit string never denotes more than the whole.
proof fn lemma_digits_prefix_le(s: Seq<u8>, t: int)
    requires
        all_digits(s),
        0 <= t <= s.len(),
    ensures
        digits_val(s.subrange(0, t)) <= digits_val(s),
    decreases s.len() - t,
{
    if t == s.len() {
        assert(s.subrange(0, t) =~= s);
    } else {
        let pre = s.subrange(0, t + 1);
        assert(pre.drop_last() =~= s.subrange(0, t));
        assert(all_digits(pre.drop_last()));
        lemma_digits_nonneg(pre.drop_last());
        lemma_digits_prefix_le(s, t + 1);
    }
}

/// Where the leading whitespace ends, trimming the front is taking the
/// tail from there.
proof fn lemma_trim_front_at(s: Seq<u8>, lo: int)
    requires
        0 <= lo <= s.len(),
        forall|k: int| 0 <= k < lo ==> is_space(s[k]),
        lo == s.len() || !is_space(s[lo]),
    ensures
        trim_front(s) == s.subrange(lo, s.len() as int),
    decreases lo,
{
    if lo == 0 {
        assert(s.subrange(0, s.len() as int) =~= s);
    } else {
        let s1 = s.subrange(1, s.len() as int);
        lemma_trim_front_at(s1, lo - 1);
        assert(s1.subrange(lo - 1, s1.len() as int) =~= s.subrange(lo, s.len() as int));
    }
}

/// Where the trailing whitespace begins, trimming the back is taking
/// the head up to there.
proof fn lemma_trim_back_at(s: Seq<u8>, hi: int)
    requires
        0 <= hi <= s.len(),
        forall|k: int| hi <= k < s.len() ==> is_space(s[k]),
        hi == 0 || !is_space(s[hi - 1]),
    ensures
        trim_back(s) == s.subrange(0, hi),
    decreases s.len() - hi,
{
    if hi == s.len() {
        assert(s.subrange(0, hi) =~= s);
    } else {
        let s1 = s.drop_last();
        assert(s1 =~= s.subrange(0, s.len() - 1));
        lemma_trim_back_at(s1, hi);
        assert(s1.subrange(0, hi) =~= s.subrange(0, hi));
    }
}

pub struct Navigator;

impl Navigator {
    /// The zero-based entry among `count` listed files that the
    /// operator's input line selects, or nothing if the trimmed line is
    /// not a decimal number between one and `count`.
    pub fn select_index(input: &Vec<u8>, count: usize) -> (r: Option<usize>)
        ensures
            r == selection(input@, count as nat),
    {
        let len = input.len();
        let mut lo: usize = 0;
        while lo < len && (input[lo] == 0x20 || input[lo] == 0x09 || input[lo] == 0x0A
            || input[lo] == 0x0D)
            invariant
                len == input@.len(),
                lo <= len,
                forall|k: int| 0 <= k < lo ==> is_space(input@[k]),
            decreases len - lo,
        {
            lo = lo + 1;
        }
        proof {
            lemma_trim_front_at(input@, lo as int);
        }
        if lo == len {
            proof {
                assert(trimmed(input@).len() == 0);
            }
            return None;
        }
        let mut hi: usize = len;
        while hi > lo && (input[hi - 1] == 0x20 || input[hi - 1] == 0x09 || input[hi - 1] == 0x0A
            || input[hi - 1] == 0x0D)
            invariant
                len == input@.len(),
                lo < len,
                lo <= hi <= len,
                !is_space(input@[lo as int]),
                forall|k: int| hi <= k < len ==> is_space(input@[k]),
            decreases hi,
        {
            hi = hi - 1;
        }
        let ghost front = input@.subrange(lo as int, len as int);
        let ghost core = input@.subrange(lo as int, hi as int);
        proof {
            assert(hi > lo);
            lemma_trim_back_at(front, hi - lo);
            assert(front.subrange(0, hi - lo) =~= core);
            assert(trimmed(input@) == core);
        }
        let mut acc: u64 = 0;
        let mut j: usize = lo;
        while j < hi
            invariant
                len == input@.len(),
                lo <= j <= hi <= len,
                core == input@.subrange(lo as int, hi as int),
                trimmed(input@) == core,
                all_digits(input@.subrange(lo as int, j as int)),
                acc == digits_val(input@.subrange(lo as int, j as int)),
                acc <= 0xFFFF_FFFF,
            decreases hi - j,
        {
            let b = input[j];
            if b < 0x30 || b > 0x39 {
                proof {
                    assert(core[j - lo] == b);
                    assert(!all_digits(core));
                }
                return None;
            }
            acc = acc * 10 + (b - 0x30) as u64;
            j = j + 1;
            proof {
                assert(input@.subrange(lo as int, j as int).drop_last()
                    =~= input@.subrange(lo as int, j as int - 1));
            }
            if acc > 0xFFFF_FFFF {
                proof {
                    assert(input@.subrange(lo as int, j as int)
                        =~= core.subrange(0, j - lo));
                    if all_digits(core) {
                        lemma_digits_prefix_le(core, j - lo);
                    }
                }
                return None;
            }
        }
        proof {
            assert(input@.subrange(lo as int, j as int) =~= core);
        }
        if acc == 0 || acc > count as u64 {
            return None;
        }
        Some((acc - 1) as usize)
    }
}

} // verus!
