//! Spreadsheet column labels.
use vstd::prelude::*;
use vstd::string::StrSliceExecFns;

verus! {

/// The value of a letter in a column label: `A` (or `a`) is 1, `Z` (or `z`) is 26.
pub open spec fn letter_value(ch: char) -> Option<u32> {
    if 'A' <= ch && ch <= 'Z' {
        Some((ch as u32 - 'A' as u32 + 1) as u32)
    } else if 'a' <= ch && ch <= 'z' {
        Some((ch as u32 - 'a' as u32 + 1) as u32)
    } else {
        None
    }
}

/// Whether every character of `s` is an ASCII letter.
pub open spec fn all_letters(s: Seq<char>) -> bool {
    forall|i: int| 0 <= i < s.len() ==> (#[trigger] letter_value(s[i])) is Some
}

/// The bijective base-26 value of a label made of letters, most significant first.
pub open spec fn label_value(s: Seq<char>) -> nat
    decreases s.len(),
{
    if s.len() == 0 {
        0
    } else {
        label_value(s.drop_last()) * 26 + letter_value(s.last())->Some_0 as nat
    }
}

/// Converts an alphabetic column label to its one-based numeric index.
///
/// Returns `None` for an empty label, for a label holding anything but ASCII
/// letters, and for a label whose index does not fit in a `u32`.
pub fn label_to_index(label: &str) -> (r: Option<u32>)
    ensures
        r == (if label@.len() > 0 && all_letters(label@) && label_value(label@) <= u32::MAX {
            Some(label_value(label@) as u32)
        } else {
            None::<u32>
        }),
{
    let n = label.unicode_len();
    if n == 0 {
        return None;
    }
    let mut idx: u64 = 0;
    let mut i: usize = 0;
    while i < n
        invariant
            n == label@.len(),
            i <= n,
            all_letters(label@.subrange(0, i as int)),
            idx == label_value(label@.subrange(0, i as int)),
            idx <= u32::MAX,
        decreases n - i,
    {
        let ch = label.get_char(i);
        assert(label@.subrange(0, i as int + 1).drop_last() == label@.subrange(0, i as int));
        match char_to_number(ch) {
            Some(d) => {
                let v = idx * 26 + d as u64;
                if v > u32::MAX as u64 {
                    proof {
                        lemma_label_value_grows(label@, i as int + 1);
                    }
                    return None;
                }
                idx = v;
            },
            None => {
                assert(!all_letters(label@)) by {
                    assert(letter_value(label@[i as int]) is None);
                }
                return None;
            },
        }
        i = i + 1;
    }
    assert(label@.subrange(0, n as int) == label@);
    Some(idx as u32)
}

/// A label's value is at least that of each of its prefixes.
proof fn lemma_label_value_grows(s: Seq<char>, k: int)
    requires
        0 <= k <= s.len(),
        all_letters(s.subrange(0, k)),
    ensures
        all_letters(s) ==> label_value(s) >= label_value(s.subrange(0, k)),
    decreases s.len() - k,
{
    if k < s.len() && all_letters(s) {
        let p = s.subrange(0, k);
        let q = s.subrange(0, k + 1);
        assert(q.drop_last() == p);
        assert(all_letters(q));
        lemma_label_value_grows(s, k + 1);
    }
    if k == s.len() {
        assert(s.subrange(0, k) == s);
    }
}

/// The value of one label letter, or `None` for any other character.
fn char_to_number(ch: char) -> (r: Option<u32>)
    ensures
        r == letter_value(ch),
{
    if 'A' <= ch && ch <= 'Z' {
        Some(ch as u32 - 'A' as u32 + 1)
    } else if 'a' <= ch && ch <= 'z' {
        Some(ch as u32 - 'a' as u32 + 1)
    } else {
        None
    }
}

} // verus!
