//! Edit distance between names, for suggesting a close match.
use vstd::prelude::*;
use vstd::string::{StrSliceExecFns, StringExecFns};

verus! {

/// The Levenshtein distance between two character sequences.
pub open spec fn lev(a: Seq<char>, b: Seq<char>) -> nat
    decreases a.len() + b.len(),
{
    if a.len() == 0 {
        b.len()
    } else if b.len() == 0 {
        a.len()
    } else if a.last() == b.last() {
        lev(a.drop_last(), b.drop_last())
    } else {
        let x = lev(a.drop_last(), b);
        let y = lev(a, b.drop_last());
        let z = lev(a.drop_last(), b.drop_last());
        let m = if x < y { x } else { y };
        1 + if m < z { m } else { z }
    }
}

proof fn lemma_lev_bound(a: Seq<char>, b: Seq<char>)
    ensures
        lev(a, b) <= a.len() + b.len(),
    decreases a.len() + b.len(),
{
    if a.len() > 0 && b.len() > 0 {
        lemma_lev_bound(a.drop_last(), b);
        lemma_lev_bound(a, b.drop_last());
        lemma_lev_bound(a.drop_last(), b.drop_last());
    }
}

/// The characters of `s`, in order.
fn chars_of(s: &str) -> (r: Vec<char>)
    ensures
        r@ == s@,
{
    let n = s.unicode_len();
    let mut out: Vec<char> = Vec::with_capacity(n);
    let mut i: usize = 0;
    while i < n
        invariant
            n == s@.len(),
            i <= n,
            out@ == s@.subrange(0, i as int),
        decreases n - i,
    {
        out.push(s.get_char(i));
        i = i + 1;
    }
    out
}

/// Finds the Levenshtein distance between two strings.
pub fn lev_distance(a: &str, b: &str) -> (r: usize)
    requires
        a@.len() + b@.len() <= usize::MAX,
    ensures
        r == lev(a@, b@),
{
    let av = chars_of(a);
    let bv = chars_of(b);
    let n = av.len();
    let m = bv.len();
    if n == 0 {
        return m;
    } else if m == 0 {
        return n;
    }
    let ghost sa = a@;
    let ghost sb = b@;
    let mut dcol: Vec<usize> = Vec::with_capacity(m + 1);
    let mut k: usize = 0;
    while k <= m
        invariant
            k <= m + 1,
            m == sb.len(),
            m < usize::MAX,
            dcol@.len() == k,
            forall|j: int| 0 <= j < k ==> #[trigger] dcol@[j] == lev(Seq::<char>::empty(), sb.take(j)),
        decreases m + 1 - k,
    {
        dcol.push(k);
        k = k + 1;
    }
    let mut i: usize = 0;
    while i < n
        invariant
            i <= n == sa.len(),
            m == sb.len(),
            0 < m,
            sa.len() + sb.len() <= usize::MAX,
            av@ == sa,
            bv@ == sb,
            dcol@.len() == m + 1,
            forall|j: int| 0 <= j <= m ==> #[trigger] dcol@[j] == lev(sa.take(i as int), sb.take(j)),
        decreases n - i,
    {
        let ghost prev = sa.take(i as int);
        let ghost cur = sa.take(i as int + 1);
        assert(cur.drop_last() =~= prev);
        assert(sb.take(0) =~= Seq::<char>::empty());
        let sc = av[i];
        let mut current: usize = i;
        dcol.set(0, i + 1);
        let mut j: usize = 0;
        while j < m
            invariant
                i < n == sa.len(),
                m == sb.len(),
                sa.len() + sb.len() <= usize::MAX,
                bv@ == sb,
                sc == sa[i as int],
                prev == sa.take(i as int),
                cur == sa.take(i as int + 1),
                cur.drop_last() == prev,
                j <= m,
                dcol@.len() == m + 1,
                current == lev(prev, sb.take(j as int)),
                forall|k: int| 0 <= k <= j ==> #[trigger] dcol@[k] == lev(cur, sb.take(k)),
                forall|k: int| j < k <= m ==> #[trigger] dcol@[k] == lev(prev, sb.take(k)),
            decreases m - j,
        {
            let ghost bj = sb.take(j as int + 1);
            assert(bj.drop_last() =~= sb.take(j as int));
            proof {
                lemma_lev_bound(prev, sb.take(j as int));
                lemma_lev_bound(prev, bj);
                lemma_lev_bound(cur, sb.take(j as int));
            }
            let next = dcol[j + 1];
            let tc = bv[j];
            if sc == tc {
                dcol.set(j + 1, current);
            } else {
                let a1 = if current < next { current } else { next };
                let left = dcol[j];
                let a2 = if a1 < left { a1 } else { left };
                dcol.set(j + 1, a2 + 1);
            }
            current = next;
            j = j + 1;
        }
        i = i + 1;
    }
    assert(sa.take(n as int) =~= sa);
    assert(sb.take(m as int) =~= sb);
    dcol[m]
}

/// Whether candidate `i` is the one [`closest`] picks: within distance 3 of
/// `choice`, no farther than any other candidate, and strictly nearer than
/// every candidate before it.
pub open spec fn is_closest(choice: Seq<char>, candidates: Seq<String>, i: int) -> bool {
    &&& 0 <= i < candidates.len()
    &&& lev(choice, candidates[i]@) < 4
    &&& forall|k: int| 0 <= k < candidates.len() ==> lev(choice, #[trigger] candidates[k]@) >= lev(choice, candidates[i]@)
    &&& forall|k: int| 0 <= k < i ==> lev(choice, #[trigger] candidates[k]@) > lev(choice, candidates[i]@)
}

/// Finds the candidate nearest to `choice`, among those within distance 3;
/// of equally near ones, the first.
pub fn closest<'a>(choice: &str, candidates: &'a Vec<String>) -> (r: Option<&'a String>)
    requires
        forall|k: int| 0 <= k < candidates@.len() ==> choice@.len() + (#[trigger] candidates@[k])@.len() <= usize::MAX,
    ensures
        match r {
            Some(s) => exists|i: int| is_closest(choice@, candidates@, i) && *s == candidates@[i],
            None => forall|k: int| 0 <= k < candidates@.len() ==> lev(choice@, (#[trigger] candidates@[k])@) >= 4,
        },
{
    let mut best: Option<usize> = None;
    let mut best_d: usize = 4;
    let mut k: usize = 0;
    while k < candidates.len()
        invariant
            k <= candidates@.len(),
            forall|q: int| 0 <= q < candidates@.len() ==> choice@.len() + (#[trigger] candidates@[q])@.len() <= usize::MAX,
            best_d <= 4,
            best is None ==> best_d == 4,
            best matches Some(b) ==> b < k && best_d == lev(choice@, candidates@[b as int]@) && best_d < 4
                && forall|q: int| 0 <= q < b ==> lev(choice@, (#[trigger] candidates@[q])@) > best_d,
            forall|q: int| 0 <= q < k ==> lev(choice@, (#[trigger] candidates@[q])@) >= best_d,
        decreases candidates.len() - k,
    {
        let d = lev_distance(choice, candidates[k].as_str());
        if d < best_d {
            best = Some(k);
            best_d = d;
        }
        k = k + 1;
    }
    match best {
        Some(b) => {
            assert(is_closest(choice@, candidates@, b as int));
            Some(&candidates[b])
        },
        None => None,
    }
}

/// A hint that names the closest candidate, or an empty string when none is
/// within distance 3.
pub fn closest_msg(choice: &str, candidates: &Vec<String>) -> (r: String)
    requires
        forall|k: int| 0 <= k < candidates@.len() ==> choice@.len() + (#[trigger] candidates@[k])@.len() <= usize::MAX,
    ensures
        (forall|k: int| 0 <= k < candidates@.len() ==> lev(choice@, (#[trigger] candidates@[k])@) >= 4) ==> r@.len() == 0,
        forall|i: int| is_closest(choice@, candidates@, i) ==> r@ == "\n\n\tDid you mean `"@ + candidates@[i]@ + "`?"@,
{
    match closest(choice, candidates) {
        Some(e) => {
            let mut msg = String::from_str("\n\n\tDid you mean `");
            msg.append(e.as_str());
            msg.append("`?");
            proof {
                let i = choose|i: int| is_closest(choice@, candidates@, i) && *e == candidates@[i];
                assert forall|j: int| is_closest(choice@, candidates@, j) implies j == i by {
                    if j < i {
                        assert(lev(choice@, candidates@[j]@) > lev(choice@, candidates@[i]@));
                    } else if i < j {
                        assert(lev(choice@, candidates@[i]@) > lev(choice@, candidates@[j]@));
                    }
                }
            }
            msg
        },
        None => {
            let r = String::new();
            proof {
                assert forall|i: int| is_closest(choice@, candidates@, i) implies false by {
                    assert(lev(choice@, candidates@[i]@) >= 4);
                }
            }
            r
        },
    }
}

} // verus!
