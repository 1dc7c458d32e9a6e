//! Byte-level scanning helpers: finding separators, splitting on them,
//! trimming ASCII whitespace, and comparing byte strings.

use vstd::prelude::*;

verus! {

/// Index of the first occurrence of the two-byte separator `b0 b1` in `s`
/// at or after position `i`, if any.
pub open spec fn find2_from(s: Seq<u8>, b0: u8, b1: u8, i: int) -> Option<int>
    decreases s.len() - i,
{
    if i < 0 || i + 2 > s.len() {
        None
    } else if s[i] == b0 && s[i + 1] == b1 {
        Some(i)
    } else {
        find2_from(s, b0, b1, i + 1)
    }
}

/// Index of the first occurrence of the byte `b` in `s` at or after
/// position `i`, if any.
pub open spec fn find1_from(s: Seq<u8>, b: u8, i: int) -> Option<int>
    decreases s.len() - i,
{
    if i < 0 || i + 1 > s.len() {
        None
    } else if s[i] == b {
        Some(i)
    } else {
        find1_from(s, b, i + 1)
    }
}

/// What `find2_from` returns: the least match position, within bounds.
pub proof fn lemma_find2_props(s: Seq<u8>, b0: u8, b1: u8, i: int)
    requires
        0 <= i,
    ensures
        match find2_from(s, b0, b1, i) {
            Some(k) => {
                &&& i <= k
                &&& k + 2 <= s.len()
                &&& s[k] == b0
                &&& s[k + 1] == b1
                &&& forall|j: int| #![trigger s[j]] i <= j < k ==> !(s[j] == b0 && s[j + 1] == b1)
            },
            None => forall|j: int|
                #![trigger s[j]]
                i <= j && j + 2 <= s.len() ==> !(s[j] == b0 && s[j + 1] == b1),
        },
    decreases s.len() - i,
{
    if i + 2 > s.len() {
    } else if s[i] == b0 && s[i + 1] == b1 {
    } else {
        lemma_find2_props(s, b0, b1, i + 1);
    }
}

/// What `find1_from` returns: the least match position, within bounds.
pub proof fn lemma_find1_props(s: Seq<u8>, b: u8, i: int)
    requires
        0 <= i,
    ensures
        match find1_from(s, b, i) {
            Some(k) => {
                &&& i <= k < s.len()
                &&& s[k] == b
                &&& forall|j: int| i <= j < k ==> s[j] != b
            },
            None => forall|j: int| i <= j < s.len() ==> s[j] != b,
        },
    decreases s.len() - i,
{
    if i + 1 > s.len() {
    } else if s[i] == b {
    } else {
        lemma_find1_props(s, b, i + 1);
    }
}

/// `find1_from` returns exactly `k` when `k` is the first position at or
/// after `i` holding `b`.
pub proof fn lemma_find1_exact(s: Seq<u8>, b: u8, i: int, k: int)
    requires
        0 <= i <= k < s.len(),
        s[k] == b,
        forall|j: int| i <= j < k ==> s[j] != b,
    ensures
        find1_from(s, b, i) == Some(k),
    decreases k - i,
{
    if i < k {
        lemma_find1_exact(s, b, i + 1, k);
    }
}

/// `find1_from` returns nothing when no position at or after `i` holds `b`.
pub proof fn lemma_find1_absent(s: Seq<u8>, b: u8, i: int)
    requires
        0 <= i,
        forall|j: int| i <= j < s.len() ==> s[j] != b,
    ensures
        find1_from(s, b, i) is None,
    decreases s.len() - i,
{
    if i + 1 <= s.len() {
        lemma_find1_absent(s, b, i + 1);
    }
}

/// The pieces of `s` from position `start` on, split on the two-byte
/// separator `b0 b1`; separators are not part of any piece.
pub open spec fn split2_from(s: Seq<u8>, b0: u8, b1: u8, start: int) -> Seq<Seq<u8>>
    decreases s.len() - start,
    via split2_from_decreases
{
    if start < 0 {
        Seq::empty()
    } else {
        match find2_from(s, b0, b1, start) {
            None => seq![s.subrange(start, s.len() as int)],
            Some(i) => seq![s.subrange(start, i)] + split2_from(s, b0, b1, i + 2),
        }
    }
}

#[via_fn]
proof fn split2_from_decreases(s: Seq<u8>, b0: u8, b1: u8, start: int) {
    if 0 <= start {
        lemma_find2_props(s, b0, b1, start);
    }
}

/// The pieces of `s` from position `start` on, split on the byte `b`;
/// separators are not part of any piece.
pub open spec fn split1_from(s: Seq<u8>, b: u8, start: int) -> Seq<Seq<u8>>
    decreases s.len() - start,
    via split1_from_decreases
{
    if start < 0 {
        Seq::empty()
    } else {
        match find1_from(s, b, start) {
            None => seq![s.subrange(start, s.len() as int)],
            Some(i) => seq![s.subrange(start, i)] + split1_from(s, b, i + 1),
        }
    }
}

#[via_fn]
proof fn split1_from_decreases(s: Seq<u8>, b: u8, start: int) {
    if 0 <= start {
        lemma_find1_props(s, b, start);
    }
}

/// Finds the first occurrence of `b0 b1` in `s` at or after `from`.
pub fn find2(s: &[u8], b0: u8, b1: u8, from: usize) -> (r: Option<usize>)
    requires
        from <= s@.len(),
    ensures
        match r {
            Some(k) => find2_from(s@, b0, b1, from as int) == Some(k as int),
            None => find2_from(s@, b0, b1, from as int) is None,
        },
{
    if s.len() < 2 {
        return None;
    }
    let mut i: usize = from;
    while i <= s.len() - 2
        invariant
            from <= i <= s@.len(),
            s@.len() >= 2,
            find2_from(s@, b0, b1, from as int) == find2_from(s@, b0, b1, i as int),
        decreases s@.len() - i,
    {
        if *vstd::slice::slice_index_get(s, i) == b0 && *vstd::slice::slice_index_get(s, i + 1)
            == b1 {
            return Some(i);
        }
        i = i + 1;
    }
    None
}

/// Finds the first occurrence of `b` in `s` at or after `from`.
pub fn find1(s: &[u8], b: u8, from: usize) -> (r: Option<usize>)
    requires
        from <= s@.len(),
    ensures
        match r {
            Some(k) => find1_from(s@, b, from as int) == Some(k as int),
            None => find1_from(s@, b, from as int) is None,
        },
{
    let mut i: usize = from;
    while i < s.len()
        invariant
            from <= i <= s@.len(),
            find1_from(s@, b, from as int) == find1_from(s@, b, i as int),
        decreases s@.len() - i,
    {
        if *vstd::slice::slice_index_get(s, i) == b {
            return Some(i);
        }
        i = i + 1;
    }
    None
}

/// Splits `s` on the two-byte separator `b0 b1`.
pub fn split2(s: &[u8], b0: u8, b1: u8) -> (r: Vec<Vec<u8>>)
    ensures
        r.deep_view() == split2_from(s@, b0, b1, 0),
{
    let mut parts: Vec<Vec<u8>> = Vec::new();
    let mut start: usize = 0;
    loop
        invariant
            start <= s@.len(),
            parts.deep_view() + split2_from(s@, b0, b1, start as int) == split2_from(
                s@,
                b0,
                b1,
                0,
            ),
        ensures
            parts.deep_view() == split2_from(s@, b0, b1, 0),
        decreases s@.len() - start,
    {
        let ghost prefix = parts.deep_view();
        let n: usize = s.len();
        match find2(s, b0, b1, start) {
            Some(i) => {
                proof {
                    lemma_find2_props(s@, b0, b1, start as int);
                }
                let piece = vstd::slice::slice_to_vec(vstd::slice::slice_subrange(s, start, i));
                parts.push(piece);
                proof {
                    assert(parts.deep_view() =~~= prefix + seq![s@.subrange(start as int, i as int)]);
                    assert(prefix + split2_from(s@, b0, b1, start as int) =~~= (prefix + seq![
                        s@.subrange(start as int, i as int),
                    ]) + split2_from(s@, b0, b1, i + 2));
                }
                start = i + 2;
            },
            None => {
                let piece = vstd::slice::slice_to_vec(
                    vstd::slice::slice_subrange(s, start, n),
                );
                parts.push(piece);
                proof {
                    assert(parts.deep_view() =~~= prefix + seq![
                        s@.subrange(start as int, s@.len() as int),
                    ]);
                }
                return parts;
            },
        }
    }
}

/// Splits `s` on the byte `b`.
pub fn split1(s: &[u8], b: u8) -> (r: Vec<Vec<u8>>)
    ensures
        r.deep_view() == split1_from(s@, b, 0),
{
    let mut parts: Vec<Vec<u8>> = Vec::new();
    let mut start: usize = 0;
    loop
        invariant
            start <= s@.len(),
            parts.deep_view() + split1_from(s@, b, start as int) == split1_from(s@, b, 0),
        ensures
            parts.deep_view() == split1_from(s@, b, 0),
        decreases s@.len() - start,
    {
        let ghost prefix = parts.deep_view();
        let n: usize = s.len();
        match find1(s, b, start) {
            Some(i) => {
                proof {
                    lemma_find1_props(s@, b, start as int);
                }
                let piece = vstd::slice::slice_to_vec(vstd::slice::slice_subrange(s, start, i));
                parts.push(piece);
                proof {
                    assert(parts.deep_view() =~~= prefix + seq![s@.subrange(start as int, i as int)]);
                    assert(prefix + split1_from(s@, b, start as int) =~~= (prefix + seq![
                        s@.subrange(start as int, i as int),
                    ]) + split1_from(s@, b, i + 1));
                }
                start = i + 1;
            },
            None => {
                let piece = vstd::slice::slice_to_vec(
                    vstd::slice::slice_subrange(s, start, n),
                );
                parts.push(piece);
                proof {
                    assert(parts.deep_view() =~~= prefix + seq![
                        s@.subrange(start as int, s@.len() as int),
                    ]);
                }
                return parts;
            },
        }
    }
}

/// ASCII whitespace, as trimming understands it.
pub open spec fn is_ws(b: u8) -> bool {
    b == 32 || b == 9 || b == 10 || b == 11 || b == 12 || b == 13
}

/// `s` without its leading ASCII whitespace.
pub open spec fn trim_front(s: Seq<u8>) -> Seq<u8>
    decreases s.len(),
{
    if s.len() == 0 {
        s
    } else if is_ws(s[0]) {
        trim_front(s.drop_first())
    } else {
        s
    }
}

/// `s` without its trailing ASCII whitespace.
pub open spec fn trim_back(s: Seq<u8>) -> Seq<u8>
    decreases s.len(),
{
    if s.len() == 0 {
        s
    } else if is_ws(s.last()) {
        trim_back(s.drop_last())
    } else {
        s
    }
}

/// `s` without leading and trailing ASCII whitespace.
pub open spec fn trim_ws(s: Seq<u8>) -> Seq<u8> {
    trim_back(trim_front(s))
}

/// If the first `k` bytes are whitespace and byte `k` (when present) is not,
/// trimming the front removes exactly those `k` bytes.
proof fn lemma_trim_front_at(s: Seq<u8>, k: int)
    requires
        0 <= k <= s.len(),
        forall|j: int| 0 <= j < k ==> is_ws(s[j]),
        k == s.len() || !is_ws(s[k]),
    ensures
        trim_front(s) == s.subrange(k, s.len() as int),
    decreases k,
{
    if k == 0 {
        assert(s.subrange(0, s.len() as int) =~= s);
    } else {
        let t = s.drop_first();
        assert(forall|j: int| 0 <= j < k - 1 ==> is_ws(#[trigger] t[j]));
        lemma_trim_front_at(t, k - 1);
        assert(t.subrange(k - 1, t.len() as int) =~= s.subrange(k, s.len() as int));
    }
}

/// If the bytes from `k` on are whitespace and byte `k - 1` (when present)
/// is not, trimming the back removes exactly the bytes from `k` on.
proof fn lemma_trim_back_at(s: Seq<u8>, k: int)
    requires
        0 <= k <= s.len(),
        forall|j: int| k <= j < s.len() ==> is_ws(s[j]),
        k == 0 || !is_ws(s[k - 1]),
    ensures
        trim_back(s) == s.subrange(0, k),
    decreases s.len() - k,
{
    if k == s.len() {
        assert(s.subrange(0, s.len() as int) =~= s);
    } else {
        let t = s.drop_last();
        assert(forall|j: int| k <= j < t.len() ==> is_ws(#[trigger] t[j]));
        lemma_trim_back_at(t, k);
        assert(t.subrange(0, k) =~= s.subrange(0, k));
    }
}

/// Tests a byte for ASCII whitespace.
pub fn is_ws_byte(b: u8) -> (r: bool)
    ensures
        r == is_ws(b),
{
    b == 32 || b == 9 || b == 10 || b == 11 || b == 12 || b == 13
}

/// Removes leading and trailing ASCII whitespace from `s`.
pub fn trim(s: &[u8]) -> (r: &[u8])
    ensures
        r@ == trim_ws(s@),
{
    let n: usize = s.len();
    let mut lo: usize = 0;
    while lo < n && is_ws_byte(*vstd::slice::slice_index_get(s, lo))
        invariant
            0 <= lo <= n,
            n == s@.len(),
            forall|j: int| 0 <= j < lo ==> is_ws(s@[j]),
        decreases n - lo,
    {
        lo = lo + 1;
    }
    proof {
        lemma_trim_front_at(s@, lo as int);
    }
    let ghost front = s@.subrange(lo as int, s@.len() as int);
    let mut hi: usize = n;
    while hi > lo && is_ws_byte(*vstd::slice::slice_index_get(s, hi - 1))
        invariant
            lo <= hi <= n,
            n == s@.len(),
            forall|j: int| hi <= j < n ==> is_ws(s@[j]),
        decreases hi,
    {
        hi = hi - 1;
    }
    proof {
        assert(forall|j: int| hi - lo <= j < front.len() ==> is_ws(#[trigger] front[j]));
        lemma_trim_back_at(front, hi - lo);
    }
    let r = vstd::slice::slice_subrange(s, lo, hi);
    proof {
        assert(r@ =~= trim_ws(s@));
    }
    r
}

/// The lines of `parts`, in order, with the empty ones removed.
pub open spec fn nonempty_lines(parts: Seq<Seq<u8>>) -> Seq<Seq<u8>>
    decreases parts.len(),
{
    if parts.len() == 0 {
        Seq::empty()
    } else if parts[0].len() == 0 {
        nonempty_lines(parts.drop_first())
    } else {
        seq![parts[0]] + nonempty_lines(parts.drop_first())
    }
}

/// Keeps the nonempty entries of `parts`, in order.
pub fn filter_nonempty(parts: &Vec<Vec<u8>>) -> (r: Vec<Vec<u8>>)
    ensures
        r.deep_view() == nonempty_lines(parts.deep_view()),
{
    let mut out: Vec<Vec<u8>> = Vec::new();
    let mut i: usize = 0;
    proof {
        assert(parts.deep_view().skip(0) =~~= parts.deep_view());
        assert(out.deep_view() + nonempty_lines(parts.deep_view()) =~~= nonempty_lines(
            parts.deep_view(),
        ));
    }
    while i < parts.len()
        invariant
            0 <= i <= parts.len(),
            out.deep_view() + nonempty_lines(parts.deep_view().skip(i as int)) == nonempty_lines(
                parts.deep_view(),
            ),
        decreases parts.len() - i,
    {
        let ghost rest = parts.deep_view().skip(i as int);
        let ghost prefix = out.deep_view();
        proof {
            assert(rest.drop_first() =~~= parts.deep_view().skip(i + 1));
            assert(rest[0] == parts.deep_view()[i as int]);
        }
        if parts[i].len() > 0 {
            let piece = vstd::slice::slice_to_vec(parts[i].as_slice());
            out.push(piece);
            proof {
                assert(out.deep_view() =~~= prefix + seq![parts.deep_view()[i as int]]);
                assert(prefix + nonempty_lines(rest) =~~= (prefix + seq![
                    parts.deep_view()[i as int],
                ]) + nonempty_lines(parts.deep_view().skip(i + 1)));
            }
        } else {
            proof {
                assert(parts.deep_view()[i as int].len() == 0);
            }
        }
        i = i + 1;
    }
    proof {
        assert(parts.deep_view().skip(i as int) =~~= Seq::<Seq<u8>>::empty());
    }
    out
}

/// Compares two byte strings for equality.
pub fn bytes_eq(a: &[u8], b: &[u8]) -> (r: bool)
    ensures
        r == (a@ == b@),
{
    if a.len() != b.len() {
        return false;
    }
    let mut i: usize = 0;
    while i < a.len()
        invariant
            0 <= i <= a@.len(),
            a@.len() == b@.len(),
            forall|j: int| 0 <= j < i ==> a@[j] == b@[j],
        decreases a@.len() - i,
    {
        if *vstd::slice::slice_index_get(a, i) != *vstd::slice::slice_index_get(b, i) {
            return false;
        }
        i = i + 1;
    }
    proof {
        assert(a@ =~= b@);
    }
    true
}

/// Appends all of `src` to `out`.
pub fn push_all(out: &mut Vec<u8>, src: &[u8])
    ensures
        final(out)@ == old(out)@ + src@,
{
    let mut i: usize = 0;
    while i < src.len()
        invariant
            0 <= i <= src@.len(),
            out@ == old(out)@ + src@.subrange(0, i as int),
        decreases src@.len() - i,
    {
        out.push(*vstd::slice::slice_index_get(src, i));
        proof {
            assert(old(out)@ + src@.subrange(0, i as int + 1) =~= (old(out)@ + src@.subrange(
                0,
                i as int,
            )).push(src@[i as int]));
        }
        i = i + 1;
    }
    proof {
        assert(src@.subrange(0, i as int) =~= src@);
    }
}

} // verus!
