//! Positions of a sequence that pass a test, in order, and the segments of
//! a text split at a separator.
use vstd::prelude::*;

verus! {

/// The positions below `n` at which `p` holds, in increasing order.
pub open spec fn indices_where(n: int, p: spec_fn(int) -> bool) -> Seq<int>
    decreases n,
{
    if n <= 0 {
        Seq::empty()
    } else if p(n - 1) {
        indices_where(n - 1, p).push(n - 1)
    } else {
        indices_where(n - 1, p)
    }
}

/// Indices as integers.
pub open spec fn as_ints(v: Seq<usize>) -> Seq<int> {
    v.map_values(|x: usize| x as int)
}

/// Every listed position is below `n`, passes `p`, and the list is
/// increasing; every passing position below `n` is listed.
pub proof fn lemma_indices_where(n: int, p: spec_fn(int) -> bool)
    ensures
        forall|k: int| 0 <= k < indices_where(n, p).len() ==> 0 <= #[trigger] indices_where(n, p)[k] < n && p(indices_where(n, p)[k]),
        forall|a: int, b: int| 0 <= a < b < indices_where(n, p).len() ==> #[trigger] indices_where(n, p)[a] < #[trigger] indices_where(n, p)[b],
        forall|i: int| 0 <= i < n && p(i) ==> #[trigger] indices_where(n, p).contains(i),
        indices_where(n, p).len() <= if n < 0 { 0 } else { n },
    decreases n,
{
    if n > 0 {
        lemma_indices_where(n - 1, p);
        let w = indices_where(n, p);
        let w0 = indices_where(n - 1, p);
        assert forall|i: int| 0 <= i < n && p(i) implies #[trigger] w.contains(i) by {
            if i < n - 1 {
                assert(w0.contains(i));
                let k = choose|k: int| 0 <= k < w0.len() && w0[k] == i;
                if p(n - 1) {
                    assert(w[k] == w0[k]);
                }
                assert(w[k] == i);
            } else {
                assert(w[w.len() - 1] == i);
            }
        }
    }
}

/// `s.split(c)`: the pieces between the separators, empty ones included.
pub open spec fn split_all(s: Seq<char>, c: char) -> Seq<Seq<char>>
    decreases s.len(),
{
    if s.len() == 0 {
        seq![Seq::<char>::empty()]
    } else if s.last() == c {
        split_all(s.drop_last(), c).push(Seq::empty())
    } else {
        let p = split_all(s.drop_last(), c);
        p.update(p.len() - 1, p.last().push(s.last()))
    }
}

pub proof fn lemma_split_all_nonempty(s: Seq<char>, c: char)
    ensures
        split_all(s, c).len() >= 1,
    decreases s.len(),
{
    if s.len() > 0 {
        lemma_split_all_nonempty(s.drop_last(), c);
    }
}

/// The pieces as values.
pub open spec fn pieces_view(v: Seq<Vec<char>>) -> Seq<Seq<char>> {
    v.map_values(|x: Vec<char>| x@)
}

/// `s.split(c)`, each piece as characters.
pub fn split_pieces(s: &[char], c: char) -> (r: Vec<Vec<char>>)
    ensures
        pieces_view(r@) == split_all(s@, c),
{
    let mut out: Vec<Vec<char>> = Vec::new();
    out.push(Vec::new());
    let mut i: usize = 0;
    proof {
        assert(s@.take(0) =~= Seq::<char>::empty());
        assert(pieces_view(out@) =~= split_all(s@.take(0), c));
    }
    while i < s.len()
        invariant
            i <= s@.len(),
            pieces_view(out@) == split_all(s@.take(i as int), c),
            out@.len() >= 1,
        decreases s.len() - i,
    {
        let ghost before = out@;
        proof {
            assert(s@.take(i + 1).drop_last() =~= s@.take(i as int));
            assert(s@.take(i + 1).last() == s@[i as int]);
        }
        if s[i] == c {
            out.push(Vec::new());
            proof {
                assert(pieces_view(out@) =~= split_all(s@.take(i as int), c).push(Seq::empty()));
            }
        } else {
            let last = out.len() - 1;
            let mut piece = out.pop().unwrap();
            piece.push(s[i]);
            out.push(piece);
            proof {
                let p = split_all(s@.take(i as int), c);
                assert(pieces_view(out@) =~= p.update(p.len() - 1, p.last().push(s@[i as int])));
            }
        }
        i = i + 1;
    }
    proof {
        assert(s@.take(s@.len() as int) =~= s@);
    }
    out
}

/// `k` is the first piece equal to `w`.
pub open spec fn first_piece_at(parts: Seq<Seq<char>>, w: Seq<char>, k: int) -> bool {
    0 <= k < parts.len() && parts[k] == w && forall|j: int| 0 <= j < k ==> parts[j] != w
}

/// `parts.iter().position(|p| p == w)`.
pub open spec fn position_of(parts: Seq<Seq<char>>, w: Seq<char>) -> Option<int> {
    if exists|k: int| first_piece_at(parts, w, k) {
        Some(choose|k: int| first_piece_at(parts, w, k))
    } else {
        None
    }
}

pub fn find_piece(parts: &Vec<Vec<char>>, w: &str) -> (r: Option<usize>)
    ensures
        match r {
            Some(k) => position_of(pieces_view(parts@), w@) == Some(k as int) && k < parts@.len(),
            None => position_of(pieces_view(parts@), w@) is None,
        },
{
    let wv = crate::text::chars_of(w);
    let mut k: usize = 0;
    while k < parts.len()
        invariant
            wv@ == w@,
            k <= parts@.len(),
            forall|j: int| 0 <= j < k ==> pieces_view(parts@)[j] != w@,
        decreases parts.len() - k,
    {
        if crate::text::same(parts[k].as_slice(), wv.as_slice()) {
            proof {
                let v = pieces_view(parts@);
                assert(first_piece_at(v, w@, k as int));
                let m = choose|m: int| first_piece_at(v, w@, m);
                assert(m == k as int) by {
                    if m < k {
                    } else if m > k {
                        assert(v[k as int] == w@);
                    }
                }
            }
            return Some(k);
        }
        k = k + 1;
    }
    None
}

} // verus!
