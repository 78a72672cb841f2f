//! Where the desktop keeps a user's pictures, videos and downloads, as
//! `~/.config/user-dirs.dirs` names them, and how far the media indexer
//! walks into them.
use vstd::prelude::*;
use crate::select::{pieces_view, split_all, split_pieces};
use crate::text::{chars_of, matches_at, occurs_at, starts_with, string_of, strip_char, trim, trim_char, trimmed};

verus! {

/// The indexer stops after this many pictures and videos.
pub const MAX_VISUAL_ITEMS: usize = 2000;

/// The indexer goes at most this many directories deep below a root.
pub const MAX_WALK_DEPTH: u32 = 6;

/// `s` with every occurrence of the non-empty `p`, left to right, replaced
/// by `r` (`str::replace`).
pub open spec fn replace_all(s: Seq<char>, p: Seq<char>, r: Seq<char>) -> Seq<char>
    decreases s.len(),
{
    if s.len() == 0 {
        s
    } else if p.len() > 0 && starts_with(s, p) {
        r + replace_all(s.skip(p.len() as int), p, r)
    } else {
        seq![s[0]] + replace_all(s.skip(1), p, r)
    }
}

/// The value a line assigns to `key`: the line, trimmed, is no comment
/// and starts with `key=`.
pub open spec fn assigns(line: Seq<char>, key: Seq<char>) -> bool {
    !starts_with(trim(line), seq!['#']) && starts_with(trim(line), key + seq!['='])
}

/// The directory a line assigning `key` names: the value trimmed, without
/// its quotes, `$HOME` replaced by `home`.
pub open spec fn assigned_dir(line: Seq<char>, key: Seq<char>, home: Seq<char>) -> Seq<char> {
    replace_all(strip_char(trim(trim(line).skip(key.len() + 1int)), '"'), "$HOME"@, home)
}

/// `k` is the first line assigning `key`.
pub open spec fn first_assign_at(lines: Seq<Seq<char>>, key: Seq<char>, k: int) -> bool {
    0 <= k < lines.len() && assigns(lines[k], key) && forall|j: int| 0 <= j < k ==> !assigns(#[trigger] lines[j], key)
}

/// The directory the user-dirs file `text` gives for `key`, if any line
/// assigns it.
pub open spec fn user_dir_spec(text: Seq<char>, key: Seq<char>, home: Seq<char>) -> Option<Seq<char>> {
    let lines = split_all(text, '\n');
    if exists|k: int| first_assign_at(lines, key, k) {
        Some(assigned_dir(lines[choose|k: int| first_assign_at(lines, key, k)], key, home))
    } else {
        None
    }
}

/// `s` with every `p` replaced by `r`.
pub fn replaced(s: &[char], p: &[char], r: &[char]) -> (out: Vec<char>)
    requires
        p@.len() > 0,
    ensures
        out@ == replace_all(s@, p@, r@),
{
    let mut out: Vec<char> = Vec::new();
    let mut i: usize = 0;
    proof {
        assert(s@.skip(0) =~= s@);
    }
    while i < s.len()
        invariant
            p@.len() > 0,
            i <= s@.len(),
            out@ + replace_all(s@.skip(i as int), p@, r@) == replace_all(s@, p@, r@),
        decreases s.len() - i,
    {
        let ghost rest = s@.skip(i as int);
        if matches_at(s, p, i) {
            proof {
                assert(rest.subrange(0, p@.len() as int) =~= s@.subrange(i as int, i + p@.len()));
                assert(starts_with(rest, p@));
                assert(rest.skip(p@.len() as int) =~= s@.skip(i + p@.len()));
            }
            let ghost before = out@;
            let mut k: usize = 0;
            while k < r.len()
                invariant
                    k <= r@.len(),
                    out@ == before + r@.take(k as int),
                decreases r.len() - k,
            {
                out.push(r[k]);
                proof {
                    assert(r@.take(k + 1) =~= r@.take(k as int).push(r@[k as int]));
                }
                k = k + 1;
            }
            proof {
                assert(r@.take(r@.len() as int) =~= r@);
                assert(out@ + replace_all(s@.skip(i + p@.len()), p@, r@) =~= before + replace_all(rest, p@, r@));
            }
            i = i + p.len();
        } else {
            proof {
                if starts_with(rest, p@) {
                    assert(rest.subrange(0, p@.len() as int) =~= s@.subrange(i as int, i + p@.len()));
                    assert(occurs_at(s@, p@, i as int));
                }
                assert(rest.skip(1) =~= s@.skip(i + 1));
                assert(rest[0] == s@[i as int]);
            }
            let ghost before = out@;
            out.push(s[i]);
            proof {
                assert(out@ + replace_all(s@.skip(i + 1), p@, r@) =~= before + replace_all(rest, p@, r@));
            }
            i = i + 1;
        }
    }
    proof {
        assert(s@.skip(i as int) =~= Seq::<char>::empty());
        assert(out@ + Seq::<char>::empty() =~= out@);
    }
    out
}

/// Whether `line` assigns `key`.
fn assigns_key(line: &[char], key: &[char]) -> (r: bool)
    ensures
        r == assigns(line@, key@),
{
    let t = trimmed(line);
    let mut prefix: Vec<char> = Vec::new();
    let mut k: usize = 0;
    while k < key.len()
        invariant
            k <= key@.len(),
            prefix@ == key@.take(k as int),
        decreases key.len() - k,
    {
        prefix.push(key[k]);
        proof {
            assert(key@.take(k + 1) =~= key@.take(k as int).push(key@[k as int]));
        }
        k = k + 1;
    }
    prefix.push('=');
    proof {
        assert(key@.take(key@.len() as int) =~= key@);
        assert(prefix@ =~= key@ + seq!['=']);
    }
    let hash = vec!['#'];
    proof {
        assert(hash@ =~= seq!['#']);
    }
    let comment = matches_at(t.as_slice(), hash.as_slice(), 0);
    let keyed = matches_at(t.as_slice(), prefix.as_slice(), 0);
    proof {
        assert(occurs_at(t@, hash@, 0) == starts_with(t@, seq!['#'])) by {
            if t@.len() >= 1 {
                assert(t@.subrange(0, 1) =~= t@.take(1));
            }
        }
        assert(occurs_at(t@, prefix@, 0) == starts_with(t@, key@ + seq!['='])) by {
            if t@.len() >= prefix@.len() {
                assert(t@.subrange(0, prefix@.len() as int) =~= t@.take(prefix@.len() as int));
            }
        }
    }
    !comment && keyed
}

/// The directory `~/.config/user-dirs.dirs` (its text `text`) gives for
/// `key`, with `$HOME` standing for `home`; `None` when no line sets it.
pub fn user_dir(text: &str, key: &str, home: &str) -> (r: Option<String>)
    ensures
        match r {
            Some(d) => user_dir_spec(text@, key@, home@) == Some(d@),
            None => user_dir_spec(text@, key@, home@) is None,
        },
{
    let tc = chars_of(text);
    let kc = chars_of(key);
    let hc = chars_of(home);
    let lines = split_pieces(tc.as_slice(), '\n');
    let ghost ls = split_all(text@, '\n');
    let mut i: usize = 0;
    while i < lines.len()
        invariant
            pieces_view(lines@) == ls,
            ls == split_all(text@, '\n'),
            kc@ == key@,
            hc@ == home@,
            i <= lines@.len(),
            forall|j: int| 0 <= j < i ==> !assigns(#[trigger] ls[j], key@),
        decreases lines.len() - i,
    {
        proof {
            assert(lines@[i as int]@ == ls[i as int]);
        }
        if assigns_key(lines[i].as_slice(), kc.as_slice()) {
            let t = trimmed(lines[i].as_slice());
            proof {
                assert((key@ + seq!['=']).len() <= t@.len());
                assert(kc.len() + 1 <= t.len());
            }
            let start = kc.len() + 1;
            let mut rest: Vec<char> = Vec::new();
            let mut k: usize = start;
            while k < t.len()
                invariant
                    start <= k <= t@.len(),
                    rest@ == t@.subrange(start as int, k as int),
                decreases t.len() - k,
            {
                rest.push(t[k]);
                proof {
                    assert(t@.subrange(start as int, k + 1) =~= t@.subrange(start as int, k as int).push(t@[k as int]));
                }
                k = k + 1;
            }
            proof {
                assert(rest@ =~= t@.skip(key@.len() + 1int));
            }
            let v = trimmed(rest.as_slice());
            let unq = trim_char(v.as_slice(), '"');
            let pat = chars_of("$HOME");
            proof {
                reveal_strlit("$HOME");
            }
            let d = replaced(unq.as_slice(), pat.as_slice(), hc.as_slice());
            proof {
                assert(first_assign_at(ls, key@, i as int));
                let c = choose|c: int| first_assign_at(ls, key@, c);
                assert(c == i as int) by {
                    if c < i {
                    } else if c > i {
                        assert(assigns(ls[i as int], key@));
                    }
                }
            }
            return Some(string_of(d.as_slice()));
        }
        i = i + 1;
    }
    None
}

/// Whether the indexer goes on: not too deep, not too many items yet.
pub fn walk_continues(depth: u32, items: usize) -> (r: bool)
    ensures
        r == (depth <= MAX_WALK_DEPTH && items < MAX_VISUAL_ITEMS),
{
    depth <= MAX_WALK_DEPTH && items < MAX_VISUAL_ITEMS
}

} // verus!
