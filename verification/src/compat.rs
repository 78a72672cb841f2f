//! App-compat changes: reading `<compat-change .../>` elements out of the
//! image's compat config files, and deciding whether a change is enabled
//! for an app's target SDK.
use vstd::prelude::*;
use crate::services::{Answer, Payload};
use crate::text::{
    before_first, chars_of, concat, head_before, is, matches_at, occurs_at, parse_i32, parse_i32_spec,
    parse_i64, parse_i64_spec, slice_copy, starts_with,
};

verus! {

/// One compat change.
pub struct Change {
    pub name: String,
    pub disabled: bool,
    pub logging_only: bool,
    /// `enableSinceTargetSdk` (`enableAfterTargetSdk` + 1 in the older
    /// spelling).
    pub enable_since_target_sdk: Option<i32>,
}

/// `i` is where `p` first occurs in `s`.
pub open spec fn first_occurrence(s: Seq<char>, p: Seq<char>, i: int) -> bool {
    occurs_at(s, p, i) && forall|j: int| 0 <= j < i ==> !occurs_at(s, p, j)
}

/// `str::split` with a non-empty string pattern: the pieces between
/// leftmost, non-overlapping occurrences.
pub open spec fn split_str(s: Seq<char>, p: Seq<char>) -> Seq<Seq<char>>
    decreases s.len(),
{
    if p.len() > 0 && exists|i: int| first_occurrence(s, p, i) {
        let i = choose|i: int| first_occurrence(s, p, i);
        if i + p.len() <= s.len() && p.len() > 0 {
            seq![s.take(i)] + split_str(s.skip(i + p.len()), p)
        } else {
            seq![s]
        }
    } else {
        seq![s]
    }
}

proof fn lemma_occurs_shift(s: Seq<char>, p: Seq<char>, pos: int, i: int)
    requires
        0 <= pos <= s.len(),
        0 <= i,
    ensures
        occurs_at(s.skip(pos), p, i) == occurs_at(s, p, pos + i),
{
    if occurs_at(s, p, pos + i) {
        assert(s.skip(pos).subrange(i, i + p.len()) =~= s.subrange(pos + i, pos + i + p.len()));
    }
    if occurs_at(s.skip(pos), p, i) {
        assert(s.skip(pos).subrange(i, i + p.len()) =~= s.subrange(pos + i, pos + i + p.len()));
    }
}

/// The first occurrence of `p` in `s` at or after `from`.
fn find_from(s: &[char], p: &[char], from: usize) -> (r: Option<usize>)
    requires
        from <= s@.len(),
    ensures
        match r {
            Some(i) => from <= i && occurs_at(s@, p@, i as int) && forall|j: int| from <= j < i ==> !occurs_at(s@, p@, j),
            None => forall|j: int| from <= j ==> !occurs_at(s@, p@, j),
        },
{
    let mut i = from;
    while i < s.len()
        invariant
            from <= i <= s@.len(),
            forall|j: int| from <= j < i ==> !occurs_at(s@, p@, j),
        decreases s.len() - i,
    {
        if matches_at(s, p, i) {
            return Some(i);
        }
        i = i + 1;
    }
    if matches_at(s, p, i) {
        return Some(i);
    }
    proof {
        assert forall|j: int| from <= j implies !occurs_at(s@, p@, j) by {
            if j > i {
                assert(j + p@.len() > s@.len());
            }
        }
    }
    None
}

pub open spec fn pieces_view(v: Seq<Vec<char>>) -> Seq<Seq<char>> {
    v.map_values(|x: Vec<char>| x@)
}

/// `s.split(p)` for a non-empty pattern.
pub fn split_on(s: &[char], p: &[char]) -> (r: Vec<Vec<char>>)
    requires
        p@.len() > 0,
    ensures
        pieces_view(r@) == split_str(s@, p@),
{
    let mut out: Vec<Vec<char>> = Vec::new();
    let mut pos: usize = 0;
    proof {
        assert(s@.skip(0) =~= s@);
        assert(pieces_view(out@) + split_str(s@.skip(0), p@) =~= split_str(s@, p@));
    }
    loop
        invariant
            p@.len() > 0,
            pos <= s@.len(),
            pieces_view(out@) + split_str(s@.skip(pos as int), p@) == split_str(s@, p@),
        decreases s@.len() - pos,
    {
        let ghost rest = s@.skip(pos as int);
        match find_from(s, p, pos) {
            Some(i) => {
                proof {
                    lemma_occurs_shift(s@, p@, pos as int, i - pos);
                    assert(first_occurrence(rest, p@, i - pos)) by {
                        assert forall|j: int| 0 <= j < i - pos implies !occurs_at(rest, p@, j) by {
                            lemma_occurs_shift(s@, p@, pos as int, j);
                        }
                    }
                    let k = choose|k: int| first_occurrence(rest, p@, k);
                    assert(k == i - pos) by {
                        if k < i - pos {
                        } else if k > i - pos {
                        }
                    }
                    assert(rest.take(i - pos) =~= s@.subrange(pos as int, i as int));
                    assert(rest.skip(i - pos + p@.len()) =~= s@.skip(i + p@.len()));
                }
                let piece = slice_copy(s, pos, i);
                let ghost before = out@;
                out.push(piece);
                proof {
                    assert(pieces_view(out@) =~= pieces_view(before).push(s@.subrange(pos as int, i as int)));
                    assert(pieces_view(out@) + split_str(s@.skip(i + p@.len()), p@)
                        =~= pieces_view(before) + split_str(rest, p@));
                }
                let plen = p.len();
                let slen = s.len();
                assert(occurs_at(s@, p@, i as int));
                assert(i + plen <= slen);
                pos = i + plen;
            },
            None => {
                proof {
                    assert forall|k: int| !first_occurrence(rest, p@, k) by {
                        if k >= 0 {
                            lemma_occurs_shift(s@, p@, pos as int, k);
                        }
                    }
                }
                let piece = slice_copy(s, pos, s.len());
                let ghost before = out@;
                out.push(piece);
                proof {
                    assert(rest =~= s@.subrange(pos as int, s@.len() as int));
                    assert(pieces_view(out@) =~= pieces_view(before) + seq![rest]);
                }
                return out;
            },
        }
    }
}

/// The value of attribute `key` in an element's text: what follows the
/// first `key="` up to the next `"` (or the next `key="`).
pub open spec fn attr_spec(elem: Seq<char>, key: Seq<char>) -> Option<Seq<char>> {
    let parts = split_str(elem, key + "=\""@);
    if parts.len() >= 2 { Some(before_first(parts[1], '"')) } else { None }
}

fn attr(elem: &[char], key: &str) -> (r: Option<Vec<char>>)
    ensures
        match r {
            Some(v) => attr_spec(elem@, key@) == Some(v@),
            None => attr_spec(elem@, key@) is None,
        },
{
    let pat_s = concat(key, "=\"");
    let pat = chars_of(pat_s.as_str());
    proof {
        reveal_strlit("=\"");
        assert(pat@.len() > 0);
    }
    let parts = split_on(elem, pat.as_slice());
    if parts.len() >= 2 {
        proof {
            assert(pieces_view(parts@)[1] == parts@[1]@);
        }
        Some(head_before(parts[1].as_slice(), '"'))
    } else {
        None
    }
}

pub open spec fn is_true(v: Option<Seq<char>>) -> bool {
    v == Some("true"@)
}

/// The change an element describes, under its id; `None` without a
/// numeric id.
pub open spec fn change_spec(elem: Seq<char>) -> Option<(i64, Seq<char>, bool, bool, Option<i32>)> {
    match attr_spec(elem, "id"@) {
        Some(idt) => match parse_i64_spec(idt) {
            Some(id) => {
                let since = match attr_spec(elem, "enableSinceTargetSdk"@) {
                    Some(v) => parse_i32_spec(v),
                    None => None,
                };
                let after = match attr_spec(elem, "enableAfterTargetSdk"@) {
                    Some(v) => parse_i32_spec(v),
                    None => None,
                };
                Some((
                    id,
                    match attr_spec(elem, "name"@) { Some(n) => n, None => Seq::empty() },
                    is_true(attr_spec(elem, "disabled"@)),
                    is_true(attr_spec(elem, "loggingOnly"@)),
                    match since {
                        Some(v) => Some(v),
                        None => match after {
                            Some(v) => Some(if v == i32::MAX { i32::MIN } else { (v + 1) as i32 }),
                            None => None,
                        },
                    },
                ))
            },
            None => None,
        },
        None => None,
    }
}

pub open spec fn change_view(id: i64, c: Change) -> (i64, Seq<char>, bool, bool, Option<i32>) {
    (id, c.name@, c.disabled, c.logging_only, c.enable_since_target_sdk)
}

fn attr_is_true(elem: &[char], key: &str) -> (r: bool)
    ensures
        r == is_true(attr_spec(elem@, key@)),
{
    match attr(elem, key) {
        Some(v) => is(v.as_slice(), "true"),
        None => false,
    }
}

fn attr_i32(elem: &[char], key: &str) -> (r: Option<i32>)
    ensures
        r == match attr_spec(elem@, key@) {
            Some(v) => parse_i32_spec(v),
            None => None,
        },
{
    match attr(elem, key) {
        Some(v) => parse_i32(v.as_slice()),
        None => None,
    }
}

/// The change one `<compat-change` element's text describes (the text up
/// to its `>`).
pub fn parse_change(elem: &[char]) -> (r: Option<(i64, Change)>)
    ensures
        match r {
            Some((id, c)) => change_spec(elem@) == Some(change_view(id, c)),
            None => change_spec(elem@) is None,
        },
{
    let id = match attr(elem, "id") {
        Some(v) => match parse_i64(v.as_slice()) {
            Some(id) => id,
            None => return None,
        },
        None => return None,
    };
    let name = match attr(elem, "name") {
        Some(n) => crate::text::string_of(n.as_slice()),
        None => String::new(),
    };
    let since = match attr_i32(elem, "enableSinceTargetSdk") {
        Some(v) => Some(v),
        None => match attr_i32(elem, "enableAfterTargetSdk") {
            Some(v) => Some(v.wrapping_add(1)),
            None => None,
        },
    };
    Some((id, Change {
        name,
        disabled: attr_is_true(elem, "disabled"),
        logging_only: attr_is_true(elem, "loggingOnly"),
        enable_since_target_sdk: since,
    }))
}

pub open spec fn changes_view(v: Seq<(i64, Change)>) -> Seq<(i64, Seq<char>, bool, bool, Option<i32>)> {
    v.map_values(|p: (i64, Change)| change_view(p.0, p.1))
}

pub open spec fn parsed_pieces(pieces: Seq<Seq<char>>) -> Seq<(i64, Seq<char>, bool, bool, Option<i32>)>
    decreases pieces.len(),
{
    if pieces.len() == 0 {
        Seq::empty()
    } else {
        match change_spec(before_first(pieces.last(), '>')) {
            Some(c) => parsed_pieces(pieces.drop_last()).push(c),
            None => parsed_pieces(pieces.drop_last()),
        }
    }
}

/// Reads the compat changes a config file's text declares.
pub fn parse_compat_config(text: &str) -> (r: Vec<(i64, Change)>)
    ensures
        changes_view(r@) == parsed_pieces(split_str(text@, "<compat-change"@).skip(1)),
{
    let t = chars_of(text);
    let tag = chars_of("<compat-change");
    proof {
        reveal_strlit("<compat-change");
    }
    let pieces = split_on(t.as_slice(), tag.as_slice());
    let ghost all = pieces_view(pieces@);
    let mut out: Vec<(i64, Change)> = Vec::new();
    if pieces.len() == 0 {
        proof {
            assert(all.skip(1) =~= Seq::<Seq<char>>::empty());
        }
        return out;
    }
    let mut k: usize = 1;
    proof {
        assert(all.skip(1).take(0) =~= Seq::<Seq<char>>::empty());
    }
    while k < pieces.len()
        invariant
            1 <= k <= pieces@.len(),
            all == pieces_view(pieces@),
            changes_view(out@) == parsed_pieces(all.skip(1).take(k - 1)),
        decreases pieces.len() - k,
    {
        let elem = head_before(pieces[k].as_slice(), '>');
        proof {
            assert(all[k as int] == pieces@[k as int]@);
            assert(all.skip(1).take(k as int).drop_last() =~= all.skip(1).take(k - 1));
            assert(all.skip(1).take(k as int).last() == all[k as int]);
        }
        match parse_change(elem.as_slice()) {
            Some(c) => {
                let ghost before = out@;
                out.push(c);
                proof {
                    assert(changes_view(out@) =~= changes_view(before).push(change_view(c.0, c.1)));
                }
            },
            None => {},
        }
        k = k + 1;
    }
    proof {
        assert(all.skip(1).take(pieces@.len() - 1) =~= all.skip(1));
    }
    out
}

// ---------------------------------------------------------------------------
// The service
// ---------------------------------------------------------------------------

/// The `com.android.internal.compat.IPlatformCompat` binder service: the
/// changes read from the image (a later entry with an id replaces an
/// earlier one) and the target SDK of the session's app.
pub struct PlatformCompatService {
    pub changes: Vec<(i64, Change)>,
    pub app_target_sdk: Option<i32>,
}

/// The last entry with id `id`.
pub open spec fn last_with_id(v: Seq<(i64, Change)>, id: i64, i: int) -> bool {
    0 <= i < v.len() && v[i].0 == id && forall|j: int| i < j < v.len() ==> (#[trigger] v[j]).0 != id
}

/// A change is enabled unless it is disabled or gated on a target SDK the
/// app does not reach; an unknown change is enabled.
pub open spec fn enabled_spec(v: Seq<(i64, Change)>, id: i64, target_sdk: i32) -> bool {
    if exists|i: int| last_with_id(v, id, i) {
        let c = v[choose|i: int| last_with_id(v, id, i)].1;
        !c.disabled && match c.enable_since_target_sdk {
            Some(since) => target_sdk >= since,
            None => true,
        }
    } else {
        true
    }
}

pub open spec fn compat_answer(name: Seq<char>) -> Answer {
    if name == "isChangeEnabled"@ || name == "isChangeEnabledByPackageName"@ || name == "isChangeEnabledByUid"@ {
        Answer::Payload(Payload::ChangeEnabled)
    } else if name == "reportChange"@ || name == "reportChangeByPackageName"@ || name == "reportChangeByUid"@ {
        Answer::Done
    } else {
        Answer::Refused
    }
}

impl PlatformCompatService {
    /// Whether change `id` is enabled for an app targeting `target_sdk`.
    pub fn is_enabled(&self, id: i64, target_sdk: i32) -> (r: bool)
        ensures
            r == enabled_spec(self.changes@, id, target_sdk),
    {
        let mut i: usize = self.changes.len();
        while i > 0
            invariant
                i <= self.changes@.len(),
                forall|j: int| i <= j < self.changes@.len() ==> (#[trigger] self.changes@[j]).0 != id,
            decreases i,
        {
            if self.changes[i - 1].0 == id {
                proof {
                    let v = self.changes@;
                    assert(last_with_id(v, id, i - 1));
                    let k = choose|k: int| last_with_id(v, id, k);
                    assert(k == i - 1) by {
                        if k < i - 1 {
                            assert(v[i - 1].0 == id);
                        } else if k > i - 1 {
                        }
                    }
                }
                let c = &self.changes[i - 1].1;
                if c.disabled {
                    return false;
                }
                return match c.enable_since_target_sdk {
                    Some(since) => target_sdk >= since,
                    None => true,
                };
            }
            i = i - 1;
        }
        true
    }

    /// The target SDK of the calling app: the session's app, else 37.
    pub fn target_sdk_of_caller(&self) -> (r: i32)
        ensures
            r == match self.app_target_sdk {
                Some(t) => t,
                None => 37i32,
            },
    {
        match self.app_target_sdk {
            Some(t) => t,
            None => 37,
        }
    }

    /// How `IPlatformCompat` answers `name`.
    pub fn answer(&self, name: &str) -> (a: Answer)
        ensures
            a == compat_answer(name@),
    {
        let n = chars_of(name);
        let n = n.as_slice();
        if is(n, "isChangeEnabled") || is(n, "isChangeEnabledByPackageName") || is(n, "isChangeEnabledByUid") {
            Answer::Payload(Payload::ChangeEnabled)
        } else if is(n, "reportChange") || is(n, "reportChangeByPackageName") || is(n, "reportChangeByUid") {
            Answer::Done
        } else {
            Answer::Refused
        }
    }
}

} // verus!
