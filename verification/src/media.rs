//! The media store: the catalogue of system sounds and host pictures/videos,
//! the classification of `content://media/...` URIs, the query filter that
//! MediaStore clients send, and the rows a query answers with.
use vstd::prelude::*;
use vstd::wrapping::i32_specs;
use crate::cursor::{cell_view, text, text_of, Cell, CellView};
use crate::text::{
    after_last, ascii_lower, before_first, chars_of, contains, eq_ignore_case, has, head_before,
    is, is_ignore_case, parse_i32, parse_i32_spec, parse_i64, parse_i64_spec, parse_usize,
    parse_usize_spec, rsplit_once, split_at_first, split_at_last, split_once, string_of,
    tail_after, to_lower, trim, trimmed, strip_char, trim_char, starts_with, without_spaces,
    remove_spaces, begins, decimal, decimal_chars, concat,
};

verus! {

pub const MEDIA_TYPE_IMAGE: i32 = 1;
pub const MEDIA_TYPE_AUDIO: i32 = 2;
pub const MEDIA_TYPE_VIDEO: i32 = 3;

// ---------------------------------------------------------------------------
// Java `String.hashCode` and bucket ids
// ---------------------------------------------------------------------------

/// The UTF-16 code units of one character.
pub open spec fn utf16_of_char(c: char) -> Seq<u16> {
    let v = c as u32;
    if v < 0x10000 {
        seq![v as u16]
    } else {
        seq![(0xD800 + (v - 0x10000) / 0x400) as u16, (0xDC00 + (v - 0x10000) % 0x400) as u16]
    }
}

/// `str::encode_utf16`.
pub open spec fn utf16(s: Seq<char>) -> Seq<u16>
    decreases s.len(),
{
    if s.len() == 0 {
        seq![]
    } else {
        utf16(s.drop_last()) + utf16_of_char(s.last())
    }
}

/// Java `String.hashCode` over UTF-16 code units: `h = 31 * h + unit`,
/// wrapping in 32 bits.
pub open spec fn java_hash(units: Seq<u16>) -> i32
    decreases units.len(),
{
    if units.len() == 0 {
        0
    } else {
        i32_specs::wrapping_add(i32_specs::wrapping_mul(java_hash(units.drop_last()), 31), units.last() as i32)
    }
}

proof fn lemma_java_hash_push(a: Seq<u16>, u: u16)
    ensures
        java_hash(a.push(u)) == i32_specs::wrapping_add(i32_specs::wrapping_mul(java_hash(a), 31), u as i32),
{
    assert(a.push(u).drop_last() == a);
}

fn hash_step(h: i32, u: u16) -> (r: i32)
    ensures
        r == i32_specs::wrapping_add(i32_specs::wrapping_mul(h, 31), u as i32),
{
    h.wrapping_mul(31).wrapping_add(u as i32)
}

/// Java `String.hashCode` of `s` (signed 32-bit), as MediaProvider computes
/// bucket ids.
pub fn java_hash_code(s: &str) -> (h: i32)
    ensures
        h == java_hash(utf16(s@)),
{
    let cs = chars_of(s);
    let mut h: i32 = 0;
    let mut i: usize = 0;
    while i < cs.len()
        invariant
            cs@ == s@,
            i <= cs@.len(),
            h == java_hash(utf16(cs@.take(i as int))),
        decreases cs.len() - i,
    {
        let c = cs[i];
        let ghost before = utf16(cs@.take(i as int));
        proof {
            assert(cs@.take(i + 1).drop_last() == cs@.take(i as int));
            assert(utf16(cs@.take(i + 1)) == before + utf16_of_char(c));
        }
        let v = c as u32;
        if v < 0x10000 {
            proof {
                assert(before + utf16_of_char(c) == before.push(v as u16));
                lemma_java_hash_push(before, v as u16);
            }
            h = hash_step(h, v as u16);
        } else {
            let w = v - 0x10000;
            let hi = #[verifier::truncate] ((0xD800 + w / 0x400) as u16);
            let lo = #[verifier::truncate] ((0xDC00 + w % 0x400) as u16);
            proof {
                assert(before + utf16_of_char(c) == before.push(hi).push(lo));
                lemma_java_hash_push(before, hi);
                lemma_java_hash_push(before.push(hi), lo);
            }
            h = hash_step(h, hi);
            h = hash_step(h, lo);
        }
        i = i + 1;
    }
    proof {
        assert(cs@.take(cs@.len() as int) == cs@);
    }
    h
}

/// What `str::to_lowercase` returns for a text: its Unicode lowercase
/// mapping (a final sigma is lowercased by its context).
pub uninterp spec fn unicode_lowercase(s: Seq<char>) -> Seq<char>;

/// `str::to_lowercase` (std). Claimed: the result is the Unicode lowercase
/// mapping of the argument and depends on nothing else.
#[verifier::external_body]
fn to_lowercase(s: &str) -> (r: String)
    ensures
        r@ == unicode_lowercase(s@),
{
    s.to_lowercase()
}

/// The directory part of a container path: everything before the last `/`
/// (or `/` when there is none).
pub open spec fn parent_of(path: Seq<char>) -> Seq<char> {
    match rsplit_once(path, '/') {
        Some((head, _)) => head,
        None => "/"@,
    }
}

/// The bucket of a media file: the Java hash of its lowercased parent
/// directory, and the parent's last path component as the bucket's name.
pub open spec fn bucket_spec(path: Seq<char>) -> (i32, Seq<char>) {
    (java_hash(utf16(unicode_lowercase(parent_of(path)))), after_last(parent_of(path), '/'))
}

pub fn bucket_of(container_path: &str) -> (r: (i32, String))
    ensures
        (r.0, r.1@) == bucket_spec(container_path@),
{
    let cs = chars_of(container_path);
    let parent: Vec<char> = match split_at_last(cs.as_slice(), '/') {
        Some((head, _)) => head,
        None => chars_of("/"),
    };
    let name = tail_after(parent.as_slice(), '/');
    let parent_text = string_of(parent.as_slice());
    let lowered = to_lowercase(parent_text.as_str());
    let id = java_hash_code(lowered.as_str());
    (id, string_of(name.as_slice()))
}

// ---------------------------------------------------------------------------
// File extensions
// ---------------------------------------------------------------------------

/// The MIME type and media type of a (lowercase) file extension.
pub open spec fn mime_for_ext_spec(ext: Seq<char>) -> Option<(Seq<char>, i32)> {
    if ext == "jpg"@ || ext == "jpeg"@ || ext == "jpe"@ {
        Some(("image/jpeg"@, MEDIA_TYPE_IMAGE))
    } else if ext == "png"@ {
        Some(("image/png"@, MEDIA_TYPE_IMAGE))
    } else if ext == "gif"@ {
        Some(("image/gif"@, MEDIA_TYPE_IMAGE))
    } else if ext == "webp"@ {
        Some(("image/webp"@, MEDIA_TYPE_IMAGE))
    } else if ext == "bmp"@ {
        Some(("image/bmp"@, MEDIA_TYPE_IMAGE))
    } else if ext == "heic"@ {
        Some(("image/heic"@, MEDIA_TYPE_IMAGE))
    } else if ext == "heif"@ {
        Some(("image/heif"@, MEDIA_TYPE_IMAGE))
    } else if ext == "avif"@ {
        Some(("image/avif"@, MEDIA_TYPE_IMAGE))
    } else if ext == "mp4"@ || ext == "m4v"@ {
        Some(("video/mp4"@, MEDIA_TYPE_VIDEO))
    } else if ext == "webm"@ {
        Some(("video/webm"@, MEDIA_TYPE_VIDEO))
    } else if ext == "mkv"@ {
        Some(("video/x-matroska"@, MEDIA_TYPE_VIDEO))
    } else if ext == "3gp"@ {
        Some(("video/3gpp"@, MEDIA_TYPE_VIDEO))
    } else if ext == "mov"@ {
        Some(("video/quicktime"@, MEDIA_TYPE_VIDEO))
    } else if ext == "avi"@ {
        Some(("video/avi"@, MEDIA_TYPE_VIDEO))
    } else {
        None
    }
}

pub fn mime_for_ext(ext: &str) -> (r: Option<(&'static str, i32)>)
    ensures
        match (r, mime_for_ext_spec(ext@)) {
            (Some((m, t)), Some((sm, st))) => m@ == sm && t == st,
            (None, None) => true,
            _ => false,
        },
{
    let e = chars_of(ext);
    let e = e.as_slice();
    if is(e, "jpg") || is(e, "jpeg") || is(e, "jpe") {
        Some(("image/jpeg", MEDIA_TYPE_IMAGE))
    } else if is(e, "png") {
        Some(("image/png", MEDIA_TYPE_IMAGE))
    } else if is(e, "gif") {
        Some(("image/gif", MEDIA_TYPE_IMAGE))
    } else if is(e, "webp") {
        Some(("image/webp", MEDIA_TYPE_IMAGE))
    } else if is(e, "bmp") {
        Some(("image/bmp", MEDIA_TYPE_IMAGE))
    } else if is(e, "heic") {
        Some(("image/heic", MEDIA_TYPE_IMAGE))
    } else if is(e, "heif") {
        Some(("image/heif", MEDIA_TYPE_IMAGE))
    } else if is(e, "avif") {
        Some(("image/avif", MEDIA_TYPE_IMAGE))
    } else if is(e, "mp4") || is(e, "m4v") {
        Some(("video/mp4", MEDIA_TYPE_VIDEO))
    } else if is(e, "webm") {
        Some(("video/webm", MEDIA_TYPE_VIDEO))
    } else if is(e, "mkv") {
        Some(("video/x-matroska", MEDIA_TYPE_VIDEO))
    } else if is(e, "3gp") {
        Some(("video/3gpp", MEDIA_TYPE_VIDEO))
    } else if is(e, "mov") {
        Some(("video/quicktime", MEDIA_TYPE_VIDEO))
    } else if is(e, "avi") {
        Some(("video/avi", MEDIA_TYPE_VIDEO))
    } else {
        None
    }
}

// ---------------------------------------------------------------------------
// Container paths
// ---------------------------------------------------------------------------

/// What `Path::strip_prefix` returns for a path and a base, as text: the
/// part of `path` after the components of `base`, or `None` when `base` is
/// not a component-wise prefix of `path`.
pub uninterp spec fn path_relative_to(path: Seq<char>, base: Seq<char>) -> Option<Seq<char>>;

/// `Path::strip_prefix` (std), on paths given as text. Claimed: the result
/// depends on the two paths alone.
#[verifier::external_body]
fn strip_path_prefix(path: &str, base: &str) -> (r: Option<String>)
    ensures
        match (r, path_relative_to(path@, base@)) {
            (Some(a), Some(b)) => a@ == b,
            (None, None) => true,
            _ => false,
        },
{
    std::path::Path::new(path).strip_prefix(base).ok().map(|p| p.to_string_lossy().into_owned())
}

/// `s` with every `\` replaced by `/`.
pub open spec fn forward_slashes(s: Seq<char>) -> Seq<char> {
    Seq::new(s.len(), |i: int| if s[i] == '\\' { '/' } else { s[i] })
}

/// The path inside the app namespace of a host file under the shared
/// sdcard root: `/storage/emulated/0/` followed by the relative path.
pub open spec fn container_path_spec(sdcard_host: Seq<char>, host_path: Seq<char>) -> Option<Seq<char>> {
    match path_relative_to(host_path, sdcard_host) {
        Some(rel) => Some("/storage/emulated/0/"@ + forward_slashes(rel)),
        None => None,
    }
}

pub fn container_path_for(sdcard_host: &str, host_path: &str) -> (r: Option<String>)
    ensures
        match (r, container_path_spec(sdcard_host@, host_path@)) {
            (Some(a), Some(b)) => a@ == b,
            (None, None) => true,
            _ => false,
        },
{
    let rel = match strip_path_prefix(host_path, sdcard_host) {
        Some(rel) => rel,
        None => return None,
    };
    let rs = chars_of(rel.as_str());
    let mut out = chars_of("/storage/emulated/0/");
    let ghost prefix = out@;
    let mut i: usize = 0;
    while i < rs.len()
        invariant
            i <= rs@.len(),
            out@ == prefix + forward_slashes(rs@.take(i as int)),
        decreases rs.len() - i,
    {
        let c = rs[i];
        out.push(if c == '\\' { '/' } else { c });
        proof {
            assert(forward_slashes(rs@.take(i + 1)) == forward_slashes(rs@.take(i as int)).push(
                if c == '\\' { '/' } else { c },
            ));
        }
        i = i + 1;
    }
    proof {
        assert(rs@.take(rs@.len() as int) == rs@);
    }
    Some(string_of(out.as_slice()))
}

// ---------------------------------------------------------------------------
// Content URIs
// ---------------------------------------------------------------------------

/// The kind of table a `content://media/...` URI names.
#[derive(Debug, Clone, Copy, PartialEq, Eq, Structural)]
pub enum UriKind {
    Audio { id: Option<i64>, external: bool },
    Images { id: Option<i64> },
    Videos { id: Option<i64> },
    Files { id: Option<i64> },
    Thumbnails,
    Unknown { id: Option<i64>, external: bool },
}

/// The numeric id in the last path segment, if it is one.
pub open spec fn trailing_id_spec(path: Seq<char>) -> Option<i64> {
    parse_i64_spec(after_last(path, '/'))
}

pub fn trailing_id(path: &str) -> (r: Option<i64>)
    ensures
        r == trailing_id_spec(path@),
{
    let cs = chars_of(path);
    let last = tail_after(cs.as_slice(), '/');
    parse_i64(last.as_slice())
}

pub open spec fn classify_spec(uri: Seq<char>) -> UriKind {
    let path = before_first(uri, '?');
    let lower = ascii_lower(path);
    let external = contains(lower, "external"@);
    if contains(lower, "/images/thumbnails"@) || contains(lower, "/video/thumbnails"@) {
        UriKind::Thumbnails
    } else if contains(lower, "/images/"@) {
        UriKind::Images { id: trailing_id_spec(path) }
    } else if contains(lower, "/video/"@) {
        UriKind::Videos { id: trailing_id_spec(path) }
    } else if contains(lower, "/audio/"@) {
        UriKind::Audio { id: trailing_id_spec(path), external }
    } else if contains(lower, "/file"@) {
        UriKind::Files { id: trailing_id_spec(path) }
    } else {
        UriKind::Unknown { id: trailing_id_spec(path), external }
    }
}

/// Which table a media URI addresses, and the row id it ends in. The query
/// string is ignored; matching is ASCII case-insensitive.
pub fn classify_uri(uri: &str) -> (r: UriKind)
    ensures
        r == classify_spec(uri@),
{
    let cs = chars_of(uri);
    let path = head_before(cs.as_slice(), '?');
    let lower = to_lower(path.as_slice());
    let l = lower.as_slice();
    let path_text = string_of(path.as_slice());
    let id = trailing_id(path_text.as_str());
    let external = has(l, "external");
    if has(l, "/images/thumbnails") || has(l, "/video/thumbnails") {
        UriKind::Thumbnails
    } else if has(l, "/images/") {
        UriKind::Images { id }
    } else if has(l, "/video/") {
        UriKind::Videos { id }
    } else if has(l, "/audio/") {
        UriKind::Audio { id, external }
    } else if has(l, "/file") {
        UriKind::Files { id }
    } else {
        UriKind::Unknown { id, external }
    }
}

// ---------------------------------------------------------------------------
// Query filters
// ---------------------------------------------------------------------------

/// What a MediaStore query restricts: a row id, an id range, a bucket, a
/// media type, and a window (offset and limit) of the sorted result.
#[derive(Debug, Clone, Copy, PartialEq, Eq, Structural)]
pub struct QueryFilter {
    pub id: Option<i64>,
    pub id_min: Option<i64>,
    pub id_max: Option<i64>,
    pub bucket_id: Option<i32>,
    pub media_type: Option<i32>,
    pub offset: usize,
    pub limit: Option<usize>,
}

pub open spec fn empty_filter() -> QueryFilter {
    QueryFilter {
        id: None,
        id_min: None,
        id_max: None,
        bucket_id: None,
        media_type: None,
        offset: 0,
        limit: None,
    }
}

impl Default for QueryFilter {
    fn default() -> (r: Self)
        ensures
            r == empty_filter(),
    {
        QueryFilter {
            id: None,
            id_min: None,
            id_max: None,
            bucket_id: None,
            media_type: None,
            offset: 0,
            limit: None,
        }
    }
}

/// The query arguments a client's bundle carries, as plain values.
pub struct QueryArgs {
    /// `android:query-arg-sql-selection`
    pub selection: Option<String>,
    /// `android:query-arg-sql-selection-args`
    pub selection_args: Vec<String>,
    /// `android:query-arg-limit`
    pub limit: Option<i64>,
    /// `android:query-arg-sql-limit`
    pub sql_limit: Option<String>,
    /// `android:query-arg-offset`
    pub offset: Option<i64>,
}

impl QueryArgs {
    /// No query arguments at all.
    pub fn none() -> (r: QueryArgs)
        ensures
            r.selection is None,
            r.selection_args@.len() == 0,
            r.limit is None,
            r.sql_limit is None,
            r.offset is None,
    {
        QueryArgs { selection: None, selection_args: Vec::new(), limit: None, sql_limit: None, offset: None }
    }
}

/// A limit specification `"count"` or `"offset,count"` applied to a filter.
/// An unreadable offset keeps the old one; an unreadable count clears the
/// limit in the two-part form and is ignored in the one-part form.
pub open spec fn limit_applied(f: QueryFilter, spec: Seq<char>) -> QueryFilter {
    let t = trim(spec);
    match split_once(t, ',') {
        Some((a, b)) => QueryFilter {
            offset: match parse_usize_spec(trim(a)) {
                Some(n) => n,
                None => f.offset,
            },
            limit: parse_usize_spec(trim(b)),
            ..f
        },
        None => match parse_usize_spec(t) {
            Some(n) => QueryFilter { limit: Some(n), ..f },
            None => f,
        },
    }
}

fn apply_limit_chars(f: &mut QueryFilter, spec: &[char])
    ensures
        *final(f) == limit_applied(*old(f), spec@),
{
    let t = trimmed(spec);
    match split_at_first(t.as_slice(), ',') {
        Some((a, b)) => {
            let a = trimmed(a.as_slice());
            let b = trimmed(b.as_slice());
            match parse_usize(a.as_slice()) {
                Some(n) => f.offset = n,
                None => {},
            }
            f.limit = parse_usize(b.as_slice());
        },
        None => {
            match parse_usize(t.as_slice()) {
                Some(n) => f.limit = Some(n),
                None => {},
            }
        },
    }
}

pub fn apply_limit_spec(f: &mut QueryFilter, spec: &str)
    ensures
        *final(f) == limit_applied(*old(f), spec@),
{
    let cs = chars_of(spec);
    apply_limit_chars(f, cs.as_slice());
}

/// Tokens found so far and the token being read.
pub open spec fn flush(out: Seq<Seq<char>>, cur: Seq<char>) -> Seq<Seq<char>> {
    if cur.len() > 0 {
        out.push(cur)
    } else {
        out
    }
}

/// The tokenizer's state after reading `s`: whitespace and parentheses end
/// a token, `=` ends a token and is a token of its own.
pub open spec fn tokenize_state(s: Seq<char>) -> (Seq<Seq<char>>, Seq<char>)
    decreases s.len(),
{
    if s.len() == 0 {
        (seq![], seq![])
    } else {
        let (out, cur) = tokenize_state(s.drop_last());
        let c = s.last();
        if crate::text::is_white(c) {
            (flush(out, cur), seq![])
        } else if c == '=' {
            (flush(out, cur).push(seq!['=']), seq![])
        } else if c == '(' || c == ')' {
            (flush(out, cur), seq![])
        } else {
            (out, cur.push(c))
        }
    }
}

/// The tokens of an SQL selection.
pub open spec fn tokenize(s: Seq<char>) -> Seq<Seq<char>> {
    flush(tokenize_state(s).0, tokenize_state(s).1)
}

pub open spec fn views_of(v: Seq<Vec<char>>) -> Seq<Seq<char>> {
    v.map_values(|t: Vec<char>| t@)
}

pub open spec fn string_views(v: Seq<String>) -> Seq<Seq<char>> {
    v.map_values(|t: String| t@)
}

proof fn lemma_views_push(v: Seq<Vec<char>>, x: Vec<char>)
    ensures
        views_of(v.push(x)) == views_of(v).push(x@),
{
    assert(views_of(v.push(x)) =~= views_of(v).push(x@));
}

fn tokens_of(s: &[char]) -> (r: Vec<Vec<char>>)
    ensures
        views_of(r@) == tokenize(s@),
{
    let mut out: Vec<Vec<char>> = Vec::new();
    let mut cur: Vec<char> = Vec::new();
    let mut i: usize = 0;
    proof {
        assert(s@.take(0) =~= Seq::<char>::empty());
        assert(views_of(out@) =~= Seq::<Seq<char>>::empty());
    }
    while i < s.len()
        invariant
            i <= s@.len(),
            (views_of(out@), cur@) == tokenize_state(s@.take(i as int)),
        decreases s.len() - i,
    {
        let c = s[i];
        let ghost prev_out = out@;
        proof {
            assert(s@.take(i + 1).drop_last() == s@.take(i as int));
            assert(s@.take(i + 1).last() == c);
        }
        if crate::text::white(c) || c == '(' || c == ')' {
            if cur.len() > 0 {
                let mut done: Vec<char> = Vec::new();
                std::mem::swap(&mut done, &mut cur);
                out.push(done);
                proof {
                    lemma_views_push(prev_out, done);
                }
            }
            proof {
                assert(cur@ =~= Seq::<char>::empty());
            }
        } else if c == '=' {
            if cur.len() > 0 {
                let mut done: Vec<char> = Vec::new();
                std::mem::swap(&mut done, &mut cur);
                out.push(done);
                proof {
                    lemma_views_push(prev_out, done);
                }
            }
            let ghost mid = out@;
            let eq = vec!['='];
            out.push(eq);
            proof {
                lemma_views_push(mid, eq);
                assert(eq@ =~= seq!['=']);
                assert(cur@ =~= Seq::<char>::empty());
            }
        } else {
            cur.push(c);
        }
        i = i + 1;
    }
    proof {
        assert(s@.take(s@.len() as int) == s@);
    }
    if cur.len() > 0 {
        let ghost prev_out = out@;
        out.push(cur);
        proof {
            lemma_views_push(prev_out, cur);
        }
    }
    out
}

/// The tokens of an SQL selection: words separated by whitespace and
/// parentheses, with every `=` a token of its own.
pub fn tokenize_sql(sql: &str) -> (r: Vec<String>)
    ensures
        string_views(r@) == tokenize(sql@),
{
    let cs = chars_of(sql);
    let toks = tokens_of(cs.as_slice());
    let mut out: Vec<String> = Vec::new();
    let mut i: usize = 0;
    while i < toks.len()
        invariant
            i <= toks@.len(),
            string_views(out@) == views_of(toks@).take(i as int),
        decreases toks.len() - i,
    {
        let t = string_of(toks[i].as_slice());
        let ghost prev = out@;
        out.push(t);
        proof {
            assert(string_views(prev.push(t)) =~= string_views(prev).push(t@));
            assert(views_of(toks@).take(i + 1) =~= views_of(toks@).take(i as int).push(toks@[i as int]@));
        }
        i = i + 1;
    }
    proof {
        assert(views_of(toks@).take(toks@.len() as int) =~= views_of(toks@));
    }
    out
}

/// The value a selection's right-hand side stands for: the next argument
/// for `?` (absent once the arguments run out), else the literal without
/// its quotes. Returns the value and the index of the next argument.
pub open spec fn resolve_spec(rhs: Seq<char>, args: Seq<Seq<char>>, ai: int) -> (Option<Seq<char>>, int) {
    let r = trim(rhs);
    if r == seq!['?'] {
        (if 0 <= ai < args.len() { Some(args[ai]) } else { None }, ai + 1)
    } else {
        (Some(strip_char(strip_char(r, '\''), '"')), ai)
    }
}

pub open spec fn opt_i64(v: Option<Seq<char>>) -> Option<i64> {
    match v {
        Some(s) => parse_i64_spec(s),
        None => None,
    }
}

pub open spec fn opt_i32(v: Option<Seq<char>>) -> Option<i32> {
    match v {
        Some(s) => parse_i32_spec(s),
        None => None,
    }
}

/// The filter that the selection `tokens[i..]` yields, starting from `f`
/// with `ai` arguments used. Understood are `col = value` for `bucket_id`,
/// `_id` and `media_type`, and `_id BETWEEN lo AND hi`; `AND` joins them and
/// anything else is skipped.
pub open spec fn select_from(tokens: Seq<Seq<char>>, args: Seq<Seq<char>>, i: int, ai: int, f: QueryFilter) -> QueryFilter
    decreases tokens.len() - i,
{
    if i < 0 || i >= tokens.len() {
        f
    } else if eq_ignore_case(tokens[i], "and"@) {
        select_from(tokens, args, i + 1, ai, f)
    } else if i + 2 < tokens.len() && eq_ignore_case(tokens[i + 1], "between"@) {
        let has_hi = i + 4 < tokens.len() && eq_ignore_case(tokens[i + 3], "and"@);
        let hi = if has_hi { tokens[i + 4] } else { seq!['?'] };
        let next = if has_hi { i + 5 } else { i + 3 };
        if eq_ignore_case(tokens[i], "_id"@) {
            let (lo_v, a1) = resolve_spec(tokens[i + 2], args, ai);
            let (hi_v, a2) = resolve_spec(hi, args, a1);
            select_from(tokens, args, next, a2, QueryFilter { id_min: opt_i64(lo_v), id_max: opt_i64(hi_v), ..f })
        } else {
            select_from(tokens, args, next, ai, f)
        }
    } else if i + 2 < tokens.len() && tokens[i + 1] == seq!['='] {
        let (v, a1) = resolve_spec(tokens[i + 2], args, ai);
        let col = tokens[i];
        let g = if eq_ignore_case(col, "bucket_id"@) {
            QueryFilter { bucket_id: opt_i32(v), ..f }
        } else if eq_ignore_case(col, "_id"@) {
            QueryFilter { id: opt_i64(v), ..f }
        } else if eq_ignore_case(col, "media_type"@) {
            QueryFilter { media_type: opt_i32(v), ..f }
        } else {
            f
        };
        select_from(tokens, args, i + 3, a1, g)
    } else {
        select_from(tokens, args, i + 1, ai, f)
    }
}

/// A selection applied to a filter.
pub open spec fn selection_applied(f: QueryFilter, sql: Seq<char>, args: Seq<Seq<char>>) -> QueryFilter {
    select_from(tokenize(sql), args, 0, 0, f)
}

fn resolve_num(rhs: &[char], args: &Vec<Vec<char>>, ai: usize) -> (r: (Option<Vec<char>>, usize))
    requires
        ai < usize::MAX,
    ensures
        ({
            let (v, a) = resolve_spec(rhs@, views_of(args@), ai as int);
            &&& r.1 == a
            &&& match (r.0, v) {
                (Some(x), Some(y)) => x@ == y,
                (None, None) => true,
                _ => false,
            }
        }),
{
    let r = trimmed(rhs);
    if r.len() == 1 && r[0] == '?' {
        proof {
            assert(r@ =~= seq!['?']);
        }
        if ai < args.len() {
            (Some(crate::text::slice_copy(args[ai].as_slice(), 0, args[ai].len())), ai + 1)
        } else {
            (None, ai + 1)
        }
    } else {
        proof {
            if r@ == seq!['?'] {
                assert(r@.len() == 1);
            }
        }
        let a = trim_char(r.as_slice(), '\'');
        let b = trim_char(a.as_slice(), '"');
        (Some(b), ai)
    }
}

fn parse_opt_i64(v: &Option<Vec<char>>) -> (r: Option<i64>)
    ensures
        r == opt_i64(match v { Some(x) => Some(x@), None => None }),
{
    match v {
        Some(x) => parse_i64(x.as_slice()),
        None => None,
    }
}

fn parse_opt_i32(v: &Option<Vec<char>>) -> (r: Option<i32>)
    ensures
        r == opt_i32(match v { Some(x) => Some(x@), None => None }),
{
    match v {
        Some(x) => parse_i32(x.as_slice()),
        None => None,
    }
}

fn apply_selection_chars(f: &mut QueryFilter, sql: &[char], args: &Vec<Vec<char>>)
    ensures
        *final(f) == selection_applied(*old(f), sql@, views_of(args@)),
{
    if sql.len() == 0 {
        proof {
            assert(tokenize(sql@) =~= Seq::<Seq<char>>::empty());
        }
        return;
    }
    let toks = tokens_of(sql);
    let ghost tv = views_of(toks@);
    let ghost av = views_of(args@);
    let ghost f0 = *f;
    let mut ai: usize = 0;
    let mut i: usize = 0;
    while i < toks.len()
        invariant
            tv == views_of(toks@),
            av == views_of(args@),
            tv == tokenize(sql@),
            ai <= i <= toks@.len(),
            select_from(tv, av, 0, 0, f0) == select_from(tv, av, i as int, ai as int, *f),
        decreases toks.len() - i,
    {
        let t = toks[i].as_slice();
        proof {
            assert(tv[i as int] == t@);
        }
        if is_ignore_case(t, "and") {
            i = i + 1;
        } else if toks.len() - i > 2 && is_ignore_case(toks[i + 1].as_slice(), "between") {
            proof {
                assert(tv[i + 1] == toks@[i + 1]@);
                assert(tv[i + 2] == toks@[i + 2]@);
            }
            let has_hi = toks.len() - i > 4 && is_ignore_case(toks[i + 3].as_slice(), "and");
            proof {
                if i + 4 < toks.len() {
                    assert(tv[i + 3] == toks@[i + 3]@);
                    assert(tv[i + 4] == toks@[i + 4]@);
                }
            }
            let next = if has_hi { i + 5 } else { i + 3 };
            if is_ignore_case(t, "_id") {
                let (lo, a1) = resolve_num(toks[i + 2].as_slice(), args, ai);
                let q = vec!['?'];
                proof {
                    assert(q@ =~= seq!['?']);
                }
                let (hi, a2) = if has_hi {
                    resolve_num(toks[i + 4].as_slice(), args, a1)
                } else {
                    resolve_num(q.as_slice(), args, a1)
                };
                f.id_min = parse_opt_i64(&lo);
                f.id_max = parse_opt_i64(&hi);
                ai = a2;
            }
            i = next;
        } else if toks.len() - i > 2 && toks[i + 1].len() == 1 && toks[i + 1][0] == '=' {
            proof {
                assert(tv[i + 1] == toks@[i + 1]@);
                assert(tv[i + 2] == toks@[i + 2]@);
                assert(toks@[i + 1]@ =~= seq!['=']);
            }
            let (v, a1) = resolve_num(toks[i + 2].as_slice(), args, ai);
            if is_ignore_case(t, "bucket_id") {
                f.bucket_id = parse_opt_i32(&v);
            } else if is_ignore_case(t, "_id") {
                f.id = parse_opt_i64(&v);
            } else if is_ignore_case(t, "media_type") {
                f.media_type = parse_opt_i32(&v);
            }
            ai = a1;
            i = i + 3;
        } else {
            proof {
                if i + 2 < toks.len() && tv[i + 1] == seq!['='] {
                    assert(toks@[i + 1]@.len() == 1);
                }
            }
            i = i + 1;
        }
    }
}

/// Applies an SQL selection with its `?` arguments to a filter.
pub fn apply_selection(f: &mut QueryFilter, sql: &str, args: &[String])
    ensures
        *final(f) == selection_applied(*old(f), sql@, string_views(args@)),
{
    let cs = chars_of(sql);
    let mut av: Vec<Vec<char>> = Vec::new();
    let mut i: usize = 0;
    while i < args.len()
        invariant
            i <= args@.len(),
            views_of(av@) == string_views(args@).take(i as int),
        decreases args.len() - i,
    {
        let a = chars_of(args[i].as_str());
        let ghost prev = av@;
        av.push(a);
        proof {
            lemma_views_push(prev, a);
            assert(string_views(args@).take(i + 1) =~= string_views(args@).take(i as int).push(args@[i as int]@));
        }
        i = i + 1;
    }
    proof {
        assert(string_views(args@).take(args@.len() as int) =~= string_views(args@));
    }
    apply_selection_chars(f, cs.as_slice(), &av);
}

/// One `key=value` part of a URI query applied to a filter: `limit` takes a
/// limit specification, `bucketId`/`bucket_id` a bucket (when it reads as an
/// `i32`); other keys, and parts without `=`, change nothing.
pub open spec fn param_applied(f: QueryFilter, part: Seq<char>) -> QueryFilter {
    match split_once(part, '=') {
        Some((k, v)) => if eq_ignore_case(k, "limit"@) {
            limit_applied(f, v)
        } else if eq_ignore_case(k, "bucketId"@) || eq_ignore_case(k, "bucket_id"@) {
            match parse_i32_spec(v) {
                Some(id) => QueryFilter { bucket_id: Some(id), ..f },
                None => f,
            }
        } else {
            f
        },
        None => f,
    }
}

/// The filter and the pending part after reading `q`, whose parts are
/// separated by `&`.
pub open spec fn params_state(f: QueryFilter, q: Seq<char>) -> (QueryFilter, Seq<char>)
    decreases q.len(),
{
    if q.len() == 0 {
        (f, seq![])
    } else {
        let (g, cur) = params_state(f, q.drop_last());
        if q.last() == '&' {
            (param_applied(g, cur), seq![])
        } else {
            (g, cur.push(q.last()))
        }
    }
}

/// Every `&`-separated part of a URI query string applied in order.
pub open spec fn params_applied(f: QueryFilter, q: Seq<char>) -> QueryFilter {
    param_applied(params_state(f, q).0, params_state(f, q).1)
}

fn apply_param(f: &mut QueryFilter, part: &[char])
    ensures
        *final(f) == param_applied(*old(f), part@),
{
    match split_at_first(part, '=') {
        Some((k, v)) => {
            if is_ignore_case(k.as_slice(), "limit") {
                apply_limit_chars(f, v.as_slice());
            } else if is_ignore_case(k.as_slice(), "bucketId") || is_ignore_case(k.as_slice(), "bucket_id") {
                match parse_i32(v.as_slice()) {
                    Some(id) => f.bucket_id = Some(id),
                    None => {},
                }
            }
        },
        None => {},
    }
}

fn apply_params(f: &mut QueryFilter, q: &[char])
    ensures
        *final(f) == params_applied(*old(f), q@),
{
    let ghost f0 = *f;
    let mut cur: Vec<char> = Vec::new();
    let mut i: usize = 0;
    proof {
        assert(q@.take(0) =~= Seq::<char>::empty());
        assert(cur@ =~= Seq::<char>::empty());
    }
    while i < q.len()
        invariant
            i <= q@.len(),
            params_state(f0, q@.take(i as int)) == (*f, cur@),
        decreases q.len() - i,
    {
        proof {
            assert(q@.take(i + 1).drop_last() == q@.take(i as int));
        }
        if q[i] == '&' {
            apply_param(f, cur.as_slice());
            cur = Vec::new();
            proof {
                assert(cur@ =~= Seq::<char>::empty());
            }
        } else {
            cur.push(q[i]);
        }
        i = i + 1;
    }
    proof {
        assert(q@.take(q@.len() as int) == q@);
    }
    apply_param(f, cur.as_slice());
}

/// The filter a MediaStore query asks for.
pub open spec fn filter_spec(
    uri: Seq<char>,
    selection: Option<Seq<char>>,
    selection_args: Seq<Seq<char>>,
    limit: Option<i64>,
    sql_limit: Option<Seq<char>>,
    offset: Option<i64>,
    kind_id: Option<i64>,
) -> QueryFilter {
    let f0 = QueryFilter { id: kind_id, ..empty_filter() };
    let f1 = selection_applied(
        f0,
        match selection {
            Some(s) => s,
            None => seq![],
        },
        selection_args,
    );
    let f2 = match limit {
        Some(n) => if n >= 0 { QueryFilter { limit: Some(n as usize), ..f1 } } else { f1 },
        None => f1,
    };
    let f3 = match sql_limit {
        Some(s) => limit_applied(f2, s),
        None => f2,
    };
    let f4 = match offset {
        Some(n) => if n >= 0 { QueryFilter { offset: n as usize, ..f3 } } else { f3 },
        None => f3,
    };
    match split_once(uri, '?') {
        Some((_, q)) => params_applied(f4, q),
        None => f4,
    }
}

pub open spec fn opt_view(s: Option<String>) -> Option<Seq<char>> {
    match s {
        Some(t) => Some(t@),
        None => None,
    }
}

/// The filter of a query on `uri` with the bundle's arguments `args`,
/// for a URI whose own id is `kind_id`.
pub fn parse_query_filter(uri: &str, args: &QueryArgs, kind_id: Option<i64>) -> (f: QueryFilter)
    ensures
        f == filter_spec(
            uri@,
            opt_view(args.selection),
            string_views(args.selection_args@),
            args.limit,
            opt_view(args.sql_limit),
            args.offset,
            kind_id,
        ),
{
    let mut f = QueryFilter {
        id: kind_id,
        id_min: None,
        id_max: None,
        bucket_id: None,
        media_type: None,
        offset: 0,
        limit: None,
    };
    match &args.selection {
        Some(s) => apply_selection(&mut f, s.as_str(), args.selection_args.as_slice()),
        None => apply_selection(&mut f, "", args.selection_args.as_slice()),
    }
    proof {
        reveal_strlit("");
    }
    match args.limit {
        Some(n) => {
            if n >= 0 {
                f.limit = Some(#[verifier::truncate] (n as usize));
            }
        },
        None => {},
    }
    match &args.sql_limit {
        Some(s) => apply_limit_spec(&mut f, s.as_str()),
        None => {},
    }
    match args.offset {
        Some(n) => {
            if n >= 0 {
                f.offset = #[verifier::truncate] (n as usize);
            }
        },
        None => {},
    }
    let cs = chars_of(uri);
    match split_at_first(cs.as_slice(), '?') {
        Some((_, q)) => apply_params(&mut f, q.as_slice()),
        None => {},
    }
    f
}

// ---------------------------------------------------------------------------
// Catalogue items
// ---------------------------------------------------------------------------

/// A sound in the catalogue.
pub struct AudioItem {
    pub id: i64,
    pub title: String,
    pub display_name: String,
    /// The file on the host.
    pub path: String,
    /// The path the app sees.
    pub container_path: String,
    pub is_alarm: bool,
    pub is_ringtone: bool,
    pub is_notification: bool,
}

/// A picture or video in the catalogue.
pub struct VisualItem {
    pub id: i64,
    pub title: String,
    pub display_name: String,
    /// The file on the host.
    pub path: String,
    /// The path the app sees, under `/storage/emulated/0/`.
    pub container_path: String,
    pub relative_path: String,
    pub mime_type: String,
    pub media_type: i32,
    pub bucket_id: i32,
    pub bucket_display_name: String,
    pub size: i64,
    pub date_added: i64,
    pub date_modified: i64,
    pub date_taken: i64,
    pub width: i32,
    pub height: i32,
    pub orientation: i32,
    pub duration_ms: i64,
}

/// Whether a picture or video passes a filter (and the table's own media
/// type, which takes the place of the filter's when given).
pub open spec fn matches_visual_spec(item: VisualItem, f: QueryFilter, type_restrict: Option<i32>) -> bool {
    &&& match (match type_restrict {
        Some(t) => Some(t),
        None => f.media_type,
    }) {
        Some(t) => item.media_type == t,
        None => true,
    }
    &&& match f.id {
        Some(id) => item.id == id,
        None => true,
    }
    &&& match f.id_min {
        Some(lo) => item.id >= lo,
        None => true,
    }
    &&& match f.id_max {
        Some(hi) => item.id <= hi,
        None => true,
    }
    &&& match f.bucket_id {
        Some(b) => item.bucket_id == b,
        None => true,
    }
}

pub fn matches_visual(item: &VisualItem, f: &QueryFilter, type_restrict: Option<i32>) -> (r: bool)
    ensures
        r == matches_visual_spec(*item, *f, type_restrict),
{
    let t = match type_restrict {
        Some(t) => Some(t),
        None => f.media_type,
    };
    match t {
        Some(t) => {
            if item.media_type != t {
                return false;
            }
        },
        None => {},
    }
    match f.id {
        Some(id) => {
            if item.id != id {
                return false;
            }
        },
        None => {},
    }
    match f.id_min {
        Some(lo) => {
            if item.id < lo {
                return false;
            }
        },
        None => {},
    }
    match f.id_max {
        Some(hi) => {
            if item.id > hi {
                return false;
            }
        },
        None => {},
    }
    match f.bucket_id {
        Some(b) => {
            if item.bucket_id != b {
                return false;
            }
        },
        None => {},
    }
    true
}

/// A picture or video passes a filter only if it agrees with every field the
/// filter sets: its album (`bucket_id`), its id and id range, and its media
/// type (the table's own type taking the place of the filter's). Where it
/// agrees with all of them it passes.
pub proof fn law_visual_filter_fields(item: VisualItem, f: QueryFilter, type_restrict: Option<i32>)
    ensures
        matches_visual_spec(item, f, type_restrict) ==> {
            &&& (f.bucket_id matches Some(b) ==> item.bucket_id == b)
            &&& (f.id matches Some(id) ==> item.id == id)
            &&& (f.id_min matches Some(lo) ==> item.id >= lo)
            &&& (f.id_max matches Some(hi) ==> item.id <= hi)
            &&& (type_restrict matches Some(t) ==> item.media_type == t)
            &&& (type_restrict is None ==> (f.media_type matches Some(t) ==> item.media_type == t))
        },
        ({
            &&& f.bucket_id is None || f.bucket_id == Some(item.bucket_id)
            &&& f.id is None || f.id == Some(item.id)
            &&& (f.id_min matches Some(lo) ==> item.id >= lo)
            &&& (f.id_max matches Some(hi) ==> item.id <= hi)
            &&& type_restrict is None || type_restrict == Some(item.media_type)
            &&& type_restrict is Some || f.media_type is None || f.media_type == Some(item.media_type)
        }) ==> matches_visual_spec(item, f, type_restrict),
{
}

/// A query for one album lists only that album's pictures and videos, and,
/// where nothing else narrows it, every one of them.
pub proof fn law_listing_keeps_album(items: Seq<VisualItem>, f: QueryFilter, t: Option<i32>, order: Seq<usize>, b: i32)
    requires
        is_listing(items, f, t, order),
        f.bucket_id == Some(b),
    ensures
        forall|i: int| 0 <= i < order.len() ==> items[#[trigger] order[i] as int].bucket_id == b,
        (t is None && f.media_type is None && f.id is None && f.id_min is None && f.id_max is None) ==>
            forall|k: usize| k < items.len() && (#[trigger] items[k as int]).bucket_id == b ==> order.contains(k),
{
    assert forall|i: int| 0 <= i < order.len() implies items[#[trigger] order[i] as int].bucket_id == b by {
        law_visual_filter_fields(items[order[i] as int], f, t);
    }
    if t is None && f.media_type is None && f.id is None && f.id_min is None && f.id_max is None {
        assert forall|k: usize| k < items.len() && (#[trigger] items[k as int]).bucket_id == b implies order.contains(k) by {
            law_visual_filter_fields(items[k as int], f, t);
        }
    }
}

/// A projection column asks for a count.
pub open spec fn is_count_col_spec(col: Seq<char>) -> bool {
    starts_with(without_spaces(ascii_lower(col)), "count("@)
}

pub fn is_count_col(col: &str) -> (r: bool)
    ensures
        r == is_count_col_spec(col@),
{
    let cs = chars_of(col);
    let l = to_lower(cs.as_slice());
    let l = remove_spaces(l.as_slice());
    begins(l.as_slice(), "count(")
}

/// A projection that asks for counts only.
pub open spec fn is_count_only_spec(cols: Seq<Seq<char>>) -> bool {
    cols.len() > 0 && forall|i: int| 0 <= i < cols.len() ==> is_count_col_spec(#[trigger] cols[i])
}

pub fn is_count_only(cols: &[String]) -> (r: bool)
    ensures
        r == is_count_only_spec(string_views(cols@)),
{
    if cols.len() == 0 {
        return false;
    }
    let mut i: usize = 0;
    while i < cols.len()
        invariant
            i <= cols@.len(),
            forall|j: int| 0 <= j < i ==> is_count_col_spec(#[trigger] string_views(cols@)[j]),
        decreases cols.len() - i,
    {
        if !is_count_col(cols[i].as_str()) {
            proof {
                assert(!is_count_col_spec(string_views(cols@)[i as int]));
            }
            return false;
        }
        i = i + 1;
    }
    true
}

fn owned(s: &str) -> (r: String)
    ensures
        r@ == s@,
{
    s.to_owned()
}

/// The columns a visual query answers when the client names none.
pub open spec fn default_visual_cols_spec(kind: UriKind) -> Seq<Seq<char>> {
    match kind {
        UriKind::Videos { .. } => seq![
            "_id"@, "title"@, "mime_type"@, "datetaken"@, "date_added"@, "date_modified"@, "_data"@,
            "duration"@, "bucket_id"@, "_size"@, "resolution"@,
        ],
        _ => seq![
            "_id"@, "title"@, "mime_type"@, "datetaken"@, "date_added"@, "date_modified"@, "_data"@,
            "orientation"@, "bucket_id"@, "_size"@, "width"@, "height"@, "bucket_display_name"@,
            "media_type"@,
        ],
    }
}

pub fn default_visual_cols(kind: UriKind) -> (r: Vec<String>)
    ensures
        string_views(r@) == default_visual_cols_spec(kind),
{
    let r = match kind {
        UriKind::Videos { .. } => vec![
            owned("_id"), owned("title"), owned("mime_type"), owned("datetaken"), owned("date_added"),
            owned("date_modified"), owned("_data"), owned("duration"), owned("bucket_id"), owned("_size"),
            owned("resolution"),
        ],
        _ => vec![
            owned("_id"), owned("title"), owned("mime_type"), owned("datetaken"), owned("date_added"),
            owned("date_modified"), owned("_data"), owned("orientation"), owned("bucket_id"), owned("_size"),
            owned("width"), owned("height"), owned("bucket_display_name"), owned("media_type"),
        ],
    };
    proof {
        assert(string_views(r@) =~= default_visual_cols_spec(kind));
    }
    r
}

/// The MIME type `GET_TYPE` answers: a known file's own type, else the
/// cursor type of the table.
pub open spec fn mime_for_kind_spec(kind: UriKind, visual: Option<Seq<char>>) -> Seq<char> {
    match visual {
        Some(m) => if m == "image/jpeg"@ || m == "image/png"@ || m == "image/gif"@ || m == "image/webp"@
            || m == "image/bmp"@ || m == "image/heic"@ || m == "image/heif"@ || m == "image/avif"@
            || m == "video/mp4"@ || m == "video/webm"@ || m == "video/x-matroska"@ || m == "video/3gpp"@
            || m == "video/quicktime"@ || m == "video/avi"@ {
            m
        } else if starts_with(m, "image/"@) {
            "image/*"@
        } else if starts_with(m, "video/"@) {
            "video/*"@
        } else {
            "application/octet-stream"@
        },
        None => match kind {
            UriKind::Images { id: Some(_) } => "vnd.android.cursor.item/image"@,
            UriKind::Images { id: None } => "vnd.android.cursor.dir/image"@,
            UriKind::Videos { id: Some(_) } => "vnd.android.cursor.item/video"@,
            UriKind::Videos { id: None } => "vnd.android.cursor.dir/video"@,
            UriKind::Files { .. } => "vnd.android.cursor.dir/media"@,
            UriKind::Thumbnails => "vnd.android.cursor.dir/image"@,
            _ => "audio/ogg"@,
        },
    }
}

pub fn mime_for_kind(kind: UriKind, visual: Option<&VisualItem>) -> (r: &'static str)
    ensures
        r@ == mime_for_kind_spec(kind, match visual { Some(v) => Some(v.mime_type@), None => None }),
{
    match visual {
        Some(v) => {
            let m = chars_of(v.mime_type.as_str());
            let m = m.as_slice();
            if is(m, "image/jpeg") {
                "image/jpeg"
            } else if is(m, "image/png") {
                "image/png"
            } else if is(m, "image/gif") {
                "image/gif"
            } else if is(m, "image/webp") {
                "image/webp"
            } else if is(m, "image/bmp") {
                "image/bmp"
            } else if is(m, "image/heic") {
                "image/heic"
            } else if is(m, "image/heif") {
                "image/heif"
            } else if is(m, "image/avif") {
                "image/avif"
            } else if is(m, "video/mp4") {
                "video/mp4"
            } else if is(m, "video/webm") {
                "video/webm"
            } else if is(m, "video/x-matroska") {
                "video/x-matroska"
            } else if is(m, "video/3gpp") {
                "video/3gpp"
            } else if is(m, "video/quicktime") {
                "video/quicktime"
            } else if is(m, "video/avi") {
                "video/avi"
            } else if begins(m, "image/") {
                "image/*"
            } else if begins(m, "video/") {
                "video/*"
            } else {
                "application/octet-stream"
            }
        },
        None => match kind {
            UriKind::Images { id: Some(_) } => "vnd.android.cursor.item/image",
            UriKind::Images { id: None } => "vnd.android.cursor.dir/image",
            UriKind::Videos { id: Some(_) } => "vnd.android.cursor.item/video",
            UriKind::Videos { id: None } => "vnd.android.cursor.dir/video",
            UriKind::Files { .. } => "vnd.android.cursor.dir/media",
            UriKind::Thumbnails => "vnd.android.cursor.dir/image",
            _ => "audio/ogg",
        },
    }
}

// ---------------------------------------------------------------------------
// Visual queries
// ---------------------------------------------------------------------------

/// Row `a` is listed before row `b`: newer `date_taken` first, then higher
/// id, then catalogue order.
pub open spec fn listed_before(items: Seq<VisualItem>, a: int, b: int) -> bool {
    ||| items[a].date_taken > items[b].date_taken
    ||| (items[a].date_taken == items[b].date_taken && items[a].id > items[b].id)
    ||| (items[a].date_taken == items[b].date_taken && items[a].id == items[b].id && a < b)
}

/// `order` lists exactly the rows that pass the filter, in listing order.
pub open spec fn is_listing(items: Seq<VisualItem>, f: QueryFilter, t: Option<i32>, order: Seq<usize>) -> bool {
    &&& forall|i: int| 0 <= i < order.len() ==> (#[trigger] order[i]) < items.len()
        && matches_visual_spec(items[order[i] as int], f, t)
    &&& forall|k: usize| k < items.len() && matches_visual_spec(items[k as int], f, t)
        ==> #[trigger] order.contains(k)
    &&& sorted_listing(items, order)
}

pub open spec fn sorted_listing(items: Seq<VisualItem>, order: Seq<usize>) -> bool {
    forall|i: int, j: int| 0 <= i < j < order.len()
        ==> listed_before(items, #[trigger] order[i] as int, #[trigger] order[j] as int)
}

/// The rows a query returns from the full listing: `offset` rows skipped,
/// at most `limit` kept.
pub open spec fn window(order: Seq<usize>, offset: usize, limit: Option<usize>) -> Seq<usize> {
    let rest = if offset >= order.len() { seq![] } else { order.skip(offset as int) };
    match limit {
        Some(l) => if rest.len() > l { rest.take(l as int) } else { rest },
        None => rest,
    }
}

proof fn lemma_sorted_equal(items: Seq<VisualItem>, a: Seq<usize>, b: Seq<usize>)
    requires
        sorted_listing(items, a),
        sorted_listing(items, b),
        forall|x: usize| a.contains(x) <==> b.contains(x),
    ensures
        a == b,
    decreases a.len(),
{
    if a.len() == 0 {
        if b.len() > 0 {
            assert(b.contains(b[0]));
        }
        assert(a =~= b);
    } else if b.len() == 0 {
        assert(a.contains(a[0]));
    } else {
        if a[0] != b[0] {
            assert(b.contains(b[0]));
            assert(a.contains(b[0]));
            let j = choose|j: int| 0 <= j < a.len() && a[j] == b[0];
            assert(listed_before(items, a[0] as int, a[j] as int));
            assert(a.contains(a[0]));
            assert(b.contains(a[0]));
            let i = choose|i: int| 0 <= i < b.len() && b[i] == a[0];
            assert(listed_before(items, b[0] as int, b[i] as int));
        }
        let a1 = a.drop_first();
        let b1 = b.drop_first();
        assert forall|i: int, j: int| 0 <= i < j < a1.len() implies listed_before(items, #[trigger] a1[i] as int, #[trigger] a1[j] as int) by {
            assert(a1[i] == a[i + 1] && a1[j] == a[j + 1]);
        }
        assert forall|i: int, j: int| 0 <= i < j < b1.len() implies listed_before(items, #[trigger] b1[i] as int, #[trigger] b1[j] as int) by {
            assert(b1[i] == b[i + 1] && b1[j] == b[j + 1]);
        }
        assert forall|x: usize| a1.contains(x) implies b1.contains(x) by {
            let i = choose|i: int| 0 <= i < a1.len() && a1[i] == x;
            assert(a[i + 1] == x);
            assert(listed_before(items, a[0] as int, a[i + 1] as int));
            assert(a.contains(x));
            assert(b.contains(x));
            let k = choose|k: int| 0 <= k < b.len() && b[k] == x;
            assert(k != 0);
            assert(b1[k - 1] == x);
        }
        assert forall|x: usize| b1.contains(x) implies a1.contains(x) by {
            let i = choose|i: int| 0 <= i < b1.len() && b1[i] == x;
            assert(b[i + 1] == x);
            assert(listed_before(items, b[0] as int, b[i + 1] as int));
            assert(b.contains(x));
            assert(a.contains(x));
            let k = choose|k: int| 0 <= k < a.len() && a[k] == x;
            assert(k != 0);
            assert(a1[k - 1] == x);
        }
        lemma_sorted_equal(items, a1, b1);
        assert(a.len() == b.len());
        assert(a =~= b) by {
            assert forall|i: int| 0 <= i < a.len() implies a[i] == b[i] by {
                if i > 0 {
                    assert(a[i] == a1[i - 1]);
                    assert(b[i] == b1[i - 1]);
                }
            }
        }
    }
}

/// A filter has only one listing of given rows.
pub proof fn lemma_listing_unique(
    items: Seq<VisualItem>,
    f: QueryFilter,
    t: Option<i32>,
    a: Seq<usize>,
    b: Seq<usize>,
)
    requires
        is_listing(items, f, t, a),
        is_listing(items, f, t, b),
    ensures
        a == b,
{
    assert forall|x: usize| a.contains(x) implies b.contains(x) by {
        let i = choose|i: int| 0 <= i < a.len() && a[i] == x;
        assert(x < items.len() && matches_visual_spec(items[x as int], f, t));
    }
    assert forall|x: usize| b.contains(x) implies a.contains(x) by {
        let i = choose|i: int| 0 <= i < b.len() && b[i] == x;
        assert(x < items.len() && matches_visual_spec(items[x as int], f, t));
    }
    lemma_sorted_equal(items, a, b);
}

fn comes_before(items: &[VisualItem], a: usize, b: usize) -> (r: bool)
    requires
        a < items@.len(),
        b < items@.len(),
    ensures
        r == listed_before(items@, a as int, b as int),
{
    let x = &items[a];
    let y = &items[b];
    x.date_taken > y.date_taken || (x.date_taken == y.date_taken && x.id > y.id) || (x.date_taken
        == y.date_taken && x.id == y.id && a < b)
}

proof fn lemma_insert_sorted(items: Seq<VisualItem>, s: Seq<usize>, p: int, k: usize)
    requires
        sorted_listing(items, s),
        0 <= p <= s.len(),
        forall|i: int| 0 <= i < s.len() ==> (#[trigger] s[i]) < k,
        forall|i: int| 0 <= i < p ==> !listed_before(items, k as int, #[trigger] s[i] as int),
        p < s.len() ==> listed_before(items, k as int, s[p] as int),
    ensures
        sorted_listing(items, s.insert(p, k)),
{
    let t = s.insert(p, k);
    assert forall|i: int, j: int| 0 <= i < j < t.len() implies listed_before(items, #[trigger] t[i] as int, #[trigger] t[j] as int) by {
        if j < p {
            assert(t[i] == s[i] && t[j] == s[j]);
        } else if j == p {
            assert(t[i] == s[i]);
            assert(!listed_before(items, k as int, s[i] as int));
            assert(s[i] < k);
        } else if i < p {
            assert(t[i] == s[i] && t[j] == s[j - 1]);
        } else if i == p {
            assert(t[j] == s[j - 1]);
            if j - 1 > p {
                assert(listed_before(items, s[p] as int, s[j - 1] as int));
            }
        } else {
            assert(t[i] == s[i - 1] && t[j] == s[j - 1]);
        }
    }
}

/// Every row that passes the filter, newest first (see `listed_before`).
pub fn visual_listing(items: &[VisualItem], f: &QueryFilter, type_restrict: Option<i32>) -> (r: Vec<usize>)
    ensures
        is_listing(items@, *f, type_restrict, r@),
{
    let mut out: Vec<usize> = Vec::new();
    let mut k: usize = 0;
    while k < items.len()
        invariant
            k <= items@.len(),
            forall|i: int| 0 <= i < out@.len() ==> (#[trigger] out@[i]) < k && matches_visual_spec(
                items@[out@[i] as int],
                *f,
                type_restrict,
            ),
            forall|m: usize| m < k && matches_visual_spec(items@[m as int], *f, type_restrict)
                ==> #[trigger] out@.contains(m),
            sorted_listing(items@, out@),
        decreases items.len() - k,
    {
        if matches_visual(&items[k], f, type_restrict) {
            let mut p: usize = 0;
            while p < out.len() && !comes_before(items, k, out[p])
                invariant
                    k < items@.len(),
                    p <= out@.len(),
                    forall|i: int| 0 <= i < out@.len() ==> (#[trigger] out@[i]) < k,
                    forall|i: int| 0 <= i < p ==> !listed_before(items@, k as int, #[trigger] out@[i] as int),
                decreases out.len() - p,
            {
                p = p + 1;
            }
            let ghost before = out@;
            proof {
                lemma_insert_sorted(items@, before, p as int, k);
            }
            out.insert(p, k);
            proof {
                assert(out@ == before.insert(p as int, k));
                assert forall|i: int| 0 <= i < out@.len() implies (#[trigger] out@[i]) < k + 1 && matches_visual_spec(
                    items@[out@[i] as int],
                    *f,
                    type_restrict,
                ) by {
                    if i < p {
                        assert(out@[i] == before[i]);
                    } else if i > p {
                        assert(out@[i] == before[i - 1]);
                    }
                }
                assert forall|m: usize| m < k + 1 && matches_visual_spec(items@[m as int], *f, type_restrict)
                    implies #[trigger] out@.contains(m) by {
                    if m == k {
                        assert(out@[p as int] == k);
                    } else {
                        assert(before.contains(m));
                        let i = choose|i: int| 0 <= i < before.len() && before[i] == m;
                        if i < p {
                            assert(out@[i] == m);
                        } else {
                            assert(out@[i + 1] == m);
                        }
                    }
                }
            }
        }
        k = k + 1;
    }
    out
}

/// The part of a listing that a query's window keeps.
pub fn window_of(order: &Vec<usize>, offset: usize, limit: Option<usize>) -> (r: Vec<usize>)
    ensures
        r@ == window(order@, offset, limit),
{
    let start = if offset >= order.len() { order.len() } else { offset };
    let mut end = order.len();
    match limit {
        Some(l) => {
            if end - start > l {
                end = start + l;
            }
        },
        None => {},
    }
    let mut out: Vec<usize> = Vec::new();
    let mut i = start;
    while i < end
        invariant
            start <= i <= end <= order@.len(),
            out@ == order@.subrange(start as int, i as int),
        decreases end - i,
    {
        out.push(order[i]);
        proof {
            assert(order@.subrange(start as int, i + 1) == order@.subrange(start as int, i as int).push(order@[i as int]));
        }
        i = i + 1;
    }
    proof {
        let rest = if offset >= order@.len() { Seq::<usize>::empty() } else { order@.skip(offset as int) };
        assert(rest =~= order@.subrange(start as int, order@.len() as int));
        match limit {
            Some(l) => {
                if rest.len() > l {
                    assert(rest.take(l as int) =~= order@.subrange(start as int, end as int));
                } else {
                    assert(rest =~= order@.subrange(start as int, end as int));
                }
            },
            None => {
                assert(rest =~= order@.subrange(start as int, end as int));
            },
        }
    }
    out
}

/// What a query on the pictures and videos answers: one count row, or the
/// rows (as catalogue indices) in the order they are sent.
pub enum VisualAnswer {
    Count(usize),
    Rows(Vec<usize>),
}

/// The answer to a visual query with projection `cols`: a projection of
/// counts only gets the number of matching rows; otherwise the matching
/// rows, newest first, within the filter's window.
pub fn plan_visual_query(items: &[VisualItem], f: &QueryFilter, type_restrict: Option<i32>, cols: &[String]) -> (r: VisualAnswer)
    ensures
        forall|order: Seq<usize>| #[trigger] is_listing(items@, *f, type_restrict, order) ==> match r {
            VisualAnswer::Count(n) => is_count_only_spec(string_views(cols@)) && n == order.len(),
            VisualAnswer::Rows(rows) => !is_count_only_spec(string_views(cols@)) && rows@ == window(
                order,
                f.offset,
                f.limit,
            ),
        },
{
    let order = visual_listing(items, f, type_restrict);
    if is_count_only(cols) {
        proof {
            assert forall|o: Seq<usize>| #[trigger] is_listing(items@, *f, type_restrict, o) implies o == order@ by {
                lemma_listing_unique(items@, *f, type_restrict, o, order@);
            }
        }
        VisualAnswer::Count(order.len())
    } else {
        let rows = window_of(&order, f.offset, f.limit);
        proof {
            assert forall|o: Seq<usize>| #[trigger] is_listing(items@, *f, type_restrict, o) implies o == order@ by {
                lemma_listing_unique(items@, *f, type_restrict, o, order@);
            }
        }
        VisualAnswer::Rows(rows)
    }
}

/// The cell a picture or video gives for a projection column.
pub open spec fn visual_cell_spec(item: VisualItem, col: Seq<char>) -> CellView {
    let l = without_spaces(ascii_lower(col));
    if starts_with(l, "max("@) && contains(l, "datetaken"@) {
        CellView::Integer(item.date_taken)
    } else if starts_with(l, "count("@) {
        CellView::Integer(1)
    } else if col == "_id"@ {
        CellView::Integer(item.id)
    } else if col == "title"@ || col == "title_key"@ {
        CellView::Text(item.title@)
    } else if col == "_display_name"@ {
        CellView::Text(item.display_name@)
    } else if col == "_data"@ {
        CellView::Text(item.container_path@)
    } else if col == "mime_type"@ {
        CellView::Text(item.mime_type@)
    } else if col == "media_type"@ {
        CellView::Integer(item.media_type as i64)
    } else if col == "bucket_id"@ {
        CellView::Integer(item.bucket_id as i64)
    } else if col == "bucket_display_name"@ {
        CellView::Text(item.bucket_display_name@)
    } else if col == "datetaken"@ || col == "date_taken"@ {
        CellView::Integer(item.date_taken)
    } else if col == "date_added"@ {
        CellView::Integer(item.date_added)
    } else if col == "date_modified"@ {
        CellView::Integer(item.date_modified)
    } else if col == "_size"@ {
        CellView::Integer(item.size)
    } else if col == "width"@ {
        CellView::Integer(item.width as i64)
    } else if col == "height"@ {
        CellView::Integer(item.height as i64)
    } else if col == "orientation"@ {
        CellView::Integer(item.orientation as i64)
    } else if col == "duration"@ {
        CellView::Integer(item.duration_ms)
    } else if col == "resolution"@ {
        if item.width > 0 && item.height > 0 {
            CellView::Text(decimal(item.width as nat) + seq!['x'] + decimal(item.height as nat))
        } else {
            CellView::Null
        }
    } else if col == "relative_path"@ {
        CellView::Text(item.relative_path@)
    } else if col == "volume_name"@ {
        CellView::Text("external_primary"@)
    } else if col == "is_pending"@ || col == "is_trashed"@ || col == "is_favorite"@ || col == "is_drm"@
        || col == "is_notification"@ || col == "is_ringtone"@ || col == "is_alarm"@
        || col == "mini_thumb_magic"@ || col == "deleted"@ {
        CellView::Integer(0)
    } else {
        CellView::Null
    }
}

pub fn visual_cell(item: &VisualItem, col: &str) -> (r: Cell)
    ensures
        cell_view(r) == visual_cell_spec(*item, col@),
{
    let c = chars_of(col);
    let lc = to_lower(c.as_slice());
    let l = remove_spaces(lc.as_slice());
    let l = l.as_slice();
    let c = c.as_slice();
    if begins(l, "max(") && has(l, "datetaken") {
        Cell::Integer(item.date_taken)
    } else if begins(l, "count(") {
        Cell::Integer(1)
    } else if is(c, "_id") {
        Cell::Integer(item.id)
    } else if is(c, "title") || is(c, "title_key") {
        text_of(&item.title)
    } else if is(c, "_display_name") {
        text_of(&item.display_name)
    } else if is(c, "_data") {
        text_of(&item.container_path)
    } else if is(c, "mime_type") {
        text_of(&item.mime_type)
    } else if is(c, "media_type") {
        Cell::Integer(item.media_type as i64)
    } else if is(c, "bucket_id") {
        Cell::Integer(item.bucket_id as i64)
    } else if is(c, "bucket_display_name") {
        text_of(&item.bucket_display_name)
    } else if is(c, "datetaken") || is(c, "date_taken") {
        Cell::Integer(item.date_taken)
    } else if is(c, "date_added") {
        Cell::Integer(item.date_added)
    } else if is(c, "date_modified") {
        Cell::Integer(item.date_modified)
    } else if is(c, "_size") {
        Cell::Integer(item.size)
    } else if is(c, "width") {
        Cell::Integer(item.width as i64)
    } else if is(c, "height") {
        Cell::Integer(item.height as i64)
    } else if is(c, "orientation") {
        Cell::Integer(item.orientation as i64)
    } else if is(c, "duration") {
        Cell::Integer(item.duration_ms)
    } else if is(c, "resolution") {
        if item.width > 0 && item.height > 0 {
            let mut t = decimal_chars(item.width as u64);
            t.push('x');
            let h = decimal_chars(item.height as u64);
            let mut i: usize = 0;
            let ghost base = t@;
            while i < h.len()
                invariant
                    i <= h@.len(),
                    t@ == base + h@.take(i as int),
                decreases h.len() - i,
            {
                t.push(h[i]);
                proof {
                    assert(h@.take(i + 1) == h@.take(i as int).push(h@[i as int]));
                }
                i = i + 1;
            }
            proof {
                assert(h@.take(h@.len() as int) == h@);
                assert((item.width as u64) as nat == item.width as nat);
                assert((item.height as u64) as nat == item.height as nat);
                assert(t@ =~= decimal(item.width as nat) + seq!['x'] + decimal(item.height as nat));
            }
            Cell::Text(string_of(t.as_slice()))
        } else {
            Cell::Null
        }
    } else if is(c, "relative_path") {
        text_of(&item.relative_path)
    } else if is(c, "volume_name") {
        text("external_primary")
    } else if is(c, "is_pending") || is(c, "is_trashed") || is(c, "is_favorite") || is(c, "is_drm")
        || is(c, "is_notification") || is(c, "is_ringtone") || is(c, "is_alarm") || is(c, "mini_thumb_magic")
        || is(c, "deleted") {
        Cell::Integer(0)
    } else {
        Cell::Null
    }
}

// ---------------------------------------------------------------------------
// Audio queries
// ---------------------------------------------------------------------------

/// Which sounds an audio query lists.
#[derive(Debug, Clone, Copy, PartialEq, Eq, Structural)]
pub enum AudioPick {
    /// The sound with this id.
    ById(i64),
    /// The user's own sounds (under `/sdcard/`).
    External,
    Ringtones,
    Notifications,
    /// Alarms: the default, which covers `is_alarm` and alarm-stream queries.
    Alarms,
}

/// The sounds a query asks for: a URI's own id first, then the external
/// volume, then a ringtone or notification selection found anywhere in the
/// query's text, else alarms.
pub open spec fn audio_pick_spec(specific_id: Option<i64>, is_external: bool, haystack: Seq<char>) -> AudioPick {
    match specific_id {
        Some(id) => AudioPick::ById(id),
        None => if is_external {
            AudioPick::External
        } else if contains(haystack, "is_ringtone"@) {
            AudioPick::Ringtones
        } else if contains(haystack, "is_notification"@) {
            AudioPick::Notifications
        } else {
            AudioPick::Alarms
        },
    }
}

pub fn audio_pick(specific_id: Option<i64>, is_external: bool, haystack: &str) -> (r: AudioPick)
    ensures
        r == audio_pick_spec(specific_id, is_external, haystack@),
{
    match specific_id {
        Some(id) => AudioPick::ById(id),
        None => {
            let h = chars_of(haystack);
            if is_external {
                AudioPick::External
            } else if has(h.as_slice(), "is_ringtone") {
                AudioPick::Ringtones
            } else if has(h.as_slice(), "is_notification") {
                AudioPick::Notifications
            } else {
                AudioPick::Alarms
            }
        },
    }
}

pub open spec fn audio_picked(item: AudioItem, pick: AudioPick) -> bool {
    match pick {
        AudioPick::ById(id) => item.id == id,
        AudioPick::External => starts_with(item.container_path@, "/sdcard/"@),
        AudioPick::Ringtones => item.is_ringtone,
        AudioPick::Notifications => item.is_notification,
        AudioPick::Alarms => item.is_alarm,
    }
}

/// `r` lists, in catalogue order, exactly the indices whose items satisfy
/// `picked`.
pub open spec fn is_selection(n: int, r: Seq<usize>, picked: spec_fn(int) -> bool) -> bool {
    &&& forall|i: int| 0 <= i < r.len() ==> (#[trigger] r[i]) < n && picked(r[i] as int)
    &&& forall|k: usize| k < n && picked(k as int) ==> #[trigger] r.contains(k)
    &&& forall|i: int, j: int| 0 <= i < j < r.len() ==> (#[trigger] r[i]) < (#[trigger] r[j])
}

fn audio_matches(item: &AudioItem, pick: AudioPick) -> (r: bool)
    ensures
        r == audio_picked(*item, pick),
{
    match pick {
        AudioPick::ById(id) => item.id == id,
        AudioPick::External => {
            let c = chars_of(item.container_path.as_str());
            begins(c.as_slice(), "/sdcard/")
        },
        AudioPick::Ringtones => item.is_ringtone,
        AudioPick::Notifications => item.is_notification,
        AudioPick::Alarms => item.is_alarm,
    }
}

/// The sounds an audio query lists, in catalogue order.
pub fn select_audio(items: &[AudioItem], pick: AudioPick) -> (r: Vec<usize>)
    ensures
        is_selection(items@.len() as int, r@, |k: int| audio_picked(items@[k], pick)),
{
    let mut out: Vec<usize> = Vec::new();
    let mut k: usize = 0;
    while k < items.len()
        invariant
            k <= items@.len(),
            forall|i: int| 0 <= i < out@.len() ==> (#[trigger] out@[i]) < k && audio_picked(items@[out@[i] as int], pick),
            forall|m: usize| m < k && audio_picked(items@[m as int], pick) ==> #[trigger] out@.contains(m),
            forall|i: int, j: int| 0 <= i < j < out@.len() ==> (#[trigger] out@[i]) < (#[trigger] out@[j]),
        decreases items.len() - k,
    {
        if audio_matches(&items[k], pick) {
            let ghost before = out@;
            out.push(k);
            proof {
                assert forall|m: usize| m < k + 1 && audio_picked(items@[m as int], pick) implies #[trigger] out@.contains(m) by {
                    if m == k {
                        assert(out@[before.len() as int] == k);
                    } else {
                        assert(before.contains(m));
                        let i = choose|i: int| 0 <= i < before.len() && before[i] == m;
                        assert(out@[i] == m);
                    }
                }
            }
        }
        k = k + 1;
    }
    out
}

/// The cell a sound gives for a projection column.
pub open spec fn audio_cell_spec(item: AudioItem, col: Seq<char>) -> CellView {
    if col == "_id"@ {
        CellView::Integer(item.id)
    } else if col == "title"@ || col == "title_key"@ {
        CellView::Text(item.title@)
    } else if col == "_display_name"@ {
        CellView::Text(item.display_name@)
    } else if col == "_data"@ {
        CellView::Text(item.container_path@)
    } else if col == "is_alarm"@ {
        CellView::Integer(if item.is_alarm { 1 } else { 0 })
    } else if col == "is_ringtone"@ {
        CellView::Integer(if item.is_ringtone { 1 } else { 0 })
    } else if col == "is_notification"@ {
        CellView::Integer(if item.is_notification { 1 } else { 0 })
    } else if col == "media_type"@ {
        CellView::Integer(MEDIA_TYPE_AUDIO as i64)
    } else if col == "mime_type"@ {
        CellView::Text("audio/ogg"@)
    } else {
        CellView::Null
    }
}

pub fn audio_cell(item: &AudioItem, col: &str) -> (r: Cell)
    ensures
        cell_view(r) == audio_cell_spec(*item, col@),
{
    let c = chars_of(col);
    let c = c.as_slice();
    if is(c, "_id") {
        Cell::Integer(item.id)
    } else if is(c, "title") || is(c, "title_key") {
        text_of(&item.title)
    } else if is(c, "_display_name") {
        text_of(&item.display_name)
    } else if is(c, "_data") {
        text_of(&item.container_path)
    } else if is(c, "is_alarm") {
        crate::cursor::flag(item.is_alarm)
    } else if is(c, "is_ringtone") {
        crate::cursor::flag(item.is_ringtone)
    } else if is(c, "is_notification") {
        crate::cursor::flag(item.is_notification)
    } else if is(c, "media_type") {
        Cell::Integer(MEDIA_TYPE_AUDIO as i64)
    } else if is(c, "mime_type") {
        text("audio/ogg")
    } else {
        Cell::Null
    }
}

/// The columns an audio query answers when the client names none.
pub open spec fn default_audio_cols_spec() -> Seq<Seq<char>> {
    seq!["_id"@, "title"@, "title"@, "title_key"@]
}

pub fn default_audio_cols() -> (r: Vec<String>)
    ensures
        string_views(r@) == default_audio_cols_spec(),
{
    let r = vec![owned("_id"), owned("title"), owned("title"), owned("title_key")];
    proof {
        assert(string_views(r@) =~= default_audio_cols_spec());
    }
    r
}

// ---------------------------------------------------------------------------
// Host paths
// ---------------------------------------------------------------------------

/// What `Path::file_name` returns for a path given as text.
pub uninterp spec fn path_file_name(path: Seq<char>) -> Option<Seq<char>>;

/// A file name split at its last `.` as `Path` splits it: no split for
/// `..`, for a name without a `.`, or for one whose only `.` leads it.
pub open spec fn name_split(name: Seq<char>) -> Option<(Seq<char>, Seq<char>)> {
    if name == ".."@ {
        None
    } else {
        match rsplit_once(name, '.') {
            Some((before, after)) => if before.len() > 0 { Some((before, after)) } else { None },
            None => None,
        }
    }
}

/// What `Path::file_stem` returns for a path given as text: no stem
/// without a file name; else the part of the name before its last `.`, or
/// the whole name when it does not split there.
pub open spec fn path_file_stem(path: Seq<char>) -> Option<Seq<char>> {
    match path_file_name(path) {
        Some(name) => match name_split(name) {
            Some((before, _)) => Some(before),
            None => Some(name),
        },
        None => None,
    }
}

/// What `Path::extension` returns for a path given as text: the part of
/// the file name after its last `.`, when the name splits there.
pub open spec fn path_extension(path: Seq<char>) -> Option<Seq<char>> {
    match path_file_name(path) {
        Some(name) => match name_split(name) {
            Some((_, after)) => Some(after),
            None => None,
        },
        None => None,
    }
}

pub open spec fn opt_chars(o: Option<String>) -> Option<Seq<char>> {
    match o {
        Some(s) => Some(s@),
        None => None,
    }
}

/// `Path::file_name` (std), on a path given as text. Claimed: the result
/// depends on the path alone. (A component of a `&str` path is valid UTF-8,
/// so the conversion back to text loses nothing.)
#[verifier::external_body]
fn file_name_of(path: &str) -> (r: Option<String>)
    ensures
        opt_chars(r) == path_file_name(path@),
{
    std::path::Path::new(path).file_name().and_then(|s| s.to_str()).map(|s| s.to_owned())
}

/// `Path::file_stem` (std), on a path given as text. Claimed: the result
/// is the stem of the file name as std documents it (see
/// `path_file_stem`).
#[verifier::external_body]
fn file_stem_of(path: &str) -> (r: Option<String>)
    ensures
        opt_chars(r) == path_file_stem(path@),
{
    std::path::Path::new(path).file_stem().and_then(|s| s.to_str()).map(|s| s.to_owned())
}

/// `Path::extension` (std), on a path given as text. Claimed: the result
/// is the extension of the file name as std documents it (see
/// `path_extension`).
#[verifier::external_body]
fn extension_of(path: &str) -> (r: Option<String>)
    ensures
        opt_chars(r) == path_extension(path@),
{
    std::path::Path::new(path).extension().and_then(|s| s.to_str()).map(|s| s.to_owned())
}

/// `s` with every `_` replaced by a space.
pub open spec fn underscores_to_spaces(s: Seq<char>) -> Seq<char> {
    Seq::new(s.len(), |i: int| if s[i] == '_' { ' ' } else { s[i] })
}

fn spaced(s: &str) -> (r: String)
    ensures
        r@ == underscores_to_spaces(s@),
{
    let cs = chars_of(s);
    let mut out: Vec<char> = Vec::new();
    let mut i: usize = 0;
    while i < cs.len()
        invariant
            i <= cs@.len(),
            out@.len() == i,
            forall|j: int| 0 <= j < i ==> out@[j] == (if cs@[j] == '_' { ' ' } else { cs@[j] }),
        decreases cs.len() - i,
    {
        out.push(if cs[i] == '_' { ' ' } else { cs[i] });
        i = i + 1;
    }
    proof {
        assert(out@ =~= underscores_to_spaces(s@));
    }
    string_of(out.as_slice())
}

// ---------------------------------------------------------------------------
// The catalogue
// ---------------------------------------------------------------------------

/// A sound as a value.
pub struct AudioView {
    pub id: i64,
    pub title: Seq<char>,
    pub display_name: Seq<char>,
    pub path: Seq<char>,
    pub container_path: Seq<char>,
    pub is_alarm: bool,
    pub is_ringtone: bool,
    pub is_notification: bool,
}

pub open spec fn audio_view(a: AudioItem) -> AudioView {
    AudioView {
        id: a.id,
        title: a.title@,
        display_name: a.display_name@,
        path: a.path@,
        container_path: a.container_path@,
        is_alarm: a.is_alarm,
        is_ringtone: a.is_ringtone,
        is_notification: a.is_notification,
    }
}

pub open spec fn audio_views(items: Seq<AudioItem>) -> Seq<AudioView> {
    items.map_values(|a: AudioItem| audio_view(a))
}

fn copy_audio(a: &AudioItem) -> (r: AudioItem)
    ensures
        audio_view(r) == audio_view(*a),
{
    AudioItem {
        id: a.id,
        title: a.title.clone(),
        display_name: a.display_name.clone(),
        path: a.path.clone(),
        container_path: a.container_path.clone(),
        is_alarm: a.is_alarm,
        is_ringtone: a.is_ringtone,
        is_notification: a.is_notification,
    }
}

/// A sound from the system image or the user's alarm folder: its title is
/// the file stem with `_` read as spaces, and the app sees it at
/// `container_dir` followed by its file name.
pub open spec fn sound_spec(path: Seq<char>, id: i64, container_dir: Seq<char>, alarm: bool, ringtone: bool, notification: bool) -> AudioView {
    let stem = match path_file_stem(path) {
        Some(s) => s,
        None => seq![],
    };
    let name = match path_file_name(path) {
        Some(s) => s,
        None => seq![],
    };
    AudioView {
        id,
        title: underscores_to_spaces(stem),
        display_name: name,
        path,
        container_path: container_dir + name,
        is_alarm: alarm,
        is_ringtone: ringtone,
        is_notification: notification,
    }
}

pub fn sound_item(path: &str, id: i64, container_dir: &str, alarm: bool, ringtone: bool, notification: bool) -> (r: AudioItem)
    ensures
        audio_view(r) == sound_spec(path@, id, container_dir@, alarm, ringtone, notification),
{
    let stem = match file_stem_of(path) {
        Some(s) => s,
        None => String::new(),
    };
    let name = match file_name_of(path) {
        Some(s) => s,
        None => String::new(),
    };
    let title = spaced(stem.as_str());
    let container_path = concat(container_dir, name.as_str());
    AudioItem {
        id,
        title,
        display_name: name,
        path: path.to_owned(),
        container_path,
        is_alarm: alarm,
        is_ringtone: ringtone,
        is_notification: notification,
    }
}

/// The id the next new item gets after sounds saved by an earlier run are
/// added: one past the largest id in use.
pub open spec fn next_id_after(next_id: int, saved: Seq<AudioView>) -> int
    decreases saved.len(),
{
    if saved.len() == 0 {
        next_id
    } else {
        let n = next_id_after(next_id, saved.drop_last());
        if saved.last().id >= n { saved.last().id + 1 } else { n }
    }
}

/// Everything that the media store serves.
pub struct MediaService {
    pub items: Vec<AudioItem>,
    pub visual: Vec<VisualItem>,
    pub next_id: i64,
}

/// The first sound with id `id`.
pub open spec fn first_audio_at(items: Seq<AudioItem>, id: i64, i: int) -> bool {
    0 <= i < items.len() && items[i].id == id && forall|j: int| 0 <= j < i ==> items[j].id != id
}

/// The first picture or video with id `id`.
pub open spec fn first_visual_at(items: Seq<VisualItem>, id: i64, i: int) -> bool {
    0 <= i < items.len() && items[i].id == id && forall|j: int| 0 <= j < i ==> items[j].id != id
}

/// The normal components of a path's `/`-separated parts: empty parts
/// (repeated or trailing separators) and `.` are left out.
pub open spec fn normal_parts(parts: Seq<Seq<char>>) -> Seq<Seq<char>>
    decreases parts.len(),
{
    if parts.len() == 0 {
        parts
    } else if parts.last().len() == 0 || parts.last() == "."@ {
        normal_parts(parts.drop_last())
    } else {
        normal_parts(parts.drop_last()).push(parts.last())
    }
}

/// The components of a Unix path as `Path::components` yields them:
/// whether it starts at the root, whether it starts with a `.` of its own
/// (kept only at the start of a relative path), and its normal components.
pub open spec fn path_components(p: Seq<char>) -> (bool, bool, Seq<Seq<char>>) {
    let root = starts_with(p, "/"@);
    let cur = !root && (p == "."@ || starts_with(p, "./"@));
    (root, cur, normal_parts(crate::select::split_all(p, '/')))
}

/// Two paths are equal as `Path`s: they have the same components.
pub open spec fn same_path(a: Seq<char>, b: Seq<char>) -> bool {
    path_components(a) == path_components(b)
}

/// `Path == Path` (std), on paths given as text. Claimed: the paths are
/// equal exactly when their components are (std compares
/// `Path::components`: repeated separators, a trailing separator and
/// inner `.` components make no difference).
#[verifier::external_body]
fn paths_equal(a: &str, b: &str) -> (r: bool)
    ensures
        r == same_path(a@, b@),
{
    std::path::Path::new(a) == std::path::Path::new(b)
}

/// The first sound whose host path is `path`, as paths compare.
pub open spec fn first_path_at(items: Seq<AudioItem>, path: Seq<char>, i: int) -> bool {
    0 <= i < items.len() && same_path(items[i].path@, path) && forall|j: int| 0 <= j < i ==> !same_path(items[j].path@, path)
}

/// The file a URI opens and its MIME type: pictures, videos and files are
/// looked up among the visual items; sounds (and unknown tables) among the
/// sounds first, then the visual items.
pub open spec fn open_spec(audio: Seq<AudioItem>, visual: Seq<VisualItem>, kind: UriKind, id: i64) -> Option<(Seq<char>, Seq<char>)> {
    let in_visual = if exists|i: int| first_visual_at(visual, id, i) {
        let i = choose|i: int| first_visual_at(visual, id, i);
        Some((visual[i].path@, visual[i].mime_type@))
    } else {
        None
    };
    match kind {
        UriKind::Images { .. } | UriKind::Videos { .. } | UriKind::Files { .. } => in_visual,
        UriKind::Audio { .. } | UriKind::Unknown { .. } => if exists|i: int| first_audio_at(audio, id, i) {
            let i = choose|i: int| first_audio_at(audio, id, i);
            Some((audio[i].path@, "audio/ogg"@))
        } else {
            in_visual
        },
        UriKind::Thumbnails => None,
    }
}

pub open spec fn opt_pair(o: Option<(String, String)>) -> Option<(Seq<char>, Seq<char>)> {
    match o {
        Some((a, b)) => Some((a@, b@)),
        None => None,
    }
}

fn find_visual(items: &[VisualItem], id: i64) -> (r: Option<usize>)
    ensures
        match r {
            Some(i) => first_visual_at(items@, id, i as int),
            None => forall|j: int| 0 <= j < items@.len() ==> items@[j].id != id,
        },
{
    let mut i: usize = 0;
    while i < items.len()
        invariant
            i <= items@.len(),
            forall|j: int| 0 <= j < i ==> items@[j].id != id,
        decreases items.len() - i,
    {
        if items[i].id == id {
            return Some(i);
        }
        i = i + 1;
    }
    None
}

fn find_audio(items: &[AudioItem], id: i64) -> (r: Option<usize>)
    ensures
        match r {
            Some(i) => first_audio_at(items@, id, i as int),
            None => forall|j: int| 0 <= j < items@.len() ==> items@[j].id != id,
        },
{
    let mut i: usize = 0;
    while i < items.len()
        invariant
            i <= items@.len(),
            forall|j: int| 0 <= j < i ==> items@[j].id != id,
        decreases items.len() - i,
    {
        if items[i].id == id {
            return Some(i);
        }
        i = i + 1;
    }
    None
}

fn find_path(items: &[AudioItem], path: &str) -> (r: Option<usize>)
    ensures
        match r {
            Some(i) => first_path_at(items@, path@, i as int),
            None => forall|j: int| 0 <= j < items@.len() ==> !same_path(items@[j].path@, path@),
        },
{
    let mut i: usize = 0;
    while i < items.len()
        invariant
            i <= items@.len(),
            forall|j: int| 0 <= j < i ==> !same_path(items@[j].path@, path@),
        decreases items.len() - i,
    {
        if paths_equal(items[i].path.as_str(), path) {
            return Some(i);
        }
        i = i + 1;
    }
    None
}

/// The first sound (as a value) whose host path is `path`, as paths
/// compare.
pub open spec fn first_view_path_at(items: Seq<AudioView>, path: Seq<char>, i: int) -> bool {
    0 <= i < items.len() && same_path(items[i].path, path) && forall|j: int| 0 <= j < i ==> !same_path(items[j].path, path)
}

/// The catalogue's sounds and next id after a user's file is added, and
/// the sound handed back: a file already present is handed back unchanged;
/// otherwise a new sound gets the next id (which then moves on by one,
/// wrapping) and goes at the end.
pub open spec fn custom_added(items: Seq<AudioView>, next_id: i64, path: Seq<char>) -> (Seq<AudioView>, i64, AudioView) {
    if exists|i: int| first_view_path_at(items, path, i) {
        let i = choose|i: int| first_view_path_at(items, path, i);
        (items, next_id, items[i])
    } else {
        let a = custom_sound_spec(items, next_id, path);
        (items.push(a), next_id.wrapping_add(1), a)
    }
}

proof fn lemma_first_path_exists(items: Seq<AudioView>, path: Seq<char>, j: int)
    requires
        0 <= j < items.len(),
        same_path(items[j].path, path),
    ensures
        exists|i: int| first_view_path_at(items, path, i),
    decreases j,
{
    if forall|q: int| 0 <= q < j ==> !same_path(items[q].path, path) {
        assert(first_view_path_at(items, path, j));
    } else {
        let q = choose|q: int| 0 <= q < j && same_path(items[q].path, path);
        lemma_first_path_exists(items, path, q);
    }
}

/// Adding the same file twice changes nothing the second time and hands
/// back the same sound.
pub proof fn law_add_custom_file_idempotent(items: Seq<AudioView>, next_id: i64, path: Seq<char>)
    ensures
        ({
            let (items1, next1, a) = custom_added(items, next_id, path);
            let (items2, next2, b) = custom_added(items1, next1, path);
            items2 == items1 && next2 == next1 && b == a && same_path(a.path, path)
        }),
{
    let (items1, next1, a) = custom_added(items, next_id, path);
    if exists|i: int| first_view_path_at(items, path, i) {
        let i = choose|i: int| first_view_path_at(items, path, i);
        assert(first_view_path_at(items1, path, i));
        let k = choose|k: int| first_view_path_at(items1, path, k);
        assert(k == i) by {
            if k < i {
            } else if k > i {
            }
        }
    } else {
        let n = items.len() as int;
        assert(first_view_path_at(items1, path, n)) by {
            assert forall|j: int| 0 <= j < n implies !same_path(items1[j].path, path) by {
                assert(items1[j] == items[j]);
                if same_path(items[j].path, path) {
                    lemma_first_path_exists(items, path, j);
                }
            }
        }
        let k = choose|k: int| first_view_path_at(items1, path, k);
        assert(k == n) by {
            if k < n {
                assert(items1[k] == items[k]);
            }
        }
    }
}

/// The sound that `add_custom_file` hands back, and the catalogue after.
pub open spec fn custom_sound_spec(items: Seq<AudioView>, next_id: i64, path: Seq<char>) -> AudioView {
    let stem = match path_file_stem(path) {
        Some(s) => s,
        None => "Custom Sound"@,
    };
    let name = match path_file_name(path) {
        Some(s) => s,
        None => "sound.ogg"@,
    };
    AudioView {
        id: next_id,
        title: underscores_to_spaces(stem),
        display_name: name,
        path,
        container_path: "/sdcard/"@ + name,
        is_alarm: true,
        is_ringtone: true,
        is_notification: true,
    }
}

/// A sound file found in one of the sound directories: where the app
/// sees it, and what it serves as.
pub struct SoundFile {
    pub path: String,
    pub container_dir: String,
    pub alarm: bool,
    pub ringtone: bool,
    pub notification: bool,
}

/// A host file under the sdcard root with what the file system says of
/// it: size, times (added, modified, taken) and, for a picture, its size
/// in pixels.
pub struct VisualFile {
    pub path: String,
    pub size: i64,
    pub times: (i64, i64, i64),
    pub dims: (i32, i32),
}

pub open spec fn sound_file_spec(f: SoundFile, id: i64) -> AudioView {
    sound_spec(f.path@, id, f.container_dir@, f.alarm, f.ringtone, f.notification)
}

/// Newest first: by the time taken, later first, and by id, larger first,
/// at the same time.
pub open spec fn newest_first(v: Seq<VisualItem>) -> bool {
    forall|i: int, j: int| 0 <= i < j < v.len() ==> (#[trigger] v[i]).date_taken > (#[trigger] v[j]).date_taken
        || (v[i].date_taken == v[j].date_taken && v[i].id > v[j].id)
}

proof fn lemma_next_after_bounds(n: int, sv: Seq<AudioView>, bound: int)
    ensures
        next_id_after(n, sv) >= n,
        forall|j: int| 0 <= j < sv.len() ==> (#[trigger] sv[j]).id < next_id_after(n, sv),
        n <= bound && (forall|j: int| 0 <= j < sv.len() ==> (#[trigger] sv[j]).id < bound) ==> next_id_after(n, sv) <= bound,
    decreases sv.len(),
{
    if sv.len() > 0 {
        let d = sv.drop_last();
        lemma_next_after_bounds(n, d, bound);
        assert forall|j: int| 0 <= j < sv.len() implies (#[trigger] sv[j]).id < next_id_after(n, sv) by {
            if j < sv.len() - 1 {
                assert(d[j] == sv[j]);
            }
        }
        if n <= bound && (forall|j: int| 0 <= j < sv.len() ==> (#[trigger] sv[j]).id < bound) {
            assert forall|j: int| 0 <= j < d.len() implies (#[trigger] d[j]).id < bound by {
                assert(d[j] == sv[j]);
            }
            assert(sv[sv.len() - 1].id < bound);
        }
    }
}

/// Puts `item`, newer in id than every listed item, where newest-first
/// order puts it.
fn insert_newest(v: &mut Vec<VisualItem>, item: VisualItem)
    requires
        newest_first(old(v)@),
        forall|k: int| 0 <= k < old(v)@.len() ==> (#[trigger] old(v)@[k]).id < item.id,
    ensures
        newest_first(final(v)@),
        exists|p: int| 0 <= p <= old(v)@.len() && final(v)@ == old(v)@.insert(p, item),
{
    let mut p: usize = 0;
    while p < v.len() && v[p].date_taken > item.date_taken
        invariant
            p <= v@.len(),
            forall|k: int| 0 <= k < p ==> (#[trigger] v@[k]).date_taken > item.date_taken,
        decreases v.len() - p,
    {
        p = p + 1;
    }
    let ghost o = v@;
    proof {
        assert forall|k: int| p <= k < o.len() implies (#[trigger] o[k]).date_taken <= item.date_taken by {
            if k > p {
                assert(o[p as int].date_taken >= o[k].date_taken);
            }
        }
    }
    v.insert(p, item);
    proof {
        let n = v@;
        assert(n =~= o.insert(p as int, item));
        assert forall|i: int, j: int| 0 <= i < j < n.len() implies (#[trigger] n[i]).date_taken > (#[trigger] n[j]).date_taken
            || (n[i].date_taken == n[j].date_taken && n[i].id > n[j].id) by {
            if j < p {
                assert(n[i] == o[i] && n[j] == o[j]);
            } else if j == p {
                assert(n[i] == o[i]);
            } else if i < p {
                assert(n[i] == o[i] && n[j] == o[j - 1]);
            } else if i == p {
                assert(n[j] == o[j - 1]);
            } else {
                assert(n[i] == o[i - 1] && n[j] == o[j - 1]);
            }
        }
    }
}

impl MediaService {
    /// The media store of one run: the sounds found, in order, under ids
    /// 1, 2, ...; then the sounds an earlier run saved; then the host's
    /// pictures and videos, each under the next id as it is found (files
    /// that are not media under the sdcard root are passed over, and at
    /// most `MAX_VISUAL_ITEMS` are taken), listed newest first. Every
    /// picture id is above every sound id, and no two pictures share one.
    pub fn load(sounds: Vec<SoundFile>, saved: Vec<AudioItem>, sdcard_host: &str, files: Vec<VisualFile>) -> (m: MediaService)
        requires
            sounds@.len() + crate::userdirs::MAX_VISUAL_ITEMS + 1 < i64::MAX,
            forall|i: int| 0 <= i < saved@.len() ==> (#[trigger] saved@[i]).id + crate::userdirs::MAX_VISUAL_ITEMS + 1 < i64::MAX,
        ensures
            m.items@.len() == sounds@.len() + saved@.len(),
            forall|i: int| 0 <= i < sounds@.len() ==> audio_views(m.items@)[i] == sound_file_spec(#[trigger] sounds@[i], (i + 1) as i64),
            forall|j: int| 0 <= j < saved@.len() ==> audio_views(m.items@)[sounds@.len() + j] == audio_view(#[trigger] saved@[j]),
            forall|a: int, b: int| 0 <= a < m.items@.len() && 0 <= b < m.visual@.len() ==> (#[trigger] m.items@[a]).id < (#[trigger] m.visual@[b]).id,
            forall|a: int, b: int| 0 <= a < b < m.visual@.len() ==> (#[trigger] m.visual@[a]).id != (#[trigger] m.visual@[b]).id,
            forall|b: int| 0 <= b < m.visual@.len() ==> (#[trigger] m.visual@[b]).id < m.next_id,
            newest_first(m.visual@),
            m.visual@.len() <= crate::userdirs::MAX_VISUAL_ITEMS,
    {
        let mut m = MediaService::new();
        let mut i: usize = 0;
        while i < sounds.len()
            invariant
                i <= sounds@.len(),
                sounds@.len() + crate::userdirs::MAX_VISUAL_ITEMS + 1 < i64::MAX,
                m.next_id == i + 1,
                m.visual@.len() == 0,
                m.items@.len() == i,
                forall|q: int| 0 <= q < i ==> audio_views(m.items@)[q] == sound_file_spec(#[trigger] sounds@[q], (q + 1) as i64),
            decreases sounds.len() - i,
        {
            let f = &sounds[i];
            let ghost before = audio_views(m.items@);
            m.add_sound(f.path.as_str(), f.container_dir.as_str(), f.alarm, f.ringtone, f.notification);
            proof {
                assert forall|q: int| 0 <= q < i + 1 implies audio_views(m.items@)[q] == sound_file_spec(#[trigger] sounds@[q], (q + 1) as i64) by {
                    if q < i {
                        assert(audio_views(m.items@)[q] == before[q]);
                    }
                }
            }
            i = i + 1;
        }
        let ghost k = sounds@.len() as int;
        let ghost sounds_part = audio_views(m.items@);
        assert(sounds_part.len() == k);
        let ghost n0 = m.next_id as int;
        let ghost sv = audio_views(saved@);
        let ghost bound = i64::MAX - crate::userdirs::MAX_VISUAL_ITEMS - 1;
        proof {
            assert forall|j: int| 0 <= j < sv.len() implies (#[trigger] sv[j]).id < bound by {
                assert(sv[j] == audio_view(saved@[j]));
            }
            lemma_next_after_bounds(m.next_id as int, sv, bound);
        }
        m.restore_saved(saved);
        let base = m.next_id;
        proof {
            assert(base >= n0);
            assert(audio_views(m.items@) == sounds_part + sv);
            assert forall|a: int| 0 <= a < m.items@.len() implies (#[trigger] m.items@[a]).id < base by {
                assert(audio_views(m.items@)[a].id == m.items@[a].id);
                if a < k {
                    assert(audio_views(m.items@)[a] == sounds_part[a]);
                    assert(sounds_part[a] == sound_file_spec(sounds@[a], (a + 1) as i64));
                    assert(sound_file_spec(sounds@[a], (a + 1) as i64).id == a + 1);
                } else {
                    assert(audio_views(m.items@)[a] == sv[a - k]);
                    assert(sv[a - k].id < base);
                }
            }
            assert(newest_first(m.visual@));
        }
        let ghost items_now = m.items@;
        let mut i: usize = 0;
        while i < files.len()
            invariant
                i <= files@.len(),
                m.items@ == items_now,
                forall|a: int| 0 <= a < items_now.len() ==> (#[trigger] items_now[a]).id < base,
                base <= bound,
                bound == i64::MAX - crate::userdirs::MAX_VISUAL_ITEMS - 1,
                m.next_id == base + m.visual@.len(),
                m.visual@.len() <= crate::userdirs::MAX_VISUAL_ITEMS,
                newest_first(m.visual@),
                forall|b: int| 0 <= b < m.visual@.len() ==> base <= (#[trigger] m.visual@[b]).id < m.next_id,
                forall|a: int, b: int| 0 <= a < b < m.visual@.len() ==> (#[trigger] m.visual@[a]).id != (#[trigger] m.visual@[b]).id,
            decreases files.len() - i,
        {
            if m.visual.len() >= crate::userdirs::MAX_VISUAL_ITEMS {
                break;
            }
            let f = &files[i];
            let id = m.next_id;
            match visual_item_for(f.path.as_str(), sdcard_host, id, f.size, f.times, f.dims) {
                Some(v) => {
                    let ghost old_v = m.visual@;
                    insert_newest(&mut m.visual, v);
                    m.next_id = id + 1;
                    proof {
                        let nv = m.visual@;
                        let p = choose|p: int| 0 <= p <= old_v.len() && nv == old_v.insert(p, v);
                        assert forall|b: int| 0 <= b < nv.len() implies base <= (#[trigger] nv[b]).id < m.next_id by {
                            if b < p {
                                assert(nv[b] == old_v[b]);
                            } else if b > p {
                                assert(nv[b] == old_v[b - 1]);
                            }
                        }
                        assert forall|a: int, b: int| 0 <= a < b < nv.len() implies (#[trigger] nv[a]).id != (#[trigger] nv[b]).id by {
                            if b < p {
                                assert(nv[a] == old_v[a] && nv[b] == old_v[b]);
                            } else if b == p {
                                assert(nv[a] == old_v[a]);
                            } else if a < p {
                                assert(nv[a] == old_v[a] && nv[b] == old_v[b - 1]);
                            } else if a == p {
                                assert(nv[b] == old_v[b - 1]);
                            } else {
                                assert(nv[a] == old_v[a - 1] && nv[b] == old_v[b - 1]);
                            }
                        }
                    }
                },
                None => {},
            }
            i = i + 1;
        }
        m
    }
}

/// Every sound and picture id is below the next one to hand out, and no
/// id is used twice, among the sounds, among the pictures, or across them.
pub open spec fn media_ids_fresh(items: Seq<AudioItem>, visual: Seq<VisualItem>, next_id: i64) -> bool {
    &&& forall|i: int| 0 <= i < items.len() ==> (#[trigger] items[i]).id < next_id
    &&& forall|i: int| 0 <= i < visual.len() ==> (#[trigger] visual[i]).id < next_id
    &&& forall|i: int, j: int| 0 <= i < j < items.len() ==> (#[trigger] items[i]).id != (#[trigger] items[j]).id
    &&& forall|i: int, j: int| 0 <= i < j < visual.len() ==> (#[trigger] visual[i]).id != (#[trigger] visual[j]).id
    &&& forall|i: int, j: int| 0 <= i < items.len() && 0 <= j < visual.len() ==> (#[trigger] items[i]).id != (#[trigger] visual[j]).id
}

impl MediaService {
    /// An empty store whose first item gets id 1.
    pub fn new() -> (m: MediaService)
        ensures
            m.items@.len() == 0 && m.visual@.len() == 0 && m.next_id == 1,
            media_ids_fresh(m.items@, m.visual@, m.next_id),
    {
        MediaService { items: Vec::new(), visual: Vec::new(), next_id: 1 }
    }

    /// Indexes the sound file `path` under the next id, the app seeing it
    /// in `container_dir`; the id moves on. Ids stay fresh.
    pub fn add_sound(&mut self, path: &str, container_dir: &str, alarm: bool, ringtone: bool, notification: bool) -> (id: i64)
        requires
            old(self).next_id < i64::MAX,
        ensures
            id == old(self).next_id,
            final(self).next_id == id + 1,
            audio_views(final(self).items@) == audio_views(old(self).items@).push(sound_spec(path@, id, container_dir@, alarm, ringtone, notification)),
            final(self).items@.len() == old(self).items@.len() + 1,
            forall|i: int| 0 <= i < old(self).items@.len() ==> #[trigger] final(self).items@[i] == old(self).items@[i],
            final(self).items@.last().id == id,
            final(self).visual == old(self).visual,
            media_ids_fresh(old(self).items@, old(self).visual@, old(self).next_id)
                ==> media_ids_fresh(final(self).items@, final(self).visual@, final(self).next_id),
    {
        let id = self.next_id;
        let item = sound_item(path, id, container_dir, alarm, ringtone, notification);
        let ghost before = self.items@;
        self.items.push(item);
        self.next_id = id + 1;
        proof {
            assert(audio_views(self.items@) =~= audio_views(before).push(audio_view(item)));
        }
        id
    }

}

impl MediaService {
    /// The file to open for a URI of kind `kind` and row id `id`, with its
    /// MIME type.
    pub fn lookup_open(&self, kind: UriKind, id: i64) -> (r: Option<(String, String)>)
        ensures
            opt_pair(r) == open_spec(self.items@, self.visual@, kind, id),
    {
        let in_visual = match find_visual(self.visual.as_slice(), id) {
            Some(i) => {
                proof {
                    let k = choose|k: int| first_visual_at(self.visual@, id, k);
                    assert(k == i as int);
                }
                Some((self.visual[i].path.clone(), self.visual[i].mime_type.clone()))
            },
            None => None,
        };
        match kind {
            UriKind::Images { .. } | UriKind::Videos { .. } | UriKind::Files { .. } => in_visual,
            UriKind::Audio { .. } | UriKind::Unknown { .. } => match find_audio(self.items.as_slice(), id) {
                Some(i) => {
                    proof {
                        let k = choose|k: int| first_audio_at(self.items@, id, k);
                        assert(k == i as int);
                    }
                    Some((self.items[i].path.clone(), owned("audio/ogg")))
                },
                None => in_visual,
            },
            UriKind::Thumbnails => None,
        }
    }

    /// Adds a user's sound file (alarm, ringtone and notification at once)
    /// and returns it; a file already in the catalogue is returned as it is.
    pub fn add_custom_file(&mut self, path: &str) -> (r: AudioItem)
        ensures
            final(self).visual == old(self).visual,
            (audio_views(final(self).items@), final(self).next_id, audio_view(r)) == custom_added(
                audio_views(old(self).items@),
                old(self).next_id,
                path@,
            ),
    {
        match find_path(self.items.as_slice(), path) {
            Some(i) => {
                proof {
                    assert(first_view_path_at(audio_views(self.items@), path@, i as int));
                    let k = choose|k: int| first_view_path_at(audio_views(self.items@), path@, k);
                    assert(k == i as int);
                }
                return copy_audio(&self.items[i]);
            },
            None => {},
        }
        let id = self.next_id;
        self.next_id = self.next_id.wrapping_add(1);
        let stem = match file_stem_of(path) {
            Some(s) => s,
            None => owned("Custom Sound"),
        };
        let name = match file_name_of(path) {
            Some(s) => s,
            None => owned("sound.ogg"),
        };
        let title = spaced(stem.as_str());
        let container_path = concat("/sdcard/", name.as_str());
        let item = AudioItem {
            id,
            title,
            display_name: name,
            path: path.to_owned(),
            container_path,
            is_alarm: true,
            is_ringtone: true,
            is_notification: true,
        };
        let back = copy_audio(&item);
        let ghost before = self.items@;
        proof {
            assert forall|k: int| !first_view_path_at(audio_views(before), path@, k) by {
                if 0 <= k < before.len() {
                    assert(audio_views(before)[k].path == before[k].path@);
                }
            }
        }
        self.items.push(item);
        proof {
            assert(audio_views(self.items@) =~= audio_views(before).push(audio_view(back)));
        }
        back
    }

    /// The sounds a user added (those not from the system image), which
    /// are the ones saved across runs.
    pub fn custom_indices(&self) -> (r: Vec<usize>)
        ensures
            is_selection(self.items@.len() as int, r@, |k: int| !starts_with(self.items@[k].container_path@, "/product/"@)),
    {
        let mut out: Vec<usize> = Vec::new();
        let mut k: usize = 0;
        while k < self.items.len()
            invariant
                k <= self.items@.len(),
                forall|i: int| 0 <= i < out@.len() ==> (#[trigger] out@[i]) < k && !starts_with(self.items@[out@[i] as int].container_path@, "/product/"@),
                forall|m: usize| m < k && !starts_with(self.items@[m as int].container_path@, "/product/"@) ==> #[trigger] out@.contains(m),
                forall|i: int, j: int| 0 <= i < j < out@.len() ==> (#[trigger] out@[i]) < (#[trigger] out@[j]),
            decreases self.items.len() - k,
        {
            let c = chars_of(self.items[k].container_path.as_str());
            if !begins(c.as_slice(), "/product/") {
                let ghost before = out@;
                out.push(k);
                proof {
                    assert forall|m: usize| m < k + 1 && !starts_with(self.items@[m as int].container_path@, "/product/"@) implies #[trigger] out@.contains(m) by {
                        if m == k {
                            assert(out@[before.len() as int] == k);
                        } else {
                            assert(before.contains(m));
                            let i = choose|i: int| 0 <= i < before.len() && before[i] == m;
                            assert(out@[i] == m);
                        }
                    }
                }
            }
            k = k + 1;
        }
        out
    }

    /// Adds the sounds saved by an earlier run after the system's, moving
    /// the next id past every id in use.
    pub fn restore_saved(&mut self, saved: Vec<AudioItem>)
        requires
            forall|i: int| 0 <= i < saved@.len() ==> (#[trigger] saved@[i]).id < i64::MAX,
        ensures
            audio_views(final(self).items@) == audio_views(old(self).items@) + audio_views(saved@),
            final(self).next_id == next_id_after(old(self).next_id as int, audio_views(saved@)),
            final(self).visual == old(self).visual,
    {
        let ghost items0 = audio_views(self.items@);
        let ghost n0 = self.next_id;
        let mut i: usize = 0;
        let ghost sv = audio_views(saved@);
        while i < saved.len()
            invariant
                sv == audio_views(saved@),
                i <= saved@.len(),
                forall|k: int| 0 <= k < saved@.len() ==> (#[trigger] saved@[k]).id < i64::MAX,
                audio_views(self.items@) == items0 + sv.take(i as int),
                self.next_id == next_id_after(n0 as int, sv.take(i as int)),
                self.visual == old(self).visual,
            decreases saved.len() - i,
        {
            let item = copy_audio(&saved[i]);
            proof {
                assert(sv.take(i + 1).drop_last() == sv.take(i as int));
                assert(sv.take(i + 1).last() == audio_view(saved@[i as int]));
            }
            if item.id >= self.next_id {
                self.next_id = item.id + 1;
            }
            let ghost before = self.items@;
            self.items.push(item);
            proof {
                assert(audio_views(self.items@) =~= audio_views(before).push(audio_view(saved@[i as int])));
                assert(items0 + sv.take(i + 1) =~= (items0 + sv.take(i as int)).push(sv[i as int]));
            }
            i = i + 1;
        }
        proof {
            assert(sv.take(saved@.len() as int) =~= sv);
        }
    }
}

// ---------------------------------------------------------------------------
// Image headers
// ---------------------------------------------------------------------------

/// What the first bytes of an image file say about its size.
pub enum ImageHeader {
    /// Width and height read from the header.
    Size(i32, i32),
    /// A JPEG file: the size is in a frame marker further on.
    Jpeg,
    /// A format whose size is not read.
    Unknown,
}

pub open spec fn be32(b: Seq<u8>, i: int) -> int {
    b[i] as int * 0x1000000 + b[i + 1] as int * 0x10000 + b[i + 2] as int * 0x100 + b[i + 3] as int
}

pub open spec fn png_signature() -> Seq<u8> {
    seq![0x89u8, 0x50u8, 0x4Eu8, 0x47u8, 0x0Du8, 0x0Au8, 0x1Au8, 0x0Au8]
}

/// PNG: the signature, then `IHDR` at offset 12 with big-endian width and
/// height after it. GIF: `GIF8`, then little-endian 16-bit width and height
/// at offset 6. JPEG: `FF D8`.
pub open spec fn image_header_spec(b: Seq<u8>) -> (int, int, int) {
    if b.len() >= 24 && b.take(8) == png_signature() && b.subrange(12, 16) == seq![0x49u8, 0x48u8, 0x44u8, 0x52u8] {
        (0, (be32(b, 16) as u32) as i32 as int, (be32(b, 20) as u32) as i32 as int)
    } else if b.len() >= 10 && b.take(4) == seq![0x47u8, 0x49u8, 0x46u8, 0x38u8] {
        (0, b[6] as int + b[7] as int * 256, b[8] as int + b[9] as int * 256)
    } else if b.len() >= 2 && b[0] == 0xFF && b[1] == 0xD8 {
        (1, 0, 0)
    } else {
        (2, 0, 0)
    }
}

pub open spec fn header_view(h: ImageHeader) -> (int, int, int) {
    match h {
        ImageHeader::Size(w, hh) => (0, w as int, hh as int),
        ImageHeader::Jpeg => (1, 0, 0),
        ImageHeader::Unknown => (2, 0, 0),
    }
}

fn bytes_are(b: &[u8], at: usize, want: &[u8]) -> (r: bool)
    requires
        at + want@.len() <= b@.len(),
    ensures
        r == (b@.subrange(at as int, at + want@.len()) == want@),
{
    let mut k: usize = 0;
    while k < want.len()
        invariant
            at + want@.len() <= b@.len(),
            at + want.len() <= b.len(),
            k <= want@.len(),
            forall|j: int| 0 <= j < k ==> b@[at + j] == want@[j],
        decreases want.len() - k,
    {
        if b[at + k] != want[k] {
            proof {
                assert(b@.subrange(at as int, at + want@.len())[k as int] != want@[k as int]);
            }
            return false;
        }
        k = k + 1;
    }
    proof {
        assert(b@.subrange(at as int, at + want@.len()) =~= want@);
    }
    true
}

/// The size an image file's first bytes give (PNG, GIF), or that it is a
/// JPEG, whose size `jpeg_dimensions` finds.
pub fn image_header(b: &[u8]) -> (r: ImageHeader)
    ensures
        header_view(r) == image_header_spec(b@),
{
    let png: [u8; 8] = [0x89, 0x50, 0x4E, 0x47, 0x0D, 0x0A, 0x1A, 0x0A];
    let ihdr: [u8; 4] = [0x49, 0x48, 0x44, 0x52];
    let gif: [u8; 4] = [0x47, 0x49, 0x46, 0x38];
    proof {
        assert(png@ =~= png_signature());
        assert(ihdr@ =~= seq![0x49u8, 0x48u8, 0x44u8, 0x52u8]);
        assert(gif@ =~= seq![0x47u8, 0x49u8, 0x46u8, 0x38u8]);
        if b@.len() >= 8 {
            assert(b@.take(8) =~= b@.subrange(0, 8));
        }
        if b@.len() >= 4 {
            assert(b@.take(4) =~= b@.subrange(0, 4));
        }
    }
    if b.len() >= 24 && bytes_are(b, 0, png.as_slice()) && bytes_are(b, 12, ihdr.as_slice()) {
        let w: u32 = (b[16] as u32) * 0x1000000 + (b[17] as u32) * 0x10000 + (b[18] as u32) * 0x100 + b[19] as u32;
        let h: u32 = (b[20] as u32) * 0x1000000 + (b[21] as u32) * 0x10000 + (b[22] as u32) * 0x100 + b[23] as u32;
        ImageHeader::Size(#[verifier::truncate] (w as i32), #[verifier::truncate] (h as i32))
    } else if b.len() >= 10 && bytes_are(b, 0, gif.as_slice()) {
        let w = b[6] as i32 + (b[7] as i32) * 256;
        let h = b[8] as i32 + (b[9] as i32) * 256;
        ImageHeader::Size(w, h)
    } else if b.len() >= 2 && b[0] == 0xFF && b[1] == 0xD8 {
        ImageHeader::Jpeg
    } else {
        ImageHeader::Unknown
    }
}

/// The JPEG marker scan from offset `i`: skip to the next `FF`, step over
/// fill bytes and the markers without a length (SOI, EOI, RSTn), stop at a
/// start-of-frame marker (`C0`..`C3`) whose height and width follow its
/// length and precision, skip any other segment by its length; the size is
/// (0, 0) when the data runs out first.
pub open spec fn jpeg_scan(d: Seq<u8>, i: int) -> (int, int)
    decreases d.len() - i,
{
    if i < 0 || i + 8 >= d.len() {
        (0, 0)
    } else if d[i] != 0xFF {
        jpeg_scan(d, i + 1)
    } else {
        let m = d[i + 1];
        if m == 0xFF {
            jpeg_scan(d, i + 1)
        } else if m == 0xD8 || m == 0xD9 || (0xD0 <= m && m <= 0xD7) {
            jpeg_scan(d, i + 2)
        } else if 0xC0 <= m && m <= 0xC3 {
            (d[i + 7] as int * 256 + d[i + 8] as int, d[i + 5] as int * 256 + d[i + 6] as int)
        } else {
            let hi: u8 = d[i + 2];
            let lo: u8 = d[i + 3];
            let len: int = hi as int * 256 + lo as int;
            let next = i + 2 + len;
            jpeg_scan(d, if next > d.len() { d.len() as int } else { next })
        }
    }
}

/// The width and height of a JPEG file, read from its first 256 KiB.
pub open spec fn jpeg_dimensions_spec(data: Seq<u8>) -> (int, int) {
    let d = if data.len() > 256 * 1024 { data.take(262144int) } else { data };
    jpeg_scan(d, 2)
}

pub fn jpeg_dimensions(data: &[u8]) -> (r: (i32, i32))
    ensures
        (r.0 as int, r.1 as int) == jpeg_dimensions_spec(data@),
{
    let n: usize = if data.len() > 256 * 1024 { 256 * 1024 } else { data.len() };
    let ghost d = if data@.len() > 256 * 1024 { data@.take(262144int) } else { data@ };
    let mut i: usize = 2;
    while n > 8 && i < n - 8
        invariant
            n <= data@.len(),
            d == data@.take(n as int),
            jpeg_dimensions_spec(data@) == jpeg_scan(d, i as int),
        decreases n - i,
    {
        proof {
            assert(d.len() == n);
            assert(forall|k: int| 0 <= k < n ==> d[k] == data@[k]);
        }
        if data[i] != 0xFF {
            i = i + 1;
            continue;
        }
        let marker = data[i + 1];
        if marker == 0xFF {
            i = i + 1;
            continue;
        }
        if marker == 0xD8 || marker == 0xD9 || (0xD0 <= marker && marker <= 0xD7) {
            i = i + 2;
            continue;
        }
        let len = (data[i + 2] as usize) * 256 + data[i + 3] as usize;
        if 0xC0 <= marker && marker <= 0xC3 {
            let h = (data[i + 5] as i32) * 256 + data[i + 6] as i32;
            let w = (data[i + 7] as i32) * 256 + data[i + 8] as i32;
            return (w, h);
        }
        if n - i <= 2 + len {
            proof {
                assert(jpeg_scan(d, i + 2 + len) == (0int, 0int));
            }
            i = n;
        } else {
            i = i + 2 + len;
        }
    }
    proof {
        assert(jpeg_scan(d, i as int) == (0int, 0int));
    }
    (0, 0)
}

// ---------------------------------------------------------------------------
// Indexing host pictures and videos
// ---------------------------------------------------------------------------

/// The folder of a container path relative to the sdcard root, with a
/// trailing `/` (empty for files directly in the root or outside it).
pub open spec fn relative_path_spec(container: Seq<char>) -> Seq<char> {
    let parent = match rsplit_once(container, '/') {
        Some((p, _)) => p,
        None => "/storage/emulated/0"@,
    };
    let rel = if starts_with(parent, "/storage/emulated/0/"@) { parent.skip(20) } else { seq![] };
    if rel.len() == 0 { seq![] } else { rel.push('/') }
}

/// The media type a host file is indexed under, from its extension.
pub open spec fn file_media_spec(path: Seq<char>) -> Option<(Seq<char>, i32)> {
    match path_extension(path) {
        Some(e) => mime_for_ext_spec(ascii_lower(e)),
        None => None,
    }
}

/// A system sound file: its extension is `ogg`, exactly.
pub fn system_sound_file(path: &str) -> (r: bool)
    ensures
        r == (path_extension(path@) == Some("ogg"@)),
{
    match extension_of(path) {
        Some(e) => {
            let ec = chars_of(e.as_str());
            is(ec.as_slice(), "ogg")
        },
        None => false,
    }
}

/// A sound of the user's `~/Alarms`: its extension is `ogg`, `mp3` or
/// `wav`, in any case.
pub fn user_alarm_file(path: &str) -> (r: bool)
    ensures
        r == (match path_extension(path@) {
            Some(e) => ascii_lower(e) == "ogg"@ || ascii_lower(e) == "mp3"@ || ascii_lower(e) == "wav"@,
            None => false,
        }),
{
    match extension_of(path) {
        Some(e) => {
            let ec = chars_of(e.as_str());
            let l = to_lower(ec.as_slice());
            is(l.as_slice(), "ogg") || is(l.as_slice(), "mp3") || is(l.as_slice(), "wav")
        },
        None => false,
    }
}

/// A hidden directory entry, which the indexer skips: its name starts
/// with `.`.
pub fn hidden_name(name: &str) -> (r: bool)
    ensures
        r == starts_with(name@, "."@),
{
    let c = chars_of(name);
    begins(c.as_slice(), ".")
}

/// The MIME type and media type of a host file, from its extension in
/// lowercase.
pub fn file_media(path: &str) -> (r: Option<(&'static str, i32)>)
    ensures
        match (r, file_media_spec(path@)) {
            (Some((m, t)), Some((sm, st))) => m@ == sm && t == st,
            (None, None) => true,
            _ => false,
        },
{
    match extension_of(path) {
        Some(e) => {
            let ec = chars_of(e.as_str());
            let lower = to_lower(ec.as_slice());
            let ls = string_of(lower.as_slice());
            mime_for_ext(ls.as_str())
        },
        None => None,
    }
}

/// The catalogue entry of a host picture or video under the sdcard root,
/// given what the file system says of it; `None` for a file of another
/// type, outside the root, or without a name.
pub fn visual_item_for(
    path: &str,
    sdcard_host: &str,
    id: i64,
    size: i64,
    times: (i64, i64, i64),
    dims: (i32, i32),
) -> (r: Option<VisualItem>)
    ensures
        match r {
            None => file_media_spec(path@) is None || container_path_spec(sdcard_host@, path@) is None
                || path_file_name(path@) is None || path_file_stem(path@) is None,
            Some(v) => {
                &&& file_media_spec(path@) == Some((v.mime_type@, v.media_type))
                &&& container_path_spec(sdcard_host@, path@) == Some(v.container_path@)
                &&& path_file_name(path@) == Some(v.display_name@)
                &&& path_file_stem(path@) == Some(v.title@)
                &&& v.id == id && v.path@ == path@ && v.size == size
                &&& (v.bucket_id, v.bucket_display_name@) == bucket_spec(v.container_path@)
                &&& v.relative_path@ == relative_path_spec(v.container_path@)
                &&& v.date_added == times.0 && v.date_modified == times.1 && v.date_taken == times.2
                &&& (v.width, v.height) == (if v.media_type == MEDIA_TYPE_IMAGE { dims } else { (0i32, 0i32) })
                &&& v.orientation == 0 && v.duration_ms == 0
            },
        },
{
    let (mime_type, media_type) = match file_media(path) {
        Some(m) => m,
        None => return None,
    };
    let container_path = match container_path_for(sdcard_host, path) {
        Some(c) => c,
        None => return None,
    };
    let display_name = match file_name_of(path) {
        Some(n) => n,
        None => return None,
    };
    let title = match file_stem_of(path) {
        Some(t) => t,
        None => return None,
    };
    let (width, height) = if media_type == MEDIA_TYPE_IMAGE { dims } else { (0, 0) };
    let (bucket_id, bucket_display_name) = bucket_of(container_path.as_str());
    let cc = chars_of(container_path.as_str());
    let parent = match split_at_last(cc.as_slice(), '/') {
        Some((p, _)) => p,
        None => chars_of("/storage/emulated/0"),
    };
    let mut rel: Vec<char> = if begins(parent.as_slice(), "/storage/emulated/0/") {
        proof {
            reveal_strlit("/storage/emulated/0/");
        }
        crate::text::slice_copy(parent.as_slice(), 20, parent.len())
    } else {
        Vec::new()
    };
    proof {
        reveal_strlit("/storage/emulated/0/");
        if starts_with(parent@, "/storage/emulated/0/"@) {
            assert(parent@.subrange(20, parent@.len() as int) == parent@.skip(20));
        }
    }
    if rel.len() > 0 {
        rel.push('/');
    }
    proof {
        if rel@.len() == 0 {
            assert(rel@ =~= Seq::<char>::empty());
        }
    }
    Some(VisualItem {
        id,
        title,
        display_name,
        path: path.to_owned(),
        container_path,
        relative_path: string_of(rel.as_slice()),
        mime_type: owned(mime_type),
        media_type,
        bucket_id,
        bucket_display_name,
        size,
        date_added: times.0,
        date_modified: times.1,
        date_taken: times.2,
        width,
        height,
        orientation: 0,
        duration_ms: 0,
    })
}

} // verus!






