//! The activity manager's decisions: the scheme and MIME type of an intent's
//! data, intent-filter matching, which activity a start request or a launch
//! lands on, the task's activity stack, and the content providers the
//! service hands out.
use vstd::prelude::*;
use crate::alarm::{extras_view, LaunchTarget};
use crate::services::{Answer, Payload};
use crate::text::{
    ascii_lower, chars_of, concat, signed_decimal, signed_text, trim, trimmed, contains, ends_with, eq_ignore_case, finishes, has, is, same,
    same_ignore_case, split_at_first, split_once, string_of, to_lower,
};

verus! {

/// `Intent.FLAG_ACTIVITY_NEW_TASK`.
pub const FLAG_ACTIVITY_NEW_TASK: i32 = 0x1000_0000;

pub open spec fn scheme_spec(uri: Seq<char>) -> Option<Seq<char>> {
    match split_once(uri, ':') {
        Some((s, _)) => Some(ascii_lower(s)),
        None => None,
    }
}

/// The scheme of a URI string: the part before the first `:`, in lower
/// case.
pub fn uri_scheme(uri: &str) -> (r: Option<String>)
    ensures
        match r {
            Some(s) => scheme_spec(uri@) == Some(s@),
            None => scheme_spec(uri@) is None,
        },
{
    let u = chars_of(uri);
    match split_at_first(u.as_slice(), ':') {
        Some((head, _)) => {
            let l = to_lower(head.as_slice());
            Some(string_of(l.as_slice()))
        },
        None => None,
    }
}

pub open spec fn mime_spec(uri: Seq<char>) -> Option<Seq<char>> {
    if contains(uri, "/events/"@) {
        Some("vnd.android.cursor.item/event"@)
    } else if contains(uri, "/events"@) {
        Some("vnd.android.cursor.dir/event"@)
    } else if ends_with(uri, ".ogg"@) {
        Some("audio/ogg"@)
    } else if ends_with(uri, ".mp3"@) {
        Some("audio/mp3"@)
    } else if ends_with(uri, ".wav"@) {
        Some("audio/wav"@)
    } else if ends_with(uri, ".png"@) {
        Some("image/png"@)
    } else if ends_with(uri, ".jpg"@) || ends_with(uri, ".jpeg"@) {
        Some("image/jpeg"@)
    } else {
        None
    }
}

/// The MIME type of an intent's data URI, guessed from its path.
pub fn infer_mime_type(uri: &str) -> (r: Option<&'static str>)
    ensures
        match r {
            Some(m) => mime_spec(uri@) == Some(m@),
            None => mime_spec(uri@) is None,
        },
{
    let u = chars_of(uri);
    let u = u.as_slice();
    if has(u, "/events/") {
        Some("vnd.android.cursor.item/event")
    } else if has(u, "/events") {
        Some("vnd.android.cursor.dir/event")
    } else if finishes(u, ".ogg") {
        Some("audio/ogg")
    } else if finishes(u, ".mp3") {
        Some("audio/mp3")
    } else if finishes(u, ".wav") {
        Some("audio/wav")
    } else if finishes(u, ".png") {
        Some("image/png")
    } else if finishes(u, ".jpg") || finishes(u, ".jpeg") {
        Some("image/jpeg")
    } else {
        None
    }
}

pub open spec fn matches_mime_spec(filter: Seq<char>, target: Seq<char>) -> bool {
    filter == "*/*"@ || filter == target || match (split_once(filter, '/'), split_once(target, '/')) {
        (Some((f_major, f_minor)), Some((t_major, _))) => f_minor == "*"@ && eq_ignore_case(f_major, t_major),
        _ => false,
    }
}

/// An intent filter's MIME type accepts a target type: `*/*`, the same
/// type, or `major/*` with the same major type in any case.
pub fn matches_mime(filter_mime: &str, target_mime: &str) -> (r: bool)
    ensures
        r == matches_mime_spec(filter_mime@, target_mime@),
{
    let f = chars_of(filter_mime);
    let t = chars_of(target_mime);
    if is(f.as_slice(), "*/*") || same(f.as_slice(), t.as_slice()) {
        return true;
    }
    match split_at_first(f.as_slice(), '/') {
        Some((f_major, f_minor)) => match split_at_first(t.as_slice(), '/') {
            Some((t_major, _)) => is(f_minor.as_slice(), "*") && same_ignore_case(f_major.as_slice(), t_major.as_slice()),
            None => false,
        },
        None => false,
    }
}

// ---------------------------------------------------------------------------
// Intent filters
// ---------------------------------------------------------------------------

/// An `<intent-filter>` of the manifest.
pub struct IntentFilter {
    pub actions: Vec<String>,
    pub categories: Vec<String>,
    pub schemes: Vec<String>,
    pub mime_types: Vec<String>,
}

/// An `<activity>` (or `<activity-alias>`, with its target) of the
/// manifest.
pub struct ActivityDecl {
    pub name: String,
    pub target_activity: Option<String>,
    pub filters: Vec<IntentFilter>,
}

pub open spec fn names(v: Seq<String>) -> Seq<Seq<char>> {
    v.map_values(|s: String| s@)
}

pub open spec fn scheme_ok(s: Seq<char>) -> bool {
    s == "content"@ || s == "file"@
}

pub open spec fn any_mime_matches(filter_types: Seq<Seq<char>>, m: Seq<char>) -> bool {
    exists|i: int| 0 <= i < filter_types.len() && matches_mime_spec(#[trigger] filter_types[i], m)
}

/// An intent with `action` whose data has scheme `scheme` and type `mime`
/// passes filter `f`.
pub open spec fn filter_accepts(f: IntentFilter, action: Seq<char>, scheme: Option<Seq<char>>, mime: Option<Seq<char>>) -> bool {
    let actions = names(f.actions@);
    let categories = names(f.categories@);
    let schemes = names(f.schemes@);
    let types = names(f.mime_types@);
    &&& actions.len() == 0 || actions.contains(action)
    &&& categories.len() == 0 || categories.contains("android.intent.category.DEFAULT"@)
    &&& match (scheme, mime) {
        (Some(s), Some(m)) => (if schemes.len() == 0 { scheme_ok(s) } else { schemes.contains(s) })
            && (types.len() == 0 || any_mime_matches(types, m)),
        (Some(s), None) => if schemes.len() == 0 { types.len() == 0 && scheme_ok(s) } else { schemes.contains(s) },
        (None, Some(m)) => any_mime_matches(types, m),
        (None, None) => schemes.len() == 0 && types.len() == 0,
    }
}

pub open spec fn activity_accepts(a: ActivityDecl, action: Seq<char>, scheme: Option<Seq<char>>, mime: Option<Seq<char>>) -> bool {
    exists|j: int| 0 <= j < a.filters@.len() && filter_accepts(#[trigger] a.filters@[j], action, scheme, mime)
}

pub open spec fn data_scheme(data: Option<Seq<char>>) -> Option<Seq<char>> {
    match data {
        Some(d) => scheme_spec(d),
        None => None,
    }
}

pub open spec fn data_mime(data: Option<Seq<char>>) -> Option<Seq<char>> {
    match data {
        Some(d) => mime_spec(d),
        None => None,
    }
}

/// `i` is the first activity that accepts the intent.
pub open spec fn first_accepting(acts: Seq<ActivityDecl>, action: Seq<char>, data: Option<Seq<char>>, i: int) -> bool {
    &&& 0 <= i < acts.len()
    &&& activity_accepts(acts[i], action, data_scheme(data), data_mime(data))
    &&& forall|j: int| 0 <= j < i ==> !activity_accepts(#[trigger] acts[j], action, data_scheme(data), data_mime(data))
}

/// The activity an implicit intent resolves to: the first declared one
/// with a filter that accepts it.
pub open spec fn resolve_spec(acts: Seq<ActivityDecl>, action: Seq<char>, data: Option<Seq<char>>) -> Option<Seq<char>> {
    if exists|i: int| first_accepting(acts, action, data, i) {
        Some(acts[choose|i: int| first_accepting(acts, action, data, i)].name@)
    } else {
        None
    }
}

/// A filter that lists schemes accepts an intent whose data has a scheme
/// only if that scheme is in its list; a filter that lists none accepts
/// such an intent only for `content:` and `file:` data.
pub proof fn law_filter_scheme_declared(f: IntentFilter, action: Seq<char>, s: Seq<char>, mime: Option<Seq<char>>)
    requires
        filter_accepts(f, action, Some(s), mime),
    ensures
        names(f.schemes@).len() > 0 ==> names(f.schemes@).contains(s),
        names(f.schemes@).len() == 0 ==> (s == "content"@ || s == "file"@),
{
}

/// A filter accepts an intent only if it lists the intent's action (or
/// lists no action) and lists the default category (or lists no category);
/// an intent with no data passes only a filter with no schemes and no
/// types. A filter that lists the action, the default category and the data's
/// scheme accepts data of that scheme with no type.
pub proof fn law_filter_action_category(f: IntentFilter, action: Seq<char>, scheme: Option<Seq<char>>, mime: Option<Seq<char>>)
    ensures
        filter_accepts(f, action, scheme, mime) ==> {
            &&& names(f.actions@).len() == 0 || names(f.actions@).contains(action)
            &&& names(f.categories@).len() == 0 || names(f.categories@).contains("android.intent.category.DEFAULT"@)
            &&& (scheme is None && mime is None) ==> (f.schemes@.len() == 0 && f.mime_types@.len() == 0)
        },
        (scheme matches Some(s) ==> (mime is None ==> (names(f.actions@).contains(action)
            && names(f.categories@).contains("android.intent.category.DEFAULT"@)
            && names(f.schemes@).contains(s)
            ==> filter_accepts(f, action, scheme, mime)))),
{
}

/// An implicit intent whose data has a scheme that no filter of any
/// activity declares (and that is neither `content` nor `file`) resolves to
/// no activity.
pub proof fn law_resolve_needs_declared_scheme(acts: Seq<ActivityDecl>, action: Seq<char>, data: Option<Seq<char>>, s: Seq<char>)
    requires
        data_scheme(data) == Some(s),
        s != "content"@,
        s != "file"@,
        forall|i: int, j: int| 0 <= i < acts.len() && 0 <= j < acts[i].filters@.len()
            ==> !names((#[trigger] acts[i].filters@[j]).schemes@).contains(s),
    ensures
        resolve_spec(acts, action, data) is None,
{
    if exists|i: int| first_accepting(acts, action, data, i) {
        let i = choose|i: int| first_accepting(acts, action, data, i);
        let j = choose|j: int| 0 <= j < acts[i].filters@.len()
            && filter_accepts(#[trigger] acts[i].filters@[j], action, data_scheme(data), data_mime(data));
        law_filter_scheme_declared(acts[i].filters@[j], action, s, data_mime(data));
        assert(!names(acts[i].filters@[j].schemes@).contains(s));
    }
}

fn list_has(v: &Vec<String>, s: &[char]) -> (r: bool)
    ensures
        r == names(v@).contains(s@),
{
    let mut i: usize = 0;
    while i < v.len()
        invariant
            i <= v@.len(),
            forall|j: int| 0 <= j < i ==> names(v@)[j] != s@,
        decreases v.len() - i,
    {
        let c = chars_of(v[i].as_str());
        if same(c.as_slice(), s) {
            proof {
                assert(names(v@)[i as int] == s@);
            }
            return true;
        }
        i = i + 1;
    }
    false
}

fn any_mime(types: &Vec<String>, m: &str) -> (r: bool)
    ensures
        r == any_mime_matches(names(types@), m@),
{
    let mut i: usize = 0;
    while i < types.len()
        invariant
            i <= types@.len(),
            forall|j: int| 0 <= j < i ==> !matches_mime_spec(#[trigger] names(types@)[j], m@),
        decreases types.len() - i,
    {
        if matches_mime(types[i].as_str(), m) {
            proof {
                assert(matches_mime_spec(names(types@)[i as int], m@));
            }
            return true;
        }
        i = i + 1;
    }
    false
}

/// Whether filter `f` accepts an intent with `action`, whose data has
/// scheme `scheme` and type `mime`.
pub fn accepts(f: &IntentFilter, action: &str, scheme: &Option<String>, mime: Option<&str>) -> (r: bool)
    ensures
        r == filter_accepts(*f, action@, match scheme { Some(s) => Some(s@), None => None }, match mime { Some(m) => Some(m@), None => None }),
{
    let a = chars_of(action);
    if f.actions.len() > 0 && !list_has(&f.actions, a.as_slice()) {
        return false;
    }
    let default_category = chars_of("android.intent.category.DEFAULT");
    if f.categories.len() > 0 && !list_has(&f.categories, default_category.as_slice()) {
        return false;
    }
    match (scheme, mime) {
        (Some(s), Some(m)) => {
            let sc = chars_of(s.as_str());
            let scheme_matches = if f.schemes.len() == 0 {
                is(sc.as_slice(), "content") || is(sc.as_slice(), "file")
            } else {
                list_has(&f.schemes, sc.as_slice())
            };
            let mime_matches = f.mime_types.len() == 0 || any_mime(&f.mime_types, m);
            scheme_matches && mime_matches
        },
        (Some(s), None) => {
            let sc = chars_of(s.as_str());
            if f.schemes.len() == 0 {
                f.mime_types.len() == 0 && (is(sc.as_slice(), "content") || is(sc.as_slice(), "file"))
            } else {
                list_has(&f.schemes, sc.as_slice())
            }
        },
        (None, Some(m)) => any_mime(&f.mime_types, m),
        (None, None) => f.schemes.len() == 0 && f.mime_types.len() == 0,
    }
}

pub open spec fn str_view(o: Option<&str>) -> Option<Seq<char>> {
    match o {
        Some(s) => Some(s@),
        None => None,
    }
}

/// Resolves an implicit intent with `action` and `data` against the
/// declared activities: the name of the first one with an accepting filter.
pub fn resolve(activities: &Vec<ActivityDecl>, action: &str, data: Option<&str>) -> (r: Option<String>)
    ensures
        match r {
            Some(n) => resolve_spec(activities@, action@, str_view(data)) == Some(n@),
            None => resolve_spec(activities@, action@, str_view(data)) is None,
        },
{
    let ghost dv: Option<Seq<char>> = str_view(data);
    let scheme = match data {
        Some(d) => uri_scheme(d),
        None => None,
    };
    let mime = match data {
        Some(d) => infer_mime_type(d),
        None => None,
    };
    proof {
        assert(match scheme { Some(s) => Some(s@), None => None::<Seq<char>> } == data_scheme(dv));
        assert(match mime { Some(m) => Some(m@), None => None::<Seq<char>> } == data_mime(dv));
    }
    let mut i: usize = 0;
    while i < activities.len()
        invariant
            i <= activities@.len(),
            dv == str_view(data),
            match scheme { Some(s) => Some(s@), None => None::<Seq<char>> } == data_scheme(dv),
            match mime { Some(m) => Some(m@), None => None::<Seq<char>> } == data_mime(dv),
            forall|j: int| 0 <= j < i ==> !activity_accepts(#[trigger] activities@[j], action@, data_scheme(dv), data_mime(dv)),
        decreases activities.len() - i,
    {
        let a = &activities[i];
        let mut k: usize = 0;
        let mut found = false;
        while k < a.filters.len()
            invariant
                k <= a.filters@.len(),
                i < activities@.len(),
                *a == activities@[i as int],
                match scheme { Some(s) => Some(s@), None => None::<Seq<char>> } == data_scheme(dv),
                match mime { Some(m) => Some(m@), None => None::<Seq<char>> } == data_mime(dv),
                found == exists|j: int| 0 <= j < k && filter_accepts(#[trigger] a.filters@[j], action@, data_scheme(dv), data_mime(dv)),
            decreases a.filters.len() - k,
        {
            if accepts(&a.filters[k], action, &scheme, mime) {
                found = true;
            }
            k = k + 1;
        }
        if found {
            proof {
                assert(first_accepting(activities@, action@, dv, i as int));
                let m = choose|m: int| first_accepting(activities@, action@, dv, m);
                assert(m == i as int) by {
                    if m < i {
                    } else if m > i {
                        assert(activity_accepts(activities@[i as int], action@, data_scheme(dv), data_mime(dv)));
                    }
                }
            }
            return Some(a.name.clone());
        }
        i = i + 1;
    }
    proof {
        assert forall|m: int| !first_accepting(activities@, action@, dv, m) by {
        }
    }
    None
}

// ---------------------------------------------------------------------------
// Start requests and launches
// ---------------------------------------------------------------------------

/// What the activity manager knows of the running app.
pub struct AppModel {
    pub package: String,
    pub main_activity: Option<String>,
    /// The activity a deep link asked for, if any.
    pub requested_activity: Option<String>,
    pub activities: Vec<ActivityDecl>,
}

/// An intent as the activity manager builds it for a launch.
pub struct Intent {
    pub action: Option<String>,
    pub data: Option<String>,
    pub package: Option<String>,
    pub component: Option<(String, String)>,
    pub categories: Vec<String>,
    pub flags: i32,
    /// The extras `Bundle`, as the parcel bytes it came in.
    pub extras: Option<Vec<u8>>,
}

/// Why a start request launched nothing.
#[derive(PartialEq, Eq, Debug, Clone, Copy, Structural)]
pub enum StartRefusal {
    /// An explicit intent for another package.
    OtherPackage,
    /// An implicit intent without an action.
    NoAction,
    /// No declared activity accepts the implicit intent.
    NoMatch,
    /// The target is not declared in the manifest.
    Undeclared,
    /// The target already runs in the task.
    AlreadyRunning,
}

pub open spec fn opt_view(o: Option<String>) -> Option<Seq<char>> {
    match o {
        Some(s) => Some(s@),
        None => None,
    }
}

/// The class a start request names, before aliases are followed.
pub open spec fn requested_class(app: AppModel, pkg: Option<Seq<char>>, class: Option<Seq<char>>, action: Option<Seq<char>>, data: Option<Seq<char>>) -> Result<Seq<char>, StartRefusal> {
    if pkg is Some && class is Some && pkg->0 == app.package@ {
        Ok(class->0)
    } else if pkg is Some && class is None && pkg->0 == app.package@ {
        Ok(match opt_view(app.main_activity) { Some(m) => m, None => Seq::empty() })
    } else if pkg is None && class is Some {
        Ok(class->0)
    } else if pkg is Some && class is Some {
        Err(StartRefusal::OtherPackage)
    } else {
        match action {
            None => Err(StartRefusal::NoAction),
            Some(a) => match resolve_spec(app.activities@, a, data) {
                Some(n) => Ok(n),
                None => Err(StartRefusal::NoMatch),
            },
        }
    }
}

/// `i` is the first activity declared under `name`.
pub open spec fn first_named(acts: Seq<ActivityDecl>, name: Seq<char>, i: int) -> bool {
    0 <= i < acts.len() && acts[i].name@ == name && forall|j: int| 0 <= j < i ==> (#[trigger] acts[j]).name@ != name
}

/// The activity `name` stands for: an alias's target, else itself.
pub open spec fn alias_spec(acts: Seq<ActivityDecl>, name: Seq<char>) -> Seq<char> {
    if exists|i: int| first_named(acts, name, i) {
        match opt_view(acts[choose|i: int| first_named(acts, name, i)].target_activity) {
            Some(t) => t,
            None => name,
        }
    } else {
        name
    }
}

pub open spec fn declared(acts: Seq<ActivityDecl>, name: Seq<char>) -> bool {
    exists|i: int| 0 <= i < acts.len() && (#[trigger] acts[i]).name@ == name
}

fn find_named(acts: &Vec<ActivityDecl>, name: &[char]) -> (r: Option<usize>)
    ensures
        match r {
            Some(i) => first_named(acts@, name@, i as int),
            None => !declared(acts@, name@),
        },
{
    let mut i: usize = 0;
    while i < acts.len()
        invariant
            i <= acts@.len(),
            forall|j: int| 0 <= j < i ==> (#[trigger] acts@[j]).name@ != name@,
        decreases acts.len() - i,
    {
        let n = chars_of(acts[i].name.as_str());
        if same(n.as_slice(), name) {
            return Some(i);
        }
        i = i + 1;
    }
    None
}

/// The activity `name` stands for, following an alias to its target.
pub fn follow_alias(acts: &Vec<ActivityDecl>, name: String) -> (r: String)
    ensures
        r@ == alias_spec(acts@, name@),
{
    let n = chars_of(name.as_str());
    match find_named(acts, n.as_slice()) {
        Some(i) => {
            proof {
                let k = choose|k: int| first_named(acts@, name@, k);
                assert(k == i as int) by {
                    if k < i {
                    } else if k > i {
                        assert(acts@[i as int].name@ == name@);
                    }
                }
            }
            match &acts[i].target_activity {
                Some(t) => t.clone(),
                None => name,
            }
        },
        None => name,
    }
}

fn eq_strings(a: &String, b: &String) -> (r: bool)
    ensures
        r == (a@ == b@),
{
    let x = chars_of(a.as_str());
    let y = chars_of(b.as_str());
    same(x.as_slice(), y.as_slice())
}

fn copy_opt(o: &Option<String>) -> (r: Option<String>)
    ensures
        opt_view(r) == opt_view(*o),
{
    match o {
        Some(s) => Some(s.clone()),
        None => None,
    }
}

/// The class a start request for (`pkg`, `class`, `action`, `data`) names.
pub fn requested_target(app: &AppModel, pkg: &Option<String>, class: &Option<String>, action: &Option<String>, data: &Option<String>) -> (r: Result<String, StartRefusal>)
    ensures
        match r {
            Ok(c) => requested_class(*app, opt_view(*pkg), opt_view(*class), opt_view(*action), opt_view(*data)) == Ok::<Seq<char>, StartRefusal>(c@),
            Err(e) => requested_class(*app, opt_view(*pkg), opt_view(*class), opt_view(*action), opt_view(*data)) == Err::<Seq<char>, StartRefusal>(e),
        },
{
    match (pkg, class) {
        (Some(p), Some(c)) => {
            if eq_strings(p, &app.package) {
                return Ok(c.clone());
            }
            return Err(StartRefusal::OtherPackage);
        },
        (Some(p), None) => {
            if eq_strings(p, &app.package) {
                return Ok(match &app.main_activity {
                    Some(m) => m.clone(),
                    None => String::new(),
                });
            }
        },
        (None, Some(c)) => {
            return Ok(c.clone());
        },
        (None, None) => {},
    }
    match action {
        None => Err(StartRefusal::NoAction),
        Some(a) => {
            let d: Option<&str> = match data {
                Some(x) => Some(x.as_str()),
                None => None,
            };
            proof {
                assert(str_view(d) == opt_view(*data));
            }
            match resolve(&app.activities, a.as_str(), d) {
                Some(n) => Ok(n),
                None => Err(StartRefusal::NoMatch),
            }
        },
    }
}

/// The activities of the task, bottom first.
pub struct ActivityTask {
    pub stack: Vec<String>,
}

pub open spec fn distinct(s: Seq<Seq<char>>) -> bool {
    forall|i: int, j: int| 0 <= i < j < s.len() ==> s[i] != s[j]
}

/// What a start request does: the activity it launches, or why none.
pub open spec fn start_spec(app: AppModel, stack: Seq<Seq<char>>, pkg: Option<Seq<char>>, class: Option<Seq<char>>, action: Option<Seq<char>>, data: Option<Seq<char>>) -> Result<Seq<char>, StartRefusal> {
    match requested_class(app, pkg, class, action, data) {
        Err(e) => Err(e),
        Ok(c) => {
            let t = alias_spec(app.activities@, c);
            if !declared(app.activities@, t) {
                Err(StartRefusal::Undeclared)
            } else if stack.contains(t) {
                Err(StartRefusal::AlreadyRunning)
            } else {
                Ok(t)
            }
        },
    }
}

impl ActivityTask {
    pub open spec fn view(&self) -> Seq<Seq<char>> {
        names(self.stack@)
    }

    /// A start request: the activity launched goes on top of the task; a
    /// refused request leaves the task as it was. The task never holds an
    /// activity twice.
    pub fn start(&mut self, app: &AppModel, pkg: &Option<String>, class: &Option<String>, action: &Option<String>, data: &Option<String>) -> (r: Result<String, StartRefusal>)
        ensures
            match r {
                Ok(t) => start_spec(*app, old(self)@, opt_view(*pkg), opt_view(*class), opt_view(*action), opt_view(*data)) == Ok::<Seq<char>, StartRefusal>(t@)
                    && final(self)@ == old(self)@.push(t@),
                Err(e) => start_spec(*app, old(self)@, opt_view(*pkg), opt_view(*class), opt_view(*action), opt_view(*data)) == Err::<Seq<char>, StartRefusal>(e)
                    && final(self)@ == old(self)@,
            },
            distinct(old(self)@) ==> distinct(final(self)@),
    {
        let c = match requested_target(app, pkg, class, action, data) {
            Ok(c) => c,
            Err(e) => return Err(e),
        };
        let ghost cv = c@;
        let t = follow_alias(&app.activities, c);
        let tc = chars_of(t.as_str());
        match find_named(&app.activities, tc.as_slice()) {
            None => return Err(StartRefusal::Undeclared),
            Some(k) => {
                proof {
                    assert(app.activities@[k as int].name@ == t@);
                }
            },
        }
        let mut i: usize = 0;
        while i < self.stack.len()
            invariant
                i <= self.stack@.len(),
                self.stack@ == old(self).stack@,
                tc@ == t@,
                declared(app.activities@, t@),
                requested_class(*app, opt_view(*pkg), opt_view(*class), opt_view(*action), opt_view(*data)) == Ok::<Seq<char>, StartRefusal>(cv),
                t@ == alias_spec(app.activities@, cv),
                forall|j: int| 0 <= j < i ==> names(self.stack@)[j] != t@,
            decreases self.stack.len() - i,
        {
            if eq_strings(&self.stack[i], &t) {
                proof {
                    assert(names(self.stack@)[i as int] == t@);
                }
                return Err(StartRefusal::AlreadyRunning);
            }
            i = i + 1;
        }
        let ghost before = self@;
        self.stack.push(t.clone());
        proof {
            assert(self@ =~= before.push(t@));
        }
        Ok(t)
    }

    /// An activity reported destroyed: the top of the task goes.
    pub fn pop(&mut self) -> (r: Option<String>)
        ensures
            old(self)@.len() == 0 ==> r is None && final(self)@ == old(self)@,
            old(self)@.len() > 0 ==> (r matches Some(t) && t@ == old(self)@.last()) && final(self)@ == old(self)@.drop_last(),
    {
        let ghost before = self@;
        let r = self.stack.pop();
        proof {
            if before.len() > 0 {
                assert(self@ =~= before.drop_last());
            }
        }
        r
    }


    /// The launch once the app has attached: a deep link `url` goes to the
    /// requested activity or the one that resolves `VIEW` on it, else (and
    /// without a link) to the main activity; the target, after aliases, goes
    /// on top of the task. `None` when there is no link and no main activity.
    pub fn launch(&mut self, app: &AppModel, url: &Option<String>) -> (r: Option<(String, Intent)>)
        ensures
            match r {
                Some((t, intent)) => launch_spec(*app, opt_view(*url)) == Some(t@)
                    && final(self)@ == old(self)@.push(t@)
                    && intent_spec(intent, *app, opt_view(*url), t@),
                None => launch_spec(*app, opt_view(*url)) is None && final(self)@ == old(self)@,
            },
    {
        let (chosen, intent_for_link) = match url {
            Some(u) => {
                let via = match &app.requested_activity {
                    Some(a) => Some(a.clone()),
                    None => resolve(&app.activities, "android.intent.action.VIEW", Some(u.as_str())),
                };
                match via {
                    Some(cls) => (cls, true),
                    None => (match &app.main_activity {
                        Some(m) => m.clone(),
                        None => String::new(),
                    }, false),
                }
            },
            None => match &app.main_activity {
                Some(m) => (m.clone(), false),
                None => return None,
            },
        };
        let intent = if intent_for_link {
            Intent {
                action: Some("android.intent.action.VIEW".to_owned()),
                data: copy_opt(url),
                package: None,
                component: Some((app.package.clone(), chosen.clone())),
                categories: Vec::new(),
                flags: FLAG_ACTIVITY_NEW_TASK,
                extras: None,
            }
        } else {
            main_intent(app.package.as_str(), chosen.as_str())
        };
        let t = follow_alias(&app.activities, chosen);
        let ghost before = self@;
        self.stack.push(t.clone());
        proof {
            assert(self@ =~= before.push(t@));
        }
        Some((t, intent))
    }
}

/// The class a launch picks before aliases, and whether the deep link
/// picked it.
pub open spec fn launch_choice(app: AppModel, url: Option<Seq<char>>) -> Option<(Seq<char>, bool)> {
    match url {
        Some(u) => {
            let via = match opt_view(app.requested_activity) {
                Some(a) => Some(a),
                None => resolve_spec(app.activities@, "android.intent.action.VIEW"@, Some(u)),
            };
            match via {
                Some(c) => Some((c, true)),
                None => Some((match opt_view(app.main_activity) { Some(m) => m, None => Seq::empty() }, false)),
            }
        },
        None => match opt_view(app.main_activity) {
            Some(m) => Some((m, false)),
            None => None,
        },
    }
}

pub open spec fn launch_spec(app: AppModel, url: Option<Seq<char>>) -> Option<Seq<char>> {
    match launch_choice(app, url) {
        Some((c, _)) => Some(alias_spec(app.activities@, c)),
        None => None,
    }
}

/// The intent a launch sends: `VIEW` on the link with the chosen class, or
/// the launcher intent of the chosen class.
pub open spec fn intent_spec(i: Intent, app: AppModel, url: Option<Seq<char>>, target: Seq<char>) -> bool {
    match launch_choice(app, url) {
        Some((c, true)) => {
            &&& opt_view(i.action) == Some("android.intent.action.VIEW"@)
            &&& opt_view(i.data) == url
            &&& i.package is None
            &&& i.component matches Some((p, k)) && p@ == app.package@ && k@ == c
            &&& i.categories@.len() == 0
            &&& i.flags == FLAG_ACTIVITY_NEW_TASK
            &&& i.extras is None
        },
        Some((c, false)) => main_intent_spec(i, app.package@, c),
        None => false,
    }
}

pub open spec fn main_intent_spec(i: Intent, package: Seq<char>, activity: Seq<char>) -> bool {
    &&& opt_view(i.action) == Some("android.intent.action.MAIN"@)
    &&& i.data is None
    &&& i.package is None
    &&& i.component matches Some((p, k)) && p@ == package && k@ == activity
    &&& names(i.categories@) == seq!["android.intent.category.LAUNCHER"@]
    &&& i.flags == FLAG_ACTIVITY_NEW_TASK
    &&& i.extras is None
}

/// A MAIN/LAUNCHER intent for the app's entry activity.
pub fn main_intent(package: &str, activity: &str) -> (i: Intent)
    ensures
        main_intent_spec(i, package@, activity@),
{
    let i = Intent {
        action: Some("android.intent.action.MAIN".to_owned()),
        data: None,
        package: None,
        component: Some((package.to_owned(), activity.to_owned())),
        categories: vec!["android.intent.category.LAUNCHER".to_owned()],
        flags: FLAG_ACTIVITY_NEW_TASK,
        extras: None,
    };
    proof {
        assert(names(i.categories@) =~= seq!["android.intent.category.LAUNCHER"@]);
    }
    i
}

// ---------------------------------------------------------------------------
// Content providers
// ---------------------------------------------------------------------------

/// The `ProviderInfo` of a content provider the service hands out.
pub struct ProviderInfo {
    pub name: String,
    pub package_name: String,
    pub process_name: String,
    pub authority: String,
    pub exported: bool,
    pub grant_uri_permissions: bool,
    pub multiprocess: bool,
    pub init_order: i32,
    pub syncable: bool,
}

pub open spec fn provider_spec(name: Seq<char>) -> Option<(Seq<char>, Seq<char>, Seq<char>, Seq<char>)> {
    if name == "settings"@ {
        Some(("com.android.providers.settings.SettingsProvider"@, "com.android.providers.settings"@, "system"@, "settings"@))
    } else if name == "media"@ {
        Some(("com.android.providers.media.MediaProvider"@, "com.android.providers.media.module"@, "android.process.media"@, "media"@))
    } else if name == "com.android.calendar"@ {
        Some(("com.android.providers.calendar.CalendarProvider2"@, "com.android.providers.calendar"@, "android.process.calendar"@, "com.android.calendar"@))
    } else {
        None
    }
}

fn provider(name: &str, package_name: &str, process_name: &str, authority: &str) -> (p: ProviderInfo)
    ensures
        p.name@ == name@ && p.package_name@ == package_name@ && p.process_name@ == process_name@ && p.authority@ == authority@,
        p.exported && p.grant_uri_permissions && !p.multiprocess && p.init_order == 100 && !p.syncable,
{
    ProviderInfo {
        name: name.to_owned(),
        package_name: package_name.to_owned(),
        process_name: process_name.to_owned(),
        authority: authority.to_owned(),
        exported: true,
        grant_uri_permissions: true,
        multiprocess: false,
        init_order: 100,
        syncable: false,
    }
}

/// The provider `getContentProvider` hands out for authority `name`:
/// settings, media and calendar; none for any other.
pub fn provider_for(name: &str) -> (r: Option<ProviderInfo>)
    ensures
        match r {
            Some(p) => provider_spec(name@) == Some((p.name@, p.package_name@, p.process_name@, p.authority@))
                && p.exported && p.grant_uri_permissions && !p.multiprocess && p.init_order == 100 && !p.syncable,
            None => provider_spec(name@) is None,
        },
{
    let n = chars_of(name);
    if is(n.as_slice(), "settings") {
        Some(provider("com.android.providers.settings.SettingsProvider", "com.android.providers.settings", "system", "settings"))
    } else if is(n.as_slice(), "media") {
        Some(provider("com.android.providers.media.MediaProvider", "com.android.providers.media.module", "android.process.media", "media"))
    } else if is(n.as_slice(), "com.android.calendar") {
        Some(provider("com.android.providers.calendar.CalendarProvider2", "com.android.providers.calendar", "android.process.calendar", "com.android.calendar"))
    } else {
        None
    }
}

// ---------------------------------------------------------------------------
// Running services
// ---------------------------------------------------------------------------

/// The app's started services: class name and the token the service was
/// created with.
pub struct RunningServices {
    pub entries: Vec<(String, u64)>,
}

pub open spec fn services_view(e: Seq<(String, u64)>) -> Seq<(Seq<char>, u64)> {
    e.map_values(|p: (String, u64)| (p.0@, p.1))
}

/// The token of the first entry for `class`.
pub open spec fn token_of(e: Seq<(Seq<char>, u64)>, class: Seq<char>) -> Option<u64> {
    if exists|i: int| 0 <= i < e.len() && e[i].0 == class && forall|j: int| 0 <= j < i ==> (#[trigger] e[j]).0 != class {
        let i = choose|i: int| 0 <= i < e.len() && e[i].0 == class && forall|j: int| 0 <= j < i ==> (#[trigger] e[j]).0 != class;
        Some(e[i].1)
    } else {
        None
    }
}

/// The entries whose token is not `token`, in order.
pub open spec fn without_token(e: Seq<(Seq<char>, u64)>, token: u64) -> Seq<(Seq<char>, u64)>
    decreases e.len(),
{
    if e.len() == 0 {
        e
    } else if e.last().1 == token {
        without_token(e.drop_last(), token)
    } else {
        without_token(e.drop_last(), token).push(e.last())
    }
}

impl RunningServices {
    pub open spec fn view(&self) -> Seq<(Seq<char>, u64)> {
        services_view(self.entries@)
    }

    /// A start of service `class`: its token, and whether it is new. A new
    /// service is recorded with `fresh`, the token made for it.
    pub fn start(&mut self, class: &str, fresh: u64) -> (r: (u64, bool))
        ensures
            match token_of(old(self)@, class@) {
                Some(t) => r == (t, false) && final(self)@ == old(self)@,
                None => r == (fresh, true) && final(self)@ == old(self)@.push((class@, fresh)),
            },
    {
        let c = chars_of(class);
        let mut i: usize = 0;
        while i < self.entries.len()
            invariant
                i <= self.entries@.len(),
                c@ == class@,
                forall|j: int| 0 <= j < i ==> (#[trigger] self@[j]).0 != class@,
            decreases self.entries.len() - i,
        {
            let n = chars_of(self.entries[i].0.as_str());
            if same(n.as_slice(), c.as_slice()) {
                proof {
                    let e = self@;
                    assert(e[i as int].0 == class@);
                    let k = choose|k: int| 0 <= k < e.len() && e[k].0 == class@ && forall|j: int| 0 <= j < k ==> (#[trigger] e[j]).0 != class@;
                    assert(k == i as int) by {
                        if k < i {
                        } else if k > i {
                            assert(e[i as int].0 == class@);
                        }
                    }
                }
                return (self.entries[i].1, false);
            }
            i = i + 1;
        }
        let ghost before = self@;
        self.entries.push((class.to_owned(), fresh));
        proof {
            assert(self@ =~= before.push((class@, fresh)));
        }
        (fresh, true)
    }

    /// A stop through `token`: every entry with that token goes.
    pub fn stop(&mut self, token: u64)
        ensures
            final(self)@ == without_token(old(self)@, token),
    {
        let ghost es = self@;
        let mut kept: Vec<(String, u64)> = Vec::new();
        let mut i: usize = 0;
        proof {
            assert(es.take(0) =~= Seq::<(Seq<char>, u64)>::empty());
        }
        while i < self.entries.len()
            invariant
                i <= self.entries@.len(),
                es == self@,
                services_view(kept@) == without_token(es.take(i as int), token),
            decreases self.entries.len() - i,
        {
            proof {
                assert(es.take(i + 1).drop_last() =~= es.take(i as int));
                assert(es.take(i + 1).last() == es[i as int]);
            }
            if self.entries[i].1 != token {
                let ghost before = kept@;
                kept.push((self.entries[i].0.clone(), self.entries[i].1));
                proof {
                    assert(services_view(kept@) =~= services_view(before).push(es[i as int]));
                }
            }
            i = i + 1;
        }
        proof {
            assert(es.take(es.len() as int) =~= es);
        }
        self.entries = kept;
    }
}

/// After a stop through a token no entry holds it.
pub proof fn law_stop_forgets_token(e: Seq<(Seq<char>, u64)>, token: u64)
    ensures
        forall|i: int| 0 <= i < without_token(e, token).len() ==> (#[trigger] without_token(e, token)[i]).1 != token,
    decreases e.len(),
{
    if e.len() > 0 {
        law_stop_forgets_token(e.drop_last(), token);
        let w = without_token(e, token);
        let w0 = without_token(e.drop_last(), token);
        assert forall|i: int| 0 <= i < w.len() implies (#[trigger] w[i]).1 != token by {
            if i < w0.len() {
                assert(w[i] == w0[i]);
            }
        }
    }
}

proof fn lemma_first_class(e: Seq<(Seq<char>, u64)>, class: Seq<char>, j: int)
    requires
        0 <= j < e.len(),
        e[j].0 == class,
    ensures
        exists|i: int| 0 <= i < e.len() && e[i].0 == class && forall|k: int| 0 <= k < i ==> (#[trigger] e[k]).0 != class,
    decreases j,
{
    if exists|k: int| 0 <= k < j && e[k].0 == class {
        let k = choose|k: int| 0 <= k < j && e[k].0 == class;
        lemma_first_class(e, class, k);
    } else {
        assert(forall|k: int| 0 <= k < j ==> (#[trigger] e[k]).0 != class);
    }
}

/// A service that is not running is recorded by its first start, and a
/// second start of it finds that token: it is not new again.
pub proof fn law_second_start_not_new(e: Seq<(Seq<char>, u64)>, class: Seq<char>, fresh: u64)
    requires
        token_of(e, class) is None,
    ensures
        token_of(e.push((class, fresh)), class) == Some(fresh),
{
    let e2 = e.push((class, fresh));
    let n = e.len() as int;
    assert forall|j: int| 0 <= j < n implies (#[trigger] e2[j]).0 != class by {
        assert(e2[j] == e[j]);
        if e[j].0 == class {
            lemma_first_class(e, class, j);
        }
    }
    assert(e2[n].0 == class);
    let i = choose|i: int| 0 <= i < e2.len() && e2[i].0 == class && forall|k: int| 0 <= k < i ==> (#[trigger] e2[k]).0 != class;
    assert(i == n) by {
        if i < n {
        }
    }
}

// ---------------------------------------------------------------------------
// The activity manager
// ---------------------------------------------------------------------------

/// The `android.app.IActivityManager` binder service: the task, the started
/// services, the start id the next service start gets, and the deep link of
/// the first launch.
pub struct ActivityService {
    pub task: ActivityTask,
    pub services: RunningServices,
    pub next_service_start_id: i32,
    pub launch_url: Option<String>,
}

pub open spec fn activity_answer(name: Seq<char>) -> Answer {
    if name == "attachApplication"@ {
        Answer::Payload(Payload::AttachApplication)
    } else if name == "finishAttachApplication"@ {
        Answer::Payload(Payload::LaunchMain)
    } else if name == "getIntentSender"@ || name == "getIntentSenderWithFeature"@ {
        Answer::Payload(Payload::IntentSender)
    } else if name == "getContentProvider"@ || name == "getContentProviderExternal"@ {
        Answer::Payload(Payload::ContentProviderOf)
    } else if name == "refContentProvider"@ {
        Answer::Bool(false)
    } else if name == "removeContentProvider"@ || name == "removeContentProviderExternal"@ || name == "removeContentProviderExternalAsUser"@ || name == "frozenBinderTransactionDetected"@ {
        Answer::Silent
    } else if name == "registerReceiverWithFeature"@ || name == "registerReceiver"@ {
        Answer::TypedNone
    } else if name == "unregisterReceiver"@ || name == "handleApplicationCrash"@ || name == "serviceDoneExecuting"@ || name == "cancelIntentSender"@ {
        Answer::Done
    } else if name == "handleApplicationWtf"@ {
        Answer::Bool(false)
    } else if name == "startService"@ {
        Answer::Payload(Payload::ServiceStarted)
    } else if name == "stopServiceToken"@ {
        Answer::Payload(Payload::ServiceStopped)
    } else {
        Answer::Refused
    }
}

/// The intent a granted start request sends: its action and data, for the
/// app's own component, as a new task.
pub open spec fn start_intent_spec(i: Intent, app: AppModel, target: Seq<char>, t: LaunchTarget) -> bool {
    &&& opt_view(i.action) == opt_view(t.action)
    &&& opt_view(i.data) == opt_view(t.data)
    &&& i.package is None
    &&& i.component matches Some((p, k)) && p@ == app.package@ && k@ == target
    &&& names(i.categories@) == names(t.categories@)
    &&& extras_view(i.extras) == extras_view(t.extras)
    &&& i.flags == FLAG_ACTIVITY_NEW_TASK
}

/// The start id after `id`, as a 32-bit counter that wraps.
pub open spec fn next_start_id(id: i32) -> i32 {
    if id == i32::MAX { i32::MIN } else { (id + 1) as i32 }
}

impl ActivityService {
    /// How `IActivityManager` answers `name`; the one-way calls write
    /// nothing.
    pub fn answer(&self, name: &str) -> (a: Answer)
        ensures
            a == activity_answer(name@),
    {
        let n = chars_of(name);
        let n = n.as_slice();
        if is(n, "attachApplication") {
            Answer::Payload(Payload::AttachApplication)
        } else if is(n, "finishAttachApplication") {
            Answer::Payload(Payload::LaunchMain)
        } else if is(n, "getIntentSender") || is(n, "getIntentSenderWithFeature") {
            Answer::Payload(Payload::IntentSender)
        } else if is(n, "getContentProvider") || is(n, "getContentProviderExternal") {
            Answer::Payload(Payload::ContentProviderOf)
        } else if is(n, "refContentProvider") {
            Answer::Bool(false)
        } else if is(n, "removeContentProvider") || is(n, "removeContentProviderExternal") || is(n, "removeContentProviderExternalAsUser") || is(n, "frozenBinderTransactionDetected") {
            Answer::Silent
        } else if is(n, "registerReceiverWithFeature") || is(n, "registerReceiver") {
            Answer::TypedNone
        } else if is(n, "unregisterReceiver") || is(n, "handleApplicationCrash") || is(n, "serviceDoneExecuting") || is(n, "cancelIntentSender") {
            Answer::Done
        } else if is(n, "handleApplicationWtf") {
            Answer::Bool(false)
        } else if is(n, "startService") {
            Answer::Payload(Payload::ServiceStarted)
        } else if is(n, "stopServiceToken") {
            Answer::Payload(Payload::ServiceStopped)
        } else {
            Answer::Refused
        }
    }

    /// `startActivity` into the running app: the activity the request lands
    /// on goes on top of the task, with the intent it is sent; a refused
    /// request leaves the task as it was.
    pub fn start_activity(&mut self, app: &AppModel, pkg: Option<String>, class: Option<String>, action: Option<String>, data: Option<String>) -> (r: Result<(String, Intent), StartRefusal>)
        ensures
            match r {
                Ok((t, i)) => start_spec(*app, old(self).task@, opt_view(pkg), opt_view(class), opt_view(action), opt_view(data)) == Ok::<Seq<char>, StartRefusal>(t@)
                    && final(self).task@ == old(self).task@.push(t@)
                    && opt_view(i.action) == opt_view(action)
                    && opt_view(i.data) == opt_view(data)
                    && i.package is None
                    && (i.component matches Some((p, k)) && p@ == app.package@ && k@ == t@)
                    && i.categories@.len() == 0
                    && i.extras is None
                    && i.flags == FLAG_ACTIVITY_NEW_TASK,
                Err(e) => start_spec(*app, old(self).task@, opt_view(pkg), opt_view(class), opt_view(action), opt_view(data)) == Err::<Seq<char>, StartRefusal>(e)
                    && final(self).task@ == old(self).task@,
            },
            distinct(old(self).task@) ==> distinct(final(self).task@),
            final(self).services@ == old(self).services@,
            final(self).next_service_start_id == old(self).next_service_start_id,
    {
        let target = LaunchTarget { package: pkg, class, action, data, categories: Vec::new(), extras: None, intent_type: 0 };
        let r = self.start_activity_target(app, target);
        proof {
            if r is Ok {
                let i = r->Ok_0.1;
                assert(names(i.categories@).len() == i.categories@.len());
            }
        }
        r
    }

    /// A start of the activity `target` names (a `startActivity` intent or
    /// a fired `PendingIntent`): the activity it lands on goes on top of the
    /// task, with an intent carrying the target's action, data, categories
    /// and extras; a refused start leaves the task as it was.
    pub fn start_activity_target(&mut self, app: &AppModel, target: LaunchTarget) -> (r: Result<(String, Intent), StartRefusal>)
        ensures
            match r {
                Ok((t, i)) => start_spec(*app, old(self).task@, opt_view(target.package), opt_view(target.class), opt_view(target.action), opt_view(target.data)) == Ok::<Seq<char>, StartRefusal>(t@)
                    && final(self).task@ == old(self).task@.push(t@)
                    && start_intent_spec(i, *app, t@, target),
                Err(e) => start_spec(*app, old(self).task@, opt_view(target.package), opt_view(target.class), opt_view(target.action), opt_view(target.data)) == Err::<Seq<char>, StartRefusal>(e)
                    && final(self).task@ == old(self).task@,
            },
            distinct(old(self).task@) ==> distinct(final(self).task@),
            final(self).services@ == old(self).services@,
            final(self).next_service_start_id == old(self).next_service_start_id,
    {
        match self.task.start(app, &target.package, &target.class, &target.action, &target.data) {
            Err(e) => Err(e),
            Ok(t) => {
                let LaunchTarget { action, data, categories, extras, .. } = target;
                let intent = Intent {
                    action,
                    data,
                    package: None,
                    component: Some((app.package.clone(), t.clone())),
                    categories,
                    flags: FLAG_ACTIVITY_NEW_TASK,
                    extras,
                };
                Ok((t, intent))
            },
        }
    }

    /// `finishAttachApplication`: the first launch, following the deep link
    /// when there is one.
    pub fn finish_attach(&mut self, app: &AppModel) -> (r: Option<(String, Intent)>)
        ensures
            match r {
                Some((t, intent)) => launch_spec(*app, opt_view(old(self).launch_url)) == Some(t@)
                    && final(self).task@ == old(self).task@.push(t@)
                    && intent_spec(intent, *app, opt_view(old(self).launch_url), t@),
                None => launch_spec(*app, opt_view(old(self).launch_url)) is None && final(self).task@ == old(self).task@,
            },
            final(self).services@ == old(self).services@,
            final(self).next_service_start_id == old(self).next_service_start_id,
            opt_view(final(self).launch_url) == opt_view(old(self).launch_url),
    {
        self.task.launch(app, &self.launch_url)
    }

    /// `startService` of `class`: its token (`fresh` for a service not yet
    /// running), whether it is new, and the start id the service args
    /// carry; the start id counter moves on by one.
    pub fn start_service(&mut self, class: &str, fresh: u64) -> (r: (u64, bool, i32))
        ensures
            match token_of(old(self).services@, class@) {
                Some(t) => (r.0, r.1) == (t, false) && final(self).services@ == old(self).services@,
                None => (r.0, r.1) == (fresh, true) && final(self).services@ == old(self).services@.push((class@, fresh)),
            },
            r.2 == old(self).next_service_start_id,
            final(self).next_service_start_id == next_start_id(old(self).next_service_start_id),
            final(self).task@ == old(self).task@,
    {
        let (token, is_new) = self.services.start(class, fresh);
        let start_id = self.next_service_start_id;
        self.next_service_start_id = start_id.wrapping_add(1);
        (token, is_new, start_id)
    }

    /// `stopServiceToken`: the services started under `token` stop.
    pub fn stop_service(&mut self, token: u64)
        ensures
            final(self).services@ == without_token(old(self).services@, token),
            final(self).task@ == old(self).task@,
            final(self).next_service_start_id == old(self).next_service_start_id,
    {
        self.services.stop(token);
    }
}

// ---------------------------------------------------------------------------
// The activity task manager and documents
// ---------------------------------------------------------------------------

/// The `android.app.IActivityTaskManager` binder service.
pub struct ActivityTaskService;

pub open spec fn activity_task_answer(name: Seq<char>) -> Answer {
    if name == "getActivityClientController"@ {
        Answer::Payload(Payload::ClientController)
    } else if name == "startActivity"@ || name == "startActivityWithFeature"@ || name == "startActivityAsUser"@ {
        Answer::Int(0)
    } else if name == "supportsMultiWindow"@ {
        Answer::Bool(true)
    } else if name == "supportsSplitScreenMultiWindow"@ || name == "supportsLocalVoiceInteraction"@ {
        Answer::Bool(false)
    } else {
        Answer::Refused
    }
}

/// An intent with this action asks the user for a document.
pub open spec fn document_action(action: Option<Seq<char>>) -> bool {
    action == Some("android.intent.action.OPEN_DOCUMENT"@) || action == Some("android.intent.action.GET_CONTENT"@)
}

impl ActivityTaskService {
    /// How `IActivityTaskManager` answers `name`: a start reports
    /// `START_SUCCESS` (0) whatever became of it.
    pub fn answer(&self, name: &str) -> (a: Answer)
        ensures
            a == activity_task_answer(name@),
    {
        let n = chars_of(name);
        let n = n.as_slice();
        if is(n, "getActivityClientController") {
            Answer::Payload(Payload::ClientController)
        } else if is(n, "startActivity") || is(n, "startActivityWithFeature") || is(n, "startActivityAsUser") {
            Answer::Int(0)
        } else if is(n, "supportsMultiWindow") {
            Answer::Bool(true)
        } else if is(n, "supportsSplitScreenMultiWindow") || is(n, "supportsLocalVoiceInteraction") {
            Answer::Bool(false)
        } else {
            Answer::Refused
        }
    }

    /// Whether a started intent with `action` goes to the document picker
    /// rather than to the app's activities.
    pub fn is_document_request(&self, action: &Option<String>) -> (r: bool)
        ensures
            r == document_action(opt_view(*action)),
    {
        match action {
            Some(a) => {
                let n = chars_of(a.as_str());
                is(n.as_slice(), "android.intent.action.OPEN_DOCUMENT") || is(n.as_slice(), "android.intent.action.GET_CONTENT")
            },
            None => false,
        }
    }
}

/// `Activity.RESULT_OK` and `RESULT_CANCELED`.
pub const RESULT_OK: i32 = -1;
pub const RESULT_CANCELED: i32 = 0;

/// `Intent.FLAG_GRANT_READ_URI_PERMISSION`.
pub const FLAG_GRANT_READ_URI_PERMISSION: i32 = 1;

/// The file the picker printed: its output without surrounding white
/// space, when anything is left.
pub open spec fn picked_spec(output: Seq<char>) -> Option<Seq<char>> {
    if trim(output).len() > 0 { Some(trim(output)) } else { None }
}

/// The file the document picker chose, from what it printed.
pub fn picked_path(output: &str) -> (r: Option<String>)
    ensures
        opt_view(r) == picked_spec(output@),
{
    let c = chars_of(output);
    let t = trimmed(c.as_slice());
    if t.len() > 0 {
        Some(string_of(t.as_slice()))
    } else {
        None
    }
}

/// The URI of audio item `id`.
pub open spec fn audio_uri_spec(id: i64) -> Seq<char> {
    "content://media/external/audio/media/"@ + signed_decimal(id as int)
}

/// What an open-document request reports back: with the media item the
/// chosen file became, `RESULT_OK` and an intent granting read access to
/// its URI; without one, `RESULT_CANCELED` and no intent.
pub fn document_result(item: Option<i64>) -> (r: (i32, Option<Intent>))
    ensures
        match item {
            Some(id) => r.0 == RESULT_OK && (r.1 matches Some(i)
                && i.action is None
                && opt_view(i.data) == Some(audio_uri_spec(id))
                && i.package is None
                && i.component is None
                && i.categories@.len() == 0
                && i.flags == FLAG_GRANT_READ_URI_PERMISSION
                && i.extras is None),
            None => r.0 == RESULT_CANCELED && r.1 is None,
        },
{
    match item {
        Some(id) => {
            let d = signed_text(id);
            let uri = concat("content://media/external/audio/media/", d.as_str());
            (RESULT_OK, Some(Intent {
                action: None,
                data: Some(uri),
                package: None,
                component: None,
                categories: Vec::new(),
                flags: FLAG_GRANT_READ_URI_PERMISSION,
                extras: None,
            }))
        },
        None => (RESULT_CANCELED, None),
    }
}

} // verus!
