//! The notification shade: the notifications the app has posted and not
//! cancelled, each under a shade id that stays the same when the app
//! re-posts it, and what the widget's commands do to them.
use vstd::prelude::*;
use crate::activity::names;
use crate::alarm::{target_view, LaunchTarget};
use crate::text::{chars_of, is, same};

verus! {

/// The identity Android gives a notification: package, tag and id.
pub struct NoteKey {
    pub package: String,
    pub tag: Option<String>,
    pub id: i32,
}

/// One notification in the shade.
pub struct Note {
    pub id: u64,
    pub app: String,
    pub app_name: String,
    pub title: String,
    pub body: String,
    pub ongoing: bool,
    pub ts: i64,
    pub key: NoteKey,
    /// What a tap launches.
    pub target: Option<LaunchTarget>,
}

pub open spec fn tag_view(t: Option<String>) -> Option<Seq<char>> {
    match t {
        Some(s) => Some(s@),
        None => None,
    }
}

pub open spec fn key_view(k: NoteKey) -> (Seq<char>, Option<Seq<char>>, i32) {
    (k.package@, tag_view(k.tag), k.id)
}

/// The shade's notifications, in posting order, and the next shade id.
pub struct Shade {
    pub notes: Vec<Note>,
    pub next_id: u64,
}

/// Shade ids are below the next one and unique; no two notes share a key.
pub open spec fn shade_ok(notes: Seq<Note>, next_id: u64) -> bool {
    &&& forall|i: int| 0 <= i < notes.len() ==> (#[trigger] notes[i]).id < next_id
    &&& forall|i: int, j: int| 0 <= i < j < notes.len() ==> (#[trigger] notes[i]).id != (#[trigger] notes[j]).id
    &&& forall|i: int, j: int| 0 <= i < j < notes.len() ==> key_view((#[trigger] notes[i]).key) != key_view((#[trigger] notes[j]).key)
}

/// `i` is the note with key `k`.
pub open spec fn key_at(notes: Seq<Note>, k: (Seq<char>, Option<Seq<char>>, i32), i: int) -> bool {
    0 <= i < notes.len() && key_view(notes[i].key) == k && forall|j: int| 0 <= j < i ==> key_view((#[trigger] notes[j]).key) != k
}

/// `i` is the note with shade id `id`.
pub open spec fn id_at(notes: Seq<Note>, id: u64, i: int) -> bool {
    0 <= i < notes.len() && notes[i].id == id && forall|j: int| 0 <= j < i ==> (#[trigger] notes[j]).id != id
}

/// The notes of other packages, in order.
pub open spec fn without_app(notes: Seq<Note>, app: Seq<char>) -> Seq<Note>
    decreases notes.len(),
{
    if notes.len() == 0 {
        notes
    } else if notes.last().key.package@ == app {
        without_app(notes.drop_last(), app)
    } else {
        without_app(notes.drop_last(), app).push(notes.last())
    }
}

/// The shade ids of the notes of package `app`, in order.
pub open spec fn ids_of_app(notes: Seq<Note>, app: Seq<char>) -> Seq<u64>
    decreases notes.len(),
{
    if notes.len() == 0 {
        Seq::empty()
    } else if notes.last().key.package@ == app {
        ids_of_app(notes.drop_last(), app).push(notes.last().id)
    } else {
        ids_of_app(notes.drop_last(), app)
    }
}

fn same_text(a: &String, b: &String) -> (r: bool)
    ensures
        r == (a@ == b@),
{
    let x = chars_of(a.as_str());
    let y = chars_of(b.as_str());
    same(x.as_slice(), y.as_slice())
}

fn same_key(a: &NoteKey, b: &NoteKey) -> (r: bool)
    ensures
        r == (key_view(*a) == key_view(*b)),
{
    if a.id != b.id || !same_text(&a.package, &b.package) {
        return false;
    }
    match (&a.tag, &b.tag) {
        (Some(x), Some(y)) => same_text(x, y),
        (None, None) => true,
        _ => false,
    }
}

fn clone_text_opt(o: &Option<String>) -> (r: Option<String>)
    ensures
        r == *o,
{
    match o {
        Some(s) => Some(s.clone()),
        None => None,
    }
}

/// A copy of a launch target.
pub fn copy_target(t: &LaunchTarget) -> (r: LaunchTarget)
    ensures
        target_view(r) == target_view(*t),
{
    let mut categories: Vec<String> = Vec::new();
    let mut i: usize = 0;
    while i < t.categories.len()
        invariant
            i <= t.categories@.len(),
            categories@.len() == i,
            names(categories@) == names(t.categories@.take(i as int)),
        decreases t.categories.len() - i,
    {
        let c = t.categories[i].clone();
        let ghost before = categories@;
        categories.push(c);
        proof {
            assert(c@ == t.categories@[i as int]@);
            assert(t.categories@.take(i + 1) =~= t.categories@.take(i as int).push(t.categories@[i as int]));
            assert(categories@ =~= before.push(c));
            let m1 = names(categories@);
            let m2 = names(t.categories@.take(i + 1));
            let m0 = names(before);
            assert forall|j: int| 0 <= j < m1.len() implies m1[j] == m2[j] by {
                if j < i {
                    assert(m1[j] == categories@[j]@);
                    assert(categories@[j] == before[j]);
                    assert(m0[j] == before[j]@);
                } else {
                    assert(m1[j] == c@);
                }
            }
            assert(m1 =~= m2);
        }
        i = i + 1;
    }
    proof {
        assert(t.categories@.take(i as int) =~= t.categories@);
    }
    let extras = match &t.extras {
        Some(e) => {
            let mut v: Vec<u8> = Vec::new();
            let mut k: usize = 0;
            while k < e.len()
                invariant
                    k <= e@.len(),
                    v@ == e@.take(k as int),
                decreases e.len() - k,
            {
                v.push(e[k]);
                proof {
                    assert(e@.take(k + 1) =~= e@.take(k as int).push(e@[k as int]));
                }
                k = k + 1;
            }
            proof {
                assert(e@.take(k as int) =~= e@);
            }
            Some(v)
        },
        None => None,
    };
    LaunchTarget {
        package: clone_text_opt(&t.package),
        class: clone_text_opt(&t.class),
        action: clone_text_opt(&t.action),
        data: clone_text_opt(&t.data),
        categories,
        extras,
        intent_type: t.intent_type,
    }
}

/// A copy of a note's key.
pub fn copy_key(k: &NoteKey) -> (r: NoteKey)
    ensures
        r == *k,
{
    NoteKey { package: k.package.clone(), tag: clone_text_opt(&k.tag), id: k.id }
}

/// What a widget command asks.
pub enum ShadeCommand {
    Invoke(u64),
    Dismiss(u64),
    DismissAll,
    Unknown,
}

/// The command a widget line names by its `cmd` and `id` fields: `invoke`
/// and `dismiss` need an id (without one the line asks nothing),
/// `dismissAll` takes none, and any other command (or none) is unknown.
pub open spec fn command_spec(cmd: Option<Seq<char>>, id: Option<u64>) -> Option<ShadeCommand> {
    let c = match cmd { Some(c) => c, None => Seq::<char>::empty() };
    if c == "invoke"@ {
        match id { Some(i) => Some(ShadeCommand::Invoke(i)), None => None }
    } else if c == "dismiss"@ {
        match id { Some(i) => Some(ShadeCommand::Dismiss(i)), None => None }
    } else if c == "dismissAll"@ {
        Some(ShadeCommand::DismissAll)
    } else {
        Some(ShadeCommand::Unknown)
    }
}

/// The command of a widget line whose `cmd` field is `cmd` and whose `id`
/// field is `id`.
pub fn shade_command(cmd: Option<&str>, id: Option<u64>) -> (r: Option<ShadeCommand>)
    ensures
        r == command_spec(match cmd { Some(c) => Some(c@), None => None }, id),
{
    let c = match cmd {
        Some(c) => chars_of(c),
        None => Vec::new(),
    };
    let c = c.as_slice();
    if is(c, "invoke") {
        match id { Some(i) => Some(ShadeCommand::Invoke(i)), None => None }
    } else if is(c, "dismiss") {
        match id { Some(i) => Some(ShadeCommand::Dismiss(i)), None => None }
    } else if is(c, "dismissAll") {
        Some(ShadeCommand::DismissAll)
    } else {
        Some(ShadeCommand::Unknown)
    }
}

impl Shade {
    pub fn new() -> (s: Shade)
        ensures
            s.notes@.len() == 0,
            s.next_id == 1,
            shade_ok(s.notes@, s.next_id),
    {
        Shade { notes: Vec::new(), next_id: 1 }
    }

    fn find_key(&self, key: &NoteKey) -> (r: Option<usize>)
        ensures
            match r {
                Some(i) => key_at(self.notes@, key_view(*key), i as int),
                None => forall|j: int| 0 <= j < self.notes@.len() ==> key_view((#[trigger] self.notes@[j]).key) != key_view(*key),
            },
    {
        let mut i: usize = 0;
        while i < self.notes.len()
            invariant
                i <= self.notes@.len(),
                forall|j: int| 0 <= j < i ==> key_view((#[trigger] self.notes@[j]).key) != key_view(*key),
            decreases self.notes.len() - i,
        {
            if same_key(&self.notes[i].key, key) {
                return Some(i);
            }
            i = i + 1;
        }
        None
    }

    fn find_id(&self, id: u64) -> (r: Option<usize>)
        ensures
            match r {
                Some(i) => id_at(self.notes@, id, i as int),
                None => forall|j: int| 0 <= j < self.notes@.len() ==> (#[trigger] self.notes@[j]).id != id,
            },
    {
        let mut i: usize = 0;
        while i < self.notes.len()
            invariant
                i <= self.notes@.len(),
                forall|j: int| 0 <= j < i ==> (#[trigger] self.notes@[j]).id != id,
            decreases self.notes.len() - i,
        {
            if self.notes[i].id == id {
                return Some(i);
            }
            i = i + 1;
        }
        None
    }

    /// Posts a notification. A re-post of a key already in the shade
    /// replaces that note in place and keeps its shade id; a new key gets
    /// the next shade id at the end. Returns the note's shade id.
    pub fn post(
        &mut self,
        key: NoteKey,
        app: String,
        app_name: String,
        title: String,
        body: String,
        ongoing: bool,
        ts: i64,
        target: Option<LaunchTarget>,
    ) -> (id: u64)
        requires
            shade_ok(old(self).notes@, old(self).next_id),
            old(self).next_id < u64::MAX,
        ensures
            shade_ok(final(self).notes@, final(self).next_id),
            (exists|i: int| key_at(old(self).notes@, key_view(key), i))
                ==> {
                    let i = choose|i: int| key_at(old(self).notes@, key_view(key), i);
                    &&& id == old(self).notes@[i].id
                    &&& final(self).notes@ == old(self).notes@.update(i, Note { id, app, app_name, title, body, ongoing, ts, key, target })
                    &&& final(self).next_id == old(self).next_id
                },
            !(exists|i: int| key_at(old(self).notes@, key_view(key), i))
                ==> {
                    &&& id == old(self).next_id
                    &&& final(self).notes@ == old(self).notes@.push(Note { id, app, app_name, title, body, ongoing, ts, key, target })
                    &&& final(self).next_id == old(self).next_id + 1
                },
    {
        match self.find_key(&key) {
            Some(i) => {
                let id = self.notes[i].id;
                proof {
                    let k = choose|k: int| key_at(old(self).notes@, key_view(key), k);
                    assert(k == i as int) by {
                        if k < i {
                        } else if k > i {
                            assert(key_view(self.notes@[i as int].key) == key_view(key));
                        }
                    }
                }
                let note = Note { id, app, app_name, title, body, ongoing, ts, key, target };
                self.notes.set(i, note);
                id
            },
            None => {
                let id = self.next_id;
                self.next_id = id + 1;
                let note = Note { id, app, app_name, title, body, ongoing, ts, key, target };
                self.notes.push(note);
                proof {
                    assert(forall|k: int| !key_at(old(self).notes@, key_view(note.key), k));
                }
                id
            },
        }
    }

    /// The app cancelled the notification `key`: its shade id, when it was
    /// in the shade.
    pub fn remove(&mut self, key: &NoteKey) -> (r: Option<u64>)
        requires
            shade_ok(old(self).notes@, old(self).next_id),
        ensures
            shade_ok(final(self).notes@, final(self).next_id),
            final(self).next_id == old(self).next_id,
            match r {
                Some(id) => exists|i: int| key_at(old(self).notes@, key_view(*key), i)
                    && old(self).notes@[i].id == id && final(self).notes@ == old(self).notes@.remove(i),
                None => final(self).notes@ == old(self).notes@
                    && forall|j: int| 0 <= j < old(self).notes@.len() ==> key_view((#[trigger] old(self).notes@[j]).key) != key_view(*key),
            },
            forall|j: int| 0 <= j < final(self).notes@.len() ==> key_view((#[trigger] final(self).notes@[j]).key) != key_view(*key),
    {
        match self.find_key(key) {
            Some(i) => {
                let n = self.notes.remove(i);
                proof {
                    let before = old(self).notes@;
                    assert forall|j: int| 0 <= j < self.notes@.len() implies key_view((#[trigger] self.notes@[j]).key) != key_view(*key) by {
                        if j < i {
                        } else {
                            assert(self.notes@[j] == before[j + 1]);
                        }
                    }
                    assert forall|a: int, b: int| 0 <= a < b < self.notes@.len() implies (#[trigger] self.notes@[a]).id != (#[trigger] self.notes@[b]).id
                        && key_view(self.notes@[a].key) != key_view(self.notes@[b].key) by {
                        let a2 = if a < i { a } else { a + 1 };
                        let b2 = if b < i { b } else { b + 1 };
                        assert(self.notes@[a] == before[a2] && self.notes@[b] == before[b2]);
                    }
                    assert forall|j: int| 0 <= j < self.notes@.len() implies (#[trigger] self.notes@[j]).id < self.next_id by {
                        let j2 = if j < i { j } else { j + 1 };
                        assert(self.notes@[j] == before[j2]);
                    }
                }
                Some(n.id)
            },
            None => None,
        }
    }

    /// The app cancelled all its notifications: the shade ids that went,
    /// in order.
    pub fn remove_all(&mut self, app: &str) -> (r: Vec<u64>)
        requires
            shade_ok(old(self).notes@, old(self).next_id),
        ensures
            r@ == ids_of_app(old(self).notes@, app@),
            final(self).notes@ == without_app(old(self).notes@, app@),
            final(self).next_id == old(self).next_id,
    {
        let a = chars_of(app);
        let ghost ns = self.notes@;
        let mut notes: Vec<Note> = Vec::new();
        std::mem::swap(&mut notes, &mut self.notes);
        let mut kept: Vec<Note> = Vec::new();
        let mut gone: Vec<u64> = Vec::new();
        proof {
            assert(ns.take(0) =~= Seq::<Note>::empty());
            assert(ns.skip(0) =~= ns);
        }
        while notes.len() > 0
            invariant
                a@ == app@,
                notes@.len() <= ns.len(),
                notes@ == ns.skip(ns.len() - notes@.len()),
                kept@ == without_app(ns.take(ns.len() - notes@.len()), app@),
                gone@ == ids_of_app(ns.take(ns.len() - notes@.len()), app@),
            decreases notes.len(),
        {
            let ghost c = ns.len() - notes@.len();
            let n = notes.remove(0);
            proof {
                assert(n == ns[c]);
                assert(ns.take(c + 1).drop_last() =~= ns.take(c));
                assert(ns.take(c + 1).last() == ns[c]);
                assert(notes@ =~= ns.skip(c + 1));
            }
            let p = chars_of(n.key.package.as_str());
            if same(p.as_slice(), a.as_slice()) {
                gone.push(n.id);
            } else {
                kept.push(n);
            }
        }
        proof {
            assert(ns.take(ns.len() as int) =~= ns);
        }
        self.notes = kept;
        gone
    }

    /// The user dismissed note `id` in the shade: its key (to close the
    /// host's copy), when it was there.
    pub fn dismiss(&mut self, id: u64) -> (r: Option<NoteKey>)
        ensures
            final(self).next_id == old(self).next_id,
            match r {
                Some(k) => exists|i: int| id_at(old(self).notes@, id, i)
                    && old(self).notes@[i].key == k && final(self).notes@ == old(self).notes@.remove(i),
                None => final(self).notes@ == old(self).notes@
                    && forall|j: int| 0 <= j < old(self).notes@.len() ==> (#[trigger] old(self).notes@[j]).id != id,
            },
    {
        match self.find_id(id) {
            Some(i) => {
                let n = self.notes.remove(i);
                Some(n.key)
            },
            None => None,
        }
    }

    /// The user dismissed every note: their ids and keys, in order.
    pub fn dismiss_all(&mut self) -> (r: Vec<Note>)
        ensures
            r@ == old(self).notes@,
            final(self).notes@.len() == 0,
            final(self).next_id == old(self).next_id,
    {
        let mut notes: Vec<Note> = Vec::new();
        std::mem::swap(&mut notes, &mut self.notes);
        notes
    }

    /// The launch target of note `id`, for a tap on it.
    pub fn target_of(&self, id: u64) -> (r: Option<LaunchTarget>)
        ensures
            match r {
                Some(t) => exists|i: int| id_at(self.notes@, id, i) && (self.notes@[i].target matches Some(u) && target_view(u) == target_view(t)),
                None => forall|i: int| id_at(self.notes@, id, i) ==> self.notes@[i].target is None,
            },
    {
        match self.find_id(id) {
            Some(i) => match &self.notes[i].target {
                Some(t) => Some(copy_target(t)),
                None => {
                    proof {
                        assert forall|k: int| id_at(self.notes@, id, k) implies self.notes@[k].target is None by {
                            if k < i {
                            } else if k > i {
                                assert(self.notes@[i as int].id == id);
                            }
                        }
                    }
                    None
                },
            },
            None => None,
        }
    }
}

/// The headline of a posted notification: its title, else the package.
pub fn note_summary(title: Option<String>, package: &str) -> (r: String)
    ensures
        r@ == match title { Some(t) => t@, None => package@ },
{
    match title {
        Some(t) => t,
        None => package.to_owned(),
    }
}

pub open spec fn body_spec(text: Option<Seq<char>>, sub: Option<Seq<char>>) -> Seq<char> {
    match (text, sub) {
        (Some(t), Some(s)) => t + seq!['\n'] + s,
        (Some(t), None) => t,
        (None, Some(s)) => s,
        (None, None) => Seq::empty(),
    }
}

/// The body of a posted notification: its text and sub-text on two lines,
/// whichever of them it has.
pub fn note_body(text: Option<String>, sub: Option<String>) -> (r: String)
    ensures
        r@ == body_spec(tag_view(text), tag_view(sub)),
{
    match (text, sub) {
        (Some(t), Some(s)) => {
            let with_break = crate::text::concat(t.as_str(), "\n");
            proof {
                reveal_strlit("\n");
            }
            crate::text::concat(with_break.as_str(), s.as_str())
        },
        (Some(t), None) => t,
        (None, Some(s)) => s,
        (None, None) => String::new(),
    }
}

/// A notification's body keeps what it was given: it begins with the text
/// where there is one, ends with the sub-text where there is one, is the
/// text alone where there is no sub-text, puts a line break between the two
/// where there are both, and is empty only where both are missing or empty.
pub proof fn law_body_keeps_text(text: Option<Seq<char>>, sub: Option<Seq<char>>)
    ensures
        text matches Some(t) ==> body_spec(text, sub).len() >= t.len()
            && body_spec(text, sub).take(t.len() as int) == t,
        sub matches Some(s) ==> body_spec(text, sub).len() >= s.len()
            && body_spec(text, sub).skip(body_spec(text, sub).len() - s.len()) == s,
        sub is None ==> (text matches Some(t) ==> body_spec(text, sub) == t),
        text is None ==> (sub matches Some(s) ==> body_spec(text, sub) == s),
        text matches Some(t) ==> (sub matches Some(s) ==> body_spec(text, sub).len() == t.len() + 1 + s.len()
            && body_spec(text, sub)[t.len() as int] == '\n'),
        text is None && sub is None ==> body_spec(text, sub).len() == 0,
{
    match (text, sub) {
        (Some(t), Some(s)) => {
            let b = body_spec(text, sub);
            assert(b.take(t.len() as int) =~= t);
            assert(b.skip(b.len() - s.len()) =~= s);
        },
        (Some(t), None) => {
            assert(body_spec(text, sub).take(t.len() as int) =~= t);
        },
        (None, Some(s)) => {
            assert(body_spec(text, sub).skip(0) =~= s);
        },
        (None, None) => {},
    }
}

/// A re-post of a notification keeps the shade id its first post got:
/// posting the same key twice names one note.
pub proof fn law_repost_keeps_id(notes: Seq<Note>, first: Note, second_key: NoteKey)
    requires
        key_view(first.key) == key_view(second_key),
        forall|j: int| 0 <= j < notes.len() ==> key_view((#[trigger] notes[j]).key) != key_view(first.key),
    ensures
        key_at(notes.push(first), key_view(second_key), notes.len() as int),
        notes.push(first)[notes.len() as int].id == first.id,
{
}

} // verus!
