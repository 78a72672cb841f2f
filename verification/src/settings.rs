//! Settings tables (`Settings.System`, `.Secure`, `.Global` and the
//! DeviceConfig namespace): string keys to string values, with the defaults
//! a fresh device starts from.
use vstd::prelude::*;
use crate::text::{begins, chars_of, is, same, signed_decimal, signed_text, slice_copy, starts_with, string_of};

verus! {

/// One settings table. Each key occurs once.
pub struct SettingsTable {
    entries: Vec<(String, String)>,
}

pub open spec fn key_at(e: Seq<(String, String)>, i: int, k: Seq<char>) -> bool {
    0 <= i < e.len() && e[i].0@ == k
}

impl SettingsTable {
    #[verifier::type_invariant]
    spec fn keys_unique(&self) -> bool {
        forall|i: int, j: int|
            0 <= i < j < self.entries@.len() ==> (#[trigger] self.entries@[i]).0@ != (#[trigger] self.entries@[j]).0@
    }

    /// The table as a map from key to value.
    pub closed spec fn view(&self) -> Map<Seq<char>, Seq<char>> {
        Map::new(
            |k: Seq<char>| exists|i: int| key_at(self.entries@, i, k),
            |k: Seq<char>| self.entries@[choose|i: int| key_at(self.entries@, i, k)].1@,
        )
    }

    /// The number of keys.
    pub closed spec fn size(&self) -> nat {
        self.entries@.len()
    }

    pub fn new() -> (t: Self)
        ensures
            t@ == Map::<Seq<char>, Seq<char>>::empty(),
    {
        let t = SettingsTable { entries: Vec::new() };
        proof {
            assert(t@ =~= Map::<Seq<char>, Seq<char>>::empty());
        }
        t
    }

    fn index_of(&self, key: &str) -> (r: Option<usize>)
        ensures
            match r {
                Some(i) => key_at(self.entries@, i as int, key@),
                None => !self@.contains_key(key@),
            },
    {
        let k = chars_of(key);
        let mut i: usize = 0;
        while i < self.entries.len()
            invariant
                k@ == key@,
                i <= self.entries@.len(),
                forall|j: int| 0 <= j < i ==> self.entries@[j].0@ != key@,
            decreases self.entries.len() - i,
        {
            let e = chars_of(self.entries[i].0.as_str());
            if same(e.as_slice(), k.as_slice()) {
                return Some(i);
            }
            i = i + 1;
        }
        None
    }

    /// The value of `key`.
    pub fn get(&self, key: &str) -> (r: Option<String>)
        ensures
            match r {
                Some(v) => self@.contains_key(key@) && self@[key@] == v@,
                None => !self@.contains_key(key@),
            },
    {
        proof {
            use_type_invariant(self);
        }
        match self.index_of(key) {
            Some(i) => {
                proof {
                    let j = choose|j: int| key_at(self.entries@, j, key@);
                    if j != i as int {
                        if j < i {
                            assert(self.entries@[j].0@ != self.entries@[i as int].0@);
                        } else {
                            assert(self.entries@[i as int].0@ != self.entries@[j].0@);
                        }
                    }
                }
                Some(self.entries[i].1.clone())
            },
            None => None,
        }
    }

    /// Sets `key` to `value`.
    pub fn insert(&mut self, key: &str, value: &str)
        ensures
            final(self)@ == old(self)@.insert(key@, value@),
    {
        proof {
            use_type_invariant(&*self);
        }
        let ghost before = self.entries@;
        match self.index_of(key) {
            Some(i) => {
                let k = self.entries[i].0.clone();
                let mut entries: Vec<(String, String)> = Vec::new();
                std::mem::swap(&mut entries, &mut self.entries);
                entries.set(i, (k, value.to_owned()));
                self.entries = entries;
                proof {
                    let after = self.entries@;
                    assert forall|q: Seq<char>| #[trigger] self@.contains_key(q) == old(self)@.insert(key@, value@).contains_key(q) by {
                        if exists|j: int| key_at(before, j, q) {
                            let j = choose|j: int| key_at(before, j, q);
                            assert(key_at(after, j, q));
                        }
                        if exists|j: int| key_at(after, j, q) {
                            let j = choose|j: int| key_at(after, j, q);
                            if j != i as int {
                                assert(key_at(before, j, q));
                            }
                        }
                    }
                    assert forall|q: Seq<char>| #[trigger] self@.contains_key(q) implies self@[q] == old(self)@.insert(key@, value@)[q] by {
                        let j = choose|j: int| key_at(after, j, q);
                        if q == key@ {
                            if j != i as int {
                                if j < i {
                                    assert(after[j].0@ != after[i as int].0@);
                                } else {
                                    assert(after[i as int].0@ != after[j].0@);
                                }
                            }
                        } else {
                            assert(j != i as int);
                            assert(key_at(before, j, q));
                            let m = choose|m: int| key_at(before, m, q);
                            if m != j {
                                if m < j {
                                    assert(before[m].0@ != before[j].0@);
                                } else {
                                    assert(before[j].0@ != before[m].0@);
                                }
                            }
                        }
                    }
                    assert(self@ =~= old(self)@.insert(key@, value@));
                }
            },
            None => {
                let mut entries: Vec<(String, String)> = Vec::new();
                std::mem::swap(&mut entries, &mut self.entries);
                entries.push((key.to_owned(), value.to_owned()));
                proof {
                    let n = before.len() as int;
                    assert forall|j: int| 0 <= j < n implies before[j].0@ != key@ by {
                        if before[j].0@ == key@ {
                            assert(key_at(before, j, key@));
                        }
                    }
                }
                self.entries = entries;
                proof {
                    let after = self.entries@;
                    let n = before.len() as int;
                    assert forall|j: int| 0 <= j < n implies before[j].0@ != key@ by {
                        if before[j].0@ == key@ {
                            assert(key_at(before, j, key@));
                        }
                    }
                    assert forall|q: Seq<char>| #[trigger] self@.contains_key(q) == old(self)@.insert(key@, value@).contains_key(q) by {
                        if exists|j: int| key_at(before, j, q) {
                            let j = choose|j: int| key_at(before, j, q);
                            assert(key_at(after, j, q));
                        }
                        if q == key@ {
                            assert(key_at(after, n, q));
                        }
                        if exists|j: int| key_at(after, j, q) {
                            let j = choose|j: int| key_at(after, j, q);
                            if j != n {
                                assert(key_at(before, j, q));
                            }
                        }
                    }
                    assert forall|q: Seq<char>| #[trigger] self@.contains_key(q) implies self@[q] == old(self)@.insert(key@, value@)[q] by {
                        let j = choose|j: int| key_at(after, j, q);
                        if q == key@ {
                            assert(j == n);
                        } else {
                            assert(j != n);
                            assert(key_at(before, j, q));
                            let m = choose|m: int| key_at(before, m, q);
                            if m != j {
                                if m < j {
                                    assert(before[m].0@ != before[j].0@);
                                } else {
                                    assert(before[j].0@ != before[m].0@);
                                }
                            }
                        }
                    }
                    assert(self@ =~= old(self)@.insert(key@, value@));
                }
            },
        }
    }

    /// Sets `key` to `value` unless it already has a value
    /// (`entry(key).or_insert(value)`).
    pub fn insert_if_absent(&mut self, key: &str, value: &str)
        ensures
            final(self)@ == if old(self)@.contains_key(key@) { old(self)@ } else { old(self)@.insert(key@, value@) },
    {
        match self.get(key) {
            Some(_) => {},
            None => self.insert(key, value),
        }
    }

    /// Every key with its value, once each.
    pub fn pairs(&self) -> (r: Vec<(String, String)>)
        ensures
            forall|i: int| 0 <= i < r@.len() ==> self@.contains_key((#[trigger] r@[i]).0@) && self@[r@[i].0@] == r@[i].1@,
            forall|k: Seq<char>| self@.contains_key(k) ==> exists|i: int| 0 <= i < r@.len() && (#[trigger] r@[i]).0@ == k,
            forall|i: int, j: int| 0 <= i < j < r@.len() ==> (#[trigger] r@[i]).0@ != (#[trigger] r@[j]).0@,
    {
        proof {
            use_type_invariant(self);
        }
        let mut out: Vec<(String, String)> = Vec::new();
        let mut i: usize = 0;
        while i < self.entries.len()
            invariant
                i <= self.entries@.len(),
                out@.len() == i,
                forall|j: int| 0 <= j < i ==> (#[trigger] out@[j]).0@ == self.entries@[j].0@ && out@[j].1@ == self.entries@[j].1@,
            decreases self.entries.len() - i,
        {
            out.push((self.entries[i].0.clone(), self.entries[i].1.clone()));
            i = i + 1;
        }
        proof {
            assert forall|i: int| 0 <= i < out@.len() implies self@.contains_key((#[trigger] out@[i]).0@) && self@[out@[i].0@] == out@[i].1@ by {
                let k = out@[i].0@;
                assert(key_at(self.entries@, i, k));
                let m = choose|m: int| key_at(self.entries@, m, k);
                if m != i {
                    if m < i {
                        assert(self.entries@[m].0@ != self.entries@[i].0@);
                    } else {
                        assert(self.entries@[i].0@ != self.entries@[m].0@);
                    }
                }
            }
            assert forall|k: Seq<char>| self@.contains_key(k) implies exists|i: int| 0 <= i < out@.len() && (#[trigger] out@[i]).0@ == k by {
                let m = choose|m: int| key_at(self.entries@, m, k);
                assert(out@[m].0@ == k);
            }
            assert forall|i: int, j: int| 0 <= i < j < out@.len() implies (#[trigger] out@[i]).0@ != (#[trigger] out@[j]).0@ by {
                assert(self.entries@[i].0@ != self.entries@[j].0@);
            }
        }
        out
    }
}

impl SettingsTable {
    /// Adds every key of `defaults` that this table lacks, with its default
    /// value; keys already present keep their value.
    pub fn fill_missing(&mut self, defaults: &SettingsTable)
        ensures
            final(self)@ == defaults@.union_prefer_right(old(self)@),
    {
        let ps = defaults.pairs();
        let ghost m0 = self@;
        let mut i: usize = 0;
        while i < ps.len()
            invariant
                i <= ps@.len(),
                forall|j: int| 0 <= j < ps@.len() ==> defaults@.contains_key((#[trigger] ps@[j]).0@) && defaults@[ps@[j].0@] == ps@[j].1@,
                forall|k: Seq<char>| defaults@.contains_key(k) ==> exists|j: int| 0 <= j < ps@.len() && (#[trigger] ps@[j]).0@ == k,
                forall|a: int, b: int| 0 <= a < b < ps@.len() ==> (#[trigger] ps@[a]).0@ != (#[trigger] ps@[b]).0@,
                forall|k: Seq<char>| #[trigger] self@.contains_key(k) <==> (m0.contains_key(k) || exists|j: int| 0 <= j < i && ps@[j].0@ == k),
                forall|k: Seq<char>| #[trigger] self@.contains_key(k) ==> self@[k] == if m0.contains_key(k) { m0[k] } else { defaults@[k] },
            decreases ps.len() - i,
        {
            let ghost before = self@;
            self.insert_if_absent(ps[i].0.as_str(), ps[i].1.as_str());
            proof {
                assert forall|k: Seq<char>| #[trigger] self@.contains_key(k) <==> (m0.contains_key(k) || exists|j: int| 0 <= j < i + 1 && ps@[j].0@ == k) by {
                    if k == ps@[i as int].0@ {
                    } else {
                        if exists|j: int| 0 <= j < i + 1 && ps@[j].0@ == k {
                            let j = choose|j: int| 0 <= j < i + 1 && ps@[j].0@ == k;
                            assert(j != i as int);
                        }
                    }
                }
            }
            i = i + 1;
        }
        proof {
            assert forall|k: Seq<char>| #[trigger] self@.contains_key(k) <==> defaults@.union_prefer_right(m0).contains_key(k) by {
                if defaults@.contains_key(k) {
                    let j = choose|j: int| 0 <= j < ps@.len() && (#[trigger] ps@[j]).0@ == k;
                }
                if exists|j: int| 0 <= j < i && ps@[j].0@ == k {
                    let j = choose|j: int| 0 <= j < i && ps@[j].0@ == k;
                    assert(defaults@.contains_key(ps@[j].0@));
                }
            }
            assert(self@ =~= defaults@.union_prefer_right(m0));
        }
    }
}

/// The four tables.
pub struct SettingsFile {
    pub system: SettingsTable,
    pub secure: SettingsTable,
    pub global: SettingsTable,
    pub config: SettingsTable,
}

pub open spec fn default_system() -> Map<Seq<char>, Seq<char>> {
    map![
        "alarm_alert"@ => "file:///product/media/audio/alarms/Alarm_Beep_01.ogg"@,
        "notification_sound"@ => "file:///product/media/audio/ui/NFCSuccess.ogg"@,
        "ringtone"@ => "file:///product/media/audio/ringtones/Orion.ogg"@,
        "time_12_24"@ => "12"@,
        "volume_alarm_speaker"@ => "7"@,
        "volume_music_speaker"@ => "7"@,
        "volume_ring_speaker"@ => "7"@,
        "volume_voice_speaker"@ => "7"@,
        "sound_effects_enabled"@ => "1"@,
        "haptic_feedback_enabled"@ => "1"@
    ]
}

pub open spec fn default_global() -> Map<Seq<char>, Seq<char>> {
    map![
        "device_provisioned"@ => "1"@,
        "mode_ringer"@ => "2"@,
        "stay_on_while_plugged_in"@ => "0"@,
        "animator_duration_scale"@ => "1.0"@,
        "transition_animation_scale"@ => "1.0"@,
        "window_animation_scale"@ => "1.0"@
    ]
}

pub open spec fn default_secure() -> Map<Seq<char>, Seq<char>> {
    map!["user_setup_complete"@ => "1"@]
}

impl SettingsFile {
    /// Empty tables.
    pub fn empty() -> (f: Self)
        ensures
            f.system@ == Map::<Seq<char>, Seq<char>>::empty(),
            f.secure@ == Map::<Seq<char>, Seq<char>>::empty(),
            f.global@ == Map::<Seq<char>, Seq<char>>::empty(),
            f.config@ == Map::<Seq<char>, Seq<char>>::empty(),
    {
        SettingsFile {
            system: SettingsTable::new(),
            secure: SettingsTable::new(),
            global: SettingsTable::new(),
            config: SettingsTable::new(),
        }
    }

    /// The settings a fresh device starts from: default ringtone, alarm and
    /// notification sounds, volumes, and a provisioned, set-up device.
    pub fn with_defaults() -> (f: Self)
        ensures
            f.system@ == default_system(),
            f.global@ == default_global(),
            f.secure@ == default_secure(),
            f.config@ == Map::<Seq<char>, Seq<char>>::empty(),
    {
        let mut system = SettingsTable::new();
        system.insert("alarm_alert", "file:///product/media/audio/alarms/Alarm_Beep_01.ogg");
        system.insert("notification_sound", "file:///product/media/audio/ui/NFCSuccess.ogg");
        system.insert("ringtone", "file:///product/media/audio/ringtones/Orion.ogg");
        system.insert("time_12_24", "12");
        system.insert("volume_alarm_speaker", "7");
        system.insert("volume_music_speaker", "7");
        system.insert("volume_ring_speaker", "7");
        system.insert("volume_voice_speaker", "7");
        system.insert("sound_effects_enabled", "1");
        system.insert("haptic_feedback_enabled", "1");
        let mut global = SettingsTable::new();
        global.insert("device_provisioned", "1");
        global.insert("mode_ringer", "2");
        global.insert("stay_on_while_plugged_in", "0");
        global.insert("animator_duration_scale", "1.0");
        global.insert("transition_animation_scale", "1.0");
        global.insert("window_animation_scale", "1.0");
        let mut secure = SettingsTable::new();
        secure.insert("user_setup_complete", "1");
        let config = SettingsTable::new();
        proof {
            assert(system@ =~= default_system());
            assert(global@ =~= default_global());
            assert(secure@ =~= default_secure());
        }
        SettingsFile { system, secure, global, config }
    }
}

impl SettingsFile {
    /// A settings file read back from disk, completed with the defaults it
    /// lacks in the system, global and secure tables (config is kept as is).
    pub fn merge_defaults(&mut self, defaults: &SettingsFile)
        ensures
            final(self).system@ == defaults.system@.union_prefer_right(old(self).system@),
            final(self).global@ == defaults.global@.union_prefer_right(old(self).global@),
            final(self).secure@ == defaults.secure@.union_prefer_right(old(self).secure@),
            final(self).config@ == old(self).config@,
    {
        self.system.fill_missing(&defaults.system);
        self.global.fill_missing(&defaults.global);
        self.secure.fill_missing(&defaults.secure);
    }
}

/// Settings read back from disk keep every value written: completing a
/// table with its defaults only adds the keys it lacks.
pub proof fn law_reload_keeps_settings(stored: Map<Seq<char>, Seq<char>>, defaults: Map<Seq<char>, Seq<char>>)
    ensures
        forall|k: Seq<char>| stored.contains_key(k) ==> #[trigger] defaults.union_prefer_right(stored).contains_key(k)
            && defaults.union_prefer_right(stored)[k] == stored[k],
        forall|k: Seq<char>| !stored.contains_key(k) && defaults.contains_key(k) ==> #[trigger] defaults.union_prefer_right(stored).contains_key(k)
            && defaults.union_prefer_right(stored)[k] == defaults[k],
{
}

/// Which table a name selects.
pub enum TableName {
    System,
    Secure,
    Global,
    Config,
}

pub open spec fn table_name_spec(name: Seq<char>) -> Option<TableName> {
    if name == "system"@ {
        Some(TableName::System)
    } else if name == "secure"@ {
        Some(TableName::Secure)
    } else if name == "global"@ {
        Some(TableName::Global)
    } else if name == "config"@ {
        Some(TableName::Config)
    } else {
        None
    }
}

pub fn table_name(name: &str) -> (r: Option<TableName>)
    ensures
        r == table_name_spec(name@),
{
    let n = chars_of(name);
    let n = n.as_slice();
    if is(n, "system") {
        Some(TableName::System)
    } else if is(n, "secure") {
        Some(TableName::Secure)
    } else if is(n, "global") {
        Some(TableName::Global)
    } else if is(n, "config") {
        Some(TableName::Config)
    } else {
        None
    }
}

/// The settings store.
pub struct SettingsService {
    pub data: SettingsFile,
}

/// The four tables of a store as maps.
pub open spec fn tables(s: SettingsService) -> (Map<Seq<char>, Seq<char>>, Map<Seq<char>, Seq<char>>, Map<Seq<char>, Seq<char>>, Map<Seq<char>, Seq<char>>) {
    (s.data.system@, s.data.secure@, s.data.global@, s.data.config@)
}

/// The table a name selects, as a map.
pub open spec fn table_of(s: SettingsService, name: Seq<char>) -> Option<Map<Seq<char>, Seq<char>>> {
    match table_name_spec(name) {
        Some(TableName::System) => Some(s.data.system@),
        Some(TableName::Secure) => Some(s.data.secure@),
        Some(TableName::Global) => Some(s.data.global@),
        Some(TableName::Config) => Some(s.data.config@),
        None => None,
    }
}

/// What `get` answers for a table and key.
pub open spec fn lookup(s: SettingsService, table: Seq<char>, key: Seq<char>) -> Option<Seq<char>> {
    match table_of(s, table) {
        Some(m) => if m.contains_key(key) { Some(m[key]) } else { None },
        None => None,
    }
}

/// The tables after `put`: the named table maps `key` to `value`; an
/// unknown table name changes nothing.
pub open spec fn after_put(s: SettingsService, table: Seq<char>, key: Seq<char>, value: Seq<char>) -> (Map<Seq<char>, Seq<char>>, Map<Seq<char>, Seq<char>>, Map<Seq<char>, Seq<char>>, Map<Seq<char>, Seq<char>>) {
    let (sy, se, gl, co) = tables(s);
    match table_name_spec(table) {
        Some(TableName::System) => (sy.insert(key, value), se, gl, co),
        Some(TableName::Secure) => (sy, se.insert(key, value), gl, co),
        Some(TableName::Global) => (sy, se, gl.insert(key, value), co),
        Some(TableName::Config) => (sy, se, gl, co.insert(key, value)),
        None => (sy, se, gl, co),
    }
}

pub open spec fn opt_text(o: Option<String>) -> Option<Seq<char>> {
    match o {
        Some(s) => Some(s@),
        None => None,
    }
}

impl SettingsService {
    pub fn new(data: SettingsFile) -> (s: Self)
        ensures
            s.data == data,
    {
        SettingsService { data }
    }

    /// The value of `key` in the table named `table`.
    pub fn get(&self, table: &str, key: &str) -> (r: Option<String>)
        ensures
            opt_text(r) == lookup(*self, table@, key@),
    {
        match table_name(table) {
            Some(TableName::System) => self.data.system.get(key),
            Some(TableName::Secure) => self.data.secure.get(key),
            Some(TableName::Global) => self.data.global.get(key),
            Some(TableName::Config) => self.data.config.get(key),
            None => None,
        }
    }

    /// Sets `key` to `value` in the table named `table`; an unknown table
    /// is left alone.
    pub fn put(&mut self, table: &str, key: &str, value: &str)
        ensures
            tables(*final(self)) == after_put(*old(self), table@, key@, value@),
    {
        match table_name(table) {
            Some(TableName::System) => self.data.system.insert(key, value),
            Some(TableName::Secure) => self.data.secure.insert(key, value),
            Some(TableName::Global) => self.data.global.insert(key, value),
            Some(TableName::Config) => self.data.config.insert(key, value),
            None => {},
        }
    }
}

/// A read gives back what the last write to the same table and key wrote.
pub proof fn law_get_after_put(s: SettingsService, t: SettingsService, table: Seq<char>, key: Seq<char>, value: Seq<char>)
    requires
        tables(t) == after_put(s, table, key, value),
        table_name_spec(table) is Some,
    ensures
        lookup(t, table, key) == Some(value),
{
}

/// A write leaves every other table and key as it was.
pub proof fn law_put_keeps_others(
    s: SettingsService,
    t: SettingsService,
    table: Seq<char>,
    key: Seq<char>,
    value: Seq<char>,
    other_table: Seq<char>,
    other_key: Seq<char>,
)
    requires
        tables(t) == after_put(s, table, key, value),
        table_name_spec(table) != table_name_spec(other_table) || key != other_key,
    ensures
        lookup(t, other_table, other_key) == lookup(s, other_table, other_key),
{
}

/// What a `CALL` to the settings provider asks for.
pub enum SettingsCall {
    /// `GET_<table>`
    Get(String),
    /// `PUT_<table>`
    Put(String),
    /// Anything else (`LIST_config`, ...): answered with an empty bundle.
    Other,
}

pub enum SettingsCallView {
    Get(Seq<char>),
    Put(Seq<char>),
    Other,
}

pub open spec fn settings_call_spec(method: Seq<char>) -> SettingsCallView {
    if starts_with(method, "GET_"@) {
        SettingsCallView::Get(method.skip(4))
    } else if starts_with(method, "PUT_"@) {
        SettingsCallView::Put(method.skip(4))
    } else {
        SettingsCallView::Other
    }
}

pub open spec fn call_view(c: SettingsCall) -> SettingsCallView {
    match c {
        SettingsCall::Get(t) => SettingsCallView::Get(t@),
        SettingsCall::Put(t) => SettingsCallView::Put(t@),
        SettingsCall::Other => SettingsCallView::Other,
    }
}

pub fn settings_call(method: &str) -> (r: SettingsCall)
    ensures
        call_view(r) == settings_call_spec(method@),
{
    let m = chars_of(method);
    proof {
        reveal_strlit("GET_");
        reveal_strlit("PUT_");
    }
    if begins(m.as_slice(), "GET_") {
        let t = slice_copy(m.as_slice(), 4, m.len());
        proof {
            assert(m@.subrange(4, m@.len() as int) == m@.skip(4));
        }
        SettingsCall::Get(string_of(t.as_slice()))
    } else if begins(m.as_slice(), "PUT_") {
        let t = slice_copy(m.as_slice(), 4, m.len());
        proof {
            assert(m@.subrange(4, m@.len() as int) == m@.skip(4));
        }
        SettingsCall::Put(string_of(t.as_slice()))
    } else {
        SettingsCall::Other
    }
}

/// A value a client's bundle carries for a `PUT`.
pub enum PutValue {
    Text(String),
    Int(i32),
    Long(i64),
    Bool(bool),
}

/// The stored text of a put value: text as is, numbers in decimal, and
/// booleans as `1`/`0`.
pub open spec fn put_text_spec(v: PutValue) -> Seq<char> {
    match v {
        PutValue::Text(s) => s@,
        PutValue::Int(i) => signed_decimal(i as int),
        PutValue::Long(l) => signed_decimal(l as int),
        PutValue::Bool(b) => if b { seq!['1'] } else { seq!['0'] },
    }
}

pub fn put_text(v: &PutValue) -> (r: String)
    ensures
        r@ == put_text_spec(*v),
{
    match v {
        PutValue::Text(s) => s.clone(),
        PutValue::Int(i) => signed_text(*i as i64),
        PutValue::Long(l) => signed_text(*l),
        PutValue::Bool(b) => {
            let c = if *b { vec!['1'] } else { vec!['0'] };
            proof {
                assert(c@ =~= (if *b { seq!['1'] } else { seq!['0'] }));
            }
            string_of(c.as_slice())
        },
    }
}

/// The `android.content.IContentProvider` for authority `settings`: reads
/// and writes go through `CALL` to the store.
pub struct SettingsProvider {
    pub service: SettingsService,
}

/// What a settings `CALL` answers: the value a `GET_` found, or an empty
/// bundle.
pub enum CallReply {
    Value(Option<String>),
    Empty,
}

impl SettingsProvider {
    /// `CALL` with `method` and argument `arg` (the key); `value` is the
    /// value a `PUT_` call's bundle carries, if any. A put without a value
    /// stores nothing.
    pub fn call(&mut self, method: &str, arg: &str, value: Option<PutValue>) -> (r: CallReply)
        ensures
            match settings_call_spec(method@) {
                SettingsCallView::Get(t) => (r matches CallReply::Value(v) && opt_text(v) == lookup(old(self).service, t, arg@))
                    && final(self).service == old(self).service,
                SettingsCallView::Put(t) => r is Empty && match value {
                    Some(v) => tables(final(self).service) == after_put(old(self).service, t, arg@, put_text_spec(v)),
                    None => final(self).service == old(self).service,
                },
                SettingsCallView::Other => r is Empty && final(self).service == old(self).service,
            },
    {
        match settings_call(method) {
            SettingsCall::Get(t) => CallReply::Value(self.service.get(t.as_str(), arg)),
            SettingsCall::Put(t) => {
                match value {
                    Some(v) => {
                        let text = put_text(&v);
                        self.service.put(t.as_str(), arg, text.as_str());
                    },
                    None => {},
                }
                CallReply::Empty
            },
            SettingsCall::Other => CallReply::Empty,
        }
    }
}

} // verus!

