//! The alarm manager's decisions: which clock an alarm type reads, how long
//! to wait, which alarms a new `set` or a `remove` cancels, and whether a
//! firing alarm starts a service or an activity.
use vstd::prelude::*;
use crate::text::{chars_of, contains, has};

verus! {

/// The clock an alarm's trigger time is on.
#[derive(PartialEq, Eq, Debug, Clone, Copy, Structural)]
pub enum AlarmClock {
    /// Wall-clock milliseconds since the epoch (`RTC`, `RTC_WAKEUP`).
    Wall,
    /// Milliseconds since boot (`ELAPSED_REALTIME` and the rest).
    SinceBoot,
}

pub open spec fn clock_spec(alarm_type: i32) -> AlarmClock {
    if alarm_type == 0 || alarm_type == 1 { AlarmClock::Wall } else { AlarmClock::SinceBoot }
}

pub fn clock_for(alarm_type: i32) -> (c: AlarmClock)
    ensures
        c == clock_spec(alarm_type),
{
    if alarm_type == 0 || alarm_type == 1 {
        AlarmClock::Wall
    } else {
        AlarmClock::SinceBoot
    }
}

/// Only `RTC_WAKEUP` (0) and `RTC` (1) alarms are timed on the wall clock;
/// `ELAPSED_REALTIME_WAKEUP` (2), `ELAPSED_REALTIME` (3) and any other type
/// are timed on the clock since boot.
pub proof fn law_clock_by_type(alarm_type: i32)
    ensures
        (clock_spec(alarm_type) == AlarmClock::Wall) == (alarm_type == 0 || alarm_type == 1),
        (alarm_type == 2 || alarm_type == 3) ==> clock_spec(alarm_type) == AlarmClock::SinceBoot,
        (alarm_type != 0 && alarm_type != 1) ==> clock_spec(alarm_type) == AlarmClock::SinceBoot,
{
}

/// How long to wait before an alarm for `trigger_at` fires when its clock
/// reads `now`: never less than zero.
pub fn delay_ms(trigger_at: i64, now: i64) -> (d: i64)
    requires
        i64::MIN <= trigger_at - now <= i64::MAX,
    ensures
        d == if trigger_at - now > 0 { trigger_at - now } else { 0 },
{
    let d = trigger_at - now;
    if d > 0 {
        d
    } else {
        0
    }
}

/// What a `PendingIntent` launches when it fires.
pub struct LaunchTarget {
    pub package: Option<String>,
    pub class: Option<String>,
    pub action: Option<String>,
    pub data: Option<String>,
    /// The intent's categories.
    pub categories: Vec<String>,
    /// The intent's extras `Bundle`, as the parcel bytes it came in.
    pub extras: Option<Vec<u8>>,
    /// `ActivityManager.INTENT_SENDER_*`: 2 activity, 4 service, 5
    /// foreground service.
    pub intent_type: i32,
}

/// The extras as bytes.
pub open spec fn extras_view(e: Option<Vec<u8>>) -> Option<Seq<u8>> {
    match e {
        Some(v) => Some(v@),
        None => None,
    }
}

/// A launch target as values.
pub open spec fn target_view(t: LaunchTarget) -> (Option<Seq<char>>, Option<Seq<char>>, Option<Seq<char>>, Option<Seq<char>>, Seq<Seq<char>>, Option<Seq<u8>>, i32) {
    (class_view(t.package), class_view(t.class), class_view(t.action), class_view(t.data),
        crate::activity::names(t.categories@), extras_view(t.extras), t.intent_type)
}

/// What a firing alarm does with its target.
#[derive(PartialEq, Eq, Debug, Clone, Copy, Structural)]
pub enum FireAction {
    StartService,
    StartActivity,
}

pub open spec fn class_view(c: Option<String>) -> Option<Seq<char>> {
    match c {
        Some(s) => Some(s@),
        None => None,
    }
}

pub open spec fn fire_spec(intent_type: i32, class: Option<Seq<char>>) -> FireAction {
    if intent_type == 4 || intent_type == 5 || (intent_type == 0 && match class { Some(c) => contains(c, "Service"@), None => false }) {
        FireAction::StartService
    } else if intent_type == 2 {
        FireAction::StartActivity
    } else if class is Some {
        FireAction::StartService
    } else {
        FireAction::StartActivity
    }
}

/// Services (and class names that say so) are started as services,
/// activities as activities; otherwise a named class is taken for a
/// service.
pub fn fire_action(t: &LaunchTarget) -> (a: FireAction)
    ensures
        a == fire_spec(t.intent_type, class_view(t.class)),
{
    let named_service = match &t.class {
        Some(c) => {
            let cs = chars_of(c.as_str());
            has(cs.as_slice(), "Service")
        },
        None => false,
    };
    if t.intent_type == 4 || t.intent_type == 5 || (t.intent_type == 0 && named_service) {
        FireAction::StartService
    } else if t.intent_type == 2 {
        FireAction::StartActivity
    } else if t.class.is_some() {
        FireAction::StartService
    } else {
        FireAction::StartActivity
    }
}

// ---------------------------------------------------------------------------
// The pending alarms
// ---------------------------------------------------------------------------

/// The alarms waiting to fire: the operation each was set with and the
/// alarm's own id.
pub struct AlarmBook {
    pub entries: Vec<(u64, u64)>,
}

/// The ids of the alarms set with operation `op`, in order.
pub open spec fn ids_with_op(e: Seq<(u64, u64)>, op: u64) -> Seq<u64>
    decreases e.len(),
{
    if e.len() == 0 {
        Seq::empty()
    } else if e.last().0 == op {
        ids_with_op(e.drop_last(), op).push(e.last().1)
    } else {
        ids_with_op(e.drop_last(), op)
    }
}

/// The alarms not set with operation `op`, in order.
pub open spec fn without_op(e: Seq<(u64, u64)>, op: u64) -> Seq<(u64, u64)>
    decreases e.len(),
{
    if e.len() == 0 {
        e
    } else if e.last().0 == op {
        without_op(e.drop_last(), op)
    } else {
        without_op(e.drop_last(), op).push(e.last())
    }
}

/// No two waiting alarms share an operation.
pub open spec fn ops_distinct(e: Seq<(u64, u64)>) -> bool {
    forall|i: int, j: int| 0 <= i < j < e.len() ==> (#[trigger] e[i]).0 != (#[trigger] e[j]).0
}

impl AlarmBook {
    pub fn new() -> (b: AlarmBook)
        ensures
            b.entries@.len() == 0,
    {
        AlarmBook { entries: Vec::new() }
    }

    /// Cancels the alarms set with `op` and returns their ids.
    pub fn remove(&mut self, op: u64) -> (cancelled: Vec<u64>)
        ensures
            cancelled@ == ids_with_op(old(self).entries@, op),
            final(self).entries@ == without_op(old(self).entries@, op),
    {
        let ghost es = self.entries@;
        let mut kept: Vec<(u64, u64)> = Vec::new();
        let mut gone: Vec<u64> = Vec::new();
        let mut i: usize = 0;
        proof {
            assert(es.take(0) =~= Seq::<(u64, u64)>::empty());
        }
        while i < self.entries.len()
            invariant
                i <= self.entries@.len(),
                es == self.entries@,
                kept@ == without_op(es.take(i as int), op),
                gone@ == ids_with_op(es.take(i as int), op),
            decreases self.entries.len() - i,
        {
            proof {
                assert(es.take(i + 1).drop_last() =~= es.take(i as int));
                assert(es.take(i + 1).last() == es[i as int]);
            }
            let (o, id) = self.entries[i];
            if o == op {
                gone.push(id);
            } else {
                kept.push((o, id));
            }
            i = i + 1;
        }
        proof {
            assert(es.take(es.len() as int) =~= es);
        }
        self.entries = kept;
        gone
    }

    /// `set` with operation `op`: the alarms set with it before are
    /// cancelled (their ids returned) and the new alarm `id` waits in their
    /// place. An alarm without an operation is not recorded.
    pub fn set(&mut self, op: Option<u64>, id: u64) -> (cancelled: Vec<u64>)
        ensures
            match op {
                Some(o) => cancelled@ == ids_with_op(old(self).entries@, o)
                    && final(self).entries@ == without_op(old(self).entries@, o).push((o, id)),
                None => cancelled@.len() == 0 && final(self).entries@ == old(self).entries@,
            },
    {
        match op {
            Some(o) => {
                let gone = self.remove(o);
                self.entries.push((o, id));
                gone
            },
            None => Vec::new(),
        }
    }

    /// `removeAll`: every waiting alarm is cancelled.
    pub fn remove_all(&mut self) -> (cancelled: Vec<u64>)
        ensures
            cancelled@ == old(self).entries@.map_values(|p: (u64, u64)| p.1),
            final(self).entries@.len() == 0,
    {
        let mut gone: Vec<u64> = Vec::new();
        let mut i: usize = 0;
        while i < self.entries.len()
            invariant
                i <= self.entries@.len(),
                self.entries@ == old(self).entries@,
                gone@ == self.entries@.take(i as int).map_values(|p: (u64, u64)| p.1),
            decreases self.entries.len() - i,
        {
            gone.push(self.entries[i].1);
            proof {
                assert(self.entries@.take(i + 1).map_values(|p: (u64, u64)| p.1)
                    =~= self.entries@.take(i as int).map_values(|p: (u64, u64)| p.1).push(self.entries@[i as int].1));
            }
            i = i + 1;
        }
        proof {
            assert(self.entries@.take(self.entries@.len() as int) =~= self.entries@);
        }
        self.entries = Vec::new();
        gone
    }
}

proof fn lemma_without_op(e: Seq<(u64, u64)>, op: u64)
    ensures
        forall|i: int| 0 <= i < without_op(e, op).len() ==> (#[trigger] without_op(e, op)[i]).0 != op,
        forall|i: int| 0 <= i < without_op(e, op).len() ==> exists|j: int| 0 <= j < e.len() && #[trigger] without_op(e, op)[i] == e[j],
        ops_distinct(e) ==> ops_distinct(without_op(e, op)),
    decreases e.len(),
{
    if e.len() > 0 {
        lemma_without_op(e.drop_last(), op);
        let w = without_op(e, op);
        let w0 = without_op(e.drop_last(), op);
        assert forall|i: int| 0 <= i < w.len() implies exists|j: int| 0 <= j < e.len() && #[trigger] w[i] == e[j] by {
            if i < w0.len() {
                assert(w[i] == w0[i]);
                let j = choose|j: int| 0 <= j < e.drop_last().len() && w0[i] == e.drop_last()[j];
                assert(e[j] == e.drop_last()[j]);
            } else {
                assert(w[i] == e[e.len() - 1]);
            }
        }
        assert forall|i: int| 0 <= i < w.len() implies (#[trigger] w[i]).0 != op by {
            if i < w0.len() {
                assert(w[i] == w0[i]);
            }
        }
        if ops_distinct(e) {
            assert(ops_distinct(e.drop_last()));
            assert forall|a: int, b: int| 0 <= a < b < w.len() implies (#[trigger] w[a]).0 != (#[trigger] w[b]).0 by {
                if b < w0.len() {
                    assert(w[a] == w0[a] && w[b] == w0[b]);
                } else {
                    assert(w[a] == w0[a]);
                    let j = choose|j: int| 0 <= j < e.drop_last().len() && w0[a] == e.drop_last()[j];
                    assert(e[j] == e.drop_last()[j]);
                    assert(w[b] == e[e.len() - 1]);
                }
            }
        }
    }
}

proof fn lemma_ids_with_op_cover(e: Seq<(u64, u64)>, op: u64)
    ensures
        forall|j: int| 0 <= j < e.len() && (#[trigger] e[j]).0 == op ==> ids_with_op(e, op).contains(e[j].1),
    decreases e.len(),
{
    if e.len() > 0 {
        lemma_ids_with_op_cover(e.drop_last(), op);
        let w = ids_with_op(e, op);
        let w0 = ids_with_op(e.drop_last(), op);
        assert forall|j: int| 0 <= j < e.len() && (#[trigger] e[j]).0 == op implies w.contains(e[j].1) by {
            if j < e.len() - 1 {
                assert(e.drop_last()[j] == e[j]);
                let k = choose|k: int| 0 <= k < w0.len() && w0[k] == e[j].1;
                if e.last().0 == op {
                    assert(w[k] == w0[k]);
                } else {
                    assert(w == w0);
                }
            } else {
                assert(w[w.len() - 1] == e[j].1);
            }
        }
    }
}

/// `set` with an operation cancels every alarm set with it before (their
/// ids are what it returns) and leaves exactly one waiting alarm carrying
/// it, the new one, last; `remove` cancels the same alarms and leaves none
/// carrying it. Operations that were distinct stay distinct.
pub proof fn law_set_replaces_remove_clears(e: Seq<(u64, u64)>, op: u64, id: u64)
    ensures
        forall|j: int| 0 <= j < e.len() && (#[trigger] e[j]).0 == op ==> ids_with_op(e, op).contains(e[j].1),
        forall|i: int| 0 <= i < without_op(e, op).push((op, id)).len() && (#[trigger] without_op(e, op).push((op, id))[i]).0 == op
            ==> i == without_op(e, op).len(),
        forall|i: int| 0 <= i < without_op(e, op).len() ==> (#[trigger] without_op(e, op)[i]).0 != op,
        ops_distinct(e) ==> ops_distinct(without_op(e, op).push((op, id))),
{
    lemma_without_op(e, op);
    lemma_ids_with_op_cover(e, op);
    let w = without_op(e, op);
    let w2 = w.push((op, id));
    if ops_distinct(e) {
        assert forall|a: int, b: int| 0 <= a < b < w2.len() implies (#[trigger] w2[a]).0 != (#[trigger] w2[b]).0 by {
            if b < w.len() {
                assert(w2[a] == w[a] && w2[b] == w[b]);
            } else {
                assert(w2[a] == w[a]);
            }
        }
    }
    assert forall|i: int| 0 <= i < w2.len() && (#[trigger] w2[i]).0 == op implies i == w.len() by {
        if i < w.len() {
            assert(w2[i] == w[i]);
        }
    }
}

proof fn lemma_kept_count_grows(e: Seq<(u64, u64)>, op: u64, j1: int, j2: int)
    requires
        0 <= j1 < j2 <= e.len(),
        e[j1].0 != op,
    ensures
        without_op(e.take(j2), op).len() >= without_op(e.take(j1), op).len() + 1,
    decreases j2,
{
    assert(e.take(j2).drop_last() =~= e.take(j2 - 1));
    if j2 == j1 + 1 {
        assert(e.take(j2).last() == e[j1]);
    } else {
        lemma_kept_count_grows(e, op, j1, j2 - 1);
    }
}

proof fn lemma_kept_position(e: Seq<(u64, u64)>, op: u64)
    ensures
        forall|j: int| 0 <= j < e.len() && (#[trigger] e[j]).0 != op ==> {
            &&& without_op(e.take(j), op).len() < without_op(e, op).len()
            &&& without_op(e, op)[without_op(e.take(j), op).len() as int] == e[j]
        },
    decreases e.len(),
{
    if e.len() > 0 {
        let d = e.drop_last();
        lemma_kept_position(d, op);
        let w = without_op(e, op);
        let w0 = without_op(d, op);
        assert forall|j: int| 0 <= j < e.len() && (#[trigger] e[j]).0 != op implies
            without_op(e.take(j), op).len() < w.len() && w[without_op(e.take(j), op).len() as int] == e[j] by {
            if j < e.len() - 1 {
                assert(e.take(j) =~= d.take(j));
                assert(d[j] == e[j]);
            } else {
                assert(e.take(j) =~= d);
            }
        }
    }
}

/// `remove` (and the cancelling half of `set`) leaves no alarm set with
/// the operation and keeps every other alarm, in the order it had: the
/// alarm at position `j` of the old list, when kept, stands at the number
/// of kept alarms before it.
pub proof fn law_remove_keeps_others(e: Seq<(u64, u64)>, op: u64)
    ensures
        forall|i: int| 0 <= i < without_op(e, op).len() ==> (#[trigger] without_op(e, op)[i]).0 != op,
        forall|j: int| 0 <= j < e.len() && (#[trigger] e[j]).0 != op ==> {
            &&& without_op(e.take(j), op).len() < without_op(e, op).len()
            &&& without_op(e, op)[without_op(e.take(j), op).len() as int] == e[j]
        },
        forall|j1: int, j2: int| 0 <= j1 < j2 < e.len() && (#[trigger] e[j1]).0 != op && (#[trigger] e[j2]).0 != op
            ==> without_op(e.take(j1), op).len() < without_op(e.take(j2), op).len(),
{
    lemma_without_op(e, op);
    lemma_kept_position(e, op);
    assert forall|j1: int, j2: int| 0 <= j1 < j2 < e.len() && (#[trigger] e[j1]).0 != op && (#[trigger] e[j2]).0 != op
        implies without_op(e.take(j1), op).len() < without_op(e.take(j2), op).len() by {
        lemma_kept_count_grows(e, op, j1, j2);
    }
}

} // verus!
