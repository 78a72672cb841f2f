//! Services that run in a process of their own (isolated services and the
//! renderers an app embeds): who may bind them, the identity and paths of
//! the process, and the bookkeeping of bindings waiting for it and made
//! with it.
use vstd::prelude::*;
use crate::alarm::LaunchTarget;
use crate::session::{join_path, join_spec};
use crate::text::{begins, chars_of, concat, starts_with, string_of};

verus! {

/// The first uid of isolated processes.
pub const FIRST_ISOLATED_UID: i64 = 99000;

/// Isolated processes are numbered below this.
pub const MAX_ISOLATED_SEQ: i64 = 1000;

/// An embedding app may bind a service of another package only when the
/// service is an exported external service.
pub fn external_allowed(external: bool, external_service: bool, exported: bool) -> (r: bool)
    ensures
        r == (!external || (external_service && exported)),
{
    !external || (external_service && exported)
}

/// The uid of the service process numbered `seq`: its own in the isolated
/// range, or the provider's; `None` when the isolated range is used up.
pub fn service_uid(isolated: bool, seq: i64, provider_uid: i32) -> (r: Option<i64>)
    requires
        FIRST_ISOLATED_UID + seq - 1 >= i64::MIN,
    ensures
        r == if seq >= MAX_ISOLATED_SEQ { None } else if isolated { Some((FIRST_ISOLATED_UID + seq - 1) as i64) } else { Some(provider_uid as i64) },
{
    if seq >= MAX_ISOLATED_SEQ {
        None
    } else if isolated {
        Some(FIRST_ISOLATED_UID + seq - 1)
    } else {
        Some(provider_uid as i64)
    }
}

/// The process name of an isolated service: package, `isolated`, class and
/// instance (`0` without one), joined by `:`.
pub open spec fn isolated_name_spec(package: Seq<char>, class: Seq<char>, instance: Option<Seq<char>>) -> Seq<char> {
    package + ":isolated:"@ + class + ":"@ + match instance {
        Some(i) => i,
        None => "0"@,
    }
}

/// The name of the service's process: its own isolated name, or the
/// process the manifest declares.
pub fn service_process_name(isolated: bool, package: &str, class: &str, instance: Option<&str>, declared: &str) -> (r: String)
    ensures
        r@ == if isolated { isolated_name_spec(package@, class@, match instance { Some(i) => Some(i@), None => None }) } else { declared@ },
{
    if isolated {
        let a = concat(package, ":isolated:");
        let b = concat(a.as_str(), class);
        let c = concat(b.as_str(), ":");
        match instance {
            Some(i) => concat(c.as_str(), i),
            None => concat(c.as_str(), "0"),
        }
    } else {
        declared.to_owned()
    }
}

/// `s` without every leading copy of the non-empty `p`
/// (`str::trim_start_matches`).
pub open spec fn trim_prefixes(s: Seq<char>, p: Seq<char>) -> Seq<char>
    decreases s.len(),
{
    if p.len() > 0 && starts_with(s, p) {
        trim_prefixes(s.skip(p.len() as int), p)
    } else {
        s
    }
}

fn trim_prefixes_of(s: &[char], p: &str) -> (r: Vec<char>)
    requires
        p@.len() > 0,
    ensures
        r@ == trim_prefixes(s@, p@),
{
    let pc = chars_of(p);
    let mut i: usize = 0;
    proof {
        assert(s@.skip(0) =~= s@);
    }
    while i < s.len() && begins_at(s, pc.as_slice(), i)
        invariant
            pc@ == p@,
            p@.len() > 0,
            i <= s@.len(),
            trim_prefixes(s@, p@) == trim_prefixes(s@.skip(i as int), p@),
        decreases s.len() - i,
    {
        proof {
            assert(s@.skip(i as int).skip(p@.len() as int) =~= s@.skip(i + p@.len()));
        }
        i = i + pc.len();
    }
    let mut out: Vec<char> = Vec::new();
    let mut k: usize = i;
    while k < s.len()
        invariant
            i <= k <= s@.len(),
            out@ == s@.subrange(i as int, k as int),
        decreases s.len() - k,
    {
        out.push(s[k]);
        proof {
            assert(s@.subrange(i as int, k + 1) =~= s@.subrange(i as int, k as int).push(s@[k as int]));
        }
        k = k + 1;
    }
    proof {
        assert(out@ =~= s@.skip(i as int));
    }
    out
}

/// Whether `s[i..]` starts with `p`.
fn begins_at(s: &[char], p: &[char], i: usize) -> (r: bool)
    requires
        i <= s@.len(),
    ensures
        r == starts_with(s@.skip(i as int), p@),
{
    if p.len() > s.len() - i {
        return false;
    }
    let mut k: usize = 0;
    while k < p.len()
        invariant
            i + p@.len() <= s@.len(),
            i + p.len() <= s.len(),
            k <= p@.len(),
            forall|j: int| 0 <= j < k ==> s@[i + j] == p@[j],
        decreases p.len() - k,
    {
        if s[i + k] != p[k] {
            proof {
                assert(s@.skip(i as int).take(p@.len() as int)[k as int] != p@[k as int]);
            }
            return false;
        }
        k = k + 1;
    }
    proof {
        assert(s@.skip(i as int).take(p@.len() as int) =~= p@);
    }
    true
}

/// `Path::join` of `name` onto `base`: an absolute name stands alone.
pub open spec fn path_join_spec(base: Seq<char>, name: Seq<char>) -> Seq<char> {
    if starts_with(name, "/"@) { name } else { join_spec(base, name) }
}

/// Where a service's APK is on the host: an image APK under the image's
/// root, an installed one under the data directory.
pub open spec fn host_apk_spec(apk_in_ns: Seq<char>, system: Seq<char>, data: Seq<char>) -> Seq<char> {
    if starts_with(apk_in_ns, "/system/"@) {
        path_join_spec(system, trim_prefixes(apk_in_ns, "/"@))
    } else {
        path_join_spec(data, trim_prefixes(apk_in_ns, "/data/"@))
    }
}

fn path_join(base: &str, name: &[char]) -> (r: String)
    ensures
        r@ == path_join_spec(base@, name@),
{
    let n = string_of(name);
    let nc = chars_of(n.as_str());
    if begins(nc.as_slice(), "/") {
        n
    } else {
        join_path(base, n.as_str())
    }
}

/// The host path of the APK the app sees at `apk_in_ns`.
pub fn host_apk_path(apk_in_ns: &str, system: &str, data: &str) -> (r: String)
    ensures
        r@ == host_apk_spec(apk_in_ns@, system@, data@),
{
    let a = chars_of(apk_in_ns);
    proof {
        reveal_strlit("/");
        reveal_strlit("/data/");
    }
    if begins(a.as_slice(), "/system/") {
        let rel = trim_prefixes_of(a.as_slice(), "/");
        path_join(system, rel.as_slice())
    } else {
        let rel = trim_prefixes_of(a.as_slice(), "/data/");
        path_join(data, rel.as_slice())
    }
}

// ---------------------------------------------------------------------------
// Bindings
// ---------------------------------------------------------------------------

/// A binding made with a running service process: its token, the
/// process's service token, the client's connection and what it bound.
pub struct Binding {
    pub bind_token: u64,
    pub service_token: u64,
    pub connection: u64,
    pub target: LaunchTarget,
}

/// A service process: its number, who bound what (caller, class,
/// instance), its service token, whether it has attached, and the bindings
/// waiting for it.
pub struct ServiceProcess {
    pub seq: i64,
    pub caller: String,
    pub class: String,
    pub instance: String,
    pub token: u64,
    pub ready: bool,
    pub pending: Vec<(LaunchTarget, u64)>,
}

impl ServiceProcess {
    /// Whether `token` is this process's service token while bindings
    /// still wait for it.
    pub fn is_bound_token(&self, token: u64) -> (r: bool)
        ensures
            r == (self.token == token && self.pending@.len() > 0),
    {
        self.token == token && self.pending.len() > 0
    }
}

/// The service processes, the bindings made with them, and the number the
/// next process gets.
pub struct ServiceProcesses {
    pub processes: Vec<ServiceProcess>,
    pub bindings: Vec<Binding>,
    pub next_seq: i64,
}

/// The waiting bindings of another connection than `c`, in order.
pub open spec fn pending_without(p: Seq<(LaunchTarget, u64)>, c: u64) -> Seq<(LaunchTarget, u64)>
    decreases p.len(),
{
    if p.len() == 0 {
        p
    } else if p.last().1 == c {
        pending_without(p.drop_last(), c)
    } else {
        pending_without(p.drop_last(), c).push(p.last())
    }
}

/// The bindings of connection `c` (`keep`) or of the others, in order.
pub open spec fn bindings_split(b: Seq<Binding>, c: u64, keep: bool) -> Seq<Binding>
    decreases b.len(),
{
    if b.len() == 0 {
        b
    } else if (b.last().connection == c) == keep {
        bindings_split(b.drop_last(), c, keep).push(b.last())
    } else {
        bindings_split(b.drop_last(), c, keep)
    }
}

/// A process is done when nothing waits for it and no binding uses it.
pub open spec fn idle(p: ServiceProcess, b: Seq<Binding>) -> bool {
    p.pending@.len() == 0 && forall|k: int| 0 <= k < b.len() ==> (#[trigger] b[k]).service_token != p.token
}

/// The processes that are done (`done`) or not, in order.
pub open spec fn processes_split(ps: Seq<ServiceProcess>, b: Seq<Binding>, done: bool) -> Seq<ServiceProcess>
    decreases ps.len(),
{
    if ps.len() == 0 {
        ps
    } else if idle(ps.last(), b) == done {
        processes_split(ps.drop_last(), b, done).push(ps.last())
    } else {
        processes_split(ps.drop_last(), b, done)
    }
}

/// `k` is the first process bound as (caller, class, instance).
pub open spec fn first_keyed(ps: Seq<ServiceProcess>, caller: Seq<char>, class: Seq<char>, instance: Seq<char>, k: int) -> bool {
    0 <= k < ps.len() && ps[k].caller@ == caller && ps[k].class@ == class && ps[k].instance@ == instance
        && forall|j: int| 0 <= j < k ==> !((#[trigger] ps[j]).caller@ == caller && ps[j].class@ == class && ps[j].instance@ == instance)
}

fn same_str(a: &str, b: &str) -> (r: bool)
    ensures
        r == (a@ == b@),
{
    let x = chars_of(a);
    let y = chars_of(b);
    crate::text::same(x.as_slice(), y.as_slice())
}

impl ServiceProcesses {
    /// No service processes; the first gets number 1.
    pub fn new() -> (s: ServiceProcesses)
        ensures
            s.processes@.len() == 0 && s.bindings@.len() == 0 && s.next_seq == 1,
    {
        ServiceProcesses { processes: Vec::new(), bindings: Vec::new(), next_seq: 1 }
    }

    /// The process bound as (caller, class, instance), if there is one.
    pub fn find(&self, caller: &str, class: &str, instance: &str) -> (r: Option<usize>)
        ensures
            match r {
                Some(k) => first_keyed(self.processes@, caller@, class@, instance@, k as int),
                None => forall|k: int| 0 <= k < self.processes@.len() ==> !(self.processes@[k].caller@ == caller@
                    && self.processes@[k].class@ == class@ && self.processes@[k].instance@ == instance@),
            },
    {
        let mut k: usize = 0;
        while k < self.processes.len()
            invariant
                k <= self.processes@.len(),
                forall|j: int| 0 <= j < k ==> !((#[trigger] self.processes@[j]).caller@ == caller@
                    && self.processes@[j].class@ == class@ && self.processes@[j].instance@ == instance@),
            decreases self.processes.len() - k,
        {
            let p = &self.processes[k];
            if same_str(p.caller.as_str(), caller) && same_str(p.class.as_str(), class) && same_str(p.instance.as_str(), instance) {
                return Some(k);
            }
            k = k + 1;
        }
        None
    }

    /// The number of a new process; the counter moves on.
    pub fn take_seq(&mut self) -> (seq: i64)
        requires
            old(self).next_seq < i64::MAX,
        ensures
            seq == old(self).next_seq,
            final(self).next_seq == seq + 1,
            final(self).processes@ == old(self).processes@,
            final(self).bindings@ == old(self).bindings@,
    {
        let seq = self.next_seq;
        self.next_seq = seq + 1;
        seq
    }

    /// A process just launched for (caller, class, instance), with the
    /// binding that asked for it waiting.
    pub fn add_process(&mut self, seq: i64, caller: String, class: String, instance: String, token: u64, target: LaunchTarget, connection: u64)
        ensures
            final(self).processes@.len() == old(self).processes@.len() + 1,
            forall|k: int| 0 <= k < old(self).processes@.len() ==> #[trigger] final(self).processes@[k] == old(self).processes@[k],
            final(self).processes@.last().seq == seq,
            final(self).processes@.last().caller == caller,
            final(self).processes@.last().class == class,
            final(self).processes@.last().instance == instance,
            final(self).processes@.last().token == token,
            !final(self).processes@.last().ready,
            final(self).processes@.last().pending@ == seq![(target, connection)],
            final(self).bindings@ == old(self).bindings@,
            final(self).next_seq == old(self).next_seq,
    {
        let mut pending = Vec::new();
        pending.push((target, connection));
        self.processes.push(ServiceProcess { seq, caller, class, instance, token, ready: false, pending });
    }

    /// A new binding with running process `k`: made at once (the host
    /// sends it, under `bind_token`) when the process has attached, else
    /// queued. Whether it was made.
    pub fn bind(&mut self, k: usize, target: LaunchTarget, connection: u64, bind_token: u64) -> (made: bool)
        requires
            k < old(self).processes@.len(),
        ensures
            made == old(self).processes@[k as int].ready,
            made ==> final(self).processes@ == old(self).processes@
                && final(self).bindings@ == old(self).bindings@.push(Binding { bind_token, service_token: old(self).processes@[k as int].token, connection, target }),
            !made ==> final(self).bindings@ == old(self).bindings@
                && final(self).processes@.len() == old(self).processes@.len()
                && (forall|j: int| 0 <= j < old(self).processes@.len() && j != k ==> #[trigger] final(self).processes@[j] == old(self).processes@[j])
                && final(self).processes@[k as int].pending@ == old(self).processes@[k as int].pending@.push((target, connection))
                && final(self).processes@[k as int].token == old(self).processes@[k as int].token
                && final(self).processes@[k as int].seq == old(self).processes@[k as int].seq
                && !final(self).processes@[k as int].ready,
            final(self).next_seq == old(self).next_seq,
    {
        if self.processes[k].ready {
            let token = self.processes[k].token;
            self.bindings.push(Binding { bind_token, service_token: token, connection, target });
            true
        } else {
            let mut p = self.processes.remove(k);
            let ghost before = p;
            p.pending.push((target, connection));
            self.processes.insert(k, p);
            proof {
                assert forall|j: int| 0 <= j < old(self).processes@.len() && j != k implies #[trigger] self.processes@[j] == old(self).processes@[j] by {
                    if j < k {
                    } else {
                    }
                }
            }
            false
        }
    }

    /// A process whose child exited is forgotten.
    pub fn forget(&mut self, k: usize)
        requires
            k < old(self).processes@.len(),
        ensures
            final(self).processes@ == old(self).processes@.remove(k as int),
            final(self).bindings@ == old(self).bindings@,
            final(self).next_seq == old(self).next_seq,
    {
        let _ = self.processes.remove(k);
    }

    /// Process `seq` attached: it is ready, and the bindings that waited for
    /// it are handed back for the host to make, in the order they came.
    pub fn attach(&mut self, seq: i64) -> (r: Option<(u64, Vec<(LaunchTarget, u64)>)>)
        ensures
            match r {
                Some((token, waiting)) => exists|k: int| 0 <= k < old(self).processes@.len()
                    && (#[trigger] old(self).processes@[k]).seq == seq
                    && token == old(self).processes@[k].token
                    && waiting@ == old(self).processes@[k].pending@
                    && final(self).processes@[k].ready
                    && final(self).processes@[k].pending@.len() == 0
                    && final(self).processes@[k].token == token
                    && final(self).processes@[k].seq == seq
                    && final(self).processes@.len() == old(self).processes@.len()
                    && forall|j: int| 0 <= j < old(self).processes@.len() && j != k ==> #[trigger] final(self).processes@[j] == old(self).processes@[j],
                None => (forall|k: int| 0 <= k < old(self).processes@.len() ==> (#[trigger] old(self).processes@[k]).seq != seq)
                    && final(self).processes@ == old(self).processes@,
            },
            final(self).bindings@ == old(self).bindings@,
            final(self).next_seq == old(self).next_seq,
    {
        let mut k: usize = 0;
        while k < self.processes.len()
            invariant
                k <= self.processes@.len(),
                self.processes@ == old(self).processes@,
                self.bindings@ == old(self).bindings@,
                self.next_seq == old(self).next_seq,
                forall|j: int| 0 <= j < k ==> (#[trigger] self.processes@[j]).seq != seq,
            decreases self.processes.len() - k,
        {
            if self.processes[k].seq == seq {
                let mut p = self.processes.remove(k);
                let mut waiting: Vec<(LaunchTarget, u64)> = Vec::new();
                std::mem::swap(&mut waiting, &mut p.pending);
                p.ready = true;
                let token = p.token;
                self.processes.insert(k, p);
                proof {
                    assert forall|j: int| 0 <= j < old(self).processes@.len() && j != k implies #[trigger] self.processes@[j] == old(self).processes@[j] by {
                        if j < k {
                        } else {
                        }
                    }
                }
                return Some((token, waiting));
            }
            k = k + 1;
        }
        None
    }

    /// Records a binding the host made with a process that attached.
    pub fn record_binding(&mut self, b: Binding)
        ensures
            final(self).bindings@ == old(self).bindings@.push(b),
            final(self).processes@ == old(self).processes@,
            final(self).next_seq == old(self).next_seq,
    {
        self.bindings.push(b);
    }

    /// A client unbound `connection`: it leaves every waiting list, its
    /// bindings are handed back (for the host to unbind), and the processes
    /// left with nothing to do are handed back too (for the host to stop).
    pub fn unbind(&mut self, connection: u64) -> (r: (Vec<Binding>, Vec<ServiceProcess>))
        ensures
            final(self).bindings@ == bindings_split(old(self).bindings@, connection, false),
            r.0@ == bindings_split(old(self).bindings@, connection, true),
            forall|k: int| 0 <= k < final(self).bindings@.len() ==> (#[trigger] final(self).bindings@[k]).connection != connection,
            forall|k: int| 0 <= k < final(self).processes@.len() ==> !idle(#[trigger] final(self).processes@[k], final(self).bindings@),
            forall|k: int| 0 <= k < r.1@.len() ==> idle(#[trigger] r.1@[k], final(self).bindings@),
            forall|k: int, j: int| 0 <= k < final(self).processes@.len() && 0 <= j < final(self).processes@[k].pending@.len()
                ==> (#[trigger] final(self).processes@[k].pending@[j]).1 != connection,
            final(self).processes@.len() + r.1@.len() == old(self).processes@.len(),
            final(self).next_seq == old(self).next_seq,
    {
        self.drop_pending(connection);
        let removed = self.split_bindings(connection);
        let ghost mid = self.processes@;
        let finished = self.take_idle();
        proof {
            assert forall|k: int, j: int| 0 <= k < self.processes@.len() && 0 <= j < self.processes@[k].pending@.len()
                implies (#[trigger] self.processes@[k].pending@[j]).1 != connection by {
                let m = choose|m: int| 0 <= m < mid.len() && self.processes@[k] == mid[m];
                assert(mid[m].pending@[j] == self.processes@[k].pending@[j]);
            }
        }
        (removed, finished)
    }

    fn drop_pending(&mut self, c: u64)
        ensures
            final(self).processes@.len() == old(self).processes@.len(),
            forall|k: int| 0 <= k < final(self).processes@.len() ==> {
                let (p, q) = (#[trigger] final(self).processes@[k], old(self).processes@[k]);
                &&& p.pending@ == pending_without(q.pending@, c)
                &&& p.seq == q.seq && p.token == q.token && p.ready == q.ready
                &&& p.caller == q.caller && p.class == q.class && p.instance == q.instance
            },
            forall|k: int, j: int| 0 <= k < final(self).processes@.len() && 0 <= j < final(self).processes@[k].pending@.len()
                ==> (#[trigger] final(self).processes@[k].pending@[j]).1 != c,
            final(self).bindings@ == old(self).bindings@,
            final(self).next_seq == old(self).next_seq,
    {
        let mut k: usize = 0;
        while k < self.processes.len()
            invariant
                k <= self.processes@.len(),
                self.processes@.len() == old(self).processes@.len(),
                forall|i: int| k <= i < self.processes@.len() ==> #[trigger] self.processes@[i] == old(self).processes@[i],
                forall|i: int| 0 <= i < k ==> {
                    let (p, q) = (#[trigger] self.processes@[i], old(self).processes@[i]);
                    &&& p.pending@ == pending_without(q.pending@, c)
                    &&& p.seq == q.seq && p.token == q.token && p.ready == q.ready
                    &&& p.caller == q.caller && p.class == q.class && p.instance == q.instance
                },
                forall|i: int, j: int| 0 <= i < k && 0 <= j < self.processes@[i].pending@.len()
                    ==> (#[trigger] self.processes@[i].pending@[j]).1 != c,
                self.bindings@ == old(self).bindings@,
                self.next_seq == old(self).next_seq,
            decreases self.processes.len() - k,
        {
            let mut p = self.processes.remove(k);
            let ghost q = p;
            let mut rest: Vec<(LaunchTarget, u64)> = Vec::new();
            std::mem::swap(&mut rest, &mut p.pending);
            let ghost orig = rest@;
            let total = rest.len();
        assert(orig.len() == total);
            let mut kept: Vec<(LaunchTarget, u64)> = Vec::new();
            let mut i: usize = 0;
            proof {
                assert(orig.take(0) =~= Seq::<(LaunchTarget, u64)>::empty());
            }
            while rest.len() > 0
                invariant
                    i + rest@.len() == orig.len(),
                    orig.len() <= usize::MAX,
                    rest@ == orig.skip(i as int),
                    kept@ == pending_without(orig.take(i as int), c),
                    forall|j: int| 0 <= j < kept@.len() ==> (#[trigger] kept@[j]).1 != c,
                decreases rest.len(),
            {
                let e = rest.remove(0);
                proof {
                    assert(orig.take(i + 1).drop_last() =~= orig.take(i as int));
                    assert(orig.take(i + 1).last() == e);
                    assert(rest@ =~= orig.skip(i + 1));
                }
                if e.1 != c {
                    kept.push(e);
                }
                i = i + 1;
            }
            proof {
                assert(orig.take(i as int) =~= orig);
            }
            p.pending = kept;
            self.processes.insert(k, p);
            proof {
                assert(self.processes@[k as int].pending@ == pending_without(q.pending@, c));
            }
            k = k + 1;
        }
    }

    fn split_bindings(&mut self, c: u64) -> (removed: Vec<Binding>)
        ensures
            final(self).bindings@ == bindings_split(old(self).bindings@, c, false),
            removed@ == bindings_split(old(self).bindings@, c, true),
            forall|k: int| 0 <= k < final(self).bindings@.len() ==> (#[trigger] final(self).bindings@[k]).connection != c,
            final(self).processes@ == old(self).processes@,
            final(self).next_seq == old(self).next_seq,
    {
        let mut rest: Vec<Binding> = Vec::new();
        std::mem::swap(&mut rest, &mut self.bindings);
        let ghost orig = rest@;
        let total = rest.len();
        assert(orig.len() == total);
        let mut kept: Vec<Binding> = Vec::new();
        let mut removed: Vec<Binding> = Vec::new();
        let mut i: usize = 0;
        proof {
            assert(orig.take(0) =~= Seq::<Binding>::empty());
        }
        while rest.len() > 0
            invariant
                i + rest@.len() == orig.len(),
                orig.len() <= usize::MAX,
                rest@ == orig.skip(i as int),
                kept@ == bindings_split(orig.take(i as int), c, false),
                removed@ == bindings_split(orig.take(i as int), c, true),
                forall|j: int| 0 <= j < kept@.len() ==> (#[trigger] kept@[j]).connection != c,
                self.processes@ == old(self).processes@,
                self.next_seq == old(self).next_seq,
                orig == old(self).bindings@,
            decreases rest.len(),
        {
            let b = rest.remove(0);
            proof {
                assert(orig.take(i + 1).drop_last() =~= orig.take(i as int));
                assert(orig.take(i + 1).last() == b);
                assert(rest@ =~= orig.skip(i + 1));
            }
            if b.connection == c {
                removed.push(b);
            } else {
                kept.push(b);
            }
            i = i + 1;
        }
        proof {
            assert(orig.take(i as int) =~= orig);
        }
        self.bindings = kept;
        removed
    }

    fn uses_token(&self, token: u64) -> (r: bool)
        ensures
            r == exists|k: int| 0 <= k < self.bindings@.len() && (#[trigger] self.bindings@[k]).service_token == token,
    {
        let mut k: usize = 0;
        while k < self.bindings.len()
            invariant
                k <= self.bindings@.len(),
                forall|j: int| 0 <= j < k ==> (#[trigger] self.bindings@[j]).service_token != token,
            decreases self.bindings.len() - k,
        {
            if self.bindings[k].service_token == token {
                return true;
            }
            k = k + 1;
        }
        false
    }

    fn take_idle(&mut self) -> (done: Vec<ServiceProcess>)
        ensures
            final(self).processes@ == processes_split(old(self).processes@, old(self).bindings@, false),
            done@ == processes_split(old(self).processes@, old(self).bindings@, true),
            forall|k: int| 0 <= k < final(self).processes@.len() ==> !idle(#[trigger] final(self).processes@[k], final(self).bindings@),
            forall|k: int| 0 <= k < done@.len() ==> idle(#[trigger] done@[k], final(self).bindings@),
            forall|k: int| 0 <= k < final(self).processes@.len() ==> exists|m: int| 0 <= m < old(self).processes@.len()
                && #[trigger] final(self).processes@[k] == old(self).processes@[m],
            final(self).processes@.len() + done@.len() == old(self).processes@.len(),
            final(self).bindings@ == old(self).bindings@,
            final(self).next_seq == old(self).next_seq,
    {
        let mut rest: Vec<ServiceProcess> = Vec::new();
        std::mem::swap(&mut rest, &mut self.processes);
        let ghost orig = rest@;
        let ghost b = self.bindings@;
        let total = rest.len();
        assert(orig.len() == total);
        let mut kept: Vec<ServiceProcess> = Vec::new();
        let mut done: Vec<ServiceProcess> = Vec::new();
        let mut i: usize = 0;
        proof {
            assert(orig.take(0) =~= Seq::<ServiceProcess>::empty());
        }
        while rest.len() > 0
            invariant
                i + rest@.len() == orig.len(),
                orig.len() <= usize::MAX,
                rest@ == orig.skip(i as int),
                self.bindings@ == b,
                b == old(self).bindings@,
                orig == old(self).processes@,
                self.next_seq == old(self).next_seq,
                kept@ == processes_split(orig.take(i as int), b, false),
                done@ == processes_split(orig.take(i as int), b, true),
                forall|j: int| 0 <= j < kept@.len() ==> !idle(#[trigger] kept@[j], b),
                forall|j: int| 0 <= j < done@.len() ==> idle(#[trigger] done@[j], b),
                forall|j: int| 0 <= j < kept@.len() ==> exists|m: int| 0 <= m < i && #[trigger] kept@[j] == orig[m],
                kept@.len() + done@.len() == i,
            decreases rest.len(),
        {
            let p = rest.remove(0);
            proof {
                assert(orig.take(i + 1).drop_last() =~= orig.take(i as int));
                assert(orig.take(i + 1).last() == p);
                assert(rest@ =~= orig.skip(i + 1));
            }
            let busy = p.pending.len() > 0 || self.uses_token(p.token);
            proof {
                assert(busy == !idle(p, b));
            }
            if busy {
                let ghost before = kept@;
                kept.push(p);
                proof {
                    assert forall|j: int| 0 <= j < kept@.len() implies exists|m: int| 0 <= m < i + 1 && #[trigger] kept@[j] == orig[m] by {
                        if j < before.len() {
                            let m = choose|m: int| 0 <= m < i && before[j] == orig[m];
                            assert(kept@[j] == orig[m]);
                        } else {
                            assert(kept@[j] == orig[i as int]);
                        }
                    }
                }
            } else {
                done.push(p);
            }
            i = i + 1;
        }
        proof {
            assert(orig.take(i as int) =~= orig);
        }
        self.processes = kept;
        done
    }
}

} // verus!
