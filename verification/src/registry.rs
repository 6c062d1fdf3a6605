//! Bookkeeping for oneshot interest registrations.
//!
//! The registry is the platform-independent half of a poller backend: it
//! records which raw handle is registered with which interest and key, and
//! it decides which readiness records a kernel report turns into. The
//! kernel wait itself belongs to the platform half, outside this crate.

use vstd::prelude::*;
use std::collections::HashMap;
use crate::Event;
use crate::syscall::OsError;

verus! {

broadcast use vstd::std_specs::hash::group_hash_axioms;

/// The readable/writable conditions a registration watches for.
#[derive(Clone, Copy, PartialEq, Eq, Structural, Debug)]
pub struct Interest {
    /// Watch for the read-side condition.
    pub readable: bool,
    /// Watch for the write-side condition.
    pub writable: bool,
}

impl Interest {
    /// Watch only the read-side condition.
    pub fn readable_only() -> (r: Interest)
        ensures
            r.readable,
            !r.writable,
    {
        Interest { readable: true, writable: false }
    }

    /// Watch only the write-side condition.
    pub fn writable_only() -> (r: Interest)
        ensures
            !r.readable,
            r.writable,
    {
        Interest { readable: false, writable: true }
    }

    /// Watch both conditions.
    pub fn both() -> (r: Interest)
        ensures
            r.readable,
            r.writable,
    {
        Interest { readable: true, writable: true }
    }
}

/// Readiness the kernel reported for one raw handle, already translated
/// out of the platform's native event bits.
#[derive(Clone, Copy, PartialEq, Eq, Structural, Debug)]
pub struct RawReadiness {
    /// The raw handle the kernel reported on.
    pub handle: u64,
    /// The kernel saw the read-side condition.
    pub readable: bool,
    /// The kernel saw the write-side condition.
    pub writable: bool,
}

/// Per-handle registration state: the watched interest, the caller's key,
/// and whether the registration is still armed. Oneshot policy: a
/// registration disarms when it fires and stays silent until `modify`
/// re-arms it.
#[derive(Clone, Copy, PartialEq, Eq, Structural, Debug)]
pub struct Registration {
    /// The interest the caller registered.
    pub interest: Interest,
    /// The caller's opaque correlation key.
    pub key: usize,
    /// Whether the registration may still fire.
    pub armed: bool,
}

/// Why the registry refused an operation.
#[derive(Clone, Copy, PartialEq, Eq, Structural, Debug)]
pub enum RegistryError {
    /// `register` on a handle that already has a registration.
    AlreadyRegistered,
    /// `modify` or `deregister` on a handle that has none.
    NotRegistered,
}

/// Whether a kernel report for `reg`'s handle makes the registration
/// fire: it must still be armed, and the reported readiness must cover
/// some condition the registered interest watches.
pub open spec fn fires(reg: Registration, rep: RawReadiness) -> bool {
    reg.armed && ((rep.readable && reg.interest.readable) || (rep.writable
        && reg.interest.writable))
}

/// The readiness record a firing registration produces: the caller's key,
/// with the reported readiness masked down to the registered interest.
pub open spec fn record_of(reg: Registration, rep: RawReadiness) -> Event {
    Event {
        key: reg.key,
        readable: rep.readable && reg.interest.readable,
        writable: rep.writable && reg.interest.writable,
    }
}

/// The registration after it fired: same interest and key, disarmed.
pub open spec fn disarm(reg: Registration) -> Registration {
    Registration { interest: reg.interest, key: reg.key, armed: false }
}

/// How one reported readiness changes the registrations: a firing
/// registration emits its record and disarms; anything else — an
/// unregistered handle, a disarmed registration, or readiness outside the
/// registered interest — emits nothing and changes nothing.
pub open spec fn step(m: Map<u64, Registration>, rep: RawReadiness) -> (Option<Event>, Map<
    u64,
    Registration,
>) {
    if m.contains_key(rep.handle) && fires(m[rep.handle], rep) {
        (Some(record_of(m[rep.handle], rep)), m.insert(rep.handle, disarm(m[rep.handle])))
    } else {
        (None, m)
    }
}

/// The records a whole kernel report turns into, and the registrations
/// left behind, processing the reported readiness in order.
pub open spec fn collect_spec(m: Map<u64, Registration>, reps: Seq<RawReadiness>) -> (Seq<Event>,
Map<u64, Registration>)
    decreases reps.len(),
{
    if reps.len() == 0 {
        (Seq::<Event>::empty(), m)
    } else {
        let prefix = collect_spec(m, reps.drop_last());
        let stepped = step(prefix.1, reps.last());
        (
            match stepped.0 {
                Some(ev) => prefix.0.push(ev),
                None => prefix.0,
            },
            stepped.1,
        )
    }
}

/// The caller's keys identify registrations uniquely: no two registered
/// handles share a key. The key's meaning is the caller's alone; the
/// caller supplies one key per registration.
pub open spec fn key_injective(m: Map<u64, Registration>) -> bool {
    forall|h1: u64, h2: u64|
        #![trigger m[h1].key, m[h2].key]
        m.contains_key(h1) && m.contains_key(h2) && m[h1].key == m[h2].key ==> h1 == h2
}

/// How many records in `events` carry the key `k`.
pub open spec fn count_key(events: Seq<Event>, k: usize) -> nat
    decreases events.len(),
{
    if events.len() == 0 {
        0
    } else {
        count_key(events.drop_last(), k) + if events.last().key == k {
            1nat
        } else {
            0nat
        }
    }
}

/// Whether some entry of the report `reps` concerns handle `h` and makes
/// the registration `reg` fire.
pub open spec fn fired_by(reps: Seq<RawReadiness>, h: u64, reg: Registration) -> bool {
    exists|i: int| 0 <= i < reps.len() && (#[trigger] reps[i]).handle == h && fires(reg, reps[i])
}

/// Collecting a report never adds or removes a registration, never
/// changes a registration's interest or key, and only ever disarms.
pub proof fn lemma_collect_frame(m: Map<u64, Registration>, reps: Seq<RawReadiness>)
    ensures
        collect_spec(m, reps).1.dom() == m.dom(),
        forall|h: u64|
            m.contains_key(h) ==> (#[trigger] collect_spec(m, reps).1[h]).key == m[h].key
                && collect_spec(m, reps).1[h].interest == m[h].interest && (collect_spec(
                m,
                reps,
            ).1[h].armed ==> m[h].armed),
    decreases reps.len(),
{
    if reps.len() == 0 {
    } else {
        lemma_collect_frame(m, reps.drop_last());
        let m1 = collect_spec(m, reps.drop_last()).1;
        let stepped = step(m1, reps.last());
        assert(stepped.1.dom() =~= m1.dom());
    }
}

proof fn lemma_fired_by_snoc(reps: Seq<RawReadiness>, h: u64, reg: Registration)
    requires
        reps.len() > 0,
    ensures
        fired_by(reps, h, reg) <==> (fired_by(reps.drop_last(), h, reg) || (reps.last().handle == h
            && fires(reg, reps.last()))),
{
    let prefix = reps.drop_last();
    if fired_by(prefix, h, reg) {
        let i = choose|i: int|
            0 <= i < prefix.len() && (#[trigger] prefix[i]).handle == h && fires(reg, prefix[i]);
        assert(reps[i].handle == h && fires(reg, reps[i]));
    }
    if reps.last().handle == h && fires(reg, reps.last()) {
        let j: int = reps.len() - 1;
        assert(reps[j].handle == h && fires(reg, reps[j]));
    }
    if fired_by(reps, h, reg) {
        let i = choose|i: int|
            0 <= i < reps.len() && (#[trigger] reps[i]).handle == h && fires(reg, reps[i]);
        if i < reps.len() - 1 {
            assert(prefix[i].handle == h && fires(reg, prefix[i]));
        }
    }
}

proof fn lemma_oneshot_collect(m: Map<u64, Registration>, reps: Seq<RawReadiness>, h: u64)
    requires
        key_injective(m),
        m.contains_key(h),
    ensures
        !m[h].armed ==> count_key(collect_spec(m, reps).0, m[h].key) == 0 && collect_spec(
            m,
            reps,
        ).1[h] == m[h],
        m[h].armed && !fired_by(reps, h, m[h]) ==> count_key(collect_spec(m, reps).0, m[h].key) == 0
            && collect_spec(m, reps).1[h] == m[h],
        m[h].armed && fired_by(reps, h, m[h]) ==> count_key(collect_spec(m, reps).0, m[h].key) == 1
            && collect_spec(m, reps).1[h] == disarm(m[h]),
        forall|j: int|
            0 <= j < collect_spec(m, reps).0.len() && (#[trigger] collect_spec(m, reps).0[j]).key
                == m[h].key ==> (collect_spec(m, reps).0[j].readable ==> m[h].interest.readable)
                && (collect_spec(m, reps).0[j].writable ==> m[h].interest.writable),
    decreases reps.len(),
{
    if reps.len() == 0 {
    } else {
        let prefix = reps.drop_last();
        let last = reps.last();
        let k = m[h].key;
        lemma_oneshot_collect(m, prefix, h);
        lemma_collect_frame(m, prefix);
        lemma_fired_by_snoc(reps, h, m[h]);
        let es1 = collect_spec(m, prefix).0;
        let m1 = collect_spec(m, prefix).1;
        let stepped = step(m1, last);
        if m1.contains_key(last.handle) && fires(m1[last.handle], last) && last.handle != h {
            assert(m[last.handle].key == k ==> last.handle == h);
            assert(m1[last.handle].key != k);
        }
        match stepped.0 {
            Some(ev) => {
                assert(es1.push(ev).drop_last() =~= es1);
                assert(es1.push(ev).last() == ev);
                assert forall|j: int|
                    0 <= j < collect_spec(m, reps).0.len() && (#[trigger] collect_spec(
                        m,
                        reps,
                    ).0[j]).key == k implies (collect_spec(m, reps).0[j].readable
                    ==> m[h].interest.readable) && (collect_spec(m, reps).0[j].writable
                    ==> m[h].interest.writable) by {
                    if j < es1.len() {
                        assert(collect_spec(m, reps).0[j] == es1[j]);
                    } else {
                        assert(collect_spec(m, reps).0[j] == ev);
                    }
                }
            },
            None => {},
        }
    }
}

/// Oneshot delivery: when the kernel reports readiness covering an armed
/// registration's interest, collecting the report produces exactly one
/// record with that registration's key, its readiness masked down to the
/// registered interest, and leaves the registration disarmed.
pub proof fn lemma_oneshot_single_delivery(
    m: Map<u64, Registration>,
    reps: Seq<RawReadiness>,
    h: u64,
)
    requires
        key_injective(m),
        m.contains_key(h),
        m[h].armed,
        fired_by(reps, h, m[h]),
    ensures
        count_key(collect_spec(m, reps).0, m[h].key) == 1,
        collect_spec(m, reps).1[h] == disarm(m[h]),
        forall|j: int|
            0 <= j < collect_spec(m, reps).0.len() && (#[trigger] collect_spec(m, reps).0[j]).key
                == m[h].key ==> (collect_spec(m, reps).0[j].readable ==> m[h].interest.readable)
                && (collect_spec(m, reps).0[j].writable ==> m[h].interest.writable),
{
    lemma_oneshot_collect(m, reps, h);
}

/// Oneshot silence: a disarmed registration produces no further record,
/// whatever the kernel reports, and is left exactly as it was — until
/// `modify` re-arms it, which its contract states.
pub proof fn lemma_disarmed_stays_silent(
    m: Map<u64, Registration>,
    reps: Seq<RawReadiness>,
    h: u64,
)
    requires
        key_injective(m),
        m.contains_key(h),
        !m[h].armed,
    ensures
        count_key(collect_spec(m, reps).0, m[h].key) == 0,
        collect_spec(m, reps).1[h] == m[h],
{
    lemma_oneshot_collect(m, reps, h);
}

/// An empty kernel report — a timed-out or woken wait — yields no
/// records and leaves every registration unchanged.
pub proof fn lemma_empty_report_no_records(m: Map<u64, Registration>)
    ensures
        collect_spec(m, Seq::<RawReadiness>::empty()).0 == Seq::<Event>::empty(),
        collect_spec(m, Seq::<RawReadiness>::empty()).1 == m,
{
}

/// Collecting a report keeps the registered keys pairwise distinct.
pub proof fn lemma_collect_preserves_key_injective(
    m: Map<u64, Registration>,
    reps: Seq<RawReadiness>,
)
    requires
        key_injective(m),
    ensures
        key_injective(collect_spec(m, reps).1),
{
    lemma_collect_frame(m, reps);
    let mf = collect_spec(m, reps).1;
    assert forall|h1: u64, h2: u64|
        mf.contains_key(h1) && mf.contains_key(h2) && #[trigger] mf[h1].key == #[trigger] mf[h2].key
        implies h1 == h2 by {
        assert(mf[h1].key == m[h1].key);
        assert(mf[h2].key == m[h2].key);
    }
}

/// Once a registration has fired, collecting any later report produces no
/// further record with its key and leaves it disarmed — the oneshot
/// invariant across wait calls, holding until `modify` re-arms it.
pub proof fn lemma_no_refire_across_waits(
    m: Map<u64, Registration>,
    reps1: Seq<RawReadiness>,
    reps2: Seq<RawReadiness>,
    h: u64,
)
    requires
        key_injective(m),
        m.contains_key(h),
        m[h].armed,
        fired_by(reps1, h, m[h]),
    ensures
        count_key(collect_spec(collect_spec(m, reps1).1, reps2).0, m[h].key) == 0,
        collect_spec(collect_spec(m, reps1).1, reps2).1[h] == disarm(m[h]),
{
    lemma_oneshot_single_delivery(m, reps1, h);
    lemma_collect_preserves_key_injective(m, reps1);
    lemma_collect_frame(m, reps1);
    let m1 = collect_spec(m, reps1).1;
    lemma_disarmed_stays_silent(m1, reps2, h);
}

/// What the platform half's kernel wait came back with. The timeout
/// elapsing and a concurrent `notify` racing to unblock the wait are both
/// valid, non-error outcomes.
pub enum WaitOutcome {
    /// The kernel reported readiness for these handles.
    Ready(Vec<RawReadiness>),
    /// The timeout elapsed with no registered handle ready.
    TimedOut,
    /// A concurrent `notify` woke the wait, with no readiness to report.
    Notified,
    /// The kernel wait itself failed; this is surfaced, never swallowed.
    Failed(OsError),
}

/// All live registrations, keyed by raw handle. Exactly one registration
/// exists per handle at a time; the raw handles themselves are borrowed,
/// never owned, so closing them remains the caller's responsibility.
pub struct Registry {
    entries: HashMap<u64, Registration>,
}

impl View for Registry {
    type V = Map<u64, Registration>;

    closed spec fn view(&self) -> Map<u64, Registration> {
        self.entries@
    }
}

impl Registry {
    /// A registry with no registrations.
    pub fn new() -> (r: Registry)
        ensures
            r@ == Map::<u64, Registration>::empty(),
    {
        Registry { entries: HashMap::new() }
    }

    /// How many handles are currently registered.
    pub fn len(&self) -> (n: usize)
        ensures
            n == self@.len(),
    {
        self.entries.len()
    }

    /// Whether `handle` currently has a registration.
    pub fn is_registered(&self, handle: u64) -> (r: bool)
        ensures
            r == self@.contains_key(handle),
    {
        self.entries.contains_key(&handle)
    }

    /// The current registration for `handle`, if any.
    pub fn registration(&self, handle: u64) -> (r: Option<Registration>)
        ensures
            self@.contains_key(handle) ==> r == Some::<Registration>(self@[handle]),
            !self@.contains_key(handle) ==> r == None::<Registration>,
    {
        match self.entries.get(&handle) {
            Some(reg) => Some(*reg),
            None => None,
        }
    }

    /// Adds a new armed registration for `handle`. Fails if the handle is
    /// already registered, leaving the existing registration untouched.
    pub fn register(&mut self, handle: u64, interest: Interest, key: usize) -> (r: Result<
        (),
        RegistryError,
    >)
        ensures
            old(self)@.contains_key(handle) ==> r == Err::<(), RegistryError>(
                RegistryError::AlreadyRegistered,
            ) && final(self)@ == old(self)@,
            !old(self)@.contains_key(handle) ==> r == Ok::<(), RegistryError>(()) && final(self)@ == old(
                self,
            )@.insert(handle, (Registration { interest, key, armed: true })),
    {
        if self.entries.contains_key(&handle) {
            Err(RegistryError::AlreadyRegistered)
        } else {
            self.entries.insert(handle, Registration { interest, key, armed: true });
            Ok(())
        }
    }

    /// Replaces the interest and key for an already-registered handle and
    /// re-arms it. Fails if the handle is not registered, changing nothing.
    pub fn modify(&mut self, handle: u64, interest: Interest, key: usize) -> (r: Result<
        (),
        RegistryError,
    >)
        ensures
            old(self)@.contains_key(handle) ==> r == Ok::<(), RegistryError>(()) && final(self)@ == old(
                self,
            )@.insert(handle, (Registration { interest, key, armed: true })),
            !old(self)@.contains_key(handle) ==> r == Err::<(), RegistryError>(
                RegistryError::NotRegistered,
            ) && final(self)@ == old(self)@,
    {
        if self.entries.contains_key(&handle) {
            self.entries.insert(handle, Registration { interest, key, armed: true });
            Ok(())
        } else {
            Err(RegistryError::NotRegistered)
        }
    }

    /// Removes the registration for `handle`; later kernel reports for it
    /// turn into no records. Fails if the handle is not registered.
    pub fn deregister(&mut self, handle: u64) -> (r: Result<(), RegistryError>)
        ensures
            old(self)@.contains_key(handle) ==> r == Ok::<(), RegistryError>(()) && final(self)@ == old(
                self,
            )@.remove(handle),
            !old(self)@.contains_key(handle) ==> r == Err::<(), RegistryError>(
                RegistryError::NotRegistered,
            ) && final(self)@ == old(self)@,
    {
        if self.entries.contains_key(&handle) {
            self.entries.remove(&handle);
            Ok(())
        } else {
            Err(RegistryError::NotRegistered)
        }
    }

    /// Turns a kernel report into the readiness records owed to the
    /// caller, disarming every registration that fires (oneshot). A
    /// handle the kernel reports twice in one report fires at most once.
    pub fn collect_events(&mut self, reported: &Vec<RawReadiness>) -> (events: Vec<Event>)
        ensures
            events@ == collect_spec(old(self)@, reported@).0,
            final(self)@ == collect_spec(old(self)@, reported@).1,
    {
        let ghost m0: Map<u64, Registration> = self@;
        let mut events: Vec<Event> = Vec::new();
        let mut i: usize = 0;
        while i < reported.len()
            invariant
                i <= reported@.len(),
                events@ == collect_spec(m0, reported@.take(i as int)).0,
                self@ == collect_spec(m0, reported@.take(i as int)).1,
            decreases reported@.len() - i,
        {
            let rep: RawReadiness = reported[i];
            let reg_now: Option<Registration> = match self.entries.get(&rep.handle) {
                Some(reg) => Some(*reg),
                None => None,
            };
            match reg_now {
                Some(reg) => {
                    if reg.armed && ((rep.readable && reg.interest.readable) || (rep.writable
                        && reg.interest.writable)) {
                        events.push(
                            Event {
                                key: reg.key,
                                readable: rep.readable && reg.interest.readable,
                                writable: rep.writable && reg.interest.writable,
                            },
                        );
                        self.entries.insert(
                            rep.handle,
                            Registration { interest: reg.interest, key: reg.key, armed: false },
                        );
                    }
                },
                None => {},
            }
            proof {
                assert(reported@.take(i + 1).drop_last() =~= reported@.take(i as int));
                assert(reported@.take(i + 1).last() == reported@[i as int]);
            }
            i = i + 1;
        }
        proof {
            assert(reported@.take(reported@.len() as int) =~= reported@);
        }
        events
    }

    /// The records one wait call yields, given what the kernel wait came
    /// back with: a readiness report is collected under the oneshot
    /// policy; a timeout or a wake by `notify` yields no records and
    /// changes no registration; a kernel failure is surfaced as is.
    pub fn wait_result(&mut self, outcome: WaitOutcome) -> (r: Result<Vec<Event>, OsError>)
        ensures
            match outcome {
                WaitOutcome::Ready(reps) => r matches Ok(events) && events@ == collect_spec(
                    old(self)@,
                    reps@,
                ).0 && final(self)@ == collect_spec(old(self)@, reps@).1,
                WaitOutcome::TimedOut => r matches Ok(events) && events@ == Seq::<Event>::empty()
                    && final(self)@ == old(self)@,
                WaitOutcome::Notified => r matches Ok(events) && events@ == Seq::<Event>::empty()
                    && final(self)@ == old(self)@,
                WaitOutcome::Failed(e) => r == Err::<Vec<Event>, OsError>(e) && final(self)@ == old(
                    self,
                )@,
            },
    {
        match outcome {
            WaitOutcome::Ready(reps) => Ok(self.collect_events(&reps)),
            WaitOutcome::TimedOut => Ok(Vec::new()),
            WaitOutcome::Notified => Ok(Vec::new()),
            WaitOutcome::Failed(e) => Err(e),
        }
    }
}

} // verus!

