//! The dispatcher: bounded-concurrency execution of per-domain work items.
//!
//! Each work item is independent: fetch, then persist, then record, with a
//! fetch failure short-circuiting straight to the record step.  At most
//! `concurrency` items are in flight at any instant — a pure admission cap,
//! not a rate limiter — and a finished item's slot is reused at once by the
//! next pending domain.  No item's failure affects any other item; the only
//! shared state is the progress counters.
//!
//! [`Dispatcher`] is the state of that execution model, and [`run`] drives it
//! over a list of per-item outcomes.  The binary around the library performs
//! the same per-item steps, with real network and file I/O supplying the
//! outcomes.

use crate::fetch::FetchResult;
use crate::progress::ProgressTracker;
use crate::progress::Summary;
use crate::store::FileStore;
use vstd::prelude::*;

verus! {

/// How one work item went: the outcome of its single fetch attempt, and
/// whether the write of a successful fetch's body went through.
pub struct WorkOutcome {
    pub fetch: FetchResult,
    pub persist_ok: bool,
}

/// A work item succeeds exactly when its fetch returned a body and that body
/// was persisted.
pub open spec fn outcome_ok(o: WorkOutcome) -> bool {
    o.fetch is Success && o.persist_ok
}

/// How many of the outcomes are overall successes.
pub open spec fn count_ok(outcomes: Seq<WorkOutcome>) -> int
    decreases outcomes.len(),
{
    if outcomes.len() == 0 {
        0
    } else {
        count_ok(outcomes.drop_last()) + if outcome_ok(outcomes.last()) {
            1int
        } else {
            0int
        }
    }
}

/// The output directory after the work items have run in order: each overall
/// success writes its body under its domain's name, everything else leaves
/// the directory untouched.  Later writes shadow earlier ones.
pub open spec fn store_after(
    dir: Map<Seq<char>, Seq<u8>>,
    domains: Seq<Seq<char>>,
    outcomes: Seq<WorkOutcome>,
) -> Map<Seq<char>, Seq<u8>>
    recommends
        domains.len() == outcomes.len(),
    decreases outcomes.len(),
{
    if outcomes.len() == 0 {
        dir
    } else {
        let prev = store_after(dir, domains.drop_last(), outcomes.drop_last());
        if outcome_ok(outcomes.last()) {
            prev.insert(domains[outcomes.len() - 1], outcomes.last().fetch.body())
        } else {
            prev
        }
    }
}

/// One work item, taken from its outcome to its record: a successful fetch's body
/// is persisted under the domain's name; a timeout or transport failure
/// skips the persist step; a persist failure makes the item a failure even
/// though its fetch succeeded.
pub fn process_item(domain: &String, outcome: &WorkOutcome, store: &mut FileStore) -> (succeeded:
    bool)
    ensures
        succeeded == outcome_ok(*outcome),
        outcome_ok(*outcome) ==> final(store)@ == old(store)@.insert(
            domain@,
            outcome.fetch.body(),
        ),
        !outcome_ok(*outcome) ==> final(store)@ == old(store)@,
        outcome.fetch is Timeout ==> !succeeded && final(store)@ == old(store)@,
        outcome.fetch is Success && !outcome.persist_ok ==> !succeeded,
        final(store).write_count() == old(store).write_count() + (if outcome_ok(*outcome) {
            1int
        } else {
            0int
        }),
{
    match &outcome.fetch {
        FetchResult::Success(bytes) => {
            if outcome.persist_ok {
                let copy = bytes.clone();
                proof {
                    assert(copy@ =~= bytes@);
                }
                store.persist(domain, copy);
                true
            } else {
                false
            }
        },
        _ => false,
    }
}

/// Admission control for the fan-out: how many domains have been handed to a
/// work item, how many items are still in flight, and the shared progress
/// counters they report into.
pub struct Dispatcher {
    pub concurrency: usize,
    pub launched: u64,
    pub in_flight: usize,
    pub tracker: ProgressTracker,
}

impl Dispatcher {
    /// Every reachable dispatcher state: the cap is respected, every launched
    /// item is either still in flight or already recorded, and no more items
    /// launch than there are domains.
    pub open spec fn wf(&self) -> bool {
        &&& self.concurrency >= 1
        &&& self.in_flight <= self.concurrency
        &&& self.tracker.wf()
        &&& self.launched == self.tracker.completed + self.in_flight
        &&& self.launched <= self.tracker.total
    }

    pub fn new(total: u64, concurrency: usize) -> (d: Dispatcher)
        requires
            concurrency >= 1,
        ensures
            d.wf(),
            d.concurrency == concurrency,
            d.launched == 0,
            d.in_flight == 0,
            d.tracker.total == total,
            d.tracker.completed == 0,
            d.tracker.succeeded == 0,
    {
        Dispatcher { concurrency, launched: 0, in_flight: 0, tracker: ProgressTracker::new(total) }
    }

    /// Another fetch may start only while a domain is pending and a slot is
    /// free under the cap.
    pub fn can_launch(&self) -> (b: bool)
        ensures
            b == (self.launched < self.tracker.total && self.in_flight < self.concurrency),
    {
        self.launched < self.tracker.total && self.in_flight < self.concurrency
    }

    /// Admit the next pending domain into a free slot.
    pub fn launch(&mut self)
        requires
            old(self).wf(),
            old(self).launched < old(self).tracker.total,
            old(self).in_flight < old(self).concurrency,
        ensures
            final(self).wf(),
            final(self).concurrency == old(self).concurrency,
            final(self).launched == old(self).launched + 1,
            final(self).in_flight == old(self).in_flight + 1,
            final(self).tracker == old(self).tracker,
    {
        self.launched = self.launched + 1;
        self.in_flight = self.in_flight + 1;
    }

    /// An in-flight item finished: free its slot and record its result,
    /// exactly once.
    pub fn complete(&mut self, succeeded: bool)
        requires
            old(self).wf(),
            old(self).in_flight >= 1,
        ensures
            final(self).wf(),
            final(self).concurrency == old(self).concurrency,
            final(self).launched == old(self).launched,
            final(self).in_flight == old(self).in_flight - 1,
            final(self).tracker.total == old(self).tracker.total,
            final(self).tracker.completed == old(self).tracker.completed + 1,
            final(self).tracker.succeeded == old(self).tracker.succeeded + (if succeeded {
                1int
            } else {
                0int
            }),
    {
        self.in_flight = self.in_flight - 1;
        self.tracker.record_completion(succeeded);
    }

    /// A run is over when every domain has launched and no item is left in
    /// flight.
    pub fn is_done(&self) -> (b: bool)
        ensures
            b == (self.launched == self.tracker.total && self.in_flight == 0),
    {
        self.launched == self.tracker.total && self.in_flight == 0
    }
}

/// Law: the concurrency cap is never exceeded — in every reachable dispatcher
/// state, at most `concurrency` work items are in flight.
pub proof fn lemma_in_flight_bounded(d: Dispatcher)
    requires
        d.wf(),
    ensures
        d.in_flight <= d.concurrency,
{
}

/// Law: when a run ends — everything launched, nothing left in flight —
/// every domain has been recorded exactly once: `completed == total`, and
/// successes cannot outnumber the domains.
pub proof fn lemma_done_accounts_for_all(d: Dispatcher)
    requires
        d.wf(),
        d.launched == d.tracker.total,
        d.in_flight == 0,
    ensures
        d.tracker.completed == d.tracker.total,
        d.tracker.succeeded <= d.tracker.total,
{
}

/// Run the whole batch: keep up to `concurrency` work items in flight,
/// refilling each slot the instant an item completes (items complete here in
/// launch order), record every outcome exactly once, and return the final
/// summary.  `outcomes[i]` is how the work item for `domains[i]` went.
pub fn run(
    domains: &Vec<String>,
    concurrency: usize,
    outcomes: &Vec<WorkOutcome>,
    store: &mut FileStore,
) -> (s: Summary)
    requires
        concurrency >= 1,
        outcomes@.len() == domains@.len(),
        domains@.len() <= u64::MAX,
    ensures
        s.total == domains@.len(),
        s.completed == s.total,
        0 <= s.succeeded <= s.total,
        s.succeeded == count_ok(outcomes@),
        final(store)@ == store_after(old(store)@, domains.deep_view(), outcomes@),
        final(store).write_count() == old(store).write_count() + count_ok(outcomes@),
{
    let ghost dir0 = store@;
    let ghost writes0 = store.write_count();
    let total_n: usize = domains.len();
    let total: u64 = total_n as u64;
    let mut disp = Dispatcher::new(total, concurrency);
    let mut next: usize = 0;
    let mut done: usize = 0;
    while done < total_n
        invariant
            total_n == domains@.len(),
            total == total_n,
            outcomes@.len() == total_n,
            disp.wf(),
            disp.concurrency == concurrency,
            disp.tracker.total == total,
            disp.launched == next,
            disp.in_flight == next - done,
            disp.tracker.completed == done,
            done <= next <= total_n,
            disp.tracker.succeeded == count_ok(outcomes@.take(done as int)),
            store@ == store_after(
                dir0,
                domains.deep_view().take(done as int),
                outcomes@.take(done as int),
            ),
            store.write_count() == writes0 + count_ok(outcomes@.take(done as int)),
        decreases 2 * total_n - next - done,
    {
        if disp.can_launch() {
            disp.launch();
            next = next + 1;
        } else {
            let ok = process_item(&domains[done], &outcomes[done], store);
            disp.complete(ok);
            proof {
                assert(outcomes@.take(done + 1).drop_last() =~= outcomes@.take(done as int));
                assert(domains.deep_view().take(done + 1).drop_last() =~= domains.deep_view().take(
                    done as int,
                ));
                assert(outcomes@.take(done + 1).last() == outcomes@[done as int]);
                assert(domains.deep_view()[done as int] == domains@[done as int]@);
            }
            done = done + 1;
        }
    }
    proof {
        assert(outcomes@.take(total_n as int) =~= outcomes@);
        assert(domains.deep_view().take(total_n as int) =~= domains.deep_view());
    }
    disp.tracker.summary()
}

} // verus!
