//! Whole runs: a run is driven through a world that answers every action,
//! and what holds after any number of steps is proved here.

use crate::collection::link_url;
use crate::ledger::lemma_with_name;
use crate::run::{
    lemma_first_unrecorded, lemma_next_keeps_names, lemma_next_keeps_wf,
    lemma_next_never_goes_back, lemma_stored_within_ledger, AbortReason, Phase, RunState, Signal,
    Task,
};
use crate::upload::{upload_of, Outcome, Upload};
use vstd::prelude::*;

verus! {

/// The outside of a run: the event with which each action is answered. The
/// same action always gets the same answer.
pub struct World {
    pub answer: spec_fn(Task) -> Signal,
}

impl World {
    /// Whether the world answers this upload with an outcome that records
    /// the file.
    pub open spec fn records(self, upload: Upload) -> bool {
        match (self.answer)(Task::Upload(upload)) {
            Signal::Uploaded(outcome) => outcome.recorded(),
            _ => false,
        }
    }
}

impl RunState {
    /// The run after the world has answered what it waits for.
    pub open spec fn advance(self, world: World) -> RunState {
        self.next((world.answer)(self.pending()))
    }

    /// The run after `steps` answers of the world.
    pub open spec fn after(self, world: World, steps: nat) -> RunState
        decreases steps,
    {
        if steps == 0 {
            self
        } else {
            self.advance(world).after(world, (steps - 1) as nat)
        }
    }

    /// The same run begun anew from the ledger file `names`.
    pub open spec fn rerun_from(self, names: Seq<Seq<char>>) -> RunState {
        RunState { ledger: names, stored: names, ..self }
    }

    /// Whether the directory has not been scanned yet.
    pub open spec fn before_scan(self) -> bool {
        self.phase is Init || self.phase is Resolving || self.phase is Locating
            || self.phase is Scanning
    }

    /// Whether two runs talk to the same server on the same files.
    pub open spec fn same_setting(self, other: RunState) -> bool {
        &&& self.candidates == other.candidates
        &&& self.api_key == other.api_key
        &&& self.collection_name == other.collection_name
        &&& self.base_url == other.base_url
        &&& self.collection_id == other.collection_id
        &&& self.queue == other.queue
    }

    /// The upload of the file at place `k` of the queue.
    pub open spec fn upload_at(self, k: int) -> Upload {
        upload_of(self.queue[k], self.base_url, self.api_key)
    }

    /// The file at place `k` needs no further upload in this world: the
    /// ledger holds its name, or its upload is not answered by an outcome
    /// that records it.
    pub open spec fn settled_at(self, world: World, k: int) -> bool {
        self.ledger.contains(self.queue[k].filename) || !world.records(self.upload_at(k))
    }

    /// Every file that the run has passed is settled.
    pub open spec fn passed_settled(self, world: World) -> bool {
        forall|k: int| 0 <= k < self.cursor ==> #[trigger] self.settled_at(world, k)
    }

    /// The run is idle with respect to the ledger `names`: it has recorded,
    /// written and counted nothing beyond it, links and commits nothing,
    /// and waits for no upload that would record a file.
    pub open spec fn adds_nothing_to(self, world: World, names: Seq<Seq<char>>) -> bool {
        &&& self.processed == 0
        &&& self.ledger == names
        &&& self.stored == names
        &&& !(self.phase is Linking)
        &&& !(self.phase is Committing)
        &&& self.phase is Uploading ==> !world.records(self.upload_at(self.cursor))
    }
}

/// Steps add up: `a + b` steps are `a` steps and then `b` more.
pub proof fn lemma_after_sum(state: RunState, world: World, a: nat, b: nat)
    ensures
        state.after(world, a + b) == state.after(world, a).after(world, b),
    decreases a,
{
    if a > 0 {
        lemma_after_sum(state.advance(world), world, (a - 1) as nat, b);
    }
}

/// A well-formed run stays well formed, however many steps it takes.
pub proof fn lemma_after_keeps_wf(state: RunState, world: World, steps: nat)
    requires
        state.wf(),
    ensures
        state.after(world, steps).wf(),
    decreases steps,
{
    if steps > 0 {
        lemma_next_keeps_wf(state, (world.answer)(state.pending()));
        lemma_after_keeps_wf(state.advance(world), world, (steps - 1) as nat);
    }
}

/// A run that has ended does not change any more.
pub proof fn lemma_ended_stays(state: RunState, world: World, steps: nat)
    requires
        state.ended(),
    ensures
        state.after(world, steps) == state,
    decreases steps,
{
    if steps > 0 {
        lemma_ended_stays(state, world, (steps - 1) as nat);
    }
}

/// The ledger only grows: whatever the world answers and however long the
/// run goes on, every name that the ledger held is still in it, and every
/// name that the ledger file held is still in the file.
pub proof fn lemma_ledger_only_grows(state: RunState, world: World, steps: nat)
    requires
        state.wf(),
    ensures
        forall|name: Seq<char>|
            state.ledger.contains(name) ==> #[trigger] state.after(world, steps).ledger.contains(
                name,
            ),
        forall|name: Seq<char>|
            state.stored.contains(name) ==> #[trigger] state.after(world, steps).stored.contains(
                name,
            ),
    decreases steps,
{
    if steps > 0 {
        let stepped = state.advance(world);
        lemma_next_keeps_names(state, (world.answer)(state.pending()));
        lemma_next_keeps_wf(state, (world.answer)(state.pending()));
        lemma_ledger_only_grows(stepped, world, (steps - 1) as nat);
        assert forall|name: Seq<char>| state.ledger.contains(name) implies #[trigger] state.after(
            world,
            steps,
        ).ledger.contains(name) by {
            assert(stepped.ledger.contains(name));
        }
        assert forall|name: Seq<char>| state.stored.contains(name) implies #[trigger] state.after(
            world,
            steps,
        ).stored.contains(name) by {
            assert(stepped.stored.contains(name));
        }
    }
}

/// A run never goes back to an earlier stage, however long it goes on.
pub proof fn lemma_after_never_goes_back(state: RunState, world: World, steps: nat)
    ensures
        state.after(world, steps).stage() >= state.stage(),
    decreases steps,
{
    if steps > 0 {
        lemma_next_never_goes_back(state, (world.answer)(state.pending()));
        lemma_after_never_goes_back(state.advance(world), world, (steps - 1) as nat);
    }
}

/// The count that a run reports is the number of names that it has added to
/// the ledger file.
pub proof fn lemma_count_is_growth(init: RunState, world: World, steps: nat)
    requires
        init.wf(),
    ensures
        init.after(world, steps).stored.len() - init.after(world, steps).processed
            == init.stored.len() - init.processed,
    decreases steps,
{
    if steps > 0 {
        lemma_next_keeps_wf(init, (world.answer)(init.pending()));
        lemma_count_is_growth(init.advance(world), world, (steps - 1) as nat);
    }
}

/// A run that stops early for any reason but a failed write leaves the
/// ledger and its file untouched, and has uploaded nothing.
pub proof fn lemma_early_stop_leaves_ledger(init: RunState, world: World, steps: nat)
    requires
        init.wf(),
        init.before_scan(),
        init.after(world, steps).phase is Aborted,
        init.after(world, steps).phase != Phase::Aborted(AbortReason::LedgerNotSaved),
    ensures
        init.after(world, steps).ledger == init.ledger,
        init.after(world, steps).stored == init.stored,
        init.after(world, steps).processed == 0,
        init.after(world, steps).queue.len() == 0,
    decreases steps,
{
    if steps > 0 {
        let event = (world.answer)(init.pending());
        let stepped = init.next(event);
        lemma_next_keeps_wf(init, event);
        if stepped.before_scan() {
            lemma_early_stop_leaves_ledger(stepped, world, (steps - 1) as nat);
        } else if stepped.phase is Aborted {
            lemma_ended_stays(stepped, world, (steps - 1) as nat);
        } else {
            lemma_after_keeps_setting(stepped, world, (steps - 1) as nat);
        }
    }
}

/// A stop at any moment loses at most the file in flight: whatever the
/// ledger holds beyond the ledger file is the name of the one file that is
/// being committed, or whose commit could not be written.
pub proof fn lemma_unsaved_is_in_flight(init: RunState, world: World, steps: nat)
    requires
        init.wf(),
    ensures
        ({
            let state = init.after(world, steps);
            forall|name: Seq<char>|
                state.ledger.contains(name) && !state.stored.contains(name) ==> (state.phase
                    is Committing || state.phase is Aborted) && state.cursor < state.queue.len()
                    && name == state.current().filename
        }),
{
    lemma_after_keeps_wf(init, world, steps);
    let state = init.after(world, steps);
    if state.ledger != state.stored {
        lemma_with_name(state.stored, state.current().filename);
        assert forall|name: Seq<char>|
            state.ledger.contains(name) && !state.stored.contains(name) implies name
            == state.current().filename by {
            let i = choose|i: int| 0 <= i < state.ledger.len() && state.ledger[i] == name;
            if i < state.stored.len() {
                assert(state.stored[i] == name);
            }
        }
    }
}

/// Once the directory is scanned, an event changes neither the server nor
/// the queue, the run never turns back to an earlier file, and it stops
/// early only where the ledger cannot be written.
pub proof fn lemma_next_keeps_setting(state: RunState, event: Signal)
    requires
        state.wf(),
        !state.before_scan(),
    ensures
        !state.next(event).before_scan(),
        state.next(event).same_setting(state),
        state.next(event).cursor >= state.cursor,
        state.next(event).phase is Aborted ==> state.phase is Aborted || state.next(event).phase
            == Phase::Aborted(AbortReason::LedgerNotSaved),
{
    if state.cursor < state.queue.len() {
        lemma_first_unrecorded(state.queue, state.ledger, state.cursor + 1);
    }
}

/// Once the directory is scanned, server and queue stay as they are for the
/// rest of the run, the run never turns back to an earlier file, and it
/// stops early only where the ledger cannot be written.
pub proof fn lemma_after_keeps_setting(state: RunState, world: World, steps: nat)
    requires
        state.wf(),
        !state.before_scan(),
    ensures
        !state.after(world, steps).before_scan(),
        state.after(world, steps).same_setting(state),
        state.after(world, steps).cursor >= state.cursor,
        state.after(world, steps).phase is Aborted ==> state.phase is Aborted || state.after(
            world,
            steps,
        ).phase == Phase::Aborted(AbortReason::LedgerNotSaved),
    decreases steps,
{
    if steps > 0 {
        let event = (world.answer)(state.pending());
        lemma_next_keeps_setting(state, event);
        lemma_next_keeps_wf(state, event);
        lemma_after_keeps_setting(state.advance(world), world, (steps - 1) as nat);
        if state.advance(world).phase is Aborted {
            lemma_ended_stays(state.advance(world), world, (steps - 1) as nat);
        }
    }
}

/// A run settles on the preferred server. When it begins, a run probes the
/// primary candidate if that is set; it then talks to the primary if the
/// probe was answered, else to the fallback if that is set, and stops for
/// want of an endpoint if neither can be used.
pub proof fn lemma_run_settles_on_preferred(init: RunState, reachable: bool)
    requires
        init.phase is Init,
    ensures
        ({
            let begun = init.next(Signal::Start);
            let settled = if init.candidates.needs_probe() {
                begun.next(Signal::ProbeFinished { reachable })
            } else {
                begun
            };
            &&& init.candidates.needs_probe() ==> begun.pending() == (Task::Probe {
                url: init.candidates.probe_url(),
            })
            &&& match init.candidates.resolved(reachable) {
                Some(url) => settled.phase is Locating && settled.base_url == url,
                None => settled.phase == Phase::Aborted(AbortReason::NoEndpoint),
            }
            &&& settled.ledger == init.ledger
        }),
{
}

/// Uploads follow the order of modification: of two uploads that a run
/// waits for, the later one is of a file that is not older.
pub proof fn lemma_uploads_oldest_first(init: RunState, world: World, earlier: nat, later: nat)
    requires
        init.wf(),
        earlier <= later,
        init.after(world, earlier).phase is Uploading,
        init.after(world, later).phase is Uploading,
    ensures
        init.after(world, earlier).current().modified.not_after(
            init.after(world, later).current().modified,
        ),
{
    let first = init.after(world, earlier);
    let second = init.after(world, later);
    lemma_after_keeps_wf(init, world, earlier);
    lemma_after_keeps_wf(init, world, later);
    lemma_after_sum(init, world, earlier, (later - earlier) as nat);
    lemma_after_keeps_setting(first, world, (later - earlier) as nat);
    assert(second.queue == first.queue);
    assert(first.queue[first.cursor].modified.not_after(first.queue[second.cursor].modified));
}

/// The files that a run has passed stay settled when it takes a step: a
/// file is passed only when its name is recorded or its upload was answered
/// by an outcome that does not record it.
pub proof fn lemma_step_keeps_passed_settled(state: RunState, world: World)
    requires
        state.wf(),
        state.passed_settled(world),
    ensures
        state.advance(world).passed_settled(world),
{
    let event = (world.answer)(state.pending());
    let stepped = state.next(event);
    lemma_next_keeps_wf(state, event);
    lemma_next_keeps_names(state, event);
    if state.before_scan() {
        if stepped.queue.len() > 0 {
            lemma_first_unrecorded(stepped.queue, stepped.ledger, 0);
        }
        assert forall|k: int| 0 <= k < stepped.cursor implies #[trigger] stepped.settled_at(
            world,
            k,
        ) by {
            assert(stepped.ledger.contains(stepped.queue[k].filename));
        }
    } else {
        lemma_next_keeps_setting(state, event);
        if state.cursor < state.queue.len() {
            lemma_first_unrecorded(state.queue, state.ledger, state.cursor + 1);
        }
        assert forall|k: int| 0 <= k < stepped.cursor implies #[trigger] stepped.settled_at(
            world,
            k,
        ) by {
            if k < state.cursor {
                assert(state.settled_at(world, k));
                if state.ledger.contains(state.queue[k].filename) {
                    assert(stepped.ledger.contains(state.queue[k].filename));
                }
            } else if k == state.cursor {
                if state.phase is Uploading {
                    assert(state.pending() == Task::Upload(state.upload_at(k)));
                    assert(!world.records(state.upload_at(k)));
                } else {
                    assert(state.ledger.contains(state.queue[k].filename));
                    assert(stepped.ledger.contains(state.queue[k].filename));
                }
            } else {
                assert(state.ledger.contains(state.queue[k].filename));
                assert(stepped.ledger.contains(state.queue[k].filename));
            }
        }
    }
}

/// Every file that a run has passed is settled, however long the run goes
/// on.
pub proof fn lemma_passed_stay_settled(state: RunState, world: World, steps: nat)
    requires
        state.wf(),
        state.passed_settled(world),
    ensures
        state.after(world, steps).passed_settled(world),
    decreases steps,
{
    if steps > 0 {
        lemma_step_keeps_passed_settled(state, world);
        lemma_next_keeps_wf(state, (world.answer)(state.pending()));
        lemma_passed_stay_settled(state.advance(world), world, (steps - 1) as nat);
    }
}

/// A run over the files of a completed run, started from the ledger that
/// the completed run left, adds nothing to that ledger.
proof fn lemma_rerun_after_scan(state: RunState, done: RunState, world: World, steps: nat)
    requires
        state.wf(),
        done.wf(),
        done.phase is Done,
        done.passed_settled(world),
        state.same_setting(done),
        state.ledger == done.ledger,
        state.stored == done.ledger,
        state.processed == 0,
        state.phase is Uploading || state.phase is Done,
    ensures
        state.after(world, steps).adds_nothing_to(world, done.ledger),
    decreases steps,
{
    if state.phase is Uploading {
        assert(done.settled_at(world, state.cursor));
    }
    if steps > 0 {
        let event = (world.answer)(state.pending());
        lemma_next_keeps_wf(state, event);
        lemma_next_keeps_setting(state, event);
        lemma_rerun_after_scan(state.advance(world), done, world, (steps - 1) as nat);
    }
}

/// Two runs that differ in their ledgers alone go the same way until the
/// directory is scanned; if the first of them has come to its end without a
/// failed write of the ledger, the second, started from the ledger that the
/// first one left, adds nothing to it.
proof fn lemma_rerun_before_scan(
    first: RunState,
    second: RunState,
    world: World,
    first_steps: nat,
    second_steps: nat,
)
    requires
        first.wf(),
        first.before_scan(),
        first.after(world, first_steps).ended(),
        first.after(world, first_steps).phase != Phase::Aborted(AbortReason::LedgerNotSaved),
        first.after(world, first_steps).passed_settled(world),
        second == (RunState {
            ledger: first.after(world, first_steps).stored,
            stored: first.after(world, first_steps).stored,
            ..first
        }),
    ensures
        second.after(world, second_steps).adds_nothing_to(
            world,
            first.after(world, first_steps).stored,
        ),
    decreases second_steps,
{
    let end = first.after(world, first_steps);
    lemma_after_keeps_wf(first, world, first_steps);
    lemma_stored_within_ledger(end);
    assert(second.wf());
    if second_steps > 0 && first_steps > 0 {
        let event = (world.answer)(first.pending());
        assert(second.pending() == first.pending());
        let first_next = first.next(event);
        let second_next = second.next(event);
        lemma_next_keeps_wf(first, event);
        lemma_next_keeps_wf(second, event);
        if first_next.before_scan() {
            assert(second_next == (RunState { ledger: end.stored, stored: end.stored, ..first_next }));
            lemma_rerun_before_scan(
                first_next,
                second_next,
                world,
                (first_steps - 1) as nat,
                (second_steps - 1) as nat,
            );
        } else if first_next.phase is Aborted {
            lemma_ended_stays(first_next, world, (first_steps - 1) as nat);
            assert(second_next == (RunState { ledger: end.stored, stored: end.stored, ..first_next }));
            lemma_ended_stays(second_next, world, (second_steps - 1) as nat);
        } else {
            lemma_after_keeps_setting(first_next, world, (first_steps - 1) as nat);
            lemma_rerun_after_scan(second_next, end, world, (second_steps - 1) as nat);
        }
    }
}

/// Running twice uploads nothing new. Let a run start from any ledger and
/// come to its end without a failed write of the ledger, and let a second
/// run start in the same world from the ledger file that the first one
/// left. Then the second run counts no file, leaves the ledger and its file
/// as it found them, links and commits nothing, and never waits for an
/// upload that the world answers with an outcome that records the file.
pub proof fn lemma_second_run_adds_nothing(
    init: RunState,
    world: World,
    first_steps: nat,
    second_steps: nat,
)
    requires
        init.wf(),
        init.phase is Init,
        init.after(world, first_steps).ended(),
        init.after(world, first_steps).phase != Phase::Aborted(AbortReason::LedgerNotSaved),
    ensures
        init.rerun_from(init.after(world, first_steps).stored).after(
            world,
            second_steps,
        ).adds_nothing_to(world, init.after(world, first_steps).stored),
{
    lemma_passed_stay_settled(init, world, first_steps);
    let again = init.rerun_from(init.after(world, first_steps).stored);
    lemma_rerun_before_scan(init, again, world, first_steps, second_steps);
}

/// Running twice uploads nothing at all where no upload fails: if the world
/// answers every upload with an outcome that records the file, the second
/// of two runs never waits for an upload.
pub proof fn lemma_second_run_uploads_nothing(
    init: RunState,
    world: World,
    first_steps: nat,
    second_steps: nat,
)
    requires
        init.wf(),
        init.phase is Init,
        init.after(world, first_steps).ended(),
        init.after(world, first_steps).phase != Phase::Aborted(AbortReason::LedgerNotSaved),
        forall|upload: Upload| world.records(upload),
    ensures
        !(init.rerun_from(init.after(world, first_steps).stored).after(
            world,
            second_steps,
        ).phase is Uploading),
{
    lemma_second_run_adds_nothing(init, world, first_steps, second_steps);
}

/// A file whose name the ledger holds is passed over: at no step does a run
/// wait for the upload of a file that its ledger holds, or that the ledger
/// held when the run began.
pub proof fn lemma_recorded_files_passed_over(init: RunState, world: World, steps: nat)
    requires
        init.wf(),
        init.after(world, steps).phase is Uploading,
    ensures
        !init.after(world, steps).ledger.contains(init.after(world, steps).current().filename),
        !init.ledger.contains(init.after(world, steps).current().filename),
{
    lemma_after_keeps_wf(init, world, steps);
    lemma_ledger_only_grows(init, world, steps);
}

/// The outcome of an upload decides whether the file is recorded. After any
/// outcome but `Failed` the name of the file in flight is added to the
/// ledger, at once or as soon as the link request has ended, however that
/// went; the ledger is then written, and once it is written the file is
/// counted. After `Failed` the ledger is as it was and does not hold the
/// name, nothing is written, and the file is not counted.
pub proof fn lemma_outcome_decides_record(state: RunState, outcome: Outcome, linked: bool)
    requires
        state.wf(),
        state.phase is Uploading,
    ensures
        ({
            let answered = state.next(Signal::Uploaded(outcome));
            let settled = if answered.phase is Linking {
                answered.next(Signal::LinkFinished { linked })
            } else {
                answered
            };
            let written = settled.next(Signal::Persisted { saved: true });
            if outcome.recorded() {
                &&& settled.phase is Committing
                &&& settled.ledger == state.ledger.push(state.current().filename)
                &&& settled.ledger.contains(state.current().filename)
                &&& settled.pending() == (Task::Persist { names: settled.ledger })
                &&& written.stored == settled.ledger
                &&& written.processed == state.processed + 1
            } else {
                &&& !(settled.phase is Committing)
                &&& settled.ledger == state.ledger
                &&& !settled.ledger.contains(state.current().filename)
                &&& settled.stored == state.stored
                &&& settled.processed == state.processed
            }
        }),
{
    lemma_with_name(state.ledger, state.current().filename);
    lemma_first_unrecorded(state.queue, state.ledger, state.cursor + 1);
}

/// Linking waits on an asset. After an upload the run asks for a link
/// exactly when the outcome names an asset, which every outcome does but
/// `Failed` and a rejected duplicate of unknown identifier; the request is
/// for that asset alone. And a run comes to link in no other way.
pub proof fn lemma_link_needs_asset(state: RunState, event: Signal, outcome: Outcome)
    requires
        state.wf(),
    ensures
        outcome.link_target() is Some <==> outcome.recorded() && outcome
            != Outcome::RejectedDuplicate(None),
        state.phase is Uploading ==> (state.next(Signal::Uploaded(outcome)).phase is Linking
            <==> outcome.link_target() is Some),
        state.phase is Uploading && outcome.link_target() is Some ==> state.next(
            Signal::Uploaded(outcome),
        ).pending() == (Task::Link {
            url: link_url(state.base_url, state.collection_id),
            api_key: state.api_key,
            asset_ids: seq![outcome.link_target()->Some_0],
        }),
        state.next(event).phase is Linking && !(state.phase is Linking) ==> state.phase is Uploading
            && event is Uploaded && event->Uploaded_0.link_target() is Some,
{
    if state.cursor < state.queue.len() {
        lemma_first_unrecorded(state.queue, state.ledger, state.cursor + 1);
    }
}

} // verus!
