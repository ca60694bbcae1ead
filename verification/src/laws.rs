//! What holds of every pool, whatever its callers and workers do and in
//! whatever order they take their turns.
//!
//! The laws are stated over the model of the pool. The first says that the
//! invariant holds after every history of events; the others draw from the
//! invariant what a user of the pool relies on.

use vstd::prelude::*;
use crate::channel::Received;
use crate::model::{
    as_messages, finished, lemma_count_positive, lemma_count_witness, lemma_count_zero,
    terminates, Claim, Event, PoolView,
};
use crate::worker::WorkerAction;

verus! {

/// The jobs of these claims, in the order of the claims.
pub open spec fn claimed_jobs<J>(claims: Seq<Claim<J>>) -> Seq<J> {
    Seq::new(claims.len(), |i: int| claims[i].job)
}

/// Whether the history holds a shutdown.
pub open spec fn shutdown_seen<J>(events: Seq<Event<J>>) -> bool
    decreases events.len(),
{
    events.len() > 0 && (events.last() is Shutdown || shutdown_seen(events.drop_last()))
}

/// The jobs that the history submits before its first shutdown, oldest
/// first.
pub open spec fn jobs_before_shutdown<J>(events: Seq<Event<J>>) -> Seq<J>
    decreases events.len(),
{
    if events.len() == 0 {
        Seq::empty()
    } else {
        let earlier = jobs_before_shutdown(events.drop_last());
        match events.last() {
            Event::Execute(job) => if shutdown_seen(events.drop_last()) {
                earlier
            } else {
                earlier.push(job)
            },
            _ => earlier,
        }
    }
}

/// The events in which these workers, one after the other, ask for their
/// next message.
pub open spec fn turns<J>(schedule: Seq<nat>) -> Seq<Event<J>> {
    Seq::new(schedule.len(), |i: int| Event::Receive(schedule[i]))
}

/// Whether every turn of the schedule goes to a worker that is running
/// when its turn comes.
pub open spec fn only_running_workers_take_turns<J, H>(
    pool: PoolView<J, H>,
    schedule: Seq<nat>,
) -> bool {
    forall|k: int|
        0 <= k < schedule.len() ==> (#[trigger] pool.run(turns::<J>(schedule.take(k)))).is_running(
            schedule[k],
        )
}

/// A pool built with at least one worker satisfies the invariant after any
/// history of submissions, worker turns and shutdowns.
pub proof fn law_invariant_after_any_history<J, H>(threads: Seq<H>, events: Seq<Event<J>>)
    requires
        threads.len() > 0,
    ensures
        PoolView::<J, H>::initial(threads).run(events).inv(),
    decreases events.len(),
{
    let start = PoolView::<J, H>::initial(threads);
    if events.len() == 0 {
        PoolView::<J, H>::lemma_initial_inv(threads);
    } else {
        law_invariant_after_any_history::<J, H>(threads, events.drop_last());
        start.run(events.drop_last()).lemma_step_inv(events.last());
    }
}

/// The record of submitted jobs is exactly the jobs that callers submitted
/// before shutdown began, in their order; a job submitted later is refused
/// and recorded nowhere.
pub proof fn law_record_is_what_was_submitted<J, H>(threads: Seq<H>, events: Seq<Event<J>>)
    requires
        threads.len() > 0,
    ensures
        PoolView::<J, H>::initial(threads).run(events).submitted == jobs_before_shutdown(events),
        PoolView::<J, H>::initial(threads).run(events).shut_down() == shutdown_seen(events),
    decreases events.len(),
{
    let start = PoolView::<J, H>::initial(threads);
    if events.len() > 0 {
        let earlier = start.run(events.drop_last());
        law_record_is_what_was_submitted::<J, H>(threads, events.drop_last());
        law_invariant_after_any_history::<J, H>(threads, events.drop_last());
        earlier.lemma_accepts_until_shutdown();
    }
}

/// A worker's turn adds to the record of claims exactly the job that the
/// worker is handed, under the worker's identity, and nothing otherwise.
pub proof fn law_claims_are_what_was_handed_out<J, H>(pool: PoolView<J, H>, worker: nat)
    ensures
        pool.is_running(worker) ==> pool.after_receive(worker).claims == match pool.action_of(
            worker,
        ) {
            WorkerAction::Run(job) => finished(pool.claims, worker).push(
                Claim { worker, job, done: false },
            ),
            _ => finished(pool.claims, worker),
        },
        !pool.is_running(worker) ==> pool.after_receive(worker).claims == pool.claims,
        pool.after_receive(worker).submitted == pool.submitted,
{
}

/// Every submitted job is, at every moment, in exactly one place: it has
/// been handed to one worker, or it waits in the queue. None is lost and
/// none is handed out twice.
///
/// The submitted jobs are the claimed jobs followed by the queued jobs, and
/// the queue holds nothing else but termination messages behind them.
pub proof fn law_each_job_exactly_once<J, H>(pool: PoolView<J, H>)
    requires
        pool.inv(),
    ensures
        pool.submitted == claimed_jobs(pool.claims) + pool.backlog(),
        pool.channel.pending == as_messages(pool.backlog()) + terminates(pool.owed_terminates()),
        forall|i: int|
            0 <= i < pool.claims.len() ==> (#[trigger] pool.claims[i]).worker < pool.size(),
{
    assert(pool.submitted =~= claimed_jobs(pool.claims) + pool.backlog());
}

/// A worker never has two jobs in hand: of the jobs that one worker has
/// taken, all but the last are done. And a job that is not done is in the
/// hands of a worker that still runs.
pub proof fn law_one_job_at_a_time<J, H>(pool: PoolView<J, H>)
    requires
        pool.inv(),
    ensures
        forall|i: int, j: int|
            0 <= i < pool.claims.len() && 0 <= j < pool.claims.len() && i != j && (
            #[trigger] pool.claims[i]).worker == (#[trigger] pool.claims[j]).worker
                ==> pool.claims[i].done || pool.claims[j].done,
        forall|i: int|
            0 <= i < pool.claims.len() && !(#[trigger] pool.claims[i]).done ==> pool.is_running(
                pool.claims[i].worker,
            ),
{
    assert forall|i: int, j: int|
        0 <= i < pool.claims.len() && 0 <= j < pool.claims.len() && i != j && (
        #[trigger] pool.claims[i]).worker == (#[trigger] pool.claims[j]).worker implies pool.claims[i].done
        || pool.claims[j].done by {
        if i < j {
            assert(pool.claims[i].done);
        }
    }
}

/// Jobs are claimed in the order in which they were submitted. With a
/// single worker that is also the order in which they run.
pub proof fn law_claims_in_submission_order<J, H>(pool: PoolView<J, H>)
    requires
        pool.inv(),
    ensures
        claimed_jobs(pool.claims) == pool.submitted.take(pool.claims.len() as int),
        pool.size() == 1 ==> forall|i: int|
            0 <= i < pool.claims.len() ==> (#[trigger] pool.claims[i]).worker == 0,
{
    assert(claimed_jobs(pool.claims) =~= pool.submitted.take(pool.claims.len() as int));
}

/// Shutdown queues one termination message for every worker, behind every
/// job already queued, in one step: no worker has to take or finish
/// anything for it, and every thread handle is handed out after the last
/// of them is queued.
pub proof fn law_shutdown_queues_one_terminate_per_worker<J, H>(pool: PoolView<J, H>)
    requires
        pool.inv(),
        !pool.shut_down(),
    ensures
        pool.after_shutdown().channel.pending == pool.channel.pending + terminates(pool.size()),
        pool.after_shutdown().running() == pool.size(),
        pool.handles_to_join().len() == pool.size(),
        pool.after_shutdown().shut_down(),
{
    pool.lemma_shutdown_inv();
    crate::model::lemma_count_all_running(pool.workers);
    crate::model::lemma_count_same_states(pool.workers, pool.after_shutdown().workers);
}

/// Once shutdown has begun, the queue holds as many termination messages
/// as there are workers still running, and they are last in the queue.
pub proof fn law_terminates_match_running_workers<J, H>(pool: PoolView<J, H>)
    requires
        pool.inv(),
        pool.shut_down(),
    ensures
        pool.channel.pending == as_messages(pool.backlog()) + terminates(pool.running()),
        pool.channel.pending.len() == pool.backlog().len() + pool.running(),
{
}

/// A running worker never finds the channel closed under it: while a
/// worker runs, the queue holds something or the sending side is there.
pub proof fn law_worker_never_outlives_sender<J, H>(pool: PoolView<J, H>, worker: nat)
    requires
        pool.inv(),
        pool.is_running(worker),
    ensures
        !(pool.channel.received() is Closed),
{
    lemma_count_positive(pool.workers, worker as int);
}

/// Once shutdown has begun no running worker waits: its turn takes one
/// message off the queue, a job or its termination.
pub proof fn law_no_wait_after_shutdown<J, H>(pool: PoolView<J, H>, worker: nat)
    requires
        pool.inv(),
        pool.shut_down(),
        pool.is_running(worker),
    ensures
        !(pool.action_of(worker) is Wait),
        pool.after_receive(worker).channel.pending.len() + 1 == pool.channel.pending.len(),
        pool.after_receive(worker).shut_down(),
{
    lemma_count_positive(pool.workers, worker as int);
}

/// `turns` turns in a row, all of them of `worker`.
pub open spec fn turns_alone<J>(worker: nat, turns: nat) -> Seq<Event<J>> {
    Seq::new(turns, |i: int| Event::Receive(worker))
}

/// No worker's exit waits on another worker. Once shutdown has begun, a
/// running worker that takes turn after turn, while every other worker
/// stands still, say in the middle of a long job, has terminated after one
/// turn for each job still queued and one for its termination message.
///
/// So the time that shutdown takes is bounded by what each worker has left
/// to do itself, not by the sum over all workers.
pub proof fn law_worker_exits_without_help<J, H>(pool: PoolView<J, H>, worker: nat)
    requires
        pool.inv(),
        pool.shut_down(),
        pool.is_running(worker),
    ensures
        !pool.run(turns_alone::<J>(worker, pool.backlog().len() + 1)).is_running(worker),
    decreases pool.backlog().len(),
{
    let n = pool.backlog().len();
    let next = pool.after_receive(worker);
    lemma_count_positive(pool.workers, worker as int);
    pool.lemma_receive_inv(worker);
    assert(turns_alone::<J>(worker, n + 1) =~= seq![Event::<J>::Receive(worker)] + turns_alone::<J>(
        worker,
        n,
    ));
    lemma_run_first(pool, Event::<J>::Receive(worker), turns_alone::<J>(worker, n));
    if n > 0 {
        assert(next.backlog() =~= pool.backlog().skip(1));
        law_worker_exits_without_help(next, worker);
    } else {
        assert(turns_alone::<J>(worker, 0) =~= Seq::<Event<J>>::empty());
    }
}

/// A history can be run from its first event on as well as up to its last.
pub proof fn lemma_run_first<J, H>(pool: PoolView<J, H>, first: Event<J>, rest: Seq<Event<J>>)
    ensures
        pool.run(seq![first] + rest) == pool.step(first).run(rest),
    decreases rest.len(),
{
    let all = seq![first] + rest;
    if rest.len() == 0 {
        assert(all.drop_last() =~= Seq::<Event<J>>::empty());
        assert(pool.run(all.drop_last()) == pool);
    } else {
        assert(all.drop_last() =~= seq![first] + rest.drop_last());
        lemma_run_first(pool, first, rest.drop_last());
    }
}

/// When no worker runs any more, everything is done: every worker has
/// terminated, the queue is empty, and every submitted job was claimed by
/// one worker and run to its end.
pub proof fn law_all_terminated_means_all_done<J, H>(pool: PoolView<J, H>)
    requires
        pool.inv(),
        pool.running() == 0,
    ensures
        forall|i: int| 0 <= i < pool.size() ==> (#[trigger] pool.workers[i]).state is Terminated,
        pool.shut_down(),
        pool.channel.pending.len() == 0,
        claimed_jobs(pool.claims) == pool.submitted,
        forall|i: int| 0 <= i < pool.claims.len() ==> (#[trigger] pool.claims[i]).done,
        !pool.channel.receiver_open,
{
    lemma_count_zero(pool.workers);
    if !pool.shut_down() {
        crate::model::lemma_count_all_running(pool.workers);
    }
    assert(claimed_jobs(pool.claims) =~= pool.submitted);
}

/// Once shutdown has begun, the queue is empty exactly when no worker runs.
pub proof fn law_drained_queue_means_all_terminated<J, H>(pool: PoolView<J, H>)
    requires
        pool.inv(),
        pool.shut_down(),
    ensures
        pool.channel.pending.len() == 0 <==> pool.running() == 0,
{
}

/// Once shutdown has begun, whatever is still queued has a taker: while
/// the queue holds a message, some worker runs, and its next turn takes a
/// message. So shutdown cannot get stuck.
pub proof fn law_queued_message_has_a_taker<J, H>(pool: PoolView<J, H>) -> (worker: nat)
    requires
        pool.inv(),
        pool.shut_down(),
        pool.channel.pending.len() > 0,
    ensures
        pool.is_running(worker),
        !(pool.action_of(worker) is Wait),
{
    let w = lemma_count_witness(pool.workers);
    law_no_wait_after_shutdown(pool, w as nat);
    w as nat
}

/// Shutdown ends every worker, in whatever order the workers take their
/// turns: once shutdown has begun, after as many turns of running workers
/// as there are messages in the queue, no worker runs and every submitted
/// job was claimed.
pub proof fn law_shutdown_terminates_every_worker<J, H>(pool: PoolView<J, H>, schedule: Seq<nat>)
    requires
        pool.inv(),
        pool.shut_down(),
        only_running_workers_take_turns(pool, schedule),
        schedule.len() == pool.channel.pending.len(),
    ensures
        pool.run(turns::<J>(schedule)).running() == 0,
        claimed_jobs(pool.run(turns::<J>(schedule)).claims) == pool.submitted,
        forall|i: int|
            0 <= i < pool.submitted.len() ==> (#[trigger] pool.run(
                turns::<J>(schedule),
            ).claims[i]).done,
{
    lemma_turns_drain(pool, schedule);
    let end = pool.run(turns::<J>(schedule));
    law_drained_queue_means_all_terminated(end);
    law_all_terminated_means_all_done(end);
}

/// From construction to the end: take a pool with at least one worker,
/// any history of submissions, worker turns and shutdowns that holds a
/// shutdown, and then let the running workers take turns, in any order,
/// until the queue is empty. Then every worker has terminated, and the jobs
/// that were claimed and run to their end are exactly the jobs that were
/// submitted before shutdown began, each once, in the order of submission.
pub proof fn law_every_job_runs_exactly_once<J, H>(
    threads: Seq<H>,
    events: Seq<Event<J>>,
    schedule: Seq<nat>,
)
    requires
        threads.len() > 0,
        shutdown_seen(events),
        only_running_workers_take_turns(PoolView::<J, H>::initial(threads).run(events), schedule),
        schedule.len() == PoolView::<J, H>::initial(threads).run(events).channel.pending.len(),
    ensures
        ({
            let end = PoolView::<J, H>::initial(threads).run(events).run(turns::<J>(schedule));
            &&& end.running() == 0
            &&& forall|w: nat| !end.is_running(w)
            &&& claimed_jobs(end.claims) == jobs_before_shutdown(events)
            &&& forall|i: int| 0 <= i < end.claims.len() ==> (#[trigger] end.claims[i]).done
        }),
{
    let pool = PoolView::<J, H>::initial(threads).run(events);
    law_invariant_after_any_history::<J, H>(threads, events);
    law_record_is_what_was_submitted::<J, H>(threads, events);
    law_shutdown_terminates_every_worker(pool, schedule);
    lemma_turns_drain(pool, schedule);
    law_all_terminated_means_all_done(pool.run(turns::<J>(schedule)));
}

/// Each turn of a running worker after shutdown takes one message off the
/// queue and leaves the record of submitted jobs alone.
pub proof fn lemma_turns_drain<J, H>(pool: PoolView<J, H>, schedule: Seq<nat>)
    requires
        pool.inv(),
        pool.shut_down(),
        only_running_workers_take_turns(pool, schedule),
    ensures
        pool.run(turns::<J>(schedule)).inv(),
        pool.run(turns::<J>(schedule)).shut_down(),
        pool.run(turns::<J>(schedule)).submitted == pool.submitted,
        pool.run(turns::<J>(schedule)).channel.pending.len() + schedule.len()
            == pool.channel.pending.len(),
    decreases schedule.len(),
{
    if schedule.len() > 0 {
        let n = schedule.len() - 1;
        let earlier = schedule.take(n);
        assert(turns::<J>(schedule).drop_last() =~= turns::<J>(earlier));
        assert forall|k: int| 0 <= k < earlier.len() implies (#[trigger] pool.run(
            turns::<J>(earlier.take(k)),
        )).is_running(earlier[k]) by {
            assert(earlier.take(k) =~= schedule.take(k));
            assert(pool.run(turns::<J>(schedule.take(k))).is_running(schedule[k]));
        }
        lemma_turns_drain(pool, earlier);
        let before = pool.run(turns::<J>(earlier));
        assert(before.is_running(schedule[n]));
        assert(turns::<J>(schedule).last() == Event::<J>::Receive(schedule[n]));
        before.lemma_receive_inv(schedule[n]);
        law_no_wait_after_shutdown(before, schedule[n]);
    }
}

} // verus!
