//! What holds of every parallel run as a whole, whatever happens to it and its taskees.

use vstd::prelude::*;

use crate::benchmarking::BenchmarkingStats;
use crate::crew::{Crew, Happening, Member, Work};
use crate::manyprover::ManyProverError;
use crate::parallel::{ParallelAction, ParallelEvent, ParallelPhase, ParallelRun};
use crate::task::{BlockTaskEvent, BlockTaskPhase, TaskOrders, TaskeeEvent, TaskeePhase};

verus! {

/// Whether a crew can begin like this: the run is untouched, and its taskees have a limit of time
/// exactly if it has one.
pub open spec fn begins(run: ParallelRun, orders: TaskOrders) -> bool {
    crate::parallel_laws::untouched(run) && (orders.num_seconds is Some <==> run.is_timed())
}

/// How many blocks the run was told that they could not be proved.
pub open spec fn failed_count(run: ParallelRun, events: Seq<ParallelEvent>) -> nat
    decreases events.len(),
{
    if events.len() == 0 {
        0
    } else {
        failed_count(run, events.drop_last()) + if crate::parallel_laws::after(
            run,
            events.drop_last(),
        ).phase is Receiving && events.last() is ResultFailed {
            1nat
        } else {
            0
        }
    }
}

/// Whether a block is among those that the run is to queue.
pub open spec fn is_task(run: ParallelRun, block: u64) -> bool {
    run.tasks matches Some((first, last)) && first <= block <= last
}

/// Where a block is.
enum Place {
    /// In the queue.
    Queued,
    /// With this taskee.
    With(int),
    /// Among the results that were sent and not received.
    Sent,
    /// With the run, which is about to learn whether its result came in time.
    Judged,
    /// Among the results that were kept.
    Kept,
    /// Among the blocks that could not be proved.
    Failed,
    /// Nowhere: it came too late, was given up, or was lost with its taskee.
    Dropped,
}

/// Where each block is that was queued, and which blocks could not be proved.
struct Books {
    place: Map<u64, Place>,
    failures: Seq<u64>,
}

impl Books {
    spec fn is_at(self, block: u64, place: Place) -> bool {
        self.place.contains_key(block) && self.place[block] == place
    }

    spec fn moved(self, block: u64, place: Place) -> Books {
        Books { place: self.place.insert(block, place), ..self }
    }
}

spec fn queue_booked(queue: Seq<u64>, books: Books) -> bool {
    &&& forall|i: int, j: int| 0 <= i < j < queue.len() ==> queue[i] != queue[j]
    &&& forall|k: int| 0 <= k < queue.len() ==> books.is_at(#[trigger] queue[k], Place::Queued)
    &&& forall|b: u64| #[trigger] books.is_at(b, Place::Queued) ==> queue.contains(b)
}

type Outcome = Result<BenchmarkingStats, ManyProverError>;

/// Whether the result at some place among those sent is of this block.
spec fn is_sent_at(sent: Seq<(u64, Outcome)>, k: int, block: u64) -> bool {
    0 <= k < sent.len() && sent[k].0 == block
}

spec fn sent_booked(sent: Seq<(u64, Outcome)>, books: Books) -> bool {
    &&& forall|i: int, j: int| 0 <= i < j < sent.len() ==> sent[i].0 != sent[j].0
    &&& forall|k: int|
        0 <= k < sent.len() ==> {
            &&& books.is_at((#[trigger] sent[k]).0, Place::Sent)
            &&& (sent[k].1 matches Ok(stats) ==> stats.block_number == sent[k].0)
        }
    &&& forall|b: u64| #[trigger]
        books.is_at(b, Place::Sent) ==> exists|k: int| is_sent_at(sent, k, b)
}

spec fn member_fits(crew: Crew, orders: TaskOrders, member: Member) -> bool {
    let timed = orders.num_seconds is Some;
    let over = crate::parallel_laws::is_over(crew.run.phase);
    &&& member.taskee.orders == orders
    &&& match member.taskee.phase {
        TaskeePhase::Waiting => member.action is ReadFlag && member.work is Nothing,
        TaskeePhase::Checking => member.action is ReadFlag && member.work is Nothing,
        TaskeePhase::Timing => member.action is ReadTimer && member.work is Nothing && timed,
        TaskeePhase::Receiving => member.action is Receive && member.work is Nothing,
        TaskeePhase::Proving => member.action is Prove && member.work is Block,
        TaskeePhase::Sending => member.action is Send && member.work is Result,
        TaskeePhase::Stopped => member.action is Stop && member.work is Nothing,
    }
    &&& match member.work {
        Work::Nothing => true,
        Work::Block(task, action) => task.orders == orders && match task.phase {
            BlockTaskPhase::Fetching => action is Fetch,
            BlockTaskPhase::Ready { .. } => action is ReadTimer && timed,
            BlockTaskPhase::Proving { .. } => action is Prove,
            BlockTaskPhase::Finished => false,
        },
        Work::Result(b, outcome) => outcome matches Ok(stats) ==> stats.block_number == b,
    }
    &&& crew.working || over || crew.bereft || member.taskee.phase is Waiting
    &&& member.taskee.phase is Stopped ==> timed || over || crew.bereft || (crew.queue.len() == 0
        && crew.closed)
}

spec fn members_booked(crew: Crew, orders: TaskOrders, books: Books) -> bool {
    &&& forall|i: int|
        0 <= i < crew.members.len() ==> member_fits(crew, orders, #[trigger] crew.members[i])
    &&& forall|i: int|
        0 <= i < crew.members.len() ==> ((#[trigger] crew.members[i]).block() matches Some(b)
            ==> books.is_at(b, Place::With(i)))
    &&& forall|b: u64, i: int| #[trigger]
        books.is_at(b, Place::With(i)) ==> 0 <= i < crew.members.len()
            && crew.members[i].block() == Some(b)
}

/// Whether the result at some place among those kept is of this block.
spec fn is_kept_at(results: Seq<BenchmarkingStats>, k: int, block: u64) -> bool {
    0 <= k < results.len() && results[k].block_number == block
}

spec fn kept_booked(results: Seq<BenchmarkingStats>, books: Books) -> bool {
    &&& forall|i: int, j: int|
        0 <= i < j < results.len() ==> (#[trigger] results[i]).block_number != (
        #[trigger] results[j]).block_number
    &&& forall|k: int|
        0 <= k < results.len() ==> books.is_at((#[trigger] results[k]).block_number, Place::Kept)
    &&& forall|b: u64| #[trigger]
        books.is_at(b, Place::Kept) ==> exists|k: int| is_kept_at(results, k, b)
}

spec fn judged_booked(phase: ParallelPhase, books: Books) -> bool {
    &&& (phase matches ParallelPhase::Judging { stats, .. } ==> books.is_at(
        stats.block_number,
        Place::Judged,
    ))
    &&& forall|b: u64| #[trigger]
        books.is_at(b, Place::Judged) ==> (phase matches ParallelPhase::Judging { stats, .. }
            && stats.block_number == b)
}

spec fn failures_booked(books: Books, failed: nat) -> bool {
    &&& books.failures.len() == failed
    &&& forall|i: int, j: int|
        0 <= i < j < books.failures.len() ==> books.failures[i] != books.failures[j]
    &&& forall|k: int|
        0 <= k < books.failures.len() ==> books.is_at(#[trigger] books.failures[k], Place::Failed)
    &&& forall|b: u64| #[trigger] books.is_at(b, Place::Failed) ==> books.failures.contains(b)
}

spec fn dropped_booked(bereft: bool, orders: TaskOrders, books: Books) -> bool {
    forall|b: u64| #[trigger]
        books.is_at(b, Place::Dropped) ==> bereft || orders.num_seconds is Some
}

spec fn range_booked(
    run: ParallelRun,
    crew: Crew,
    books: Books,
    done: Seq<ParallelAction>,
    exhausted: bool,
) -> bool {
    &&& forall|b: u64| #[trigger]
        books.place.contains_key(b) ==> is_task(run, b) && crate::parallel_laws::queued(
            done,
        ).contains(b)
    &&& crew.run.phase is Spawning ==> forall|b: u64| !#[trigger] books.place.contains_key(b)
    &&& (crew.run.phase matches ParallelPhase::Queueing { next, last } ==> {
        &&& run.tasks matches Some((f, l))
        &&& last == l
        &&& f <= next <= l
        &&& forall|b: u64| #[trigger] books.place.contains_key(b) <==> f <= b < next
    })
    &&& !(crew.run.phase is Spawning) && !(crew.run.phase is Queueing) && !(crew.run.phase
        is Finished) || exhausted ==> forall|b: u64| #[trigger]
        books.place.contains_key(b) <==> is_task(run, b)
}

spec fn action_fits(crew: Crew, count: u8, orders: TaskOrders) -> bool {
    match crew.run.phase {
        ParallelPhase::Spawning => crew.action == (ParallelAction::SpawnTaskees { count, orders }),
        ParallelPhase::Queueing { next, .. } => crew.action == (ParallelAction::SendTask {
            block_number: next,
        }),
        ParallelPhase::Closing => crew.action is CloseTasks,
        ParallelPhase::Starting => crew.action is Start,
        ParallelPhase::Receiving { .. } => crew.action is ReceiveResult,
        ParallelPhase::Judging { .. } => crew.action is ReadTimer,
        ParallelPhase::Writing { .. } => crew.action is WriteProof,
        ParallelPhase::Recording { .. } => crew.action is Record,
        ParallelPhase::Timing { .. } => crew.action is ReadTimer,
        ParallelPhase::Stopping => crew.action is StopTaskees,
        ParallelPhase::Publishing => crew.action is Publish,
        ParallelPhase::Joining => crew.action is JoinTaskees,
        ParallelPhase::Finished => crew.action is Finish,
    }
}

spec fn control_fits(
    run: ParallelRun,
    count: u8,
    orders: TaskOrders,
    crew: Crew,
    done: Seq<ParallelAction>,
    exhausted: bool,
) -> bool {
    &&& crew.run.tasks == run.tasks
    &&& crew.run.terminate_on == run.terminate_on
    &&& action_fits(crew, count, orders)
    &&& (crew.action matches ParallelAction::SendTask { block_number }
        ==> crate::parallel_laws::queued(done).contains(block_number))
    &&& crew.members.len() == if crew.run.phase is Spawning {
        0
    } else {
        count as nat
    }
    &&& crew.run.phase is Spawning || crew.run.phase is Queueing || crew.run.phase is Closing
        ==> !crew.closed
    &&& exhausted ==> {
        &&& crate::parallel_laws::is_over(crew.run.phase)
        &&& crew.all_stopped()
        &&& crew.sent.len() == 0
        &&& count > 0 && orders.num_seconds is None && !crew.bereft ==> crew.queue.len() == 0
    }
}

/// What holds of a crew at every moment.
spec fn in_order(
    run: ParallelRun,
    count: u8,
    orders: TaskOrders,
    crew: Crew,
    events: Seq<ParallelEvent>,
    books: Books,
) -> bool {
    let done = crate::parallel_laws::actions(run, events);
    let exhausted = crate::parallel_laws::exhausted(run, events);
    &&& crate::parallel_laws::accepted(run, events)
    &&& crew.run == crate::parallel_laws::after(run, events)
    &&& control_fits(run, count, orders, crew, done, exhausted)
    &&& range_booked(run, crew, books, done, exhausted)
    &&& queue_booked(crew.queue, books)
    &&& sent_booked(crew.sent, books)
    &&& members_booked(crew, orders, books)
    &&& judged_booked(crew.run.phase, books)
    &&& kept_booked(crate::parallel_laws::kept(run, events), books)
    &&& failures_booked(books, failed_count(run, events))
    &&& dropped_booked(crew.bereft, orders, books)
}

proof fn lemma_queue_push(queue: Seq<u64>, books: Books, block: u64)
    requires
        queue_booked(queue, books),
        !books.place.contains_key(block),
    ensures
        queue_booked(queue.push(block), books.moved(block, Place::Queued)),
{
    let later = books.moved(block, Place::Queued);
    let longer = queue.push(block);
    assert forall|b: u64| #[trigger] later.is_at(b, Place::Queued) implies longer.contains(b) by {
        if b == block {
            assert(longer[queue.len() as int] == b);
        } else {
            assert(books.is_at(b, Place::Queued));
            let k = choose|k: int| 0 <= k < queue.len() && queue[k] == b;
            assert(longer[k] == b);
        }
    }
    assert forall|k: int| 0 <= k < longer.len() implies later.is_at(
        #[trigger] longer[k],
        Place::Queued,
    ) by {
        if k < queue.len() {
            assert(books.is_at(queue[k], Place::Queued));
        }
    }
    assert forall|i: int, j: int| 0 <= i < j < longer.len() implies longer[i] != longer[j] by {
        assert(books.is_at(queue[i], Place::Queued));
    }
}

proof fn lemma_queue_remove(queue: Seq<u64>, books: Books, at: int, place: Place)
    requires
        queue_booked(queue, books),
        0 <= at < queue.len(),
        !(place is Queued),
    ensures
        queue_booked(queue.remove(at), books.moved(queue[at], place)),
{
    let later = books.moved(queue[at], place);
    let shorter = queue.remove(at);
    assert forall|b: u64| #[trigger] later.is_at(b, Place::Queued) implies shorter.contains(b) by {
        assert(books.is_at(b, Place::Queued));
        let k = choose|k: int| 0 <= k < queue.len() && queue[k] == b;
        assert(k != at);
        if k < at {
            assert(shorter[k] == b);
        } else {
            assert(shorter[k - 1] == b);
        }
    }
    assert forall|k: int| 0 <= k < shorter.len() implies later.is_at(
        #[trigger] shorter[k],
        Place::Queued,
    ) by {
        let from = if k < at {
            k
        } else {
            k + 1
        };
        assert(shorter[k] == queue[from]);
        assert(books.is_at(queue[from], Place::Queued));
    }
}

/// Moving a block between places other than the queue changes nothing about the queue.
proof fn lemma_queue_kept(queue: Seq<u64>, books: Books, block: u64, place: Place)
    requires
        queue_booked(queue, books),
        !books.is_at(block, Place::Queued),
        !(place is Queued),
    ensures
        queue_booked(queue, books.moved(block, place)),
{
    let later = books.moved(block, place);
    assert forall|b: u64| #[trigger] later.is_at(b, Place::Queued) implies queue.contains(b) by {
        assert(books.is_at(b, Place::Queued));
    }
    assert forall|k: int| 0 <= k < queue.len() implies later.is_at(
        #[trigger] queue[k],
        Place::Queued,
    ) by {
        assert(books.is_at(queue[k], Place::Queued));
    }
}

proof fn lemma_sent_push(sent: Seq<(u64, Outcome)>, books: Books, block: u64, outcome: Outcome)
    requires
        sent_booked(sent, books),
        !books.is_at(block, Place::Sent),
        outcome matches Ok(stats) ==> stats.block_number == block,
    ensures
        sent_booked(sent.push((block, outcome)), books.moved(block, Place::Sent)),
{
    let later = books.moved(block, Place::Sent);
    let longer = sent.push((block, outcome));
    assert forall|b: u64| #[trigger] later.is_at(b, Place::Sent) implies exists|k: int|
        is_sent_at(longer, k, b) by {
        if b == block {
            assert(is_sent_at(longer, sent.len() as int, b));
        } else {
            assert(books.is_at(b, Place::Sent));
            let k = choose|k: int| is_sent_at(sent, k, b);
            assert(is_sent_at(longer, k, b));
        }
    }
    assert forall|k: int| 0 <= k < longer.len() implies later.is_at(
        (#[trigger] longer[k]).0,
        Place::Sent,
    ) && (longer[k].1 matches Ok(stats) ==> stats.block_number == longer[k].0) by {
        if k < sent.len() {
            assert(longer[k] == sent[k]);
            assert(books.is_at(sent[k].0, Place::Sent));
        }
    }
    assert forall|i: int, j: int| 0 <= i < j < longer.len() implies longer[i].0 != longer[j].0 by {
        assert(longer[i] == sent[i]);
        assert(books.is_at(sent[i].0, Place::Sent));
        if j < sent.len() {
            assert(longer[j] == sent[j]);
        }
    }
}

proof fn lemma_sent_remove(sent: Seq<(u64, Outcome)>, books: Books, at: int, place: Place)
    requires
        sent_booked(sent, books),
        0 <= at < sent.len(),
        !(place is Sent),
    ensures
        sent_booked(sent.remove(at), books.moved(sent[at].0, place)),
{
    let later = books.moved(sent[at].0, place);
    let shorter = sent.remove(at);
    assert forall|b: u64| #[trigger] later.is_at(b, Place::Sent) implies exists|k: int|
        is_sent_at(shorter, k, b) by {
        assert(books.is_at(b, Place::Sent));
        let k = choose|k: int| is_sent_at(sent, k, b);
        assert(k != at);
        if k < at {
            assert(is_sent_at(shorter, k, b));
        } else {
            assert(is_sent_at(shorter, k - 1, b));
        }
    }
    assert forall|k: int| 0 <= k < shorter.len() implies later.is_at(
        (#[trigger] shorter[k]).0,
        Place::Sent,
    ) && (shorter[k].1 matches Ok(stats) ==> stats.block_number == shorter[k].0) by {
        let from = if k < at {
            k
        } else {
            k + 1
        };
        assert(shorter[k] == sent[from]);
        assert(books.is_at(sent[from].0, Place::Sent));
    }
}

/// Moving a block between places other than the results that were sent changes nothing about these.
proof fn lemma_sent_kept(sent: Seq<(u64, Outcome)>, books: Books, block: u64, place: Place)
    requires
        sent_booked(sent, books),
        !books.is_at(block, Place::Sent),
        !(place is Sent),
    ensures
        sent_booked(sent, books.moved(block, place)),
{
    let later = books.moved(block, place);
    assert forall|b: u64| #[trigger] later.is_at(b, Place::Sent) implies exists|k: int|
        is_sent_at(sent, k, b) by {
        assert(books.is_at(b, Place::Sent));
    }
    assert forall|k: int| 0 <= k < sent.len() implies later.is_at(
        (#[trigger] sent[k]).0,
        Place::Sent,
    ) && (sent[k].1 matches Ok(stats) ==> stats.block_number == sent[k].0) by {
        assert(books.is_at(sent[k].0, Place::Sent));
    }
}

proof fn lemma_kept_push(results: Seq<BenchmarkingStats>, books: Books, stats: BenchmarkingStats)
    requires
        kept_booked(results, books),
        !books.is_at(stats.block_number, Place::Kept),
    ensures
        kept_booked(results.push(stats), books.moved(stats.block_number, Place::Kept)),
{
    let later = books.moved(stats.block_number, Place::Kept);
    let longer = results.push(stats);
    assert forall|b: u64| #[trigger] later.is_at(b, Place::Kept) implies exists|k: int|
        is_kept_at(longer, k, b) by {
        if b == stats.block_number {
            assert(is_kept_at(longer, results.len() as int, b));
        } else {
            assert(books.is_at(b, Place::Kept));
            let k = choose|k: int| is_kept_at(results, k, b);
            assert(is_kept_at(longer, k, b));
        }
    }
    assert forall|k: int| 0 <= k < longer.len() implies later.is_at(
        (#[trigger] longer[k]).block_number,
        Place::Kept,
    ) by {
        if k < results.len() {
            assert(longer[k] == results[k]);
            assert(books.is_at(results[k].block_number, Place::Kept));
        }
    }
    assert forall|i: int, j: int| 0 <= i < j < longer.len() implies (
    #[trigger] longer[i]).block_number != (#[trigger] longer[j]).block_number by {
        assert(longer[i] == results[i]);
        assert(books.is_at(results[i].block_number, Place::Kept));
        if j < results.len() {
            assert(longer[j] == results[j]);
        }
    }
}

/// Moving a block between places other than the results that were kept changes nothing about these.
proof fn lemma_kept_kept(
    results: Seq<BenchmarkingStats>,
    books: Books,
    block: u64,
    place: Place,
)
    requires
        kept_booked(results, books),
        !books.is_at(block, Place::Kept),
        !(place is Kept),
    ensures
        kept_booked(results, books.moved(block, place)),
{
    let later = books.moved(block, place);
    assert forall|b: u64| #[trigger] later.is_at(b, Place::Kept) implies exists|k: int|
        is_kept_at(results, k, b) by {
        assert(books.is_at(b, Place::Kept));
    }
    assert forall|k: int| 0 <= k < results.len() implies later.is_at(
        (#[trigger] results[k]).block_number,
        Place::Kept,
    ) by {
        assert(books.is_at(results[k].block_number, Place::Kept));
    }
}

/// Moving a block between places other than the failures changes nothing about these.
proof fn lemma_failures_kept(books: Books, failed: nat, block: u64, place: Place)
    requires
        failures_booked(books, failed),
        !books.is_at(block, Place::Failed),
        !(place is Failed),
    ensures
        failures_booked(books.moved(block, place), failed),
{
    let later = books.moved(block, place);
    assert forall|b: u64| #[trigger] later.is_at(b, Place::Failed) implies later.failures.contains(
        b,
    ) by {
        assert(books.is_at(b, Place::Failed));
    }
    assert forall|k: int| 0 <= k < later.failures.len() implies later.is_at(
        #[trigger] later.failures[k],
        Place::Failed,
    ) by {
        assert(books.is_at(books.failures[k], Place::Failed));
    }
}

proof fn lemma_failures_push(books: Books, failed: nat, block: u64)
    requires
        failures_booked(books, failed),
        !books.is_at(block, Place::Failed),
    ensures
        failures_booked(
            Books {
                failures: books.failures.push(block),
                ..books.moved(block, Place::Failed)
            },
            failed + 1,
        ),
{
    let later = Books {
        failures: books.failures.push(block),
        ..books.moved(block, Place::Failed)
    };
    assert forall|b: u64| #[trigger] later.is_at(b, Place::Failed) implies later.failures.contains(
        b,
    ) by {
        if b == block {
            assert(later.failures[books.failures.len() as int] == b);
        } else {
            assert(books.is_at(b, Place::Failed));
            let k = choose|k: int| 0 <= k < books.failures.len() && books.failures[k] == b;
            assert(later.failures[k] == b);
        }
    }
    assert forall|k: int| 0 <= k < later.failures.len() implies later.is_at(
        #[trigger] later.failures[k],
        Place::Failed,
    ) by {
        if k < books.failures.len() {
            assert(books.is_at(books.failures[k], Place::Failed));
        }
    }
    assert forall|i: int, j: int| 0 <= i < j < later.failures.len() implies later.failures[i]
        != later.failures[j] by {
        assert(books.is_at(books.failures[i], Place::Failed));
    }
}

/// What a taskee does changes nothing about the other taskees.
proof fn lemma_member_changes(
    crew: Crew,
    later: Crew,
    orders: TaskOrders,
    books: Books,
    later_books: Books,
    who: int,
    member: Member,
)
    requires
        members_booked(crew, orders, books),
        0 <= who < crew.members.len(),
        later.members == crew.members.update(who, member),
        later.run == crew.run,
        later.working == crew.working,
        later.closed == crew.closed,
        crew.bereft ==> later.bereft,
        crew.queue.len() == 0 ==> later.queue.len() == 0,
        member_fits(later, orders, member),
        forall|b: u64, i: int|
            i != who ==> (#[trigger] later_books.is_at(b, Place::With(i)) <==> books.is_at(
                b,
                Place::With(i),
            )),
        forall|b: u64| #[trigger]
            later_books.is_at(b, Place::With(who)) <==> member.block() == Some(b),
    ensures
        members_booked(later, orders, later_books),
{
    assert forall|i: int| 0 <= i < later.members.len() implies member_fits(
        later,
        orders,
        #[trigger] later.members[i],
    ) by {
        if i != who {
            assert(later.members[i] == crew.members[i]);
            assert(member_fits(crew, orders, crew.members[i]));
        }
    }
    assert forall|i: int| 0 <= i < later.members.len() implies ((
    #[trigger] later.members[i]).block() matches Some(b) ==> later_books.is_at(
        b,
        Place::With(i),
    )) by {
        if i != who {
            assert(later.members[i] == crew.members[i]);
        }
    }
    assert forall|b: u64, i: int| #[trigger] later_books.is_at(b, Place::With(i)) implies 0 <= i
        < later.members.len() && later.members[i].block() == Some(b) by {
        if i != who {
            assert(books.is_at(b, Place::With(i)));
        }
    }
}

proof fn lemma_taskee_step(
    run: ParallelRun,
    count: u8,
    orders: TaskOrders,
    crew: Crew,
    events: Seq<ParallelEvent>,
    books: Books,
    who: int,
    event: TaskeeEvent,
    at: int,
) -> (later_books: Books)
    requires
        in_order(run, count, orders, crew, events, books),
        crew.may_tell_taskee(who, event, at),
    ensures
        in_order(run, count, orders, crew.taskee_told(who, event, at), events, later_books),
{
    let later = crew.taskee_told(who, event, at);
    let member = crew.members[who];
    let results = crate::parallel_laws::kept(run, events);
    let failed = failed_count(run, events);
    assert(member_fits(crew, orders, member));
    let later_books = match event {
        TaskeeEvent::Task(block) => {
            assert(books.is_at(crew.queue[at], Place::Queued));
            lemma_queue_remove(crew.queue, books, at, Place::With(who));
            lemma_sent_kept(crew.sent, books, block, Place::With(who));
            lemma_kept_kept(results, books, block, Place::With(who));
            lemma_failures_kept(books, failed, block, Place::With(who));
            books.moved(block, Place::With(who))
        },
        TaskeeEvent::Sent => {
            let block = member.block()->0;
            assert(books.is_at(block, Place::With(who)));
            lemma_queue_kept(crew.queue, books, block, Place::Sent);
            lemma_sent_push(crew.sent, books, block, member.work->Result_1);
            lemma_kept_kept(results, books, block, Place::Sent);
            lemma_failures_kept(books, failed, block, Place::Sent);
            books.moved(block, Place::Sent)
        },
        _ => books,
    };
    assert(member_fits(later, orders, member.told(event)));
    assert forall|b: u64| #[trigger] later_books.is_at(b, Place::With(who)) <==> member.told(
        event,
    ).block() == Some(b) by {
        assert(books.is_at(b, Place::With(who)) ==> member.block() == Some(b));
    }
    lemma_member_changes(crew, later, orders, books, later_books, who, member.told(event));
    assert(forall|b: u64| #[trigger]
        later_books.place.contains_key(b) <==> books.place.contains_key(b));
    assert forall|b: u64| #[trigger] later_books.is_at(b, Place::Judged) implies books.is_at(
        b,
        Place::Judged,
    ) by {}
    assert forall|b: u64| #[trigger] later_books.is_at(b, Place::Dropped) implies books.is_at(
        b,
        Place::Dropped,
    ) by {}
    later_books
}

/// A taskee changes what it has in work, and keeps, drops or loses its block.
proof fn lemma_work_step(
    run: ParallelRun,
    count: u8,
    orders: TaskOrders,
    crew: Crew,
    later: Crew,
    events: Seq<ParallelEvent>,
    books: Books,
    who: int,
    member: Member,
) -> (later_books: Books)
    requires
        in_order(run, count, orders, crew, events, books),
        0 <= who < crew.members.len(),
        later == (Crew {
            members: crew.members.update(who, member),
            bereft: later.bereft,
            ..crew
        }),
        crew.bereft ==> later.bereft,
        member_fits(later, orders, member),
        member.block() is Some ==> member.block() == crew.members[who].block(),
        member.block() is None && crew.members[who].block() is Some ==> later.bereft
            || orders.num_seconds is Some,
        crew.members[who].taskee.phase is Stopped ==> member.taskee.phase is Stopped,
    ensures
        in_order(run, count, orders, later, events, later_books),
{
    let before = crew.members[who];
    let results = crate::parallel_laws::kept(run, events);
    let failed = failed_count(run, events);
    assert(member_fits(crew, orders, before));
    let later_books = if member.block() is None && before.block() is Some {
        let block = before.block()->0;
        assert(books.is_at(block, Place::With(who)));
        lemma_queue_kept(crew.queue, books, block, Place::Dropped);
        lemma_sent_kept(crew.sent, books, block, Place::Dropped);
        lemma_kept_kept(results, books, block, Place::Dropped);
        lemma_failures_kept(books, failed, block, Place::Dropped);
        books.moved(block, Place::Dropped)
    } else {
        books
    };
    assert forall|b: u64| #[trigger]
        later_books.is_at(b, Place::With(who)) <==> member.block() == Some(b) by {
        assert(books.is_at(b, Place::With(who)) ==> before.block() == Some(b));
    }
    lemma_member_changes(crew, later, orders, books, later_books, who, member);
    assert(forall|b: u64| #[trigger]
        later_books.place.contains_key(b) <==> books.place.contains_key(b));
    assert forall|b: u64| #[trigger] later_books.is_at(b, Place::Judged) implies books.is_at(
        b,
        Place::Judged,
    ) by {}
    assert forall|b: u64| #[trigger] later_books.is_at(b, Place::Dropped) implies later.bereft
        || orders.num_seconds is Some by {
        assert(books.is_at(b, Place::Dropped) ==> crew.bereft || orders.num_seconds is Some);
    }
    later_books
}

proof fn lemma_block_step(
    run: ParallelRun,
    count: u8,
    orders: TaskOrders,
    crew: Crew,
    events: Seq<ParallelEvent>,
    books: Books,
    who: int,
    event: BlockTaskEvent,
) -> (later_books: Books)
    requires
        in_order(run, count, orders, crew, events, books),
        crew.may_tell_block(who, event),
    ensures
        in_order(
            run,
            count,
            orders,
            crew.next(Happening::Block { who, event }),
            events,
            later_books,
        ),
{
    let member = crew.members[who];
    assert(member_fits(crew, orders, member));
    lemma_work_step(
        run,
        count,
        orders,
        crew,
        crew.next(Happening::Block { who, event }),
        events,
        books,
        who,
        member.block_told(event),
    )
}

proof fn lemma_death_step(
    run: ParallelRun,
    count: u8,
    orders: TaskOrders,
    crew: Crew,
    events: Seq<ParallelEvent>,
    books: Books,
    who: int,
) -> (later_books: Books)
    requires
        in_order(run, count, orders, crew, events, books),
        0 <= who < crew.members.len(),
    ensures
        in_order(run, count, orders, crew.next(Happening::Death { who }), events, later_books),
{
    let member = crew.members[who];
    assert(member_fits(crew, orders, member));
    lemma_work_step(
        run,
        count,
        orders,
        crew,
        crew.next(Happening::Death { who }),
        events,
        books,
        who,
        member.dead(),
    )
}

/// The books after the run was told of an event.
spec fn books_after(crew: Crew, books: Books, event: ParallelEvent, at: int) -> Books {
    match (crew.run.phase, event) {
        (ParallelPhase::Queueing { next, .. }, ParallelEvent::TaskSent) => books.moved(
            next,
            Place::Queued,
        ),
        (ParallelPhase::Receiving { .. }, ParallelEvent::ResultReceived(_)) => books.moved(
            crew.sent[at].0,
            if crew.run.is_timed() {
                Place::Judged
            } else {
                Place::Kept
            },
        ),
        (ParallelPhase::Receiving { .. }, ParallelEvent::ResultFailed(_)) => Books {
            failures: books.failures.push(crew.sent[at].0),
            ..books.moved(crew.sent[at].0, Place::Failed)
        },
        (ParallelPhase::Judging { stats, .. }, ParallelEvent::Elapsed(seconds)) => books.moved(
            stats.block_number,
            if crew.run.time_up(seconds) {
                Place::Dropped
            } else {
                Place::Kept
            },
        ),
        _ => books,
    }
}

proof fn lemma_run_moves_blocks(
    run: ParallelRun,
    count: u8,
    orders: TaskOrders,
    crew: Crew,
    events: Seq<ParallelEvent>,
    books: Books,
    event: ParallelEvent,
    at: int,
)
    requires
        in_order(run, count, orders, crew, events, books),
        crew.may_tell_run(event, at),
    ensures
        ({
            let later = crew.run_told(event, at);
            let later_books = books_after(crew, books, event, at);
            &&& queue_booked(later.queue, later_books)
            &&& sent_booked(later.sent, later_books)
            &&& kept_booked(
                crate::parallel_laws::kept(run, events.push(event)),
                later_books,
            )
            &&& failures_booked(later_books, failed_count(run, events.push(event)))
        }),
{
    assert(events.push(event).drop_last() =~= events);
    let results = crate::parallel_laws::kept(run, events);
    let failed = failed_count(run, events);
    match (crew.run.phase, event) {
        (ParallelPhase::Queueing { next, .. }, ParallelEvent::TaskSent) => {
            lemma_queue_push(crew.queue, books, next);
            lemma_sent_kept(crew.sent, books, next, Place::Queued);
            lemma_kept_kept(results, books, next, Place::Queued);
            lemma_failures_kept(books, failed, next, Place::Queued);
        },
        (ParallelPhase::Receiving { .. }, ParallelEvent::ResultReceived(stats)) => {
            let block = crew.sent[at].0;
            assert(books.is_at(block, Place::Sent));
            let place = if crew.run.is_timed() {
                Place::Judged
            } else {
                Place::Kept
            };
            lemma_queue_kept(crew.queue, books, block, place);
            lemma_sent_remove(crew.sent, books, at, place);
            if crew.run.is_timed() {
                lemma_kept_kept(results, books, block, place);
            } else {
                lemma_kept_push(results, books, stats);
            }
            lemma_failures_kept(books, failed, block, place);
        },
        (ParallelPhase::Receiving { .. }, ParallelEvent::ResultFailed(_)) => {
            let block = crew.sent[at].0;
            assert(books.is_at(block, Place::Sent));
            lemma_queue_kept(crew.queue, books, block, Place::Failed);
            lemma_sent_remove(crew.sent, books, at, Place::Failed);
            lemma_kept_kept(results, books, block, Place::Failed);
            lemma_failures_push(books, failed, block);
            let moved = books.moved(block, Place::Failed);
            let noted = books_after(crew, books, event, at);
            assert(forall|b: u64, p: Place| #[trigger] noted.is_at(b, p) <==> moved.is_at(b, p));
        },
        (ParallelPhase::Judging { stats, .. }, ParallelEvent::Elapsed(seconds)) => {
            let block = stats.block_number;
            assert(books.is_at(block, Place::Judged));
            let place = if crew.run.time_up(seconds) {
                Place::Dropped
            } else {
                Place::Kept
            };
            lemma_queue_kept(crew.queue, books, block, place);
            lemma_sent_kept(crew.sent, books, block, place);
            if crew.run.time_up(seconds) {
                lemma_kept_kept(results, books, block, place);
            } else {
                lemma_kept_push(results, books, stats);
            }
            lemma_failures_kept(books, failed, block, place);
        },
        _ => {},
    }
}

proof fn lemma_run_judges_blocks(
    run: ParallelRun,
    count: u8,
    orders: TaskOrders,
    crew: Crew,
    events: Seq<ParallelEvent>,
    books: Books,
    event: ParallelEvent,
    at: int,
)
    requires
        begins(run, orders),
        in_order(run, count, orders, crew, events, books),
        crew.may_tell_run(event, at),
    ensures
        judged_booked(crew.run_told(event, at).run.phase, books_after(crew, books, event, at)),
        dropped_booked(crew.bereft, orders, books_after(crew, books, event, at)),
{
    let later_books = books_after(crew, books, event, at);
    let phase = crew.run.next(event).0.phase;
    assert(event is ResultReceived ==> books.is_at(crew.sent[at].0, Place::Sent));
    assert forall|b: u64| #[trigger] later_books.is_at(b, Place::Judged) implies phase is Judging
        && phase->Judging_stats.block_number == b by {
        if books.is_at(b, Place::Judged) {
            assert(crew.run.phase is Judging);
        }
    }
    assert forall|b: u64| #[trigger] later_books.is_at(b, Place::Dropped) implies crew.bereft
        || orders.num_seconds is Some by {
        assert(books.is_at(b, Place::Dropped) ==> crew.bereft || orders.num_seconds is Some);
    }
}

proof fn lemma_run_leaves_members(
    run: ParallelRun,
    count: u8,
    orders: TaskOrders,
    crew: Crew,
    events: Seq<ParallelEvent>,
    books: Books,
    event: ParallelEvent,
    at: int,
)
    requires
        in_order(run, count, orders, crew, events, books),
        crew.may_tell_run(event, at),
    ensures
        members_booked(
            crew.run_told(event, at),
            orders,
            books_after(crew, books, event, at),
        ),
{
    let later = crew.run_told(event, at);
    let later_books = books_after(crew, books, event, at);
    assert(event is ResultReceived || event is ResultFailed ==> books.is_at(
        crew.sent[at].0,
        Place::Sent,
    ));
    assert forall|b: u64, i: int| #[trigger]
        later_books.is_at(b, Place::With(i)) <==> books.is_at(b, Place::With(i)) by {}
    assert forall|i: int| 0 <= i < later.members.len() implies member_fits(
        later,
        orders,
        #[trigger] later.members[i],
    ) by {
        if !(event is TaskeesSpawned) {
            assert(member_fits(crew, orders, crew.members[i]));
        }
    }
}

proof fn lemma_run_keeps_control(
    run: ParallelRun,
    count: u8,
    orders: TaskOrders,
    crew: Crew,
    events: Seq<ParallelEvent>,
    books: Books,
    event: ParallelEvent,
    at: int,
)
    requires
        begins(run, orders),
        in_order(run, count, orders, crew, events, books),
        crew.may_tell_run(event, at),
    ensures
        ({
            let later = crew.run_told(event, at);
            let done = crate::parallel_laws::actions(run, events.push(event));
            let exhausted = crate::parallel_laws::exhausted(run, events.push(event));
            &&& control_fits(run, count, orders, later, done, exhausted)
            &&& range_booked(
                run,
                later,
                books_after(crew, books, event, at),
                done,
                exhausted,
            )
        }),
{
    let later = crew.run_told(event, at);
    let later_events = events.push(event);
    assert(later_events.drop_last() =~= events);
    let done = crate::parallel_laws::actions(run, events);
    let later_done = crate::parallel_laws::actions(run, later_events);
    assert(later_done == done.push(later.action));
    assert(later_done.drop_last() =~= done);
    assert(later_done.last() == later.action);
    let tasks = crate::parallel_laws::queued(done);
    let later_tasks = crate::parallel_laws::queued(later_done);
    assert(later_tasks == match later.action {
        ParallelAction::SendTask { block_number } => tasks.push(block_number),
        _ => tasks,
    });
    assert forall|b: u64| #[trigger] tasks.contains(b) implies later_tasks.contains(b) by {
        let k = choose|k: int| 0 <= k < tasks.len() && tasks[k] == b;
        assert(later_tasks[k] == b);
    }
    if let ParallelAction::SendTask { block_number } = later.action {
        assert(later_tasks[tasks.len() as int] == block_number);
    }
    if event is ResultsClosed && count > 0 {
        assert(member_fits(crew, orders, crew.members[0]));
        assert(crew.members[0].taskee.phase is Stopped);
    }
    assert(event is ResultReceived || event is ResultFailed ==> books.is_at(
        crew.sent[at].0,
        Place::Sent,
    ));
}

proof fn lemma_run_step(
    run: ParallelRun,
    count: u8,
    orders: TaskOrders,
    crew: Crew,
    events: Seq<ParallelEvent>,
    books: Books,
    event: ParallelEvent,
    at: int,
)
    requires
        begins(run, orders),
        in_order(run, count, orders, crew, events, books),
        crew.may_tell_run(event, at),
    ensures
        in_order(
            run,
            count,
            orders,
            crew.run_told(event, at),
            events.push(event),
            books_after(crew, books, event, at),
        ),
{
    assert(events.push(event).drop_last() =~= events);
    lemma_run_moves_blocks(run, count, orders, crew, events, books, event, at);
    lemma_run_judges_blocks(run, count, orders, crew, events, books, event, at);
    lemma_run_leaves_members(run, count, orders, crew, events, books, event, at);
    lemma_run_keeps_control(run, count, orders, crew, events, books, event, at);
}

proof fn lemma_in_order(
    run: ParallelRun,
    count: u8,
    orders: TaskOrders,
    history: Seq<Happening>,
) -> (books: Books)
    requires
        begins(run, orders),
        Crew::start(run, count, orders).possible(history),
    ensures
        in_order(
            run,
            count,
            orders,
            Crew::start(run, count, orders).after(history),
            crate::crew::run_events(history),
            books,
        ),
    decreases history.len(),
{
    if history.len() == 0 {
        Books { place: Map::empty(), failures: Seq::empty() }
    } else {
        let earlier = history.drop_last();
        let books = lemma_in_order(run, count, orders, earlier);
        let crew = Crew::start(run, count, orders).after(earlier);
        let events = crate::crew::run_events(earlier);
        match history.last() {
            Happening::Run { event, at } => {
                lemma_run_step(run, count, orders, crew, events, books, event, at);
                books_after(crew, books, event, at)
            },
            Happening::Taskee { who, event, at } => lemma_taskee_step(
                run,
                count,
                orders,
                crew,
                events,
                books,
                who,
                event,
                at,
            ),
            Happening::Block { who, event } => lemma_block_step(
                run,
                count,
                orders,
                crew,
                events,
                books,
                who,
                event,
            ),
            Happening::Death { who } => lemma_death_step(
                run,
                count,
                orders,
                crew,
                events,
                books,
                who,
            ),
        }
    }
}

/// Each result that a run keeps is of a block that it queued, and no two are of the same block.
pub proof fn law_results_are_of_tasks(
    run: ParallelRun,
    count: u8,
    orders: TaskOrders,
    history: Seq<Happening>,
)
    requires
        begins(run, orders),
        Crew::start(run, count, orders).possible(history),
    ensures
        crate::parallel_laws::accepted(run, crate::crew::run_events(history)),
        crate::parallel_laws::after(run, crate::crew::run_events(history)) == Crew::start(
            run,
            count,
            orders,
        ).after(history).run,
        crate::parallel_laws::results_are_of_tasks(run, crate::crew::run_events(history)),
{
    let books = lemma_in_order(run, count, orders, history);
    let events = crate::crew::run_events(history);
    let results = crate::parallel_laws::kept(run, events);
    assert forall|i: int| 0 <= i < results.len() implies crate::parallel_laws::queued(
        crate::parallel_laws::actions(run, events),
    ).contains((#[trigger] results[i]).block_number) by {
        assert(books.is_at(results[i].block_number, Place::Kept));
        assert(books.place.contains_key(results[i].block_number));
    }
}

proof fn lemma_each_task_once(run: ParallelRun, blocks: Seq<u64>)
    requires
        crate::parallel_laws::untouched(run),
        blocks.no_duplicates(),
        forall|b: u64| #[trigger] blocks.contains(b) <==> is_task(run, b),
    ensures
        blocks.len() == crate::parallel_laws::task_count(run),
{
    let first = crate::parallel_laws::first_task(run);
    let count = crate::parallel_laws::task_count(run);
    let tasks = Seq::new(count as nat, |i: int| (first + i) as u64);
    assert forall|b: u64| #[trigger] tasks.contains(b) <==> is_task(run, b) by {
        if is_task(run, b) {
            assert(tasks[b - first] == b);
        }
    }
    assert(tasks.no_duplicates());
    tasks.unique_seq_to_set();
    blocks.unique_seq_to_set();
    assert forall|b: u64| blocks.to_set().contains(b) <==> tasks.to_set().contains(b) by {
        assert(blocks.contains(b) <==> tasks.contains(b));
    }
    assert(blocks.to_set() =~= tasks.to_set());
}

/// Without a limit of time, a run that has a taskee, and none that died, learns that there is no
/// result left only once every block that it is to queue has had one: each of them was either kept
/// or could not be proved.
pub proof fn law_results_end_when_all_blocks_are_done(
    run: ParallelRun,
    count: u8,
    orders: TaskOrders,
    history: Seq<Happening>,
)
    requires
        begins(run, orders),
        Crew::start(run, count, orders).possible(history),
        !run.is_timed(),
        count > 0,
        !Crew::start(run, count, orders).after(history).bereft,
        crate::parallel_laws::exhausted(run, crate::crew::run_events(history)),
    ensures
        ({
            let events = crate::crew::run_events(history);
            let results = crate::parallel_laws::kept(run, events);
            &&& results.len() + failed_count(run, events) == crate::parallel_laws::task_count(run)
            &&& failed_count(run, events) == 0 ==> forall|b: u64| #[trigger]
                is_task(run, b) ==> is_kept(results, b)
        }),
{
    let books = lemma_in_order(run, count, orders, history);
    let crew = Crew::start(run, count, orders).after(history);
    let events = crate::crew::run_events(history);
    let results = crate::parallel_laws::kept(run, events);
    let kept_blocks = results.map_values(|stats: BenchmarkingStats| stats.block_number);
    let blocks = kept_blocks + books.failures;
    assert forall|b: u64| is_task(run, b) implies books.is_at(b, Place::Kept) || books.is_at(
        b,
        Place::Failed,
    ) by {
        assert(books.place.contains_key(b));
        match books.place[b] {
            Place::Queued => {
                assert(books.is_at(b, Place::Queued));
            },
            Place::With(i) => {
                assert(books.is_at(b, Place::With(i)));
                assert(member_fits(crew, orders, crew.members[i]));
            },
            Place::Sent => {
                assert(books.is_at(b, Place::Sent));
                let k = choose|k: int| is_sent_at(crew.sent, k, b);
            },
            Place::Judged => {
                assert(books.is_at(b, Place::Judged));
            },
            Place::Dropped => {
                assert(books.is_at(b, Place::Dropped));
            },
            _ => {},
        }
    }
    assert forall|b: u64| #[trigger] blocks.contains(b) <==> is_task(run, b) by {
        if is_task(run, b) {
            if books.is_at(b, Place::Kept) {
                let k = choose|k: int| is_kept_at(results, k, b);
                assert(blocks[k] == b);
            } else {
                let k = choose|k: int| 0 <= k < books.failures.len() && books.failures[k] == b;
                assert(blocks[kept_blocks.len() + k] == b);
            }
        }
        if blocks.contains(b) {
            let k = choose|k: int| 0 <= k < blocks.len() && blocks[k] == b;
            if k < results.len() {
                assert(books.is_at(results[k].block_number, Place::Kept));
            } else {
                assert(books.is_at(books.failures[k - results.len()], Place::Failed));
            }
            assert(books.place.contains_key(b));
        }
    }
    assert forall|i: int, j: int| 0 <= i < j < blocks.len() implies blocks[i] != blocks[j] by {
        if i < results.len() {
            assert(books.is_at(results[i].block_number, Place::Kept));
            if j < results.len() {
                assert(results[i].block_number != results[j].block_number);
            } else {
                assert(books.is_at(books.failures[j - results.len()], Place::Failed));
            }
        }
    }
    assert(blocks.no_duplicates());
    lemma_each_task_once(run, blocks);
    if failed_count(run, events) == 0 {
        assert forall|b: u64| #[trigger] is_task(run, b) implies is_kept(results, b) by {
            assert(!books.is_at(b, Place::Failed));
            let k = choose|k: int| is_kept_at(results, k, b);
            assert(results[k].block_number == b);
        }
    }
}

/// Whether a block is among results.
pub open spec fn is_kept(results: Seq<BenchmarkingStats>, block: u64) -> bool {
    exists|k: int| 0 <= k < results.len() && (#[trigger] results[k]).block_number == block
}

} // verus!
