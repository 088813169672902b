//! Properties that relate several polls, registrations and removals.

use vstd::prelude::*;
use crate::changes::{
    block_records, excluding, following, limited, numbers, resolved_hashes, span,
};
use crate::eth_filter::{advanced, all_records, replayed_of, PendingChanges, ReplayedView};
use crate::poll_manager::{PollFilter, PollId};
use crate::types::{log_views, BlockId, Filter, Log, LogView, ReturnDataView, H256};

verus! {

/// An item is reported as new exactly when it is listed now and was not
/// known before. So an item that left the list is not reported again unless
/// it comes back.
pub proof fn lemma_excluding_contains<A>(current: Seq<A>, known: Seq<A>, item: A)
    ensures
        excluding(current, known).contains(item) <==> current.contains(item) && !known.contains(
            item,
        ),
    decreases current.len(),
{
    if current.len() > 0 {
        let front = current.drop_last();
        lemma_excluding_contains(front, known, item);
        let earlier = excluding(front, known);
        if front.contains(item) {
            let i = choose|i: int| 0 <= i < front.len() && front[i] == item;
            assert(current[i] == item);
        }
        if current.contains(item) && current.last() != item {
            let i = choose|i: int| 0 <= i < current.len() && current[i] == item;
            assert(front[i] == item);
        }
        if !known.contains(current.last()) {
            let grown = earlier.push(current.last());
            assert(grown.last() == current.last());
            if earlier.contains(item) {
                let i = choose|i: int| 0 <= i < earlier.len() && earlier[i] == item;
                assert(grown[i] == item);
            }
            if grown.contains(item) {
                let i = choose|i: int| 0 <= i < grown.len() && grown[i] == item;
                if i < earlier.len() {
                    assert(earlier[i] == item);
                }
            }
            assert(current[current.len() - 1] == current.last());
        } else {
            assert(current[current.len() - 1] == current.last());
        }
    }
}

/// Nothing is new where every listed item is already known: a poll against
/// an unchanged list reports nothing.
pub proof fn lemma_excluding_known<A>(current: Seq<A>, known: Seq<A>)
    requires
        forall|i: int| 0 <= i < current.len() ==> known.contains(#[trigger] current[i]),
    ensures
        excluding(current, known) == Seq::<A>::empty(),
    decreases current.len(),
{
    if current.len() > 0 {
        let front = current.drop_last();
        assert forall|i: int| 0 <= i < front.len() implies known.contains(#[trigger] front[i]) by {
            assert(front[i] == current[i]);
        }
        lemma_excluding_known(front, known);
        assert(known.contains(current[current.len() - 1]));
    }
}

/// Where every block number resolves, each one contributes its hash, in the
/// same order.
pub proof fn lemma_resolved_hashes_all(resolved: Seq<Option<H256>>)
    requires
        forall|i: int| 0 <= i < resolved.len() ==> (#[trigger] resolved[i]) is Some,
    ensures
        resolved_hashes(resolved).len() == resolved.len(),
        forall|i: int|
            0 <= i < resolved.len() ==> (#[trigger] resolved_hashes(resolved)[i]) == resolved[i]->0,
    decreases resolved.len(),
{
    if resolved.len() > 0 {
        let front = resolved.drop_last();
        assert forall|i: int| 0 <= i < front.len() implies (#[trigger] front[i]) is Some by {
            assert(front[i] == resolved[i]);
        }
        lemma_resolved_hashes_all(front);
        assert(resolved[resolved.len() - 1] is Some);
    }
}

/// A block filter registered when the best block was `best` and polled after
/// `added` blocks were appended looks `added` block numbers up. Where each
/// resolves it reports exactly `added` hashes, those of the new blocks in
/// ascending order, and its cursor stands after the new best block.
pub proof fn lemma_block_filter_reports_appended(
    best: u64,
    added: u64,
    resolved: Seq<Option<H256>>,
)
    requires
        best + added < u64::MAX,
        resolved.len() == span(following(best), following((best + added) as u64)),
        forall|i: int| 0 <= i < resolved.len() ==> (#[trigger] resolved[i]) is Some,
    ensures
        span(following(best), following((best + added) as u64)) == added,
        following((best + added) as u64) == best + added + 1,
        resolved_hashes(resolved).len() == added,
        forall|i: int|
            0 <= i < added ==> (#[trigger] resolved_hashes(resolved)[i]) == resolved[i]->0,
{
    lemma_resolved_hashes_all(resolved);
}

/// A poll never changes the class of a filter, and a log filter keeps its
/// criteria.
pub proof fn lemma_poll_keeps_class(
    before: PollFilter,
    after: PollFilter,
    changes: PendingChanges,
    best: u64,
)
    requires
        advanced(before, after, changes, best),
    ensures
        before is Block <==> after is Block,
        before is PendingTransaction <==> after is PendingTransaction,
        before is Logs <==> after is Logs,
        before is ReturnData <==> after is ReturnData,
        before is Logs ==> after->Logs_2 == before->Logs_2,
        before is Block || before is PendingTransaction <==> changes is Hashes,
        before is Logs <==> changes is Logs,
        before is ReturnData <==> changes is ReturnData,
{
}

/// While the best block does not fall back behind a block cursor, a poll
/// does not move the cursor backwards.
pub proof fn lemma_cursor_moves_forward(
    before: PollFilter,
    after: PollFilter,
    changes: PendingChanges,
    best: u64,
)
    requires
        advanced(before, after, changes, best),
    ensures
        before matches PollFilter::Block(n) ==> (n <= following(best) ==> n <= after->Block_0),
        before matches PollFilter::Logs(n, _, _) ==> (n <= following(best) ==> n <= after->Logs_0),
        before matches PollFilter::ReturnData(n) ==> (n <= following(best) ==> n
            <= after->ReturnData_0),
{
}

/// A block filter polled while the best block is the one it was registered
/// at reports nothing and keeps its cursor.
pub proof fn lemma_block_filter_unchanged_chain(
    best: u64,
    after: PollFilter,
    changes: PendingChanges,
)
    requires
        advanced(PollFilter::Block(following(best)), after, changes, best),
    ensures
        after == PollFilter::Block(following(best)),
        changes matches PendingChanges::Hashes(hashes) && hashes@.len() == 0,
{
    let hashes = changes->Hashes_0;
    let resolved = choose|resolved: Seq<Option<H256>>|
        resolved.len() == span(following(best), following(best)) && hashes@
            == #[trigger] resolved_hashes(resolved);
    assert(resolved.len() == 0);
}

/// A return-data filter polled while the best block is the one it was
/// registered at replays nothing and keeps its cursor.
pub proof fn lemma_return_data_filter_unchanged_chain(
    best: u64,
    after: PollFilter,
    changes: PendingChanges,
)
    requires
        advanced(PollFilter::ReturnData(following(best)), after, changes, best),
    ensures
        after == PollFilter::ReturnData(following(best)),
        changes matches PendingChanges::ReturnData(replayed) && replayed@.len() == 0,
{
}

/// A pending-transaction filter polled while the pool lists what the filter
/// already knows reports nothing.
pub proof fn lemma_pending_transaction_filter_unchanged_pool(
    known: Vec<H256>,
    after: PollFilter,
    changes: PendingChanges,
    best: u64,
)
    requires
        advanced(PollFilter::PendingTransaction(known), after, changes, best),
        after matches PollFilter::PendingTransaction(current) && current@ == known@,
    ensures
        changes matches PendingChanges::Hashes(hashes) && hashes@.len() == 0,
{
    lemma_excluding_known(known@, known@);
}

/// A log filter polled while the pending logs are those it already knows
/// appends no pending log: none is repeated while it stays pending.
pub proof fn lemma_log_filter_unchanged_pending(
    before: PollFilter,
    after: PollFilter,
    changes: PendingChanges,
    best: u64,
)
    requires
        advanced(before, after, changes, best),
        before matches PollFilter::Logs(_, known, _) && (after matches PollFilter::Logs(
            _,
            current,
            _,
        ) && log_views(current@) == log_views(known@)),
    ensures
        changes matches PendingChanges::Logs(request) && request.pending@.len() == 0,
{
    let known = before->Logs_1;
    lemma_excluding_known(log_views(known@), log_views(known@));
    let request = changes->Logs_0;
    assert(log_views(request.pending@).len() == request.pending@.len());
}

/// A log filter polled while the best block is the one it was registered
/// at, and the pending logs are those known since then, searches from the
/// block after the best block only, appends no pending log and keeps its
/// state.
pub proof fn lemma_log_filter_unchanged_chain(
    best: u64,
    known: Vec<Log>,
    criteria: Filter,
    after: PollFilter,
    changes: PendingChanges,
)
    requires
        advanced(PollFilter::Logs(following(best), known, criteria), after, changes, best),
        after matches PollFilter::Logs(_, current, _) && log_views(current@) == log_views(known@),
    ensures
        after matches PollFilter::Logs(cursor, _, kept) && cursor == following(best) && kept
            == criteria,
        changes matches PendingChanges::Logs(request) && request.pending@.len() == 0
            && request.query@.from_block == BlockId::Number(following(best))
            && request.query@.to_block == BlockId::Latest,
{
    lemma_excluding_known(log_views(known@), log_views(known@));
    let request = changes->Logs_0;
    assert(log_views(request.pending@).len() == request.pending@.len());
}

/// Two polls of a log filter in a row search adjoining ranges: the second
/// query starts at the block after the best block of the first, so no block
/// is searched twice and none between them is left out.
pub proof fn lemma_log_filter_ranges_adjoin(
    before: PollFilter,
    between: PollFilter,
    after: PollFilter,
    first: PendingChanges,
    second: PendingChanges,
    first_best: u64,
    second_best: u64,
)
    requires
        before is Logs,
        advanced(before, between, first, first_best),
        advanced(between, after, second, second_best),
    ensures
        first matches PendingChanges::Logs(a) && a.query@.from_block == BlockId::Number(
            before->Logs_0,
        ) && a.query@.to_block == BlockId::Latest,
        second matches PendingChanges::Logs(b) && b.query@.from_block == BlockId::Number(
            following(first_best),
        ) && b.query@.to_block == BlockId::Latest,
        after matches PollFilter::Logs(_, _, kept) && kept == before->Logs_2,
{
}

/// A limit of `k` leaves at most `k` logs, and they are the last ones of the
/// sequence, in their order.
pub proof fn lemma_limited_keeps_latest<A>(logs: Seq<A>, k: usize)
    ensures
        limited(logs, Some(k)).len() <= k,
        limited(logs, Some(k)).len() <= logs.len(),
        logs.len() >= k ==> limited(logs, Some(k)).len() == k,
        forall|i: int|
            0 <= i < limited(logs, Some(k)).len() ==> (#[trigger] limited(logs, Some(k))[i])
                == logs[logs.len() - limited(logs, Some(k)).len() + i],
{
}

/// Two polls of a return-data filter in a row never replay the same block:
/// the first stays below the block after its best block, where the second
/// starts, whether or not each replay succeeded; and the cursor stands
/// after the best block of the poll.
pub proof fn lemma_return_data_not_retried(
    next_block: u64,
    between: PollFilter,
    after: PollFilter,
    first: PendingChanges,
    second: PendingChanges,
    first_best: u64,
    second_best: u64,
)
    requires
        advanced(PollFilter::ReturnData(next_block), between, first, first_best),
        advanced(between, after, second, second_best),
    ensures
        between == PollFilter::ReturnData(following(first_best)),
        after == PollFilter::ReturnData(following(second_best)),
        first matches PendingChanges::ReturnData(a) && (second matches PendingChanges::ReturnData(
            b,
        ) && (forall|i: int, j: int|
            0 <= i < a@.len() && 0 <= j < b@.len() ==> (#[trigger] a@[i]).block < (
            #[trigger] b@[j]).block)),
{
}

/// The outputs of each replayed block, in the same order.
pub open spec fn outputs_of(replayed: Seq<ReplayedView>) -> Seq<Seq<Seq<u8>>> {
    replayed.map_values(|r: ReplayedView| r.outputs)
}

/// Of the bodies of a whole range, those of the blocks whose replay
/// succeeded: the ones that a poll fetches.
pub open spec fn fetched_bodies(
    outcomes: Seq<Option<Seq<Seq<u8>>>>,
    bodies: Seq<Option<Seq<H256>>>,
) -> Seq<Option<Seq<H256>>>
    decreases outcomes.len(),
{
    if outcomes.len() == 0 || bodies.len() == 0 {
        Seq::empty()
    } else {
        let earlier = fetched_bodies(outcomes.drop_last(), bodies.drop_last());
        match outcomes.last() {
            Some(_) => earlier.push(bodies.last()),
            None => earlier,
        }
    }
}

/// The records of a whole range, block after block: a block whose replay
/// failed or whose body is missing gives none, any other gives its outputs
/// paired by position with its transaction hashes.
pub open spec fn range_records(
    outcomes: Seq<Option<Seq<Seq<u8>>>>,
    bodies: Seq<Option<Seq<H256>>>,
) -> Seq<ReturnDataView>
    decreases outcomes.len(),
{
    if outcomes.len() == 0 || bodies.len() == 0 {
        Seq::empty()
    } else {
        range_records(outcomes.drop_last(), bodies.drop_last()) + (match outcomes.last() {
            Some(outputs) => block_records(outputs, bodies.last()),
            None => Seq::empty(),
        })
    }
}

/// A return-data poll over a range, taken as a whole: where the replay of
/// `blocks[i]` answered `outcomes[i]` and the body of `blocks[i]` is
/// `bodies[i]`, the records built from the blocks that the poll kept and the
/// bodies that it fetched are the records of the range. A failed replay
/// gives zero records and fails nothing.
pub proof fn lemma_return_data_of_range(
    blocks: Seq<u64>,
    outcomes: Seq<Option<Seq<Seq<u8>>>>,
    bodies: Seq<Option<Seq<H256>>>,
)
    requires
        blocks.len() == outcomes.len(),
        outcomes.len() == bodies.len(),
    ensures
        outputs_of(replayed_of(blocks, outcomes)).len() == fetched_bodies(outcomes, bodies).len(),
        all_records(outputs_of(replayed_of(blocks, outcomes)), fetched_bodies(outcomes, bodies))
            == range_records(outcomes, bodies),
    decreases blocks.len(),
{
    if blocks.len() > 0 {
        lemma_return_data_of_range(blocks.drop_last(), outcomes.drop_last(), bodies.drop_last());
        let kept = replayed_of(blocks.drop_last(), outcomes.drop_last());
        let fetched = fetched_bodies(outcomes.drop_last(), bodies.drop_last());
        match outcomes.last() {
            Some(outputs) => {
                let grown = kept.push(ReplayedView { block: blocks.last(), outputs });
                assert(outputs_of(grown).drop_last() =~= outputs_of(kept));
                assert(outputs_of(grown).last() == outputs);
                assert(fetched.push(bodies.last()).drop_last() =~= fetched);
            },
            None => {
                assert(range_records(outcomes.drop_last(), bodies.drop_last()) + Seq::<
                    ReturnDataView,
                >::empty() =~= range_records(outcomes.drop_last(), bodies.drop_last()));
            },
        }
    }
}

/// The ranges that two polls in a row walk tile the whole range: every
/// block number from the first cursor up to the second best block occurs in
/// exactly one of them, in ascending order.
pub proof fn lemma_adjoining_ranges_tile(cursor: u64, first_best: u64, second_best: u64)
    requires
        cursor <= following(first_best),
        first_best <= second_best,
    ensures
        numbers(cursor, following(first_best)) + numbers(
            following(first_best),
            following(second_best),
        ) == numbers(cursor, following(second_best)),
{
    assert(numbers(cursor, following(first_best)) + numbers(
        following(first_best),
        following(second_best),
    ) =~= numbers(cursor, following(second_best)));
}

/// The logs of the blocks `blocks`, block after block, on a chain whose
/// block `n` holds the matching logs `per_block(n)`.
pub open spec fn logs_of(per_block: spec_fn(u64) -> Seq<LogView>, blocks: Seq<u64>) -> Seq<LogView>
    decreases blocks.len(),
{
    if blocks.len() == 0 {
        Seq::empty()
    } else {
        logs_of(per_block, blocks.drop_last()) + per_block(blocks.last())
    }
}

/// The logs of two runs of blocks, one after the other, are the logs of the
/// runs joined.
pub proof fn lemma_logs_of_joined(
    per_block: spec_fn(u64) -> Seq<LogView>,
    first: Seq<u64>,
    second: Seq<u64>,
)
    ensures
        logs_of(per_block, first + second) == logs_of(per_block, first) + logs_of(
            per_block,
            second,
        ),
    decreases second.len(),
{
    if second.len() == 0 {
        assert(first + second =~= first);
        assert(logs_of(per_block, first) + Seq::<LogView>::empty() =~= logs_of(per_block, first));
    } else {
        lemma_logs_of_joined(per_block, first, second.drop_last());
        assert((first + second).drop_last() =~= first + second.drop_last());
        assert((first + second).last() == second.last());
        assert((logs_of(per_block, first) + logs_of(per_block, second.drop_last())) + per_block(
            second.last(),
        ) =~= logs_of(per_block, first) + (logs_of(per_block, second.drop_last()) + per_block(
            second.last(),
        )));
    }
}

/// On a chain that answers a query from a cursor to the latest block with
/// the matching logs of those blocks in block order, the deltas of two
/// polls of a log filter in a row are together the answer to one query over
/// the whole range: no log twice, none left out.
pub proof fn lemma_log_deltas_join(
    per_block: spec_fn(u64) -> Seq<LogView>,
    cursor: u64,
    first_best: u64,
    second_best: u64,
)
    requires
        cursor <= following(first_best),
        first_best <= second_best,
    ensures
        logs_of(per_block, numbers(cursor, following(first_best))) + logs_of(
            per_block,
            numbers(following(first_best), following(second_best)),
        ) == logs_of(per_block, numbers(cursor, following(second_best))),
{
    lemma_adjoining_ranges_tile(cursor, first_best, second_best);
    lemma_logs_of_joined(
        per_block,
        numbers(cursor, following(first_best)),
        numbers(following(first_best), following(second_best)),
    );
}

/// Once a filter is removed, its identifier is unknown: a poll on it fails,
/// and removing it again reports that nothing was there.
pub proof fn lemma_removed_is_unknown(polls: Map<PollId, PollFilter>, id: PollId)
    ensures
        !polls.remove(id).contains_key(id),
        polls.remove(id).remove(id) == polls.remove(id),
        !polls.contains_key(id) ==> polls.remove(id) == polls,
{
    assert(polls.remove(id).remove(id) =~= polls.remove(id));
    if !polls.contains_key(id) {
        assert(polls.remove(id) =~= polls);
    }
}

} // verus!
