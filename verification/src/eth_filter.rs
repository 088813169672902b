//! Registration, polling and removal of filters over a chain data source.
//!
//! A poll runs in two phases. [`filter_changes`] advances the filter's cursor
//! in the registry and hands back what is left to fetch; it is meant to run
//! with exclusive access to the registry. [`resolve_changes`] fetches the rest
//! from owned data alone and needs no access to the registry.

use vstd::prelude::*;
use crate::changes::{
    block_numbers, block_records, body_view, collect_hashes, excluding, finish_logs, following, limited, new_hashes,
    new_logs, next_after, numbers, push_block_records, resolved_hashes, span,
};
use crate::poll_manager::{PollFilter, PollId, PollManager};
use crate::types::{
    block_id_of, byte_views, log_views, query_of, return_data_views, BlockId, BlockNumber,
    EthcoreFilter, Filter, FilterChanges, H256, Log, ReturnData, ReturnDataView,
};

verus! {

/// A failure reported by the chain data source for one of its queries.
#[derive(Clone, Debug, PartialEq, Eq)]
pub struct BackendError {
    pub code: i64,
    pub message: String,
}

/// Why the transactions of a block could not be replayed.
#[derive(Clone, Copy, Debug, PartialEq, Eq, Structural)]
pub enum ReplayError {
    /// The request did not reach the execution backend.
    Request,
    /// The execution backend rejected a transaction.
    Execution,
}

/// Why a request on a filter failed.
#[derive(Clone, Debug, PartialEq, Eq)]
pub enum FilterError {
    /// No live filter has the identifier.
    NotFound,
    /// A query to the chain data source failed.
    Backend(BackendError),
}

/// Something which provides data that can be filtered over. Nothing is
/// assumed of what an implementation answers.
pub trait Filterable {
    /// Current best block number.
    fn best_block_number(&self) -> u64;

    /// Get a block hash by block id.
    fn block_hash(&self, id: BlockId) -> Option<H256>;

    /// Get the transaction hashes of a block's body by block id.
    fn block_body(&self, id: BlockId) -> Result<Option<Vec<H256>>, BackendError>;

    /// Hashes of the transactions that are pending now.
    fn pending_transactions_hashes(&self) -> Vec<H256>;

    /// Get logs that match the given filter.
    fn logs(&self, filter: EthcoreFilter) -> Result<Vec<Log>, BackendError>;

    /// Get logs from the pending block.
    fn pending_logs(&self, block_number: u64, filter: &EthcoreFilter) -> Vec<Log>;

    /// Replay the transactions of the given block; one output per transaction.
    fn replay_block_transactions(&self, block: BlockId) -> Result<Vec<Vec<u8>>, ReplayError>;
}

/// The outputs of the transactions of one successfully replayed block.
#[derive(Clone, Debug, PartialEq, Eq)]
pub struct Replayed {
    pub block: u64,
    pub outputs: Vec<Vec<u8>>,
}

/// A log query that is still to be made, and the new pending logs to append
/// to its answer.
#[derive(Clone, Debug, PartialEq, Eq)]
pub struct LogsRequest {
    pub query: EthcoreFilter,
    pub pending: Vec<Log>,
}

/// What a poll has computed while it held the registry.
#[derive(Clone, Debug, PartialEq, Eq)]
pub enum PendingChanges {
    /// The complete answer of a block or pending-transaction filter.
    Hashes(Vec<H256>),
    /// The work left for a log filter.
    Logs(LogsRequest),
    /// The replayed blocks of a return-data filter, whose bodies are still to
    /// be fetched.
    ReturnData(Vec<Replayed>),
}

/// The blocks of `replayed` are numbered within `[lo, hi)` and ascend
/// strictly.
pub open spec fn replayed_within(replayed: Seq<Replayed>, lo: u64, hi: u64) -> bool {
    &&& forall|k: int| 0 <= k < replayed.len() ==> lo <= (#[trigger] replayed[k]).block < hi
    &&& forall|k: int, l: int|
        0 <= k < l < replayed.len() ==> (#[trigger] replayed[k]).block < (
        #[trigger] replayed[l]).block
}

/// Mathematical value of a [`Replayed`].
pub struct ReplayedView {
    pub block: u64,
    pub outputs: Seq<Seq<u8>>,
}

impl View for Replayed {
    type V = ReplayedView;

    open spec fn view(&self) -> ReplayedView {
        ReplayedView { block: self.block, outputs: byte_views(self.outputs@) }
    }
}

/// The views of a sequence of replayed blocks, in the same order.
pub open spec fn replayed_views(replayed: Seq<Replayed>) -> Seq<ReplayedView> {
    replayed.map_values(|r: Replayed| r@)
}

/// What the replay of one block answered: its outputs, or nothing where it
/// failed.
pub open spec fn outcome_view(outcome: Result<Vec<Vec<u8>>, ReplayError>) -> Option<
    Seq<Seq<u8>>,
> {
    match outcome {
        Ok(outputs) => Some(byte_views(outputs@)),
        Err(_) => None,
    }
}

/// What a walk over `blocks` keeps, where the replay of `blocks[i]` answered
/// `outcomes[i]`: each block whose replay succeeded, with its outputs, in
/// the order of the walk. A failed replay leaves nothing.
pub open spec fn replayed_of(blocks: Seq<u64>, outcomes: Seq<Option<Seq<Seq<u8>>>>) -> Seq<
    ReplayedView,
>
    decreases blocks.len(),
{
    if blocks.len() == 0 || outcomes.len() == 0 {
        Seq::empty()
    } else {
        let earlier = replayed_of(blocks.drop_last(), outcomes.drop_last());
        match outcomes.last() {
            Some(outputs) => earlier.push(ReplayedView { block: blocks.last(), outputs }),
            None => earlier,
        }
    }
}

/// The outputs of each replayed block, in the same order.
pub open spec fn replayed_outputs(replayed: Seq<Replayed>) -> Seq<Seq<Seq<u8>>> {
    replayed.map_values(|r: Replayed| byte_views(r.outputs@))
}

/// The records of all blocks, block after block: block `i` contributes its
/// outputs paired with the hashes of `bodies[i]`.
pub open spec fn all_records(
    outputs: Seq<Seq<Seq<u8>>>,
    bodies: Seq<Option<Seq<H256>>>,
) -> Seq<ReturnDataView>
    decreases outputs.len(),
{
    if outputs.len() == 0 || bodies.len() == 0 {
        Seq::empty()
    } else {
        all_records(outputs.drop_last(), bodies.drop_last()) + block_records(
            outputs.last(),
            bodies.last(),
        )
    }
}

/// How one poll, made when the best block is `best`, relates the filter's
/// state before it, its state after it, and what the poll hands back.
pub open spec fn advanced(
    before: PollFilter,
    after: PollFilter,
    changes: PendingChanges,
    best: u64,
) -> bool {
    match before {
        PollFilter::Block(next_block) => {
            &&& after == PollFilter::Block(following(best))
            &&& changes matches PendingChanges::Hashes(hashes)
            &&& exists|resolved: Seq<Option<H256>>|
                resolved.len() == span(next_block, following(best)) && hashes@
                    == #[trigger] resolved_hashes(resolved)
        },
        PollFilter::PendingTransaction(known) => {
            &&& after matches PollFilter::PendingTransaction(current)
            &&& changes matches PendingChanges::Hashes(hashes)
            &&& hashes@ == excluding(current@, known@)
        },
        PollFilter::Logs(next_block, known, criteria) => {
            &&& after matches PollFilter::Logs(cursor, current, kept)
            &&& changes matches PendingChanges::Logs(request)
            &&& cursor == following(best)
            &&& kept == criteria
            &&& request.query@ == query_of(criteria@, BlockId::Number(next_block), BlockId::Latest)
            &&& if criteria.to_block == Some(BlockNumber::Pending) {
                log_views(request.pending@) == excluding(log_views(current@), log_views(known@))
            } else {
                current == known && request.pending@.len() == 0
            }
        },
        PollFilter::ReturnData(next_block) => {
            &&& after == PollFilter::ReturnData(following(best))
            &&& changes matches PendingChanges::ReturnData(replayed)
            &&& replayed@.len() <= span(next_block, following(best))
            &&& replayed_within(replayed@, next_block, following(best))
            &&& exists|outcomes: Seq<Option<Seq<Seq<u8>>>>|
                outcomes.len() == span(next_block, following(best)) && replayed_views(replayed@)
                    == #[trigger] replayed_of(numbers(next_block, following(best)), outcomes)
        },
    }
}

/// Asks the source for the hash of each block number in
/// `[next_block, current)`, in ascending order.
pub fn resolve_blocks<T: Filterable>(source: &T, next_block: u64, current: u64) -> (r: Vec<
    Option<H256>,
>)
    ensures
        r@.len() == span(next_block, current),
{
    let blocks = block_numbers(next_block, current);
    let mut r: Vec<Option<H256>> = Vec::new();
    let mut i: usize = 0;
    while i < blocks.len()
        invariant
            i <= blocks.len(),
            blocks@ == numbers(next_block, current),
            r@.len() == i,
        decreases blocks.len() - i,
    {
        let hash = source.block_hash(BlockId::Number(blocks[i]));
        r.push(hash);
        i += 1;
    }
    r
}

/// Takes the answer to the replay of block `block` into `replayed`: the
/// outputs of a successful replay are appended under the block's number, a
/// failed replay leaves nothing.
pub fn record_replay(
    replayed: &mut Vec<Replayed>,
    block: u64,
    outcome: Result<Vec<Vec<u8>>, ReplayError>,
)
    ensures
        match outcome {
            Ok(outputs) => final(replayed)@ == old(replayed)@.push((Replayed { block, outputs })),
            Err(_) => final(replayed)@ == old(replayed)@,
        },
{
    match outcome {
        Ok(outputs) => {
            replayed.push(Replayed { block, outputs });
        },
        Err(_) => {},
    }
}

/// Replays each block numbered in `[next_block, current)`, in ascending
/// order. A block whose replay fails is left out and not tried again.
pub fn replay_blocks<T: Filterable>(source: &T, next_block: u64, current: u64) -> (r: Vec<
    Replayed,
>)
    ensures
        r@.len() <= span(next_block, current),
        replayed_within(r@, next_block, current),
        exists|outcomes: Seq<Option<Seq<Seq<u8>>>>|
            outcomes.len() == span(next_block, current) && replayed_views(r@)
                == #[trigger] replayed_of(numbers(next_block, current), outcomes),
{
    let blocks = block_numbers(next_block, current);
    let mut r: Vec<Replayed> = Vec::new();
    let ghost mut outcomes: Seq<Option<Seq<Seq<u8>>>> = Seq::empty();
    let mut i: usize = 0;
    while i < blocks.len()
        invariant
            i <= blocks.len(),
            blocks@ == numbers(next_block, current),
            r@.len() <= i,
            replayed_within(r@, next_block, (next_block + i) as u64),
            outcomes.len() == i,
            replayed_views(r@) == replayed_of(blocks@.subrange(0, i as int), outcomes),
        decreases blocks.len() - i,
    {
        let outcome = source.replay_block_transactions(BlockId::Number(blocks[i]));
        let ghost answered = outcome_view(outcome);
        let ghost before = r@;
        record_replay(&mut r, blocks[i], outcome);
        proof {
            assert(blocks@.subrange(0, i + 1).drop_last() =~= blocks@.subrange(0, i as int));
            assert(outcomes.push(answered).drop_last() =~= outcomes);
            if answered is Some {
                assert(replayed_views(r@) =~= replayed_views(before).push(r@.last()@));
            }
            outcomes = outcomes.push(answered);
        }
        i += 1;
    }
    assert(blocks@.subrange(0, i as int) =~= blocks@);
    r
}

/// Runs the change computation of one filter against `source`, with `best`
/// as the best block number: moves the cursor in place and returns what the
/// poll hands back.
pub fn advance<T: Filterable>(source: &T, state: &mut PollFilter, best: u64) -> (r: PendingChanges)
    ensures
        advanced(*old(state), *final(state), r, best),
{
    match state {
        PollFilter::Block(next_block) => {
            let current: u64 = next_after(best);
            let resolved = resolve_blocks(source, *next_block, current);
            let hashes = collect_hashes(&resolved);
            assert(hashes@ == resolved_hashes(resolved@));
            *next_block = current;
            PendingChanges::Hashes(hashes)
        },
        PollFilter::PendingTransaction(known) => {
            let current = source.pending_transactions_hashes();
            let hashes = new_hashes(known, &current);
            *known = current;
            PendingChanges::Hashes(hashes)
        },
        PollFilter::Logs(next_block, known, criteria) => {
            let query = criteria.query_over(BlockId::Number(*next_block), BlockId::Latest);
            let pending: Vec<Log> = if criteria.includes_pending() {
                let current = source.pending_logs(best, &query);
                let fresh = new_logs(known, &current);
                *known = current;
                fresh
            } else {
                Vec::new()
            };
            *next_block = next_after(best);
            PendingChanges::Logs(LogsRequest { query, pending })
        },
        PollFilter::ReturnData(next_block) => {
            let current: u64 = next_after(best);
            let replayed = replay_blocks(source, *next_block, current);
            *next_block = current;
            PendingChanges::ReturnData(replayed)
        },
    }
}

/// Registers a log filter with the given criteria. Its cursor starts after
/// the best block; where the criteria reach into the pending state, the logs
/// that are pending now count as reported.
pub fn new_filter<T: Filterable>(source: &T, polls: &mut PollManager, filter: Filter) -> (id:
    PollId)
    ensures
        id == old(polls).next_id(),
        final(polls)@ == old(polls)@.insert(id, final(polls)@[id]),
        (final(polls)@[id] matches PollFilter::Logs(cursor, known, criteria) && criteria == filter
            && (exists|best: u64| cursor == #[trigger] following(best)) && (filter.to_block
            != Some(BlockNumber::Pending) ==> known@.len() == 0)),
        final(polls).next_id() == (if id == usize::MAX { 0 } else { id + 1 }),
        old(polls).issued_in_order() ==> !old(polls)@.contains_key(id),
        old(polls).issued_in_order() && id < usize::MAX ==> final(polls).issued_in_order(),
{
    let best: u64 = source.best_block_number();
    let known: Vec<Log> = if filter.includes_pending() {
        let query = filter.query_over(BlockId::Number(next_after(best)), BlockId::Latest);
        source.pending_logs(best, &query)
    } else {
        Vec::new()
    };
    polls.create_poll(PollFilter::log_filter(best, known, filter))
}

/// Registers a block filter. Its cursor starts after the best block.
pub fn new_block_filter<T: Filterable>(source: &T, polls: &mut PollManager) -> (id: PollId)
    ensures
        id == old(polls).next_id(),
        exists|best: u64|
            final(polls)@ == old(polls)@.insert(id, PollFilter::Block(#[trigger] following(best))),
        final(polls).next_id() == (if id == usize::MAX { 0 } else { id + 1 }),
        old(polls).issued_in_order() ==> !old(polls)@.contains_key(id),
        old(polls).issued_in_order() && id < usize::MAX ==> final(polls).issued_in_order(),
{
    let best: u64 = source.best_block_number();
    polls.create_poll(PollFilter::block_filter(best))
}

/// Registers a pending-transaction filter. It knows the transactions that
/// are pending now.
pub fn new_pending_transaction_filter<T: Filterable>(source: &T, polls: &mut PollManager) -> (id:
    PollId)
    ensures
        id == old(polls).next_id(),
        final(polls)@ == old(polls)@.insert(id, final(polls)@[id]),
        final(polls)@[id] is PendingTransaction,
        final(polls).next_id() == (if id == usize::MAX { 0 } else { id + 1 }),
        old(polls).issued_in_order() ==> !old(polls)@.contains_key(id),
        old(polls).issued_in_order() && id < usize::MAX ==> final(polls).issued_in_order(),
{
    let pending_transactions = source.pending_transactions_hashes();
    polls.create_poll(PollFilter::pending_transaction_filter(pending_transactions))
}

/// Registers a return-data filter. Its cursor starts after the best block.
pub fn new_return_data_filter<T: Filterable>(source: &T, polls: &mut PollManager) -> (id: PollId)
    ensures
        id == old(polls).next_id(),
        exists|best: u64|
            final(polls)@ == old(polls)@.insert(
                id,
                PollFilter::ReturnData(#[trigger] following(best)),
            ),
        final(polls).next_id() == (if id == usize::MAX { 0 } else { id + 1 }),
        old(polls).issued_in_order() ==> !old(polls)@.contains_key(id),
        old(polls).issued_in_order() && id < usize::MAX ==> final(polls).issued_in_order(),
{
    let best: u64 = source.best_block_number();
    polls.create_poll(PollFilter::return_data_filter(best))
}

/// Polls filter `id` with `best` as the best block number: advances its
/// cursor and returns what is new, or what is left to fetch. An unknown
/// identifier fails and changes nothing.
pub fn filter_changes_at<T: Filterable>(
    source: &T,
    polls: &mut PollManager,
    id: PollId,
    best: u64,
) -> (r: Result<PendingChanges, FilterError>)
    ensures
        final(polls).next_id() == old(polls).next_id(),
        !old(polls)@.contains_key(id) ==> (r == Err::<PendingChanges, FilterError>(
            FilterError::NotFound,
        ) && final(polls)@ == old(polls)@),
        old(polls)@.contains_key(id) ==> {
            &&& r matches Ok(changes)
            &&& final(polls)@ == old(polls)@.insert(id, final(polls)@[id])
            &&& advanced(old(polls)@[id], final(polls)@[id], changes, best)
        },
{
    match polls.poll_mut(&id) {
        None => Err(FilterError::NotFound),
        Some(state) => Ok(advance(source, state, best)),
    }
}

/// Polls filter `id` against the source's present best block. The filter is
/// looked up first: for an unknown identifier the source is not asked.
pub fn filter_changes<T: Filterable>(source: &T, polls: &mut PollManager, id: PollId) -> (r:
    Result<PendingChanges, FilterError>)
    ensures
        final(polls).next_id() == old(polls).next_id(),
        !old(polls)@.contains_key(id) ==> (r == Err::<PendingChanges, FilterError>(
            FilterError::NotFound,
        ) && final(polls)@ == old(polls)@),
        old(polls)@.contains_key(id) ==> {
            &&& r matches Ok(changes)
            &&& final(polls)@ == old(polls)@.insert(id, final(polls)@[id])
            &&& exists|best: u64| #[trigger]
                advanced(old(polls)@[id], final(polls)@[id], changes, best)
        },
{
    if polls.poll(&id).is_none() {
        return Err(FilterError::NotFound);
    }
    let best: u64 = source.best_block_number();
    filter_changes_at(source, polls, id, best)
}

/// Fetches the body of each replayed block and pairs its transaction hashes
/// with the outputs, block after block. The first failing fetch fails the
/// whole; with no block to fetch nothing can fail, and no record comes out.
pub fn resolve_return_data<T: Filterable>(source: &T, replayed: &Vec<Replayed>) -> (r: Result<
    Vec<ReturnData>,
    BackendError,
>)
    ensures
        replayed@.len() == 0 ==> (r matches Ok(records) && records@.len() == 0),
        r matches Ok(records) ==> (exists|bodies: Seq<Option<Seq<H256>>>|
            bodies.len() == replayed@.len() && return_data_views(records@) == #[trigger] all_records(
                replayed_outputs(replayed@),
                bodies,
            )),
{
    let mut records: Vec<ReturnData> = Vec::new();
    let ghost mut bodies: Seq<Option<Seq<H256>>> = Seq::empty();
    let mut i: usize = 0;
    while i < replayed.len()
        invariant
            i <= replayed.len(),
            bodies.len() == i,
            return_data_views(records@) == all_records(
                replayed_outputs(replayed@.subrange(0, i as int)),
                bodies,
            ),
        decreases replayed.len() - i,
    {
        let body = match source.block_body(BlockId::Number(replayed[i].block)) {
            Ok(body) => body,
            Err(error) => {
                return Err(error);
            },
        };
        let ghost found: Option<Seq<H256>> = body_view(body);
        push_block_records(&mut records, &replayed[i].outputs, &body);
        proof {
            let grown = replayed_outputs(replayed@.subrange(0, i + 1));
            assert(grown.drop_last() =~= replayed_outputs(replayed@.subrange(0, i as int)));
            assert(grown.last() == byte_views(replayed@[i as int].outputs@));
            assert(bodies.push(found).drop_last() =~= bodies);
            bodies = bodies.push(found);
        }
        i += 1;
    }
    assert(replayed@.subrange(0, i as int) =~= replayed@);
    Ok(records)
}

/// Completes a poll without access to the registry: makes the log query or
/// fetches the block bodies that [`filter_changes`] left open.
pub fn resolve_changes<T: Filterable>(source: &T, changes: PendingChanges) -> (r: Result<
    FilterChanges,
    BackendError,
>)
    ensures
        changes matches PendingChanges::Hashes(hashes) ==> r == Ok::<FilterChanges, BackendError>(
            FilterChanges::Hashes(hashes),
        ),
        changes matches PendingChanges::Logs(request) ==> (r matches Ok(found) ==> (
        found matches FilterChanges::Logs(logs) && (exists|fetched: Seq<Log>|
            logs@ == #[trigger] limited(fetched + request.pending@, request.query.limit)))),
        changes matches PendingChanges::ReturnData(replayed) ==> (replayed@.len() == 0 ==> (
        r matches Ok(FilterChanges::ReturnData(records)) && records@.len() == 0)),
        changes matches PendingChanges::ReturnData(replayed) ==> (r matches Ok(found) ==> (
        found matches FilterChanges::ReturnData(records) && (exists|
            bodies: Seq<Option<Seq<H256>>>,
        |
            bodies.len() == replayed@.len() && return_data_views(records@) == #[trigger] all_records(
                replayed_outputs(replayed@),
                bodies,
            )))),
{
    match changes {
        PendingChanges::Hashes(hashes) => Ok(FilterChanges::Hashes(hashes)),
        PendingChanges::Logs(request) => {
            let limit = request.query.limit;
            match source.logs(request.query) {
                Ok(fetched) => {
                    let logs = finish_logs(fetched, request.pending, limit);
                    Ok(FilterChanges::Logs(logs))
                },
                Err(error) => Err(error),
            }
        },
        PendingChanges::ReturnData(replayed) => {
            match resolve_return_data(source, &replayed) {
                Ok(records) => Ok(FilterChanges::ReturnData(records)),
                Err(error) => Err(error),
            }
        },
    }
}

/// The full query of a log filter and whether pending logs belong to it.
#[derive(Clone, Debug, PartialEq, Eq)]
pub struct LogsQuery {
    pub query: EthcoreFilter,
    pub include_pending: bool,
}

/// Looks filter `id` up for a full query: its own criteria over their own
/// range, not the cursor. A filter of another class has no query.
pub fn filter_logs_query(polls: &PollManager, id: PollId) -> (r: Result<
    Option<LogsQuery>,
    FilterError,
>)
    ensures
        !polls@.contains_key(id) ==> r == Err::<Option<LogsQuery>, FilterError>(
            FilterError::NotFound,
        ),
        polls@.contains_key(id) ==> (r matches Ok(found) && (match polls@[id] {
            PollFilter::Logs(_, _, criteria) => (found matches Some(q) && q.query@ == query_of(
                criteria@,
                block_id_of(criteria.from_block),
                block_id_of(criteria.to_block),
            ) && q.include_pending == (criteria.to_block == Some(BlockNumber::Pending))),
            _ => found is None,
        })),
{
    match polls.poll(&id) {
        None => Err(FilterError::NotFound),
        Some(state) => match state {
            PollFilter::Logs(_, _, criteria) => Ok(
                Some(
                    LogsQuery {
                        query: criteria.to_query(),
                        include_pending: criteria.includes_pending(),
                    },
                ),
            ),
            _ => Ok(None),
        },
    }
}

/// Makes the full query of a log filter, without access to the registry:
/// the logs that the chain finds, then the pending logs where they belong to
/// the query, cut to the limit.
pub fn resolve_logs_query<T: Filterable>(source: &T, found: LogsQuery) -> (r: Result<
    Vec<Log>,
    BackendError,
>)
    ensures
        r matches Ok(logs) ==> (exists|fetched: Seq<Log>, pending: Seq<Log>|
            logs@ == #[trigger] limited(fetched + pending, found.query.limit) && (
            !found.include_pending ==> pending.len() == 0)),
{
    let pending: Vec<Log> = if found.include_pending {
        let best_block: u64 = source.best_block_number();
        source.pending_logs(best_block, &found.query)
    } else {
        Vec::new()
    };
    let limit = found.query.limit;
    match source.logs(found.query) {
        Ok(fetched) => {
            let logs = finish_logs(fetched, pending, limit);
            assert(logs@ == limited(fetched@ + pending@, limit));
            Ok(logs)
        },
        Err(error) => Err(error),
    }
}

/// All logs that match filter `id`, queried afresh: empty for a filter of
/// another class.
pub fn filter_logs<T: Filterable>(source: &T, polls: &PollManager, id: PollId) -> (r: Result<
    Vec<Log>,
    FilterError,
>)
    ensures
        !polls@.contains_key(id) ==> r == Err::<Vec<Log>, FilterError>(FilterError::NotFound),
        polls@.contains_key(id) ==> !(r matches Err(FilterError::NotFound)),
        polls@.contains_key(id) && !(polls@[id] is Logs) ==> (r matches Ok(logs) && logs@.len()
            == 0),
        polls@.contains_key(id) ==> (polls@[id] matches PollFilter::Logs(_, _, criteria) ==> (
        r matches Ok(logs) ==> (exists|fetched: Seq<Log>, pending: Seq<Log>|
            logs@ == #[trigger] limited(fetched + pending, criteria.limit) && (criteria.to_block
                != Some(BlockNumber::Pending) ==> pending.len() == 0)))),
{
    match filter_logs_query(polls, id) {
        Err(error) => Err(error),
        Ok(None) => Ok(Vec::new()),
        Ok(Some(found)) => match resolve_logs_query(source, found) {
            Ok(logs) => Ok(logs),
            Err(error) => Err(FilterError::Backend(error)),
        },
    }
}

/// Removes filter `id`; returns whether it was live.
pub fn uninstall_filter(polls: &mut PollManager, id: PollId) -> (r: bool)
    ensures
        r == old(polls)@.contains_key(id),
        final(polls)@ == old(polls)@.remove(id),
        final(polls).next_id() == old(polls).next_id(),
{
    polls.remove_poll(&id)
}

} // verus!
