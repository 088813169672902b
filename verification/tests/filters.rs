use std::cell::{Cell, RefCell};

use eth_filter::changes::{
    block_numbers, collect_hashes, contains_hash, contains_log, finish_logs, limit_logs, new_hashes, new_logs,
    next_after, push_block_records,
};
use eth_filter::eth_filter::{
    advance, filter_changes, filter_changes_at, filter_logs, filter_logs_query, new_block_filter,
    new_filter, new_pending_transaction_filter, new_return_data_filter, replay_blocks,
    resolve_blocks, resolve_changes, resolve_logs_query, resolve_return_data, uninstall_filter,
    BackendError,
    FilterError, Filterable, LogsRequest, PendingChanges, ReplayError, Replayed,
};
use eth_filter::poll_manager::{PollFilter, PollManager};
use eth_filter::types::{
    copy_vec, same_bytes, same_hashes, to_block_id, Address, BlockId, BlockNumber, EthcoreFilter,
    Filter, FilterChanges, Log, ReturnData, TopicChoice, H256,
};
use eth_filter::web3::{Net, Params, RpcError, Web3Client};

fn h(n: u128) -> H256 {
    H256 { hi: 7, lo: n }
}

fn log_at(block: u64, tag: u8) -> Log {
    Log {
        address: Address { hi: 1, lo: 2 },
        topics: vec![h(tag as u128)],
        data: vec![tag, tag],
        block_hash: Some(h(1000 + block as u128)),
        block_number: Some(block),
        transaction_hash: Some(h(2000 + tag as u128)),
        transaction_index: Some(0),
        log_index: Some(0),
        pending: false,
    }
}

fn pending_log(tag: u8) -> Log {
    Log {
        address: Address { hi: 1, lo: 2 },
        topics: vec![h(tag as u128)],
        data: vec![tag],
        block_hash: None,
        block_number: None,
        transaction_hash: Some(h(3000 + tag as u128)),
        transaction_index: None,
        log_index: None,
        pending: true,
    }
}

fn criteria(from: Option<BlockNumber>, to: Option<BlockNumber>, limit: Option<usize>) -> Filter {
    Filter { from_block: from, to_block: to, address: vec![], topics: vec![], limit }
}

struct Chain {
    best: Cell<u64>,
    orphaned: RefCell<Vec<u64>>,
    bodies_missing: RefCell<Vec<u64>>,
    pool: RefCell<Vec<H256>>,
    logs: RefCell<Vec<Log>>,
    pending_logs: RefCell<Vec<Log>>,
    replay_failures: RefCell<Vec<u64>>,
    fail_queries: Cell<bool>,
    replayed: RefCell<Vec<u64>>,
    queries: RefCell<Vec<EthcoreFilter>>,
    best_asked: Cell<u32>,
}

impl Chain {
    fn at(best: u64) -> Chain {
        Chain {
            best: Cell::new(best),
            orphaned: RefCell::new(vec![]),
            bodies_missing: RefCell::new(vec![]),
            pool: RefCell::new(vec![]),
            logs: RefCell::new(vec![]),
            pending_logs: RefCell::new(vec![]),
            replay_failures: RefCell::new(vec![]),
            fail_queries: Cell::new(false),
            replayed: RefCell::new(vec![]),
            queries: RefCell::new(vec![]),
            best_asked: Cell::new(0),
        }
    }

    fn number(&self, id: BlockId) -> u64 {
        match id {
            BlockId::Number(n) => n,
            BlockId::Earliest => 0,
            BlockId::Latest => self.best.get(),
        }
    }

    fn failure() -> BackendError {
        BackendError { code: -32000, message: String::from("backend unavailable") }
    }
}

fn block_hash_of(n: u64) -> H256 {
    h(1000 + n as u128)
}

fn tx_hashes_of(n: u64) -> Vec<H256> {
    vec![h(10 * n as u128), h(10 * n as u128 + 1)]
}

fn outputs_of(n: u64) -> Vec<Vec<u8>> {
    vec![vec![n as u8], vec![n as u8, 1]]
}

impl Filterable for Chain {
    fn best_block_number(&self) -> u64 {
        self.best_asked.set(self.best_asked.get() + 1);
        self.best.get()
    }

    fn block_hash(&self, id: BlockId) -> Option<H256> {
        let n = self.number(id);
        if n > self.best.get() || self.orphaned.borrow().contains(&n) {
            None
        } else {
            Some(block_hash_of(n))
        }
    }

    fn block_body(&self, id: BlockId) -> Result<Option<Vec<H256>>, BackendError> {
        if self.fail_queries.get() {
            return Err(Chain::failure());
        }
        let n = self.number(id);
        if self.bodies_missing.borrow().contains(&n) {
            Ok(None)
        } else {
            Ok(Some(tx_hashes_of(n)))
        }
    }

    fn pending_transactions_hashes(&self) -> Vec<H256> {
        self.pool.borrow().clone()
    }

    fn logs(&self, filter: EthcoreFilter) -> Result<Vec<Log>, BackendError> {
        if self.fail_queries.get() {
            return Err(Chain::failure());
        }
        let from = self.number(filter.from_block);
        let to = self.number(filter.to_block);
        self.queries.borrow_mut().push(filter);
        Ok(self
            .logs
            .borrow()
            .iter()
            .filter(|l| {
                let n = l.block_number.unwrap();
                from <= n && n <= to
            })
            .cloned()
            .collect())
    }

    fn pending_logs(&self, _block_number: u64, _filter: &EthcoreFilter) -> Vec<Log> {
        self.pending_logs.borrow().clone()
    }

    fn replay_block_transactions(&self, block: BlockId) -> Result<Vec<Vec<u8>>, ReplayError> {
        let n = self.number(block);
        self.replayed.borrow_mut().push(n);
        if self.replay_failures.borrow().contains(&n) {
            Err(ReplayError::Execution)
        } else {
            Ok(outputs_of(n))
        }
    }
}

fn poll(chain: &Chain, polls: &mut PollManager, id: usize) -> Result<FilterChanges, FilterError> {
    match filter_changes(chain, polls, id) {
        Err(e) => Err(e),
        Ok(pending) => match resolve_changes(chain, pending) {
            Ok(changes) => Ok(changes),
            Err(e) => Err(FilterError::Backend(e)),
        },
    }
}

#[test]
fn log_filter_reports_two_appended_blocks_then_nothing() {
    let chain = Chain::at(10);
    let mut polls = PollManager::new();
    let id = new_filter(
        &chain,
        &mut polls,
        criteria(Some(BlockNumber::Num(10)), Some(BlockNumber::Latest), None),
    );
    chain.logs.borrow_mut().push(log_at(11, 1));
    chain.logs.borrow_mut().push(log_at(12, 2));
    chain.best.set(12);
    assert_eq!(
        poll(&chain, &mut polls, id),
        Ok(FilterChanges::Logs(vec![log_at(11, 1), log_at(12, 2)]))
    );
    assert_eq!(poll(&chain, &mut polls, id), Ok(FilterChanges::Logs(vec![])));
    assert_eq!(
        polls.poll(&id),
        Some(&PollFilter::Logs(
            13,
            vec![],
            criteria(Some(BlockNumber::Num(10)), Some(BlockNumber::Latest), None)
        ))
    );
}

#[test]
fn log_filter_is_empty_right_after_registration() {
    let chain = Chain::at(10);
    chain.logs.borrow_mut().push(log_at(10, 1));
    *chain.pending_logs.borrow_mut() = vec![pending_log(1), pending_log(2)];
    let mut polls = PollManager::new();
    let mined = new_filter(&chain, &mut polls, criteria(None, Some(BlockNumber::Latest), None));
    let wanted = criteria(Some(BlockNumber::Num(0)), Some(BlockNumber::Pending), None);
    let pending = new_filter(&chain, &mut polls, wanted.clone());
    assert_eq!(
        polls.poll(&mined),
        Some(&PollFilter::Logs(11, vec![], criteria(None, Some(BlockNumber::Latest), None)))
    );
    assert_eq!(
        polls.poll(&pending),
        Some(&PollFilter::Logs(11, vec![pending_log(1), pending_log(2)], wanted))
    );
    assert_eq!(poll(&chain, &mut polls, mined), Ok(FilterChanges::Logs(vec![])));
    assert_eq!(poll(&chain, &mut polls, pending), Ok(FilterChanges::Logs(vec![])));
    assert_eq!(
        chain.queries.borrow()[0],
        EthcoreFilter {
            from_block: BlockId::Number(11),
            to_block: BlockId::Latest,
            address: vec![],
            topics: vec![],
            limit: None,
        }
    );
}

#[test]
fn unknown_filter_is_answered_without_asking_the_chain() {
    let chain = Chain::at(2);
    let mut polls = PollManager::new();
    assert_eq!(filter_changes(&chain, &mut polls, 5), Err(FilterError::NotFound));
    assert_eq!(chain.best_asked.get(), 0);
    let id = new_block_filter(&chain, &mut polls);
    assert_eq!(chain.best_asked.get(), 1);
    assert!(filter_changes(&chain, &mut polls, id).is_ok());
    assert_eq!(chain.best_asked.get(), 2);
}

#[test]
fn block_numbers_of_a_range() {
    assert_eq!(block_numbers(3, 6), vec![3, 4, 5]);
    assert_eq!(block_numbers(3, 3), Vec::<u64>::new());
    assert_eq!(block_numbers(6, 3), Vec::<u64>::new());
    assert_eq!(block_numbers(u64::MAX - 1, u64::MAX), vec![u64::MAX - 1]);
    let chain = Chain::at(9);
    assert_eq!(replay_blocks(&chain, 4, 7).len(), 3);
    assert_eq!(*chain.replayed.borrow(), vec![4, 5, 6]);
}

#[test]
fn log_filter_queries_from_cursor_to_latest() {
    let chain = Chain::at(10);
    let mut polls = PollManager::new();
    let mut wanted = criteria(Some(BlockNumber::Num(3)), Some(BlockNumber::Num(5)), Some(4));
    wanted.address = vec![Address { hi: 9, lo: 9 }];
    wanted.topics = vec![TopicChoice { position: 0, topic: h(5) }];
    let id = new_filter(&chain, &mut polls, wanted.clone());
    chain.best.set(14);
    let pending = filter_changes(&chain, &mut polls, id).unwrap();
    assert_eq!(
        pending,
        PendingChanges::Logs(LogsRequest {
            query: EthcoreFilter {
                from_block: BlockId::Number(11),
                to_block: BlockId::Latest,
                address: vec![Address { hi: 9, lo: 9 }],
                topics: vec![TopicChoice { position: 0, topic: h(5) }],
                limit: Some(4),
            },
            pending: vec![],
        })
    );
    assert_eq!(polls.poll(&id), Some(&PollFilter::Logs(15, vec![], wanted)));
}

#[test]
fn block_filter_is_empty_right_after_registration() {
    let chain = Chain::at(42);
    let mut polls = PollManager::new();
    let id = new_block_filter(&chain, &mut polls);
    assert_eq!(polls.poll(&id), Some(&PollFilter::Block(43)));
    assert_eq!(poll(&chain, &mut polls, id), Ok(FilterChanges::Hashes(vec![])));
    assert_eq!(polls.poll(&id), Some(&PollFilter::Block(43)));
}

#[test]
fn block_filter_reports_each_appended_block_in_order() {
    let chain = Chain::at(5);
    let mut polls = PollManager::new();
    let id = new_block_filter(&chain, &mut polls);
    chain.best.set(8);
    assert_eq!(
        poll(&chain, &mut polls, id),
        Ok(FilterChanges::Hashes(vec![block_hash_of(6), block_hash_of(7), block_hash_of(8)]))
    );
    assert_eq!(polls.poll(&id), Some(&PollFilter::Block(9)));
    assert_eq!(poll(&chain, &mut polls, id), Ok(FilterChanges::Hashes(vec![])));
}

#[test]
fn block_filter_skips_unresolved_numbers() {
    let chain = Chain::at(0);
    let mut polls = PollManager::new();
    let id = new_block_filter(&chain, &mut polls);
    chain.best.set(4);
    chain.orphaned.borrow_mut().push(2);
    chain.orphaned.borrow_mut().push(3);
    assert_eq!(
        poll(&chain, &mut polls, id),
        Ok(FilterChanges::Hashes(vec![block_hash_of(1), block_hash_of(4)]))
    );
    assert_eq!(polls.poll(&id), Some(&PollFilter::Block(5)));
}

#[test]
fn block_cursor_follows_a_shorter_chain() {
    let chain = Chain::at(9);
    let mut polls = PollManager::new();
    let id = new_block_filter(&chain, &mut polls);
    chain.best.set(4);
    assert_eq!(poll(&chain, &mut polls, id), Ok(FilterChanges::Hashes(vec![])));
    assert_eq!(polls.poll(&id), Some(&PollFilter::Block(5)));
}

#[test]
fn cursor_stays_at_the_largest_block_number() {
    assert_eq!(next_after(u64::MAX), u64::MAX);
    assert_eq!(next_after(u64::MAX - 1), u64::MAX);
    assert_eq!(next_after(0), 1);
    let chain = Chain::at(u64::MAX);
    let mut polls = PollManager::new();
    let id = new_block_filter(&chain, &mut polls);
    assert_eq!(polls.poll(&id), Some(&PollFilter::Block(u64::MAX)));
    assert_eq!(poll(&chain, &mut polls, id), Ok(FilterChanges::Hashes(vec![])));
}

#[test]
fn pending_transaction_filter_reports_only_unseen_hashes() {
    let chain = Chain::at(1);
    *chain.pool.borrow_mut() = vec![h(1), h(2)];
    let mut polls = PollManager::new();
    let id = new_pending_transaction_filter(&chain, &mut polls);
    assert_eq!(polls.poll(&id), Some(&PollFilter::PendingTransaction(vec![h(1), h(2)])));
    assert_eq!(poll(&chain, &mut polls, id), Ok(FilterChanges::Hashes(vec![])));
    *chain.pool.borrow_mut() = vec![h(3), h(2), h(4)];
    assert_eq!(poll(&chain, &mut polls, id), Ok(FilterChanges::Hashes(vec![h(3), h(4)])));
    assert_eq!(polls.poll(&id), Some(&PollFilter::PendingTransaction(vec![h(3), h(2), h(4)])));
    // h(1) left the pool and is forgotten; h(3) stays known
    *chain.pool.borrow_mut() = vec![h(3)];
    assert_eq!(poll(&chain, &mut polls, id), Ok(FilterChanges::Hashes(vec![])));
    // a hash that comes back after it was forgotten is new again
    *chain.pool.borrow_mut() = vec![h(3), h(1)];
    assert_eq!(poll(&chain, &mut polls, id), Ok(FilterChanges::Hashes(vec![h(1)])));
}

#[test]
fn new_hashes_keeps_pool_order_and_repeats() {
    assert_eq!(new_hashes(&vec![h(2)], &vec![h(5), h(2), h(1), h(5)]), vec![h(5), h(1), h(5)]);
    assert_eq!(new_hashes(&vec![], &vec![]), Vec::<H256>::new());
    assert_eq!(new_hashes(&vec![h(1), h(2)], &vec![h(2), h(1)]), Vec::<H256>::new());
    assert!(contains_hash(&vec![h(1), h(2)], &h(2)));
    assert!(!contains_hash(&vec![h(1), h(2)], &H256 { hi: 8, lo: 2 }));
}

#[test]
fn log_filter_does_not_repeat_pending_logs() {
    let chain = Chain::at(3);
    let mut polls = PollManager::new();
    let wanted = criteria(None, Some(BlockNumber::Pending), None);
    let id = new_filter(&chain, &mut polls, wanted.clone());
    *chain.pending_logs.borrow_mut() = vec![pending_log(1), pending_log(2)];
    assert_eq!(
        poll(&chain, &mut polls, id),
        Ok(FilterChanges::Logs(vec![pending_log(1), pending_log(2)]))
    );
    assert_eq!(
        polls.poll(&id),
        Some(&PollFilter::Logs(4, vec![pending_log(1), pending_log(2)], wanted.clone()))
    );
    assert_eq!(poll(&chain, &mut polls, id), Ok(FilterChanges::Logs(vec![])));
    *chain.pending_logs.borrow_mut() = vec![pending_log(2), pending_log(3)];
    assert_eq!(poll(&chain, &mut polls, id), Ok(FilterChanges::Logs(vec![pending_log(3)])));
    // the known set is replaced, not accumulated
    *chain.pending_logs.borrow_mut() = vec![];
    assert_eq!(poll(&chain, &mut polls, id), Ok(FilterChanges::Logs(vec![])));
    *chain.pending_logs.borrow_mut() = vec![pending_log(3)];
    assert_eq!(poll(&chain, &mut polls, id), Ok(FilterChanges::Logs(vec![pending_log(3)])));
}

#[test]
fn log_filter_without_pending_ignores_pending_logs() {
    let chain = Chain::at(3);
    let mut polls = PollManager::new();
    let id = new_filter(&chain, &mut polls, criteria(None, Some(BlockNumber::Latest), None));
    *chain.pending_logs.borrow_mut() = vec![pending_log(1)];
    assert_eq!(poll(&chain, &mut polls, id), Ok(FilterChanges::Logs(vec![])));
}

#[test]
fn log_filter_appends_pending_after_mined_and_keeps_latest_up_to_limit() {
    let chain = Chain::at(0);
    let mut polls = PollManager::new();
    let id = new_filter(&chain, &mut polls, criteria(None, Some(BlockNumber::Pending), Some(3)));
    for n in 1..=4u64 {
        chain.logs.borrow_mut().push(log_at(n, n as u8));
    }
    chain.best.set(4);
    *chain.pending_logs.borrow_mut() = vec![pending_log(9)];
    assert_eq!(
        poll(&chain, &mut polls, id),
        Ok(FilterChanges::Logs(vec![log_at(3, 3), log_at(4, 4), pending_log(9)]))
    );
}

#[test]
fn limit_logs_keeps_the_most_recent() {
    let logs = vec![log_at(1, 1), log_at(2, 2), log_at(3, 3)];
    assert_eq!(limit_logs(logs.clone(), None), logs);
    assert_eq!(limit_logs(logs.clone(), Some(5)), logs);
    assert_eq!(limit_logs(logs.clone(), Some(3)), logs);
    assert_eq!(limit_logs(logs.clone(), Some(2)), vec![log_at(2, 2), log_at(3, 3)]);
    assert_eq!(limit_logs(logs.clone(), Some(1)), vec![log_at(3, 3)]);
    assert_eq!(limit_logs(logs.clone(), Some(0)), vec![]);
    assert_eq!(limit_logs(vec![], Some(0)), vec![]);
    assert_eq!(
        finish_logs(vec![log_at(1, 1), log_at(2, 2)], vec![pending_log(7)], Some(2)),
        vec![log_at(2, 2), pending_log(7)]
    );
    assert_eq!(
        finish_logs(vec![log_at(1, 1)], vec![pending_log(7)], None),
        vec![log_at(1, 1), pending_log(7)]
    );
}

#[test]
fn new_logs_compares_whole_records() {
    let mut other = pending_log(1);
    other.data = vec![1, 0];
    let mut third = pending_log(1);
    third.topics = vec![h(1), h(1)];
    let known = vec![pending_log(1)];
    assert!(contains_log(&known, &pending_log(1)));
    assert!(!contains_log(&known, &other));
    assert!(!contains_log(&known, &third));
    assert!(pending_log(1).same_as(&pending_log(1)));
    assert!(!pending_log(1).same_as(&log_at(1, 1)));
    assert_eq!(pending_log(4).duplicate(), pending_log(4));
    assert_eq!(
        new_logs(&known, &vec![other.clone(), pending_log(1), third.clone()]),
        vec![other, third]
    );
}

#[test]
fn return_data_filter_is_empty_right_after_registration() {
    let chain = Chain::at(7);
    let mut polls = PollManager::new();
    let id = new_return_data_filter(&chain, &mut polls);
    assert_eq!(polls.poll(&id), Some(&PollFilter::ReturnData(8)));
    assert_eq!(poll(&chain, &mut polls, id), Ok(FilterChanges::ReturnData(vec![])));
    assert!(chain.replayed.borrow().is_empty());
}

#[test]
fn return_data_filter_pairs_outputs_with_transaction_hashes() {
    let chain = Chain::at(7);
    let mut polls = PollManager::new();
    let id = new_return_data_filter(&chain, &mut polls);
    chain.best.set(9);
    let expected = vec![
        ReturnData { transaction_hash: h(80), return_data: vec![8], removed: false },
        ReturnData { transaction_hash: h(81), return_data: vec![8, 1], removed: false },
        ReturnData { transaction_hash: h(90), return_data: vec![9], removed: false },
        ReturnData { transaction_hash: h(91), return_data: vec![9, 1], removed: false },
    ];
    assert_eq!(poll(&chain, &mut polls, id), Ok(FilterChanges::ReturnData(expected)));
    assert_eq!(polls.poll(&id), Some(&PollFilter::ReturnData(10)));
}

#[test]
fn return_data_filter_skips_failed_replay_and_never_retries() {
    let chain = Chain::at(0);
    let mut polls = PollManager::new();
    let id = new_return_data_filter(&chain, &mut polls);
    chain.best.set(3);
    chain.replay_failures.borrow_mut().push(2);
    let pending = filter_changes(&chain, &mut polls, id).unwrap();
    assert_eq!(
        pending,
        PendingChanges::ReturnData(vec![
            Replayed { block: 1, outputs: outputs_of(1) },
            Replayed { block: 3, outputs: outputs_of(3) },
        ])
    );
    assert_eq!(polls.poll(&id), Some(&PollFilter::ReturnData(4)));
    chain.replay_failures.borrow_mut().clear();
    chain.best.set(4);
    let again = filter_changes(&chain, &mut polls, id).unwrap();
    assert_eq!(
        again,
        PendingChanges::ReturnData(vec![Replayed { block: 4, outputs: outputs_of(4) }])
    );
    assert_eq!(*chain.replayed.borrow(), vec![1, 2, 3, 4]);
}

#[test]
fn return_data_filter_gives_nothing_for_a_missing_body() {
    let chain = Chain::at(0);
    let mut polls = PollManager::new();
    let id = new_return_data_filter(&chain, &mut polls);
    chain.best.set(2);
    chain.bodies_missing.borrow_mut().push(1);
    assert_eq!(
        poll(&chain, &mut polls, id),
        Ok(FilterChanges::ReturnData(vec![
            ReturnData { transaction_hash: h(20), return_data: vec![2], removed: false },
            ReturnData { transaction_hash: h(21), return_data: vec![2, 1], removed: false },
        ]))
    );
}

#[test]
fn push_block_records_pairs_by_position() {
    let mut records = vec![ReturnData { transaction_hash: h(0), return_data: vec![], removed: false }];
    push_block_records(&mut records, &vec![vec![1], vec![2], vec![3]], &Some(vec![h(1), h(2)]));
    push_block_records(&mut records, &vec![vec![4]], &None);
    push_block_records(&mut records, &vec![vec![5]], &Some(vec![h(5), h(6)]));
    push_block_records(&mut records, &vec![], &Some(vec![h(7)]));
    assert_eq!(
        records,
        vec![
            ReturnData { transaction_hash: h(0), return_data: vec![], removed: false },
            ReturnData { transaction_hash: h(1), return_data: vec![1], removed: false },
            ReturnData { transaction_hash: h(2), return_data: vec![2], removed: false },
            ReturnData { transaction_hash: h(5), return_data: vec![5], removed: false },
        ]
    );
}

#[test]
fn backend_failure_fails_the_poll_after_the_cursor_moved() {
    let chain = Chain::at(2);
    let mut polls = PollManager::new();
    let logs_id = new_filter(&chain, &mut polls, criteria(None, None, None));
    let data_id = new_return_data_filter(&chain, &mut polls);
    chain.best.set(5);
    chain.fail_queries.set(true);
    assert_eq!(poll(&chain, &mut polls, logs_id), Err(FilterError::Backend(Chain::failure())));
    assert_eq!(poll(&chain, &mut polls, data_id), Err(FilterError::Backend(Chain::failure())));
    assert_eq!(polls.poll(&logs_id), Some(&PollFilter::Logs(6, vec![], criteria(None, None, None))));
    assert_eq!(polls.poll(&data_id), Some(&PollFilter::ReturnData(6)));
    assert_eq!(
        resolve_return_data(&chain, &vec![Replayed { block: 1, outputs: vec![] }]),
        Err(Chain::failure())
    );
    assert_eq!(resolve_return_data(&chain, &vec![]), Ok(vec![]));
}

#[test]
fn unknown_filter_is_not_found_and_nothing_changes() {
    let chain = Chain::at(2);
    let mut polls = PollManager::new();
    let id = new_block_filter(&chain, &mut polls);
    chain.best.set(3);
    assert_eq!(filter_changes(&chain, &mut polls, id + 1), Err(FilterError::NotFound));
    assert_eq!(filter_changes_at(&chain, &mut polls, 77, 3), Err(FilterError::NotFound));
    assert_eq!(filter_logs(&chain, &polls, id + 1), Err(FilterError::NotFound));
    assert_eq!(filter_logs_query(&polls, id + 1), Err(FilterError::NotFound));
    assert_eq!(polls.len(), 1);
    assert_eq!(polls.poll(&id), Some(&PollFilter::Block(3)));
}

#[test]
fn removing_a_filter() {
    let chain = Chain::at(2);
    let mut polls = PollManager::new();
    assert!(!uninstall_filter(&mut polls, 0));
    let id = new_block_filter(&chain, &mut polls);
    let other = new_pending_transaction_filter(&chain, &mut polls);
    assert!(uninstall_filter(&mut polls, id));
    assert!(!uninstall_filter(&mut polls, id));
    assert_eq!(poll(&chain, &mut polls, id), Err(FilterError::NotFound));
    assert_eq!(poll(&chain, &mut polls, other), Ok(FilterChanges::Hashes(vec![])));
    assert!(polls.poll(&other).is_some());
    assert!(polls.poll(&id).is_none());
}

#[test]
fn identifiers_are_issued_in_order_and_not_reused() {
    let chain = Chain::at(2);
    let mut polls = PollManager::new();
    let a = new_block_filter(&chain, &mut polls);
    let b = new_return_data_filter(&chain, &mut polls);
    assert!(uninstall_filter(&mut polls, a));
    let c = new_filter(&chain, &mut polls, criteria(None, None, None));
    let d = polls.create_poll(PollFilter::Block(0));
    assert_eq!((a, b, c, d), (0, 1, 2, 3));
    assert_eq!(polls.len(), 3);
    assert_eq!(polls.poll(&a), None);
}

#[test]
fn exclusive_access_to_a_filter_state() {
    let mut polls = PollManager::new();
    let id = polls.create_poll(PollFilter::Block(4));
    assert!(polls.poll_mut(&(id + 1)).is_none());
    match polls.poll_mut(&id) {
        Some(state) => {
            assert_eq!(*state, PollFilter::Block(4));
            *state = PollFilter::Block(6);
        }
        None => panic!("the filter is live"),
    }
    assert_eq!(polls.poll(&id), Some(&PollFilter::Block(6)));
    assert_eq!(polls.len(), 1);
    assert!(polls.remove_poll(&id));
    assert!(!polls.remove_poll(&id));
    assert!(polls.poll_mut(&id).is_none());
}

#[test]
fn registration_states() {
    assert_eq!(PollFilter::block_filter(4), PollFilter::Block(5));
    assert_eq!(PollFilter::return_data_filter(4), PollFilter::ReturnData(5));
    assert_eq!(PollFilter::return_data_filter(u64::MAX), PollFilter::ReturnData(u64::MAX));
    assert_eq!(
        PollFilter::pending_transaction_filter(vec![h(1)]),
        PollFilter::PendingTransaction(vec![h(1)])
    );
    assert_eq!(
        PollFilter::log_filter(4, vec![pending_log(1)], criteria(None, None, Some(2))),
        PollFilter::Logs(5, vec![pending_log(1)], criteria(None, None, Some(2)))
    );
}

#[test]
fn filter_logs_queries_the_criteria_as_registered() {
    let chain = Chain::at(6);
    for n in 1..=6u64 {
        chain.logs.borrow_mut().push(log_at(n, n as u8));
    }
    *chain.pending_logs.borrow_mut() = vec![pending_log(1)];
    let mut polls = PollManager::new();
    let wanted = criteria(Some(BlockNumber::Num(2)), Some(BlockNumber::Num(4)), None);
    let id = new_filter(&chain, &mut polls, wanted.clone());
    // a poll moves the cursor; the full query does not follow it
    assert_eq!(poll(&chain, &mut polls, id), Ok(FilterChanges::Logs(vec![])));
    chain.logs.borrow_mut().push(log_at(7, 7));
    chain.best.set(7);
    assert_eq!(poll(&chain, &mut polls, id), Ok(FilterChanges::Logs(vec![log_at(7, 7)])));
    assert_eq!(
        filter_logs(&chain, &polls, id),
        Ok(vec![log_at(2, 2), log_at(3, 3), log_at(4, 4)])
    );
    assert_eq!(polls.poll(&id), Some(&PollFilter::Logs(8, vec![], wanted)));

    let with_pending = new_filter(
        &chain,
        &mut polls,
        criteria(Some(BlockNumber::Num(5)), Some(BlockNumber::Pending), Some(2)),
    );
    assert_eq!(filter_logs(&chain, &polls, with_pending), Ok(vec![log_at(7, 7), pending_log(1)]));
    let again = filter_logs_query(&polls, with_pending).unwrap().unwrap();
    assert_eq!(resolve_logs_query(&chain, again), Ok(vec![log_at(7, 7), pending_log(1)]));
    let query = filter_logs_query(&polls, with_pending).unwrap().unwrap();
    assert!(query.include_pending);
    assert_eq!(query.query.from_block, BlockId::Number(5));
    assert_eq!(query.query.to_block, BlockId::Latest);
    assert_eq!(query.query.limit, Some(2));
}

#[test]
fn filter_logs_is_empty_for_other_classes() {
    let chain = Chain::at(6);
    chain.logs.borrow_mut().push(log_at(1, 1));
    let mut polls = PollManager::new();
    let a = new_block_filter(&chain, &mut polls);
    let b = new_pending_transaction_filter(&chain, &mut polls);
    let c = new_return_data_filter(&chain, &mut polls);
    assert_eq!(filter_logs(&chain, &polls, a), Ok(vec![]));
    assert_eq!(filter_logs(&chain, &polls, b), Ok(vec![]));
    assert_eq!(filter_logs(&chain, &polls, c), Ok(vec![]));
    assert_eq!(filter_logs_query(&polls, a), Ok(None));
    chain.fail_queries.set(true);
    let d = new_filter(&chain, &mut polls, criteria(None, None, None));
    assert_eq!(filter_logs(&chain, &polls, d), Err(FilterError::Backend(Chain::failure())));
}

#[test]
fn block_positions_map_to_chain_positions() {
    assert_eq!(to_block_id(Some(BlockNumber::Num(7))), BlockId::Number(7));
    assert_eq!(to_block_id(Some(BlockNumber::Earliest)), BlockId::Earliest);
    assert_eq!(to_block_id(Some(BlockNumber::Latest)), BlockId::Latest);
    assert_eq!(to_block_id(Some(BlockNumber::Pending)), BlockId::Latest);
    assert_eq!(to_block_id(None), BlockId::Latest);
    let wanted = criteria(Some(BlockNumber::Earliest), None, Some(1));
    assert_eq!(
        wanted.to_query(),
        EthcoreFilter {
            from_block: BlockId::Earliest,
            to_block: BlockId::Latest,
            address: vec![],
            topics: vec![],
            limit: Some(1),
        }
    );
    assert!(!wanted.includes_pending());
    assert!(criteria(None, Some(BlockNumber::Pending), None).includes_pending());
}

#[test]
fn helpers_on_plain_vectors() {
    assert_eq!(copy_vec(&vec![1u8, 2, 3]), vec![1u8, 2, 3]);
    assert_eq!(copy_vec(&Vec::<H256>::new()), vec![]);
    assert!(same_bytes(&vec![1, 2], &vec![1, 2]));
    assert!(!same_bytes(&vec![1, 2], &vec![1, 3]));
    assert!(!same_bytes(&vec![1, 2], &vec![1]));
    assert!(same_hashes(&vec![h(1)], &vec![h(1)]));
    assert!(!same_hashes(&vec![h(1)], &vec![h(2)]));
    assert_eq!(collect_hashes(&vec![None, Some(h(1)), None, Some(h(2))]), vec![h(1), h(2)]);
    assert_eq!(collect_hashes(&vec![]), vec![]);
}

#[test]
fn gathering_from_the_source() {
    let chain = Chain::at(5);
    chain.orphaned.borrow_mut().push(4);
    assert_eq!(
        resolve_blocks(&chain, 3, 7),
        vec![Some(block_hash_of(3)), None, Some(block_hash_of(5)), None]
    );
    assert_eq!(resolve_blocks(&chain, 7, 3), vec![]);
    assert_eq!(replay_blocks(&chain, 2, 2), vec![]);
    assert_eq!(replay_blocks(&chain, 2, 3), vec![Replayed { block: 2, outputs: outputs_of(2) }]);
    let mut state = PollFilter::Block(5);
    let changes = advance(&chain, &mut state, 5);
    assert_eq!(state, PollFilter::Block(6));
    assert_eq!(changes, PendingChanges::Hashes(vec![block_hash_of(5)]));
    assert_eq!(
        resolve_changes(&chain, PendingChanges::Hashes(vec![h(1)])),
        Ok(FilterChanges::Hashes(vec![h(1)]))
    );
}

struct Quiet;

impl Net for Quiet {}

#[test]
fn client_version_refuses_parameters() {
    let client = Web3Client::new();
    assert_eq!(
        client.client_version(Params::Absent),
        Ok(String::from("parity/0.1.0/-/rust1.7-nightly"))
    );
    assert_eq!(client.client_version(Params::Positional), Err(RpcError::InvalidParams));
    assert_eq!(client.client_version(Params::Named), Err(RpcError::InvalidParams));
    assert_eq!(Quiet.version(Params::Absent), Err(RpcError::InternalError));
    assert_eq!(Quiet.peer_count(Params::Absent), Err(RpcError::InternalError));
}
