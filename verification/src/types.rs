//! Plain data exchanged between the filters, their callers and the chain.

use vstd::prelude::*;

verus! {

/// A 256-bit hash, held as its high and low halves.
#[derive(Clone, Copy, Debug, PartialEq, Eq, Structural)]
pub struct H256 {
    pub hi: u128,
    pub lo: u128,
}

/// A 160-bit account address, held as its high 32 bits and low 128 bits.
#[derive(Clone, Copy, Debug, PartialEq, Eq, Structural)]
pub struct Address {
    pub hi: u32,
    pub lo: u128,
}

/// A block position as a caller names it.
#[derive(Clone, Copy, Debug, PartialEq, Eq, Structural)]
pub enum BlockNumber {
    Num(u64),
    Latest,
    Earliest,
    Pending,
}

/// A block position as the chain is asked for it.
#[derive(Clone, Copy, Debug, PartialEq, Eq, Structural)]
pub enum BlockId {
    Number(u64),
    Earliest,
    Latest,
}

/// One accepted value for one topic position of a log.
#[derive(Clone, Copy, Debug, PartialEq, Eq, Structural)]
pub struct TopicChoice {
    pub position: u8,
    pub topic: H256,
}

/// Matching criteria of a log filter. The address and topic lists are only
/// carried to the chain, which evaluates them.
#[derive(Clone, Debug, PartialEq, Eq)]
pub struct Filter {
    pub from_block: Option<BlockNumber>,
    pub to_block: Option<BlockNumber>,
    pub address: Vec<Address>,
    pub topics: Vec<TopicChoice>,
    pub limit: Option<usize>,
}

/// Mathematical value of a [`Filter`].
pub struct FilterView {
    pub from_block: Option<BlockNumber>,
    pub to_block: Option<BlockNumber>,
    pub address: Seq<Address>,
    pub topics: Seq<TopicChoice>,
    pub limit: Option<usize>,
}

impl View for Filter {
    type V = FilterView;

    open spec fn view(&self) -> FilterView {
        FilterView {
            from_block: self.from_block,
            to_block: self.to_block,
            address: self.address@,
            topics: self.topics@,
            limit: self.limit,
        }
    }
}

/// The query handed to the chain: a filter's criteria over a fixed range.
#[derive(Clone, Debug, PartialEq, Eq)]
pub struct EthcoreFilter {
    pub from_block: BlockId,
    pub to_block: BlockId,
    pub address: Vec<Address>,
    pub topics: Vec<TopicChoice>,
    pub limit: Option<usize>,
}

/// Mathematical value of an [`EthcoreFilter`].
pub struct EthcoreFilterView {
    pub from_block: BlockId,
    pub to_block: BlockId,
    pub address: Seq<Address>,
    pub topics: Seq<TopicChoice>,
    pub limit: Option<usize>,
}

impl View for EthcoreFilter {
    type V = EthcoreFilterView;

    open spec fn view(&self) -> EthcoreFilterView {
        EthcoreFilterView {
            from_block: self.from_block,
            to_block: self.to_block,
            address: self.address@,
            topics: self.topics@,
            limit: self.limit,
        }
    }
}

/// An event record produced by the chain.
#[derive(Clone, Debug, PartialEq, Eq)]
pub struct Log {
    pub address: Address,
    pub topics: Vec<H256>,
    pub data: Vec<u8>,
    pub block_hash: Option<H256>,
    pub block_number: Option<u64>,
    pub transaction_hash: Option<H256>,
    pub transaction_index: Option<u64>,
    pub log_index: Option<u64>,
    pub pending: bool,
}

/// Mathematical value of a [`Log`]; two logs are the same record exactly when
/// their views are equal.
pub struct LogView {
    pub address: Address,
    pub topics: Seq<H256>,
    pub data: Seq<u8>,
    pub block_hash: Option<H256>,
    pub block_number: Option<u64>,
    pub transaction_hash: Option<H256>,
    pub transaction_index: Option<u64>,
    pub log_index: Option<u64>,
    pub pending: bool,
}

impl View for Log {
    type V = LogView;

    open spec fn view(&self) -> LogView {
        LogView {
            address: self.address,
            topics: self.topics@,
            data: self.data@,
            block_hash: self.block_hash,
            block_number: self.block_number,
            transaction_hash: self.transaction_hash,
            transaction_index: self.transaction_index,
            log_index: self.log_index,
            pending: self.pending,
        }
    }
}

/// The output of one replayed transaction, paired with its hash.
#[derive(Clone, Debug, PartialEq, Eq)]
pub struct ReturnData {
    pub transaction_hash: H256,
    pub return_data: Vec<u8>,
    pub removed: bool,
}

/// Mathematical value of a [`ReturnData`].
pub struct ReturnDataView {
    pub transaction_hash: H256,
    pub return_data: Seq<u8>,
    pub removed: bool,
}

impl View for ReturnData {
    type V = ReturnDataView;

    open spec fn view(&self) -> ReturnDataView {
        ReturnDataView {
            transaction_hash: self.transaction_hash,
            return_data: self.return_data@,
            removed: self.removed,
        }
    }
}

/// What a poll hands back.
#[derive(Clone, Debug, PartialEq, Eq)]
pub enum FilterChanges {
    Hashes(Vec<H256>),
    Logs(Vec<Log>),
    ReturnData(Vec<ReturnData>),
}

/// The views of a sequence of logs, in the same order.
pub open spec fn log_views(logs: Seq<Log>) -> Seq<LogView> {
    logs.map_values(|l: Log| l@)
}

/// The views of a sequence of return-data records, in the same order.
pub open spec fn return_data_views(records: Seq<ReturnData>) -> Seq<ReturnDataView> {
    records.map_values(|r: ReturnData| r@)
}

/// The views of a sequence of byte strings, in the same order.
pub open spec fn byte_views(outputs: Seq<Vec<u8>>) -> Seq<Seq<u8>> {
    outputs.map_values(|o: Vec<u8>| o@)
}

/// The chain position that a caller's block position stands for in a query:
/// the pending state and an absent position are searched as the latest block.
pub open spec fn block_id_of(number: Option<BlockNumber>) -> BlockId {
    match number {
        Some(BlockNumber::Num(n)) => BlockId::Number(n),
        Some(BlockNumber::Earliest) => BlockId::Earliest,
        Some(BlockNumber::Latest) => BlockId::Latest,
        Some(BlockNumber::Pending) => BlockId::Latest,
        None => BlockId::Latest,
    }
}

/// The query that carries `criteria` over the range from `from` to `to`.
pub open spec fn query_of(criteria: FilterView, from: BlockId, to: BlockId) -> EthcoreFilterView {
    EthcoreFilterView {
        from_block: from,
        to_block: to,
        address: criteria.address,
        topics: criteria.topics,
        limit: criteria.limit,
    }
}

/// The chain position for a caller's block position.
pub fn to_block_id(number: Option<BlockNumber>) -> (r: BlockId)
    ensures
        r == block_id_of(number),
{
    match number {
        Some(BlockNumber::Num(n)) => BlockId::Number(n),
        Some(BlockNumber::Earliest) => BlockId::Earliest,
        Some(BlockNumber::Latest) => BlockId::Latest,
        Some(BlockNumber::Pending) => BlockId::Latest,
        None => BlockId::Latest,
    }
}

/// A fresh vector with the same items.
pub fn copy_vec<T: Copy>(items: &Vec<T>) -> (r: Vec<T>)
    ensures
        r@ == items@,
{
    let mut r: Vec<T> = Vec::new();
    let mut i: usize = 0;
    while i < items.len()
        invariant
            i <= items.len(),
            r@ == items@.subrange(0, i as int),
        decreases items.len() - i,
    {
        r.push(items[i]);
        assert(r@ == items@.subrange(0, i + 1)) by {
            assert(r@ =~= items@.subrange(0, i + 1));
        }
        i += 1;
    }
    assert(items@.subrange(0, i as int) =~= items@);
    r
}

/// Whether two byte strings hold the same bytes.
pub fn same_bytes(a: &Vec<u8>, b: &Vec<u8>) -> (r: bool)
    ensures
        r == (a@ == b@),
{
    if a.len() != b.len() {
        return false;
    }
    let mut i: usize = 0;
    while i < a.len()
        invariant
            i <= a.len(),
            a.len() == b.len(),
            a@.subrange(0, i as int) == b@.subrange(0, i as int),
        decreases a.len() - i,
    {
        if a[i] != b[i] {
            return false;
        }
        assert(a@.subrange(0, i + 1) =~= a@.subrange(0, i as int).push(a@[i as int]));
        assert(b@.subrange(0, i + 1) =~= b@.subrange(0, i as int).push(b@[i as int]));
        i += 1;
    }
    assert(a@.subrange(0, i as int) =~= a@);
    assert(b@.subrange(0, i as int) =~= b@);
    true
}

/// Whether two hash lists hold the same hashes in the same order.
pub fn same_hashes(a: &Vec<H256>, b: &Vec<H256>) -> (r: bool)
    ensures
        r == (a@ == b@),
{
    if a.len() != b.len() {
        return false;
    }
    let mut i: usize = 0;
    while i < a.len()
        invariant
            i <= a.len(),
            a.len() == b.len(),
            a@.subrange(0, i as int) == b@.subrange(0, i as int),
        decreases a.len() - i,
    {
        if a[i] != b[i] {
            return false;
        }
        assert(a@.subrange(0, i + 1) =~= a@.subrange(0, i as int).push(a@[i as int]));
        assert(b@.subrange(0, i + 1) =~= b@.subrange(0, i as int).push(b@[i as int]));
        i += 1;
    }
    assert(a@.subrange(0, i as int) =~= a@);
    assert(b@.subrange(0, i as int) =~= b@);
    true
}

impl Filter {
    /// The query for these criteria over the range from `from` to `to`.
    pub fn query_over(&self, from: BlockId, to: BlockId) -> (r: EthcoreFilter)
        ensures
            r@ == query_of(self@, from, to),
    {
        EthcoreFilter {
            from_block: from,
            to_block: to,
            address: copy_vec(&self.address),
            topics: copy_vec(&self.topics),
            limit: self.limit,
        }
    }

    /// The query for these criteria over their own range.
    pub fn to_query(&self) -> (r: EthcoreFilter)
        ensures
            r@ == query_of(self@, block_id_of(self.from_block), block_id_of(self.to_block)),
    {
        self.query_over(to_block_id(self.from_block), to_block_id(self.to_block))
    }

    /// Whether the criteria reach into the pending state.
    pub fn includes_pending(&self) -> (r: bool)
        ensures
            r == (self.to_block == Some(BlockNumber::Pending)),
    {
        match self.to_block {
            Some(BlockNumber::Pending) => true,
            _ => false,
        }
    }
}

impl Log {
    /// An independent copy of the record.
    pub fn duplicate(&self) -> (r: Log)
        ensures
            r@ == self@,
    {
        Log {
            address: self.address,
            topics: copy_vec(&self.topics),
            data: copy_vec(&self.data),
            block_hash: self.block_hash,
            block_number: self.block_number,
            transaction_hash: self.transaction_hash,
            transaction_index: self.transaction_index,
            log_index: self.log_index,
            pending: self.pending,
        }
    }

    /// Structural equality of two records.
    pub fn same_as(&self, other: &Log) -> (r: bool)
        ensures
            r == (self@ == other@),
    {
        self.address == other.address
            && same_hashes(&self.topics, &other.topics)
            && same_bytes(&self.data, &other.data)
            && self.block_hash == other.block_hash
            && self.block_number == other.block_number
            && self.transaction_hash == other.transaction_hash
            && self.transaction_index == other.transaction_index
            && self.log_index == other.log_index
            && self.pending == other.pending
    }
}

} // verus!
