//! Change computation: what is new relative to a filter's cursor, given what
//! the chain reported.

use vstd::prelude::*;
use crate::types::{
    byte_views, copy_vec, log_views, return_data_views, H256, Log, LogView, ReturnData,
    ReturnDataView,
};

verus! {

/// The block number after `best`; it stays at the largest number.
pub open spec fn following(best: u64) -> u64 {
    if best == u64::MAX {
        best
    } else {
        (best + 1) as u64
    }
}

/// How many block numbers lie in `[next_block, current)`.
pub open spec fn span(next_block: u64, current: u64) -> nat {
    if next_block < current {
        (current - next_block) as nat
    } else {
        0
    }
}

/// The block numbers in `[next_block, current)`, ascending.
pub open spec fn numbers(next_block: u64, current: u64) -> Seq<u64> {
    Seq::new(span(next_block, current), |i: int| (next_block + i) as u64)
}

/// The hashes among `resolved` that were found, in the same order.
pub open spec fn resolved_hashes(resolved: Seq<Option<H256>>) -> Seq<H256>
    decreases resolved.len(),
{
    if resolved.len() == 0 {
        Seq::empty()
    } else {
        let earlier = resolved_hashes(resolved.drop_last());
        match resolved.last() {
            Some(hash) => earlier.push(hash),
            None => earlier,
        }
    }
}

/// The items of `current` that do not occur in `known`, in the same order.
pub open spec fn excluding<A>(current: Seq<A>, known: Seq<A>) -> Seq<A>
    decreases current.len(),
{
    if current.len() == 0 {
        Seq::empty()
    } else {
        let earlier = excluding(current.drop_last(), known);
        if known.contains(current.last()) {
            earlier
        } else {
            earlier.push(current.last())
        }
    }
}

/// The most recent `limit` items of `logs`; all of them where no limit is
/// set or fewer are there.
pub open spec fn limited<A>(logs: Seq<A>, limit: Option<usize>) -> Seq<A> {
    match limit {
        Some(k) => if logs.len() >= k {
            logs.subrange(logs.len() - k, logs.len() as int)
        } else {
            logs
        },
        None => logs,
    }
}

/// Transaction outputs paired by position with transaction hashes; the
/// shorter of the two decides the length.
pub open spec fn paired(outputs: Seq<Seq<u8>>, hashes: Seq<H256>) -> Seq<ReturnDataView> {
    Seq::new(
        if outputs.len() <= hashes.len() { outputs.len() } else { hashes.len() },
        |j: int| ReturnDataView {
            transaction_hash: hashes[j],
            return_data: outputs[j],
            removed: false,
        },
    )
}

/// The records that one replayed block contributes: none where its body was
/// not found.
pub open spec fn block_records(outputs: Seq<Seq<u8>>, body: Option<Seq<H256>>) -> Seq<
    ReturnDataView,
> {
    match body {
        Some(hashes) => paired(outputs, hashes),
        None => Seq::empty(),
    }
}

/// The transaction hashes of a block's body, where it was found.
pub open spec fn body_view(body: Option<Vec<H256>>) -> Option<Seq<H256>> {
    match body {
        Some(hashes) => Some(hashes@),
        None => None,
    }
}

/// The block number after `best`, saturating at the largest number.
pub fn next_after(best: u64) -> (r: u64)
    ensures
        r == following(best),
{
    if best == u64::MAX {
        best
    } else {
        best + 1
    }
}

/// The block numbers that a poll walks: those in `[next_block, current)`,
/// ascending.
pub fn block_numbers(next_block: u64, current: u64) -> (r: Vec<u64>)
    ensures
        r@ == numbers(next_block, current),
{
    let mut r: Vec<u64> = Vec::new();
    let mut block: u64 = next_block;
    while block < current
        invariant
            next_block <= block,
            next_block < current ==> block <= current,
            next_block >= current ==> block == next_block,
            r@ == numbers(next_block, block),
        decreases current - block,
    {
        r.push(block);
        assert(r@ =~= numbers(next_block, (block + 1) as u64));
        block += 1;
    }
    assert(numbers(next_block, block) =~= numbers(next_block, current));
    r
}

/// Drops the block numbers that did not resolve to a hash.
pub fn collect_hashes(resolved: &Vec<Option<H256>>) -> (r: Vec<H256>)
    ensures
        r@ == resolved_hashes(resolved@),
{
    let mut r: Vec<H256> = Vec::new();
    let mut i: usize = 0;
    while i < resolved.len()
        invariant
            i <= resolved.len(),
            r@ == resolved_hashes(resolved@.subrange(0, i as int)),
        decreases resolved.len() - i,
    {
        assert(resolved@.subrange(0, i + 1).drop_last() =~= resolved@.subrange(0, i as int));
        match resolved[i] {
            Some(hash) => {
                r.push(hash);
            },
            None => {},
        }
        i += 1;
    }
    assert(resolved@.subrange(0, i as int) =~= resolved@);
    r
}

/// Whether `hash` occurs in `known`.
pub fn contains_hash(known: &Vec<H256>, hash: &H256) -> (r: bool)
    ensures
        r == known@.contains(*hash),
{
    let mut i: usize = 0;
    while i < known.len()
        invariant
            i <= known.len(),
            forall|j: int| 0 <= j < i ==> known@[j] != *hash,
        decreases known.len() - i,
    {
        if known[i] == *hash {
            return true;
        }
        i += 1;
    }
    false
}

/// Whether a record equal to `log` occurs in `known`.
pub fn contains_log(known: &Vec<Log>, log: &Log) -> (r: bool)
    ensures
        r == log_views(known@).contains(log@),
{
    let mut i: usize = 0;
    while i < known.len()
        invariant
            i <= known.len(),
            forall|j: int| 0 <= j < i ==> log_views(known@)[j] != log@,
        decreases known.len() - i,
    {
        if known[i].same_as(log) {
            assert(log_views(known@)[i as int] == log@);
            return true;
        }
        i += 1;
    }
    false
}

/// The pending transaction hashes that the previous poll did not see, in the
/// order in which the pool lists them.
pub fn new_hashes(known: &Vec<H256>, current: &Vec<H256>) -> (r: Vec<H256>)
    ensures
        r@ == excluding(current@, known@),
{
    let mut r: Vec<H256> = Vec::new();
    let mut i: usize = 0;
    while i < current.len()
        invariant
            i <= current.len(),
            r@ == excluding(current@.subrange(0, i as int), known@),
        decreases current.len() - i,
    {
        assert(current@.subrange(0, i + 1).drop_last() =~= current@.subrange(0, i as int));
        if !contains_hash(known, &current[i]) {
            r.push(current[i]);
        }
        i += 1;
    }
    assert(current@.subrange(0, i as int) =~= current@);
    r
}

/// The pending logs that the previous poll did not see, in the order in
/// which the chain lists them.
pub fn new_logs(known: &Vec<Log>, current: &Vec<Log>) -> (r: Vec<Log>)
    ensures
        log_views(r@) == excluding(log_views(current@), log_views(known@)),
{
    let mut r: Vec<Log> = Vec::new();
    let mut i: usize = 0;
    while i < current.len()
        invariant
            i <= current.len(),
            log_views(r@) == excluding(log_views(current@.subrange(0, i as int)), log_views(known@)),
        decreases current.len() - i,
    {
        assert(log_views(current@.subrange(0, i + 1)).drop_last() =~= log_views(
            current@.subrange(0, i as int),
        ));
        if !contains_log(known, &current[i]) {
            let ghost before = r@;
            let copy = current[i].duplicate();
            r.push(copy);
            assert(log_views(r@) =~= log_views(before).push(copy@));
        }
        i += 1;
    }
    assert(current@.subrange(0, i as int) =~= current@);
    r
}

/// Keeps the most recent `limit` logs and discards the older ones.
pub fn limit_logs(logs: Vec<Log>, limit: Option<usize>) -> (r: Vec<Log>)
    ensures
        r@ == limited(logs@, limit),
{
    let mut logs = logs;
    let len: usize = logs.len();
    match limit {
        Some(k) => {
            if len >= k {
                logs.split_off(len - k)
            } else {
                logs
            }
        },
        None => logs,
    }
}

/// Completes a log poll: the logs that the chain found, then the new pending
/// logs, cut to the filter's limit.
pub fn finish_logs(fetched: Vec<Log>, pending: Vec<Log>, limit: Option<usize>) -> (r: Vec<Log>)
    ensures
        r@ == limited(fetched@ + pending@, limit),
{
    let mut logs = fetched;
    let mut pending = pending;
    logs.append(&mut pending);
    limit_logs(logs, limit)
}

/// Appends to `records` what one replayed block contributes: each output
/// with the hash of the transaction at the same position, or nothing where
/// the block's body was not found.
pub fn push_block_records(
    records: &mut Vec<ReturnData>,
    outputs: &Vec<Vec<u8>>,
    body: &Option<Vec<H256>>,
)
    ensures
        return_data_views(final(records)@) == return_data_views(old(records)@) + block_records(
            byte_views(outputs@),
            body_view(*body),
        ),
{
    match body {
        None => {
            assert(return_data_views(records@) + Seq::<ReturnDataView>::empty()
                =~= return_data_views(records@));
        },
        Some(hashes) => {
            let n: usize = if outputs.len() <= hashes.len() {
                outputs.len()
            } else {
                hashes.len()
            };
            let ghost target = paired(byte_views(outputs@), hashes@);
            let mut j: usize = 0;
            while j < n
                invariant
                    j <= n,
                    n == target.len(),
                    n <= outputs.len(),
                    n <= hashes.len(),
                    target == paired(byte_views(outputs@), hashes@),
                    return_data_views(records@) == return_data_views(old(records)@)
                        + target.subrange(0, j as int),
                decreases n - j,
            {
                let ghost before = records@;
                let record = ReturnData {
                    transaction_hash: hashes[j],
                    return_data: copy_vec(&outputs[j]),
                    removed: false,
                };
                records.push(record);
                assert(return_data_views(records@) =~= return_data_views(before).push(record@));
                assert(record@ == target[j as int]);
                assert(target.subrange(0, j + 1) =~= target.subrange(0, j as int).push(
                    target[j as int],
                ));
                assert(return_data_views(records@) =~= return_data_views(old(records)@)
                    + target.subrange(0, j + 1));
                j += 1;
            }
            assert(target.subrange(0, j as int) =~= target);
        },
    }
}

} // verus!
