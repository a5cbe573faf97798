use vstd::prelude::*;

use crate::block::{Block, Extrinsic};

verus! {

/// Whether this transaction carries an inclusion fee and therefore
/// yields a sample.
pub open spec fn has_inclusion_fee(e: Extrinsic) -> bool {
    e.fee_details.inclusion_fee is Some
}

/// The sample one retained transaction yields: its adjusted weight
/// fee, widened to 128 bits.
pub open spec fn sample_of(e: Extrinsic) -> u128
    recommends
        has_inclusion_fee(e),
{
    match e.fee_details.inclusion_fee {
        Some(fee) => fee.adjusted_weight_fee.widened(),
        None => 0,
    }
}

/// The samples of one block's transactions: one per transaction with
/// an inclusion fee, in the block's own order.
pub open spec fn block_samples(es: Seq<Extrinsic>) -> Seq<u128>
    decreases es.len(),
{
    if es.len() == 0 {
        Seq::empty()
    } else {
        let rest = block_samples(es.drop_last());
        if has_inclusion_fee(es.last()) {
            rest.push(sample_of(es.last()))
        } else {
            rest
        }
    }
}

/// All samples of a run: block order outermost, transaction order
/// within each block.
pub open spec fn all_samples(blocks: Seq<Block>) -> Seq<u128>
    decreases blocks.len(),
{
    if blocks.len() == 0 {
        Seq::empty()
    } else {
        all_samples(blocks.drop_last()) + block_samples(blocks.last().extrinsics@)
    }
}

/// Flatten a run's processed blocks into the ordered sample sequence:
/// keep exactly the transactions that carry an inclusion fee, widen
/// each adjusted weight fee to 128 bits, and preserve block order
/// and, within a block, transaction order.
pub fn extract_samples(blocks: &Vec<Block>) -> (samples: Vec<u128>)
    ensures
        samples@ == all_samples(blocks@),
{
    let mut samples: Vec<u128> = Vec::new();
    let mut i: usize = 0;
    while i < blocks.len()
        invariant
            i <= blocks@.len(),
            samples@ == all_samples(blocks@.take(i as int)),
        decreases blocks@.len() - i,
    {
        let block = &blocks[i];
        let mut j: usize = 0;
        while j < block.extrinsics.len()
            invariant
                i < blocks@.len(),
                j <= block.extrinsics@.len(),
                block == blocks@[i as int],
                samples@ == all_samples(blocks@.take(i as int))
                    + block_samples(block.extrinsics@.take(j as int)),
            decreases block.extrinsics@.len() - j,
        {
            let ghost prefix = all_samples(blocks@.take(i as int));
            let ghost taken = block.extrinsics@.take(j as int);
            let ghost taken_next = block.extrinsics@.take(j + 1 as int);
            proof {
                assert(taken_next.drop_last() =~= taken);
                assert(taken_next.last() == block.extrinsics@[j as int]);
            }
            match &block.extrinsics[j].fee_details.inclusion_fee {
                Some(fee) => {
                    let sample: u128 = fee.adjusted_weight_fee.as_u128();
                    samples.push(sample);
                    proof {
                        assert(samples@ =~= prefix + block_samples(taken_next));
                    }
                }
                None => {
                    proof {
                        assert(block_samples(taken_next) == block_samples(taken));
                    }
                }
            }
            j = j + 1;
        }
        proof {
            assert(block.extrinsics@.take(block.extrinsics@.len() as int) =~= block.extrinsics@);
            let taken_next = blocks@.take(i + 1 as int);
            assert(taken_next.drop_last() =~= blocks@.take(i as int));
            assert(taken_next.last() == blocks@[i as int]);
        }
        i = i + 1;
    }
    proof {
        assert(blocks@.take(blocks@.len() as int) =~= blocks@);
    }
    samples
}

/// How many of one block's transactions carry an inclusion fee.
pub open spec fn fee_count(es: Seq<Extrinsic>) -> nat
    decreases es.len(),
{
    if es.len() == 0 {
        0
    } else {
        fee_count(es.drop_last()) + if has_inclusion_fee(es.last()) {
            1nat
        } else {
            0nat
        }
    }
}

/// How many transactions carry an inclusion fee across a whole run.
pub open spec fn total_fee_count(blocks: Seq<Block>) -> nat
    decreases blocks.len(),
{
    if blocks.len() == 0 {
        0
    } else {
        total_fee_count(blocks.drop_last()) + fee_count(blocks.last().extrinsics@)
    }
}

/// Law: one block yields exactly one sample per transaction that
/// carries an inclusion fee.
pub proof fn lemma_block_sample_count(es: Seq<Extrinsic>)
    ensures
        block_samples(es).len() == fee_count(es),
    decreases es.len(),
{
    if es.len() > 0 {
        lemma_block_sample_count(es.drop_last());
    }
}

/// Law: the extracted sample sequence has exactly one entry per
/// transaction, over the whole run, that carries an inclusion fee.
pub proof fn lemma_sample_count(blocks: Seq<Block>)
    ensures
        all_samples(blocks).len() == total_fee_count(blocks),
    decreases blocks.len(),
{
    if blocks.len() > 0 {
        lemma_sample_count(blocks.drop_last());
        lemma_block_sample_count(blocks.last().extrinsics@);
    }
}

/// Law: within one block, every sample is the widened adjusted
/// weight fee of some transaction that carries an inclusion fee; a
/// transaction without one contributes nothing.
pub proof fn lemma_block_sample_source(es: Seq<Extrinsic>, k: int)
    requires
        0 <= k < block_samples(es).len(),
    ensures
        exists|j: int|
            0 <= j < es.len() && has_inclusion_fee(es[j]) && block_samples(es)[k]
                == #[trigger] sample_of(es[j]),
    decreases es.len(),
{
    let rest = block_samples(es.drop_last());
    if k < rest.len() {
        lemma_block_sample_source(es.drop_last(), k);
        let j0 = choose|j: int|
            0 <= j < es.drop_last().len() && has_inclusion_fee(es.drop_last()[j]) && rest[k]
                == #[trigger] sample_of(es.drop_last()[j]);
        assert(es.drop_last()[j0] == es[j0]);
        assert(block_samples(es)[k] == sample_of(es[j0]));
    } else {
        let j0 = es.len() - 1;
        assert(has_inclusion_fee(es[j0]));
        assert(block_samples(es)[k] == sample_of(es[j0]));
    }
}

/// Law: every extracted sample is the widened adjusted weight fee of
/// some transaction, in some block, that carries an inclusion fee;
/// no sample comes from anywhere else.
pub proof fn lemma_sample_source(blocks: Seq<Block>, k: int)
    requires
        0 <= k < all_samples(blocks).len(),
    ensures
        exists|i: int, j: int|
            0 <= i < blocks.len() && 0 <= j < blocks[i].extrinsics@.len() && has_inclusion_fee(
                blocks[i].extrinsics@[j],
            ) && all_samples(blocks)[k] == #[trigger] sample_of(blocks[i].extrinsics@[j]),
    decreases blocks.len(),
{
    let front = all_samples(blocks.drop_last());
    if k < front.len() {
        lemma_sample_source(blocks.drop_last(), k);
        let (i0, j0) = choose|i: int, j: int|
            0 <= i < blocks.drop_last().len() && 0 <= j < blocks.drop_last()[i].extrinsics@.len()
                && has_inclusion_fee(blocks.drop_last()[i].extrinsics@[j]) && front[k]
                == #[trigger] sample_of(blocks.drop_last()[i].extrinsics@[j]);
        assert(blocks.drop_last()[i0] == blocks[i0]);
        assert(all_samples(blocks)[k] == sample_of(blocks[i0].extrinsics@[j0]));
    } else {
        let tail = blocks.last().extrinsics@;
        lemma_block_sample_source(tail, k - front.len());
        let j0 = choose|j: int|
            0 <= j < tail.len() && has_inclusion_fee(tail[j]) && block_samples(tail)[k
                - front.len()] == #[trigger] sample_of(tail[j]);
        let i0 = blocks.len() - 1;
        assert(blocks.last() == blocks[i0]);
        assert(all_samples(blocks)[k] == sample_of(blocks[i0].extrinsics@[j0]));
    }
}

/// The transactions of one block that carry an inclusion fee, in
/// the block's own order.
pub open spec fn retained(es: Seq<Extrinsic>) -> Seq<Extrinsic>
    decreases es.len(),
{
    if es.len() == 0 {
        Seq::empty()
    } else {
        let rest = retained(es.drop_last());
        if has_inclusion_fee(es.last()) {
            rest.push(es.last())
        } else {
            rest
        }
    }
}

/// Law: discarding the transactions without an inclusion fee before
/// sampling changes nothing; equally, a transaction without one
/// contributes nothing, directly or indirectly, to the samples.
pub proof fn lemma_retained_same_samples(es: Seq<Extrinsic>)
    ensures
        block_samples(retained(es)) == block_samples(es),
    decreases es.len(),
{
    if es.len() > 0 {
        lemma_retained_same_samples(es.drop_last());
        if has_inclusion_fee(es.last()) {
            let rest = retained(es.drop_last());
            assert(retained(es) == rest.push(es.last()));
            assert(retained(es).drop_last() =~= rest);
            assert(retained(es).last() == es.last());
        }
    }
}

/// How many of one block's transactions carry an inclusion fee,
/// counted for the pre-rendering diagnostic.
pub fn count_fee_transactions(block: &Block) -> (n: usize)
    ensures
        n == fee_count(block.extrinsics@),
{
    let mut n: usize = 0;
    let mut j: usize = 0;
    while j < block.extrinsics.len()
        invariant
            j <= block.extrinsics@.len(),
            n <= j,
            n == fee_count(block.extrinsics@.take(j as int)),
        decreases block.extrinsics@.len() - j,
    {
        proof {
            let taken_next = block.extrinsics@.take(j + 1 as int);
            assert(taken_next.drop_last() =~= block.extrinsics@.take(j as int));
            assert(taken_next.last() == block.extrinsics@[j as int]);
        }
        if block.extrinsics[j].fee_details.inclusion_fee.is_some() {
            n = n + 1;
        }
        j = j + 1;
    }
    proof {
        assert(block.extrinsics@.take(block.extrinsics@.len() as int) =~= block.extrinsics@);
    }
    n
}

/// How many blocks keep at least one transaction once the ones
/// without an inclusion fee are discarded.
pub open spec fn nonempty_block_count(blocks: Seq<Block>) -> nat
    decreases blocks.len(),
{
    if blocks.len() == 0 {
        0
    } else {
        nonempty_block_count(blocks.drop_last()) + if fee_count(blocks.last().extrinsics@) > 0 {
            1nat
        } else {
            0nat
        }
    }
}

/// Count the blocks that still hold a transaction after filtering;
/// reported as a diagnostic before rendering, with no effect on the
/// samples themselves.
pub fn count_nonempty_blocks(blocks: &Vec<Block>) -> (n: usize)
    ensures
        n == nonempty_block_count(blocks@),
{
    let mut n: usize = 0;
    let mut i: usize = 0;
    while i < blocks.len()
        invariant
            i <= blocks@.len(),
            n <= i,
            n == nonempty_block_count(blocks@.take(i as int)),
        decreases blocks@.len() - i,
    {
        proof {
            let taken_next = blocks@.take(i + 1 as int);
            assert(taken_next.drop_last() =~= blocks@.take(i as int));
            assert(taken_next.last() == blocks@[i as int]);
        }
        if count_fee_transactions(&blocks[i]) > 0 {
            n = n + 1;
        }
        i = i + 1;
    }
    proof {
        assert(blocks@.take(blocks@.len() as int) =~= blocks@);
    }
    n
}

/// The largest sample, or zero for an empty series.
pub open spec fn seq_max(s: Seq<u128>) -> u128
    decreases s.len(),
{
    if s.len() == 0 {
        0
    } else {
        let m = seq_max(s.drop_last());
        if s.last() >= m {
            s.last()
        } else {
            m
        }
    }
}

/// The smallest sample, or zero for an empty series.
pub open spec fn seq_min(s: Seq<u128>) -> u128
    decreases s.len(),
{
    if s.len() == 0 {
        0
    } else if s.len() == 1 {
        s[0]
    } else {
        let m = seq_min(s.drop_last());
        if s.last() <= m {
            s.last()
        } else {
            m
        }
    }
}

/// The value range the chart's y axis must cover: the smallest and
/// largest sample, both zero for an empty series.
pub fn sample_bounds(data: &Vec<u128>) -> (r: (u128, u128))
    ensures
        r.0 == seq_min(data@),
        r.1 == seq_max(data@),
        r.0 <= r.1,
{
    let mut lo: u128 = 0;
    let mut hi: u128 = 0;
    let mut i: usize = 0;
    while i < data.len()
        invariant
            i <= data@.len(),
            lo == seq_min(data@.take(i as int)),
            hi == seq_max(data@.take(i as int)),
            lo <= hi,
        decreases data@.len() - i,
    {
        proof {
            let taken_next = data@.take(i + 1 as int);
            assert(taken_next.drop_last() =~= data@.take(i as int));
            assert(taken_next.last() == data@[i as int]);
        }
        let x: u128 = data[i];
        if i == 0 {
            lo = x;
            hi = x;
        } else {
            if x < lo {
                lo = x;
            }
            if x > hi {
                hi = x;
            }
        }
        i = i + 1;
    }
    proof {
        assert(data@.take(data@.len() as int) =~= data@);
    }
    (lo, hi)
}

/// Law: a one-element series, and a two-element series of two equal
/// values, both have a zero-width value range: the renderer is owed
/// success on such degenerate ranges.
pub proof fn lemma_degenerate_range(s: Seq<u128>)
    requires
        s.len() == 1 || (s.len() == 2 && s[0] == s[1]),
    ensures
        seq_min(s) == seq_max(s),
{
    reveal_with_fuel(seq_min, 3);
    reveal_with_fuel(seq_max, 3);
    if s.len() == 2 {
        assert(s.drop_last().len() == 1);
        assert(s.drop_last()[0] == s[0]);
        assert(s.last() == s[1]);
    }
}

} // verus!
