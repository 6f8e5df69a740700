//! Which block to write next: the four traversal modes over a block range.

use vstd::prelude::*;
use vstd::arithmetic::power2::is_pow2;
use crate::entropy::random_in_range;
use crate::lcg::{Lcg, LcgView, lemma_draws_permute_range};
use crate::powers::{
    is_least_power_at_least,
    is_power_of_two,
    lemma_pow2_positive,
    next_power_of_two,
    TOP_POWER,
};

verus! {

/// The order in which the blocks of the range are written.
#[derive(Clone, Copy, Debug, PartialEq, Eq, Structural)]
pub enum IoMode {
    /// Upwards from the start block.
    Sequential,
    /// Downwards from the last block.
    SequentialReverse,
    /// A block drawn afresh for every write; the traversal has no end.
    Random,
    /// Every block once, in the order of a full-period generator.
    FullPeriodRandom,
}

/// Why a traversal cannot be set up.
#[derive(Clone, Copy, Debug, PartialEq, Eq, Structural)]
pub enum SequencerError {
    /// The block size is not a power of two.
    BlockSizeNotPowerOfTwo,
    /// The end block lies before the start block.
    EndBeforeStart,
    /// The byte offset of the end block does not fit in 64 bits.
    OffsetOverflow,
    /// Random mode over a range without blocks.
    EmptyRandomRange,
    /// No power of two that fits in 64 bits covers the range.
    RangeTooLarge,
}

impl SequencerError {
    /// The fault in words.
    pub open spec fn spec_message(self) -> Seq<char> {
        match self {
            SequencerError::BlockSizeNotPowerOfTwo => "ERROR: Blocksize must be a power of 2"@,
            SequencerError::EndBeforeStart => "ERROR: Endblock must be higher than startblock"@,
            SequencerError::OffsetOverflow => "ERROR: the end block lies beyond 64-bit offsets"@,
            SequencerError::EmptyRandomRange => "ERROR: random mode needs a block to write to"@,
            SequencerError::RangeTooLarge => "ERROR: the range holds too many blocks to permute"@,
        }
    }

    /// The fault in words, as it is shown to the user.
    pub fn message(self) -> (r: &'static str)
        ensures
            r@ == self.spec_message(),
    {
        match self {
            SequencerError::BlockSizeNotPowerOfTwo => "ERROR: Blocksize must be a power of 2",
            SequencerError::EndBeforeStart => "ERROR: Endblock must be higher than startblock",
            SequencerError::OffsetOverflow => "ERROR: the end block lies beyond 64-bit offsets",
            SequencerError::EmptyRandomRange => "ERROR: random mode needs a block to write to",
            SequencerError::RangeTooLarge => "ERROR: the range holds too many blocks to permute",
        }
    }
}

/// The offset that sequential mode writes at in the given iteration:
/// `start * block_size + iteration * block_size`, and none once that exceeds
/// the offset of the end block.
pub open spec fn sequential_offset(block_size: int, start: int, end: int, iteration: int) -> Option<
    int,
> {
    let offset = start * block_size + iteration * block_size;
    if offset > end * block_size {
        None
    } else {
        Some(offset)
    }
}

/// The offset that reverse mode writes at in the given iteration:
/// `(end - 1) * block_size - iteration * block_size`, and none once that is
/// at or below the offset of the start block.
pub open spec fn reverse_offset(block_size: int, start: int, end: int, iteration: int) -> Option<
    int,
> {
    let offset = (end - 1) * block_size - iteration * block_size;
    if offset <= start * block_size {
        None
    } else {
        Some(offset)
    }
}

/// The offset of block `block`.
pub open spec fn block_offset(block_size: int, block: int) -> int {
    block_size * block
}

/// An exec result seen as a mathematical one.
pub open spec fn widened(r: Option<u64>) -> Option<int> {
    match r {
        Some(o) => Some(o as int),
        None => None,
    }
}

proof fn lemma_scaled_order(x: int, y: int, scale: int)
    requires
        scale >= 1,
    ensures
        x <= y <==> x * scale <= y * scale,
        x < y <==> x * scale < y * scale,
        x * scale + y * scale == (x + y) * scale,
        x * scale - y * scale == (x - y) * scale,
        scale * x == x * scale,
{
    assert((x <= y <==> x * scale <= y * scale) && (x < y <==> x * scale < y * scale) && x * scale
        + y * scale == (x + y) * scale && x * scale - y * scale == (x - y) * scale && scale * x
        == x * scale) by (nonlinear_arith)
        requires
            scale >= 1,
    ;
}

/// The offset for sequential mode.
pub fn offset_sequential(block_size: u64, start_block: u64, end_block: u64, iteration: u64) -> (r:
    Option<u64>)
    requires
        block_size >= 1,
        end_block * block_size <= u64::MAX,
    ensures
        widened(r) == sequential_offset(
            block_size as int,
            start_block as int,
            end_block as int,
            iteration as int,
        ),
{
    proof {
        lemma_scaled_order(start_block as int, iteration as int, block_size as int);
        lemma_scaled_order(start_block + iteration, end_block as int, block_size as int);
    }
    if start_block > end_block || iteration > end_block - start_block {
        None
    } else {
        Some((start_block + iteration) * block_size)
    }
}

/// The offset for reverse mode.
pub fn offset_reverse(block_size: u64, start_block: u64, end_block: u64, iteration: u64) -> (r:
    Option<u64>)
    requires
        block_size >= 1,
        end_block * block_size <= u64::MAX,
    ensures
        widened(r) == reverse_offset(
            block_size as int,
            start_block as int,
            end_block as int,
            iteration as int,
        ),
{
    proof {
        lemma_scaled_order(end_block - 1, iteration as int, block_size as int);
        lemma_scaled_order(end_block - 1 - iteration, start_block as int, block_size as int);
        lemma_scaled_order(end_block - 1 - iteration, end_block as int, block_size as int);
    }
    if end_block == 0 || iteration >= end_block - 1 || end_block - 1 - iteration <= start_block {
        None
    } else {
        Some((end_block - 1 - iteration) * block_size)
    }
}

/// The offset of a block.
pub fn offset_of_block(block_size: u64, block: u64) -> (r: u64)
    requires
        block_size * block <= u64::MAX,
    ensures
        r == block_offset(block_size as int, block as int),
{
    block_size * block
}

/// A seed for the generator of full-period mode over the given range, drawn
/// at random below the generator's modulus. Where no generator is needed or
/// none exists for the range, the seed is 0.
pub fn draw_seed(mode: IoMode, start_block: u64, end_block: u64) -> (seed: u64)
    ensures
        mode == IoMode::FullPeriodRandom && start_block <= end_block && end_block - start_block
            <= TOP_POWER ==> seed < crate::powers::spec_next_power_of_two(
            end_block - start_block,
        ),
        !(mode == IoMode::FullPeriodRandom && start_block <= end_block && end_block - start_block
            <= TOP_POWER) ==> seed == 0,
{
    if mode == IoMode::FullPeriodRandom && end_block >= start_block {
        match next_power_of_two(end_block - start_block) {
            Some(modulus) => {
                proof {
                    lemma_pow2_positive(modulus as int);
                }
                random_in_range(0, modulus)
            },
            None => 0,
        }
    } else {
        0
    }
}

/// The state that a traversal needs beyond the iteration counter.
enum Traversal {
    Sequential,
    SequentialReverse,
    Random,
    FullPeriodRandom(Lcg),
}

/// Produces the byte offset of each write: a mode over the block range
/// `[start_block, end_block)`, and the iteration counter, which grows by one
/// plus the skip interval per write.
pub struct AddressSequencer {
    block_size: u64,
    start_block: u64,
    end_block: u64,
    skip: u64,
    iteration: u64,
    traversal: Traversal,
}

/// The sequencer as integers, with the generator that full-period mode holds.
pub struct SequencerView {
    pub mode: IoMode,
    pub block_size: int,
    pub start_block: int,
    pub end_block: int,
    pub skip: int,
    pub iteration: int,
    pub generator: Option<LcgView>,
}

impl SequencerView {
    /// The number of blocks in the range.
    pub open spec fn range_len(self) -> int {
        self.end_block - self.start_block
    }

    /// The range is in order and addressable, the counters fit in 64 bits,
    /// random mode has a block to draw, and full-period mode alone holds a
    /// generator, over the least power of two that covers the range.
    pub open spec fn wf(self) -> bool {
        &&& is_pow2(self.block_size)
        &&& 0 <= self.start_block <= self.end_block
        &&& self.end_block * self.block_size <= u64::MAX
        &&& 0 <= self.skip <= u64::MAX
        &&& 0 <= self.iteration <= u64::MAX
        &&& self.mode == IoMode::Random ==> self.start_block < self.end_block
        &&& self.mode == IoMode::FullPeriodRandom <==> self.generator is Some
        &&& self.generator matches Some(g) ==> g.wf() && is_least_power_at_least(
            g.modulus,
            self.range_len(),
        )
    }

    /// Whether full-period mode has made all its writes.
    pub open spec fn full_period_done(self) -> bool {
        self.iteration >= self.range_len()
    }

    /// The offset of the next write in the modes that do not draw afresh, or
    /// `None` where the traversal is exhausted.
    pub open spec fn offset(self) -> Option<int> {
        match self.mode {
            IoMode::Sequential => sequential_offset(
                self.block_size,
                self.start_block,
                self.end_block,
                self.iteration,
            ),
            IoMode::SequentialReverse => reverse_offset(
                self.block_size,
                self.start_block,
                self.end_block,
                self.iteration,
            ),
            IoMode::FullPeriodRandom => if self.full_period_done() {
                None
            } else {
                Some(
                    (self.start_block + self.generator.unwrap().after_draw(
                        self.range_len(),
                    ).state) * self.block_size,
                )
            },
            IoMode::Random => None,
        }
    }

    /// `o` is the offset of some block of the range.
    pub open spec fn is_offset_in_range(self, o: int) -> bool {
        exists|block: int|
            self.start_block <= block < self.end_block && o == block_offset(self.block_size, block)
    }

    /// The sequencer after it has produced an offset: in full-period mode the
    /// generator has made one draw, unless the traversal was exhausted.
    pub open spec fn after_next(self) -> SequencerView {
        if self.mode == IoMode::FullPeriodRandom && !self.full_period_done() {
            SequencerView {
                generator: Some(self.generator.unwrap().after_draw(self.range_len())),
                ..self
            }
        } else {
            self
        }
    }

    /// Whether the iteration counter can grow once more within 64 bits.
    pub open spec fn can_advance(self) -> bool {
        self.iteration + 1 + self.skip <= u64::MAX
    }

    /// The sequencer after the iteration counter has grown by one plus the
    /// skip interval.
    pub open spec fn after_advance(self) -> SequencerView {
        SequencerView { iteration: self.iteration + 1 + self.skip, ..self }
    }

    /// The sequencer after `k` writes, each followed by the counter's advance.
    pub open spec fn after_rounds(self, k: nat) -> SequencerView
        decreases k,
    {
        if k == 0 {
            self
        } else {
            self.after_rounds((k - 1) as nat).after_next().after_advance()
        }
    }

    /// The offset of write number `k`, counting from 0.
    pub open spec fn visited(self, k: nat) -> Option<int> {
        self.after_rounds(k).offset()
    }

    /// One of the first `range_len` writes goes to block `block`.
    pub open spec fn visits_block(self, block: int) -> bool {
        exists|k: nat|
            k < self.range_len() && self.visited(k) == Some(block_offset(self.block_size, block))
    }
}

/// Why no traversal can be set up over the given range, if anything.
pub open spec fn setup_error(mode: IoMode, block_size: int, start: int, end: int) -> Option<
    SequencerError,
> {
    if !is_pow2(block_size) {
        Some(SequencerError::BlockSizeNotPowerOfTwo)
    } else if end < start {
        Some(SequencerError::EndBeforeStart)
    } else if end * block_size > u64::MAX {
        Some(SequencerError::OffsetOverflow)
    } else if mode == IoMode::Random && start == end {
        Some(SequencerError::EmptyRandomRange)
    } else if mode == IoMode::FullPeriodRandom && end - start > TOP_POWER {
        Some(SequencerError::RangeTooLarge)
    } else {
        None
    }
}

/// The sequencer before the first write; in full-period mode its generator
/// starts at `seed` reduced modulo the least power of two that covers the
/// range.
pub open spec fn initial_view(
    mode: IoMode,
    block_size: int,
    start: int,
    end: int,
    skip: int,
    seed: int,
) -> SequencerView {
    let modulus = crate::powers::spec_next_power_of_two(end - start);
    SequencerView {
        mode,
        block_size,
        start_block: start,
        end_block: end,
        skip,
        iteration: 0,
        generator: if mode == IoMode::FullPeriodRandom {
            Some(
                LcgView {
                    state: seed % modulus,
                    multiplier: crate::lcg::DEFAULT_MULTIPLIER as int,
                    increment: crate::lcg::DEFAULT_INCREMENT as int,
                    modulus,
                },
            )
        } else {
            None
        },
    }
}

impl Traversal {
    spec fn mode(self) -> IoMode {
        match self {
            Traversal::Sequential => IoMode::Sequential,
            Traversal::SequentialReverse => IoMode::SequentialReverse,
            Traversal::Random => IoMode::Random,
            Traversal::FullPeriodRandom(_) => IoMode::FullPeriodRandom,
        }
    }

    spec fn generator(self) -> Option<LcgView> {
        match self {
            Traversal::FullPeriodRandom(g) => Some(g@),
            _ => None,
        }
    }
}

impl View for AddressSequencer {
    type V = SequencerView;

    closed spec fn view(&self) -> SequencerView {
        SequencerView {
            mode: self.traversal.mode(),
            block_size: self.block_size as int,
            start_block: self.start_block as int,
            end_block: self.end_block as int,
            skip: self.skip as int,
            iteration: self.iteration as int,
            generator: self.traversal.generator(),
        }
    }
}

impl AddressSequencer {
    /// What every sequencer holds: its view is well-formed.
    #[verifier::type_invariant]
    pub closed spec fn well_formed(&self) -> bool {
        self@.wf()
    }

    /// A sequencer over the blocks `[start_block, end_block)` at iteration 0.
    /// `seed` starts the generator of full-period mode and is not used by the
    /// other modes.
    pub fn new(
        mode: IoMode,
        block_size: u64,
        start_block: u64,
        end_block: u64,
        skip: u64,
        seed: u64,
    ) -> (r: Result<AddressSequencer, SequencerError>)
        ensures
            match r {
                Ok(s) => setup_error(mode, block_size as int, start_block as int, end_block as int)
                    is None && s@ == initial_view(
                    mode,
                    block_size as int,
                    start_block as int,
                    end_block as int,
                    skip as int,
                    seed as int,
                ) && s@.wf(),
                Err(e) => setup_error(mode, block_size as int, start_block as int, end_block as int)
                    == Some(e),
            },
    {
        if !is_power_of_two(block_size) {
            return Err(SequencerError::BlockSizeNotPowerOfTwo);
        }
        if end_block < start_block {
            return Err(SequencerError::EndBeforeStart);
        }
        if end_block.checked_mul(block_size).is_none() {
            return Err(SequencerError::OffsetOverflow);
        }
        let traversal = match mode {
            IoMode::Sequential => Traversal::Sequential,
            IoMode::SequentialReverse => Traversal::SequentialReverse,
            IoMode::Random => {
                if start_block == end_block {
                    return Err(SequencerError::EmptyRandomRange);
                }
                Traversal::Random
            },
            IoMode::FullPeriodRandom => {
                let modulus = match next_power_of_two(end_block - start_block) {
                    Some(m) => m,
                    None => {
                        return Err(SequencerError::RangeTooLarge);
                    },
                };
                Traversal::FullPeriodRandom(Lcg::new(seed, modulus).unwrap())
            },
        };
        Ok(AddressSequencer { block_size, start_block, end_block, skip, iteration: 0, traversal })
    }

    /// As `new`, with the seed of full-period mode drawn at random below the
    /// modulus of its generator.
    pub fn with_random_seed(
        mode: IoMode,
        block_size: u64,
        start_block: u64,
        end_block: u64,
        skip: u64,
    ) -> (r: Result<AddressSequencer, SequencerError>)
        ensures
            match r {
                Ok(s) => setup_error(mode, block_size as int, start_block as int, end_block as int)
                    is None && s@.wf() && exists|seed: int|
                    (mode == IoMode::FullPeriodRandom ==> 0 <= seed
                        < crate::powers::spec_next_power_of_two(end_block - start_block)) && s@
                        == initial_view(
                        mode,
                        block_size as int,
                        start_block as int,
                        end_block as int,
                        skip as int,
                        seed,
                    ),
                Err(e) => setup_error(mode, block_size as int, start_block as int, end_block as int)
                    == Some(e),
            },
    {
        let seed = draw_seed(mode, start_block, end_block);
        AddressSequencer::new(mode, block_size, start_block, end_block, skip, seed)
    }

    /// The mode of the traversal.
    pub fn mode(&self) -> (r: IoMode)
        ensures
            r == self@.mode,
    {
        match self.traversal {
            Traversal::Sequential => IoMode::Sequential,
            Traversal::SequentialReverse => IoMode::SequentialReverse,
            Traversal::Random => IoMode::Random,
            Traversal::FullPeriodRandom(_) => IoMode::FullPeriodRandom,
        }
    }

    /// The iteration counter.
    pub fn iteration(&self) -> (r: u64)
        ensures
            r == self@.iteration,
    {
        self.iteration
    }

    /// The block size in bytes.
    pub fn block_size(&self) -> (r: u64)
        ensures
            r == self@.block_size,
    {
        self.block_size
    }

    /// The first block of the range.
    pub fn start_block(&self) -> (r: u64)
        ensures
            r == self@.start_block,
    {
        self.start_block
    }

    /// The block at which the range ends.
    pub fn end_block(&self) -> (r: u64)
        ensures
            r == self@.end_block,
    {
        self.end_block
    }

    /// The number of blocks passed over after each write.
    pub fn skip(&self) -> (r: u64)
        ensures
            r == self@.skip,
    {
        self.skip
    }

    /// The byte offset of the next write, or `None` where the traversal is
    /// exhausted. Random mode draws a block of the range afresh and is never
    /// exhausted; the other modes give the offset that their formula fixes,
    /// and full-period mode moves its generator on by one draw.
    pub fn next(&mut self) -> (r: Option<u64>)
        ensures
            final(self)@ == old(self)@.after_next(),
            final(self)@.wf(),
            old(self)@.wf(),
            old(self)@.mode != IoMode::Random ==> widened(r) == old(self)@.offset(),
            old(self)@.mode == IoMode::Random ==> r is Some && old(self)@.is_offset_in_range(
                r.unwrap() as int,
            ),
    {
        proof {
            use_type_invariant(&*self);
            lemma_pow2_positive(self.block_size as int);
        }
        let range_len: u64 = self.end_block - self.start_block;
        match self.traversal {
            Traversal::Sequential => offset_sequential(
                self.block_size,
                self.start_block,
                self.end_block,
                self.iteration,
            ),
            Traversal::SequentialReverse => offset_reverse(
                self.block_size,
                self.start_block,
                self.end_block,
                self.iteration,
            ),
            Traversal::Random => {
                let block = random_in_range(self.start_block, self.end_block);
                proof {
                    lemma_scaled_order(block as int, self.end_block as int, self.block_size as int);
                }
                Some(offset_of_block(self.block_size, block))
            },
            Traversal::FullPeriodRandom(before) => {
                if self.iteration >= range_len {
                    None
                } else {
                    let mut generator = before;
                    let drawn = generator.next_below(range_len).unwrap();
                    self.traversal = Traversal::FullPeriodRandom(generator);
                    proof {
                        lemma_scaled_order(
                            self.start_block + drawn,
                            self.end_block as int,
                            self.block_size as int,
                        );
                    }
                    Some((self.start_block + drawn) * self.block_size)
                }
            },
        }
    }

    /// Moves the iteration counter on by one plus the skip interval. Where
    /// the counter would pass the top of 64 bits it stays, and the result is
    /// `false`.
    pub fn advance(&mut self) -> (moved: bool)
        ensures
            moved == old(self)@.can_advance(),
            moved ==> final(self)@ == old(self)@.after_advance(),
            !moved ==> final(self)@ == old(self)@,
            final(self)@.wf(),
    {
        proof {
            use_type_invariant(&*self);
        }
        match self.skip.checked_add(1) {
            Some(step) => match self.iteration.checked_add(step) {
                Some(next) => {
                    self.iteration = next;
                    true
                },
                None => false,
            },
            None => false,
        }
    }
}

/// After `k` rounds the counter has grown `k` times by one plus the skip
/// interval, and nothing but the counter and the generator has changed.
pub proof fn lemma_rounds_count(s: SequencerView, k: nat)
    ensures
        s.after_rounds(k).iteration == s.iteration + k * (1 + s.skip),
        s.after_rounds(k).mode == s.mode,
        s.after_rounds(k).block_size == s.block_size,
        s.after_rounds(k).start_block == s.start_block,
        s.after_rounds(k).end_block == s.end_block,
        s.after_rounds(k).skip == s.skip,
        s.mode != IoMode::FullPeriodRandom ==> s.after_rounds(k).generator == s.generator,
    decreases k,
{
    if k > 0 {
        lemma_rounds_count(s, (k - 1) as nat);
        assert(k * (1 + s.skip) == (k - 1) * (1 + s.skip) + (1 + s.skip)) by (nonlinear_arith);
    } else {
        assert(0 * (1 + s.skip) == 0);
    }
}

/// Sequential mode without skipping writes the blocks from the start block
/// up to and with the end block, in rising order, and stops after that.
pub proof fn lemma_sequential_visits(s: SequencerView, k: nat)
    requires
        s.wf(),
        s.mode == IoMode::Sequential,
        s.iteration == 0,
        s.skip == 0,
    ensures
        s.start_block + k <= s.end_block ==> s.visited(k) == Some(
            block_offset(s.block_size, s.start_block + k),
        ),
        s.start_block + k > s.end_block ==> s.visited(k) is None,
{
    lemma_rounds_count(s, k);
    lemma_pow2_positive(s.block_size);
    lemma_scaled_order(s.start_block, k as int, s.block_size);
    lemma_scaled_order(s.start_block + k, s.end_block, s.block_size);
}

/// Reverse mode without skipping writes the blocks from the one before the
/// end block down to the one after the start block, and stops after that.
pub proof fn lemma_reverse_visits(s: SequencerView, k: nat)
    requires
        s.wf(),
        s.mode == IoMode::SequentialReverse,
        s.iteration == 0,
        s.skip == 0,
    ensures
        s.end_block - 1 - k > s.start_block ==> s.visited(k) == Some(
            block_offset(s.block_size, s.end_block - 1 - k),
        ),
        s.end_block - 1 - k <= s.start_block ==> s.visited(k) is None,
{
    lemma_rounds_count(s, k);
    lemma_pow2_positive(s.block_size);
    lemma_scaled_order(s.end_block - 1, k as int, s.block_size);
    lemma_scaled_order(s.end_block - 1 - k, s.start_block, s.block_size);
}

/// In full-period mode without skipping, round `k` is in the state that `k`
/// draws of the generator lead to.
proof fn lemma_full_period_rounds(s: SequencerView, k: nat)
    requires
        s.wf(),
        s.mode == IoMode::FullPeriodRandom,
        s.iteration == 0,
        s.skip == 0,
        k <= s.range_len(),
    ensures
        s.after_rounds(k).generator == Some(s.generator.unwrap().after_draws(s.range_len(), k)),
        s.after_rounds(k).iteration == k,
    decreases k,
{
    lemma_rounds_count(s, k);
    if k > 0 {
        lemma_full_period_rounds(s, (k - 1) as nat);
        lemma_rounds_count(s, (k - 1) as nat);
    }
}

/// Full-period mode without skipping writes every block of the range once:
/// write number `k` goes to the start block plus draw number `k` of the
/// generator, no two of the writes go to the same offset, every block of the
/// range is written, and after as many writes as the range has blocks the
/// traversal stops.
pub proof fn lemma_full_period_visits_every_block(s: SequencerView)
    requires
        s.wf(),
        s.mode == IoMode::FullPeriodRandom,
        s.iteration == 0,
        s.skip == 0,
    ensures
        forall|k: nat|
            k < s.range_len() ==> #[trigger] s.visited(k) == Some(
                block_offset(
                    s.block_size,
                    s.start_block + s.generator.unwrap().draw(s.range_len(), k),
                ),
            ),
        forall|i: nat, j: nat|
            i < j < s.range_len() ==> #[trigger] s.visited(i) != #[trigger] s.visited(j),
        forall|block: int|
            s.start_block <= block < s.end_block ==> #[trigger] s.visits_block(block),
        s.visited(s.range_len() as nat) is None,
{
    let len = s.range_len();
    let g = s.generator.unwrap();
    lemma_pow2_positive(s.block_size);
    lemma_full_period_rounds(s, len as nat);
    lemma_rounds_count(s, len as nat);
    if len >= 1 {
        lemma_draws_permute_range(g, len);
    }
    assert forall|k: nat| k < len implies #[trigger] s.visited(k) == Some(
        block_offset(s.block_size, s.start_block + g.draw(len, k)),
    ) by {
        lemma_full_period_rounds(s, k);
        lemma_rounds_count(s, k);
        lemma_scaled_order(s.start_block + g.draw(len, k), 0, s.block_size);
    }
    assert forall|i: nat, j: nat| i < j < len implies #[trigger] s.visited(i)
        != #[trigger] s.visited(j) by {
        assert(g.draw(len, i) != g.draw(len, j));
        lemma_scaled_order(
            s.start_block + g.draw(len, i),
            s.start_block + g.draw(len, j),
            s.block_size,
        );
        lemma_scaled_order(
            s.start_block + g.draw(len, j),
            s.start_block + g.draw(len, i),
            s.block_size,
        );
    }
    assert forall|block: int|
        s.start_block <= block < s.end_block implies #[trigger] s.visits_block(block) by {
        assert(g.draws_value(len, block - s.start_block));
        let k = choose|k: nat| k < len && g.draw(len, k) == block - s.start_block;
        assert(s.visited(k) == Some(block_offset(s.block_size, block)));
    }
}

/// A range over which a traversal can be set up gives a well-formed
/// sequencer, whatever the seed.
pub proof fn lemma_initial_view_wf(
    mode: IoMode,
    block_size: int,
    start: int,
    end: int,
    skip: int,
    seed: int,
)
    requires
        setup_error(mode, block_size, start, end) is None,
        0 <= start,
        0 <= skip <= u64::MAX,
    ensures
        initial_view(mode, block_size, start, end, skip, seed).wf(),
{
    if mode == IoMode::FullPeriodRandom {
        crate::powers::lemma_next_power_exists(end - start);
        let modulus = crate::powers::spec_next_power_of_two(end - start);
        lemma_pow2_positive(modulus);
        vstd::arithmetic::div_mod::lemma_mod_bound(seed, modulus);
    }
}

} // verus!
