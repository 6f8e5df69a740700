//! The driving loop as a state machine: it is told what happened to the last
//! write and says what to do next. Whoever owns the targets performs the
//! writes and reports back.
//!
//! One round is: take the next offset from the sequencer, have the buffer
//! written at that offset to every target, mutate the buffer with the
//! iteration counter, and move the counter on.

use vstd::prelude::*;
use vstd::arithmetic::power2::is_pow2;
use crate::options::{check_geometry, geometry_error, DataType, OptionsError, ThermiteOptions};
use crate::powers::lemma_pow2_positive;
use crate::scramble::{random_bytes, scrambled, xor_scramble, zero};
use crate::sequencer::{
    draw_seed,
    initial_view,
    setup_error,
    AddressSequencer,
    IoMode,
    SequencerError,
    SequencerView,
};
use crate::watchdog::LivenessWatchdog;

verus! {

/// Seconds between two polls of the liveness monitor of a run.
pub const WATCHDOG_POLL_SECONDS: u64 = 2;

/// Seconds without a completed write after which a run counts as hung.
pub const WATCHDOG_TIMEOUT_SECONDS: u64 = 3;

/// Why a run cannot start or go on.
#[derive(Clone, Copy, Debug, PartialEq, Eq, Structural)]
pub enum RunError {
    /// There is no target.
    NoTargets,
    /// The targets are not all of the same length.
    TargetsDiffer,
    /// Sizes or range of the options are refused.
    Options(OptionsError),
    /// No traversal can be set up over the range.
    Range(SequencerError),
    /// The buffer does not hold one block.
    BufferLength,
    /// A seek or a write on a target failed.
    WriteFailed,
    /// The iteration counter has reached the top of 64 bits.
    CounterOverflow,
    /// An event came that the state does not expect.
    OutOfTurn,
}

impl RunError {
    /// The fault in words.
    pub open spec fn spec_message(self) -> Seq<char> {
        match self {
            RunError::NoTargets => "File is a required parameter."@,
            RunError::TargetsDiffer => "Supplied target files are different sizes!"@,
            RunError::Options(e) => e.spec_message(),
            RunError::Range(e) => e.spec_message(),
            RunError::BufferLength => "ERROR: the buffer does not hold one block"@,
            RunError::WriteFailed => "ERROR: a write to a target failed"@,
            RunError::CounterOverflow => "ERROR: the iteration counter is exhausted"@,
            RunError::OutOfTurn => "ERROR: an event came out of turn"@,
        }
    }

    /// The fault in words, as it is shown to the user.
    pub fn message(self) -> (r: &'static str)
        ensures
            r@ == self.spec_message(),
    {
        match self {
            RunError::NoTargets => "File is a required parameter.",
            RunError::TargetsDiffer => "Supplied target files are different sizes!",
            RunError::Options(e) => e.message(),
            RunError::Range(e) => e.message(),
            RunError::BufferLength => "ERROR: the buffer does not hold one block",
            RunError::WriteFailed => "ERROR: a write to a target failed",
            RunError::CounterOverflow => "ERROR: the iteration counter is exhausted",
            RunError::OutOfTurn => "ERROR: an event came out of turn",
        }
    }
}

/// What the loop is told.
#[derive(Clone, Copy, Debug, PartialEq, Eq, Structural)]
pub enum Event {
    /// The run begins.
    Start,
    /// The buffer has been written to every target.
    Written,
    /// A seek or a write failed on some target.
    WriteFailed,
}

/// What the loop asks for.
#[derive(Clone, Copy, Debug, PartialEq, Eq, Structural)]
pub enum Action {
    /// Write the whole buffer at this byte offset to every target.
    Write(u64),
    /// The traversal is exhausted: the run ends normally.
    Finish,
    /// The run ends with a fault.
    Abort(RunError),
}

/// Where the loop stands.
#[derive(Clone, Copy, Debug, PartialEq, Eq, Structural)]
pub enum Phase {
    /// Before the first round.
    Idle,
    /// A write has been asked for and its outcome is awaited.
    Writing,
    /// The run has ended.
    Stopped,
}

/// The length that all targets share.
pub open spec fn common_length(lengths: Seq<u64>) -> Result<u64, RunError> {
    if lengths.len() == 0 {
        Err(RunError::NoTargets)
    } else if exists|i: int| 0 <= i < lengths.len() && #[trigger] lengths[i] != lengths[0] {
        Err(RunError::TargetsDiffer)
    } else {
        Ok(lengths[0])
    }
}

/// The block at which the range ends: the one given, or where none is given
/// the number of whole blocks in a target.
pub open spec fn resolved_end(endblock: int, blocksize: int, length: int) -> int {
    if endblock != 0 {
        endblock
    } else {
        length / blocksize
    }
}

/// The liveness monitor of a run: it polls every `WATCHDOG_POLL_SECONDS` and
/// allows `WATCHDOG_TIMEOUT_SECONDS` without a completed write.
pub fn run_watchdog() -> (w: LivenessWatchdog)
    ensures
        w@.poll_interval == WATCHDOG_POLL_SECONDS,
        w@.timeout == WATCHDOG_TIMEOUT_SECONDS,
        w@.wf(),
{
    LivenessWatchdog::new(WATCHDOG_POLL_SECONDS, WATCHDOG_TIMEOUT_SECONDS).unwrap()
}

/// Checks that the targets are of one length and gives it.
pub fn check_targets(lengths: &Vec<u64>) -> (r: Result<u64, RunError>)
    ensures
        r == common_length(lengths@),
{
    if lengths.len() == 0 {
        return Err(RunError::NoTargets);
    }
    let first = lengths[0];
    let mut i: usize = 1;
    while i < lengths.len()
        invariant
            1 <= i <= lengths.len(),
            first == lengths@[0],
            forall|k: int| 0 <= k < i ==> lengths@[k] == first,
        decreases lengths.len() - i,
    {
        if lengths[i] != first {
            return Err(RunError::TargetsDiffer);
        }
        i += 1;
    }
    Ok(first)
}

/// The block at which the range of a run ends.
pub fn resolve_end(endblock: u64, blocksize: u64, length: u64) -> (r: u64)
    requires
        blocksize > 0,
    ensures
        r == resolved_end(endblock as int, blocksize as int, length as int),
{
    if endblock != 0 {
        endblock
    } else {
        length / blocksize
    }
}

/// The loop's state: the sequencer, the write buffer and the page size.
pub struct Orchestrator {
    sequencer: AddressSequencer,
    buffer: Vec<u8>,
    pagesize: u64,
    phase: Phase,
}

/// The loop's state as mathematical values.
pub struct RunView {
    pub sequencer: SequencerView,
    pub buffer: Seq<u8>,
    pub pagesize: int,
    pub phase: Phase,
}

impl RunView {
    /// The sequencer is well-formed, the buffer holds one block, and the
    /// page size is 0 or a power of two within the block.
    pub open spec fn wf(self) -> bool {
        &&& self.sequencer.wf()
        &&& self.buffer.len() == self.sequencer.block_size
        &&& 0 <= self.pagesize <= self.sequencer.block_size
        &&& self.pagesize != 0 ==> is_pow2(self.pagesize)
    }

    /// The state once the run has ended.
    pub open spec fn stopped(self) -> RunView {
        RunView { phase: Phase::Stopped, ..self }
    }

    /// The state after a write has completed: the buffer is mutated with the
    /// iteration counter, and the counter has moved on.
    pub open spec fn after_write(self) -> RunView {
        RunView {
            buffer: scrambled(self.buffer, self.pagesize as u64, self.sequencer.iteration as u64),
            sequencer: self.sequencer.after_advance(),
            ..self
        }
    }

    /// The state after a write has completed but the counter cannot move on.
    pub open spec fn after_last_write(self) -> RunView {
        RunView {
            buffer: scrambled(self.buffer, self.pagesize as u64, self.sequencer.iteration as u64),
            phase: Phase::Stopped,
            ..self
        }
    }

    /// Asking the sequencer in state `self` leads to state `after` and to
    /// `action`: a write at the offset that the sequencer gives, or the end
    /// of the run where it is exhausted.
    pub open spec fn asks(self, after: RunView, action: Action) -> bool {
        &&& after.buffer == self.buffer
        &&& after.pagesize == self.pagesize
        &&& after.sequencer == self.sequencer.after_next()
        &&& if self.sequencer.mode == IoMode::Random {
            &&& action matches Action::Write(o)
            &&& self.sequencer.is_offset_in_range(o as int)
            &&& after.phase == Phase::Writing
        } else {
            match self.sequencer.offset() {
                Some(o) => action == Action::Write(o as u64) && after.phase == Phase::Writing,
                None => action == Action::Finish && after.phase == Phase::Stopped,
            }
        }
    }

    /// What an event leads to.
    pub open spec fn steps(self, event: Event, after: RunView, action: Action) -> bool {
        match (self.phase, event) {
            (Phase::Idle, Event::Start) => self.asks(after, action),
            (Phase::Writing, Event::Written) => if self.sequencer.can_advance() {
                self.after_write().asks(after, action)
            } else {
                after == self.after_last_write() && action == Action::Abort(
                    RunError::CounterOverflow,
                )
            },
            (Phase::Writing, Event::WriteFailed) => after == self.stopped() && action
                == Action::Abort(RunError::WriteFailed),
            (Phase::Stopped, _) => after == self && action == Action::Finish,
            _ => after == self.stopped() && action == Action::Abort(RunError::OutOfTurn),
        }
    }
}

/// Why a run with these options over targets of these lengths cannot start,
/// if it cannot: the first fault in the order targets, sizes and range of the
/// options, length of the buffer, traversal.
pub open spec fn start_error(
    blocksize: int,
    pagesize: int,
    startblock: int,
    endblock: int,
    mode: IoMode,
    lengths: Seq<u64>,
    buffer_len: int,
) -> Option<RunError> {
    if common_length(lengths) is Err {
        Some(common_length(lengths)->Err_0)
    } else if geometry_error(blocksize, pagesize, startblock, endblock) is Some {
        Some(RunError::Options(geometry_error(blocksize, pagesize, startblock, endblock).unwrap()))
    } else if buffer_len != blocksize {
        Some(RunError::BufferLength)
    } else {
        let end = resolved_end(endblock, blocksize, common_length(lengths).unwrap() as int);
        match setup_error(mode, blocksize, startblock, end) {
            Some(e) => Some(RunError::Range(e)),
            None => None,
        }
    }
}

/// The length of the buffer that can be had for a block size: the block
/// size where the machine can address that many bytes, and 0 where not.
pub open spec fn allocated_length(blocksize: u64) -> int {
    if blocksize <= usize::MAX {
        blocksize as int
    } else {
        0
    }
}

impl View for Orchestrator {
    type V = RunView;

    closed spec fn view(&self) -> RunView {
        RunView {
            sequencer: self.sequencer@,
            buffer: self.buffer@,
            pagesize: self.pagesize as int,
            phase: self.phase,
        }
    }
}

impl Orchestrator {
    /// The state holds together: see `RunView::wf`.
    pub open spec fn wf(&self) -> bool {
        self@.wf()
    }

    /// The state before the first round of a run with the given options over
    /// targets of the given lengths, with `buffer` as the write buffer and
    /// `seed` for the generator of full-period mode.
    pub fn with_parts(
        options: &ThermiteOptions,
        lengths: &Vec<u64>,
        buffer: Vec<u8>,
        seed: u64,
    ) -> (r: Result<Orchestrator, RunError>)
        ensures
            match r {
                Ok(o) => start_error(
                    options.blocksize as int,
                    options.pagesize as int,
                    options.startblock as int,
                    options.endblock as int,
                    options.mode,
                    lengths@,
                    buffer@.len() as int,
                ) is None && o.wf() && o@ == (RunView {
                    sequencer: initial_view(
                        options.mode,
                        options.blocksize as int,
                        options.startblock as int,
                        resolved_end(
                            options.endblock as int,
                            options.blocksize as int,
                            lengths@[0] as int,
                        ),
                        options.interval as int,
                        seed as int,
                    ),
                    buffer: buffer@,
                    pagesize: options.pagesize as int,
                    phase: Phase::Idle,
                }),
                Err(e) => start_error(
                    options.blocksize as int,
                    options.pagesize as int,
                    options.startblock as int,
                    options.endblock as int,
                    options.mode,
                    lengths@,
                    buffer@.len() as int,
                ) == Some(e),
            },
    {
        let length = match check_targets(lengths) {
            Ok(l) => l,
            Err(e) => {
                return Err(e);
            },
        };
        match check_geometry(
            options.blocksize,
            options.pagesize,
            options.startblock,
            options.endblock,
        ) {
            Ok(_) => {},
            Err(e) => {
                return Err(RunError::Options(e));
            },
        }
        proof {
            lemma_pow2_positive(options.blocksize as int);
        }
        if buffer.len() as u64 != options.blocksize {
            return Err(RunError::BufferLength);
        }
        let end = resolve_end(options.endblock, options.blocksize, length);
        match AddressSequencer::new(
            options.mode,
            options.blocksize,
            options.startblock,
            end,
            options.interval,
            seed,
        ) {
            Ok(sequencer) => Ok(
                Orchestrator { sequencer, buffer, pagesize: options.pagesize, phase: Phase::Idle },
            ),
            Err(e) => Err(RunError::Range(e)),
        }
    }

    /// The state before the first round of a run with the given options over
    /// targets of the given lengths. The write buffer holds one block of zero
    /// bytes or of random bytes, as the options say, and the seed of
    /// full-period mode is drawn at random.
    pub fn new(options: &ThermiteOptions, lengths: &Vec<u64>) -> (r: Result<Orchestrator, RunError>)
        ensures
            match r {
                Ok(o) => start_error(
                    options.blocksize as int,
                    options.pagesize as int,
                    options.startblock as int,
                    options.endblock as int,
                    options.mode,
                    lengths@,
                    allocated_length(options.blocksize),
                ) is None && o.wf() && o@.phase == Phase::Idle && o@.pagesize == options.pagesize
                    && o@.buffer.len() == options.blocksize && (options.data == DataType::Zero
                    ==> o@.buffer == Seq::new(options.blocksize as nat, |i: int| 0u8))
                    && exists|seed: int|
                    o@.sequencer == initial_view(
                        options.mode,
                        options.blocksize as int,
                        options.startblock as int,
                        resolved_end(
                            options.endblock as int,
                            options.blocksize as int,
                            lengths@[0] as int,
                        ),
                        options.interval as int,
                        seed,
                    ),
                Err(e) => start_error(
                    options.blocksize as int,
                    options.pagesize as int,
                    options.startblock as int,
                    options.endblock as int,
                    options.mode,
                    lengths@,
                    allocated_length(options.blocksize),
                ) == Some(e),
            },
    {
        let length = match check_targets(lengths) {
            Ok(l) => l,
            Err(e) => {
                return Err(e);
            },
        };
        match check_geometry(
            options.blocksize,
            options.pagesize,
            options.startblock,
            options.endblock,
        ) {
            Ok(_) => {},
            Err(e) => {
                return Err(RunError::Options(e));
            },
        }
        proof {
            lemma_pow2_positive(options.blocksize as int);
        }
        if options.blocksize > usize::MAX as u64 {
            return Err(RunError::BufferLength);
        }
        let size: usize = options.blocksize as usize;
        let buffer = match options.data {
            DataType::Random => random_bytes(size),
            DataType::Zero => zero(size),
        };
        let end = resolve_end(options.endblock, options.blocksize, length);
        let seed = draw_seed(options.mode, options.startblock, end);
        Orchestrator::with_parts(options, lengths, buffer, seed)
    }

    /// The write buffer.
    pub fn buffer(&self) -> (r: &Vec<u8>)
        ensures
            r@ == self@.buffer,
    {
        &self.buffer
    }

    /// Where the loop stands.
    pub fn phase(&self) -> (r: Phase)
        ensures
            r == self@.phase,
    {
        self.phase
    }

    /// The iteration counter.
    pub fn iteration(&self) -> (r: u64)
        ensures
            r == self@.sequencer.iteration,
    {
        self.sequencer.iteration()
    }

    fn ask(&mut self) -> (action: Action)
        requires
            old(self).wf(),
        ensures
            final(self).wf(),
            old(self)@.asks(final(self)@, action),
    {
        match self.sequencer.next() {
            Some(offset) => {
                self.phase = Phase::Writing;
                Action::Write(offset)
            },
            None => {
                self.phase = Phase::Stopped;
                Action::Finish
            },
        }
    }

    /// Takes an event and says what to do next.
    pub fn step(&mut self, event: Event) -> (action: Action)
        requires
            old(self).wf(),
        ensures
            final(self).wf(),
            old(self)@.steps(event, final(self)@, action),
    {
        match (self.phase, event) {
            (Phase::Idle, Event::Start) => self.ask(),
            (Phase::Writing, Event::Written) => {
                proof {
                    lemma_pow2_positive(self.sequencer@.block_size);
                }
                let iteration = self.sequencer.iteration();
                xor_scramble(&mut self.buffer, self.pagesize, iteration);
                if self.sequencer.advance() {
                    self.ask()
                } else {
                    self.phase = Phase::Stopped;
                    Action::Abort(RunError::CounterOverflow)
                }
            },
            (Phase::Writing, Event::WriteFailed) => {
                self.phase = Phase::Stopped;
                Action::Abort(RunError::WriteFailed)
            },
            (Phase::Stopped, _) => Action::Finish,
            _ => {
                self.phase = Phase::Stopped;
                Action::Abort(RunError::OutOfTurn)
            },
        }
    }
}

} // verus!
