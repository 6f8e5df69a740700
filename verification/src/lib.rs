//! The logic of a write-load generator for block storage: it decides where
//! the next block is written and what the block holds, and leaves the writing
//! itself to its caller.
//!
//! * [`sequencer`] gives the byte offset of each write in one of four modes
//!   over a range of blocks: upwards, downwards, at random, or every block
//!   once in a scrambled order.
//! * [`lcg`] is the generator behind the scrambled order, a linear
//!   congruential generator with full period, and [`full_period`] holds the
//!   proof that it visits every value once per period.
//! * [`scramble`] holds the write buffer's mutation between two writes, which
//!   changes one byte per page so that no two writes are alike.
//! * [`watchdog`] decides when a run counts as hung.
//! * [`run`] ties these together as a state machine that is told the outcome
//!   of each write and says what to do next.
//! * [`options`] and [`command_line`] read the options of a run from text and
//!   from a list of arguments, and refuse sizes and ranges that do not fit.
//! * [`powers`] and [`text`] hold what the others need of powers of two and
//!   of decimal numbers.
//!
//! Two outside crates are called, and what is believed of them without proof
//! stands in two files: [`getopts_api`] for `getopts`, which takes the
//! command line apart, and `entropy` for `rand`, which draws random blocks,
//! seeds and bytes. Everything else is proved.

pub mod command_line;
mod entropy;
pub mod full_period;
pub mod getopts_api;
pub mod lcg;
pub mod options;
pub mod powers;
pub mod run;
pub mod scramble;
pub mod sequencer;
pub mod text;
pub mod watchdog;
