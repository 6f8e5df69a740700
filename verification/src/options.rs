//! The options of a run: what the command line gave as text, what it means,
//! and which combinations are refused.

use vstd::prelude::*;
use vstd::arithmetic::power2::is_pow2;
use crate::powers::is_power_of_two;
use crate::sequencer::IoMode;
use crate::text::{decimal, parse_decimal, same_text};

verus! {

/// What the write buffer holds at the start.
#[derive(Clone, Copy, Debug, PartialEq, Eq, Structural)]
pub enum DataType {
    /// Random bytes.
    Random,
    /// Zero bytes.
    Zero,
}

/// The options of a run.
#[derive(Debug, PartialEq, Eq)]
pub struct ThermiteOptions {
    /// Bytes per block; a power of two.
    pub blocksize: u64,
    /// Bytes per page; 0 for one page that spans the block, else a power of
    /// two that is at most the block size.
    pub pagesize: u64,
    /// The files or devices to write to.
    pub target: Vec<String>,
    /// The order of the writes.
    pub mode: IoMode,
    /// The first block of the range.
    pub startblock: u64,
    /// The block at which the range ends; 0 to take it from the length of the
    /// targets.
    pub endblock: u64,
    /// What the buffer holds at the start.
    pub data: DataType,
    /// The number of blocks passed over after each write.
    pub interval: u64,
}

/// The options as the command line gave them, before any is read: whether
/// help was asked for, the targets, and the text of each option that was
/// given.
#[derive(Debug, PartialEq, Eq)]
pub struct RawOptions {
    pub help: bool,
    pub files: Vec<String>,
    pub mode: Option<String>,
    pub data: Option<String>,
    pub blocksize: Option<String>,
    pub pagesize: Option<String>,
    pub startblock: Option<String>,
    pub endblock: Option<String>,
    pub interval: Option<String>,
}

/// Why a set of options is refused.
#[derive(Clone, Copy, Debug, PartialEq, Eq, Structural)]
pub enum OptionsError {
    /// No target was named.
    MissingFile,
    /// The mode is none of the four known ones.
    BadMode,
    /// The data type is neither of the two known ones.
    BadData,
    /// The block size is not a positive number.
    BadBlocksize,
    /// The page size is not a positive number.
    BadPagesize,
    /// The start block is not a positive number.
    BadStartblock,
    /// The end block is not a positive number.
    BadEndblock,
    /// The skip interval is not a positive number.
    BadInterval,
    /// The page size exceeds the block size.
    PageLargerThanBlock,
    /// The page size is not a power of two.
    PageNotPowerOfTwo,
    /// The block size is not a power of two.
    BlockNotPowerOfTwo,
    /// The end block lies before the start block.
    EndBeforeStart,
}

impl OptionsError {
    /// The fault in words.
    pub open spec fn spec_message(self) -> Seq<char> {
        match self {
            OptionsError::MissingFile => "File is a required parameter."@,
            OptionsError::BadMode => "I/O Mode must be sequential or random or random100"@,
            OptionsError::BadData => "Data type must be random or zero"@,
            OptionsError::BadBlocksize => "ERROR: Blocksize must be a positive power of 2."@,
            OptionsError::BadPagesize => "ERROR: Pagesize must be a positive power of 2."@,
            OptionsError::BadStartblock => "ERROR: startblock must be a number."@,
            OptionsError::BadEndblock => "ERROR: endblock must be a number."@,
            OptionsError::BadInterval => "ERROR: block skip interval must be number."@,
            OptionsError::PageLargerThanBlock =>
                "ERROR: Pagesize, if supplied, must be smaller than blocksize."@,
            OptionsError::PageNotPowerOfTwo => "ERROR: Pagesize must be a power of 2"@,
            OptionsError::BlockNotPowerOfTwo => "ERROR: Blocksize must be a power of 2"@,
            OptionsError::EndBeforeStart => "ERROR: Endblock must be higher than startblock"@,
        }
    }

    /// The fault in words, as it is shown to the user.
    pub fn message(self) -> (r: &'static str)
        ensures
            r@ == self.spec_message(),
    {
        match self {
            OptionsError::MissingFile => "File is a required parameter.",
            OptionsError::BadMode => "I/O Mode must be sequential or random or random100",
            OptionsError::BadData => "Data type must be random or zero",
            OptionsError::BadBlocksize => "ERROR: Blocksize must be a positive power of 2.",
            OptionsError::BadPagesize => "ERROR: Pagesize must be a positive power of 2.",
            OptionsError::BadStartblock => "ERROR: startblock must be a number.",
            OptionsError::BadEndblock => "ERROR: endblock must be a number.",
            OptionsError::BadInterval => "ERROR: block skip interval must be number.",
            OptionsError::PageLargerThanBlock =>
                "ERROR: Pagesize, if supplied, must be smaller than blocksize.",
            OptionsError::PageNotPowerOfTwo => "ERROR: Pagesize must be a power of 2",
            OptionsError::BlockNotPowerOfTwo => "ERROR: Blocksize must be a power of 2",
            OptionsError::EndBeforeStart => "ERROR: Endblock must be higher than startblock",
        }
    }
}

/// What a command line asks for.
#[derive(Debug, PartialEq, Eq)]
pub enum Parsed {
    /// The help text.
    Help,
    /// A run with these options.
    Run(ThermiteOptions),
}

/// `ThermiteOptions` with integers and character sequences.
pub struct OptionsView {
    pub blocksize: int,
    pub pagesize: int,
    pub target: Seq<Seq<char>>,
    pub mode: IoMode,
    pub startblock: int,
    pub endblock: int,
    pub data: DataType,
    pub interval: int,
}

/// `RawOptions` with character sequences.
pub struct RawView {
    pub help: bool,
    pub files: Seq<Seq<char>>,
    pub mode: Option<Seq<char>>,
    pub data: Option<Seq<char>>,
    pub blocksize: Option<Seq<char>>,
    pub pagesize: Option<Seq<char>>,
    pub startblock: Option<Seq<char>>,
    pub endblock: Option<Seq<char>>,
    pub interval: Option<Seq<char>>,
}

/// `Parsed` with the view of the options.
pub enum ParsedView {
    Help,
    Run(OptionsView),
}

/// The characters of a text that may be absent.
pub open spec fn text_of(t: Option<String>) -> Option<Seq<char>> {
    match t {
        Some(s) => Some(s@),
        None => None,
    }
}

impl View for ThermiteOptions {
    type V = OptionsView;

    open spec fn view(&self) -> OptionsView {
        OptionsView {
            blocksize: self.blocksize as int,
            pagesize: self.pagesize as int,
            target: self.target.deep_view(),
            mode: self.mode,
            startblock: self.startblock as int,
            endblock: self.endblock as int,
            data: self.data,
            interval: self.interval as int,
        }
    }
}

impl View for RawOptions {
    type V = RawView;

    open spec fn view(&self) -> RawView {
        RawView {
            help: self.help,
            files: self.files.deep_view(),
            mode: text_of(self.mode),
            data: text_of(self.data),
            blocksize: text_of(self.blocksize),
            pagesize: text_of(self.pagesize),
            startblock: text_of(self.startblock),
            endblock: text_of(self.endblock),
            interval: text_of(self.interval),
        }
    }
}

impl View for Parsed {
    type V = ParsedView;

    open spec fn view(&self) -> ParsedView {
        match self {
            Parsed::Help => ParsedView::Help,
            Parsed::Run(options) => ParsedView::Run(options@),
        }
    }
}

/// The block size where none is given.
pub const DEFAULT_BLOCKSIZE: u64 = 512;

/// The mode that a name stands for.
pub open spec fn mode_named(name: Seq<char>) -> Option<IoMode> {
    if name == "sequential"@ {
        Some(IoMode::Sequential)
    } else if name == "sequentialreverse"@ {
        Some(IoMode::SequentialReverse)
    } else if name == "random"@ {
        Some(IoMode::Random)
    } else if name == "random100"@ {
        Some(IoMode::FullPeriodRandom)
    } else {
        None
    }
}

/// The data type that a name stands for.
pub open spec fn data_named(name: Seq<char>) -> Option<DataType> {
    if name == "random"@ {
        Some(DataType::Random)
    } else if name == "zero"@ {
        Some(DataType::Zero)
    } else {
        None
    }
}

/// The value of a numeric option: the default where it is not given, the
/// number that its text stands for where that is a positive number, and none
/// otherwise.
pub open spec fn numeric(text: Option<Seq<char>>, default: u64) -> Option<u64> {
    match text {
        None => Some(default),
        Some(s) => match decimal(s) {
            Some(v) => if v == 0 {
                None
            } else {
                Some(v)
            },
            None => None,
        },
    }
}

/// Why sizes and range are refused, if they are: the first of the four
/// checks that fails.
pub open spec fn geometry_error(blocksize: int, pagesize: int, startblock: int, endblock: int)
    -> Option<OptionsError> {
    if pagesize != 0 && pagesize > blocksize {
        Some(OptionsError::PageLargerThanBlock)
    } else if pagesize != 0 && !is_pow2(pagesize) {
        Some(OptionsError::PageNotPowerOfTwo)
    } else if !is_pow2(blocksize) {
        Some(OptionsError::BlockNotPowerOfTwo)
    } else if endblock != 0 && endblock < startblock {
        Some(OptionsError::EndBeforeStart)
    } else {
        None
    }
}

impl OptionsView {
    /// Sizes and range are accepted.
    pub open spec fn valid(self) -> bool {
        geometry_error(self.blocksize, self.pagesize, self.startblock, self.endblock) is None
    }
}

/// What the options given as text mean: help where it is asked for; else the
/// first fault in the order targets, mode, data type, block size, page size,
/// start block, end block, skip interval, sizes and range; else the options
/// of the run.
pub open spec fn interpreted(raw: RawView) -> Result<ParsedView, OptionsError> {
    let mode = match raw.mode {
        Some(name) => mode_named(name),
        None => Some(IoMode::Random),
    };
    let data = match raw.data {
        Some(name) => data_named(name),
        None => Some(DataType::Random),
    };
    let blocksize = numeric(raw.blocksize, DEFAULT_BLOCKSIZE);
    let pagesize = numeric(raw.pagesize, 0);
    let startblock = numeric(raw.startblock, 0);
    let endblock = numeric(raw.endblock, 0);
    let interval = numeric(raw.interval, 0);
    if raw.help {
        Ok(ParsedView::Help)
    } else if raw.files.len() == 0 {
        Err(OptionsError::MissingFile)
    } else if mode is None {
        Err(OptionsError::BadMode)
    } else if data is None {
        Err(OptionsError::BadData)
    } else if blocksize is None {
        Err(OptionsError::BadBlocksize)
    } else if pagesize is None {
        Err(OptionsError::BadPagesize)
    } else if startblock is None {
        Err(OptionsError::BadStartblock)
    } else if endblock is None {
        Err(OptionsError::BadEndblock)
    } else if interval is None {
        Err(OptionsError::BadInterval)
    } else {
        match geometry_error(
            blocksize.unwrap() as int,
            pagesize.unwrap() as int,
            startblock.unwrap() as int,
            endblock.unwrap() as int,
        ) {
            Some(e) => Err(e),
            None => Ok(
                ParsedView::Run(
                    OptionsView {
                        blocksize: blocksize.unwrap() as int,
                        pagesize: pagesize.unwrap() as int,
                        target: raw.files,
                        mode: mode.unwrap(),
                        startblock: startblock.unwrap() as int,
                        endblock: endblock.unwrap() as int,
                        data: data.unwrap(),
                        interval: interval.unwrap() as int,
                    },
                ),
            ),
        }
    }
}

/// An exec result seen through the views.
pub open spec fn parsed_view(r: Result<Parsed, OptionsError>) -> Result<ParsedView, OptionsError> {
    match r {
        Ok(p) => Ok(p@),
        Err(e) => Err(e),
    }
}

/// Reads the name of a mode.
pub fn mode_from_name(name: &str) -> (r: Option<IoMode>)
    ensures
        r == mode_named(name@),
{
    if same_text(name, "sequential") {
        Some(IoMode::Sequential)
    } else if same_text(name, "sequentialreverse") {
        Some(IoMode::SequentialReverse)
    } else if same_text(name, "random") {
        Some(IoMode::Random)
    } else if same_text(name, "random100") {
        Some(IoMode::FullPeriodRandom)
    } else {
        None
    }
}

/// Reads the name of a data type.
pub fn data_from_name(name: &str) -> (r: Option<DataType>)
    ensures
        r == data_named(name@),
{
    if same_text(name, "random") {
        Some(DataType::Random)
    } else if same_text(name, "zero") {
        Some(DataType::Zero)
    } else {
        None
    }
}

/// Reads a numeric option.
pub fn numeric_option(text: &Option<String>, default: u64) -> (r: Option<u64>)
    ensures
        r == numeric(text_of(*text), default),
{
    match text {
        None => Some(default),
        Some(s) => match parse_decimal(s.as_str()) {
            Some(v) => if v == 0 {
                None
            } else {
                Some(v)
            },
            None => None,
        },
    }
}

/// Checks sizes and range.
pub fn check_geometry(blocksize: u64, pagesize: u64, startblock: u64, endblock: u64) -> (r: Result<
    (),
    OptionsError,
>)
    ensures
        match r {
            Ok(_) => geometry_error(
                blocksize as int,
                pagesize as int,
                startblock as int,
                endblock as int,
            ) is None,
            Err(e) => geometry_error(
                blocksize as int,
                pagesize as int,
                startblock as int,
                endblock as int,
            ) == Some(e),
        },
{
    if pagesize != 0 && pagesize > blocksize {
        return Err(OptionsError::PageLargerThanBlock);
    }
    if pagesize != 0 && !is_power_of_two(pagesize) {
        return Err(OptionsError::PageNotPowerOfTwo);
    }
    if !is_power_of_two(blocksize) {
        return Err(OptionsError::BlockNotPowerOfTwo);
    }
    if endblock != 0 && endblock < startblock {
        return Err(OptionsError::EndBeforeStart);
    }
    Ok(())
}

/// Reads the options given as text.
pub fn interpret(raw: RawOptions) -> (r: Result<Parsed, OptionsError>)
    ensures
        parsed_view(r) == interpreted(raw@),
        r matches Ok(Parsed::Run(options)) ==> options@.valid(),
{
    if raw.help {
        return Ok(Parsed::Help);
    }
    if raw.files.len() == 0 {
        return Err(OptionsError::MissingFile);
    }
    let mode = match &raw.mode {
        Some(name) => match mode_from_name(name.as_str()) {
            Some(m) => m,
            None => {
                return Err(OptionsError::BadMode);
            },
        },
        None => IoMode::Random,
    };
    let data = match &raw.data {
        Some(name) => match data_from_name(name.as_str()) {
            Some(d) => d,
            None => {
                return Err(OptionsError::BadData);
            },
        },
        None => DataType::Random,
    };
    let blocksize = match numeric_option(&raw.blocksize, DEFAULT_BLOCKSIZE) {
        Some(v) => v,
        None => {
            return Err(OptionsError::BadBlocksize);
        },
    };
    let pagesize = match numeric_option(&raw.pagesize, 0) {
        Some(v) => v,
        None => {
            return Err(OptionsError::BadPagesize);
        },
    };
    let startblock = match numeric_option(&raw.startblock, 0) {
        Some(v) => v,
        None => {
            return Err(OptionsError::BadStartblock);
        },
    };
    let endblock = match numeric_option(&raw.endblock, 0) {
        Some(v) => v,
        None => {
            return Err(OptionsError::BadEndblock);
        },
    };
    let interval = match numeric_option(&raw.interval, 0) {
        Some(v) => v,
        None => {
            return Err(OptionsError::BadInterval);
        },
    };
    match check_geometry(blocksize, pagesize, startblock, endblock) {
        Err(e) => Err(e),
        Ok(_) => Ok(
            Parsed::Run(
                ThermiteOptions {
                    blocksize,
                    pagesize,
                    target: raw.files,
                    mode,
                    startblock,
                    endblock,
                    data,
                    interval,
                },
            ),
        ),
    }
}

} // verus!
