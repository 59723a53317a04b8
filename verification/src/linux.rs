//! Linux host support for the IT8951 protocol: manual chip-select SPI
//! transactions and the named panel profiles that configure them.
//!
//! Every transaction is a [`Transaction`]: a state machine that decides each
//! SPI, GPIO or timing action and is told what came of it. Whoever owns the
//! real bus, the pins and the clock performs the actions.

use vstd::prelude::*;
use vstd::arithmetic::div_mod::lemma_fundamental_div_mod_converse;
use crate::display::Size;
use crate::it8951::{DisplayWait, VcomMillivolts, plausible_vcom};
use crate::rendering::{debug_quoted, debug_text, duration_debug, duration_debug_text, io_error_text};
use vstd::string::StringExecFns;

verus! {

/// `std::io::Error`, carried through unchanged from SPI and GPIO operations.
#[verifier::external_type_specification]
#[verifier::external_body]
pub struct ExIoError(std::io::Error);

/// `std::path::PathBuf`, carried through unchanged in panel profiles.
#[verifier::external_type_specification]
#[verifier::external_body]
pub struct ExPathBuf(std::path::PathBuf);

/// Highest SPI rate audited in Waveshare's Raspberry Pi IT8951 implementation.
///
/// Initial bring-up should remain at 1 MHz. Raising the local profile is a
/// measured lab decision and cannot exceed this vendor-proven ceiling.
pub const MAX_AUDITED_SPI_HZ: u32 = 12_500_000;

/// Largest single SPI write of a bulk word upload: 256 words.
pub const WRITE_CHUNK_BYTES: usize = 512;

/// SPI operations needed while chip select is controlled separately.
pub trait SpiBus {
    /// Writes every byte or returns an I/O error.
    fn write_all(&mut self, bytes: &[u8]) -> Result<(), std::io::Error>;

    /// Clocks bytes from the device until the destination is full.
    fn read_exact(&mut self, bytes: &mut [u8]) -> (r: Result<(), std::io::Error>)
        ensures
            final(bytes)@.len() == old(bytes)@.len(),
    ;
}

/// GPIO operations needed by the IT8951 transaction engine.
pub trait Pins {
    /// Drives active-low chip select.
    fn set_chip_select(&mut self, high: bool) -> Result<(), std::io::Error>;

    /// Drives active-low reset.
    fn set_reset(&mut self, high: bool) -> Result<(), std::io::Error>;

    /// Returns true when HRDY is high and the controller is ready.
    fn is_ready(&mut self) -> Result<bool, std::io::Error>;
}

/// Timing applied to ready polling and hardware reset, in nanoseconds.
#[derive(Clone, Copy, Debug, PartialEq, Eq, Structural)]
pub struct Timing {
    /// Maximum wait for one HRDY synchronization.
    pub ready_timeout: u64,
    /// Delay between HRDY samples.
    pub ready_poll_interval: u64,
    /// Initial reset-high settling time.
    pub reset_high: u64,
    /// Active-low reset pulse.
    pub reset_low: u64,
    /// Recovery time after reset is released.
    pub reset_recovery: u64,
}

impl Timing {
    pub open spec fn spec_is_valid(self) -> bool {
        &&& self.ready_timeout != 0
        &&& self.ready_poll_interval != 0
        &&& self.reset_high != 0
        &&& self.reset_low != 0
        &&& self.reset_recovery != 0
    }

    /// Returns whether every duration is non-zero.
    pub fn is_valid(self) -> (r: bool)
        ensures
            r == self.spec_is_valid(),
    {
        self.ready_timeout != 0 && self.ready_poll_interval != 0 && self.reset_high != 0
            && self.reset_low != 0 && self.reset_recovery != 0
    }
}

/// Linux transport failure.
#[derive(Debug)]
pub enum TransportError {
    /// SPI or GPIO operation failed.
    Io(std::io::Error),
    /// HRDY remained low for the configured transaction budget (nanoseconds).
    ReadyTimeout(u64),
    /// A shared controller-operation deadline expired.
    OperationTimeout,
    /// A zero timing duration would make timeout behavior ambiguous.
    InvalidTiming,
    /// A transaction failed and manual chip select could not be released.
    TransactionAndRelease {
        /// Original transaction failure.
        transaction: Box<TransportError>,
        /// Failure while driving chip select high.
        release: std::io::Error,
    },
}

impl From<std::io::Error> for TransportError {
    fn from(error: std::io::Error) -> (r: TransportError) {
        TransportError::Io(error)
    }
}

impl vstd::std_specs::convert::FromSpecImpl<std::io::Error> for TransportError {
    open spec fn obeys_from_spec() -> bool {
        true
    }

    open spec fn from_spec(v: std::io::Error) -> TransportError {
        TransportError::Io(v)
    }
}

/// The description of a transport failure that holds no operating-system
/// text.
pub open spec fn transport_error_text(e: TransportError) -> Option<Seq<char>> {
    match e {
        TransportError::Io(_) => None,
        TransportError::ReadyTimeout(ns) => Some("IT8951 HRDY timed out after "@ + duration_debug_text(ns)),
        TransportError::OperationTimeout => Some("IT8951 operation deadline expired"@),
        TransportError::InvalidTiming => Some("IT8951 timing values must be non-zero"@),
        TransportError::TransactionAndRelease { .. } => None,
    }
}

impl TransportError {
    /// A human-readable description of the failure. An I/O failure is
    /// described by the operating system after a fixed prefix; a failed
    /// release follows the description of the transaction's own failure.
    pub fn message(&self) -> (r: String)
        ensures
            transport_error_text(*self) matches Some(t) ==> r@ == t,
            self is Io ==> "Linux IT8951 I/O failed: "@.is_prefix_of(r@),
            self matches TransportError::TransactionAndRelease { transaction, .. } ==> exists|
                inner: Seq<char>,
                release: Seq<char>,
            |
                {
                    &&& r@ == "IT8951 transaction failed: "@ + inner + "; manual CS release also failed: "@
                        + release
                    &&& transport_error_text(**transaction) matches Some(t) ==> inner == t
                },
        decreases self,
    {
        match self {
            TransportError::Io(error) => {
                let mut text = String::from_str("Linux IT8951 I/O failed: ");
                let detail = io_error_text(error);
                text.append(detail.as_str());
                text
            },
            TransportError::ReadyTimeout(ns) => {
                let mut text = String::from_str("IT8951 HRDY timed out after ");
                let duration = duration_debug(*ns);
                text.append(duration.as_str());
                text
            },
            TransportError::OperationTimeout => String::from_str("IT8951 operation deadline expired"),
            TransportError::InvalidTiming => String::from_str("IT8951 timing values must be non-zero"),
            TransportError::TransactionAndRelease { transaction, release } => {
                let inner = transaction.message();
                let detail = io_error_text(release);
                let mut text = String::from_str("IT8951 transaction failed: ");
                text.append(inner.as_str());
                text.append("; manual CS release also failed: ");
                text.append(detail.as_str());
                proof {
                    assert(text@ == "IT8951 transaction failed: "@ + inner@ + "; manual CS release also failed: "@
                        + detail@);
                }
                text
            },
        }
    }
}

/// Checks a transport timing before any SPI or GPIO resource is used.
pub fn check_timing(timing: Timing) -> (r: Result<(), TransportError>)
    ensures
        r is Ok <==> timing.spec_is_valid(),
        r matches Err(e) ==> e is InvalidTiming,
{
    if timing.is_valid() {
        Ok(())
    } else {
        Err(TransportError::InvalidTiming)
    }
}

pub open spec fn command_preamble() -> Seq<u8> {
    seq![0x60u8, 0x00u8]
}

pub open spec fn write_preamble() -> Seq<u8> {
    seq![0x00u8, 0x00u8]
}

pub open spec fn read_preamble() -> Seq<u8> {
    seq![0x10u8, 0x00u8]
}

/// The big-endian bytes of a sequence of words, high byte first.
pub open spec fn be_encoding(words: Seq<u16>) -> Seq<u8> {
    Seq::new(
        (2 * words.len()) as nat,
        |i: int|
            if i % 2 == 0 {
                (words[i / 2] / 256) as u8
            } else {
                (words[i / 2] % 256) as u8
            },
    )
}

/// The words that big-endian byte pairs spell; a trailing odd byte is ignored.
pub open spec fn be_decoding(bytes: Seq<u8>) -> Seq<u16> {
    Seq::new(bytes.len() / 2, |k: int| (bytes[2 * k] * 256 + bytes[2 * k + 1]) as u16)
}

/// Decoding the big-endian encoding of words gives the words back.
pub proof fn lemma_decode_encode(words: Seq<u16>)
    ensures
        be_decoding(be_encoding(words)) == words,
{
    let bytes = be_encoding(words);
    assert forall|k: int| 0 <= k < words.len() implies #[trigger] be_decoding(bytes)[k] == words[k] by {
        let w = words[k] as int;
        assert((2 * k) % 2 == 0 && (2 * k) / 2 == k);
        assert((2 * k + 1) % 2 == 1 && (2 * k + 1) / 2 == k);
        lemma_fundamental_div_mod_converse(w, 256, w / 256, w % 256);
        assert(bytes[2 * k] == w / 256);
        assert(bytes[2 * k + 1] == w % 256);
    }
    assert(be_decoding(bytes) =~= words);
}

/// Encoding words that big-endian byte pairs spell gives the pairs back.
pub proof fn lemma_encode_decode(bytes: Seq<u8>)
    requires
        bytes.len() % 2 == 0,
    ensures
        be_encoding(be_decoding(bytes)) == bytes,
{
    let words = be_decoding(bytes);
    assert forall|i: int| 0 <= i < bytes.len() implies #[trigger] be_encoding(words)[i] == bytes[i] by {
        let k = i / 2;
        let hi = bytes[2 * k] as int;
        let lo = bytes[2 * k + 1] as int;
        assert(words[k] == hi * 256 + lo);
        lemma_fundamental_div_mod_converse(hi * 256 + lo, 256, hi, lo);
    }
    assert(be_encoding(words) =~= bytes);
}

/// Big-endian bytes of one word.
fn word_bytes(word: u16) -> (r: Vec<u8>)
    ensures
        r@ == be_encoding(seq![word]),
{
    let r = vec![(word / 256) as u8, (word % 256) as u8];
    proof {
        assert(r@ =~= be_encoding(seq![word]));
    }
    r
}

/// The bulk-write payloads of `words`: their big-endian bytes cut into
/// consecutive writes of [`WRITE_CHUNK_BYTES`], the last one shorter.
pub open spec fn write_chunks(words: Seq<u16>) -> Seq<Seq<u8>> {
    let bytes = be_encoding(words);
    let count = (bytes.len() + WRITE_CHUNK_BYTES - 1) / (WRITE_CHUNK_BYTES as int);
    Seq::new(
        count as nat,
        |c: int|
            bytes.subrange(
                c * WRITE_CHUNK_BYTES,
                if (c + 1) * WRITE_CHUNK_BYTES <= bytes.len() {
                    (c + 1) * WRITE_CHUNK_BYTES
                } else {
                    bytes.len() as int
                },
            ),
    )
}

/// The big-endian bytes of `words`.
fn encode_words(words: &[u16]) -> (r: Vec<u8>)
    requires
        2 * words@.len() <= usize::MAX,
    ensures
        r@ == be_encoding(words@),
{
    let mut bytes: Vec<u8> = Vec::new();
    let mut k: usize = 0;
    while k < words.len()
        invariant
            k <= words@.len(),
            2 * words@.len() <= usize::MAX,
            bytes@ == be_encoding(words@).subrange(0, 2 * k as int),
        decreases words@.len() - k,
    {
        let word = words[k];
        bytes.push((word / 256) as u8);
        bytes.push((word % 256) as u8);
        proof {
            assert((2 * k) as int % 2 == 0 && (2 * k) as int / 2 == k);
            assert((2 * k + 1) as int % 2 == 1 && (2 * k + 1) as int / 2 == k);
            assert(bytes@ =~= be_encoding(words@).subrange(0, 2 * (k + 1)));
        }
        k = k + 1;
    }
    proof {
        assert(bytes@ =~= be_encoding(words@));
    }
    bytes
}

/// The words that big-endian byte pairs spell.
fn decode_words(bytes: &Vec<u8>) -> (r: Vec<u16>)
    ensures
        r@ == be_decoding(bytes@),
{
    let mut words: Vec<u16> = Vec::new();
    let len = bytes.len();
    let count = len / 2;
    let mut k: usize = 0;
    while k < count
        invariant
            k <= count,
            len == bytes@.len(),
            count == len / 2,
            words@ == be_decoding(bytes@).subrange(0, k as int),
        decreases count - k,
    {
        let word = bytes[2 * k] as u16 * 256 + bytes[2 * k + 1] as u16;
        words.push(word);
        proof {
            assert(words@ =~= be_decoding(bytes@).subrange(0, k + 1));
        }
        k = k + 1;
    }
    proof {
        assert(words@ =~= be_decoding(bytes@));
    }
    words
}

/// A pause bounded by the time left before an operation deadline, if any.
pub open spec fn spec_bounded_pause(requested: u64, remaining: Option<u64>) -> u64 {
    match remaining {
        Some(left) => if left < requested {
            left
        } else {
            requested
        },
        None => requested,
    }
}

/// Shortens a requested pause to the time left before the operation
/// deadline, when one is active.
pub fn bounded_pause(requested: u64, remaining: Option<u64>) -> (r: u64)
    ensures
        r == spec_bounded_pause(requested, remaining),
        r <= requested,
{
    match remaining {
        Some(left) => if left < requested {
            left
        } else {
            requested
        },
        None => requested,
    }
}

/// One primitive of a transaction.
pub enum StepView {
    /// Waits until HRDY is high, within the ready timeout and the operation deadline.
    WaitReady,
    /// Drives active-low chip select to this level.
    ChipSelect(bool),
    /// Drives active-low reset to this level.
    SetReset(bool),
    /// Holds the lines for this many nanoseconds.
    Pause(u64),
    /// Writes these bytes.
    Write(Seq<u8>),
    /// Reads this many bytes and keeps them.
    Read(usize),
    /// Reads this many bytes and drops them.
    Discard(usize),
}

enum Step {
    WaitReady,
    ChipSelect(bool),
    SetReset(bool),
    Pause(u64),
    Write(Vec<u8>),
    Read(usize),
    Discard(usize),
}

impl View for Step {
    type V = StepView;

    closed spec fn view(&self) -> StepView {
        match self {
            Step::WaitReady => StepView::WaitReady,
            Step::ChipSelect(level) => StepView::ChipSelect(*level),
            Step::SetReset(level) => StepView::SetReset(*level),
            Step::Pause(ns) => StepView::Pause(*ns),
            Step::Write(bytes) => StepView::Write(bytes@),
            Step::Read(n) => StepView::Read(*n),
            Step::Discard(n) => StepView::Discard(*n),
        }
    }
}

/// Where a ready wait stands.
#[derive(Clone, Copy, Debug, PartialEq, Eq, Structural)]
pub enum WaitPhase {
    /// The wait has not begun.
    Start,
    /// The operation deadline is checked next.
    Deadline,
    /// HRDY is sampled next.
    Poll,
    /// The elapsed time is read next.
    Clock,
    /// The poll interval is slept next.
    Sleep(u64),
}

/// What the owner of the bus, the pins and the clock must do next.
#[derive(Debug)]
pub enum Action {
    /// Note the instant at which a ready wait begins; answer `Done`.
    StartReadyWait,
    /// Answer `Flag(true)` if the operation deadline has passed.
    CheckDeadline,
    /// Sample HRDY; answer `Flag(high)` or `Failed`.
    PollReady,
    /// Answer `Clock` with the time since the wait began and the time left
    /// before the operation deadline.
    ReadClock,
    /// Sleep this many nanoseconds; answer `Done`.
    Sleep(u64),
    /// Drive chip select; answer `Done` or `Failed`.
    SetChipSelect(bool),
    /// Drive reset; answer `Done` or `Failed`.
    SetReset(bool),
    /// Write these bytes over SPI; answer `Done` or `Failed`.
    Write(Vec<u8>),
    /// Read this many bytes over SPI; answer `Bytes` or `Failed`.
    Read(usize),
    /// Nothing is left to do; the outcome is ready.
    Finished,
}

pub enum ActionView {
    StartReadyWait,
    CheckDeadline,
    PollReady,
    ReadClock,
    Sleep(u64),
    SetChipSelect(bool),
    SetReset(bool),
    Write(Seq<u8>),
    Read(usize),
    Finished,
}

impl View for Action {
    type V = ActionView;

    open spec fn view(&self) -> ActionView {
        match self {
            Action::StartReadyWait => ActionView::StartReadyWait,
            Action::CheckDeadline => ActionView::CheckDeadline,
            Action::PollReady => ActionView::PollReady,
            Action::ReadClock => ActionView::ReadClock,
            Action::Sleep(ns) => ActionView::Sleep(*ns),
            Action::SetChipSelect(level) => ActionView::SetChipSelect(*level),
            Action::SetReset(level) => ActionView::SetReset(*level),
            Action::Write(bytes) => ActionView::Write(bytes@),
            Action::Read(n) => ActionView::Read(*n),
            Action::Finished => ActionView::Finished,
        }
    }
}

/// What came of the last action.
#[derive(Debug)]
pub enum Event {
    /// The action completed.
    Done,
    /// The SPI or GPIO operation failed.
    Failed(std::io::Error),
    /// The answer to a deadline check or an HRDY sample.
    Flag(bool),
    /// Nanoseconds since the ready wait began, and before the operation
    /// deadline when one is active.
    Clock { elapsed_ns: u64, remaining_ns: Option<u64> },
    /// The bytes an SPI read returned.
    Bytes(Vec<u8>),
}

pub enum EventView {
    Done,
    Failed(std::io::Error),
    Flag(bool),
    Clock { elapsed_ns: u64, remaining_ns: Option<u64> },
    Bytes(Seq<u8>),
}

impl View for Event {
    type V = EventView;

    open spec fn view(&self) -> EventView {
        match self {
            Event::Done => EventView::Done,
            Event::Failed(e) => EventView::Failed(*e),
            Event::Flag(b) => EventView::Flag(*b),
            Event::Clock { elapsed_ns, remaining_ns } => EventView::Clock {
                elapsed_ns: *elapsed_ns,
                remaining_ns: *remaining_ns,
            },
            Event::Bytes(bytes) => EventView::Bytes(bytes@),
        }
    }
}

/// The state of a transaction.
pub struct TransactionView {
    pub timing: Timing,
    pub steps: Seq<StepView>,
    pub pos: int,
    pub phase: WaitPhase,
    pub selected: bool,
    pub failure: Option<TransportError>,
    pub received: Seq<u8>,
    pub outcome: Option<Result<Seq<u16>, TransportError>>,
}

/// Every chip-select assertion of a script is followed by further steps,
/// and the script then ends by releasing chip select.
pub open spec fn releases_after_select(steps: Seq<StepView>) -> bool {
    forall|i: int|
        0 <= i < steps.len() && #[trigger] steps[i] == StepView::ChipSelect(false) ==> i + 1 < steps.len()
            && steps[steps.len() - 1] == StepView::ChipSelect(true)
}

impl TransactionView {
    /// The transaction invariant.
    pub open spec fn wf(self) -> bool {
        &&& 0 <= self.pos <= self.steps.len()
        &&& self.outcome is None ==> self.pos < self.steps.len()
        &&& releases_after_select(self.steps)
        &&& self.selected ==> self.outcome is None && self.pos < self.steps.len() && self.steps[self.steps.len()
            - 1] == StepView::ChipSelect(true)
        &&& self.failure is Some ==> self.selected && self.pos == self.steps.len() - 1
        &&& self.phase != WaitPhase::Start ==> self.outcome is None && self.steps[self.pos] == StepView::WaitReady
        &&& self.outcome is Some ==> !self.selected && self.failure is None
    }

    /// A transaction that has not started.
    pub open spec fn fresh(self, timing: Timing, steps: Seq<StepView>) -> bool {
        &&& self.timing == timing
        &&& self.steps == steps
        &&& self.pos == 0
        &&& self.phase == WaitPhase::Start
        &&& !self.selected
        &&& self.failure is None
        &&& self.received == Seq::<u8>::empty()
        &&& self.outcome is None
    }

    /// The action the current state asks for.
    pub open spec fn action(self) -> ActionView {
        if self.outcome is Some {
            ActionView::Finished
        } else {
            match self.steps[self.pos] {
                StepView::WaitReady => match self.phase {
                    WaitPhase::Start => ActionView::StartReadyWait,
                    WaitPhase::Deadline => ActionView::CheckDeadline,
                    WaitPhase::Poll => ActionView::PollReady,
                    WaitPhase::Clock => ActionView::ReadClock,
                    WaitPhase::Sleep(ns) => ActionView::Sleep(ns),
                },
                StepView::ChipSelect(level) => ActionView::SetChipSelect(level),
                StepView::SetReset(level) => ActionView::SetReset(level),
                StepView::Pause(ns) => ActionView::Sleep(ns),
                StepView::Write(bytes) => ActionView::Write(bytes),
                StepView::Read(n) => ActionView::Read(n),
                StepView::Discard(n) => ActionView::Read(n),
            }
        }
    }

    /// The current step completed: move on, and finish after the last step
    /// with the words that were read.
    pub open spec fn step_done(self) -> Self {
        if self.pos + 1 == self.steps.len() {
            TransactionView {
                pos: self.pos + 1,
                phase: WaitPhase::Start,
                outcome: Some(Ok(be_decoding(self.received))),
                ..self
            }
        } else {
            TransactionView { pos: self.pos + 1, phase: WaitPhase::Start, ..self }
        }
    }

    /// The current step failed: with chip select asserted, keep the error
    /// and release chip select next; otherwise finish with the error.
    pub open spec fn step_failed(self, error: TransportError) -> Self {
        if self.selected {
            TransactionView { failure: Some(error), pos: self.steps.len() - 1, phase: WaitPhase::Start, ..self }
        } else {
            TransactionView { outcome: Some(Err(error)), phase: WaitPhase::Start, ..self }
        }
    }

    /// Chip select was released.
    pub open spec fn release_done(self) -> Self {
        match self.failure {
            Some(error) => TransactionView { selected: false, failure: None, outcome: Some(Err(error)), ..self },
            None => TransactionView { selected: false, ..self }.step_done(),
        }
    }

    /// Releasing chip select failed: report it, with the failure that led
    /// to the release when there was one.
    pub open spec fn release_failed(self, release: std::io::Error) -> Self {
        let error = match self.failure {
            Some(transaction) => TransportError::TransactionAndRelease { transaction: Box::new(transaction), release },
            None => TransportError::Io(release),
        };
        TransactionView { selected: false, failure: None, outcome: Some(Err(error)), ..self }
    }

    /// The state after `event` answers the current action. An event that
    /// does not answer it leaves the state unchanged.
    pub open spec fn next(self, event: EventView) -> Self {
        if self.outcome is Some {
            self
        } else {
            match self.steps[self.pos] {
                StepView::WaitReady => match self.phase {
                    WaitPhase::Start => match event {
                        EventView::Done => TransactionView { phase: WaitPhase::Deadline, ..self },
                        _ => self,
                    },
                    WaitPhase::Deadline => match event {
                        EventView::Flag(true) => self.step_failed(TransportError::OperationTimeout),
                        EventView::Flag(false) => TransactionView { phase: WaitPhase::Poll, ..self },
                        _ => self,
                    },
                    WaitPhase::Poll => match event {
                        EventView::Flag(true) => self.step_done(),
                        EventView::Flag(false) => TransactionView { phase: WaitPhase::Clock, ..self },
                        EventView::Failed(e) => self.step_failed(TransportError::Io(e)),
                        _ => self,
                    },
                    WaitPhase::Clock => match event {
                        EventView::Clock { elapsed_ns, remaining_ns } => if elapsed_ns >= self.timing.ready_timeout {
                            self.step_failed(TransportError::ReadyTimeout(self.timing.ready_timeout))
                        } else {
                            let pause = spec_bounded_pause(self.timing.ready_poll_interval, remaining_ns);
                            if pause == 0 {
                                TransactionView { phase: WaitPhase::Deadline, ..self }
                            } else {
                                TransactionView { phase: WaitPhase::Sleep(pause), ..self }
                            }
                        },
                        _ => self,
                    },
                    WaitPhase::Sleep(_) => match event {
                        EventView::Done => TransactionView { phase: WaitPhase::Deadline, ..self },
                        _ => self,
                    },
                },
                StepView::ChipSelect(level) => match event {
                    EventView::Done => if !level {
                        TransactionView { selected: true, ..self }.step_done()
                    } else if self.selected {
                        self.release_done()
                    } else {
                        self.step_done()
                    },
                    EventView::Failed(e) => if level && self.selected {
                        self.release_failed(e)
                    } else {
                        self.step_failed(TransportError::Io(e))
                    },
                    _ => self,
                },
                StepView::SetReset(_) => match event {
                    EventView::Done => self.step_done(),
                    EventView::Failed(e) => self.step_failed(TransportError::Io(e)),
                    _ => self,
                },
                StepView::Write(_) => match event {
                    EventView::Done => self.step_done(),
                    EventView::Failed(e) => self.step_failed(TransportError::Io(e)),
                    _ => self,
                },
                StepView::Pause(_) => match event {
                    EventView::Done => self.step_done(),
                    _ => self,
                },
                StepView::Read(n) => match event {
                    EventView::Bytes(bytes) => if bytes.len() == n {
                        TransactionView { received: self.received + bytes, ..self }.step_done()
                    } else {
                        self
                    },
                    EventView::Failed(e) => self.step_failed(TransportError::Io(e)),
                    _ => self,
                },
                StepView::Discard(n) => match event {
                    EventView::Bytes(bytes) => if bytes.len() == n {
                        self.step_done()
                    } else {
                        self
                    },
                    EventView::Failed(e) => self.step_failed(TransportError::Io(e)),
                    _ => self,
                },
            }
        }
    }
}

/// Every transition keeps the transaction invariant.
pub proof fn lemma_next_keeps_wf(s: TransactionView, event: EventView)
    requires
        s.wf(),
    ensures
        s.next(event).wf(),
{
    if s.outcome is None {
        if s.steps[s.pos] == StepView::ChipSelect(false) {
            assert(s.pos + 1 < s.steps.len());
        }
    }
}

/// The machine behind a [`Transaction`], free to pass through states that
/// break the invariant while it takes a step.
struct Machine {
    timing: Timing,
    steps: Vec<Step>,
    pos: usize,
    phase: WaitPhase,
    selected: bool,
    failure: Option<TransportError>,
    received: Vec<u8>,
    outcome: Option<Result<Vec<u16>, TransportError>>,
}

pub open spec fn outcome_view(outcome: Option<Result<Vec<u16>, TransportError>>) -> Option<Result<Seq<u16>, TransportError>> {
    match outcome {
        Some(Ok(words)) => Some(Ok(words@)),
        Some(Err(e)) => Some(Err(e)),
        None => None,
    }
}

impl View for Machine {
    type V = TransactionView;

    closed spec fn view(&self) -> TransactionView {
        TransactionView {
            timing: self.timing,
            steps: self.steps@.map_values(|step: Step| step@),
            pos: self.pos as int,
            phase: self.phase,
            selected: self.selected,
            failure: self.failure,
            received: self.received@,
            outcome: outcome_view(self.outcome),
        }
    }
}

/// Copy-free summary of a step, for dispatch.
#[derive(Clone, Copy)]
enum StepKind {
    WaitReady,
    ChipSelect(bool),
    SetReset,
    Pause,
    Write,
    Read(usize),
    Discard(usize),
}

impl Machine {
    fn kind(&self) -> (r: StepKind)
        requires
            self.pos < self.steps@.len(),
        ensures
            match self@.steps[self.pos as int] {
                StepView::WaitReady => r is WaitReady,
                StepView::ChipSelect(level) => r == StepKind::ChipSelect(level),
                StepView::SetReset(_) => r is SetReset,
                StepView::Pause(_) => r is Pause,
                StepView::Write(_) => r is Write,
                StepView::Read(n) => r == StepKind::Read(n),
                StepView::Discard(n) => r == StepKind::Discard(n),
            },
    {
        match &self.steps[self.pos] {
            Step::WaitReady => StepKind::WaitReady,
            Step::ChipSelect(level) => StepKind::ChipSelect(*level),
            Step::SetReset(_) => StepKind::SetReset,
            Step::Pause(_) => StepKind::Pause,
            Step::Write(_) => StepKind::Write,
            Step::Read(n) => StepKind::Read(*n),
            Step::Discard(n) => StepKind::Discard(*n),
        }
    }

    fn step_done(&mut self)
        requires
            old(self)@.wf(),
            old(self)@.outcome is None,
        ensures
            final(self)@ == old(self)@.step_done(),
    {
        let len = self.steps.len();
        assert(self@.steps.len() == len);
        self.pos = self.pos + 1;
        self.phase = WaitPhase::Start;
        if self.pos == self.steps.len() {
            let words = decode_words(&self.received);
            self.outcome = Some(Ok(words));
        }
        proof {
            assert(self@.steps =~= old(self)@.steps);
        }
    }

    fn step_failed(&mut self, error: TransportError)
        requires
            old(self)@.wf(),
            old(self)@.outcome is None,
        ensures
            final(self)@ == old(self)@.step_failed(error),
    {
        self.phase = WaitPhase::Start;
        if self.selected {
            self.pos = self.steps.len() - 1;
            self.failure = Some(error);
        } else {
            self.outcome = Some(Err(error));
        }
        proof {
            assert(self@.steps =~= old(self)@.steps);
        }
    }

    fn release_done(&mut self)
        requires
            old(self)@.wf(),
            old(self)@.outcome is None,
            old(self)@.selected,
        ensures
            final(self)@ == old(self)@.release_done(),
    {
        self.selected = false;
        match self.failure.take() {
            Some(error) => {
                self.outcome = Some(Err(error));
                proof {
                    assert(self@.steps =~= old(self)@.steps);
                }
            },
            None => {
                proof {
                    assert(self@ == (TransactionView { selected: false, ..old(self)@ }));
                }
                self.step_done();
            },
        }
    }

    fn release_failed(&mut self, release: std::io::Error)
        requires
            old(self)@.wf(),
            old(self)@.outcome is None,
        ensures
            final(self)@ == old(self)@.release_failed(release),
    {
        self.selected = false;
        let error = match self.failure.take() {
            Some(transaction) => TransportError::TransactionAndRelease { transaction: Box::new(transaction), release },
            None => TransportError::Io(release),
        };
        self.outcome = Some(Err(error));
        proof {
            assert(self@.steps =~= old(self)@.steps);
        }
    }

    fn advance(&mut self, event: Event)
        requires
            old(self)@.wf(),
        ensures
            final(self)@ == old(self)@.next(event@),
    {
        if self.outcome.is_some() {
            return;
        }
        let ghost before = self@;
        match self.kind() {
            StepKind::WaitReady => match self.phase {
                WaitPhase::Start => match event {
                    Event::Done => {
                        self.phase = WaitPhase::Deadline;
                    },
                    _ => {},
                },
                WaitPhase::Deadline => match event {
                    Event::Flag(true) => self.step_failed(TransportError::OperationTimeout),
                    Event::Flag(false) => {
                        self.phase = WaitPhase::Poll;
                    },
                    _ => {},
                },
                WaitPhase::Poll => match event {
                    Event::Flag(true) => self.step_done(),
                    Event::Flag(false) => {
                        self.phase = WaitPhase::Clock;
                    },
                    Event::Failed(e) => self.step_failed(TransportError::Io(e)),
                    _ => {},
                },
                WaitPhase::Clock => match event {
                    Event::Clock { elapsed_ns, remaining_ns } => {
                        if elapsed_ns >= self.timing.ready_timeout {
                            let timeout = self.timing.ready_timeout;
                            self.step_failed(TransportError::ReadyTimeout(timeout));
                        } else {
                            let pause = bounded_pause(self.timing.ready_poll_interval, remaining_ns);
                            if pause == 0 {
                                self.phase = WaitPhase::Deadline;
                            } else {
                                self.phase = WaitPhase::Sleep(pause);
                            }
                        }
                    },
                    _ => {},
                },
                WaitPhase::Sleep(_) => match event {
                    Event::Done => {
                        self.phase = WaitPhase::Deadline;
                    },
                    _ => {},
                },
            },
            StepKind::ChipSelect(level) => match event {
                Event::Done => {
                    if !level {
                        self.selected = true;
                        proof {
                            assert(self@ == (TransactionView { selected: true, ..before }));
                        }
                        self.step_done();
                    } else if self.selected {
                        self.release_done();
                    } else {
                        self.step_done();
                    }
                },
                Event::Failed(e) => {
                    if level && self.selected {
                        self.release_failed(e);
                    } else {
                        self.step_failed(TransportError::Io(e));
                    }
                },
                _ => {},
            },
            StepKind::SetReset | StepKind::Write => match event {
                Event::Done => self.step_done(),
                Event::Failed(e) => self.step_failed(TransportError::Io(e)),
                _ => {},
            },
            StepKind::Pause => match event {
                Event::Done => self.step_done(),
                _ => {},
            },
            StepKind::Read(n) => match event {
                Event::Bytes(bytes) => {
                    if bytes.len() == n {
                        let mut bytes = bytes;
                        self.received.append(&mut bytes);
                        proof {
                            assert(self@ == (TransactionView { received: before.received + event@->Bytes_0, ..before }));
                        }
                        self.step_done();
                    }
                },
                Event::Failed(e) => self.step_failed(TransportError::Io(e)),
                _ => {},
            },
            StepKind::Discard(n) => match event {
                Event::Bytes(bytes) => {
                    if bytes.len() == n {
                        self.step_done();
                    }
                },
                Event::Failed(e) => self.step_failed(TransportError::Io(e)),
                _ => {},
            },
        }
    }
}

/// Reset: release chip select, pulse reset high-low-high with its settling
/// times, then wait for the controller to become ready.
pub open spec fn reset_script(timing: Timing) -> Seq<StepView> {
    seq![
        StepView::ChipSelect(true),
        StepView::SetReset(true),
        StepView::Pause(timing.reset_high),
        StepView::SetReset(false),
        StepView::Pause(timing.reset_low),
        StepView::SetReset(true),
        StepView::Pause(timing.reset_recovery),
        StepView::WaitReady,
    ]
}

/// One command word: preamble and word inside one chip-select lifetime,
/// with a ready synchronization before each.
pub open spec fn command_script(command: u16) -> Seq<StepView> {
    seq![
        StepView::WaitReady,
        StepView::ChipSelect(false),
        StepView::Write(command_preamble()),
        StepView::WaitReady,
        StepView::Write(be_encoding(seq![command])),
        StepView::ChipSelect(true),
    ]
}

/// A bulk word write: one preamble and one chip-select lifetime, the
/// words' bytes in writes of at most [`WRITE_CHUNK_BYTES`].
pub open spec fn write_script(words: Seq<u16>) -> Seq<StepView> {
    seq![StepView::WaitReady, StepView::ChipSelect(false), StepView::Write(write_preamble()), StepView::WaitReady]
        + write_chunks(words).map_values(|chunk: Seq<u8>| StepView::Write(chunk))
        + seq![StepView::ChipSelect(true)]
}

/// A word read: preamble, a dummy word, then each word in its own read.
pub open spec fn read_script(count: usize) -> Seq<StepView> {
    seq![
        StepView::WaitReady,
        StepView::ChipSelect(false),
        StepView::Write(read_preamble()),
        StepView::WaitReady,
        StepView::Discard(2),
        StepView::WaitReady,
    ] + Seq::new(count as nat, |i: int| StepView::Read(2)) + seq![StepView::ChipSelect(true)]
}

/// One IT8951 host transaction over manual chip select.
///
/// The transaction decides every action; its owner performs each one with
/// the real bus, pins and clock and answers with [`Transaction::advance`].
pub struct Transaction {
    machine: Machine,
}

impl View for Transaction {
    type V = TransactionView;

    closed spec fn view(&self) -> TransactionView {
        self.machine@
    }
}

impl Transaction {
    #[verifier::type_invariant]
    spec fn inv(self) -> bool {
        self.machine@.wf()
    }

    fn start(timing: Timing, steps: Vec<Step>) -> (r: Transaction)
        requires
            steps@.len() > 0,
            releases_after_select(steps@.map_values(|step: Step| step@)),
        ensures
            r@.fresh(timing, steps@.map_values(|step: Step| step@)),
    {
        let machine = Machine {
            timing,
            steps,
            pos: 0,
            phase: WaitPhase::Start,
            selected: false,
            failure: None,
            received: Vec::new(),
            outcome: None,
        };
        proof {
            assert(machine@.received =~= Seq::<u8>::empty());
        }
        Transaction { machine }
    }

    /// Hardware reset followed by a ready wait.
    pub fn reset(timing: Timing) -> (r: Transaction)
        ensures
            r@.fresh(timing, reset_script(timing)),
    {
        let mut steps: Vec<Step> = Vec::new();
        steps.push(Step::ChipSelect(true));
        steps.push(Step::SetReset(true));
        steps.push(Step::Pause(timing.reset_high));
        steps.push(Step::SetReset(false));
        steps.push(Step::Pause(timing.reset_low));
        steps.push(Step::SetReset(true));
        steps.push(Step::Pause(timing.reset_recovery));
        steps.push(Step::WaitReady);
        proof {
            assert(steps@.map_values(|step: Step| step@) =~= reset_script(timing));
        }
        Transaction::start(timing, steps)
    }

    /// Sends one command word.
    pub fn command(timing: Timing, command: u16) -> (r: Transaction)
        ensures
            r@.fresh(timing, command_script(command)),
    {
        let mut steps: Vec<Step> = Vec::new();
        steps.push(Step::WaitReady);
        steps.push(Step::ChipSelect(false));
        steps.push(Step::Write(vec![0x60u8, 0x00u8]));
        steps.push(Step::WaitReady);
        steps.push(Step::Write(word_bytes(command)));
        steps.push(Step::ChipSelect(true));
        proof {
            let v = steps@.map_values(|step: Step| step@);
            assert(v[2] == StepView::Write(command_preamble()));
            assert(v =~= command_script(command));
        }
        Transaction::start(timing, steps)
    }

    /// Writes data words in one bulk transaction.
    pub fn write_words(timing: Timing, words: &[u16]) -> (r: Transaction)
        requires
            2 * words@.len() + WRITE_CHUNK_BYTES <= usize::MAX,
        ensures
            r@.fresh(timing, write_script(words@)),
    {
        let mut steps: Vec<Step> = Vec::new();
        steps.push(Step::WaitReady);
        steps.push(Step::ChipSelect(false));
        steps.push(Step::Write(vec![0x00u8, 0x00u8]));
        steps.push(Step::WaitReady);
        let bytes = encode_words(words);
        let ghost chunks = write_chunks(words@);
        let ghost head = seq![
            StepView::WaitReady,
            StepView::ChipSelect(false),
            StepView::Write(write_preamble()),
            StepView::WaitReady,
        ];
        proof {
            assert(steps@.map_values(|step: Step| step@) =~= head);
        }
        let len = bytes.len();
        let count = (len + (WRITE_CHUNK_BYTES - 1)) / WRITE_CHUNK_BYTES;
        let mut c: usize = 0;
        while c < count
            invariant
                bytes@ == be_encoding(words@),
                len == bytes@.len(),
                len + WRITE_CHUNK_BYTES <= usize::MAX,
                count == (len + WRITE_CHUNK_BYTES - 1) / (WRITE_CHUNK_BYTES as int),
                c <= count,
                chunks == write_chunks(words@),
                chunks.len() == count,
                steps@.map_values(|step: Step| step@) == head + chunks.subrange(0, c as int).map_values(
                    |chunk: Seq<u8>| StepView::Write(chunk),
                ),
            decreases count - c,
        {
            proof {
                assert(c * 512 < len) by (nonlinear_arith)
                    requires
                        c < count,
                        count == (len + 511) / 512,
                ;
            }
            let start = c * WRITE_CHUNK_BYTES;
            let end = if len - start > WRITE_CHUNK_BYTES {
                start + WRITE_CHUNK_BYTES
            } else {
                len
            };
            let mut chunk: Vec<u8> = Vec::new();
            let mut i = start;
            while i < end
                invariant
                    start <= i <= end,
                    end <= bytes@.len(),
                    chunk@ == bytes@.subrange(start as int, i as int),
                decreases end - i,
            {
                chunk.push(bytes[i]);
                proof {
                    assert(chunk@ =~= bytes@.subrange(start as int, i + 1));
                }
                i = i + 1;
            }
            proof {
                assert((c + 1) * 512 == start + 512);
                assert(chunk@ =~= chunks[c as int]);
            }
            let ghost prev = steps@.map_values(|step: Step| step@);
            let ghost piece = chunk@;
            steps.push(Step::Write(chunk));
            proof {
                assert(steps@.map_values(|step: Step| step@) =~= prev.push(StepView::Write(piece)));
                assert(chunks.subrange(0, c + 1) =~= chunks.subrange(0, c as int).push(chunks[c as int]));
                assert(steps@.map_values(|step: Step| step@) =~= head + chunks.subrange(0, c + 1).map_values(
                    |chunk: Seq<u8>| StepView::Write(chunk),
                ));
            }
            c = c + 1;
        }
        proof {
            assert(chunks.subrange(0, c as int) =~= chunks);
        }
        let ghost prev = steps@.map_values(|step: Step| step@);
        steps.push(Step::ChipSelect(true));
        proof {
            let v = steps@.map_values(|step: Step| step@);
            assert(v =~= prev.push(StepView::ChipSelect(true)));
            assert(v =~= write_script(words@));
            assert forall|i: int| 0 <= i < v.len() && #[trigger] v[i] == StepView::ChipSelect(false) implies i + 1
                < v.len() && v[v.len() - 1] == StepView::ChipSelect(true) by {
                if i >= 4 && i < v.len() - 1 {
                    assert(v[i] == StepView::Write(chunks[i - 4]));
                }
            }
        }
        Transaction::start(timing, steps)
    }

    /// Reads `count` data words after the controller's dummy word.
    pub fn read_words(timing: Timing, count: usize) -> (r: Transaction)
        requires
            count + 7 <= usize::MAX,
        ensures
            r@.fresh(timing, read_script(count)),
    {
        let mut steps: Vec<Step> = Vec::new();
        steps.push(Step::WaitReady);
        steps.push(Step::ChipSelect(false));
        steps.push(Step::Write(vec![0x10u8, 0x00u8]));
        steps.push(Step::WaitReady);
        steps.push(Step::Discard(2));
        steps.push(Step::WaitReady);
        let ghost head = seq![
            StepView::WaitReady,
            StepView::ChipSelect(false),
            StepView::Write(read_preamble()),
            StepView::WaitReady,
            StepView::Discard(2),
            StepView::WaitReady,
        ];
        proof {
            assert(steps@.map_values(|step: Step| step@) =~= head);
        }
        let mut k: usize = 0;
        while k < count
            invariant
                k <= count,
                steps@.map_values(|step: Step| step@) == head + Seq::new(k as nat, |i: int| StepView::Read(2)),
            decreases count - k,
        {
            let ghost prev = steps@.map_values(|step: Step| step@);
            steps.push(Step::Read(2));
            proof {
                assert(steps@.map_values(|step: Step| step@) =~= prev.push(StepView::Read(2)));
                assert(steps@.map_values(|step: Step| step@) =~= head + Seq::new(
                    (k + 1) as nat,
                    |i: int| StepView::Read(2),
                ));
            }
            k = k + 1;
        }
        let ghost prev = steps@.map_values(|step: Step| step@);
        steps.push(Step::ChipSelect(true));
        proof {
            let v = steps@.map_values(|step: Step| step@);
            assert(v =~= prev.push(StepView::ChipSelect(true)));
            assert(v =~= read_script(count));
            assert forall|i: int| 0 <= i < v.len() && #[trigger] v[i] == StepView::ChipSelect(false) implies i + 1
                < v.len() && v[v.len() - 1] == StepView::ChipSelect(true) by {
                if i >= 6 && i < v.len() - 1 {
                    assert(v[i] == StepView::Read(2));
                }
            }
        }
        Transaction::start(timing, steps)
    }

    /// The action the transaction asks for now.
    pub fn action(&self) -> (r: Action)
        ensures
            r@ == self@.action(),
    {
        proof {
            use_type_invariant(self);
        }
        let m = &self.machine;
        if m.outcome.is_some() {
            return Action::Finished;
        }
        match &m.steps[m.pos] {
            Step::WaitReady => match m.phase {
                WaitPhase::Start => Action::StartReadyWait,
                WaitPhase::Deadline => Action::CheckDeadline,
                WaitPhase::Poll => Action::PollReady,
                WaitPhase::Clock => Action::ReadClock,
                WaitPhase::Sleep(ns) => Action::Sleep(ns),
            },
            Step::ChipSelect(level) => Action::SetChipSelect(*level),
            Step::SetReset(level) => Action::SetReset(*level),
            Step::Pause(ns) => Action::Sleep(*ns),
            Step::Write(bytes) => {
                let copy = bytes.clone();
                proof {
                    assert(copy@ =~= bytes@);
                }
                Action::Write(copy)
            },
            Step::Read(n) => Action::Read(*n),
            Step::Discard(n) => Action::Read(*n),
        }
    }

    /// The transaction after `event` answers its current action; an event
    /// that does not answer that action changes nothing.
    pub fn advance(self, event: Event) -> (r: Transaction)
        ensures
            r@ == self@.next(event@),
    {
        proof {
            use_type_invariant(&self);
        }
        let mut machine = self.machine;
        proof {
            lemma_next_keeps_wf(machine@, event@);
        }
        machine.advance(event);
        Transaction { machine }
    }

    /// Whether the outcome is ready.
    pub fn is_finished(&self) -> (r: bool)
        ensures
            r == self@.outcome is Some,
    {
        self.machine.outcome.is_some()
    }

    /// The words read, or the failure, once the transaction has finished.
    pub fn outcome(self) -> (r: Option<Result<Vec<u16>, TransportError>>)
        ensures
            outcome_view(r) == self@.outcome,
    {
        self.machine.outcome
    }
}

/// A bus or pin operation that a transport performed for an action.
pub enum HostOp {
    /// HRDY was sampled.
    PollReady,
    /// Chip select was driven to this level.
    SetChipSelect(bool),
    /// Reset was driven to this level.
    SetReset(bool),
    /// These bytes were written over SPI.
    Write(Seq<u8>),
    /// This many bytes were read over SPI.
    Read(usize),
}

/// The bus or pin operation that an action asks for; timing actions and
/// `Finished` ask for none.
pub open spec fn host_op(action: ActionView) -> Option<HostOp> {
    match action {
        ActionView::PollReady => Some(HostOp::PollReady),
        ActionView::SetChipSelect(level) => Some(HostOp::SetChipSelect(level)),
        ActionView::SetReset(level) => Some(HostOp::SetReset(level)),
        ActionView::Write(bytes) => Some(HostOp::Write(bytes)),
        ActionView::Read(n) => Some(HostOp::Read(n)),
        _ => None,
    }
}


/// The SPI bus, GPIO lines and timing of one manual chip-select IT8951
/// host.
///
/// It decides nothing by itself: every transaction is a [`Transaction`],
/// whose bus and pin actions this value performs; the owner of the clock
/// answers the timing actions.
pub struct ManualCsTransport<S, P> {
    spi: S,
    pins: P,
    timing: Timing,
    ops: Ghost<Seq<HostOp>>,
}

impl<S: SpiBus, P: Pins> ManualCsTransport<S, P> {
    pub closed spec fn spec_timing(&self) -> Timing {
        self.timing
    }

    pub closed spec fn spec_parts(&self) -> (S, P) {
        (self.spi, self.pins)
    }

    /// The bus and pin operations performed so far, in order.
    pub closed spec fn spec_ops(&self) -> Seq<HostOp> {
        self.ops@
    }

    /// Creates a transport without touching its SPI or GPIO resources.
    pub fn new(spi: S, pins: P, timing: Timing) -> (r: Result<ManualCsTransport<S, P>, TransportError>)
        ensures
            match r {
                Ok(transport) => timing.spec_is_valid() && transport.spec_timing() == timing
                    && transport.spec_parts() == (spi, pins) && transport.spec_ops() == Seq::<HostOp>::empty(),
                Err(e) => !timing.spec_is_valid() && e is InvalidTiming,
            },
    {
        match check_timing(timing) {
            Ok(()) => Ok(ManualCsTransport { spi, pins, timing, ops: Ghost(Seq::empty()) }),
            Err(e) => Err(e),
        }
    }

    /// Returns the owned low-level resources.
    pub fn into_parts(self) -> (r: (S, P))
        ensures
            r == self.spec_parts(),
    {
        (self.spi, self.pins)
    }

    /// The reset and ready timing.
    pub fn timing(&self) -> (r: Timing)
        ensures
            r == self.spec_timing(),
    {
        self.timing
    }

    /// A hardware reset under this transport's timing.
    pub fn reset_transaction(&self) -> (r: Transaction)
        ensures
            r@.fresh(self.spec_timing(), reset_script(self.spec_timing())),
    {
        Transaction::reset(self.timing)
    }

    /// One command word under this transport's timing.
    pub fn command_transaction(&self, command: u16) -> (r: Transaction)
        ensures
            r@.fresh(self.spec_timing(), command_script(command)),
    {
        Transaction::command(self.timing, command)
    }

    /// A bulk word write under this transport's timing.
    pub fn write_transaction(&self, words: &[u16]) -> (r: Transaction)
        requires
            2 * words@.len() + WRITE_CHUNK_BYTES <= usize::MAX,
        ensures
            r@.fresh(self.spec_timing(), write_script(words@)),
    {
        Transaction::write_words(self.timing, words)
    }

    /// A word read under this transport's timing.
    pub fn read_transaction(&self, count: usize) -> (r: Transaction)
        requires
            count + 7 <= usize::MAX,
        ensures
            r@.fresh(self.spec_timing(), read_script(count)),
    {
        Transaction::read_words(self.timing, count)
    }

    /// Performs a bus or pin action with this transport's resources; see
    /// [`perform`].
    pub fn perform(&mut self, action: &Action) -> (r: Option<Event>)
        ensures
            final(self).spec_timing() == old(self).spec_timing(),
            final(self).spec_ops() == match host_op(action@) {
                Some(op) => old(self).spec_ops().push(op),
                None => old(self).spec_ops(),
            },
            r is None <==> host_op(action@) is None,
            action is PollReady ==> (r matches Some(event) && (event is Flag || event is Failed)),
            (action is SetChipSelect || action is SetReset || action is Write) ==> (r matches Some(event) && (
            event is Done || event is Failed)),
            action matches Action::Read(n) ==> (r matches Some(event) && (event is Failed || (
            event matches Event::Bytes(bytes) && bytes@.len() == n))),
    {
        match action {
            Action::PollReady => {
                let result = self.pins.is_ready();
                proof {
                    self.ops@ = self.ops@.push(HostOp::PollReady);
                }
                match result {
                    Ok(ready) => Some(Event::Flag(ready)),
                    Err(e) => Some(Event::Failed(e)),
                }
            },
            Action::SetChipSelect(level) => {
                let result = self.pins.set_chip_select(*level);
                proof {
                    self.ops@ = self.ops@.push(HostOp::SetChipSelect(*level));
                }
                match result {
                    Ok(()) => Some(Event::Done),
                    Err(e) => Some(Event::Failed(e)),
                }
            },
            Action::SetReset(level) => {
                let result = self.pins.set_reset(*level);
                proof {
                    self.ops@ = self.ops@.push(HostOp::SetReset(*level));
                }
                match result {
                    Ok(()) => Some(Event::Done),
                    Err(e) => Some(Event::Failed(e)),
                }
            },
            Action::Write(bytes) => {
                let result = self.spi.write_all(bytes.as_slice());
                proof {
                    self.ops@ = self.ops@.push(HostOp::Write(bytes@));
                }
                match result {
                    Ok(()) => Some(Event::Done),
                    Err(e) => Some(Event::Failed(e)),
                }
            },
            Action::Read(n) => {
                let mut buffer = vec![0u8; *n];
                let result = self.spi.read_exact(buffer.as_mut_slice());
                proof {
                    self.ops@ = self.ops@.push(HostOp::Read(*n));
                }
                match result {
                    Ok(()) => Some(Event::Bytes(buffer)),
                    Err(e) => Some(Event::Failed(e)),
                }
            },
            _ => None,
        }
    }
}

/// One `[[panel]]` entry of a profile file, before validation.
#[derive(Debug)]
pub struct RawPanelProfile {
    pub name: String,
    pub controller: String,
    pub width: u32,
    pub height: u32,
    pub rotation_degrees: u16,
    pub vcom_mv: u16,
    pub expected_firmware: Option<String>,
    pub expected_lut: Option<String>,
    pub spi_device: std::path::PathBuf,
    pub gpio_chip: std::path::PathBuf,
    pub cs_line: u32,
    pub reset_line: u32,
    pub ready_line: u32,
    pub max_spi_hz: u32,
    pub ready_timeout_ms: u64,
    pub ready_poll_us: u64,
    pub reset_high_ms: u64,
    pub reset_low_ms: u64,
    pub reset_recovery_ms: u64,
    pub display_timeout_ms: u32,
    pub display_poll_ms: u32,
}

/// Validated configuration for one explicitly named physical panel.
#[derive(Debug)]
pub struct PanelProfile {
    /// Stable local fixture name.
    pub name: String,
    /// Expected native panel dimensions.
    pub panel_size: Size,
    /// Clockwise rotation from logical content to the native panel.
    pub rotation_degrees: u16,
    /// Exact VCOM magnitude recorded from this panel's FPC.
    pub vcom: VcomMillivolts,
    /// Exact firmware string pinned after the first successful probe.
    pub expected_firmware: Option<String>,
    /// Exact LUT string pinned after the first successful probe.
    pub expected_lut: Option<String>,
    /// Linux spidev node configured with hardware CS disabled.
    pub spi_device: std::path::PathBuf,
    /// Linux GPIO character-device node.
    pub gpio_chip: std::path::PathBuf,
    /// Manual active-low chip-select line offset.
    pub cs_line: u32,
    /// Active-low reset line offset.
    pub reset_line: u32,
    /// Active-high HRDY line offset.
    pub ready_line: u32,
    /// Maximum SPI clock, capped at [`MAX_AUDITED_SPI_HZ`].
    pub max_spi_hz: u32,
    /// Transaction/reset timing.
    pub timing: Timing,
    /// Bounded display-engine polling policy.
    pub display_wait: DisplayWait,
}

/// Panel-profile loading or validation failure.
#[derive(Debug)]
pub enum ProfileError {
    /// The profile file could not be read.
    Read(std::io::Error),
    /// TOML syntax or schema validation failed; the parser's explanation.
    Parse(String),
    /// No profile has the requested exact name.
    NotFound(String),
    /// More than one profile has the requested name.
    DuplicateName(String),
    /// A profile field is unsafe, ambiguous, or unsupported.
    Invalid {
        /// Profile name, when available.
        profile: String,
        /// Human-readable invariant.
        reason: &'static str,
    },
}

/// The description of a profile failure that holds no operating-system
/// text.
pub open spec fn profile_error_text(e: ProfileError) -> Option<Seq<char>> {
    match e {
        ProfileError::Read(_) => None,
        ProfileError::Parse(detail) => Some("invalid panel profile TOML: "@ + detail@),
        ProfileError::NotFound(name) => Some("panel profile "@ + debug_text(name@) + " was not found"@),
        ProfileError::DuplicateName(name) => Some(
            "panel profile name "@ + debug_text(name@) + " is duplicated"@,
        ),
        ProfileError::Invalid { profile, reason } => Some(
            "invalid panel profile "@ + debug_text(profile@) + ": "@ + reason@,
        ),
    }
}

impl ProfileError {
    /// A human-readable description of the failure; a read failure is
    /// described by the operating system after a fixed prefix.
    pub fn message(&self) -> (r: String)
        ensures
            profile_error_text(*self) matches Some(t) ==> r@ == t,
            self is Read ==> "could not read panel profiles: "@.is_prefix_of(r@),
    {
        match self {
            ProfileError::Read(error) => {
                let mut text = String::from_str("could not read panel profiles: ");
                let detail = io_error_text(error);
                text.append(detail.as_str());
                text
            },
            ProfileError::Parse(detail) => {
                let mut text = String::from_str("invalid panel profile TOML: ");
                text.append(detail.as_str());
                text
            },
            ProfileError::NotFound(name) => {
                let mut text = String::from_str("panel profile ");
                let quoted = debug_quoted(name.as_str());
                text.append(quoted.as_str());
                text.append(" was not found");
                text
            },
            ProfileError::DuplicateName(name) => {
                let mut text = String::from_str("panel profile name ");
                let quoted = debug_quoted(name.as_str());
                text.append(quoted.as_str());
                text.append(" is duplicated");
                text
            },
            ProfileError::Invalid { profile, reason } => {
                let mut text = String::from_str("invalid panel profile ");
                let quoted = debug_quoted(profile.as_str());
                text.append(quoted.as_str());
                text.append(": ");
                text.append(reason);
                text
            },
        }
    }
}

/// ASCII whitespace as `str::trim` removes it.
pub open spec fn is_ascii_whitespace_char(c: char) -> bool {
    c == ' ' || ('\t' <= c && c <= '\r')
}

/// A pinned firmware or LUT identity: 1 to 16 ASCII bytes, no NUL, not
/// blank.
pub open spec fn valid_version(version: Seq<char>) -> bool {
    &&& vstd::utf8::is_ascii_chars(version)
    &&& version.len() <= 16
    &&& forall|i: int| 0 <= i < version.len() ==> #[trigger] version[i] != '\0'
    &&& exists|i: int| 0 <= i < version.len() && !is_ascii_whitespace_char(#[trigger] version[i])
}

fn is_valid_version(version: &str) -> (r: bool)
    ensures
        r == valid_version(version@),
{
    broadcast use vstd::string::group_string_axioms;

    if !version.is_ascii() {
        return false;
    }
    let bytes = version.as_bytes();
    assert(bytes@ =~= Seq::new(version@.len(), |i: int| version@[i] as u8));
    if bytes.len() > 16 {
        return false;
    }
    let mut blank = true;
    let mut k: usize = 0;
    while k < bytes.len()
        invariant
            k <= bytes@.len(),
            bytes@.len() == version@.len(),
            bytes@ == Seq::new(version@.len(), |i: int| version@[i] as u8),
            vstd::utf8::is_ascii_chars(version@),
            forall|i: int| 0 <= i < k ==> #[trigger] version@[i] != '\0',
            blank <==> forall|i: int| 0 <= i < k ==> is_ascii_whitespace_char(#[trigger] version@[i]),
        decreases bytes@.len() - k,
    {
        let byte = bytes[k];
        assert(byte == version@[k as int] as u8);
        assert('\0' <= version@[k as int] <= '\u{7f}');
        if byte == 0 {
            return false;
        }
        if !(byte == 32 || (9 <= byte && byte <= 13)) {
            blank = false;
        }
        k = k + 1;
    }
    !blank
}

/// The first rule that a raw profile breaks, as the reason reported for it.
pub open spec fn profile_violation(raw: RawPanelProfile) -> Option<Seq<char>> {
    if raw.controller@ != "it8951"@ {
        Some("controller must be \"it8951\""@)
    } else if raw.width == 0 || raw.height == 0 || raw.width > u16::MAX || raw.height > u16::MAX {
        Some("dimensions must be non-zero IT8951 u16 values"@)
    } else if !plausible_vcom(raw.vcom_mv) {
        Some("vcom_mv must be 1..=5000"@)
    } else if !(1 <= raw.max_spi_hz <= MAX_AUDITED_SPI_HZ) {
        Some("max_spi_hz must be 1..=12500000 (start bring-up at 1000000)"@)
    } else if raw.expected_firmware matches Some(v) && !valid_version(v@) {
        Some("expected_firmware must be 1..=16 non-blank ASCII bytes"@)
    } else if raw.expected_lut matches Some(v) && !valid_version(v@) {
        Some("expected_lut must be 1..=16 non-blank ASCII bytes"@)
    } else if raw.cs_line == raw.reset_line || raw.cs_line == raw.ready_line || raw.reset_line == raw.ready_line {
        Some("cs_line, reset_line, and ready_line must be distinct"@)
    } else if raw.ready_timeout_ms == 0 || raw.ready_poll_us == 0 || raw.reset_high_ms == 0 || raw.reset_low_ms == 0
        || raw.reset_recovery_ms == 0 {
        Some("all reset and ready timing fields must be non-zero"@)
    } else if raw.ready_timeout_ms > 10_000 || raw.ready_poll_us > 10_000 || raw.reset_high_ms > 5_000
        || raw.reset_low_ms > 1_000 || raw.reset_recovery_ms > 5_000 {
        Some("transaction/reset timing exceeds the safe setup bounds"@)
    } else if !(0 < raw.display_poll_ms <= raw.display_timeout_ms) {
        Some("display timeout must include at least one polling interval"@)
    } else if raw.display_timeout_ms > 120_000 {
        Some("display timeout exceeds 120 seconds"@)
    } else {
        None
    }
}

/// The profile that a raw entry breaking no rule becomes.
pub open spec fn validated(raw: RawPanelProfile, profile: PanelProfile) -> bool {
    &&& profile.name@ == raw.name@
    &&& profile.panel_size == Size { width: raw.width, height: raw.height }
    &&& profile.rotation_degrees == raw.rotation_degrees
    &&& profile.vcom.spec_get() == raw.vcom_mv
    &&& profile.expected_firmware == raw.expected_firmware
    &&& profile.expected_lut == raw.expected_lut
    &&& profile.spi_device == raw.spi_device
    &&& profile.gpio_chip == raw.gpio_chip
    &&& profile.cs_line == raw.cs_line
    &&& profile.reset_line == raw.reset_line
    &&& profile.ready_line == raw.ready_line
    &&& profile.max_spi_hz == raw.max_spi_hz
    &&& profile.timing == Timing {
        ready_timeout: (raw.ready_timeout_ms * 1_000_000) as u64,
        ready_poll_interval: (raw.ready_poll_us * 1_000) as u64,
        reset_high: (raw.reset_high_ms * 1_000_000) as u64,
        reset_low: (raw.reset_low_ms * 1_000_000) as u64,
        reset_recovery: (raw.reset_recovery_ms * 1_000_000) as u64,
    }
    &&& profile.display_wait.spec_timeout_ms() == raw.display_timeout_ms
    &&& profile.display_wait.spec_poll_delay_ms() == raw.display_poll_ms
}

fn invalid(raw: &RawPanelProfile, reason: &'static str) -> (r: ProfileError)
    ensures
        r matches ProfileError::Invalid { profile, reason: why } && profile@ == raw.name@ && why == reason,
{
    ProfileError::Invalid { profile: raw.name.clone(), reason }
}

/// Validates one raw profile entry, rule by rule.
pub fn validate_profile(raw: RawPanelProfile) -> (r: Result<PanelProfile, ProfileError>)
    ensures
        match profile_violation(raw) {
            Some(why) => r matches Err(ProfileError::Invalid { profile, reason }) && profile@ == raw.name@
                && reason@ == why,
            None => r matches Ok(profile) && validated(raw, profile),
        },
{
    proof {
        reveal_strlit("it8951");
        reveal_strlit("controller must be \"it8951\"");
        reveal_strlit("dimensions must be non-zero IT8951 u16 values");
        reveal_strlit("vcom_mv must be 1..=5000");
        reveal_strlit("max_spi_hz must be 1..=12500000 (start bring-up at 1000000)");
        reveal_strlit("expected_firmware must be 1..=16 non-blank ASCII bytes");
        reveal_strlit("expected_lut must be 1..=16 non-blank ASCII bytes");
        reveal_strlit("cs_line, reset_line, and ready_line must be distinct");
        reveal_strlit("all reset and ready timing fields must be non-zero");
        reveal_strlit("transaction/reset timing exceeds the safe setup bounds");
        reveal_strlit("display timeout must include at least one polling interval");
        reveal_strlit("display timeout exceeds 120 seconds");
    }
    let expected_controller = "it8951".to_owned();
    if raw.controller != expected_controller {
        return Err(invalid(&raw, "controller must be \"it8951\""));
    }
    if raw.width == 0 || raw.height == 0 || raw.width > 65535 || raw.height > 65535 {
        return Err(invalid(&raw, "dimensions must be non-zero IT8951 u16 values"));
    }
    let vcom = match VcomMillivolts::new(raw.vcom_mv) {
        Some(vcom) => vcom,
        None => return Err(invalid(&raw, "vcom_mv must be 1..=5000")),
    };
    if !(1 <= raw.max_spi_hz && raw.max_spi_hz <= MAX_AUDITED_SPI_HZ) {
        return Err(invalid(&raw, "max_spi_hz must be 1..=12500000 (start bring-up at 1000000)"));
    }
    let firmware_ok = match &raw.expected_firmware {
        Some(version) => is_valid_version(version.as_str()),
        None => true,
    };
    if !firmware_ok {
        return Err(invalid(&raw, "expected_firmware must be 1..=16 non-blank ASCII bytes"));
    }
    let lut_ok = match &raw.expected_lut {
        Some(version) => is_valid_version(version.as_str()),
        None => true,
    };
    if !lut_ok {
        return Err(invalid(&raw, "expected_lut must be 1..=16 non-blank ASCII bytes"));
    }
    if raw.cs_line == raw.reset_line || raw.cs_line == raw.ready_line || raw.reset_line == raw.ready_line {
        return Err(invalid(&raw, "cs_line, reset_line, and ready_line must be distinct"));
    }
    if raw.ready_timeout_ms == 0 || raw.ready_poll_us == 0 || raw.reset_high_ms == 0 || raw.reset_low_ms == 0
        || raw.reset_recovery_ms == 0 {
        return Err(invalid(&raw, "all reset and ready timing fields must be non-zero"));
    }
    if raw.ready_timeout_ms > 10_000 || raw.ready_poll_us > 10_000 || raw.reset_high_ms > 5_000
        || raw.reset_low_ms > 1_000 || raw.reset_recovery_ms > 5_000 {
        return Err(invalid(&raw, "transaction/reset timing exceeds the safe setup bounds"));
    }
    let display_wait = match DisplayWait::new(raw.display_timeout_ms, raw.display_poll_ms) {
        Some(wait) => wait,
        None => return Err(invalid(&raw, "display timeout must include at least one polling interval")),
    };
    if raw.display_timeout_ms > 120_000 {
        return Err(invalid(&raw, "display timeout exceeds 120 seconds"));
    }
    let timing = Timing {
        ready_timeout: raw.ready_timeout_ms * 1_000_000,
        ready_poll_interval: raw.ready_poll_us * 1_000,
        reset_high: raw.reset_high_ms * 1_000_000,
        reset_low: raw.reset_low_ms * 1_000_000,
        reset_recovery: raw.reset_recovery_ms * 1_000_000,
    };
    Ok(PanelProfile {
        name: raw.name,
        panel_size: Size::new(raw.width, raw.height),
        rotation_degrees: raw.rotation_degrees,
        vcom,
        expected_firmware: raw.expected_firmware,
        expected_lut: raw.expected_lut,
        spi_device: raw.spi_device,
        gpio_chip: raw.gpio_chip,
        cs_line: raw.cs_line,
        reset_line: raw.reset_line,
        ready_line: raw.ready_line,
        max_spi_hz: raw.max_spi_hz,
        timing,
        display_wait,
    })
}

/// The entries of a profile file whose name is exactly `name`, in order.
pub open spec fn named(profiles: Seq<RawPanelProfile>, name: Seq<char>) -> Seq<RawPanelProfile> {
    profiles.filter(|p: RawPanelProfile| p.name@ == name)
}

proof fn lemma_named_step(profiles: Seq<RawPanelProfile>, name: Seq<char>, k: int)
    requires
        0 <= k < profiles.len(),
    ensures
        named(profiles.subrange(0, k + 1), name) == if profiles[k].name@ == name {
            named(profiles.subrange(0, k), name).push(profiles[k])
        } else {
            named(profiles.subrange(0, k), name)
        },
{
    reveal(Seq::filter);
    assert(profiles.subrange(0, k + 1).drop_last() =~= profiles.subrange(0, k));
}

/// Selects exactly one named profile among the parsed entries of a
/// profile file and validates it.
pub fn select_panel_profile(profiles: Vec<RawPanelProfile>, name: &str) -> (r: Result<PanelProfile, ProfileError>)
    ensures
        named(profiles@, name@).len() == 0 ==> (r matches Err(ProfileError::NotFound(n)) && n@ == name@),
        named(profiles@, name@).len() >= 2 ==> (r matches Err(ProfileError::DuplicateName(n)) && n@ == name@),
        named(profiles@, name@).len() == 1 ==> match profile_violation(named(profiles@, name@)[0]) {
            Some(why) => r matches Err(ProfileError::Invalid { profile, reason }) && profile@ == name@ && reason@
                == why,
            None => r matches Ok(profile) && validated(named(profiles@, name@)[0], profile),
        },
{
    let wanted = name.to_owned();
    let mut first: Option<usize> = None;
    let mut duplicate = false;
    let mut k: usize = 0;
    proof {
        reveal(Seq::filter);
        assert(profiles@.subrange(0, 0) =~= Seq::<RawPanelProfile>::empty());
    }
    while k < profiles.len()
        invariant
            k <= profiles@.len(),
            wanted@ == name@,
            match first {
                None => named(profiles@.subrange(0, k as int), name@).len() == 0,
                Some(i) => i < k && profiles@[i as int].name@ == name@ && named(
                    profiles@.subrange(0, k as int),
                    name@,
                ).len() >= 1 && named(profiles@.subrange(0, k as int), name@)[0] == profiles@[i as int],
            },
            duplicate <==> named(profiles@.subrange(0, k as int), name@).len() >= 2,
        decreases profiles@.len() - k,
    {
        proof {
            lemma_named_step(profiles@, name@, k as int);
        }
        if profiles[k].name == wanted {
            match first {
                None => {
                    first = Some(k);
                },
                Some(_) => {
                    duplicate = true;
                },
            }
        }
        k = k + 1;
    }
    proof {
        assert(profiles@.subrange(0, k as int) =~= profiles@);
    }
    let index = match first {
        None => return Err(ProfileError::NotFound(name.to_owned())),
        Some(index) => index,
    };
    if duplicate {
        return Err(ProfileError::DuplicateName(name.to_owned()));
    }
    let mut profiles = profiles;
    let raw = profiles.remove(index);
    validate_profile(raw)
}

proof fn lemma_chunk_prefix(words: Seq<u16>, n: int)
    requires
        0 <= n <= write_chunks(words).len(),
    ensures
        write_chunks(words).take(n).flatten() == be_encoding(words).subrange(
            0,
            if n * 512 <= be_encoding(words).len() {
                n * 512
            } else {
                be_encoding(words).len() as int
            },
        ),
    decreases n,
{
    let bytes = be_encoding(words);
    let chunks = write_chunks(words);
    let len = bytes.len() as int;
    let count = chunks.len() as int;
    if n == 0 {
        assert(chunks.take(0).flatten() =~= bytes.subrange(0, 0));
    } else {
        lemma_chunk_prefix(words, n - 1);
        assert((n - 1) * 512 < len) by (nonlinear_arith)
            requires
                0 <= n - 1 < count,
                count == (len + 511) / 512,
        ;
        assert(chunks.take(n) =~= chunks.take(n - 1).push(chunks[n - 1]));
        chunks.take(n - 1).lemma_flatten_push(chunks[n - 1]);
        if n * 512 <= len {
            assert(chunks.take(n).flatten() =~= bytes.subrange(0, n * 512));
        } else {
            assert(chunks.take(n).flatten() =~= bytes.subrange(0, len));
        }
    }
}

/// The bulk-write payloads of a word upload are, in order, exactly the
/// words' big-endian bytes, each payload holding 1 to
/// [`WRITE_CHUNK_BYTES`] bytes.
pub proof fn lemma_write_chunks_cover(words: Seq<u16>)
    ensures
        write_chunks(words).flatten() == be_encoding(words),
        forall|c: int|
            0 <= c < write_chunks(words).len() ==> 0 < #[trigger] write_chunks(words)[c].len() <= WRITE_CHUNK_BYTES,
{
    let bytes = be_encoding(words);
    let chunks = write_chunks(words);
    let len = bytes.len() as int;
    let count = chunks.len() as int;
    assert forall|c: int| 0 <= c < count implies 0 < #[trigger] chunks[c].len() <= WRITE_CHUNK_BYTES by {
        assert(c * 512 < len) by (nonlinear_arith)
            requires
                0 <= c < count,
                count == (len + 511) / 512,
        ;
    }
    lemma_chunk_prefix(words, count);
    assert(chunks.take(count) =~= chunks);
    if count * 512 <= len {
        assert(count * 512 == len) by (nonlinear_arith)
            requires
                count * 512 <= len,
                count == (len + 511) / 512,
                len >= 0,
        ;
    }
    assert(bytes.subrange(0, len) =~= bytes);
}

/// A script whose chip-select lifetime is one: it waits for the controller,
/// asserts chip select, and releases it only as its last step.
pub open spec fn one_selection(steps: Seq<StepView>) -> bool {
    &&& steps.len() >= 3
    &&& steps[0] == StepView::WaitReady
    &&& steps[1] == StepView::ChipSelect(false)
    &&& steps[steps.len() - 1] == StepView::ChipSelect(true)
    &&& forall|i: int| 1 < i < steps.len() - 1 ==> !(#[trigger] steps[i] is ChipSelect)
}

/// Command, bulk-write and read transactions each wait for the controller
/// before asserting chip select, and keep it asserted until their last step.
pub proof fn lemma_scripts_use_one_selection(command: u16, words: Seq<u16>, count: usize)
    ensures
        one_selection(command_script(command)),
        one_selection(write_script(words)),
        one_selection(read_script(count)),
{
    let w = write_script(words);
    let chunks = write_chunks(words);
    assert forall|i: int| 1 < i < w.len() - 1 implies !(#[trigger] w[i] is ChipSelect) by {
        if i >= 4 {
            assert(w[i] == StepView::Write(chunks[i - 4]));
        }
    }
    let r = read_script(count);
    assert forall|i: int| 1 < i < r.len() - 1 implies !(#[trigger] r[i] is ChipSelect) by {
        if i >= 6 {
            assert(r[i] == StepView::Read(2));
        }
    }
}

/// A transaction never finishes while it holds chip select asserted.
pub proof fn lemma_finished_means_released(s: TransactionView)
    requires
        s.wf(),
        s.outcome is Some,
    ensures
        !s.selected,
{
}

/// While a failure is pending, the only thing a transaction asks for is to
/// release chip select.
pub proof fn lemma_pending_failure_releases(s: TransactionView)
    requires
        s.wf(),
        s.failure is Some,
    ensures
        s.action() == ActionView::SetChipSelect(true),
{
}

/// A bus or pin failure while chip select is asserted is kept, and chip
/// select is released next.
pub proof fn lemma_failure_inside_selection_releases(s: TransactionView, e: std::io::Error)
    requires
        s.wf(),
        s.outcome is None,
        s.selected,
        s.pos < s.steps.len() - 1,
        s.action() is PollReady || s.action() is SetReset || s.action() is Write || s.action() is Read,
    ensures
        s.next(EventView::Failed(e)).failure == Some(TransportError::Io(e)),
        s.next(EventView::Failed(e)).action() == ActionView::SetChipSelect(true),
{
}

/// Releasing chip select ends the transaction with the pending failure;
/// if the release fails as well, both failures are reported.
pub proof fn lemma_release_reports_failures(s: TransactionView, pending: TransportError, e: std::io::Error)
    requires
        s.wf(),
        s.failure == Some(pending),
    ensures
        s.next(EventView::Done).outcome == Some(Err::<Seq<u16>, TransportError>(pending)),
        s.next(EventView::Failed(e)).outcome == Some(
            Err::<Seq<u16>, TransportError>(
                TransportError::TransactionAndRelease { transaction: Box::new(pending), release: e },
            ),
        ),
        !s.next(EventView::Done).selected,
        !s.next(EventView::Failed(e)).selected,
{
}

/// A ready wait that runs out of time, by the operation deadline or by the
/// ready timeout, fails the transaction; before chip select was asserted it
/// ends the transaction at once, with chip select never asserted.
pub proof fn lemma_wait_timeouts(s: TransactionView, elapsed_ns: u64, remaining_ns: Option<u64>)
    requires
        s.wf(),
        s.outcome is None,
        !s.selected,
        s.steps[s.pos] == StepView::WaitReady,
    ensures
        s.phase == WaitPhase::Deadline ==> s.next(EventView::Flag(true)).outcome == Some(
            Err::<Seq<u16>, TransportError>(TransportError::OperationTimeout),
        ),
        s.phase == WaitPhase::Clock && elapsed_ns >= s.timing.ready_timeout ==> s.next(
            EventView::Clock { elapsed_ns, remaining_ns },
        ).outcome == Some(Err::<Seq<u16>, TransportError>(TransportError::ReadyTimeout(s.timing.ready_timeout))),
        !s.next(EventView::Flag(true)).selected,
        !s.next(EventView::Clock { elapsed_ns, remaining_ns }).selected,
{
}

} // verus!
