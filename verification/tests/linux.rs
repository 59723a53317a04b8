use std::cell::RefCell;
use std::collections::VecDeque;
use std::io;
use std::path::PathBuf;
use std::rc::Rc;

use paperos::display::Size;
use paperos::linux::{
    bounded_pause, check_timing, select_panel_profile, validate_profile, Action, Event, ManualCsTransport, Pins,
    ProfileError, RawPanelProfile, SpiBus, Timing, Transaction, TransportError, MAX_AUDITED_SPI_HZ,
};

const COMMAND_PREAMBLE: [u8; 2] = [0x60, 0x00];
const WRITE_PREAMBLE: [u8; 2] = [0x00, 0x00];
const READ_PREAMBLE: [u8; 2] = [0x10, 0x00];

#[derive(Clone, Debug, Eq, PartialEq)]
enum Trace {
    SpiWrite(Vec<u8>),
    SpiRead(usize),
    ChipSelect(bool),
    Reset(bool),
    Ready,
}

struct FakeSpi {
    events: Rc<RefCell<Vec<Trace>>>,
    reads: VecDeque<u8>,
}

impl SpiBus for FakeSpi {
    fn write_all(&mut self, bytes: &[u8]) -> io::Result<()> {
        self.events.borrow_mut().push(Trace::SpiWrite(bytes.to_vec()));
        Ok(())
    }

    fn read_exact(&mut self, bytes: &mut [u8]) -> io::Result<()> {
        self.events.borrow_mut().push(Trace::SpiRead(bytes.len()));
        for byte in bytes {
            *byte = self.reads.pop_front().unwrap_or(0);
        }
        Ok(())
    }
}

struct FailingSpi {
    events: Rc<RefCell<Vec<Trace>>>,
}

impl SpiBus for FailingSpi {
    fn write_all(&mut self, bytes: &[u8]) -> io::Result<()> {
        self.events.borrow_mut().push(Trace::SpiWrite(bytes.to_vec()));
        Err(io::Error::other("injected SPI failure"))
    }

    fn read_exact(&mut self, _bytes: &mut [u8]) -> io::Result<()> {
        Err(io::Error::other("unexpected read"))
    }
}

struct FakePins {
    events: Rc<RefCell<Vec<Trace>>>,
    ready: VecDeque<bool>,
    ready_default: bool,
}

impl Pins for FakePins {
    fn set_chip_select(&mut self, high: bool) -> io::Result<()> {
        self.events.borrow_mut().push(Trace::ChipSelect(high));
        Ok(())
    }

    fn set_reset(&mut self, high: bool) -> io::Result<()> {
        self.events.borrow_mut().push(Trace::Reset(high));
        Ok(())
    }

    fn is_ready(&mut self) -> io::Result<bool> {
        self.events.borrow_mut().push(Trace::Ready);
        Ok(self.ready.pop_front().unwrap_or(self.ready_default))
    }
}

struct FailingReleasePins {
    events: Rc<RefCell<Vec<Trace>>>,
}

impl Pins for FailingReleasePins {
    fn set_chip_select(&mut self, high: bool) -> io::Result<()> {
        self.events.borrow_mut().push(Trace::ChipSelect(high));
        if high {
            Err(io::Error::other("injected CS release failure"))
        } else {
            Ok(())
        }
    }

    fn set_reset(&mut self, high: bool) -> io::Result<()> {
        self.events.borrow_mut().push(Trace::Reset(high));
        Ok(())
    }

    fn is_ready(&mut self) -> io::Result<bool> {
        self.events.borrow_mut().push(Trace::Ready);
        Ok(true)
    }
}

/// Runs transactions against fake devices and a simulated clock, as the
/// Linux host runs them against the real ones.
struct Host<S, P> {
    transport: ManualCsTransport<S, P>,
    now_ns: u64,
    wait_started_ns: u64,
    deadline_ns: Option<u64>,
}

impl<S: SpiBus, P: Pins> Host<S, P> {
    fn new(transport: ManualCsTransport<S, P>) -> Self {
        Host { transport, now_ns: 0, wait_started_ns: 0, deadline_ns: None }
    }

    fn begin_operation(&mut self, timeout_ms: u32) {
        self.deadline_ns = Some(self.now_ns + u64::from(timeout_ms) * 1_000_000);
    }

    fn end_operation(&mut self) {
        self.deadline_ns = None;
    }

    fn run(&mut self, mut transaction: Transaction) -> Result<Vec<u16>, TransportError> {
        loop {
            let action = transaction.action();
            let event = match self.transport.perform(&action) {
                Some(event) => event,
                None => match action {
                    Action::StartReadyWait => {
                        self.wait_started_ns = self.now_ns;
                        Event::Done
                    }
                    Action::CheckDeadline => {
                        Event::Flag(self.deadline_ns.is_some_and(|deadline| self.now_ns >= deadline))
                    }
                    Action::ReadClock => Event::Clock {
                        elapsed_ns: self.now_ns - self.wait_started_ns,
                        remaining_ns: self.deadline_ns.map(|deadline| deadline.saturating_sub(self.now_ns)),
                    },
                    Action::Sleep(ns) => {
                        self.now_ns += ns;
                        Event::Done
                    }
                    Action::Finished => return transaction.outcome().unwrap(),
                    _ => unreachable!(),
                },
            };
            transaction = transaction.advance(event);
        }
    }

    fn command(&mut self, command: u16) -> Result<(), TransportError> {
        let transaction = self.transport.command_transaction(command);
        self.run(transaction).map(|_| ())
    }

    fn write_words(&mut self, words: &[u16]) -> Result<(), TransportError> {
        let transaction = self.transport.write_transaction(words);
        self.run(transaction).map(|_| ())
    }

    fn read_words(&mut self, words: &mut [u16]) -> Result<(), TransportError> {
        let transaction = self.transport.read_transaction(words.len());
        let read = self.run(transaction)?;
        words.copy_from_slice(&read);
        Ok(())
    }

    fn reset(&mut self) -> Result<(), TransportError> {
        let transaction = self.transport.reset_transaction();
        self.run(transaction).map(|_| ())
    }
}

fn timing() -> Timing {
    Timing {
        ready_timeout: 5_000_000,
        ready_poll_interval: 1_000_000,
        reset_high: 1,
        reset_low: 1,
        reset_recovery: 1,
    }
}

fn transport(
    ready_states: impl IntoIterator<Item = bool>,
    read_bytes: impl IntoIterator<Item = u8>,
) -> (Host<FakeSpi, FakePins>, Rc<RefCell<Vec<Trace>>>) {
    let events = Rc::new(RefCell::new(Vec::new()));
    let spi = FakeSpi { events: Rc::clone(&events), reads: read_bytes.into_iter().collect() };
    let pins = FakePins { events: Rc::clone(&events), ready: ready_states.into_iter().collect(), ready_default: true };
    (Host::new(ManualCsTransport::new(spi, pins, timing()).unwrap()), events)
}

#[test]
fn command_keeps_manual_cs_asserted_across_ready_sync() {
    let (mut transport, events) = transport([true, false, true], []);

    transport.command(0x0302).unwrap();

    assert_eq!(
        *events.borrow(),
        vec![
            Trace::Ready,
            Trace::ChipSelect(false),
            Trace::SpiWrite(COMMAND_PREAMBLE.to_vec()),
            Trace::Ready,
            Trace::Ready,
            Trace::SpiWrite(vec![0x03, 0x02]),
            Trace::ChipSelect(true),
        ]
    );
}

#[test]
fn bulk_write_uses_one_preamble_and_one_cs_lifetime() {
    let (mut transport, events) = transport([true, true], []);

    transport.write_words(&[0x1234, 0xabcd]).unwrap();

    assert_eq!(
        *events.borrow(),
        vec![
            Trace::Ready,
            Trace::ChipSelect(false),
            Trace::SpiWrite(WRITE_PREAMBLE.to_vec()),
            Trace::Ready,
            Trace::SpiWrite(vec![0x12, 0x34, 0xab, 0xcd]),
            Trace::ChipSelect(true),
        ]
    );
}

#[test]
fn multiword_read_consumes_dummy_and_big_endian_words() {
    let (mut transport, events) = transport([true, true, true], [0xaa, 0xbb, 0x12, 0x34, 0xab, 0xcd]);
    let mut words = [0_u16; 2];

    transport.read_words(&mut words).unwrap();

    assert_eq!(words, [0x1234, 0xabcd]);
    assert_eq!(
        *events.borrow(),
        vec![
            Trace::Ready,
            Trace::ChipSelect(false),
            Trace::SpiWrite(READ_PREAMBLE.to_vec()),
            Trace::Ready,
            Trace::SpiRead(2),
            Trace::Ready,
            Trace::SpiRead(2),
            Trace::SpiRead(2),
            Trace::ChipSelect(true),
        ]
    );
}

#[test]
fn stuck_ready_pin_times_out_without_asserting_cs() {
    let events = Rc::new(RefCell::new(Vec::new()));
    let spi = FakeSpi { events: Rc::clone(&events), reads: VecDeque::new() };
    let pins = FakePins { events: Rc::clone(&events), ready: VecDeque::new(), ready_default: false };
    let mut transport = Host::new(ManualCsTransport::new(spi, pins, timing()).unwrap());

    assert!(matches!(transport.command(1), Err(TransportError::ReadyTimeout(_))));
    assert!(!events.borrow().contains(&Trace::ChipSelect(false)));
}

#[test]
fn shared_operation_deadline_preempts_the_longer_ready_timeout() {
    let events = Rc::new(RefCell::new(Vec::new()));
    let spi = FakeSpi { events: Rc::clone(&events), reads: VecDeque::new() };
    let pins = FakePins { events, ready: VecDeque::new(), ready_default: false };
    let mut transport = Host::new(ManualCsTransport::new(spi, pins, timing()).unwrap());
    transport.begin_operation(1);

    assert!(matches!(transport.command(1), Err(TransportError::OperationTimeout)));
    transport.end_operation();
}

#[test]
fn transaction_error_still_releases_manual_cs() {
    let events = Rc::new(RefCell::new(Vec::new()));
    let spi = FailingSpi { events: Rc::clone(&events) };
    let pins = FakePins { events: Rc::clone(&events), ready: VecDeque::new(), ready_default: true };
    let mut transport = Host::new(ManualCsTransport::new(spi, pins, timing()).unwrap());

    assert!(matches!(transport.command(1), Err(TransportError::Io(_))));
    assert_eq!(
        *events.borrow(),
        vec![
            Trace::Ready,
            Trace::ChipSelect(false),
            Trace::SpiWrite(COMMAND_PREAMBLE.to_vec()),
            Trace::ChipSelect(true),
        ]
    );
}

#[test]
fn transaction_and_cs_release_failures_are_both_reported() {
    let events = Rc::new(RefCell::new(Vec::new()));
    let spi = FailingSpi { events: Rc::clone(&events) };
    let pins = FailingReleasePins { events: Rc::clone(&events) };
    let mut transport = Host::new(ManualCsTransport::new(spi, pins, timing()).unwrap());

    let error = transport.command(1).unwrap_err();
    assert!(matches!(error, TransportError::TransactionAndRelease { .. }));
    assert_eq!(
        *events.borrow(),
        vec![
            Trace::Ready,
            Trace::ChipSelect(false),
            Trace::SpiWrite(COMMAND_PREAMBLE.to_vec()),
            Trace::ChipSelect(true),
        ]
    );
}

#[test]
fn reset_uses_high_low_high_sequence_then_waits_ready() {
    let (mut transport, events) = transport([true], []);

    transport.reset().unwrap();

    assert_eq!(
        *events.borrow(),
        vec![
            Trace::ChipSelect(true),
            Trace::Reset(true),
            Trace::Reset(false),
            Trace::Reset(true),
            Trace::Ready,
        ]
    );
}

#[test]
fn large_uploads_are_split_into_full_chunks_inside_one_selection() {
    let (mut transport, events) = transport([], []);
    let words: Vec<u16> = (0..300).collect();
    transport.write_words(&words).unwrap();
    let events = events.borrow();
    assert_eq!(events.iter().filter(|event| **event == Trace::ChipSelect(false)).count(), 1);
    let writes: Vec<&Vec<u8>> = events
        .iter()
        .filter_map(|event| match event {
            Trace::SpiWrite(bytes) => Some(bytes),
            _ => None,
        })
        .collect();
    assert_eq!(writes.len(), 3);
    assert_eq!(writes[0], &WRITE_PREAMBLE.to_vec());
    assert_eq!(writes[1].len(), 512);
    assert_eq!(writes[2].len(), 88);
    let sent: Vec<u16> = writes[1]
        .chunks_exact(2)
        .chain(writes[2].chunks_exact(2))
        .map(|pair| u16::from_be_bytes([pair[0], pair[1]]))
        .collect();
    assert_eq!(sent, words);
    assert_eq!(events.last(), Some(&Trace::ChipSelect(true)));
}

#[test]
fn machine_ignores_answers_to_other_actions() {
    let transaction = Transaction::command(timing(), 7);
    assert!(matches!(transaction.action(), Action::StartReadyWait));
    let transaction = transaction.advance(Event::Flag(true));
    assert!(matches!(transaction.action(), Action::StartReadyWait));
    let transaction = transaction.advance(Event::Done);
    assert!(matches!(transaction.action(), Action::CheckDeadline));
    let transaction = transaction.advance(Event::Bytes(vec![1, 2]));
    assert!(matches!(transaction.action(), Action::CheckDeadline));
    assert!(!transaction.is_finished());
}

#[test]
fn ready_sleeps_never_outlast_the_operation_deadline() {
    assert_eq!(bounded_pause(1_000, None), 1_000);
    assert_eq!(bounded_pause(1_000, Some(300)), 300);
    assert_eq!(bounded_pause(1_000, Some(5_000)), 1_000);
    let transaction = Transaction::command(timing(), 7)
        .advance(Event::Done)
        .advance(Event::Flag(false))
        .advance(Event::Flag(false))
        .advance(Event::Clock { elapsed_ns: 10, remaining_ns: Some(250) });
    assert!(matches!(transaction.action(), Action::Sleep(250)));
    let finished = Transaction::command(timing(), 7)
        .advance(Event::Done)
        .advance(Event::Flag(false))
        .advance(Event::Flag(false))
        .advance(Event::Clock { elapsed_ns: 5_000_000, remaining_ns: None });
    assert!(matches!(finished.outcome(), Some(Err(TransportError::ReadyTimeout(5_000_000)))));
}

#[test]
fn zero_durations_are_invalid_timing() {
    assert!(timing().is_valid());
    let zero = Timing { reset_low: 0, ..timing() };
    assert!(!zero.is_valid());
    assert!(matches!(check_timing(zero), Err(TransportError::InvalidTiming)));
    let events = Rc::new(RefCell::new(Vec::new()));
    let spi = FakeSpi { events: Rc::clone(&events), reads: VecDeque::new() };
    let pins = FakePins { events: Rc::clone(&events), ready: VecDeque::new(), ready_default: true };
    assert!(matches!(ManualCsTransport::new(spi, pins, zero), Err(TransportError::InvalidTiming)));
    assert!(events.borrow().is_empty());
    let spi = FakeSpi { events: Rc::clone(&events), reads: VecDeque::new() };
    let pins = FakePins { events: Rc::clone(&events), ready: VecDeque::new(), ready_default: true };
    let transport = ManualCsTransport::new(spi, pins, timing()).unwrap();
    assert_eq!(transport.timing(), timing());
    let (_spi, _pins) = transport.into_parts();
}

fn raw(name: &str) -> RawPanelProfile {
    RawPanelProfile {
        name: name.to_owned(),
        controller: "it8951".to_owned(),
        width: 1448,
        height: 1072,
        rotation_degrees: 0,
        vcom_mv: 1500,
        expected_firmware: None,
        expected_lut: None,
        spi_device: PathBuf::from("/dev/spidev0.0"),
        gpio_chip: PathBuf::from("/dev/gpiochip0"),
        cs_line: 8,
        reset_line: 17,
        ready_line: 24,
        max_spi_hz: 1_000_000,
        ready_timeout_ms: 1000,
        ready_poll_us: 100,
        reset_high_ms: 200,
        reset_low_ms: 10,
        reset_recovery_ms: 200,
        display_timeout_ms: 30000,
        display_poll_ms: 100,
    }
}

fn invalid_reason(result: Result<paperos::linux::PanelProfile, ProfileError>) -> &'static str {
    match result {
        Err(ProfileError::Invalid { reason, .. }) => reason,
        other => panic!("expected an invalid profile, got {other:?}"),
    }
}

#[test]
fn profile_requires_manual_cs_and_exact_safe_values() {
    let profile = select_panel_profile(vec![raw("desk")], "desk").unwrap();

    assert_eq!(profile.cs_line, 8);
    assert_eq!(profile.vcom.get(), 1500);
    assert_eq!(profile.panel_size, Size::new(1448, 1072));
    assert_eq!(profile.expected_firmware, None);
    assert_eq!(profile.expected_lut, None);
    assert_eq!(profile.timing.ready_timeout, 1_000_000_000);
    assert_eq!(profile.timing.ready_poll_interval, 100_000);
    assert_eq!(profile.display_wait.timeout_ms(), 30000);
}

#[test]
fn profile_rejects_duplicate_names_and_invalid_vcom() {
    let valid = RawPanelProfile { width: 4, height: 2, ..raw("desk") };
    let again = RawPanelProfile { width: 4, height: 2, ..raw("desk") };
    assert!(matches!(
        select_panel_profile(vec![valid, again], "desk"),
        Err(ProfileError::DuplicateName(name)) if name == "desk"
    ));

    let invalid = RawPanelProfile { width: 4, height: 2, vcom_mv: 0, ..raw("desk") };
    assert!(matches!(select_panel_profile(vec![invalid], "desk"), Err(ProfileError::Invalid { .. })));
}

#[test]
fn profile_pins_controller_versions_and_caps_spi_rate() {
    let pinned = || RawPanelProfile {
        expected_firmware: Some("FW6".to_owned()),
        expected_lut: Some("M641".to_owned()),
        max_spi_hz: 12_500_000,
        ..raw("desk")
    };

    let profile = select_panel_profile(vec![pinned()], "desk").unwrap();
    assert_eq!(profile.expected_firmware.as_deref(), Some("FW6"));
    assert_eq!(profile.expected_lut.as_deref(), Some("M641"));

    let too_fast = RawPanelProfile { max_spi_hz: 12_500_001, ..pinned() };
    assert!(matches!(select_panel_profile(vec![too_fast], "desk"), Err(ProfileError::Invalid { .. })));

    let blank_identity = RawPanelProfile { expected_lut: Some(" ".to_owned()), ..pinned() };
    assert!(matches!(select_panel_profile(vec![blank_identity], "desk"), Err(ProfileError::Invalid { .. })));
}

#[test]
fn missing_profiles_are_not_found_and_others_are_ignored() {
    assert!(matches!(
        select_panel_profile(vec![raw("desk"), raw("lab")], "shelf"),
        Err(ProfileError::NotFound(name)) if name == "shelf"
    ));
    let broken_other = RawPanelProfile { vcom_mv: 0, ..raw("lab") };
    let profile = select_panel_profile(vec![broken_other, raw("desk")], "desk").unwrap();
    assert_eq!(profile.name, "desk");
}

#[test]
fn every_profile_rule_has_its_reason() {
    assert_eq!(
        invalid_reason(validate_profile(RawPanelProfile { controller: "it8952".to_owned(), ..raw("a") })),
        "controller must be \"it8951\""
    );
    assert_eq!(
        invalid_reason(validate_profile(RawPanelProfile { width: 65536, ..raw("a") })),
        "dimensions must be non-zero IT8951 u16 values"
    );
    assert_eq!(
        invalid_reason(validate_profile(RawPanelProfile { vcom_mv: 5001, ..raw("a") })),
        "vcom_mv must be 1..=5000"
    );
    assert_eq!(
        invalid_reason(validate_profile(RawPanelProfile { max_spi_hz: 0, ..raw("a") })),
        "max_spi_hz must be 1..=12500000 (start bring-up at 1000000)"
    );
    assert_eq!(
        invalid_reason(validate_profile(RawPanelProfile {
            expected_firmware: Some("FIRMWARE_NAME_TOO_LONG".to_owned()),
            ..raw("a")
        })),
        "expected_firmware must be 1..=16 non-blank ASCII bytes"
    );
    assert_eq!(
        invalid_reason(validate_profile(RawPanelProfile { expected_lut: Some("M6\u{e9}".to_owned()), ..raw("a") })),
        "expected_lut must be 1..=16 non-blank ASCII bytes"
    );
    assert_eq!(
        invalid_reason(validate_profile(RawPanelProfile { ready_line: 8, ..raw("a") })),
        "cs_line, reset_line, and ready_line must be distinct"
    );
    assert_eq!(
        invalid_reason(validate_profile(RawPanelProfile { reset_low_ms: 0, ..raw("a") })),
        "all reset and ready timing fields must be non-zero"
    );
    assert_eq!(
        invalid_reason(validate_profile(RawPanelProfile { ready_poll_us: 10_001, ..raw("a") })),
        "transaction/reset timing exceeds the safe setup bounds"
    );
    assert_eq!(
        invalid_reason(validate_profile(RawPanelProfile { display_poll_ms: 30_001, ..raw("a") })),
        "display timeout must include at least one polling interval"
    );
    assert_eq!(
        invalid_reason(validate_profile(RawPanelProfile {
            display_timeout_ms: 120_001,
            ..raw("a")
        })),
        "display timeout exceeds 120 seconds"
    );
    assert!(matches!(
        validate_profile(RawPanelProfile { expected_lut: Some("a\0b".to_owned()), ..raw("a") }),
        Err(ProfileError::Invalid { profile, .. }) if profile == "a"
    ));
    assert!(validate_profile(RawPanelProfile { expected_lut: Some(" M641\t".to_owned()), ..raw("a") }).is_ok());
    assert_eq!(MAX_AUDITED_SPI_HZ, 12_500_000);
}

#[test]
fn transport_and_profile_errors_describe_themselves() {
    assert_eq!(TransportError::ReadyTimeout(1_000_000_000).message(), "IT8951 HRDY timed out after 1s");
    assert_eq!(TransportError::ReadyTimeout(1_500_000).message(), "IT8951 HRDY timed out after 1.5ms");
    assert_eq!(TransportError::OperationTimeout.message(), "IT8951 operation deadline expired");
    assert_eq!(TransportError::InvalidTiming.message(), "IT8951 timing values must be non-zero");
    assert_eq!(
        TransportError::Io(io::Error::other("pin busy")).message(),
        "Linux IT8951 I/O failed: pin busy"
    );
    let both = TransportError::TransactionAndRelease {
        transaction: Box::new(TransportError::OperationTimeout),
        release: io::Error::other("line lost"),
    };
    assert_eq!(
        both.message(),
        "IT8951 transaction failed: IT8951 operation deadline expired; manual CS release also failed: line lost"
    );

    assert_eq!(ProfileError::NotFound("desk".to_owned()).message(), "panel profile \"desk\" was not found");
    assert_eq!(
        ProfileError::DuplicateName("desk".to_owned()).message(),
        "panel profile name \"desk\" is duplicated"
    );
    assert_eq!(
        ProfileError::Invalid { profile: "desk".to_owned(), reason: "vcom_mv must be plausible" }.message(),
        "invalid panel profile \"desk\": vcom_mv must be plausible"
    );
    assert_eq!(
        ProfileError::Parse("expected `=`".to_owned()).message(),
        "invalid panel profile TOML: expected `=`"
    );
    assert_eq!(
        ProfileError::Read(io::Error::other("no such file")).message(),
        "could not read panel profiles: no such file"
    );
}

#[test]
fn io_failures_convert_into_transport_errors() {
    let error = TransportError::from(io::Error::other("bus gone"));
    assert!(matches!(&error, TransportError::Io(inner) if inner.to_string() == "bus gone"));
}
