use paperos::it8951::{poll_step, PollStep};
use paperos::display::{Display, PixelFormat, Rect, Size, UpdateConstraints, UpdateRequest, Waveform};
use paperos::it8951::{
    controller_gray4_word, Controller, DeviceInfo, DisplayWait, Error, It8951Display, LutFamily, ProbeReport,
    Transport, UpdateError, VcomMillivolts, COMMAND_DISPLAY_BUFFER_AREA, COMMAND_GET_DEVICE_INFO,
    COMMAND_LOAD_IMAGE_AREA, COMMAND_LOAD_IMAGE_END, COMMAND_REGISTER_READ, COMMAND_SLEEP, COMMAND_STANDBY,
    COMMAND_SYSTEM_RUN, COMMAND_VCOM, DEVICE_INFO_WORDS, REGISTER_DISPLAY_STATUS,
};

#[derive(Default)]
struct FakeTransport {
    operations: Vec<Operation>,
    reads: Vec<u16>,
    elapsed_ms: u32,
    deadline_ms: Option<u32>,
}

#[derive(Clone, Debug, Eq, PartialEq)]
enum Operation {
    Reset,
    Command(u16),
    Write(u16),
    WriteMany(Vec<u16>),
    Delay(u32),
}

impl Transport for FakeTransport {
    type Error = ();

    fn reset(&mut self) -> Result<(), Self::Error> {
        self.operations.push(Operation::Reset);
        Ok(())
    }

    fn command(&mut self, command: u16) -> Result<(), Self::Error> {
        self.operations.push(Operation::Command(command));
        Ok(())
    }

    fn write_word(&mut self, word: u16) -> Result<(), Self::Error> {
        self.operations.push(Operation::Write(word));
        Ok(())
    }

    fn write_words(&mut self, words: &[u16]) -> Result<(), Self::Error> {
        self.operations.push(Operation::WriteMany(words.to_vec()));
        Ok(())
    }

    fn read_words(&mut self, words: &mut [u16]) -> Result<(), Self::Error> {
        words.copy_from_slice(&self.reads[..words.len()]);
        self.reads.drain(..words.len());
        Ok(())
    }

    fn delay_ms(&mut self, milliseconds: u32) {
        self.operations.push(Operation::Delay(milliseconds));
        let remaining = self
            .deadline_ms
            .map_or(milliseconds, |deadline| deadline.saturating_sub(self.elapsed_ms));
        self.elapsed_ms = self.elapsed_ms.saturating_add(milliseconds.min(remaining));
    }

    fn begin_operation(&mut self, timeout_ms: u32) {
        self.deadline_ms = Some(self.elapsed_ms.saturating_add(timeout_ms));
    }

    fn operation_timed_out(&self) -> bool {
        self.deadline_ms.is_some_and(|deadline| self.elapsed_ms >= deadline)
    }

    fn end_operation(&mut self) {
        self.deadline_ms = None;
    }
}

/// A transport whose every transaction fails.
struct BrokenTransport;

impl Transport for BrokenTransport {
    type Error = &'static str;

    fn reset(&mut self) -> Result<(), Self::Error> {
        Err("reset failed")
    }

    fn command(&mut self, _command: u16) -> Result<(), Self::Error> {
        Err("command failed")
    }

    fn write_words(&mut self, _words: &[u16]) -> Result<(), Self::Error> {
        Err("write failed")
    }

    fn read_words(&mut self, _words: &mut [u16]) -> Result<(), Self::Error> {
        Err("read failed")
    }

    fn delay_ms(&mut self, _milliseconds: u32) {}

    fn begin_operation(&mut self, _timeout_ms: u32) {}

    fn operation_timed_out(&self) -> bool {
        false
    }

    fn end_operation(&mut self) {}
}

fn words_for_lut(lut: &[u8]) -> Vec<u16> {
    let mut bytes = [0_u8; 16];
    bytes[..lut.len()].copy_from_slice(lut);
    bytes.chunks_exact(2).map(|pair| u16::from_le_bytes([pair[0], pair[1]])).collect()
}

fn device_info(lut: &[u8]) -> DeviceInfo {
    let mut lut_version = [0_u8; 16];
    lut_version[..lut.len()].copy_from_slice(lut);
    DeviceInfo {
        panel_size: Size::new(1448, 1072),
        image_buffer_address: 0x1234_5678,
        firmware_version: [0; 16],
        lut_version,
    }
}

fn probe_report(info: DeviceInfo) -> ProbeReport {
    ProbeReport { device_info: info, current_vcom: VcomMillivolts::new(1_500).unwrap() }
}

fn words_for_device_info(info: DeviceInfo) -> Vec<u16> {
    let address = info.image_buffer_address.to_le_bytes();
    let mut words = vec![
        u16::try_from(info.panel_size.width).unwrap(),
        u16::try_from(info.panel_size.height).unwrap(),
        u16::from_le_bytes([address[0], address[1]]),
        u16::from_le_bytes([address[2], address[3]]),
    ];
    words.extend(info.firmware_version.chunks_exact(2).map(|pair| u16::from_le_bytes([pair[0], pair[1]])));
    words.extend(info.lut_version.chunks_exact(2).map(|pair| u16::from_le_bytes([pair[0], pair[1]])));
    words
}

#[test]
fn probe_reads_vcom_without_writing_it() {
    let mut reads = vec![1448, 1072, 0x1234, 0x5678, 0x3646, 0, 0, 0, 0, 0, 0, 0];
    reads.extend(words_for_lut(b"M641"));
    reads.push(1_400);
    let transport = FakeTransport { reads, ..FakeTransport::default() };
    let mut controller = Controller::new(transport);

    let report = controller.probe().unwrap();
    let transport = controller.into_transport();

    assert_eq!(report.device_info.panel_size, Size::new(1448, 1072));
    assert_eq!(report.current_vcom.get(), 1_400);
    assert_eq!(
        transport.operations,
        vec![
            Operation::Reset,
            Operation::Command(COMMAND_SYSTEM_RUN),
            Operation::Command(COMMAND_GET_DEVICE_INFO),
            Operation::Command(COMMAND_VCOM),
            Operation::Write(0),
        ]
    );
}

#[test]
fn literal_controller_words_decode_lut_byte_order() {
    let mut words = [0_u16; DEVICE_INFO_WORDS];
    words[0] = 1448;
    words[1] = 1072;
    words[12] = 0x364d;
    words[13] = 0x3134;

    assert_eq!(DeviceInfo::from_words(&words).lut_family(), LutFamily::M641);
}

#[test]
fn device_info_rejects_unusable_image_buffer_addresses() {
    for address in [0, 1, u32::MAX - 1] {
        let info = DeviceInfo { image_buffer_address: address, ..device_info(b"M641") };
        let transport = FakeTransport { reads: words_for_device_info(info), ..FakeTransport::default() };
        let mut controller = Controller::new(transport);

        assert_eq!(controller.device_info(), Err(Error::InvalidImageBufferAddress(address)));
    }
}

#[test]
fn setting_vcom_is_a_separate_explicit_operation() {
    let transport = FakeTransport { reads: vec![1_500], ..FakeTransport::default() };
    let mut controller = Controller::new(transport);
    controller.set_vcom(VcomMillivolts::new(1_500).unwrap()).unwrap();
    assert_eq!(
        controller.into_transport().operations,
        vec![
            Operation::Command(COMMAND_VCOM),
            Operation::Write(1),
            Operation::Write(1_500),
            Operation::Command(COMMAND_VCOM),
            Operation::Write(0),
        ]
    );
}

#[test]
fn setting_vcom_fails_when_readback_does_not_match() {
    let transport = FakeTransport { reads: vec![1_400], ..FakeTransport::default() };
    let mut controller = Controller::new(transport);
    let requested = VcomMillivolts::new(1_500).unwrap();

    assert_eq!(
        controller.set_vcom(requested),
        Err(Error::VcomMismatch { requested, observed: VcomMillivolts::new(1_400).unwrap() })
    );
}

#[test]
fn six_inch_lut_families_both_require_alignment() {
    for (name, family, mode) in [
        (b"M641".as_slice(), LutFamily::M641, 4),
        (b"M841_TFAB512".as_slice(), LutFamily::M841Tfab512, 6),
    ] {
        let info = device_info(name);
        assert_eq!(info.lut_family(), family);
        assert_eq!(info.fast_monochrome_mode(), Some(mode));
        assert_eq!(info.fast_monochrome_constraints().unwrap(), UpdateConstraints::new(32, 1, 32, 1).unwrap());
    }
}

#[test]
fn unknown_lut_does_not_advertise_or_guess_fast_mode() {
    let info = device_info(b"FUTURE_UNKNOWN");
    assert_eq!(info.lut_family(), LutFamily::Unknown);
    assert_eq!(info.fast_monochrome_mode(), None);
    assert_eq!(info.fast_monochrome_constraints(), None);
}

#[test]
fn vcom_must_be_explicit_and_plausible() {
    assert_eq!(VcomMillivolts::new(0), None);
    assert_eq!(VcomMillivolts::new(5_001), None);
    assert_eq!(VcomMillivolts::new(1_500).unwrap().get(), 1_500);
}

#[test]
fn packed_gray4_full_update_uses_one_bulk_transaction() {
    let info = device_info(b"M641");
    let pixels = [0x01, 0x23, 0x45, 0x67];

    let small = DeviceInfo { panel_size: Size::new(4, 2), image_buffer_address: 0x1234_5678, ..info };
    let transport = FakeTransport { reads: vec![0, 0], ..FakeTransport::default() };
    let mut display =
        It8951Display::new(Controller::new(transport), probe_report(small), DisplayWait::new(3, 1).unwrap());
    display
        .update(UpdateRequest {
            region: Rect::from_size(small.panel_size),
            pixel_format: PixelFormat::Gray4,
            stride_bytes: 2,
            pixels: &pixels,
            waveform: Waveform::Initialize,
        })
        .unwrap();
    let operations = display.into_controller().into_transport().operations;

    let load_command = operations
        .iter()
        .position(|operation| *operation == Operation::Command(COMMAND_LOAD_IMAGE_AREA))
        .unwrap();
    assert_eq!(
        &operations[load_command + 1..load_command + 8],
        &[
            Operation::Write(0x20),
            Operation::Write(0),
            Operation::Write(0),
            Operation::Write(4),
            Operation::Write(2),
            Operation::WriteMany(vec![0x3210, 0x7654]),
            Operation::Command(COMMAND_LOAD_IMAGE_END),
        ]
    );
    let display_command = operations
        .iter()
        .position(|operation| *operation == Operation::Command(COMMAND_DISPLAY_BUFFER_AREA))
        .unwrap();
    assert_eq!(
        &operations[display_command + 1..display_command + 8],
        &[
            Operation::Write(0),
            Operation::Write(0),
            Operation::Write(4),
            Operation::Write(2),
            Operation::Write(0),
            Operation::Write(0x5678),
            Operation::Write(0x1234),
        ]
    );
}

#[test]
fn gray4_adapter_matches_controller_pixel_numbering() {
    assert_eq!(controller_gray4_word(0x01, 0x23), 0x3210);
}

#[test]
fn gray8_is_not_advertised_or_executed_by_the_physical_backend() {
    let info = DeviceInfo { panel_size: Size::new(4, 1), image_buffer_address: 0x1234_5678, ..device_info(b"M641") };
    let transport = FakeTransport::default();
    let mut display =
        It8951Display::new(Controller::new(transport), probe_report(info), DisplayWait::new(3, 1).unwrap());

    assert!(display.capabilities().profile(PixelFormat::Gray8, Waveform::Grayscale).is_none());
    assert_eq!(
        display.update(UpdateRequest {
            region: Rect::from_size(info.panel_size),
            pixel_format: PixelFormat::Gray8,
            stride_bytes: 4,
            pixels: &[0, 64, 128, 255],
            waveform: Waveform::Grayscale,
        }),
        Err(Error::InvalidUpdate(UpdateError::UnsupportedProfile))
    );
    assert!(display.into_controller().into_transport().operations.is_empty());
}

#[test]
fn display_busy_polling_is_bounded() {
    let info = DeviceInfo { panel_size: Size::new(4, 1), ..device_info(b"M641") };
    let transport = FakeTransport { reads: vec![1, 1, 1], ..FakeTransport::default() };
    let mut display =
        It8951Display::new(Controller::new(transport), probe_report(info), DisplayWait::new(14, 7).unwrap());

    assert_eq!(
        display.update(UpdateRequest {
            region: Rect::from_size(info.panel_size),
            pixel_format: PixelFormat::Gray4,
            stride_bytes: 2,
            pixels: &[255; 2],
            waveform: Waveform::Grayscale,
        }),
        Err(Error::DisplayTimeout)
    );
    assert_eq!(
        display.into_controller().into_transport().operations,
        vec![
            Operation::Command(COMMAND_REGISTER_READ),
            Operation::Write(REGISTER_DISPLAY_STATUS),
            Operation::Delay(7),
            Operation::Command(COMMAND_REGISTER_READ),
            Operation::Write(REGISTER_DISPLAY_STATUS),
            Operation::Delay(7),
        ]
    );
}

#[test]
fn wake_resets_reprobes_and_revalidates_identity_and_vcom() {
    let info = device_info(b"M641");
    let mut reads = words_for_device_info(info);
    reads.push(1_500);
    let transport = FakeTransport { reads, ..FakeTransport::default() };
    let mut display =
        It8951Display::new(Controller::new(transport), probe_report(info), DisplayWait::new(3, 1).unwrap());

    display.sleep().unwrap();
    display.wake().unwrap();

    let operations = display.into_controller().into_transport().operations;
    assert!(operations.contains(&Operation::Reset));
    assert!(operations.contains(&Operation::Command(COMMAND_GET_DEVICE_INFO)));
    assert!(operations.contains(&Operation::Command(COMMAND_VCOM)));
}

#[test]
fn wake_reapplies_expected_vcom_after_reprobe() {
    let info = device_info(b"M641");
    let mut reads = words_for_device_info(info);
    reads.push(1_400);
    reads.push(1_500);
    let transport = FakeTransport { reads, ..FakeTransport::default() };
    let mut display =
        It8951Display::new(Controller::new(transport), probe_report(info), DisplayWait::new(3, 1).unwrap());

    display.wake().unwrap();
    let operations = display.into_controller().into_transport().operations;
    assert!(operations.windows(4).any(|window| {
        window
            == [
                Operation::Command(COMMAND_VCOM),
                Operation::Write(1),
                Operation::Write(1_500),
                Operation::Command(COMMAND_VCOM),
            ]
    }));
}

#[test]
fn wake_rejects_changed_identity_before_writing_vcom() {
    let expected = device_info(b"M641");
    let observed = DeviceInfo { image_buffer_address: 0x1234_567a, ..expected };
    let mut reads = words_for_device_info(observed);
    reads.push(1_400);
    let transport = FakeTransport { reads, ..FakeTransport::default() };
    let mut display =
        It8951Display::new(Controller::new(transport), probe_report(expected), DisplayWait::new(3, 1).unwrap());

    assert!(matches!(display.wake(), Err(Error::DeviceChanged { .. })));
    let operations = display.into_controller().into_transport().operations;
    assert!(!operations
        .windows(2)
        .any(|window| { window == [Operation::Command(COMMAND_VCOM), Operation::Write(1)] }));
}

#[test]
fn odd_packed_row_is_rejected_before_transport() {
    let info = DeviceInfo { panel_size: Size::new(2, 1), ..device_info(b"M641") };
    let transport = FakeTransport::default();
    let mut display =
        It8951Display::new(Controller::new(transport), probe_report(info), DisplayWait::new(1, 1).unwrap());

    assert_eq!(
        display.update(UpdateRequest {
            region: Rect::from_size(info.panel_size),
            pixel_format: PixelFormat::Gray4,
            stride_bytes: 1,
            pixels: &[0xff],
            waveform: Waveform::Initialize,
        }),
        Err(Error::InvalidUpdate(UpdateError::OddRowBytes))
    );
    assert!(display.into_controller().into_transport().operations.is_empty());
}

#[test]
fn partial_and_short_requests_are_rejected_before_transport() {
    let info = DeviceInfo { panel_size: Size::new(4, 2), ..device_info(b"M641") };
    let mut display = It8951Display::new(
        Controller::new(FakeTransport::default()),
        probe_report(info),
        DisplayWait::new(3, 1).unwrap(),
    );
    let request = |region, stride_bytes, pixels| UpdateRequest {
        region,
        pixel_format: PixelFormat::Gray4,
        stride_bytes,
        pixels,
        waveform: Waveform::Grayscale,
    };
    assert_eq!(
        display.update(request(Rect::new(0, 0, 4, 1), 2, &[0; 4])),
        Err(Error::InvalidUpdate(UpdateError::FullScreenOnly))
    );
    assert_eq!(
        display.update(request(Rect::new(0, 0, 4, 2), 1, &[0; 4])),
        Err(Error::InvalidUpdate(UpdateError::ShortStride))
    );
    assert_eq!(
        display.update(request(Rect::new(0, 0, 4, 2), 2, &[0; 3])),
        Err(Error::InvalidUpdate(UpdateError::ShortBuffer))
    );
    assert!(display.into_controller().into_transport().operations.is_empty());
    assert_eq!(UpdateError::ShortBuffer.message(), "update pixel buffer does not contain every source row");
}

#[test]
fn controller_power_commands_are_single_transactions() {
    let mut controller = Controller::new(FakeTransport::default());
    controller.wake().unwrap();
    controller.standby().unwrap();
    controller.sleep().unwrap();
    assert_eq!(
        controller.into_transport().operations,
        vec![
            Operation::Command(COMMAND_SYSTEM_RUN),
            Operation::Command(COMMAND_STANDBY),
            Operation::Command(COMMAND_SLEEP),
        ]
    );
}

#[test]
fn transport_failures_are_reported_as_transport_errors() {
    let mut controller = Controller::new(BrokenTransport);
    assert_eq!(controller.probe(), Err(Error::Transport("reset failed")));
    assert_eq!(controller.vcom(), Err(Error::Transport("command failed")));
    assert_eq!(controller.device_info(), Err(Error::Transport("command failed")));
}

#[test]
fn implausible_vcom_and_empty_panels_are_refused() {
    let transport = FakeTransport { reads: vec![6_000], ..FakeTransport::default() };
    let mut controller = Controller::new(transport);
    assert_eq!(controller.vcom(), Err(Error::InvalidVcomResponse));

    let empty = DeviceInfo { panel_size: Size::new(0, 1072), ..device_info(b"M641") };
    let transport = FakeTransport { reads: words_for_device_info(empty), ..FakeTransport::default() };
    let mut controller = Controller::new(transport);
    assert_eq!(controller.device_info(), Err(Error::InvalidDeviceInfo));
}

#[test]
fn display_waits_are_bounded_and_vcom_magnitudes_are_kept() {
    assert_eq!(DisplayWait::new(0, 1), None);
    assert_eq!(DisplayWait::new(5, 6), None);
    assert_eq!(DisplayWait::new(5, 0), None);
    let wait = DisplayWait::new(30_000, 50).unwrap();
    assert_eq!(wait.timeout_ms(), 30_000);
    assert_eq!(wait.poll_delay_ms(), 50);
    assert_eq!(VcomMillivolts::new(5_000).unwrap().get(), 5_000);
}

#[test]
fn controller_errors_render_addresses_and_vcom_values() {
    let error: Error<&str> = Error::InvalidImageBufferAddress(0x1234);
    assert_eq!(error.message(""), "IT8951 returned an invalid image-buffer address 0x00001234");
    let error: Error<&str> = Error::InvalidImageBufferAddress(0xdead_beef);
    assert_eq!(error.message(""), "IT8951 returned an invalid image-buffer address 0xdeadbeef");
    let error: Error<&str> = Error::VcomMismatch {
        requested: VcomMillivolts::new(1_500).unwrap(),
        observed: VcomMillivolts::new(1_400).unwrap(),
    };
    assert_eq!(error.message(""), "IT8951 VCOM verification failed: requested 1500 mV, observed 1400 mV");
    let error: Error<&str> = Error::InvalidUpdate(UpdateError::OddRowBytes);
    assert_eq!(error.message(""), "invalid IT8951 update: encoded IT8951 rows must contain an even number of bytes");
    let error: Error<&str> = Error::Transport("bus stuck");
    assert_eq!(error.message("bus stuck"), "IT8951 transport error: bus stuck");
}

#[test]
fn display_polls_decide_from_status_and_deadline() {
    assert_eq!(poll_step(0, false), PollStep::Idle);
    assert_eq!(poll_step(0, true), PollStep::Idle);
    assert_eq!(poll_step(1, true), PollStep::TimedOut);
    assert_eq!(poll_step(1, false), PollStep::Again);
}
