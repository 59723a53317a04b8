//! Fail-closed rules of the hardware bring-up diagnostic: explicit opt-ins,
//! pinned controller identity, bounded holds, full-page checks, the Gray4
//! calibration page, and the controller sessions that show a page and clean
//! the panel to white, each of which ends by asking the controller to sleep.

use vstd::prelude::*;
use vstd::string::StringExecFns;
use vstd::string::StringSliceAdditionalSpecFns;
use crate::rendering::{debug_quoted, debug_text, decimal_text, push_decimal, utf8_lossy, utf8_lossy_text};
use crate::display::{Display, PixelFormat, Rect, Size, UpdateRequest, Waveform, rect};
use crate::it8951::{upload_outcome, wait_log};
use crate::it8951::{
    COMMAND_SLEEP, Controller, Error, It8951Display, ProbeReport, Transport, TransportOp, transport_failed, vcom_read_ops,
    vcom_write_ops, version_equals, version_text,
};
use crate::graphics::{Framebuffer, Rotation, rotate};
use crate::linux::PanelProfile;

verus! {

/// Longest calibration hold, in seconds.
pub const MAX_HOLD_SECONDS: u64 = 120;

/// Interval at which a hold checks for interruption, in nanoseconds.
pub const HOLD_POLL_NS: u64 = 100_000_000;

/// Which pinned controller identity a check concerns.
#[derive(Clone, Copy, Debug, PartialEq, Eq, Structural)]
pub enum VersionField {
    Firmware,
    Lut,
}

impl VersionField {
    pub open spec fn spec_label(self) -> Seq<char> {
        match self {
            VersionField::Firmware => "firmware"@,
            VersionField::Lut => "LUT"@,
        }
    }

    /// The field's name in messages.
    pub fn label(self) -> (r: &'static str)
        ensures
            r@ == self.spec_label(),
    {
        match self {
            VersionField::Firmware => "firmware",
            VersionField::Lut => "LUT",
        }
    }
}

/// A full-screen page that a refresh command shows.
#[derive(Clone, Copy, Debug, PartialEq, Eq, Structural)]
pub enum ObservedPage {
    /// The Gray4 calibration page.
    Calibration,
    /// The typography specimen.
    Specimen,
}

impl ObservedPage {
    pub open spec fn spec_label(self) -> Seq<char> {
        match self {
            ObservedPage::Calibration => "calibration"@,
            ObservedPage::Specimen => "specimen"@,
        }
    }

    /// The page's name in messages.
    pub fn label(self) -> (r: &'static str)
        ensures
            r@ == self.spec_label(),
    {
        match self {
            ObservedPage::Calibration => "calibration",
            ObservedPage::Specimen => "specimen",
        }
    }
}

/// A refusal of the bring-up diagnostic.
#[derive(Debug)]
pub enum BringupError {
    /// Opening hardware was not explicitly allowed.
    HardwareNotAllowed,
    /// Changing VCOM was not explicitly allowed.
    VcomWriteNotAllowed,
    /// A visible refresh of `page` was not explicitly allowed.
    RefreshNotAllowed { page: ObservedPage },
    /// The requested hold exceeds [`MAX_HOLD_SECONDS`].
    HoldTooLong,
    /// A shutdown signal arrived while the page was held.
    HoldInterrupted,
    /// A shutdown signal arrived during a hardware operation.
    OperationInterrupted,
    /// The profile does not pin both firmware and LUT identities.
    IdentityNotPinned,
    /// The probed panel has other dimensions than the profile.
    PanelMismatch { probed: Size, expected: Size },
    /// A probed identity string differs from the pinned one.
    VersionMismatch { field: VersionField, observed: Vec<u8>, expected: String },
    /// The panel width cannot be encoded in the requested format.
    FormatTooWide,
    /// The page stride is not its packed row length.
    StrideMismatch,
    /// The page size does not fit in memory.
    PageTooLarge,
    /// The page has another length than its geometry.
    PageLength { actual: usize, expected: usize },
    /// The calibration width cannot be encoded as Gray4.
    CalibrationTooWide,
    /// Calibration needs non-empty dimensions and an even packed row.
    CalibrationGeometry,
    /// The calibration page size does not fit in memory.
    CalibrationTooLarge,
    /// The profile's rotation is not a right angle.
    InvalidRotation,
    /// The rotated page does not have the panel's native size.
    RotationMismatch { degrees: u16, rotated: Size, expected: Size },
}

pub open spec fn error_text(e: BringupError) -> Seq<char> {
    match e {
        BringupError::HardwareNotAllowed => "physical access requires the explicit --allow-hardware flag"@,
        BringupError::VcomWriteNotAllowed => "VCOM mutation requires the explicit --allow-vcom-write flag"@,
        BringupError::RefreshNotAllowed { page } => page.spec_label() + " requires the explicit --allow-refresh flag"@,
        BringupError::HoldTooLong => "--hold-seconds must be at most "@ + decimal_text(MAX_HOLD_SECONDS as nat),
        BringupError::HoldInterrupted =>
            "calibration interrupted; controller is asleep and the calibration page remains visible"@,
        BringupError::OperationInterrupted => "hardware operation interrupted; controller sleep was requested"@,
        BringupError::IdentityNotPinned =>
            "this operation requires expected_firmware and expected_lut copied from a successful probe"@,
        BringupError::PanelMismatch { probed, expected } => "probed panel is "@ + decimal_text(probed.width as nat)
            + "×"@ + decimal_text(probed.height as nat) + ", but profile expects "@ + decimal_text(
            expected.width as nat,
        ) + "×"@ + decimal_text(expected.height as nat),
        BringupError::VersionMismatch { field, observed, expected } => "probed "@ + field.spec_label() + " is "@
            + debug_text(utf8_lossy_text(observed@)) + ", but profile expects "@ + debug_text(expected@)
            + "; refusing to refresh"@,
        BringupError::FormatTooWide => "panel width cannot represent the requested format"@,
        BringupError::StrideMismatch => "page stride does not match its packed width"@,
        BringupError::PageTooLarge => "page buffer size overflow"@,
        BringupError::PageLength { actual, expected } => "page contains "@ + decimal_text(actual as nat)
            + " bytes, expected "@ + decimal_text(expected as nat),
        BringupError::CalibrationTooWide => "calibration width overflow"@,
        BringupError::CalibrationGeometry =>
            "calibration requires non-empty dimensions with four-pixel row alignment"@,
        BringupError::CalibrationTooLarge => "calibration buffer size overflow"@,
        BringupError::InvalidRotation => "panel profile contains an invalid rotation"@,
        BringupError::RotationMismatch { degrees, rotated, expected } => "specimen rotated by "@ + decimal_text(
            degrees as nat,
        ) + " degrees is "@ + decimal_text(rotated.width as nat) + "×"@ + decimal_text(rotated.height as nat)
            + ", but the profile expects "@ + decimal_text(expected.width as nat) + "×"@ + decimal_text(
            expected.height as nat,
        ),
    }
}

impl BringupError {
    /// A human-readable description of the refusal.
    pub fn message(&self) -> (r: String)
        ensures
            r@ == error_text(*self),
    {
        match self {
            BringupError::HardwareNotAllowed => String::from_str(
                "physical access requires the explicit --allow-hardware flag",
            ),
            BringupError::VcomWriteNotAllowed => String::from_str(
                "VCOM mutation requires the explicit --allow-vcom-write flag",
            ),
            BringupError::RefreshNotAllowed { page } => {
                let mut text = String::from_str(page.label());
                text.append(" requires the explicit --allow-refresh flag");
                text
            },
            BringupError::HoldTooLong => {
                let mut text = String::from_str("--hold-seconds must be at most ");
                push_decimal(&mut text, MAX_HOLD_SECONDS);
                text
            },
            BringupError::HoldInterrupted => String::from_str(
                "calibration interrupted; controller is asleep and the calibration page remains visible",
            ),
            BringupError::OperationInterrupted => String::from_str(
                "hardware operation interrupted; controller sleep was requested",
            ),
            BringupError::IdentityNotPinned => String::from_str(
                "this operation requires expected_firmware and expected_lut copied from a successful probe",
            ),
            BringupError::PanelMismatch { probed, expected } => {
                let mut text = String::from_str("probed panel is ");
                push_decimal(&mut text, probed.width as u64);
                text.append("×");
                push_decimal(&mut text, probed.height as u64);
                text.append(", but profile expects ");
                push_decimal(&mut text, expected.width as u64);
                text.append("×");
                push_decimal(&mut text, expected.height as u64);
                text
            },
            BringupError::VersionMismatch { field, observed, expected } => {
                let mut text = String::from_str("probed ");
                text.append(field.label());
                text.append(" is ");
                let observed_text = utf8_lossy(observed.as_slice());
                let quoted = debug_quoted(observed_text.as_str());
                text.append(quoted.as_str());
                text.append(", but profile expects ");
                let quoted = debug_quoted(expected.as_str());
                text.append(quoted.as_str());
                text.append("; refusing to refresh");
                text
            },
            BringupError::FormatTooWide => String::from_str("panel width cannot represent the requested format"),
            BringupError::StrideMismatch => String::from_str("page stride does not match its packed width"),
            BringupError::PageTooLarge => String::from_str("page buffer size overflow"),
            BringupError::PageLength { actual, expected } => {
                let mut text = String::from_str("page contains ");
                push_decimal(&mut text, *actual as u64);
                text.append(" bytes, expected ");
                push_decimal(&mut text, *expected as u64);
                text
            },
            BringupError::CalibrationTooWide => String::from_str("calibration width overflow"),
            BringupError::CalibrationGeometry => String::from_str(
                "calibration requires non-empty dimensions with four-pixel row alignment",
            ),
            BringupError::CalibrationTooLarge => String::from_str("calibration buffer size overflow"),
            BringupError::InvalidRotation => String::from_str("panel profile contains an invalid rotation"),
            BringupError::RotationMismatch { degrees, rotated, expected } => {
                let mut text = String::from_str("specimen rotated by ");
                push_decimal(&mut text, *degrees as u64);
                text.append(" degrees is ");
                push_decimal(&mut text, rotated.width as u64);
                text.append("×");
                push_decimal(&mut text, rotated.height as u64);
                text.append(", but the profile expects ");
                push_decimal(&mut text, expected.width as u64);
                text.append("×");
                push_decimal(&mut text, expected.height as u64);
                text
            },
        }
    }
}

/// The refusal reported when a shutdown signal interrupts a hardware
/// operation; the controller is put to sleep before it is returned.
pub fn interruption_error() -> (r: BringupError)
    ensures
        r is OperationInterrupted,
{
    BringupError::OperationInterrupted
}

/// Refuses a hold longer than [`MAX_HOLD_SECONDS`].
pub fn validate_hold_seconds(seconds: u64) -> (r: Result<(), BringupError>)
    ensures
        r is Ok <==> seconds <= MAX_HOLD_SECONDS,
        r matches Err(e) ==> e is HoldTooLong,
{
    if seconds <= MAX_HOLD_SECONDS {
        Ok(())
    } else {
        Err(BringupError::HoldTooLong)
    }
}

/// Refuses to open hardware without `--allow-hardware`.
pub fn require_hardware_opt_in(allow_hardware: bool) -> (r: Result<(), BringupError>)
    ensures
        r is Ok <==> allow_hardware,
        r matches Err(e) ==> e is HardwareNotAllowed,
{
    if allow_hardware {
        Ok(())
    } else {
        Err(BringupError::HardwareNotAllowed)
    }
}

/// Refuses to change VCOM without `--allow-vcom-write`.
pub fn require_vcom_authorization(allow_write: bool) -> (r: Result<(), BringupError>)
    ensures
        r is Ok <==> allow_write,
        r matches Err(e) ==> e is VcomWriteNotAllowed,
{
    if !allow_write {
        return Err(BringupError::VcomWriteNotAllowed);
    }
    Ok(())
}

/// Refuses a visible refresh of `page` without `--allow-refresh`.
pub fn require_refresh_opt_in(page: ObservedPage, allow_refresh: bool) -> (r: Result<(), BringupError>)
    ensures
        r is Ok <==> allow_refresh,
        r matches Err(e) ==> e == (BringupError::RefreshNotAllowed { page }),
{
    if allow_refresh {
        Ok(())
    } else {
        Err(BringupError::RefreshNotAllowed { page })
    }
}

/// A bring-up command with the opt-ins given on its command line.
#[derive(Clone, Copy, Debug)]
pub enum CommandRequest {
    /// Starts without opening any device.
    SelfTest,
    /// Reads identity and VCOM, then sleeps.
    Probe { allow_hardware: bool },
    /// Applies the profile VCOM for one session.
    SetVcom { allow_hardware: bool, allow_vcom_write: bool },
    /// Shows `page`, holds it, and cleans the panel to white.
    Refresh {
        page: ObservedPage,
        allow_hardware: bool,
        allow_vcom_write: bool,
        allow_refresh: bool,
        hold_seconds: u64,
    },
}

/// What an admitted command goes on to do.
#[derive(Clone, Copy, Debug, PartialEq, Eq, Structural)]
pub enum Admission {
    /// Nothing is opened.
    NoDevices,
    /// The named panel profile is loaded and its controller opened;
    /// `pinned_identity` tells whether the profile must pin both identities.
    Hardware { pinned_identity: bool },
}

/// The answer to a command request: the first missing opt-in, in the
/// order hardware, refresh, VCOM write, hold bound; else what it may do.
pub open spec fn admission(request: CommandRequest) -> Result<Admission, BringupError> {
    match request {
        CommandRequest::SelfTest => Ok(Admission::NoDevices),
        CommandRequest::Probe { allow_hardware } => if !allow_hardware {
            Err(BringupError::HardwareNotAllowed)
        } else {
            Ok(Admission::Hardware { pinned_identity: false })
        },
        CommandRequest::SetVcom { allow_hardware, allow_vcom_write } => if !allow_hardware {
            Err(BringupError::HardwareNotAllowed)
        } else if !allow_vcom_write {
            Err(BringupError::VcomWriteNotAllowed)
        } else {
            Ok(Admission::Hardware { pinned_identity: true })
        },
        CommandRequest::Refresh { page, allow_hardware, allow_vcom_write, allow_refresh, hold_seconds } =>
            if !allow_hardware {
            Err(BringupError::HardwareNotAllowed)
        } else if !allow_refresh {
            Err(BringupError::RefreshNotAllowed { page })
        } else if !allow_vcom_write {
            Err(BringupError::VcomWriteNotAllowed)
        } else if hold_seconds > MAX_HOLD_SECONDS {
            Err(BringupError::HoldTooLong)
        } else {
            Ok(Admission::Hardware { pinned_identity: true })
        },
    }
}

/// Checks a command's opt-ins before any profile is read or device opened.
pub fn admit_command(request: CommandRequest) -> (r: Result<Admission, BringupError>)
    ensures
        r == admission(request),
{
    match request {
        CommandRequest::SelfTest => Ok(Admission::NoDevices),
        CommandRequest::Probe { allow_hardware } => {
            match require_hardware_opt_in(allow_hardware) {
                Ok(()) => {},
                Err(e) => return Err(e),
            }
            Ok(Admission::Hardware { pinned_identity: false })
        },
        CommandRequest::SetVcom { allow_hardware, allow_vcom_write } => {
            match require_hardware_opt_in(allow_hardware) {
                Ok(()) => {},
                Err(e) => return Err(e),
            }
            match require_vcom_authorization(allow_vcom_write) {
                Ok(()) => {},
                Err(e) => return Err(e),
            }
            Ok(Admission::Hardware { pinned_identity: true })
        },
        CommandRequest::Refresh { page, allow_hardware, allow_vcom_write, allow_refresh, hold_seconds } => {
            match require_hardware_opt_in(allow_hardware) {
                Ok(()) => {},
                Err(e) => return Err(e),
            }
            match require_refresh_opt_in(page, allow_refresh) {
                Ok(()) => {},
                Err(e) => return Err(e),
            }
            match require_vcom_authorization(allow_vcom_write) {
                Ok(()) => {},
                Err(e) => return Err(e),
            }
            match validate_hold_seconds(hold_seconds) {
                Ok(()) => {},
                Err(e) => return Err(e),
            }
            Ok(Admission::Hardware { pinned_identity: true })
        },
    }
}

/// Refuses operations whose profile does not pin both identities.
pub fn require_pinned_identity(profile: &PanelProfile) -> (r: Result<(), BringupError>)
    ensures
        r is Ok <==> profile.expected_firmware is Some && profile.expected_lut is Some,
        r matches Err(e) ==> e is IdentityNotPinned,
{
    if profile.expected_firmware.is_none() || profile.expected_lut.is_none() {
        Err(BringupError::IdentityNotPinned)
    } else {
        Ok(())
    }
}

/// Whether a probed identity field differs from its pinned value.
pub open spec fn version_mismatch(expected: Option<String>, observed: [u8; 16]) -> bool {
    expected matches Some(text) && version_text(observed@) != vstd::utf8::encode_utf8(text@)
}

/// Compares a probed identity field with its pinned value, if any.
pub fn verify_version(field: VersionField, expected: Option<&str>, observed: &[u8; 16]) -> (r: Result<
    (),
    BringupError,
>)
    ensures
        match expected {
            None => r is Ok,
            Some(text) => if version_text(observed@) == text.spec_bytes() {
                r is Ok
            } else {
                r matches Err(BringupError::VersionMismatch { field: f, observed: o, expected: e }) && f == field
                    && o@ == version_text(observed@) && e@ == text@
            },
        },
{
    let expected = match expected {
        Some(text) => text,
        None => return Ok(()),
    };
    if version_equals(observed, expected.as_bytes()) {
        Ok(())
    } else {
        Err(BringupError::VersionMismatch { field, observed: version_bytes(observed), expected: expected.to_owned() })
    }
}

fn option_str(value: &Option<String>) -> (r: Option<&str>)
    ensures
        match value {
            Some(s) => r matches Some(t) && t@ == s@,
            None => r is None,
        },
{
    match value {
        Some(s) => Some(s.as_str()),
        None => None,
    }
}

/// Checks a probe against the profile's panel size and pinned identities.
pub fn verify_probe_identity(profile: &PanelProfile, report: &ProbeReport) -> (r: Result<(), BringupError>)
    ensures
        if report.device_info.panel_size != profile.panel_size {
            r matches Err(BringupError::PanelMismatch { probed, expected }) && probed
                == report.device_info.panel_size && expected == profile.panel_size
        } else if version_mismatch(profile.expected_firmware, report.device_info.firmware_version) {
            r matches Err(BringupError::VersionMismatch { field, observed, expected }) && field
                == VersionField::Firmware && observed@ == version_text(report.device_info.firmware_version@)
                && expected@ == profile.expected_firmware->0@
        } else if version_mismatch(profile.expected_lut, report.device_info.lut_version) {
            r matches Err(BringupError::VersionMismatch { field, observed, expected }) && field == VersionField::Lut
                && observed@ == version_text(report.device_info.lut_version@) && expected@
                == profile.expected_lut->0@
        } else {
            r is Ok
        },
{
    if report.device_info.panel_size != profile.panel_size {
        return Err(
            BringupError::PanelMismatch { probed: report.device_info.panel_size, expected: profile.panel_size },
        );
    }
    match verify_version(
        VersionField::Firmware,
        option_str(&profile.expected_firmware),
        &report.device_info.firmware_version,
    ) {
        Ok(()) => {},
        Err(e) => return Err(e),
    }
    verify_version(VersionField::Lut, option_str(&profile.expected_lut), &report.device_info.lut_version)
}

/// Decides, after the identity is pinned and verified, whether the profile
/// VCOM must be written.
pub fn should_apply_profile_vcom(profile: &PanelProfile, report: &ProbeReport) -> (r: Result<bool, BringupError>)
    ensures
        profile.expected_firmware is None || profile.expected_lut is None ==> (r matches Err(e)
            && e is IdentityNotPinned),
        profile.expected_firmware is Some && profile.expected_lut is Some ==> match verify_identity_outcome(
            profile,
            report,
        ) {
            true => r == Ok::<bool, BringupError>(
                report.current_vcom.spec_get() != profile.vcom.spec_get(),
            ),
            false => r is Err && !(r matches Err(e) && e is IdentityNotPinned),
        },
{
    match require_pinned_identity(profile) {
        Ok(()) => {},
        Err(e) => return Err(e),
    }
    match verify_probe_identity(profile, report) {
        Ok(()) => {},
        Err(e) => return Err(e),
    }
    Ok(report.current_vcom.get() != profile.vcom.get())
}

/// Whether a probe matches the profile's panel size and pinned identities.
pub open spec fn verify_identity_outcome(profile: &PanelProfile, report: &ProbeReport) -> bool {
    &&& report.device_info.panel_size == profile.panel_size
    &&& !version_mismatch(profile.expected_firmware, report.device_info.firmware_version)
    &&& !version_mismatch(profile.expected_lut, report.device_info.lut_version)
}

/// The bytes of a version field before its first NUL.
pub fn version_bytes(version: &[u8; 16]) -> (r: Vec<u8>)
    ensures
        r@ == version_text(version@),
{
    let mut bytes: Vec<u8> = Vec::new();
    let mut k: usize = 0;
    while k < 16 && version[k] != 0
        invariant
            k <= 16,
            version@.len() == 16,
            forall|i: int| 0 <= i < k ==> version@[i] != 0,
            bytes@ == version@.subrange(0, k as int),
        decreases 16 - k,
    {
        bytes.push(version[k]);
        proof {
            assert(bytes@ =~= version@.subrange(0, k + 1));
        }
        k = k + 1;
    }
    proof {
        crate::it8951::lemma_version_text_prefix(version@, k as int);
        if k == 16 {
            assert(version@.subrange(0, 16) =~= version@);
        }
    }
    bytes
}

/// The version field as text, with invalid UTF-8 replaced.
pub fn version_string(version: &[u8; 16]) -> (r: String)
    ensures
        r@ == utf8_lossy_text(version_text(version@)),
{
    let bytes = version_bytes(version);
    utf8_lossy(bytes.as_slice())
}

/// Checks that a page covers the whole panel in `pixel_format`, row after
/// row with no padding, and returns its byte length.
pub fn validate_full_page(size: Size, pixel_format: PixelFormat, stride_bytes: usize, page: &[u8]) -> (r: Result<
    usize,
    BringupError,
>)
    ensures
        ({
            let row = pixel_format.spec_row_bytes(size.width);
            if row > usize::MAX {
                r matches Err(e) && e is FormatTooWide
            } else if stride_bytes != row {
                r matches Err(e) && e is StrideMismatch
            } else if row * size.height > usize::MAX {
                r matches Err(e) && e is PageTooLarge
            } else if page@.len() != row * size.height {
                r matches Err(BringupError::PageLength { actual, expected }) && actual == page@.len() && expected
                    == row * size.height
            } else {
                r == Ok::<usize, BringupError>((row * size.height) as usize)
            }
        }),
{
    let row_bytes = match pixel_format.row_bytes(size.width) {
        Some(row_bytes) => row_bytes,
        None => return Err(BringupError::FormatTooWide),
    };
    if stride_bytes != row_bytes {
        return Err(BringupError::StrideMismatch);
    }
    let buffer_len = match row_bytes.checked_mul(size.height as usize) {
        Some(len) => len,
        None => return Err(BringupError::PageTooLarge),
    };
    if page.len() != buffer_len {
        return Err(BringupError::PageLength { actual: page.len(), expected: buffer_len });
    }
    Ok(buffer_len)
}

/// Stores a Gray4 level at pixel `(x, y)` of a packed page: even columns in
/// the high nibble, odd columns in the low one. Levels above 15 are capped.
pub fn set_gray4(pixels: &mut [u8], stride: usize, x: u32, y: u32, gray: u8)
    requires
        y * stride + x / 2 < old(pixels)@.len(),
    ensures
        ({
            let index = y * stride + x / 2;
            let value = if gray > 15 {
                15
            } else {
                gray
            };
            let before = old(pixels)@[index];
            &&& final(pixels)@.len() == old(pixels)@.len()
            &&& final(pixels)@ == old(pixels)@.update(
                index,
                if x % 2 == 0 {
                    (value * 16 + before % 16) as u8
                } else {
                    (before / 16 * 16 + value) as u8
                },
            )
        }),
{
    let len = pixels.len();
    assert(y * stride + x / 2 < len);
    let index = y as usize * stride + x as usize / 2;
    let value = if gray > 15 {
        15
    } else {
        gray
    };
    let before = pixels[index];
    if x % 2 == 0 {
        let after = (before & 0x0f) | (value << 4);
        assert(after == value * 16 + before % 16) by (bit_vector)
            requires
                value <= 15,
                after == (before & 0x0f) | (value << 4),
        ;
        pixels[index] = after;
    } else {
        let after = (before & 0xf0) | value;
        assert(after == before / 16 * 16 + value) by (bit_vector)
            requires
                value <= 15,
                after == (before & 0xf0) | value,
        ;
        pixels[index] = after;
    }
}

/// Gray level of the tonal bar at column `x`: sixteen equal steps across
/// the width, black to white.
pub open spec fn tone(width: u32, x: int) -> int {
    let t = x * 16 / (width as int);
    if t > 15 {
        15
    } else {
        t
    }
}

/// The tonal bar runs from black to white: its level never falls from left
/// to right, starts at black, stays within the sixteen Gray4 levels, and
/// reaches white at the right edge of a panel at least sixteen pixels wide.
pub proof fn lemma_tonal_bar_runs_black_to_white(width: u32, x1: int, x2: int)
    requires
        width > 0,
        0 <= x1 <= x2 < width,
    ensures
        tone(width, x1) <= tone(width, x2),
        tone(width, 0) == 0,
        0 <= tone(width, x1) <= 15,
        width >= 16 ==> tone(width, width - 1) == 15,
{
    let w = width as int;
    assert(x1 * 16 / w <= x2 * 16 / w) by (nonlinear_arith)
        requires
            0 <= x1 <= x2,
            w > 0,
    ;
    assert(x1 * 16 / w >= 0) by (nonlinear_arith)
        requires
            0 <= x1,
            w > 0,
    ;
    if width >= 16 {
        assert((w - 1) * 16 / w >= 15) by (nonlinear_arith)
            requires
                w >= 16,
        ;
    }
}

/// First row below the diagnostic stripes.
pub open spec fn diagnostic_bottom(size: Size) -> int {
    let step = if size.height / 16 > 1 {
        size.height / 16
    } else {
        1
    };
    if 1 + step < size.height - 1 {
        1 + step
    } else {
        size.height - 1
    }
}

/// First row below the tonal bar.
pub open spec fn bar_bottom(size: Size) -> int {
    (if size.height * 3 > u32::MAX {
        u32::MAX as int
    } else {
        size.height * 3
    }) / 4
}

/// The calibration level of pixel `(x, y)`: a black one-pixel border, four
/// -level diagnostic stripes under the top border, a tonal bar across the
/// middle half, and white elsewhere.
pub open spec fn calibration_gray(size: Size, x: int, y: int) -> int {
    if x == 0 || x == size.width - 1 || y == 0 || y == size.height - 1 {
        0
    } else if size.width >= 4 && size.height >= 3 && 1 <= y < diagnostic_bottom(size) {
        5 * (x % 4)
    } else if size.height / 4 <= y < bar_bottom(size) {
        tone(size.width, x)
    } else {
        15
    }
}

/// A nibble of the packed page; columns past the width stay white.
pub open spec fn calibration_nibble(size: Size, x: int, y: int) -> int {
    if x < size.width {
        calibration_gray(size, x, y)
    } else {
        15
    }
}

/// The packed Gray4 calibration page, `stride` bytes per row.
pub open spec fn calibration_bytes(size: Size, stride: int) -> Seq<u8> {
    Seq::new(
        (stride * size.height) as nat,
        |i: int|
            {
                let y = i / stride;
                let k = i % stride;
                (calibration_nibble(size, 2 * k, y) * 16 + calibration_nibble(size, 2 * k + 1, y)) as u8
            },
    )
}

fn calibration_gray_at(size: Size, x: u32, y: u32) -> (r: u8)
    requires
        x < size.width,
        y < size.height,
    ensures
        r == calibration_gray(size, x as int, y as int),
{
    if x == 0 || x == size.width - 1 || y == 0 || y == size.height - 1 {
        return 0;
    }
    if size.width >= 4 && size.height >= 3 {
        let step = if size.height / 16 > 1 {
            size.height / 16
        } else {
            1
        };
        let bottom = if 1 + step < size.height - 1 {
            1 + step
        } else {
            size.height - 1
        };
        if 1 <= y && y < bottom {
            return (5 * (x % 4)) as u8;
        }
    }
    let bar_top = size.height / 4;
    let tripled: u64 = size.height as u64 * 3;
    let bar_end: u64 = (if tripled > 4294967295 {
        4294967295
    } else {
        tripled
    }) / 4;
    if bar_top <= y && (y as u64) < bar_end {
        let t: u64 = (x as u64 * 16) / (size.width as u64);
        return if t > 15 {
            15
        } else {
            t as u8
        };
    }
    15
}

/// Builds the Gray4 calibration page for a panel: border, diagnostic
/// stripes and tonal bar, packed two pixels per byte.
pub fn calibration_page(size: Size) -> (r: Result<Vec<u8>, BringupError>)
    ensures
        ({
            let stride = PixelFormat::Gray4.spec_row_bytes(size.width);
            if stride > usize::MAX {
                r matches Err(e) && e is CalibrationTooWide
            } else if stride % 2 != 0 || size.spec_is_empty() {
                r matches Err(e) && e is CalibrationGeometry
            } else if stride * size.height > usize::MAX {
                r matches Err(e) && e is CalibrationTooLarge
            } else {
                r matches Ok(page) && page@ == calibration_bytes(size, stride)
            }
        }),
{
    let stride = match PixelFormat::Gray4.row_bytes(size.width) {
        Some(stride) => stride,
        None => return Err(BringupError::CalibrationTooWide),
    };
    if stride % 2 != 0 || size.is_empty() {
        return Err(BringupError::CalibrationGeometry);
    }
    let len = match stride.checked_mul(size.height as usize) {
        Some(len) => len,
        None => return Err(BringupError::CalibrationTooLarge),
    };
    let ghost target = calibration_bytes(size, stride as int);
    assert(size.width > 0 && size.height > 0);
    assert(stride == (size.width * 4 + 7) / 8);
    assert((size.width * 4 + 7) / 8 >= 1) by (nonlinear_arith)
        requires
            size.width >= 1,
    ;
    let mut page: Vec<u8> = Vec::new();
    let mut y: u32 = 0;
    while y < size.height
        invariant
            y <= size.height,
            stride > 0,
            stride == PixelFormat::Gray4.spec_row_bytes(size.width),
            len == stride * size.height,
            size.width > 0,
            target == calibration_bytes(size, stride as int),
            page@ == target.subrange(0, y * stride),
        decreases size.height - y,
    {
        let mut k: usize = 0;
        while k < stride
            invariant
                y < size.height,
                k <= stride,
                stride > 0,
                stride == PixelFormat::Gray4.spec_row_bytes(size.width),
                len == stride * size.height,
                size.width > 0,
                target == calibration_bytes(size, stride as int),
                page@ == target.subrange(0, y * stride + k),
            decreases stride - k,
        {
            proof {
                assert(y * stride + k < stride * size.height) by (nonlinear_arith)
                    requires
                        y < size.height,
                        k < stride,
                ;
                assert(2 * k < size.width) by (nonlinear_arith)
                    requires
                        k < stride,
                        stride == (size.width * 4 + 7) / 8,
                ;
            }
            let x = (2 * k) as u32;
            let high = calibration_gray_at(size, x, y);
            let low = if x + 1 < size.width {
                calibration_gray_at(size, x + 1, y)
            } else {
                15
            };
            proof {
                assert(high <= 15 && low <= 15) by {
                    assert(calibration_gray(size, x as int, y as int) <= 15);
                    if x + 1 < size.width {
                        assert(calibration_gray(size, x + 1, y as int) <= 15);
                    }
                }
            }
            page.push(high * 16 + low);
            proof {
                let i = y * stride + k;
                vstd::arithmetic::div_mod::lemma_fundamental_div_mod_converse(i, stride as int, y as int, k as int);
                assert(page@ =~= target.subrange(0, y * stride + k + 1));
            }
            k = k + 1;
        }
        proof {
            assert((y + 1) * stride == y * stride + stride) by (nonlinear_arith);
        }
        y = y + 1;
    }
    proof {
        assert(size.height * stride == stride * size.height) by (nonlinear_arith);
        assert(page@ =~= target);
    }
    Ok(page)
}

/// The right-angle rotation that a profile's `rotation_degrees` names.
pub open spec fn profile_rotation(degrees: u16) -> Option<Rotation> {
    if degrees == 0 {
        Some(Rotation::Upright)
    } else if degrees == 90 {
        Some(Rotation::Clockwise90)
    } else if degrees == 180 {
        Some(Rotation::Clockwise180)
    } else if degrees == 270 {
        Some(Rotation::Clockwise270)
    } else {
        None
    }
}

/// Each right-angle profile rotation turns the page by `degrees / 90`
/// clockwise quarter turns: turning by the rotation for `degrees` and then
/// by the one for the rest of a full turn gives the page back unchanged.
pub proof fn lemma_profile_rotations_turn_by_their_degrees(pixels: Seq<u8>, size: Size, degrees: u16)
    requires
        degrees == 0 || degrees == 90 || degrees == 180 || degrees == 270,
        crate::graphics::valid_frame_size(size),
        pixels.len() == size.area(),
    ensures
        profile_rotation(degrees) is Some,
        profile_rotation(((360 - degrees) % 360) as u16) is Some,
        rotate(
            rotate(pixels, size, profile_rotation(degrees)->0),
            profile_rotation(degrees)->0.spec_output_size(size),
            profile_rotation(((360 - degrees) % 360) as u16)->0,
        ) == pixels,
{
    if degrees == 0 {
        crate::graphics::lemma_upright_keeps_pixels(pixels, size);
        crate::graphics::lemma_upright_keeps_pixels(rotate(pixels, size, Rotation::Upright), size);
    } else if degrees == 90 {
        crate::graphics::lemma_rotate_quarter_turns_cancel(pixels, size);
    } else if degrees == 180 {
        crate::graphics::lemma_rotate_half_turns_cancel(pixels, size);
    } else {
        crate::graphics::lemma_rotate_quarter_turns_cancel_back(pixels, size);
    }
}

/// Each profile rotation turns clockwise by its degrees: on a `w x h`
/// logical page, pixel `(x, y)` lands at `(h - 1 - y, x)` for 90 degrees,
/// at `(w - 1 - x, h - 1 - y)` for 180, at `(y, w - 1 - x)` for 270, and
/// stays in place for 0.
pub proof fn lemma_profile_rotation_destinations(pixels: Seq<u8>, size: Size, x: int, y: int)
    requires
        crate::graphics::valid_frame_size(size),
        pixels.len() == size.area(),
        0 <= x < size.width,
        0 <= y < size.height,
    ensures
        ({
            let w = size.width as int;
            let h = size.height as int;
            &&& rotate(pixels, size, profile_rotation(90)->0)[x * h + (h - 1 - y)] == pixels[y * w + x]
            &&& rotate(pixels, size, profile_rotation(180)->0)[(h - 1 - y) * w + (w - 1 - x)] == pixels[y * w + x]
            &&& rotate(pixels, size, profile_rotation(270)->0)[(w - 1 - x) * h + y] == pixels[y * w + x]
            &&& rotate(pixels, size, profile_rotation(0)->0)[y * w + x] == pixels[y * w + x]
        }),
{
    crate::graphics::lemma_rotation_destinations(pixels, size, x, y);
}

/// Turns a page drawn in logical orientation into the panel's native
/// buffer, refusing a rotation that is not a right angle and a rotated page
/// of another size than the panel.
pub fn rotate_to_panel(profile: &PanelProfile, logical: &Framebuffer) -> (r: Result<Framebuffer, BringupError>)
    requires
        logical.wf(),
    ensures
        match profile_rotation(profile.rotation_degrees) {
            None => r matches Err(e) && e is InvalidRotation,
            Some(rotation) => if rotation.spec_output_size(logical.spec_size()) != profile.panel_size {
                r matches Err(BringupError::RotationMismatch { degrees, rotated, expected }) && degrees
                    == profile.rotation_degrees && rotated == rotation.spec_output_size(logical.spec_size())
                    && expected == profile.panel_size
            } else {
                r matches Ok(native) && native.wf() && native.spec_size() == profile.panel_size && native@
                    == rotate(logical@, logical.spec_size(), rotation)
            },
        },
{
    let rotation = match profile.rotation_degrees {
        0 => Rotation::Upright,
        90 => Rotation::Clockwise90,
        180 => Rotation::Clockwise180,
        270 => Rotation::Clockwise270,
        _ => return Err(BringupError::InvalidRotation),
    };
    let rotated = rotation.output_size(logical.size());
    if rotated != profile.panel_size {
        return Err(
            BringupError::RotationMismatch {
                degrees: profile.rotation_degrees,
                rotated,
                expected: profile.panel_size,
            },
        );
    }
    Ok(logical.rotated(rotation))
}

/// What a hold does next: stop for a shutdown signal, end when no time is
/// left, or sleep at most [`HOLD_POLL_NS`] before checking again.
pub fn hold_step(interrupted: bool, remaining_ns: u64) -> (r: Result<Option<u64>, BringupError>)
    ensures
        interrupted ==> (r matches Err(e) && e is HoldInterrupted),
        !interrupted && remaining_ns == 0 ==> r == Ok::<Option<u64>, BringupError>(None),
        !interrupted && remaining_ns > 0 ==> r == Ok::<Option<u64>, BringupError>(
            Some(
                if remaining_ns < HOLD_POLL_NS {
                    remaining_ns
                } else {
                    HOLD_POLL_NS
                },
            ),
        ),
{
    if interrupted {
        return Err(BringupError::HoldInterrupted);
    }
    if remaining_ns == 0 {
        return Ok(None);
    }
    Ok(Some(if remaining_ns < HOLD_POLL_NS { remaining_ns } else { HOLD_POLL_NS }))
}

/// A refused or failed step of a hardware session.
#[derive(Debug)]
pub enum SessionError<E> {
    /// A bring-up rule refused to continue.
    Refused(BringupError),
    /// The controller reported a failure.
    Controller(Error<E>),
}

/// Probes the controller; when the probe fails, asks it to sleep before
/// reporting, and reports a failed sleep too.
pub fn probe_or_sleep<T: Transport>(controller: &mut Controller<T>) -> (r: Result<
    ProbeReport,
    (Error<T::Error>, Option<Error<T::Error>>),
>)
    ensures
        old(controller).spec_log().is_prefix_of(final(controller).spec_log()),
        r is Err ==> final(controller).spec_log().last() == TransportOp::Command(COMMAND_SLEEP),
        r matches Err((_, Some(e))) ==> transport_failed(Err::<(), Error<T::Error>>(e)),
        r is Ok ==> exists|words: Seq<u16>, value: u16|
            #![trigger crate::it8951::probe_ops(words, value)]
            {
                &&& final(controller).spec_log() == old(controller).spec_log() + crate::it8951::probe_ops(
                    words,
                    value,
                )
                &&& words.len() == 20
                &&& crate::it8951::decodes_to(words, r->Ok_0.device_info)
                &&& r->Ok_0.current_vcom.spec_get() == value
            },
{
    match controller.probe() {
        Ok(report) => Ok(report),
        Err(probe_error) => {
            let ghost probed = controller.spec_log();
            let sleep_error = match controller.sleep() {
                Ok(()) => None,
                Err(e) => Some(e),
            };
            proof {
                assert(probed.is_prefix_of(controller.spec_log()));
            }
            Err((probe_error, sleep_error))
        },
    }
}

/// What applying the profile VCOM to a probed controller session answers,
/// and what it sends to the controller between the logs `before` and
/// `after`.
pub open spec fn session_vcom_outcome<E>(
    profile: &PanelProfile,
    report: ProbeReport,
    before: Seq<TransportOp>,
    after: Seq<TransportOp>,
    r: Result<(ProbeReport, bool), SessionError<E>>,
) -> bool {
    if profile.expected_firmware is None || profile.expected_lut is None {
        r matches Err(SessionError::Refused(e)) && e is IdentityNotPinned && after == before
    } else if !verify_identity_outcome(profile, &report) {
        r matches Err(SessionError::Refused(e)) && !(e is IdentityNotPinned) && after == before
    } else if report.current_vcom.spec_get() == profile.vcom.spec_get() {
        r matches Ok((out, applied)) && out == report && !applied && after == before
    } else {
        match r {
            Ok((out, applied)) => applied && out == (ProbeReport { current_vcom: profile.vcom, ..report })
                && after == before + vcom_write_ops(profile.vcom.spec_get()) + vcom_read_ops(
                profile.vcom.spec_get(),
            ),
            Err(e) => e is Controller,
        }
    }
}

/// Applies the profile's VCOM for this controller session once the probe
/// matches the pinned identity, and tells whether a write was needed; the
/// report then carries the VCOM now configured.
pub fn apply_session_vcom<T: Transport>(
    controller: &mut Controller<T>,
    profile: &PanelProfile,
    report: ProbeReport,
) -> (r: Result<(ProbeReport, bool), SessionError<T::Error>>)
    ensures
        old(controller).spec_log().is_prefix_of(final(controller).spec_log()),
        session_vcom_outcome(profile, report, old(controller).spec_log(), final(controller).spec_log(), r),
{
    let apply = match should_apply_profile_vcom(profile, &report) {
        Ok(apply) => apply,
        Err(e) => return Err(SessionError::Refused(e)),
    };
    if !apply {
        return Ok((report, false));
    }
    match controller.set_vcom(profile.vcom) {
        Ok(()) => Ok((ProbeReport { current_vcom: profile.vcom, ..report }, true)),
        Err(e) => Err(SessionError::Controller(e)),
    }
}

/// A command reaches hardware only with every opt-in that it needs: the
/// hardware opt-in always, the VCOM-write authorization for any command that
/// may change VCOM, and the refresh opt-in and a bounded hold for a refresh;
/// every command that may change VCOM also demands a pinned identity.
pub proof fn lemma_hardware_needs_every_opt_in(request: CommandRequest)
    requires
        admission(request) matches Ok(Admission::Hardware { .. }),
    ensures
        match request {
            CommandRequest::SelfTest => false,
            CommandRequest::Probe { allow_hardware } => allow_hardware,
            CommandRequest::SetVcom { allow_hardware, allow_vcom_write } => allow_hardware && allow_vcom_write
                && admission(request) == Ok::<Admission, BringupError>(Admission::Hardware { pinned_identity: true }),
            CommandRequest::Refresh { allow_hardware, allow_vcom_write, allow_refresh, hold_seconds, .. } =>
                allow_hardware && allow_vcom_write && allow_refresh && hold_seconds <= MAX_HOLD_SECONDS
                && admission(request) == Ok::<Admission, BringupError>(Admission::Hardware { pinned_identity: true }),
        },
{
}

/// The verdict of a probe-only session: refused when a shutdown signal
/// arrived or when the probe does not match the profile; otherwise whether
/// the controller's boot VCOM differs from the profile's target.
pub fn probe_session(profile: &PanelProfile, report: &ProbeReport, interrupted: bool) -> (r: Result<
    bool,
    BringupError,
>)
    ensures
        interrupted ==> (r matches Err(e) && e is OperationInterrupted),
        !interrupted && verify_identity_outcome(profile, report) ==> r == Ok::<bool, BringupError>(
            report.current_vcom.spec_get() != profile.vcom.spec_get(),
        ),
        !interrupted && report.device_info.panel_size != profile.panel_size ==> (r matches Err(
            BringupError::PanelMismatch { probed, expected },
        ) && probed == report.device_info.panel_size && expected == profile.panel_size),
        !interrupted && report.device_info.panel_size == profile.panel_size && version_mismatch(
            profile.expected_firmware,
            report.device_info.firmware_version,
        ) ==> (r matches Err(BringupError::VersionMismatch { field, observed, expected }) && field
            == VersionField::Firmware && observed@ == version_text(report.device_info.firmware_version@)
            && expected@ == profile.expected_firmware->0@),
        !interrupted && report.device_info.panel_size == profile.panel_size && !version_mismatch(
            profile.expected_firmware,
            report.device_info.firmware_version,
        ) && version_mismatch(profile.expected_lut, report.device_info.lut_version) ==> (r matches Err(
            BringupError::VersionMismatch { field, observed, expected },
        ) && field == VersionField::Lut && observed@ == version_text(report.device_info.lut_version@)
            && expected@ == profile.expected_lut->0@),
{
    if interrupted {
        return Err(BringupError::OperationInterrupted);
    }
    match verify_probe_identity(profile, report) {
        Ok(()) => Ok(report.current_vcom.get() != profile.vcom.get()),
        Err(e) => Err(e),
    }
}

/// The VCOM step of a `set-vcom` session: an interrupted session sends
/// nothing; otherwise the profile VCOM is applied as
/// [`apply_session_vcom`] does.
pub fn set_vcom_session<T: Transport>(
    controller: &mut Controller<T>,
    profile: &PanelProfile,
    report: ProbeReport,
    interrupted: bool,
) -> (r: Result<(ProbeReport, bool), SessionError<T::Error>>)
    ensures
        old(controller).spec_log().is_prefix_of(final(controller).spec_log()),
        interrupted ==> (r matches Err(SessionError::Refused(e)) && e is OperationInterrupted
            && final(controller).spec_log() == old(controller).spec_log()),
        !interrupted ==> session_vcom_outcome(
            profile,
            report,
            old(controller).spec_log(),
            final(controller).spec_log(),
            r,
        ),
{
    if interrupted {
        return Err(SessionError::Refused(BringupError::OperationInterrupted));
    }
    apply_session_vcom(controller, profile, report)
}

/// Ends a controller session: asks the controller to sleep whatever the
/// step answered, and reports the step's failure first, with a failed sleep
/// beside it; a successful step whose sleep fails reports that failure.
pub fn finish_with_sleep<T: Transport, V>(controller: &mut Controller<T>, step: Result<V, SessionError<T::Error>>) -> (r:
    Result<V, (SessionError<T::Error>, Option<Error<T::Error>>)>)
    ensures
        final(controller).spec_log() == old(controller).spec_log().push(TransportOp::Command(COMMAND_SLEEP)),
        match step {
            Ok(v) => match r {
                Ok(w) => w == v,
                Err((e, cleanup)) => e matches SessionError::Controller(ce) && transport_failed(
                    Err::<(), Error<T::Error>>(ce),
                ) && cleanup is None,
            },
            Err(e) => match r {
                Ok(_) => false,
                Err((e2, cleanup)) => e2 == e && (cleanup matches Some(ce) ==> transport_failed(
                    Err::<(), Error<T::Error>>(ce),
                )),
            },
        },
{
    let slept = controller.sleep();
    match step {
        Ok(v) => match slept {
            Ok(()) => Ok(v),
            Err(e) => Err((SessionError::Controller(e), None)),
        },
        Err(e) => match slept {
            Ok(()) => Err((e, None)),
            Err(ce) => Err((e, Some(ce))),
        },
    }
}

/// A request that refreshes the whole panel of `size`.
pub open spec fn full_frame<'a>(
    size: Size,
    pixel_format: PixelFormat,
    stride_bytes: usize,
    pixels: &'a [u8],
    waveform: Waveform,
) -> UpdateRequest<'a> {
    UpdateRequest { region: rect(0, 0, size.width, size.height), pixel_format, stride_bytes, pixels, waveform }
}

/// Asks the display to sleep after a failed step, keeping the failure of
/// that sleep beside the step's own.
fn sleep_after_failure<T: Transport>(display: &mut It8951Display<T>, error: SessionError<T::Error>) -> (r: (
    SessionError<T::Error>,
    Option<Error<T::Error>>,
))
    ensures
        final(display).spec_device_info() == old(display).spec_device_info(),
        final(display).spec_expected_vcom() == old(display).spec_expected_vcom(),
        final(display).spec_capabilities() == old(display).spec_capabilities(),
        final(display).spec_wait() == old(display).spec_wait(),
        final(display).spec_controller().spec_log() == old(display).spec_controller().spec_log().push(
            TransportOp::Command(COMMAND_SLEEP),
        ),
        r.0 == error,
        r.1 matches Some(c) ==> transport_failed(Err::<(), Error<T::Error>>(c)),
{
    match display.sleep() {
        Ok(()) => (error, None),
        Err(c) => (error, Some(c)),
    }
}

/// One refresh of a page session, given whether a shutdown signal was seen
/// just before it: a seen signal refuses the refresh; otherwise the whole
/// panel is refreshed with `pixels`. A refused or failed refresh asks the
/// controller to sleep before it is reported.
pub fn refresh_step<T: Transport>(
    display: &mut It8951Display<T>,
    size: Size,
    pixel_format: PixelFormat,
    stride_bytes: usize,
    pixels: &[u8],
    waveform: Waveform,
    interrupted: bool,
) -> (r: Result<(), (SessionError<T::Error>, Option<Error<T::Error>>)>)
    ensures
        final(display).spec_device_info() == old(display).spec_device_info(),
        final(display).spec_expected_vcom() == old(display).spec_expected_vcom(),
        final(display).spec_capabilities() == old(display).spec_capabilities(),
        final(display).spec_wait() == old(display).spec_wait(),
        old(display).spec_controller().spec_log().is_prefix_of(final(display).spec_controller().spec_log()),
        r matches Err((_, Some(c))) ==> transport_failed(Err::<(), Error<T::Error>>(c)),
        r is Err ==> final(display).spec_controller().spec_log().last() == TransportOp::Command(COMMAND_SLEEP),
        interrupted ==> (r matches Err((SessionError::Refused(e), _)) && e is OperationInterrupted
            && final(display).spec_controller().spec_log() == old(display).spec_controller().spec_log().push(
            TransportOp::Command(COMMAND_SLEEP),
        )),
        !interrupted ==> (old(display).spec_check(full_frame(size, pixel_format, stride_bytes, pixels, waveform))
            matches Err(e) ==> (r matches Err((SessionError::Controller(Error::InvalidUpdate(e2)), _)) && e2 == e
            && final(display).spec_controller().spec_log() == old(display).spec_controller().spec_log().push(
            TransportOp::Command(COMMAND_SLEEP),
        ))),
        !interrupted && r is Ok ==> old(display).spec_uploaded(
            final(display).spec_controller().spec_log().skip(old(display).spec_controller().spec_log().len() as int),
            full_frame(size, pixel_format, stride_bytes, pixels, waveform),
        ),
        !interrupted ==> (r matches Err((SessionError::Controller(e), _)) ==> exists|updated: Seq<TransportOp>|
            {
                &&& old(display).spec_controller().spec_log().is_prefix_of(updated)
                &&& final(display).spec_controller().spec_log() == updated.push(TransportOp::Command(COMMAND_SLEEP))
                &&& (transport_failed(Err::<(), Error<T::Error>>(e)) || (e == Error::<T::Error>::DisplayTimeout && exists|k: int|
                    old(display).spec_controller().spec_log().len() <= k <= updated.len() && #[trigger] wait_log(
                        updated.skip(k),
                        old(display).spec_wait(),
                        Err::<(), Error<T::Error>>(Error::DisplayTimeout),
                    )) || upload_outcome(
                    old(display).spec_check(full_frame(size, pixel_format, stride_bytes, pixels, waveform)),
                    pixel_format,
                    waveform,
                    Err::<(), Error<T::Error>>(e),
                ))
            }),
        !interrupted ==> !(r matches Err((SessionError::Refused(_), _))),
{
    if interrupted {
        return Err(sleep_after_failure(display, SessionError::Refused(BringupError::OperationInterrupted)));
    }
    let request = UpdateRequest { region: Rect::from_size(size), pixel_format, stride_bytes, pixels, waveform };
    let ghost d0 = *display;
    proof {
        assert(request == full_frame(size, pixel_format, stride_bytes, pixels, waveform));
    }
    match display.update(request) {
        Ok(()) => Ok(()),
        Err(e) => {
            let ghost updated = display.spec_controller().spec_log();
            let failure = sleep_after_failure(display, SessionError::Controller(e));
            proof {
                assert(d0.spec_controller().spec_log().is_prefix_of(updated));
            }
            Err(failure)
        },
    }
}

/// The last step of showing a page, given whether a shutdown signal was seen
/// after the refreshes: the controller is asked to sleep, and asked once
/// more if that fails; a seen signal is reported after one sleep request.
pub fn finish_presentation<T: Transport>(display: &mut It8951Display<T>, interrupted: bool) -> (r: Result<
    (),
    (SessionError<T::Error>, Option<Error<T::Error>>),
>)
    ensures
        final(display).spec_device_info() == old(display).spec_device_info(),
        final(display).spec_expected_vcom() == old(display).spec_expected_vcom(),
        final(display).spec_capabilities() == old(display).spec_capabilities(),
        final(display).spec_wait() == old(display).spec_wait(),
        r matches Err((_, Some(c))) ==> transport_failed(Err::<(), Error<T::Error>>(c)),
        interrupted ==> (r matches Err((SessionError::Refused(e), _)) && e is OperationInterrupted
            && final(display).spec_controller().spec_log() == old(display).spec_controller().spec_log().push(
            TransportOp::Command(COMMAND_SLEEP),
        )),
        !interrupted && r is Ok ==> final(display).spec_controller().spec_log() == old(
            display,
        ).spec_controller().spec_log().push(TransportOp::Command(COMMAND_SLEEP)),
        !interrupted && r is Err ==> (r matches Err((SessionError::Controller(e), _)) && transport_failed(
            Err::<(), Error<T::Error>>(e),
        ) && final(display).spec_controller().spec_log() == old(display).spec_controller().spec_log().push(
            TransportOp::Command(COMMAND_SLEEP),
        ).push(TransportOp::Command(COMMAND_SLEEP))),
{
    if interrupted {
        return Err(sleep_after_failure(display, SessionError::Refused(BringupError::OperationInterrupted)));
    }
    match display.sleep() {
        Ok(()) => Ok(()),
        Err(e) => Err(sleep_after_failure(display, SessionError::Controller(e))),
    }
}

/// The last step of a white cleanup, given whether a shutdown signal was
/// seen after the refresh: one sleep request is sent either way; a seen
/// signal is reported, and otherwise a failed sleep.
pub fn finish_cleanup<T: Transport>(display: &mut It8951Display<T>, interrupted: bool) -> (r: Result<
    (),
    (SessionError<T::Error>, Option<Error<T::Error>>),
>)
    ensures
        final(display).spec_device_info() == old(display).spec_device_info(),
        final(display).spec_expected_vcom() == old(display).spec_expected_vcom(),
        final(display).spec_capabilities() == old(display).spec_capabilities(),
        final(display).spec_wait() == old(display).spec_wait(),
        final(display).spec_controller().spec_log() == old(display).spec_controller().spec_log().push(
            TransportOp::Command(COMMAND_SLEEP),
        ),
        r matches Err((_, Some(c))) ==> transport_failed(Err::<(), Error<T::Error>>(c)),
        interrupted ==> (r matches Err((SessionError::Refused(e), _)) && e is OperationInterrupted),
        !interrupted ==> (r is Ok || (r matches Err((SessionError::Controller(e), None)) && transport_failed(
            Err::<(), Error<T::Error>>(e),
        ))),
{
    if interrupted {
        return Err(sleep_after_failure(display, SessionError::Refused(BringupError::OperationInterrupted)));
    }
    match display.sleep() {
        Ok(()) => Ok(()),
        Err(e) => Err((SessionError::Controller(e), None)),
    }
}

} // verus!
