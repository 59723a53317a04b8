//! Portable, fail-closed IT8951 control protocol.
//!
//! Host SPI/GPIO framing belongs in a [`Transport`] implementation. This module
//! owns controller commands, probed identity, VCOM typing, and verified LUT
//! metadata.

use vstd::prelude::*;
use vstd::string::StringExecFns;

use crate::rendering::{decimal_text, hex_digits, push_decimal, push_hex};
use crate::display::{
    Display, DisplayCapabilities, PixelFormat, Rect, Size, UpdateConstraints, UpdateProfile,
    UpdateRequest, Waveform, rect,
};

verus! {

pub const COMMAND_SYSTEM_RUN: u16 = 0x0001;
pub const COMMAND_STANDBY: u16 = 0x0002;
pub const COMMAND_SLEEP: u16 = 0x0003;
pub const COMMAND_REGISTER_READ: u16 = 0x0010;
pub const COMMAND_REGISTER_WRITE: u16 = 0x0011;
pub const COMMAND_LOAD_IMAGE_AREA: u16 = 0x0021;
pub const COMMAND_LOAD_IMAGE_END: u16 = 0x0022;
pub const COMMAND_DISPLAY_BUFFER_AREA: u16 = 0x0037;
pub const COMMAND_GET_DEVICE_INFO: u16 = 0x0302;
pub const COMMAND_VCOM: u16 = 0x0039;
pub const DEVICE_INFO_WORDS: usize = 20;
pub const REGISTER_PACKED_WRITE: u16 = 0x0004;
pub const REGISTER_IMAGE_ADDRESS: u16 = 0x0208;
pub const REGISTER_DISPLAY_STATUS: u16 = 0x1224;
pub const PIXEL_FORMAT_GRAY4: u16 = 2;
pub const MODE_INITIALIZE: u16 = 0;
pub const MODE_GRAYSCALE: u16 = 2;

/// Bounded polling policy for the IT8951 display engine.
#[derive(Clone, Copy, Debug, PartialEq, Eq, Structural)]
pub struct DisplayWait {
    timeout_ms: u32,
    poll_delay_ms: u32,
}

impl DisplayWait {
    #[verifier::type_invariant]
    spec fn inv(self) -> bool {
        0 < self.poll_delay_ms <= self.timeout_ms
    }

    pub closed spec fn spec_timeout_ms(self) -> u32 {
        self.timeout_ms
    }

    pub closed spec fn spec_poll_delay_ms(self) -> u32 {
        self.poll_delay_ms
    }

    /// Creates a non-zero wall-clock timeout and polling interval.
    pub fn new(timeout_ms: u32, poll_delay_ms: u32) -> (r: Option<DisplayWait>)
        ensures
            match r {
                Some(w) => 0 < poll_delay_ms <= timeout_ms && w.spec_timeout_ms() == timeout_ms
                    && w.spec_poll_delay_ms() == poll_delay_ms,
                None => timeout_ms == 0 || poll_delay_ms == 0 || poll_delay_ms > timeout_ms,
            },
    {
        if timeout_ms == 0 || poll_delay_ms == 0 || poll_delay_ms > timeout_ms {
            None
        } else {
            Some(DisplayWait { timeout_ms, poll_delay_ms })
        }
    }

    /// The wall-clock budget of one controller operation.
    pub fn timeout_ms(self) -> (r: u32)
        ensures
            r == self.spec_timeout_ms(),
    {
        self.timeout_ms
    }

    /// The delay between two status polls.
    pub fn poll_delay_ms(self) -> (r: u32)
        ensures
            r == self.spec_poll_delay_ms(),
            0 < r <= self.spec_timeout_ms(),
    {
        proof {
            use_type_invariant(&self);
        }
        self.poll_delay_ms
    }
}

/// Whether a millivolt magnitude is a plausible panel VCOM: 1 mV to 5 V.
pub open spec fn plausible_vcom(millivolts: u16) -> bool {
    0 < millivolts <= 5000
}

/// The positive magnitude of the negative panel VCOM printed on its FPC.
#[derive(Clone, Copy, Debug, PartialEq, Eq, Structural, PartialOrd, Ord)]
pub struct VcomMillivolts(u16);

impl VcomMillivolts {
    #[verifier::type_invariant]
    spec fn inv(self) -> bool {
        plausible_vcom(self.0)
    }

    pub closed spec fn spec_get(self) -> u16 {
        self.0
    }

    /// Creates a plausible non-zero VCOM magnitude up to 5 V.
    pub fn new(millivolts: u16) -> (r: Option<VcomMillivolts>)
        ensures
            match r {
                Some(v) => plausible_vcom(millivolts) && v.spec_get() == millivolts,
                None => !plausible_vcom(millivolts),
            },
    {
        if millivolts > 0 && millivolts <= 5_000 {
            Some(VcomMillivolts(millivolts))
        } else {
            None
        }
    }

    /// Returns the positive millivolt magnitude.
    pub fn get(self) -> (r: u16)
        ensures
            r == self.spec_get(),
            plausible_vcom(r),
    {
        proof {
            use_type_invariant(&self);
        }
        self.0
    }
}

/// A verified LUT firmware family.
#[derive(Clone, Copy, Debug, PartialEq, Eq, Structural)]
pub enum LutFamily {
    /// Six-inch M641 firmware; A2 mode 4 with 32-pixel X/width alignment.
    M641,
    /// Six-inch M841 TFAB512 firmware; A2 mode 6 with 32-pixel alignment.
    M841Tfab512,
    /// Nine-inch M841 firmware; A2 mode 6.
    M841,
    /// 7.8-inch M841 TFA2812 firmware; A2 mode 6.
    M841Tfa2812,
    /// 10.3-inch M841 TFA5210 firmware; A2 mode 6.
    M841Tfa5210,
    /// Unrecognized firmware. Fast refresh is not advertised.
    Unknown,
}

impl LutFamily {
    pub open spec fn spec_fast_monochrome_mode(self) -> Option<u16> {
        match self {
            LutFamily::M641 => Some(4),
            LutFamily::M841Tfab512 | LutFamily::M841 | LutFamily::M841Tfa2812 | LutFamily::M841Tfa5210 => Some(6),
            LutFamily::Unknown => None,
        }
    }

    pub open spec fn spec_requires_four_byte_alignment(self) -> bool {
        self == LutFamily::M641 || self == LutFamily::M841Tfab512
    }

    /// Returns the controller A2 mode only for allowlisted firmware.
    pub fn fast_monochrome_mode(self) -> (r: Option<u16>)
        ensures
            r == self.spec_fast_monochrome_mode(),
    {
        match self {
            LutFamily::M641 => Some(4),
            LutFamily::M841Tfab512 | LutFamily::M841 | LutFamily::M841Tfa2812 | LutFamily::M841Tfa5210 => Some(6),
            LutFamily::Unknown => None,
        }
    }

    fn requires_four_byte_alignment(self) -> (r: bool)
        ensures
            r == self.spec_requires_four_byte_alignment(),
    {
        match self {
            LutFamily::M641 | LutFamily::M841Tfab512 => true,
            _ => false,
        }
    }
}

/// The bytes of a version field before its first NUL, or all of it.
pub open spec fn version_text(version: Seq<u8>) -> Seq<u8>
    decreases version.len(),
{
    if version.len() == 0 {
        version
    } else if version[0] == 0 {
        Seq::empty()
    } else {
        seq![version[0]] + version_text(version.drop_first())
    }
}

pub open spec fn lut_name_m641() -> Seq<u8> {
    seq![0x4du8, 0x36, 0x34, 0x31]
}

pub open spec fn lut_name_m841() -> Seq<u8> {
    seq![0x4du8, 0x38, 0x34, 0x31]
}

/// `M841_` followed by a board suffix.
pub open spec fn lut_name_m841_board(suffix: Seq<u8>) -> Seq<u8> {
    lut_name_m841() + seq![0x5fu8] + suffix
}

pub open spec fn suffix_tfab512() -> Seq<u8> {
    seq![0x54u8, 0x46, 0x41, 0x42, 0x35, 0x31, 0x32]
}

pub open spec fn suffix_tfa2812() -> Seq<u8> {
    seq![0x54u8, 0x46, 0x41, 0x32, 0x38, 0x31, 0x32]
}

pub open spec fn suffix_tfa5210() -> Seq<u8> {
    seq![0x54u8, 0x46, 0x41, 0x35, 0x32, 0x31, 0x30]
}

/// The LUT family named by a raw LUT version field.
pub open spec fn spec_lut_family(lut_version: Seq<u8>) -> LutFamily {
    let text = version_text(lut_version);
    if text == lut_name_m641() {
        LutFamily::M641
    } else if text == lut_name_m841_board(suffix_tfab512()) {
        LutFamily::M841Tfab512
    } else if text == lut_name_m841() {
        LutFamily::M841
    } else if text == lut_name_m841_board(suffix_tfa2812()) {
        LutFamily::M841Tfa2812
    } else if text == lut_name_m841_board(suffix_tfa5210()) {
        LutFamily::M841Tfa5210
    } else {
        LutFamily::Unknown
    }
}

/// Device information read directly from the controller.
#[derive(Clone, Copy, Debug, PartialEq, Eq)]
pub struct DeviceInfo {
    /// Native panel dimensions.
    pub panel_size: Size,
    /// Controller image-buffer base address.
    pub image_buffer_address: u32,
    /// Raw, potentially NUL-terminated firmware version bytes.
    pub firmware_version: [u8; 16],
    /// Raw, potentially NUL-terminated LUT version bytes.
    pub lut_version: [u8; 16],
}

/// Byte `k` of a little-endian word sequence.
pub open spec fn le_byte(words: Seq<u16>, k: int) -> u8 {
    if k % 2 == 0 {
        (words[k / 2] % 256) as u8
    } else {
        (words[k / 2] / 256) as u8
    }
}

/// Whether `info` carries exactly the identity that `words` encodes.
pub open spec fn decodes_to(words: Seq<u16>, info: DeviceInfo) -> bool {
    &&& info.panel_size == (Size { width: words[0] as u32, height: words[1] as u32 })
    &&& info.image_buffer_address == words[2] + words[3] * 65536
    &&& info.firmware_version@ == Seq::new(16, |k: int| le_byte(words.subrange(4, 12), k))
    &&& info.lut_version@ == Seq::new(16, |k: int| le_byte(words.subrange(12, 20), k))
}

/// Whether the controller's reported image buffer can hold a full panel:
/// non-zero, even, and with room for `width * height` bytes below 4 GiB.
pub open spec fn plausible_image_buffer(address: u32, panel: Size) -> bool {
    &&& address != 0
    &&& address % 2 == 0
    &&& 0 < panel.width * panel.height <= u32::MAX
    &&& address + (panel.width * panel.height - 1) <= u32::MAX
}

impl DeviceInfo {
    /// The LUT family named by this identity.
    pub open spec fn spec_family(self) -> LutFamily {
        spec_lut_family(self.lut_version@)
    }

    /// Decodes the controller's 20-word device-information reply.
    pub fn from_words(words: &[u16]) -> (r: DeviceInfo)
        requires
            words@.len() == 20,
        ensures
            decodes_to(words@, r),
    {
        let mut firmware_version = [0u8; 16];
        let mut lut_version = [0u8; 16];
        words_to_bytes(words, 4, &mut firmware_version);
        words_to_bytes(words, 12, &mut lut_version);
        DeviceInfo {
            panel_size: Size::new(words[0] as u32, words[1] as u32),
            image_buffer_address: words[2] as u32 + (words[3] as u32) * 65536,
            firmware_version,
            lut_version,
        }
    }

    /// Classifies the probed LUT without guessing for unknown strings.
    pub fn lut_family(self) -> (r: LutFamily)
        ensures
            r == self.spec_family(),
    {
        let m641: [u8; 4] = [0x4d, 0x36, 0x34, 0x31];
        let m841: [u8; 4] = [0x4d, 0x38, 0x34, 0x31];
        let tfab512: [u8; 12] = [0x4d, 0x38, 0x34, 0x31, 0x5f, 0x54, 0x46, 0x41, 0x42, 0x35, 0x31, 0x32];
        let tfa2812: [u8; 12] = [0x4d, 0x38, 0x34, 0x31, 0x5f, 0x54, 0x46, 0x41, 0x32, 0x38, 0x31, 0x32];
        let tfa5210: [u8; 12] = [0x4d, 0x38, 0x34, 0x31, 0x5f, 0x54, 0x46, 0x41, 0x35, 0x32, 0x31, 0x30];
        proof {
            assert(m641@ == lut_name_m641());
            assert(m841@ == lut_name_m841());
            assert(tfab512@ == lut_name_m841_board(suffix_tfab512()));
            assert(tfa2812@ == lut_name_m841_board(suffix_tfa2812()));
            assert(tfa5210@ == lut_name_m841_board(suffix_tfa5210()));
        }
        if version_equals(&self.lut_version, m641.as_slice()) {
            LutFamily::M641
        } else if version_equals(&self.lut_version, tfab512.as_slice()) {
            LutFamily::M841Tfab512
        } else if version_equals(&self.lut_version, m841.as_slice()) {
            LutFamily::M841
        } else if version_equals(&self.lut_version, tfa2812.as_slice()) {
            LutFamily::M841Tfa2812
        } else if version_equals(&self.lut_version, tfa5210.as_slice()) {
            LutFamily::M841Tfa5210
        } else {
            LutFamily::Unknown
        }
    }

    /// Returns controller alignment metadata for an allowlisted fast mode.
    ///
    /// This describes a controller fact, not an operation implemented by a
    /// concrete display backend.
    pub fn fast_monochrome_constraints(self) -> (r: Option<UpdateConstraints>)
        ensures
            r == (match self.spec_family().spec_fast_monochrome_mode() {
                None => None,
                Some(_) => Some(
                    if self.spec_family().spec_requires_four_byte_alignment() {
                        UpdateConstraints::spec_new(32, 1, 32, 1)
                    } else {
                        UpdateConstraints::spec_new(1, 1, 1, 1)
                    },
                ),
            }),
    {
        let family = self.lut_family();
        if family.fast_monochrome_mode().is_none() {
            return None;
        }
        Some(
            if family.requires_four_byte_alignment() {
                UpdateConstraints::new(32, 1, 32, 1).unwrap()
            } else {
                UpdateConstraints::unrestricted()
            },
        )
    }

    /// Returns the allowlisted controller A2 mode, if known.
    pub fn fast_monochrome_mode(self) -> (r: Option<u16>)
        ensures
            r == self.spec_family().spec_fast_monochrome_mode(),
    {
        self.lut_family().fast_monochrome_mode()
    }
}

/// Identity and VCOM observed during a non-mutating controller probe.
#[derive(Clone, Copy, Debug, PartialEq, Eq)]
pub struct ProbeReport {
    /// Probed controller and panel identity.
    pub device_info: DeviceInfo,
    /// VCOM currently configured in the controller.
    pub current_vcom: VcomMillivolts,
}

pub(crate) proof fn lemma_version_text_prefix(version: Seq<u8>, n: int)
    requires
        0 <= n <= version.len(),
        forall|k: int| 0 <= k < n ==> version[k] != 0,
    ensures
        n == version.len() ==> version_text(version) == version,
        n < version.len() && version[n] == 0 ==> version_text(version) == version.subrange(0, n),
    decreases n,
{
    if n > 0 {
        let rest = version.drop_first();
        lemma_version_text_prefix(rest, n - 1);
        if n < version.len() && version[n] == 0 {
            assert(rest.subrange(0, n - 1) == version.subrange(1, n));
            assert(version.subrange(0, n) == seq![version[0]] + version.subrange(1, n));
        }
        if n == version.len() {
            assert(version == seq![version[0]] + rest);
        }
    } else {
        if version.len() > 0 {
            assert(version.subrange(0, 0) == Seq::<u8>::empty());
        }
    }
}

/// Compares the NUL-terminated text of a version field with `expected`.
pub fn version_equals(version: &[u8; 16], expected: &[u8]) -> (r: bool)
    ensures
        r == (version_text(version@) == expected@),
{
    let mut length: usize = 0;
    while length < 16 && version[length] != 0
        invariant
            0 <= length <= 16,
            version@.len() == 16,
            forall|k: int| 0 <= k < length ==> version@[k] != 0,
        decreases 16 - length,
    {
        length = length + 1;
    }
    proof {
        lemma_version_text_prefix(version@, length as int);
        if length == 16 {
            assert(version@.subrange(0, 16) == version@);
        }
        assert(version_text(version@) == version@.subrange(0, length as int));
    }
    if length != expected.len() {
        return false;
    }
    let mut i: usize = 0;
    while i < length
        invariant
            0 <= i <= length,
            length <= 16,
            version@.len() == 16,
            expected@.len() == length,
            version_text(version@) == version@.subrange(0, length as int),
            forall|k: int| 0 <= k < i ==> version@[k] == expected@[k],
        decreases length - i,
    {
        if version[i] != expected[i] {
            proof {
                assert(version@.subrange(0, length as int)[i as int] != expected@[i as int]);
            }
            return false;
        }
        i = i + 1;
    }
    proof {
        assert(version@.subrange(0, length as int) =~= expected@);
    }
    true
}

/// Writes the little-endian bytes of `words[start..start + 8]` into `bytes`.
fn words_to_bytes(words: &[u16], start: usize, bytes: &mut [u8; 16])
    requires
        start + 8 <= words@.len(),
    ensures
        final(bytes)@ == Seq::new(16, |k: int| le_byte(words@.subrange(start as int, start + 8), k)),
{
    let ghost part = words@.subrange(start as int, start + 8);
    let mut i: usize = 0;
    while i < 8
        invariant
            0 <= i <= 8,
            start + 8 <= words@.len(),
            start + 8 <= words.len(),
            part == words@.subrange(start as int, start + 8),
            bytes@.len() == 16,
            forall|k: int| 0 <= k < 2 * i ==> #[trigger] bytes@[k] == le_byte(part, k),
        decreases 8 - i,
    {
        let word = words[start + i];
        bytes[2 * i] = (word % 256) as u8;
        bytes[2 * i + 1] = (word / 256) as u8;
        proof {
            assert forall|k: int| 0 <= k < 2 * (i + 1) implies #[trigger] bytes@[k] == le_byte(part, k) by {
                if k >= 2 * i {
                    assert(k / 2 == i);
                }
            }
        }
        i = i + 1;
    }
    proof {
        assert(bytes@ =~= Seq::new(16, |k: int| le_byte(part, k)));
    }
}

/// A byte with its two nibbles exchanged.
pub open spec fn nibble_swap(byte: u8) -> int {
    (byte % 16) * 16 + byte / 16
}

/// The IT8951 packed-write word for two PaperOS Gray4 bytes.
pub open spec fn spec_gray4_word(first: u8, second: u8) -> u16 {
    (nibble_swap(second) * 256 + nibble_swap(first)) as u16
}

/// Converts four PaperOS Gray4 pixels into the IT8951 packed-write word.
///
/// PaperOS stores pixels from the most-significant nibble of each byte, while
/// the IT8951 little-endian packed format numbers the first pixel from the
/// least-significant nibble of the 16-bit word. For source bytes `01 23`, the
/// controller word is therefore `3210`.
pub fn controller_gray4_word(first: u8, second: u8) -> (r: u16)
    ensures
        r == spec_gray4_word(first, second),
{
    let low = (first % 16) as u16 * 16 + (first / 16) as u16;
    let high = (second % 16) as u16 * 16 + (second / 16) as u16;
    high * 256 + low
}

/// One transaction the controller asked its transport to perform.
pub enum TransportOp {
    /// Reset pulse and ready wait.
    Reset,
    /// One command word.
    Command(u16),
    /// Data words in one chip-select transaction.
    Write(Seq<u16>),
    /// Data words read in one transaction, as returned.
    Read(Seq<u16>),
    /// A portable polling delay.
    Delay(u32),
    /// Start of a shared operation deadline.
    BeginOperation(u32),
    /// End of the shared operation deadline.
    EndOperation,
    /// A query of the shared operation deadline, with whether it had passed.
    DeadlineChecked(bool),
}

/// Lowest common protocol operations, implemented by Linux SPI or an MCU HAL.
///
/// Each method represents one complete IT8951 transaction, including its
/// preamble, chip-select lifetime, and ready-pin synchronization.
pub trait Transport {
    /// Transport-specific error.
    type Error;

    /// Pulses reset and waits until the controller becomes ready.
    fn reset(&mut self) -> Result<(), Self::Error>;

    /// Sends one host-order command word.
    fn command(&mut self, command: u16) -> Result<(), Self::Error>;

    /// Sends host-order data words in one chip-select transaction.
    fn write_words(&mut self, words: &[u16]) -> Result<(), Self::Error>;

    /// Sends one host-order data word in one transaction.
    fn write_word(&mut self, word: u16) -> Result<(), Self::Error> {
        let words = [word];
        self.write_words(words.as_slice())
    }

    /// Reads controller words into host-order `u16` values.
    ///
    /// IT8951 SPI transfers the most-significant byte first. The transport must
    /// assemble those bytes into the numeric word before returning it. Device
    /// version strings are then decoded from the little-endian in-memory word
    /// representation mandated by the controller's device-info structure.
    fn read_words(&mut self, words: &mut [u16]) -> (r: Result<(), Self::Error>)
        ensures
            final(words)@.len() == old(words)@.len(),
    ;

    /// Delays portable controller polling without assuming an operating system.
    fn delay_ms(&mut self, milliseconds: u32);

    /// Starts a shared monotonic deadline for one controller operation.
    fn begin_operation(&mut self, timeout_ms: u32);

    /// Returns whether the active operation deadline has expired.
    fn operation_timed_out(&self) -> bool;

    /// Clears the active operation deadline.
    fn end_operation(&mut self);
}

/// Invalid update rejected before a physical refresh command is issued.
#[derive(Clone, Copy, Debug, PartialEq, Eq, Structural)]
pub enum UpdateError {
    /// Only a complete native panel update is implemented.
    FullScreenOnly,
    /// The backend does not implement the requested format/waveform pair.
    UnsupportedProfile,
    /// The requested geometry cannot be represented by IT8951 command words.
    GeometryTooLarge,
    /// The source stride is shorter than one encoded row.
    ShortStride,
    /// The source slice does not contain every requested row.
    ShortBuffer,
    /// IT8951 word uploads require an even encoded byte count per row.
    OddRowBytes,
}

pub open spec fn update_error_text(e: UpdateError) -> Seq<char> {
    match e {
        UpdateError::FullScreenOnly => "only full-screen updates are implemented"@,
        UpdateError::UnsupportedProfile => "unsupported IT8951 format/waveform profile"@,
        UpdateError::GeometryTooLarge => "update geometry exceeds IT8951 command fields"@,
        UpdateError::ShortStride => "update stride is shorter than one encoded row"@,
        UpdateError::ShortBuffer => "update pixel buffer does not contain every source row"@,
        UpdateError::OddRowBytes => "encoded IT8951 rows must contain an even number of bytes"@,
    }
}

impl UpdateError {
    /// A human-readable description of the rejection.
    pub fn message(&self) -> (r: &'static str)
        ensures
            r@ == update_error_text(*self),
    {
        match self {
            UpdateError::FullScreenOnly => "only full-screen updates are implemented",
            UpdateError::UnsupportedProfile => "unsupported IT8951 format/waveform profile",
            UpdateError::GeometryTooLarge => "update geometry exceeds IT8951 command fields",
            UpdateError::ShortStride => "update stride is shorter than one encoded row",
            UpdateError::ShortBuffer => "update pixel buffer does not contain every source row",
            UpdateError::OddRowBytes => "encoded IT8951 rows must contain an even number of bytes",
        }
    }
}

/// IT8951 control failure.
#[derive(Clone, Debug, PartialEq, Eq)]
pub enum Error<E> {
    /// Underlying SPI/GPIO transport failure.
    Transport(E),
    /// The controller returned an empty panel size.
    InvalidDeviceInfo,
    /// The controller returned an unusable image-buffer base address.
    InvalidImageBufferAddress(u32),
    /// The controller returned a zero or implausible VCOM magnitude.
    InvalidVcomResponse,
    /// The display engine remained busy for the complete configured budget.
    DisplayTimeout,
    /// Reinitialization found a different controller or panel.
    DeviceChanged {
        /// Identity used to construct the backend.
        expected: DeviceInfo,
        /// Identity observed after reset.
        observed: DeviceInfo,
    },
    /// The update was rejected before upload or refresh.
    InvalidUpdate(UpdateError),
    /// A VCOM write completed at the transport layer but readback did not match.
    VcomMismatch {
        /// Requested positive magnitude.
        requested: VcomMillivolts,
        /// Value observed immediately after the write.
        observed: VcomMillivolts,
    },
}

/// The description of a controller failure, given the description of the
/// transport failure that it may hold.
pub open spec fn controller_error_text<E>(e: Error<E>, transport: Seq<char>) -> Seq<char> {
    match e {
        Error::Transport(_) => "IT8951 transport error: "@ + transport,
        Error::InvalidDeviceInfo => "IT8951 returned an invalid panel size"@,
        Error::InvalidImageBufferAddress(address) => "IT8951 returned an invalid image-buffer address 0x"@
            + hex_digits(address as nat, 8),
        Error::InvalidVcomResponse => "IT8951 returned an invalid VCOM"@,
        Error::DisplayTimeout => "IT8951 display engine timed out"@,
        Error::DeviceChanged { .. } => "IT8951 identity changed while reinitializing after sleep"@,
        Error::InvalidUpdate(error) => "invalid IT8951 update: "@ + update_error_text(error),
        Error::VcomMismatch { requested, observed } => "IT8951 VCOM verification failed: requested "@
            + decimal_text(requested.spec_get() as nat) + " mV, observed "@ + decimal_text(
            observed.spec_get() as nat,
        ) + " mV"@,
    }
}

impl<E> Error<E> {
    /// A human-readable description of the failure. `transport` describes
    /// the transport's own failure; only a transport failure shows it.
    pub fn message(&self, transport: &str) -> (r: String)
        ensures
            r@ == controller_error_text(*self, transport@),
    {
        match self {
            Error::Transport(_) => {
                let mut text = String::from_str("IT8951 transport error: ");
                text.append(transport);
                text
            },
            Error::InvalidDeviceInfo => String::from_str("IT8951 returned an invalid panel size"),
            Error::InvalidImageBufferAddress(address) => {
                let mut text = String::from_str("IT8951 returned an invalid image-buffer address 0x");
                push_hex(&mut text, *address, 8);
                text
            },
            Error::InvalidVcomResponse => String::from_str("IT8951 returned an invalid VCOM"),
            Error::DisplayTimeout => String::from_str("IT8951 display engine timed out"),
            Error::DeviceChanged { .. } => String::from_str("IT8951 identity changed while reinitializing after sleep"),
            Error::InvalidUpdate(error) => {
                let mut text = String::from_str("invalid IT8951 update: ");
                text.append(error.message());
                text
            },
            Error::VcomMismatch { requested, observed } => {
                let mut text = String::from_str("IT8951 VCOM verification failed: requested ");
                push_decimal(&mut text, requested.get() as u64);
                text.append(" mV, observed ");
                push_decimal(&mut text, observed.get() as u64);
                text.append(" mV");
                text
            },
        }
    }
}

/// Whether a result failed inside the transport.
pub open spec fn transport_failed<T, E>(r: Result<T, Error<E>>) -> bool {
    r matches Err(Error::Transport(_))
}

pub open spec fn vcom_read_ops(value: u16) -> Seq<TransportOp> {
    seq![TransportOp::Command(COMMAND_VCOM), TransportOp::Write(seq![0u16]), TransportOp::Read(seq![value])]
}

pub open spec fn vcom_write_ops(value: u16) -> Seq<TransportOp> {
    seq![TransportOp::Command(COMMAND_VCOM), TransportOp::Write(seq![1u16]), TransportOp::Write(seq![value])]
}

pub open spec fn device_info_ops(words: Seq<u16>) -> Seq<TransportOp> {
    seq![TransportOp::Command(COMMAND_GET_DEVICE_INFO), TransportOp::Read(words)]
}

/// The transactions of a successful probe that read `words` and `value`.
pub open spec fn probe_ops(words: Seq<u16>, value: u16) -> Seq<TransportOp> {
    seq![TransportOp::Reset, TransportOp::Command(COMMAND_SYSTEM_RUN)] + device_info_ops(words) + vcom_read_ops(value)
}

pub open spec fn register_write_ops(address: u16, value: u16) -> Seq<TransportOp> {
    seq![TransportOp::Command(COMMAND_REGISTER_WRITE), TransportOp::Write(seq![address]), TransportOp::Write(seq![value])]
}

pub open spec fn register_read_ops(address: u16, value: u16) -> Seq<TransportOp> {
    seq![TransportOp::Command(COMMAND_REGISTER_READ), TransportOp::Write(seq![address]), TransportOp::Read(seq![value])]
}

/// What `device_info` returns for a 20-word reply, absent transport failure.
pub open spec fn device_info_outcome<E>(words: Seq<u16>, r: Result<DeviceInfo, Error<E>>) -> bool {
    let width = words[0] as u32;
    let height = words[1] as u32;
    let size = Size { width, height };
    let address = words[2] + words[3] * 65536;
    if size.spec_is_empty() {
        r == Err::<DeviceInfo, Error<E>>(Error::InvalidDeviceInfo)
    } else if !plausible_image_buffer(address as u32, size) {
        r == Err::<DeviceInfo, Error<E>>(Error::InvalidImageBufferAddress(address as u32))
    } else {
        r matches Ok(info) && decodes_to(words, info)
    }
}

/// Whether a device-info reply names a usable panel: a non-empty size and a
/// plausible image buffer.
pub open spec fn device_info_accepted(words: Seq<u16>) -> bool {
    let size = Size { width: words[0] as u32, height: words[1] as u32 };
    &&& !size.spec_is_empty()
    &&& plausible_image_buffer((words[2] + words[3] * 65536) as u32, size)
}

/// What `probe` returns for the identity words and VCOM word the controller
/// answered, absent transport failure: the identity checks of `device_info`,
/// then the VCOM check of `vcom`.
pub open spec fn probe_outcome<E>(words: Seq<u16>, value: u16, r: Result<ProbeReport, Error<E>>) -> bool {
    let size = Size { width: words[0] as u32, height: words[1] as u32 };
    let address = (words[2] + words[3] * 65536) as u32;
    if size.spec_is_empty() {
        r == Err::<ProbeReport, Error<E>>(Error::InvalidDeviceInfo)
    } else if !plausible_image_buffer(address, size) {
        r == Err::<ProbeReport, Error<E>>(Error::InvalidImageBufferAddress(address))
    } else if !plausible_vcom(value) {
        r == Err::<ProbeReport, Error<E>>(Error::InvalidVcomResponse)
    } else {
        r matches Ok(report) && decodes_to(words, report.device_info) && report.current_vcom.spec_get() == value
    }
}

/// What `vcom` returns for the word the controller answered.
pub open spec fn vcom_outcome<E>(value: u16, r: Result<VcomMillivolts, Error<E>>) -> bool {
    if plausible_vcom(value) {
        r matches Ok(v) && v.spec_get() == value
    } else {
        r == Err::<VcomMillivolts, Error<E>>(Error::InvalidVcomResponse)
    }
}

/// How many status reads a display wait allows before it gives up: one per
/// poll delay that fits in the timeout, and two more.
pub open spec fn wait_rounds(wait: DisplayWait) -> int {
    wait.spec_timeout_ms() / wait.spec_poll_delay_ms() + 2
}

/// One poll of a busy display engine: the deadline had not passed, the
/// status register read `status`, the deadline still had not passed, and the
/// poll delay followed.
pub open spec fn busy_round(status: u16, poll: u32) -> Seq<TransportOp> {
    seq![TransportOp::DeadlineChecked(false)] + register_read_ops(REGISTER_DISPLAY_STATUS, status) + seq![
        TransportOp::DeadlineChecked(false),
        TransportOp::Delay(poll),
    ]
}

/// Busy polls that read `statuses`, in order.
pub open spec fn busy_rounds(statuses: Seq<u16>, poll: u32) -> Seq<TransportOp>
    decreases statuses.len(),
{
    if statuses.len() == 0 {
        Seq::empty()
    } else {
        busy_rounds(statuses.drop_last(), poll) + busy_round(statuses.last(), poll)
    }
}

/// Whether every status read was non-zero: the engine was busy.
pub open spec fn all_busy(statuses: Seq<u16>) -> bool {
    forall|i: int| 0 <= i < statuses.len() ==> #[trigger] statuses[i] != 0
}

/// How a display wait ends after its busy polls, and what it answers: the
/// poll budget ran out; the deadline had passed before a read; a read gave
/// zero; a non-zero read came after the deadline passed; or a read failed
/// and the deadline answer decides between a timeout and that failure.
pub open spec fn wait_ending<E>(polls: int, budget: int, tail: Seq<TransportOp>, r: Result<(), Error<E>>) -> bool {
    let capped = polls == budget;
    ||| tail.len() == 0 && capped && r == Err::<(), Error<E>>(Error::DisplayTimeout)
    ||| !capped && tail == seq![TransportOp::DeadlineChecked(true)] && r == Err::<(), Error<E>>(Error::DisplayTimeout)
    ||| !capped && tail == seq![TransportOp::DeadlineChecked(false)] + register_read_ops(REGISTER_DISPLAY_STATUS, 0)
        && r == Ok::<(), Error<E>>(())
    ||| !capped && exists|status: u16|
        status != 0 && tail == seq![TransportOp::DeadlineChecked(false)] + #[trigger] register_read_ops(
            REGISTER_DISPLAY_STATUS,
            status,
        ) + seq![TransportOp::DeadlineChecked(true)] && r == Err::<(), Error<E>>(Error::DisplayTimeout)
    ||| !capped && exists|k: int, value: u16|
        1 <= k <= 3 && tail == seq![TransportOp::DeadlineChecked(false)] + #[trigger] register_read_ops(
            REGISTER_DISPLAY_STATUS,
            value,
        ).take(k) + seq![TransportOp::DeadlineChecked(true)] && r == Err::<(), Error<E>>(Error::DisplayTimeout)
    ||| !capped && exists|k: int, value: u16|
        1 <= k <= 3 && tail == seq![TransportOp::DeadlineChecked(false)] + #[trigger] register_read_ops(
            REGISTER_DISPLAY_STATUS,
            value,
        ).take(k) + seq![TransportOp::DeadlineChecked(false)] && transport_failed(r)
}

/// Whether `ops` is a complete display wait that answered `r`: the deadline
/// opened, busy polls, an ending, and the deadline closed.
#[verifier::opaque]
pub open spec fn wait_log<E>(ops: Seq<TransportOp>, wait: DisplayWait, r: Result<(), Error<E>>) -> bool {
    exists|statuses: Seq<u16>, tail: Seq<TransportOp>|
        #![trigger busy_rounds(statuses, wait.spec_poll_delay_ms()), wait_ending(statuses.len() as int, wait_rounds(wait), tail, r)]
        {
            &&& statuses.len() <= wait_rounds(wait)
            &&& all_busy(statuses)
            &&& ops == seq![TransportOp::BeginOperation(wait.spec_timeout_ms())] + busy_rounds(
                statuses,
                wait.spec_poll_delay_ms(),
            ) + tail + seq![TransportOp::EndOperation]
            &&& wait_ending(statuses.len() as int, wait_rounds(wait), tail, r)
        }
}

/// Whether `ops` is a completed wait for an idle display engine: the
/// deadline opened, fewer busy polls than the budget, a zero status read,
/// and the deadline closed.
pub open spec fn waited_until_idle(ops: Seq<TransportOp>, wait: DisplayWait) -> bool {
    exists|statuses: Seq<u16>|
        #![trigger busy_rounds(statuses, wait.spec_poll_delay_ms())]
        {
            &&& statuses.len() < wait_rounds(wait)
            &&& all_busy(statuses)
            &&& ops == seq![TransportOp::BeginOperation(wait.spec_timeout_ms())] + busy_rounds(
                statuses,
                wait.spec_poll_delay_ms(),
            ) + seq![TransportOp::DeadlineChecked(false)] + register_read_ops(REGISTER_DISPLAY_STATUS, 0) + seq![
                TransportOp::EndOperation,
            ]
        }
}

/// What a display wait does after a status read, given whether the deadline
/// had passed (the deadline is asked only about a non-zero status).
#[derive(Clone, Copy, Debug, PartialEq, Eq, Structural)]
pub enum PollStep {
    /// The display engine is idle.
    Idle,
    /// The engine is busy and the deadline has passed.
    TimedOut,
    /// The engine is busy; delay and poll again.
    Again,
}

/// Decides a display wait's next step from a status read and the deadline.
pub fn poll_step(status: u16, timed_out: bool) -> (r: PollStep)
    ensures
        status == 0 ==> r == PollStep::Idle,
        status != 0 && timed_out ==> r == PollStep::TimedOut,
        status != 0 && !timed_out ==> r == PollStep::Again,
{
    if status == 0 {
        PollStep::Idle
    } else if timed_out {
        PollStep::TimedOut
    } else {
        PollStep::Again
    }
}

/// Safe high-level control commands over an IT8951 transport.
///
/// The controller keeps, as ghost state, the sequence of transactions it has
/// asked of its transport; the contracts below state that sequence.
pub struct Controller<T: Transport> {
    transport: T,
    log: Ghost<Seq<TransportOp>>,
    failure: Ghost<Option<T::Error>>,
}

impl<T: Transport> Controller<T> {
    /// The transactions issued so far, in order.
    pub closed spec fn spec_log(&self) -> Seq<TransportOp> {
        self.log@
    }

    pub closed spec fn spec_transport(&self) -> T {
        self.transport
    }

    /// The error that the transport returned from its latest failed call.
    pub closed spec fn spec_last_failure(&self) -> Option<T::Error> {
        self.failure@
    }

    /// Wraps a transport without touching hardware.
    pub fn new(transport: T) -> (r: Controller<T>)
        ensures
            r.spec_log() == Seq::<TransportOp>::empty(),
            r.spec_transport() == transport,
            r.spec_last_failure() is None,
    {
        Controller { transport, log: Ghost(Seq::empty()), failure: Ghost(None) }
    }

    /// Returns the owned transport.
    pub fn into_transport(self) -> (r: T)
        ensures
            r == self.spec_transport(),
    {
        self.transport
    }

    fn do_reset(&mut self) -> (r: Result<(), Error<T::Error>>)
        ensures
            final(self).spec_log() == old(self).spec_log().push(TransportOp::Reset),
            r is Err ==> transport_failed(r),
            r matches Err(Error::Transport(e)) ==> final(self).spec_last_failure() == Some(e),
    {
        let result = self.transport.reset();
        proof {
            self.log@ = self.log@.push(TransportOp::Reset);
        }
        match result {
            Ok(()) => Ok(()),
            Err(e) => {
                proof {
                    self.failure@ = Some(e);
                }
                Err(Error::Transport(e))
            },
        }
    }

    fn send_command(&mut self, command: u16) -> (r: Result<(), Error<T::Error>>)
        ensures
            final(self).spec_log() == old(self).spec_log().push(TransportOp::Command(command)),
            r is Err ==> transport_failed(r),
            r matches Err(Error::Transport(e)) ==> final(self).spec_last_failure() == Some(e),
    {
        let result = self.transport.command(command);
        proof {
            self.log@ = self.log@.push(TransportOp::Command(command));
        }
        match result {
            Ok(()) => Ok(()),
            Err(e) => {
                proof {
                    self.failure@ = Some(e);
                }
                Err(Error::Transport(e))
            },
        }
    }

    fn send_word(&mut self, word: u16) -> (r: Result<(), Error<T::Error>>)
        ensures
            final(self).spec_log() == old(self).spec_log().push(TransportOp::Write(seq![word])),
            r is Err ==> transport_failed(r),
            r matches Err(Error::Transport(e)) ==> final(self).spec_last_failure() == Some(e),
    {
        let result = self.transport.write_word(word);
        proof {
            self.log@ = self.log@.push(TransportOp::Write(seq![word]));
        }
        match result {
            Ok(()) => Ok(()),
            Err(e) => {
                proof {
                    self.failure@ = Some(e);
                }
                Err(Error::Transport(e))
            },
        }
    }

    fn send_words(&mut self, words: &[u16]) -> (r: Result<(), Error<T::Error>>)
        ensures
            final(self).spec_log() == old(self).spec_log().push(TransportOp::Write(words@)),
            r is Err ==> transport_failed(r),
            r matches Err(Error::Transport(e)) ==> final(self).spec_last_failure() == Some(e),
    {
        let result = self.transport.write_words(words);
        proof {
            self.log@ = self.log@.push(TransportOp::Write(words@));
        }
        match result {
            Ok(()) => Ok(()),
            Err(e) => {
                proof {
                    self.failure@ = Some(e);
                }
                Err(Error::Transport(e))
            },
        }
    }

    fn receive_words(&mut self, words: &mut [u16]) -> (r: Result<(), Error<T::Error>>)
        ensures
            final(words)@.len() == old(words)@.len(),
            final(self).spec_log() == old(self).spec_log().push(TransportOp::Read(final(words)@)),
            r is Err ==> transport_failed(r),
            r matches Err(Error::Transport(e)) ==> final(self).spec_last_failure() == Some(e),
    {
        let result = self.transport.read_words(words);
        proof {
            self.log@ = self.log@.push(TransportOp::Read(words@));
        }
        match result {
            Ok(()) => Ok(()),
            Err(e) => {
                proof {
                    self.failure@ = Some(e);
                }
                Err(Error::Transport(e))
            },
        }
    }

    /// Resets, wakes, and probes identity and VCOM without changing VCOM.
    pub fn probe(&mut self) -> (r: Result<ProbeReport, Error<T::Error>>)
        ensures
            old(self).spec_log().is_prefix_of(final(self).spec_log()),
            r is Err ==> transport_failed(r) || r matches Err(Error::InvalidDeviceInfo) || r matches Err(
                Error::InvalidImageBufferAddress(_),
            ) || r matches Err(Error::InvalidVcomResponse),
            r is Ok ==> exists|words: Seq<u16>, value: u16|
                #![trigger probe_ops(words, value)]
                {
                    &&& final(self).spec_log() == old(self).spec_log() + probe_ops(words, value)
                    &&& words.len() == 20
                    &&& decodes_to(words, r->Ok_0.device_info)
                    &&& r->Ok_0.current_vcom.spec_get() == value
                },
            !transport_failed(r) ==> exists|words: Seq<u16>, value: u16|
                #![trigger probe_ops(words, value)]
                {
                    &&& words.len() == 20
                    &&& probe_outcome(words, value, r)
                    &&& final(self).spec_log() == old(self).spec_log() + (if device_info_accepted(words) {
                        probe_ops(words, value)
                    } else {
                        probe_ops(words, value).take(4)
                    })
                },
            transport_failed(r) ==> exists|k: int, words: Seq<u16>, value: u16|
                1 <= k <= 7 && final(self).spec_log() == old(self).spec_log() + #[trigger] probe_ops(
                    words,
                    value,
                ).take(k),
            r matches Err(Error::Transport(e)) ==> final(self).spec_last_failure() == Some(e),
    {
        let ghost start = self.log@;
        match self.do_reset() {
            Ok(()) => {},
            Err(e) => {
                proof {
                    assert(self.log@ =~~= start + probe_ops(seq![], 0).take(1));
                }
                return Err(e);
            },
        }
        match self.wake() {
            Ok(()) => {},
            Err(e) => {
                proof {
                    assert(self.log@ =~~= start + probe_ops(seq![], 0).take(2));
                }
                return Err(e);
            },
        }
        let ghost after_wake = self.log@;
        let info_result = self.device_info();
        let ghost after_info = self.log@;
        let device_info = match info_result {
            Ok(info) => info,
            Err(e) => {
                proof {
                    if transport_failed(info_result) {
                        if after_info == after_wake.push(TransportOp::Command(COMMAND_GET_DEVICE_INFO)) {
                            assert(self.log@ =~~= start + probe_ops(seq![], 0).take(3));
                        } else {
                            let words = choose|words: Seq<u16>|
                                #![trigger device_info_ops(words)]
                                after_info == after_wake + device_info_ops(words);
                            assert(self.log@ =~~= start + probe_ops(words, 0).take(4));
                        }
                    } else {
                        let words = choose|words: Seq<u16>|
                            #![trigger device_info_ops(words)]
                            after_info == after_wake + device_info_ops(words) && words.len() == 20
                                && device_info_outcome(words, info_result);
                        assert(self.log@ =~~= start + probe_ops(words, 0).take(4));
                        assert(probe_outcome(words, 0, Err::<ProbeReport, Error<T::Error>>(e)));
                    }
                }
                return Err(e);
            },
        };
        let ghost words = choose|words: Seq<u16>|
            #![trigger device_info_ops(words)]
            after_info == after_wake + device_info_ops(words) && words.len() == 20 && device_info_outcome(
                words,
                info_result,
            );
        let vcom_result = self.vcom();
        let current_vcom = match vcom_result {
            Ok(v) => v,
            Err(e) => {
                proof {
                    if transport_failed(vcom_result) {
                        let (k, v) = choose|k: int, v: u16|
                            1 <= k <= 3 && self.log@ == after_info + #[trigger] vcom_read_ops(v).take(k);
                        assert(self.log@ =~~= start + probe_ops(words, v).take(4 + k));
                    } else {
                        let value = choose|value: u16|
                            #![trigger vcom_read_ops(value)]
                            self.log@ == after_info + vcom_read_ops(value) && vcom_outcome(value, vcom_result);
                        assert(self.log@ =~~= start + probe_ops(words, value));
                        assert(probe_outcome(words, value, Err::<ProbeReport, Error<T::Error>>(e)));
                    }
                }
                return Err(e);
            },
        };
        let report = ProbeReport { device_info, current_vcom };
        proof {
            let value = choose|value: u16|
                #![trigger vcom_read_ops(value)]
                self.log@ == after_info + vcom_read_ops(value) && vcom_outcome(value, vcom_result);
            assert(self.log@ =~~= start + probe_ops(words, value));
            assert(probe_outcome(words, value, Ok::<ProbeReport, Error<T::Error>>(report)));
        }
        Ok(report)
    }

    /// Reads controller identity without resetting or changing configuration.
    pub fn device_info(&mut self) -> (r: Result<DeviceInfo, Error<T::Error>>)
        ensures
            old(self).spec_log().is_prefix_of(final(self).spec_log()),
            r is Err ==> transport_failed(r) || r matches Err(Error::InvalidDeviceInfo) || r matches Err(
                Error::InvalidImageBufferAddress(_),
            ),
            !transport_failed(r) ==> exists|words: Seq<u16>|
                #![trigger device_info_ops(words)]
                final(self).spec_log() == old(self).spec_log() + device_info_ops(words) && words.len() == 20
                    && device_info_outcome(words, r),
            transport_failed(r) ==> final(self).spec_log() == old(self).spec_log().push(
                TransportOp::Command(COMMAND_GET_DEVICE_INFO),
            ) || exists|words: Seq<u16>|
                #![trigger device_info_ops(words)]
                final(self).spec_log() == old(self).spec_log() + device_info_ops(words),
            r matches Err(Error::Transport(e)) ==> final(self).spec_last_failure() == Some(e),
    {
        let ghost start = self.log@;
        match self.send_command(COMMAND_GET_DEVICE_INFO) {
            Ok(()) => {},
            Err(e) => return Err(e),
        }
        let mut words = [0u16; 20];
        let result = self.receive_words(&mut words);
        match result {
            Ok(()) => {},
            Err(e) => {
                proof {
                    assert(self.log@ =~~= start + device_info_ops(words@));
                }
                return Err(e);
            },
        }
        let info = DeviceInfo::from_words(words.as_slice());
        proof {
            assert(self.log@ =~~= start + device_info_ops(words@));
        }
        if info.panel_size.is_empty() {
            return Err(Error::InvalidDeviceInfo);
        }
        let plausible = match info.panel_size.width.checked_mul(info.panel_size.height) {
            Some(bytes) => {
                info.image_buffer_address != 0 && info.image_buffer_address % 2 == 0 && bytes != 0
                    && info.image_buffer_address.checked_add(bytes - 1).is_some()
            },
            None => false,
        };
        if !plausible {
            return Err(Error::InvalidImageBufferAddress(info.image_buffer_address));
        }
        Ok(info)
    }

    /// Reads the current positive VCOM magnitude.
    pub fn vcom(&mut self) -> (r: Result<VcomMillivolts, Error<T::Error>>)
        ensures
            old(self).spec_log().is_prefix_of(final(self).spec_log()),
            r is Err ==> transport_failed(r) || r matches Err(Error::InvalidVcomResponse),
            !transport_failed(r) ==> exists|value: u16|
                #![trigger vcom_read_ops(value)]
                final(self).spec_log() == old(self).spec_log() + vcom_read_ops(value) && vcom_outcome(value, r),
            transport_failed(r) ==> exists|k: int, value: u16|
                1 <= k <= 3 && final(self).spec_log() == old(self).spec_log() + #[trigger] vcom_read_ops(value).take(
                    k,
                ),
            r matches Err(Error::Transport(e)) ==> final(self).spec_last_failure() == Some(e),
    {
        let ghost start = self.log@;
        match self.send_command(COMMAND_VCOM) {
            Ok(()) => {},
            Err(e) => {
                proof {
                    assert(self.log@ =~~= start + vcom_read_ops(0).take(1));
                }
                return Err(e);
            },
        }
        match self.send_word(0) {
            Ok(()) => {},
            Err(e) => {
                proof {
                    assert(self.log@ =~~= start + vcom_read_ops(0).take(2));
                }
                return Err(e);
            },
        }
        let mut response = [0u16];
        match self.receive_words(&mut response) {
            Ok(()) => {},
            Err(e) => {
                proof {
                    assert(response@ == seq![response@[0]]);
                    assert(self.log@ =~~= start + vcom_read_ops(response@[0]).take(3));
                }
                return Err(e);
            },
        }
        proof {
            assert(response@ == seq![response@[0]]);
            assert(self.log@ =~~= start + vcom_read_ops(response@[0]));
        }
        match VcomMillivolts::new(response[0]) {
            Some(v) => Ok(v),
            None => Err(Error::InvalidVcomResponse),
        }
    }

    /// Explicitly writes VCOM and verifies matching controller readback.
    ///
    /// This changes a panel-health-sensitive setting for the current controller
    /// session. Hardware reset or power loss may restore a controller boot
    /// default, so authorized callers must reapply and verify the exact value
    /// from the panel FPC before every refresh session.
    pub fn set_vcom(&mut self, vcom: VcomMillivolts) -> (r: Result<(), Error<T::Error>>)
        ensures
            old(self).spec_log().is_prefix_of(final(self).spec_log()),
            !transport_failed(r) ==> exists|value: u16|
                #![trigger vcom_read_ops(value)]
                {
                    &&& final(self).spec_log() == old(self).spec_log() + vcom_write_ops(vcom.spec_get())
                        + vcom_read_ops(value)
                    &&& if !plausible_vcom(value) {
                        r == Err::<(), Error<T::Error>>(Error::InvalidVcomResponse)
                    } else if value != vcom.spec_get() {
                        r matches Err(Error::VcomMismatch { requested, observed }) && requested == vcom
                            && observed.spec_get() == value
                    } else {
                        r is Ok
                    }
                },
    {
        let ghost start = self.log@;
        match self.send_command(COMMAND_VCOM) {
            Ok(()) => {},
            Err(e) => return Err(e),
        }
        match self.send_word(1) {
            Ok(()) => {},
            Err(e) => return Err(e),
        }
        match self.send_word(vcom.get()) {
            Ok(()) => {},
            Err(e) => return Err(e),
        }
        let ghost after_write = self.log@;
        assert(after_write =~~= start + vcom_write_ops(vcom.spec_get()));
        let observed = match self.vcom() {
            Ok(v) => v,
            Err(e) => {
                proof {
                    if !transport_failed(Err::<(), Error<T::Error>>(e)) {
                        let value = choose|value: u16|
                            #![trigger vcom_read_ops(value)]
                            self.log@ == after_write + vcom_read_ops(value) && vcom_outcome(
                                value,
                                Err::<VcomMillivolts, Error<T::Error>>(e),
                            );
                        assert(self.log@ =~~= start + vcom_write_ops(vcom.spec_get()) + vcom_read_ops(value));
                    }
                }
                return Err(e);
            },
        };
        let ghost value = choose|value: u16|
            #![trigger vcom_read_ops(value)]
            self.log@ == after_write + vcom_read_ops(value) && vcom_outcome(
                value,
                Ok::<VcomMillivolts, Error<T::Error>>(observed),
            );
        proof {
            assert(self.log@ =~~= start + vcom_write_ops(vcom.spec_get()) + vcom_read_ops(value));
        }
        if observed.get() != vcom.get() {
            return Err(Error::VcomMismatch { requested: vcom, observed });
        }
        proof {
            use_type_invariant(&observed);
            use_type_invariant(&vcom);
        }
        Ok(())
    }

    /// Puts a reset or standby controller in system-run state.
    ///
    /// Deep sleep requires reset and reprobe; [`It8951Display::wake`] performs
    /// that complete lifecycle.
    pub fn wake(&mut self) -> (r: Result<(), Error<T::Error>>)
        ensures
            final(self).spec_log() == old(self).spec_log().push(TransportOp::Command(COMMAND_SYSTEM_RUN)),
            r is Err ==> transport_failed(r),
            r matches Err(Error::Transport(e)) ==> final(self).spec_last_failure() == Some(e),
    {
        self.send_command(COMMAND_SYSTEM_RUN)
    }

    /// Puts the controller in standby state.
    pub fn standby(&mut self) -> (r: Result<(), Error<T::Error>>)
        ensures
            final(self).spec_log() == old(self).spec_log().push(TransportOp::Command(COMMAND_STANDBY)),
            r is Err ==> transport_failed(r),
            r matches Err(Error::Transport(e)) ==> final(self).spec_last_failure() == Some(e),
    {
        self.send_command(COMMAND_STANDBY)
    }

    /// Puts the controller in sleep state.
    pub fn sleep(&mut self) -> (r: Result<(), Error<T::Error>>)
        ensures
            final(self).spec_log() == old(self).spec_log().push(TransportOp::Command(COMMAND_SLEEP)),
            r is Err ==> transport_failed(r),
            r matches Err(Error::Transport(e)) ==> final(self).spec_last_failure() == Some(e),
    {
        self.send_command(COMMAND_SLEEP)
    }

    fn write_register(&mut self, address: u16, value: u16) -> (r: Result<(), Error<T::Error>>)
        ensures
            old(self).spec_log().is_prefix_of(final(self).spec_log()),
            r is Err ==> transport_failed(r),
            r is Ok ==> final(self).spec_log() == old(self).spec_log() + register_write_ops(address, value),
    {
        let ghost start = self.log@;
        match self.send_command(COMMAND_REGISTER_WRITE) {
            Ok(()) => {},
            Err(e) => return Err(e),
        }
        match self.send_word(address) {
            Ok(()) => {},
            Err(e) => return Err(e),
        }
        let result = self.send_word(value);
        proof {
            assert(self.log@ =~~= start + register_write_ops(address, value));
        }
        result
    }

    fn read_register(&mut self, address: u16) -> (r: Result<u16, Error<T::Error>>)
        ensures
            old(self).spec_log().is_prefix_of(final(self).spec_log()),
            r is Err ==> transport_failed(r),
            r is Ok ==> final(self).spec_log() == old(self).spec_log() + register_read_ops(address, r->Ok_0),
            r is Err ==> exists|k: int, value: u16|
                1 <= k <= 3 && final(self).spec_log() == old(self).spec_log() + #[trigger] register_read_ops(
                    address,
                    value,
                ).take(k),
    {
        let ghost start = self.log@;
        match self.send_command(COMMAND_REGISTER_READ) {
            Ok(()) => {},
            Err(e) => {
                proof {
                    assert(self.log@ =~~= start + register_read_ops(address, 0).take(1));
                }
                return Err(e);
            },
        }
        match self.send_word(address) {
            Ok(()) => {},
            Err(e) => {
                proof {
                    assert(self.log@ =~~= start + register_read_ops(address, 0).take(2));
                }
                return Err(e);
            },
        }
        let mut value = [0u16];
        match self.receive_words(&mut value) {
            Ok(()) => {},
            Err(e) => {
                proof {
                    assert(value@ == seq![value@[0]]);
                    assert(self.log@ =~~= start + register_read_ops(address, value@[0]).take(3));
                }
                return Err(e);
            },
        }
        proof {
            assert(value@ == seq![value@[0]]);
            assert(self.log@ =~~= start + register_read_ops(address, value@[0]));
        }
        Ok(value[0])
    }

    fn write_image_address(&mut self, address: u32) -> (r: Result<(), Error<T::Error>>)
        ensures
            old(self).spec_log().is_prefix_of(final(self).spec_log()),
            r is Err ==> transport_failed(r),
            r is Ok ==> final(self).spec_log() == old(self).spec_log() + image_address_ops(address),
    {
        let ghost start = self.log@;
        let low = (address % 65536) as u16;
        let high = (address / 65536) as u16;
        match self.write_register(REGISTER_IMAGE_ADDRESS + 2, high) {
            Ok(()) => {},
            Err(e) => return Err(e),
        }
        let result = self.write_register(REGISTER_IMAGE_ADDRESS, low);
        proof {
            assert(self.log@.is_prefix_of(self.log@));
            if result is Ok {
                assert(self.log@ =~~= start + image_address_ops(address));
            }
        }
        result
    }

    fn load_image_area(&mut self, width: u16, height: u16, words: &[u16]) -> (r: Result<(), Error<T::Error>>)
        ensures
            old(self).spec_log().is_prefix_of(final(self).spec_log()),
            r is Err ==> transport_failed(r),
            r is Ok ==> final(self).spec_log() == old(self).spec_log() + load_area_ops(width, height, words@),
    {
        let ghost start = self.log@;
        match self.send_command(COMMAND_LOAD_IMAGE_AREA) {
            Ok(()) => {},
            Err(e) => return Err(e),
        }
        match self.send_word(PIXEL_FORMAT_GRAY4 * 16) {
            Ok(()) => {},
            Err(e) => return Err(e),
        }
        match self.send_word(0) {
            Ok(()) => {},
            Err(e) => return Err(e),
        }
        match self.send_word(0) {
            Ok(()) => {},
            Err(e) => return Err(e),
        }
        match self.send_word(width) {
            Ok(()) => {},
            Err(e) => return Err(e),
        }
        match self.send_word(height) {
            Ok(()) => {},
            Err(e) => return Err(e),
        }
        match self.send_words(words) {
            Ok(()) => {},
            Err(e) => return Err(e),
        }
        let result = self.send_command(COMMAND_LOAD_IMAGE_END);
        proof {
            if result is Ok {
                assert(self.log@ =~~= start + load_area_ops(width, height, words@));
            }
        }
        result
    }

    fn display_image_area(&mut self, width: u16, height: u16, mode: u16, low: u16, high: u16) -> (r: Result<
        (),
        Error<T::Error>,
    >)
        ensures
            old(self).spec_log().is_prefix_of(final(self).spec_log()),
            r is Err ==> transport_failed(r),
            r is Ok ==> final(self).spec_log() == old(self).spec_log() + display_area_ops(
                width,
                height,
                mode,
                low,
                high,
            ),
    {
        let ghost start = self.log@;
        match self.send_command(COMMAND_DISPLAY_BUFFER_AREA) {
            Ok(()) => {},
            Err(e) => return Err(e),
        }
        match self.send_word(0) {
            Ok(()) => {},
            Err(e) => return Err(e),
        }
        match self.send_word(0) {
            Ok(()) => {},
            Err(e) => return Err(e),
        }
        match self.send_word(width) {
            Ok(()) => {},
            Err(e) => return Err(e),
        }
        match self.send_word(height) {
            Ok(()) => {},
            Err(e) => return Err(e),
        }
        match self.send_word(mode) {
            Ok(()) => {},
            Err(e) => return Err(e),
        }
        match self.send_word(low) {
            Ok(()) => {},
            Err(e) => return Err(e),
        }
        let result = self.send_word(high);
        proof {
            if result is Ok {
                assert(self.log@ =~~= start + display_area_ops(width, height, mode, low, high));
            }
        }
        result
    }

    /// Polls the display engine until it reports idle.
    ///
    /// The transport's operation deadline decides timeouts; in addition the
    /// engine is polled at most `timeout / poll_delay + 2` times.
    /// Asks the transport whether the shared deadline has passed.
    fn deadline_passed(&mut self) -> (r: bool)
        ensures
            final(self).spec_log() == old(self).spec_log().push(TransportOp::DeadlineChecked(r)),
            final(self).spec_last_failure() == old(self).spec_last_failure(),
    {
        let passed = self.transport.operation_timed_out();
        proof {
            self.log@ = self.log@.push(TransportOp::DeadlineChecked(passed));
        }
        passed
    }

    fn wait_for_display(&mut self, wait: DisplayWait) -> (r: Result<(), Error<T::Error>>)
        ensures
            old(self).spec_log().is_prefix_of(final(self).spec_log()),
            wait_log(final(self).spec_log().skip(old(self).spec_log().len() as int), wait, r),
            r is Ok ==> waited_until_idle(final(self).spec_log().skip(old(self).spec_log().len() as int), wait),
            r is Err ==> transport_failed(r) || r == Err::<(), Error<T::Error>>(Error::DisplayTimeout),
            final(self).spec_log().len() >= old(self).spec_log().len() + 2,
            final(self).spec_log()[old(self).spec_log().len() as int] == TransportOp::BeginOperation(
                wait.spec_timeout_ms(),
            ),
            final(self).spec_log().last() == TransportOp::EndOperation,
    {
        proof {
            use_type_invariant(&wait);
        }
        let ghost start = self.log@;
        let timeout = wait.timeout_ms();
        let poll = wait.poll_delay_ms();
        self.transport.begin_operation(timeout);
        proof {
            self.log@ = self.log@.push(TransportOp::BeginOperation(timeout));
        }
        let max_polls: u64 = timeout as u64 / poll as u64 + 2;
        let mut polls: u64 = 0;
        let ghost mut statuses: Seq<u16> = Seq::empty();
        let ghost mut tail: Seq<TransportOp> = Seq::empty();
        let mut result: Result<(), Error<T::Error>> = Err(Error::DisplayTimeout);
        proof {
            assert(self.log@ =~~= start + seq![TransportOp::BeginOperation(timeout)] + busy_rounds(statuses, poll));
        }
        while polls < max_polls
            invariant_except_break
                max_polls == wait_rounds(wait),
                timeout == wait.spec_timeout_ms(),
                poll == wait.spec_poll_delay_ms(),
                polls <= max_polls,
                statuses.len() == polls,
                all_busy(statuses),
                tail == Seq::<TransportOp>::empty(),
                result == Err::<(), Error<T::Error>>(Error::DisplayTimeout),
                self.log@ == start + seq![TransportOp::BeginOperation(timeout)] + busy_rounds(statuses, poll),
            ensures
                max_polls == wait_rounds(wait),
                timeout == wait.spec_timeout_ms(),
                poll == wait.spec_poll_delay_ms(),
                statuses.len() <= max_polls,
                all_busy(statuses),
                self.log@ == start + seq![TransportOp::BeginOperation(timeout)] + busy_rounds(statuses, poll) + tail,
                wait_ending(statuses.len() as int, max_polls as int, tail, result),
            decreases max_polls - polls,
        {
            let ghost before = self.log@;
            if self.deadline_passed() {
                proof {
                    tail = seq![TransportOp::DeadlineChecked(true)];
                    assert(self.log@ =~~= before + tail);
                }
                break;
            }
            let ghost checked = self.log@;
            let status = match self.read_register(REGISTER_DISPLAY_STATUS) {
                Ok(status) => status,
                Err(error) => {
                    let ghost failed = self.log@;
                    let passed = self.deadline_passed();
                    proof {
                        let (k, value) = choose|k: int, value: u16|
                            1 <= k <= 3 && failed == checked + #[trigger] register_read_ops(
                                REGISTER_DISPLAY_STATUS,
                                value,
                            ).take(k);
                        tail = seq![TransportOp::DeadlineChecked(false)] + register_read_ops(
                            REGISTER_DISPLAY_STATUS,
                            value,
                        ).take(k) + seq![TransportOp::DeadlineChecked(passed)];
                        assert(self.log@ =~~= before + tail);
                    }
                    if !passed {
                        result = Err(error);
                    }
                    break;
                },
            };
            let ghost read = self.log@;
            let timed_out = status != 0 && self.deadline_passed();
            match poll_step(status, timed_out) {
                PollStep::Idle => {
                    proof {
                        tail = seq![TransportOp::DeadlineChecked(false)] + register_read_ops(
                            REGISTER_DISPLAY_STATUS,
                            0,
                        );
                        assert(self.log@ =~~= before + tail);
                    }
                    result = Ok(());
                    break;
                },
                PollStep::TimedOut => {
                    proof {
                        tail = seq![TransportOp::DeadlineChecked(false)] + register_read_ops(
                            REGISTER_DISPLAY_STATUS,
                            status,
                        ) + seq![TransportOp::DeadlineChecked(true)];
                        assert(self.log@ =~~= before + tail);
                    }
                    break;
                },
                PollStep::Again => {},
            }
            self.transport.delay_ms(poll);
            proof {
                self.log@ = self.log@.push(TransportOp::Delay(poll));
                assert(self.log@ =~~= before + busy_round(status, poll));
                let next = statuses.push(status);
                assert(next.drop_last() =~= statuses);
                assert(busy_rounds(next, poll) == busy_rounds(statuses, poll) + busy_round(status, poll));
                assert forall|i: int| 0 <= i < next.len() implies #[trigger] next[i] != 0 by {
                    if i < statuses.len() {
                        assert(next[i] == statuses[i]);
                    }
                }
                statuses = next;
                assert(self.log@ =~~= start + seq![TransportOp::BeginOperation(timeout)] + busy_rounds(statuses, poll));
            }
            polls = polls + 1;
        }
        self.transport.end_operation();
        proof {
            self.log@ = self.log@.push(TransportOp::EndOperation);
            let ops = self.log@.skip(start.len() as int);
            assert(ops =~~= seq![TransportOp::BeginOperation(timeout)] + busy_rounds(statuses, poll) + tail + seq![
                TransportOp::EndOperation,
            ]);
            reveal(wait_log);
            assert(wait_log(ops, wait, result));
            if result is Ok {
                assert(tail =~~= seq![TransportOp::DeadlineChecked(false)] + register_read_ops(
                    REGISTER_DISPLAY_STATUS,
                    0,
                ));
                assert(ops =~~= seq![TransportOp::BeginOperation(timeout)] + busy_rounds(statuses, poll) + seq![
                    TransportOp::DeadlineChecked(false),
                ] + register_read_ops(REGISTER_DISPLAY_STATUS, 0) + seq![TransportOp::EndOperation]);
            }
        }
        result
    }
}

/// The profiles the full-screen backend implements: Gray4 initialize and
/// Gray4 grayscale, both full-panel only.
pub open spec fn implemented_profiles() -> Seq<UpdateProfile> {
    let unrestricted = UpdateConstraints::spec_new(1, 1, 1, 1);
    seq![
        UpdateProfile {
            pixel_format: PixelFormat::Gray4,
            waveform: Waveform::Initialize,
            partial: false,
            constraints: unrestricted,
        },
        UpdateProfile {
            pixel_format: PixelFormat::Gray4,
            waveform: Waveform::Grayscale,
            partial: false,
            constraints: unrestricted,
        },
    ]
}

/// Why an update request is rejected before any transaction, or the packed
/// row length when it is accepted.
pub open spec fn spec_validate(
    region: Rect,
    pixel_format: PixelFormat,
    waveform: Waveform,
    stride_bytes: usize,
    pixel_count: int,
    panel: Size,
    caps: DisplayCapabilities,
) -> Result<int, UpdateError> {
    let row_bytes = pixel_format.spec_row_bytes(region.size.width);
    if region != rect(0, 0, panel.width, panel.height) {
        Err(UpdateError::FullScreenOnly)
    } else if caps.spec_profile(pixel_format, waveform) is None {
        Err(UpdateError::UnsupportedProfile)
    } else if region.size.width > u16::MAX || region.size.height > u16::MAX {
        Err(UpdateError::GeometryTooLarge)
    } else if row_bytes % 2 != 0 {
        Err(UpdateError::OddRowBytes)
    } else if stride_bytes < row_bytes {
        Err(UpdateError::ShortStride)
    } else if region.size.height == 0 || (region.size.height - 1) * stride_bytes > usize::MAX || (
    region.size.height - 1) * stride_bytes + row_bytes > usize::MAX {
        Err(UpdateError::GeometryTooLarge)
    } else if pixel_count < (region.size.height - 1) * stride_bytes + row_bytes {
        Err(UpdateError::ShortBuffer)
    } else {
        Ok(row_bytes)
    }
}

/// The packed-write words of an accepted Gray4 request, row by row.
pub open spec fn packed_words(pixels: Seq<u8>, stride: int, row_bytes: int, height: int) -> Seq<u16> {
    let half = row_bytes / 2;
    Seq::new(
        (height * half) as nat,
        |j: int|
            {
                let row = j / half;
                let k = j % half;
                spec_gray4_word(pixels[row * stride + 2 * k], pixels[row * stride + 2 * k + 1])
            },
    )
}

/// The controller mode that renders a waveform, for the waveforms the
/// backend implements.
pub open spec fn spec_mode(waveform: Waveform) -> Option<u16> {
    match waveform {
        Waveform::Initialize => Some(MODE_INITIALIZE),
        Waveform::Grayscale => Some(MODE_GRAYSCALE),
        _ => None,
    }
}

/// Each waveform the backend implements has a controller mode of its own:
/// white initialization runs INIT (mode 0), a grayscale update runs GC16
/// (mode 2), and no two waveforms share a mode.
pub proof fn lemma_waveform_modes(w: Waveform, v: Waveform)
    ensures
        spec_mode(w) == Some(0u16) <==> w == Waveform::Initialize,
        spec_mode(w) == Some(2u16) <==> w == Waveform::Grayscale,
        spec_mode(w) is Some && spec_mode(w) == spec_mode(v) ==> w == v,
{
}

/// The two register writes that point the controller at its image buffer.
pub open spec fn image_address_ops(address: u32) -> Seq<TransportOp> {
    let low = (address % 65536) as u16;
    let high = (address / 65536) as u16;
    register_write_ops((REGISTER_IMAGE_ADDRESS + 2) as u16, high) + register_write_ops(REGISTER_IMAGE_ADDRESS, low)
}

/// The packed Gray4 image-area load of `words` covering `width` x `height`.
pub open spec fn load_area_ops(width: u16, height: u16, words: Seq<u16>) -> Seq<TransportOp> {
    seq![
        TransportOp::Command(COMMAND_LOAD_IMAGE_AREA),
        TransportOp::Write(seq![(PIXEL_FORMAT_GRAY4 * 16) as u16]),
        TransportOp::Write(seq![0u16]),
        TransportOp::Write(seq![0u16]),
        TransportOp::Write(seq![width]),
        TransportOp::Write(seq![height]),
        TransportOp::Write(words),
        TransportOp::Command(COMMAND_LOAD_IMAGE_END),
    ]
}

/// The display command for the loaded area with the given mode.
pub open spec fn display_area_ops(width: u16, height: u16, mode: u16, low: u16, high: u16) -> Seq<TransportOp> {
    seq![
        TransportOp::Command(COMMAND_DISPLAY_BUFFER_AREA),
        TransportOp::Write(seq![0u16]),
        TransportOp::Write(seq![0u16]),
        TransportOp::Write(seq![width]),
        TransportOp::Write(seq![height]),
        TransportOp::Write(seq![mode]),
        TransportOp::Write(seq![low]),
        TransportOp::Write(seq![high]),
    ]
}

/// The transactions between the two display-engine waits of a full Gray4
/// upload: image address, packed-write mode, the image area and its words,
/// and the display command.
pub open spec fn upload_ops(address: u32, width: u16, height: u16, words: Seq<u16>, mode: u16) -> Seq<TransportOp> {
    let low = (address % 65536) as u16;
    let high = (address / 65536) as u16;
    image_address_ops(address) + register_write_ops(REGISTER_PACKED_WRITE, 1) + load_area_ops(width, height, words)
        + display_area_ops(width, height, mode, low, high)
}

/// An upload points the controller at the whole image-buffer address and
/// refreshes with the given mode: the two address registers receive the
/// address's high and low halves, and the display command ends with the
/// mode and the same two halves, which recombine to the address.
pub proof fn lemma_upload_targets_the_image_buffer(address: u32, width: u16, height: u16, words: Seq<u16>, mode: u16)
    ensures
        ({
            let ops = upload_ops(address, width, height, words, mode);
            let n = ops.len() as int;
            let high = ops[2]->Write_0[0];
            let low = ops[5]->Write_0[0];
            &&& low + high * 65536 == address
            &&& ops[0] == TransportOp::Command(COMMAND_REGISTER_WRITE)
            &&& ops[1] == TransportOp::Write(seq![(REGISTER_IMAGE_ADDRESS + 2) as u16])
            &&& ops[2] == TransportOp::Write(seq![high])
            &&& ops[4] == TransportOp::Write(seq![REGISTER_IMAGE_ADDRESS])
            &&& ops[5] == TransportOp::Write(seq![low])
            &&& ops[n - 8] == TransportOp::Command(COMMAND_DISPLAY_BUFFER_AREA)
            &&& ops[n - 3] == TransportOp::Write(seq![mode])
            &&& ops[n - 2] == TransportOp::Write(seq![low])
            &&& ops[n - 1] == TransportOp::Write(seq![high])
        }),
{
    let low = (address % 65536) as u16;
    let high = (address / 65536) as u16;
    assert(low + high * 65536 == address);
}

/// The packed-write word numbers pixels from its least-significant nibble:
/// its four nibbles, lowest first, are the two source bytes' pixels, each
/// byte read from its most-significant nibble.
pub proof fn lemma_gray4_word_pixel_order(first: u8, second: u8)
    ensures
        spec_gray4_word(first, second) % 16 == first / 16,
        spec_gray4_word(first, second) / 16 % 16 == first % 16,
        spec_gray4_word(first, second) / 256 % 16 == second / 16,
        spec_gray4_word(first, second) / 4096 == second % 16,
{
    let w = spec_gray4_word(first, second);
    let a = first / 16;
    let b = first % 16;
    let c = second / 16;
    let d = second % 16;
    assert(w == d * 4096 + c * 256 + b * 16 + a);
}

/// Whether two identities are the same controller and panel.
pub open spec fn same_device(a: DeviceInfo, b: DeviceInfo) -> bool {
    &&& a.panel_size == b.panel_size
    &&& a.image_buffer_address == b.image_buffer_address
    &&& a.firmware_version@ == b.firmware_version@
    &&& a.lut_version@ == b.lut_version@
}

fn bytes16_equal(a: &[u8; 16], b: &[u8; 16]) -> (r: bool)
    ensures
        r == (a@ == b@),
{
    let mut i: usize = 0;
    while i < 16
        invariant
            0 <= i <= 16,
            a@.len() == 16,
            b@.len() == 16,
            forall|k: int| 0 <= k < i ==> a@[k] == b@[k],
        decreases 16 - i,
    {
        if a[i] != b[i] {
            return false;
        }
        i = i + 1;
    }
    proof {
        assert(a@ =~= b@);
    }
    true
}

/// Compares two probed identities field by field.
pub fn device_info_matches(a: &DeviceInfo, b: &DeviceInfo) -> (r: bool)
    ensures
        r == same_device(*a, *b),
{
    a.panel_size == b.panel_size && a.image_buffer_address == b.image_buffer_address && bytes16_equal(
        &a.firmware_version,
        &b.firmware_version,
    ) && bytes16_equal(&a.lut_version, &b.lut_version)
}

/// Conservative full-screen IT8951 display backend.
///
/// Construction does not touch hardware. Callers first probe and verify the
/// returned identity and VCOM, then pass the still-awake controller here.
pub struct It8951Display<T: Transport> {
    controller: Controller<T>,
    device_info: DeviceInfo,
    expected_vcom: VcomMillivolts,
    capabilities: DisplayCapabilities,
    wait: DisplayWait,
}

impl<T: Transport> It8951Display<T> {
    pub closed spec fn spec_controller(&self) -> Controller<T> {
        self.controller
    }

    pub closed spec fn spec_device_info(&self) -> DeviceInfo {
        self.device_info
    }

    pub closed spec fn spec_expected_vcom(&self) -> VcomMillivolts {
        self.expected_vcom
    }

    pub closed spec fn spec_capabilities(&self) -> DisplayCapabilities {
        self.capabilities
    }

    pub closed spec fn spec_wait(&self) -> DisplayWait {
        self.wait
    }

    /// Builds a display from an already-probed controller.
    pub fn new(controller: Controller<T>, report: ProbeReport, wait: DisplayWait) -> (r: It8951Display<T>)
        ensures
            r.spec_controller() == controller,
            r.spec_device_info() == report.device_info,
            r.spec_expected_vcom() == report.current_vcom,
            r.spec_wait() == wait,
            r.spec_capabilities().native_size == report.device_info.panel_size,
            r.spec_capabilities().update_profiles@ == implemented_profiles(),
    {
        let mut update_profiles: Vec<UpdateProfile> = Vec::new();
        update_profiles.push(
            UpdateProfile::new(PixelFormat::Gray4, Waveform::Initialize, false, UpdateConstraints::unrestricted()),
        );
        update_profiles.push(
            UpdateProfile::new(PixelFormat::Gray4, Waveform::Grayscale, false, UpdateConstraints::unrestricted()),
        );
        proof {
            assert(update_profiles@ =~= implemented_profiles());
        }
        It8951Display {
            controller,
            device_info: report.device_info,
            expected_vcom: report.current_vcom,
            capabilities: DisplayCapabilities { native_size: report.device_info.panel_size, update_profiles },
            wait,
        }
    }

    /// Returns the owned controller for explicit cleanup or further diagnostics.
    pub fn into_controller(self) -> (r: Controller<T>)
        ensures
            r == self.spec_controller(),
    {
        self.controller
    }

    fn validate(&self, request: &UpdateRequest<'_>) -> (r: Result<usize, UpdateError>)
        ensures
            match spec_validate(
                request.region,
                request.pixel_format,
                request.waveform,
                request.stride_bytes,
                request.pixels@.len() as int,
                self.spec_device_info().panel_size,
                self.spec_capabilities(),
            ) {
                Ok(row_bytes) => r == Ok::<usize, UpdateError>(row_bytes as usize),
                Err(e) => r == Err::<usize, UpdateError>(e),
            },
    {
        if request.region != Rect::from_size(self.device_info.panel_size) {
            return Err(UpdateError::FullScreenOnly);
        }
        if self.capabilities.profile(request.pixel_format, request.waveform).is_none() {
            return Err(UpdateError::UnsupportedProfile);
        }
        if request.region.size.width > 65535 || request.region.size.height > 65535 {
            return Err(UpdateError::GeometryTooLarge);
        }
        let row_bytes = match request.pixel_format.row_bytes(request.region.size.width) {
            Some(row_bytes) => row_bytes,
            None => return Err(UpdateError::GeometryTooLarge),
        };
        if row_bytes % 2 != 0 {
            return Err(UpdateError::OddRowBytes);
        }
        if request.stride_bytes < row_bytes {
            return Err(UpdateError::ShortStride);
        }
        if request.region.size.height == 0 {
            return Err(UpdateError::GeometryTooLarge);
        }
        let rows = (request.region.size.height - 1) as usize;
        let offset = match rows.checked_mul(request.stride_bytes) {
            Some(offset) => offset,
            None => return Err(UpdateError::GeometryTooLarge),
        };
        let last_row = match offset.checked_add(row_bytes) {
            Some(last_row) => last_row,
            None => return Err(UpdateError::GeometryTooLarge),
        };
        if request.pixels.len() < last_row {
            return Err(UpdateError::ShortBuffer);
        }
        Ok(row_bytes)
    }
}

/// Packs every source row of an accepted Gray4 request into controller words.
fn pack_gray4_rows(pixels: &[u8], stride: usize, row_bytes: usize, height: u32) -> (r: Vec<u16>)
    requires
        height >= 1,
        row_bytes % 2 == 0,
        row_bytes <= stride,
        (height - 1) * stride + row_bytes <= pixels@.len(),
    ensures
        r@ == packed_words(pixels@, stride as int, row_bytes as int, height as int),
{
    let half = row_bytes / 2;
    let mut words: Vec<u16> = Vec::new();
    let mut row: usize = 0;
    let ghost target = packed_words(pixels@, stride as int, row_bytes as int, height as int);
    proof {
        assert(row_bytes as int * (height as int - 1) <= stride * (height as int - 1)) by (nonlinear_arith)
            requires
                row_bytes <= stride,
                height >= 1,
        ;
    }
    while row < height as usize
        invariant
            half == row_bytes / 2,
            row_bytes % 2 == 0,
            row_bytes <= stride,
            height >= 1,
            (height - 1) * stride + row_bytes <= pixels@.len(),
            pixels@.len() == pixels.len(),
            0 <= row <= height,
            target == packed_words(pixels@, stride as int, row_bytes as int, height as int),
            words@.len() == row * half,
            forall|j: int| 0 <= j < words@.len() ==> #[trigger] words@[j] == target[j],
        decreases height - row,
    {
        let mut k: usize = 0;
        proof {
            assert(row * stride <= (height - 1) * stride) by (nonlinear_arith)
                requires
                    row <= height - 1,
            ;
        }
        let start = row * stride;
        while k < half
            invariant
                half == row_bytes / 2,
                row_bytes % 2 == 0,
                row_bytes <= stride,
                height >= 1,
                (height - 1) * stride + row_bytes <= pixels@.len(),
                0 <= row < height,
                start == row * stride,
                start + row_bytes <= pixels@.len(),
                pixels@.len() == pixels.len(),
                0 <= k <= half,
                target == packed_words(pixels@, stride as int, row_bytes as int, height as int),
                words@.len() == row * half + k,
                forall|j: int| 0 <= j < words@.len() ==> #[trigger] words@[j] == target[j],
            decreases half - k,
        {
            let first = pixels[start + 2 * k];
            let second = pixels[start + 2 * k + 1];
            let word = controller_gray4_word(first, second);
            proof {
                let j = row * half + k;
                crate::graphics::lemma_coords(k as int, row as int, half as int);
                assert(j < height * half) by (nonlinear_arith)
                    requires
                        row < height,
                        k < half,
                        j == row * half + k,
                ;
                assert(target[j] == word);
            }
            words.push(word);
            k = k + 1;
        }
        proof {
            assert(row * half + half == (row + 1) * half) by (nonlinear_arith);
        }
        row = row + 1;
    }
    proof {
        assert(words@ =~= target);
    }
    words
}

/// What an update does when the transport neither fails nor times out.
pub open spec fn upload_outcome<E>(
    validation: Result<int, UpdateError>,
    request_format: PixelFormat,
    request_waveform: Waveform,
    r: Result<(), Error<E>>,
) -> bool {
    match validation {
        Err(e) => r == Err::<(), Error<E>>(Error::InvalidUpdate(e)),
        Ok(_) => if request_format == PixelFormat::Gray4 && spec_mode(request_waveform) is Some {
            r is Ok
        } else {
            r == Err::<(), Error<E>>(Error::InvalidUpdate(UpdateError::UnsupportedProfile))
        },
    }
}

impl<T: Transport> It8951Display<T> {
    /// The validation verdict for a request against this display.
    pub open spec fn spec_check(&self, request: UpdateRequest<'_>) -> Result<int, UpdateError> {
        spec_validate(
            request.region,
            request.pixel_format,
            request.waveform,
            request.stride_bytes,
            request.pixels@.len() as int,
            self.spec_device_info().panel_size,
            self.spec_capabilities(),
        )
    }

    /// Whether a log suffix is a complete upload of `request`.
    pub open spec fn spec_uploaded(&self, ops: Seq<TransportOp>, request: UpdateRequest<'_>) -> bool {
        let row_bytes = request.pixel_format.spec_row_bytes(request.region.size.width);
        exists|a: Seq<TransportOp>, b: Seq<TransportOp>|
            #![trigger waited_until_idle(a, self.spec_wait()), waited_until_idle(b, self.spec_wait())]
            {
                &&& waited_until_idle(a, self.spec_wait())
                &&& waited_until_idle(b, self.spec_wait())
                &&& ops =~~= a + upload_ops(
                    self.spec_device_info().image_buffer_address,
                    request.region.size.width as u16,
                    request.region.size.height as u16,
                    packed_words(
                        request.pixels@,
                        request.stride_bytes as int,
                        row_bytes,
                        request.region.size.height as int,
                    ),
                    spec_mode(request.waveform)->0,
                ) + b
            }
    }

    fn update_inner(&mut self, request: UpdateRequest<'_>) -> (r: Result<(), Error<T::Error>>)
        ensures
            final(self).spec_device_info() == old(self).spec_device_info(),
            final(self).spec_expected_vcom() == old(self).spec_expected_vcom(),
            final(self).spec_capabilities() == old(self).spec_capabilities(),
            final(self).spec_wait() == old(self).spec_wait(),
            old(self).spec_controller().spec_log().is_prefix_of(final(self).spec_controller().spec_log()),
            old(self).spec_check(request) is Err ==> final(self).spec_controller().spec_log() == old(
                self,
            ).spec_controller().spec_log(),
            old(self).spec_check(request) matches Err(e) ==> r == Err::<(), Error<T::Error>>(Error::InvalidUpdate(e)),
            r == Err::<(), Error<T::Error>>(Error::DisplayTimeout) ==> exists|k: int|
                old(self).spec_controller().spec_log().len() <= k <= final(self).spec_controller().spec_log().len()
                    && #[trigger] wait_log(
                    final(self).spec_controller().spec_log().skip(k),
                    old(self).spec_wait(),
                    Err::<(), Error<T::Error>>(Error::DisplayTimeout),
                ),
            !transport_failed(r) && r != Err::<(), Error<T::Error>>(Error::DisplayTimeout) ==> upload_outcome(
                old(self).spec_check(request),
                request.pixel_format,
                request.waveform,
                r,
            ),
            r is Ok ==> old(self).spec_uploaded(
                final(self).spec_controller().spec_log().skip(old(self).spec_controller().spec_log().len() as int),
                request,
            ),
    {
        let row_bytes = match self.validate(&request) {
            Ok(row_bytes) => row_bytes,
            Err(e) => return Err(Error::InvalidUpdate(e)),
        };
        let width = request.region.size.width as u16;
        let height = request.region.size.height as u16;
        let address = self.device_info.image_buffer_address;
        let ghost start = self.controller.log@;
        let first = self.controller.wait_for_display(self.wait);
        match first {
            Ok(()) => {},
            Err(e) => {
                proof {
                    assert(wait_log(self.controller.log@.skip(start.len() as int), self.wait, first));
                }
                return Err(e);
            },
        }
        let ghost after_first_wait = self.controller.log@;
        match self.controller.write_image_address(address) {
            Ok(()) => {},
            Err(e) => return Err(e),
        }
        match request.pixel_format {
            PixelFormat::Gray4 => {},
            _ => return Err(Error::InvalidUpdate(UpdateError::UnsupportedProfile)),
        }
        match self.controller.write_register(REGISTER_PACKED_WRITE, 1) {
            Ok(()) => {},
            Err(e) => return Err(e),
        }
        let words = pack_gray4_rows(request.pixels, request.stride_bytes, row_bytes, request.region.size.height);
        match self.controller.load_image_area(width, height, words.as_slice()) {
            Ok(()) => {},
            Err(e) => return Err(e),
        }
        let mode = match request.waveform {
            Waveform::Initialize => MODE_INITIALIZE,
            Waveform::Grayscale => MODE_GRAYSCALE,
            _ => return Err(Error::InvalidUpdate(UpdateError::UnsupportedProfile)),
        };
        let low = (address % 65536) as u16;
        let high = (address / 65536) as u16;
        match self.controller.display_image_area(width, height, mode, low, high) {
            Ok(()) => {},
            Err(e) => return Err(e),
        }
        let ghost before_second_wait = self.controller.log@;
        let result = self.controller.wait_for_display(self.wait);
        proof {
            assert(wait_log(self.controller.log@.skip(before_second_wait.len() as int), self.wait, result));
            if result is Ok {
                let a = after_first_wait.skip(start.len() as int);
                let b = self.controller.log@.skip(before_second_wait.len() as int);
                let middle = upload_ops(address, width, height, words@, mode);
                assert(after_first_wait =~~= start + a);
                assert(self.controller.log@ =~~= before_second_wait + b);
                assert(before_second_wait =~~= after_first_wait + middle);
                assert(self.controller.log@.skip(start.len() as int) =~~= a + middle + b);
                assert(waited_until_idle(a, self.wait));
                assert(waited_until_idle(b, self.wait));
                assert(row_bytes as int == request.pixel_format.spec_row_bytes(request.region.size.width));
                assert(mode == spec_mode(request.waveform)->0);
                assert(self.controller.log@.skip(start.len() as int) =~~= a + upload_ops(
                    old(self).spec_device_info().image_buffer_address,
                    request.region.size.width as u16,
                    request.region.size.height as u16,
                    packed_words(
                        request.pixels@,
                        request.stride_bytes as int,
                        request.pixel_format.spec_row_bytes(request.region.size.width),
                        request.region.size.height as int,
                    ),
                    spec_mode(request.waveform)->0,
                ) + b);
                assert(waited_until_idle(a, old(self).spec_wait()));
                assert(waited_until_idle(b, old(self).spec_wait()));
                assert(start == old(self).spec_controller().spec_log());
                assert(old(self).spec_uploaded(self.controller.log@.skip(start.len() as int), request));
            }
        }
        result
    }
}

impl<T: Transport> Display for It8951Display<T> {
    type Error = Error<T::Error>;

    fn capabilities(&self) -> (r: &DisplayCapabilities)
        ensures
            *r == self.spec_capabilities(),
    {
        &self.capabilities
    }

    /// Uploads a complete Gray4 frame and refreshes it with the requested
    /// waveform; invalid requests are rejected before any transaction.
    fn update(&mut self, request: UpdateRequest<'_>) -> (r: Result<(), Self::Error>)
        ensures
            final(self).spec_device_info() == old(self).spec_device_info(),
            final(self).spec_expected_vcom() == old(self).spec_expected_vcom(),
            final(self).spec_capabilities() == old(self).spec_capabilities(),
            final(self).spec_wait() == old(self).spec_wait(),
            old(self).spec_controller().spec_log().is_prefix_of(final(self).spec_controller().spec_log()),
            old(self).spec_check(request) is Err ==> final(self).spec_controller().spec_log() == old(
                self,
            ).spec_controller().spec_log(),
            old(self).spec_check(request) matches Err(e) ==> r == Err::<(), Error<T::Error>>(Error::InvalidUpdate(e)),
            r == Err::<(), Error<T::Error>>(Error::DisplayTimeout) ==> exists|k: int|
                old(self).spec_controller().spec_log().len() <= k <= final(self).spec_controller().spec_log().len()
                    && #[trigger] wait_log(
                    final(self).spec_controller().spec_log().skip(k),
                    old(self).spec_wait(),
                    Err::<(), Error<T::Error>>(Error::DisplayTimeout),
                ),
            !transport_failed(r) && r != Err::<(), Self::Error>(Error::DisplayTimeout) ==> upload_outcome(
                old(self).spec_check(request),
                request.pixel_format,
                request.waveform,
                r,
            ),
            r is Ok ==> old(self).spec_uploaded(
                final(self).spec_controller().spec_log().skip(old(self).spec_controller().spec_log().len() as int),
                request,
            ),
    {
        self.update_inner(request)
    }

    fn sleep(&mut self) -> (r: Result<(), Self::Error>)
        ensures
            final(self).spec_device_info() == old(self).spec_device_info(),
            final(self).spec_expected_vcom() == old(self).spec_expected_vcom(),
            final(self).spec_capabilities() == old(self).spec_capabilities(),
            final(self).spec_wait() == old(self).spec_wait(),
            final(self).spec_controller().spec_log() == old(self).spec_controller().spec_log().push(
                TransportOp::Command(COMMAND_SLEEP),
            ),
            r is Err ==> transport_failed(r),
    {
        self.controller.sleep()
    }

    /// Resets and reprobes the controller, refuses a changed identity, and
    /// restores the expected VCOM when the controller reports another one.
    fn wake(&mut self) -> (r: Result<(), Self::Error>)
        ensures
            final(self).spec_device_info() == old(self).spec_device_info(),
            final(self).spec_expected_vcom() == old(self).spec_expected_vcom(),
            old(self).spec_controller().spec_log().is_prefix_of(final(self).spec_controller().spec_log()),
            r matches Err(Error::DeviceChanged { expected, observed }) ==> expected == old(self).spec_device_info()
                && !same_device(expected, observed) && exists|words: Seq<u16>, value: u16|
                #![trigger probe_ops(words, value)]
                final(self).spec_controller().spec_log() == old(self).spec_controller().spec_log() + probe_ops(
                    words,
                    value,
                ) && decodes_to(words, observed),
            r is Ok ==> exists|words: Seq<u16>, value: u16|
                #![trigger probe_ops(words, value)]
                {
                    &&& same_device(old(self).spec_device_info(), final(self).spec_device_info())
                    &&& words.len() == 20
                    &&& if value == old(self).spec_expected_vcom().spec_get() {
                        final(self).spec_controller().spec_log() == old(self).spec_controller().spec_log()
                            + probe_ops(words, value)
                    } else {
                        final(self).spec_controller().spec_log() == old(self).spec_controller().spec_log()
                            + probe_ops(words, value) + vcom_write_ops(old(self).spec_expected_vcom().spec_get())
                            + vcom_read_ops(old(self).spec_expected_vcom().spec_get())
                    }
                },
            forall|words: Seq<u16>, value: u16|
                #![trigger probe_ops(words, value)]
                !transport_failed(r) && final(self).spec_controller().spec_log() == old(
                    self,
                ).spec_controller().spec_log() + probe_ops(words, value) && words.len() == 20
                    && device_info_accepted(words) && plausible_vcom(value) && !decodes_to(
                    words,
                    old(self).spec_device_info(),
                ) ==> (r matches Err(Error::DeviceChanged { expected, observed }) && expected == old(
                    self,
                ).spec_device_info() && decodes_to(words, observed)),
            final(self).spec_controller().spec_log().len() > old(self).spec_controller().spec_log().len() + 7
                ==> exists|words: Seq<u16>, value: u16|
                #![trigger probe_ops(words, value)]
                {
                    &&& final(self).spec_controller().spec_log().subrange(
                        old(self).spec_controller().spec_log().len() as int,
                        old(self).spec_controller().spec_log().len() + 7 as int,
                    ) == probe_ops(words, value)
                    &&& decodes_to(words, old(self).spec_device_info())
                    &&& value != old(self).spec_expected_vcom().spec_get()
                },
    {
        let ghost start = self.controller.log@;
        let probed = self.controller.probe();
        let ghost after_probe = self.controller.log@;
        let report = match probed {
            Ok(report) => report,
            Err(e) => {
                proof {
                    if !transport_failed(probed) {
                        let (w0, v0) = choose|w0: Seq<u16>, v0: u16|
                            #![trigger probe_ops(w0, v0)]
                            w0.len() == 20 && probe_outcome(w0, v0, probed) && after_probe == start + (if device_info_accepted(
                                w0,
                            ) {
                                probe_ops(w0, v0)
                            } else {
                                probe_ops(w0, v0).take(4)
                            });
                        assert forall|w: Seq<u16>, v: u16|
                            #![trigger probe_ops(w, v)]
                            after_probe == start + probe_ops(w, v) && w.len() == 20 && device_info_accepted(w)
                                && plausible_vcom(v) implies false by {
                            if device_info_accepted(w0) {
                                lemma_probe_ops_injective(w, v, w0, v0, start, after_probe);
                            } else {
                                assert(after_probe.len() == start.len() + 4);
                            }
                        }
                    }
                }
                return Err(e);
            },
        };
        let ghost (words, value) = choose|words: Seq<u16>, value: u16|
            #![trigger probe_ops(words, value)]
            after_probe == start + probe_ops(words, value) && words.len() == 20 && decodes_to(
                words,
                report.device_info,
            ) && report.current_vcom.spec_get() == value;
        if !device_info_matches(&report.device_info, &self.device_info) {
            proof {
                assert forall|w: Seq<u16>, v: u16|
                    #![trigger probe_ops(w, v)]
                    after_probe == start + probe_ops(w, v) implies decodes_to(w, report.device_info) by {
                    lemma_probe_ops_injective(w, v, words, value, start, after_probe);
                }
            }
            return Err(Error::DeviceChanged { expected: self.device_info, observed: report.device_info });
        }
        proof {
            assert(decodes_to(words, self.device_info));
            assert forall|w: Seq<u16>, v: u16|
                #![trigger probe_ops(w, v)]
                after_probe == start + probe_ops(w, v) implies decodes_to(w, self.device_info) by {
                lemma_probe_ops_injective(w, v, words, value, start, after_probe);
            }
        }
        if report.current_vcom.get() != self.expected_vcom.get() {
            let result = self.controller.set_vcom(self.expected_vcom);
            proof {
                if result is Ok {
                    let v = choose|v: u16|
                        #![trigger vcom_read_ops(v)]
                        self.controller.log@ == after_probe + vcom_write_ops(self.expected_vcom.spec_get())
                            + vcom_read_ops(v) && v == self.expected_vcom.spec_get();
                    assert(self.controller.log@ =~~= start + probe_ops(words, value) + vcom_write_ops(
                        self.expected_vcom.spec_get(),
                    ) + vcom_read_ops(self.expected_vcom.spec_get()));
                }
                let fin = self.controller.log@;
                assert(after_probe.is_prefix_of(fin));
                if fin.len() > start.len() + 7 {
                    assert(probe_ops(words, value).len() == 7);
                    assert(after_probe.len() == start.len() + 7);
                    let sub = fin.subrange(start.len() as int, start.len() + 7 as int);
                    assert forall|i: int| 0 <= i < 7 implies #[trigger] sub[i] == probe_ops(words, value)[i] by {
                        assert(sub[i] == fin[start.len() + i]);
                        assert(fin[start.len() + i] == after_probe[start.len() + i]);
                        assert(after_probe[start.len() + i] == probe_ops(words, value)[i]);
                    }
                    assert(fin.subrange(start.len() as int, start.len() + 7 as int) =~= probe_ops(words, value));
                }
                if !transport_failed(result) {
                    let v = choose|v: u16|
                        #![trigger vcom_read_ops(v)]
                        fin == after_probe + vcom_write_ops(self.expected_vcom.spec_get()) + vcom_read_ops(v);
                    assert(fin.len() == start.len() + 13);
                }
            }
            return result;
        }
        Ok(())
    }
}

/// Two probe logs are equal only for the same identity words and VCOM word.
proof fn lemma_probe_ops_injective(
    w1: Seq<u16>,
    v1: u16,
    w2: Seq<u16>,
    v2: u16,
    start: Seq<TransportOp>,
    log: Seq<TransportOp>,
)
    requires
        log == start + probe_ops(w1, v1),
        log == start + probe_ops(w2, v2),
    ensures
        w1 == w2,
        v1 == v2,
{
    assert(log[start.len() + 3 as int] == probe_ops(w1, v1)[3]);
    assert(log[start.len() + 3 as int] == probe_ops(w2, v2)[3]);
    assert(log[start.len() + 6 as int] == probe_ops(w1, v1)[6]);
    assert(log[start.len() + 6 as int] == probe_ops(w2, v2)[6]);
    assert(seq![v1][0] == seq![v2][0]);
}

/// A probe reads VCOM and never writes it: each VCOM command it sends is
/// followed by the read selector, never by the write selector.
pub proof fn lemma_probe_never_writes_vcom(words: Seq<u16>, value: u16)
    ensures
        forall|i: int|
            0 <= i < probe_ops(words, value).len() && #[trigger] probe_ops(words, value)[i] == TransportOp::Command(
                COMMAND_VCOM,
            ) ==> i + 1 < probe_ops(words, value).len() && probe_ops(words, value)[i + 1] == TransportOp::Write(
                seq![0u16],
            ),
{
    let ops = probe_ops(words, value);
    assert(ops =~= seq![
        TransportOp::Reset,
        TransportOp::Command(COMMAND_SYSTEM_RUN),
        TransportOp::Command(COMMAND_GET_DEVICE_INFO),
        TransportOp::Read(words),
        TransportOp::Command(COMMAND_VCOM),
        TransportOp::Write(seq![0u16]),
        TransportOp::Read(seq![value]),
    ]);
}

} // verus!
