//! Deterministic in-memory display backend and dependency-free PGM export.

use vstd::prelude::*;
use crate::rendering::{decimal_digits, decimal_text, io_error_text, push_decimal, push_decimal_bytes};
use vstd::string::StringExecFns;
use crate::display::{
    Display, DisplayCapabilities, PixelFormat, Rect, Size, UpdateConstraints, UpdateProfile, UpdateRequest,
    Waveform, rect,
};
use crate::graphics::{Framebuffer, GraphicsError, Gray8, blit, graphics_error_text, valid_frame_size};

verus! {

/// Simulator update or preview failure.
#[derive(Debug)]
pub enum SimulatorError {
    /// Framebuffer creation failed.
    Graphics(GraphicsError),
    /// The requested region is empty or outside the simulated panel.
    InvalidRegion,
    /// The simulator does not accept the requested pixel encoding.
    UnsupportedPixelFormat(PixelFormat),
    /// The simulator does not advertise the requested waveform.
    UnsupportedWaveform(Waveform),
    /// Updates are rejected until the display is woken.
    Sleeping,
    /// The source does not contain every requested row.
    BufferTooShort,
    /// Preview output failed.
    Io(std::io::Error),
}

/// A pixel format's name as `{:?}` shows it.
pub open spec fn pixel_format_text(format: PixelFormat) -> Seq<char> {
    match format {
        PixelFormat::Monochrome1 => "Monochrome1"@,
        PixelFormat::Gray2 => "Gray2"@,
        PixelFormat::Gray4 => "Gray4"@,
        PixelFormat::Gray8 => "Gray8"@,
    }
}

/// A waveform as `{:?}` shows it.
pub open spec fn waveform_text(waveform: Waveform) -> Seq<char> {
    match waveform {
        Waveform::Initialize => "Initialize"@,
        Waveform::Grayscale => "Grayscale"@,
        Waveform::FastMonochrome => "FastMonochrome"@,
        Waveform::ControllerSpecific(mode) => "ControllerSpecific("@ + decimal_text(mode as nat) + ")"@,
    }
}

/// The description of a simulator failure; an I/O failure is described by
/// the operating system, so it has none here.
pub open spec fn simulator_error_text(e: SimulatorError) -> Option<Seq<char>> {
    match e {
        SimulatorError::Graphics(error) => Some(graphics_error_text(error)),
        SimulatorError::InvalidRegion => Some("update region is outside the display"@),
        SimulatorError::UnsupportedPixelFormat(format) => Some(
            "simulator does not support "@ + pixel_format_text(format),
        ),
        SimulatorError::UnsupportedWaveform(waveform) => Some(
            "simulator does not support "@ + waveform_text(waveform),
        ),
        SimulatorError::Sleeping => Some("simulator display is sleeping"@),
        SimulatorError::BufferTooShort => Some("update pixel buffer is too short"@),
        SimulatorError::Io(_) => None,
    }
}

fn push_pixel_format(text: &mut String, format: PixelFormat)
    ensures
        final(text)@ == old(text)@ + pixel_format_text(format),
{
    match format {
        PixelFormat::Monochrome1 => text.append("Monochrome1"),
        PixelFormat::Gray2 => text.append("Gray2"),
        PixelFormat::Gray4 => text.append("Gray4"),
        PixelFormat::Gray8 => text.append("Gray8"),
    }
}

fn push_waveform(text: &mut String, waveform: Waveform)
    ensures
        final(text)@ == old(text)@ + waveform_text(waveform),
{
    match waveform {
        Waveform::Initialize => text.append("Initialize"),
        Waveform::Grayscale => text.append("Grayscale"),
        Waveform::FastMonochrome => text.append("FastMonochrome"),
        Waveform::ControllerSpecific(mode) => {
            text.append("ControllerSpecific(");
            push_decimal(text, mode as u64);
            text.append(")");
            proof {
                assert(text@ =~= old(text)@ + waveform_text(waveform));
            }
        },
    }
}

impl SimulatorError {
    /// A human-readable description of the failure.
    pub fn message(&self) -> (r: String)
        ensures
            simulator_error_text(*self) matches Some(t) ==> r@ == t,
    {
        match self {
            SimulatorError::Graphics(error) => error.message(),
            SimulatorError::InvalidRegion => String::from_str("update region is outside the display"),
            SimulatorError::UnsupportedPixelFormat(format) => {
                let mut text = String::from_str("simulator does not support ");
                push_pixel_format(&mut text, *format);
                text
            },
            SimulatorError::UnsupportedWaveform(waveform) => {
                let mut text = String::from_str("simulator does not support ");
                push_waveform(&mut text, *waveform);
                text
            },
            SimulatorError::Sleeping => String::from_str("simulator display is sleeping"),
            SimulatorError::BufferTooShort => String::from_str("update pixel buffer is too short"),
            SimulatorError::Io(error) => io_error_text(error),
        }
    }
}

impl From<GraphicsError> for SimulatorError {
    fn from(error: GraphicsError) -> (r: SimulatorError) {
        SimulatorError::Graphics(error)
    }
}

impl vstd::std_specs::convert::FromSpecImpl<GraphicsError> for SimulatorError {
    open spec fn obeys_from_spec() -> bool {
        true
    }

    open spec fn from_spec(v: GraphicsError) -> SimulatorError {
        SimulatorError::Graphics(v)
    }
}

impl From<std::io::Error> for SimulatorError {
    fn from(error: std::io::Error) -> (r: SimulatorError) {
        SimulatorError::Io(error)
    }
}

impl vstd::std_specs::convert::FromSpecImpl<std::io::Error> for SimulatorError {
    open spec fn obeys_from_spec() -> bool {
        true
    }

    open spec fn from_spec(v: std::io::Error) -> SimulatorError {
        SimulatorError::Io(v)
    }
}

/// What the simulator advertises: Gray8 with every waveform, partial
/// updates allowed anywhere.
pub open spec fn simulator_profiles() -> Seq<UpdateProfile> {
    let unrestricted = UpdateConstraints::spec_new(1, 1, 1, 1);
    seq![
        UpdateProfile {
            pixel_format: PixelFormat::Gray8,
            waveform: Waveform::Initialize,
            partial: true,
            constraints: unrestricted,
        },
        UpdateProfile {
            pixel_format: PixelFormat::Gray8,
            waveform: Waveform::Grayscale,
            partial: true,
            constraints: unrestricted,
        },
        UpdateProfile {
            pixel_format: PixelFormat::Gray8,
            waveform: Waveform::FastMonochrome,
            partial: true,
            constraints: unrestricted,
        },
    ]
}

/// An in-memory Gray8 display that records successful refreshes.
pub struct SimulatorDisplay {
    panel: Panel,
    updates: Vec<(Rect, Waveform)>,
    sleeping: bool,
}

/// The simulated panel: its capabilities and a frame of its native size.
struct Panel {
    capabilities: DisplayCapabilities,
    frame: Framebuffer,
}

impl Panel {
    #[verifier::type_invariant]
    spec fn inv(self) -> bool {
        &&& self.frame.wf()
        &&& self.frame.spec_size() == self.capabilities.native_size
        &&& self.capabilities.update_profiles@ == simulator_profiles()
    }

    fn copy_region(&mut self, region: Rect, source: &[u8], stride: usize)
        requires
            region.origin.x as int + region.size.width <= old(self).capabilities.native_size.width,
            region.origin.y as int + region.size.height <= old(self).capabilities.native_size.height,
            stride >= region.size.width,
            region.size.height > 0 ==> (region.size.height - 1) * stride + region.size.width <= source@.len(),
        ensures
            final(self).capabilities == old(self).capabilities,
            final(self).frame.spec_size() == old(self).frame.spec_size(),
            final(self).frame@ == blit(
                old(self).frame@,
                old(self).capabilities.native_size.width,
                region,
                source@,
                stride as int,
            ),
    {
        proof {
            use_type_invariant(&*self);
        }
        let source_len = source.len();
        self.frame.copy_rows(region, source, source_len, stride);
    }
}

/// Why the simulator rejects a request, if it does.
pub open spec fn simulator_rejection(
    sleeping: bool,
    caps: DisplayCapabilities,
    request: UpdateRequest<'_>,
) -> Option<SimulatorError> {
    if sleeping {
        Some(SimulatorError::Sleeping)
    } else if !caps.spec_supports_format(request.pixel_format) {
        Some(SimulatorError::UnsupportedPixelFormat(request.pixel_format))
    } else if !caps.spec_supports_waveform(request.waveform) {
        Some(SimulatorError::UnsupportedWaveform(request.waveform))
    } else if request.region.spec_intersection(rect(0, 0, caps.native_size.width, caps.native_size.height)) != Some(
        request.region,
    ) {
        Some(SimulatorError::InvalidRegion)
    } else if request.pixels@.len() < request.stride_bytes * request.region.size.height || request.stride_bytes
        < request.region.size.width {
        Some(SimulatorError::BufferTooShort)
    } else {
        None
    }
}

impl SimulatorDisplay {
    pub closed spec fn spec_capabilities(&self) -> DisplayCapabilities {
        self.panel.capabilities
    }

    pub closed spec fn spec_frame(&self) -> Framebuffer {
        self.panel.frame
    }

    pub closed spec fn spec_updates(&self) -> Seq<(Rect, Waveform)> {
        self.updates@
    }

    pub closed spec fn spec_sleeping(&self) -> bool {
        self.sleeping
    }

    /// Creates a white simulated display.
    pub fn new(size: Size) -> (r: Result<SimulatorDisplay, SimulatorError>)
        ensures
            match r {
                Ok(display) => valid_frame_size(size) && display.spec_capabilities().native_size == size
                    && display.spec_capabilities().update_profiles@ == simulator_profiles()
                    && display.spec_frame().spec_size() == size && display.spec_frame()@ == Seq::new(
                    size.area() as nat,
                    |i: int| 255u8,
                ) && display.spec_updates() == Seq::<(Rect, Waveform)>::empty() && !display.spec_sleeping(),
                Err(SimulatorError::Graphics(e)) => !valid_frame_size(size) && e == GraphicsError::InvalidSize(size),
                Err(_) => false,
            },
    {
        let frame = match Framebuffer::new(size, Gray8::white()) {
            Ok(frame) => frame,
            Err(e) => return Err(SimulatorError::Graphics(e)),
        };
        let mut update_profiles: Vec<UpdateProfile> = Vec::new();
        update_profiles.push(
            UpdateProfile::new(PixelFormat::Gray8, Waveform::Initialize, true, UpdateConstraints::unrestricted()),
        );
        update_profiles.push(
            UpdateProfile::new(PixelFormat::Gray8, Waveform::Grayscale, true, UpdateConstraints::unrestricted()),
        );
        update_profiles.push(
            UpdateProfile::new(PixelFormat::Gray8, Waveform::FastMonochrome, true, UpdateConstraints::unrestricted()),
        );
        proof {
            assert(update_profiles@ =~= simulator_profiles());
        }
        let updates: Vec<(Rect, Waveform)> = Vec::new();
        proof {
            assert(updates@ =~= Seq::<(Rect, Waveform)>::empty());
        }
        Ok(SimulatorDisplay {
            panel: Panel { capabilities: DisplayCapabilities { native_size: size, update_profiles }, frame },
            updates,
            sleeping: false,
        })
    }

    /// Returns the current simulated framebuffer.
    pub fn frame(&self) -> (r: &Framebuffer)
        ensures
            *r == self.spec_frame(),
            r.wf(),
    {
        proof {
            use_type_invariant(&self.panel);
        }
        &self.panel.frame
    }

    /// Returns successful update regions and waveforms in order.
    pub fn updates(&self) -> (r: &[(Rect, Waveform)])
        ensures
            r@ == self.spec_updates(),
    {
        self.updates.as_slice()
    }

    /// Returns whether updates are currently rejected for sleep.
    pub fn is_sleeping(&self) -> (r: bool)
        ensures
            r == self.spec_sleeping(),
    {
        self.sleeping
    }

    fn rejection(&self, request: &UpdateRequest<'_>) -> (r: Option<SimulatorError>)
        ensures
            r == simulator_rejection(self.spec_sleeping(), self.spec_capabilities(), *request),
    {
        if self.sleeping {
            return Some(SimulatorError::Sleeping);
        }
        if !self.panel.capabilities.supports_format(request.pixel_format) {
            return Some(SimulatorError::UnsupportedPixelFormat(request.pixel_format));
        }
        if !self.panel.capabilities.supports_waveform(request.waveform) {
            return Some(SimulatorError::UnsupportedWaveform(request.waveform));
        }
        match request.region.intersection(Rect::from_size(self.panel.capabilities.native_size)) {
            Some(clip) => {
                if clip != request.region {
                    return Some(SimulatorError::InvalidRegion);
                }
            },
            None => return Some(SimulatorError::InvalidRegion),
        }
        let available = request.pixels.len();
        let short = match request.stride_bytes.checked_mul(request.region.size.height as usize) {
            Some(required) => available < required,
            None => true,
        };
        if short || request.stride_bytes < request.region.size.width as usize {
            return Some(SimulatorError::BufferTooShort);
        }
        None
    }
}

impl Display for SimulatorDisplay {
    type Error = SimulatorError;

    fn capabilities(&self) -> (r: &DisplayCapabilities)
        ensures
            *r == self.spec_capabilities(),
            r.update_profiles@ == simulator_profiles(),
            r.native_size == self.spec_frame().spec_size(),
    {
        proof {
            use_type_invariant(&self.panel);
        }
        &self.panel.capabilities
    }

    /// Copies the requested rows into the frame and records the update; a
    /// rejected request changes neither the frame nor the history.
    fn update(&mut self, request: UpdateRequest<'_>) -> (r: Result<(), Self::Error>)
        ensures
            final(self).spec_capabilities() == old(self).spec_capabilities(),
            final(self).spec_sleeping() == old(self).spec_sleeping(),
            match simulator_rejection(old(self).spec_sleeping(), old(self).spec_capabilities(), request) {
                Some(e) => r == Err::<(), SimulatorError>(e) && final(self).spec_frame() == old(self).spec_frame()
                    && final(self).spec_updates() == old(self).spec_updates(),
                None => r is Ok && final(self).spec_frame().spec_size() == old(self).spec_frame().spec_size()
                    && final(self).spec_frame()@ == blit(
                    old(self).spec_frame()@,
                    old(self).spec_capabilities().native_size.width,
                    request.region,
                    request.pixels@,
                    request.stride_bytes as int,
                ) && final(self).spec_updates() == old(self).spec_updates().push(
                    (request.region, request.waveform),
                ),
            },
    {
        match self.rejection(&request) {
            Some(e) => return Err(e),
            None => {},
        }
        proof {
            let caps = self.panel.capabilities;
            let region = request.region;
            assert(region.spec_intersection(rect(0, 0, caps.native_size.width, caps.native_size.height)) == Some(
                region,
            ));
            if region.size.height > 0 {
                assert((region.size.height - 1) * request.stride_bytes + region.size.width
                    <= request.stride_bytes * region.size.height) by (nonlinear_arith)
                    requires
                        region.size.height > 0,
                        request.stride_bytes >= region.size.width,
                ;
            }
        }
        self.panel.copy_region(request.region, request.pixels, request.stride_bytes);
        self.updates.push((request.region, request.waveform));
        Ok(())
    }

    fn sleep(&mut self) -> (r: Result<(), Self::Error>)
        ensures
            r is Ok,
            final(self).spec_sleeping(),
            final(self).spec_frame() == old(self).spec_frame(),
            final(self).spec_updates() == old(self).spec_updates(),
            final(self).spec_capabilities() == old(self).spec_capabilities(),
    {
        self.sleeping = true;
        Ok(())
    }

    fn wake(&mut self) -> (r: Result<(), Self::Error>)
        ensures
            r is Ok,
            !final(self).spec_sleeping(),
            final(self).spec_frame() == old(self).spec_frame(),
            final(self).spec_updates() == old(self).spec_updates(),
            final(self).spec_capabilities() == old(self).spec_capabilities(),
    {
        self.sleeping = false;
        Ok(())
    }
}

/// The binary PGM (P5) encoding of a Gray8 frame: header, then pixels.
pub open spec fn pgm_bytes(size: Size, pixels: Seq<u8>) -> Seq<u8> {
    seq![80u8, 53u8, 10u8] + decimal_digits(size.width as nat) + seq![32u8] + decimal_digits(size.height as nat)
        + seq![10u8, 50u8, 53u8, 53u8, 10u8] + pixels
}

/// Encodes a frame as a dependency-free binary PGM image.
pub fn pgm_image(frame: &Framebuffer) -> (r: Vec<u8>)
    ensures
        r@ == pgm_bytes(frame.spec_size(), frame@),
{
    let size = frame.size();
    let mut output: Vec<u8> = Vec::new();
    output.push(80u8);
    output.push(53u8);
    output.push(10u8);
    push_decimal_bytes(&mut output, size.width as u64);
    output.push(32u8);
    push_decimal_bytes(&mut output, size.height as u64);
    output.push(10u8);
    output.push(50u8);
    output.push(53u8);
    output.push(53u8);
    output.push(10u8);
    let pixels = frame.pixels();
    let ghost header = output@;
    let mut i: usize = 0;
    while i < pixels.len()
        invariant
            i <= pixels@.len(),
            output@ == header + pixels@.subrange(0, i as int),
        decreases pixels@.len() - i,
    {
        output.push(pixels[i]);
        proof {
            assert(output@ =~= header + pixels@.subrange(0, i + 1));
        }
        i = i + 1;
    }
    proof {
        assert(pixels@.subrange(0, pixels@.len() as int) =~= pixels@);
        assert(output@ =~= pgm_bytes(size, frame@));
    }
    output
}

} // verus!
