use vstd::prelude::*;

verus! {

/// Why a capture request produced no image.
#[derive(Clone, Copy, Debug, PartialEq, Eq, Structural)]
pub enum CaptureError {
    /// The platform reported no display.
    EnumerationFailure,
    /// A capture channel could not be opened or failed for good.
    AcquisitionFailure,
    /// Display geometry or a frame's layout does not fit the canvas.
    CompositingBoundsError,
    /// The encoder rejected the pixel buffer.
    EncodingError,
}

impl CaptureError {
    /// A short human-readable description.
    pub fn describe(&self) -> (r: &'static str)
        ensures
            *self == CaptureError::EnumerationFailure ==> r@ == "no display could be enumerated"@,
            *self == CaptureError::AcquisitionFailure ==> r@ == "a display could not be captured"@,
            *self == CaptureError::CompositingBoundsError ==> r@ == "display geometry does not fit the canvas"@,
            *self == CaptureError::EncodingError ==> r@ == "the canvas could not be encoded"@,
    {
        let r = match self {
            CaptureError::EnumerationFailure => "no display could be enumerated",
            CaptureError::AcquisitionFailure => "a display could not be captured",
            CaptureError::CompositingBoundsError => "display geometry does not fit the canvas",
            CaptureError::EncodingError => "the canvas could not be encoded",
        };
        r
    }
}

} // verus!
