use vstd::prelude::*;
use crate::error::CaptureError;

verus! {

#[verifier::external_type_specification]
#[verifier::external_body]
pub struct ExImageError(image::ImageError);

/// The PNG stream that the image crate's PNG encoder writes for the given
/// 8-bit RGB samples and dimensions.
pub uninterp spec fn png_rgb8(samples: Seq<u8>, width: u32, height: u32) -> Seq<u8>;

/// Relies on image::codecs::png::PngEncoder::encode with ColorType::Rgb8,
/// writing into a Vec: on success the bytes depend on the samples and the
/// dimensions alone. The png encoder refuses a zero width or height and a
/// sample count other than `3 * width * height`; writing into a Vec cannot
/// fail, so any other input is encoded. It computes `3 * width + 1` and
/// `3 * width * height` unchecked, so both must fit in usize.
#[verifier::external_body]
fn encode_png_rgb8(samples: &Vec<u8>, width: u32, height: u32) -> (r: Result<Vec<u8>, image::ImageError>)
    requires
        3 * width < usize::MAX,
        3 * width * height <= usize::MAX,
    ensures
        r matches Ok(bytes) ==> bytes@ == png_rgb8(samples@, width, height),
        width == 0 || height == 0 || samples@.len() != 3 * width * height ==> r is Err,
        width > 0 && height > 0 && samples@.len() == 3 * width * height ==> r is Ok,
{
    let mut out: Vec<u8> = Vec::new();
    let encoder = image::codecs::png::PngEncoder::new(&mut out);
    match encoder.encode(samples.as_slice(), width, height, image::ColorType::Rgb8) {
        Ok(()) => Ok(out),
        Err(e) => Err(e),
    }
}

/// What the library makes of the encoder's answer: the encoded bytes, or an
/// `EncodingError`.
pub fn encoding_outcome(result: Result<Vec<u8>, image::ImageError>) -> (r: Result<Vec<u8>, CaptureError>)
    ensures
        result matches Ok(bytes) ==> r == Ok::<Vec<u8>, CaptureError>(bytes),
        result is Err ==> r == Err::<Vec<u8>, CaptureError>(CaptureError::EncodingError),
{
    match result {
        Ok(bytes) => Ok(bytes),
        Err(_) => Err(CaptureError::EncodingError),
    }
}

/// Encodes an RGB canvas of `w` by `h` pixels as PNG. A buffer whose length
/// is not `3 * w * h`, or an empty image, is an `EncodingError`; any other
/// canvas whose row length `3 * w` stays below `usize::MAX` is encoded.
pub fn encode_buffer_to_png(buffer: Vec<u8>, w: u32, h: u32) -> (r: Result<Vec<u8>, CaptureError>)
    ensures
        r matches Ok(bytes) ==> bytes@ == png_rgb8(buffer@, w, h),
        w == 0 || h == 0 || buffer@.len() != 3 * w * h ==> r == Err::<Vec<u8>, CaptureError>(
            CaptureError::EncodingError,
        ),
        w > 0 && h > 0 && buffer@.len() == 3 * w * h && 3 * w < usize::MAX ==> r is Ok,
        r is Err ==> r == Err::<Vec<u8>, CaptureError>(CaptureError::EncodingError),
{
    let len: usize = buffer.len();
    let row: usize = match (w as usize).checked_mul(3) {
        Some(n) => n,
        None => {
            proof {
                assert(w > 0);
                assert(3 * w * h == (3 * w) * h) by (nonlinear_arith);
                if h > 0 && buffer@.len() == 3 * w * h {
                    assert((3 * w) * h >= 3 * w) by (nonlinear_arith)
                        requires h >= 1, w >= 0;
                }
            }
            return Err(CaptureError::EncodingError);
        },
    };
    if row == usize::MAX {
        proof {
            assert(3 * w * h == (3 * w) * h) by (nonlinear_arith);
            if h > 1 {
                assert((3 * w) * h >= 2 * (3 * w)) by (nonlinear_arith)
                    requires h >= 2, w >= 0;
            }
        }
        return Err(CaptureError::EncodingError);
    }
    let n: usize = match row.checked_mul(h as usize) {
        Some(n) => n,
        None => {
            proof {
                assert(3 * w * h == row * h) by (nonlinear_arith)
                    requires row == 3 * w;
            }
            return Err(CaptureError::EncodingError);
        },
    };
    proof {
        assert(3 * w * h == row * h) by (nonlinear_arith)
            requires row == 3 * w;
    }
    if n == 0 || n != len {
        proof {
            assert(n == 0 ==> (w == 0 || h == 0)) by (nonlinear_arith)
                requires n == 3 * w * h;
        }
        return Err(CaptureError::EncodingError);
    }
    encoding_outcome(encode_png_rgb8(&buffer, w, h))
}

} // verus!
