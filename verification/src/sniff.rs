//! The content sniffer: the true binary format of a byte blob, decided by
//! its leading magic bytes and never by a claimed label.
//!
//! The detected format is compared, never merged, with the declared type: a
//! mismatch is a hard failure, at validation time and again at serve time.

use vstd::prelude::*;

verus! {

/// The closed set of formats the sniffer can detect.
#[derive(PartialEq, Eq, Structural, Clone, Copy, Debug)]
pub enum SniffedType {
    Png,
    Jpeg,
    /// Anything without a recognised supported signature.
    Other,
}

/// The eight-byte PNG signature.
pub open spec fn png_magic() -> Seq<u8> {
    seq![0x89u8, 0x50u8, 0x4eu8, 0x47u8, 0x0du8, 0x0au8, 0x1au8, 0x0au8]
}

/// The three-byte JPEG signature.
pub open spec fn jpeg_magic() -> Seq<u8> {
    seq![0xffu8, 0xd8u8, 0xffu8]
}

/// Whether the bytes begin with the PNG signature.
pub open spec fn is_png(data: Seq<u8>) -> bool {
    data.len() >= 8 && data.take(8) == png_magic()
}

/// Whether the bytes begin with the JPEG signature.
pub open spec fn is_jpeg(data: Seq<u8>) -> bool {
    data.len() >= 3 && data.take(3) == jpeg_magic()
}

/// Relies on `image::guess_format`: it classifies by a fixed table of magic
/// prefixes, returning `Png` exactly for buffers starting with the PNG
/// signature and `Jpeg` exactly for buffers starting with `FF D8 FF` (no
/// other table entry begins with `0x89` or `0xFF`).
#[verifier::external_body]
fn sniff_format(data: &[u8]) -> (r: SniffedType)
    ensures
        (r == SniffedType::Png) <==> is_png(data@),
        (r == SniffedType::Jpeg) <==> is_jpeg(data@),
{
    match image::guess_format(data) {
        Result::Ok(image::ImageFormat::Png) => SniffedType::Png,
        Result::Ok(image::ImageFormat::Jpeg) => SniffedType::Jpeg,
        _ => SniffedType::Other,
    }
}

/// Why an asset's bytes were rejected against its declared type.
#[derive(Debug)]
pub enum AssetImageError {
    /// The bytes carry no supported magic signature.
    UnknownFormat,
    /// The bytes' true format differs from the declared type.
    TypeMismatch { declared: String, detected: String },
}

/// The mathematical value of an [`AssetImageError`].
#[verifier::ext_equal]
pub enum AssetImageErrorView {
    UnknownFormat,
    TypeMismatch { declared: Seq<char>, detected: Seq<char> },
}

impl View for AssetImageError {
    type V = AssetImageErrorView;

    open spec fn view(&self) -> AssetImageErrorView {
        match self {
            AssetImageError::UnknownFormat => AssetImageErrorView::UnknownFormat,
            AssetImageError::TypeMismatch { declared, detected } => AssetImageErrorView::TypeMismatch {
                declared: declared@,
                detected: detected@,
            },
        }
    }
}

/// The token the sniffer detects for a byte blob, when it detects one.
pub open spec fn detected_token(data: Seq<u8>) -> Option<Seq<char>> {
    if is_png(data) {
        Option::Some("png"@)
    } else if is_jpeg(data) {
        Option::Some("jpeg"@)
    } else {
        Option::None
    }
}

/// The outcome of holding a blob's true format against its declared type.
pub open spec fn spec_validate_asset_image(data: Seq<u8>, declared: Seq<char>) -> Result<
    (),
    AssetImageErrorView,
> {
    match detected_token(data) {
        Option::None => Result::Err(AssetImageErrorView::UnknownFormat),
        Option::Some(detected) => if detected == declared {
            Result::Ok(())
        } else {
            Result::Err(AssetImageErrorView::TypeMismatch { declared, detected })
        },
    }
}

/// Sniff a blob's true format and require it to equal the declared type.
pub fn validate_asset_image(data: &[u8], declared_type: &str) -> (r: Result<(), AssetImageError>)
    ensures
        match r {
            Result::Ok(u) => spec_validate_asset_image(data@, declared_type@) is Ok,
            Result::Err(e) => spec_validate_asset_image(data@, declared_type@) == Result::<
                (),
                AssetImageErrorView,
            >::Err(e@),
        },
{
    let detected: &'static str = match sniff_format(data) {
        SniffedType::Png => "png",
        SniffedType::Jpeg => "jpeg",
        SniffedType::Other => {
            return Result::Err(AssetImageError::UnknownFormat);
        },
    };
    if crate::chars::str_eq(detected, declared_type) {
        Result::Ok(())
    } else {
        Result::Err(
            AssetImageError::TypeMismatch {
                declared: String::from_str(declared_type),
                detected: String::from_str(detected),
            },
        )
    }
}

} // verus!
