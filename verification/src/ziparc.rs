//! Reading entries out of a zip archive held in memory.
//!
//! An archive is addressed by its byte image, and every outcome of a read
//! is a function of those bytes and the entry name alone, so the uninterpreted
//! functions below model the archive: whether the bytes open as an archive,
//! whether a named entry is in its index, and what bytes the entry holds.

use vstd::prelude::*;

verus! {

/// Whether `data` parses as a zip archive (its central directory is sound).
pub uninterp spec fn zip_ok(data: Seq<u8>) -> bool;

/// Whether the archive's index holds an entry named `name`.
pub uninterp spec fn zip_has_entry(data: Seq<u8>, name: Seq<char>) -> bool;

/// The bytes that reading entry `name` yields, or `None` when the entry's
/// stored data cannot be decompressed.
pub uninterp spec fn zip_entry(data: Seq<u8>, name: Seq<char>) -> Option<Seq<u8>>;

/// The outcome of reading one entry out of an archive image.
pub enum ZipRead {
    /// The bytes are not a zip archive.
    NoArchive,
    /// The archive has no entry of that name.
    NoEntry,
    /// The entry exists but its data cannot be read back.
    CorruptEntry,
    /// The entry's contents.
    Data(Vec<u8>),
}

/// Relies on `zip::ZipArchive::new`, `zip::ZipArchive::by_name` and
/// `std::io::Read::read_to_end` on the returned entry: each outcome is
/// decided by the archive bytes and the entry name alone.
#[verifier::external_body]
pub fn zip_read(data: &[u8], name: &str) -> (r: ZipRead)
    ensures
        match r {
            ZipRead::NoArchive => !zip_ok(data@),
            ZipRead::NoEntry => zip_ok(data@) && !zip_has_entry(data@, name@),
            ZipRead::CorruptEntry => zip_ok(data@) && zip_has_entry(data@, name@) && zip_entry(
                data@,
                name@,
            ) is None,
            ZipRead::Data(b) => zip_ok(data@) && zip_has_entry(data@, name@) && zip_entry(
                data@,
                name@,
            ) == Option::Some(b@),
        },
{
    let cursor = std::io::Cursor::new(data);
    let mut archive = match zip::ZipArchive::new(cursor) {
        Result::Ok(a) => a,
        Result::Err(_) => return ZipRead::NoArchive,
    };
    let mut file = match archive.by_name(name) {
        Result::Ok(f) => f,
        Result::Err(_) => return ZipRead::NoEntry,
    };
    let mut buf: Vec<u8> = Vec::new();
    match std::io::Read::read_to_end(&mut file, &mut buf) {
        Result::Ok(_) => ZipRead::Data(buf),
        Result::Err(_) => ZipRead::CorruptEntry,
    }
}

/// Relies on `String::from_utf8`: it succeeds exactly on valid UTF-8 and
/// decodes it.
#[verifier::external_body]
pub fn bytes_to_string(b: &[u8]) -> (r: Option<String>)
    ensures
        match r {
            Option::Some(s) => vstd::utf8::valid_utf8(b@) && s@ == vstd::utf8::decode_utf8(b@),
            Option::None => !vstd::utf8::valid_utf8(b@),
        },
{
    match String::from_utf8(b.to_vec()) {
        Result::Ok(s) => Option::Some(s),
        Result::Err(_) => Option::None,
    }
}

} // verus!
