//! Text utilities for transport adapters: percent-decoding of request
//! paths, and the content type guessed from a file name's extension.

use vstd::prelude::*;
use vstd::string::StringSliceAdditionalSpecFns;

use crate::chars::{chars_to_string, split_on, split_chars, str_eq, str_to_chars};

verus! {

/// The value of an ASCII hexadecimal digit byte, or -1.
pub open spec fn hex_val(b: u8) -> int {
    if 0x30 <= b && b <= 0x39 {
        b - 0x30
    } else if 0x61 <= b && b <= 0x66 {
        b - 0x61 + 10
    } else if 0x41 <= b && b <= 0x46 {
        b - 0x41 + 10
    } else {
        -1
    }
}

/// Percent-decoding over bytes: a `%` followed by two hexadecimal digits
/// becomes one byte; everything else passes through.
pub open spec fn pct_decode(b: Seq<u8>) -> Seq<u8>
    decreases b.len(),
{
    if b.len() == 0 {
        Seq::empty()
    } else if b[0] == 0x25 && b.len() >= 3 && hex_val(b[1]) >= 0 && hex_val(b[2]) >= 0 {
        seq![(hex_val(b[1]) * 16 + hex_val(b[2])) as u8] + pct_decode(b.skip(3))
    } else {
        seq![b[0]] + pct_decode(b.skip(1))
    }
}

/// What `String::from_utf8_lossy` yields: a function of the bytes alone;
/// on valid UTF-8 it is exactly the decoding.
pub uninterp spec fn utf8_lossy(b: Seq<u8>) -> Seq<char>;

/// Relies on `String::from_utf8_lossy`: the result depends on the bytes
/// alone, and valid UTF-8 decodes exactly.
#[verifier::external_body]
fn lossy_string(b: &[u8]) -> (r: String)
    ensures
        r@ == utf8_lossy(b@),
        vstd::utf8::valid_utf8(b@) ==> r@ == vstd::utf8::decode_utf8(b@),
{
    String::from_utf8_lossy(b).into_owned()
}

fn hex_digit_val(b: u8) -> (r: i32)
    ensures
        r == hex_val(b),
{
    if 0x30 <= b && b <= 0x39 {
        (b - 0x30) as i32
    } else if 0x61 <= b && b <= 0x66 {
        (b - 0x61) as i32 + 10
    } else if 0x41 <= b && b <= 0x46 {
        (b - 0x41) as i32 + 10
    } else {
        -1
    }
}

/// Percent-decode a request path component.
pub fn percent_decode(input: &str) -> (r: String)
    ensures
        r@ == utf8_lossy(pct_decode(input.spec_bytes())),
{
    let bytes = input.as_bytes();
    let ghost full = bytes@;
    let mut out: Vec<u8> = Vec::new();
    let mut i: usize = 0;
    proof {
        assert(full.skip(0) =~= full);
        assert(pct_decode(full) =~= out@ + pct_decode(full.skip(0)));
    }
    while i < bytes.len()
        invariant
            full == bytes@,
            i <= full.len(),
            pct_decode(full) == out@ + pct_decode(full.skip(i as int)),
        decreases full.len() - i,
    {
        let ghost rest = full.skip(i as int);
        proof {
            assert(rest[0] == full[i as int]);
        }
        let b = bytes[i];
        if b == 0x25 && bytes.len() - i > 2 {
            let h1 = hex_digit_val(bytes[i + 1]);
            let h2 = hex_digit_val(bytes[i + 2]);
            if h1 >= 0 && h2 >= 0 {
                proof {
                    assert(rest.len() >= 3);
                    assert(rest[1] == full[i + 1] && rest[2] == full[i + 2]);
                    assert(rest.skip(3) =~= full.skip(i + 3));
                }
                out.push((h1 * 16 + h2) as u8);
                proof {
                    assert(pct_decode(full) =~= out@ + pct_decode(full.skip(i + 3)));
                }
                i = i + 3;
            } else {
                proof {
                    assert(rest.skip(1) =~= full.skip(i + 1));
                }
                out.push(b);
                proof {
                    assert(pct_decode(full) =~= out@ + pct_decode(full.skip(i + 1)));
                }
                i = i + 1;
            }
        } else {
            proof {
                assert(rest.skip(1) =~= full.skip(i + 1));
                if rest[0] == 0x25 && rest.len() >= 3 {
                    assert(i + 2 < full.len());
                }
            }
            out.push(b);
            proof {
                assert(pct_decode(full) =~= out@ + pct_decode(full.skip(i + 1)));
            }
            i = i + 1;
        }
    }
    proof {
        assert(full.skip(full.len() as int) =~= Seq::<u8>::empty());
        assert(pct_decode(Seq::<u8>::empty()) =~= Seq::<u8>::empty());
        assert(pct_decode(full) =~= out@);
    }
    lossy_string(out.as_slice())
}

/// The extension of a path's file name: the text after the last dot of the
/// last `/`-separated segment, unless the segment has no dot or only a
/// leading one.
pub open spec fn ext_of(s: Seq<char>) -> Option<Seq<char>> {
    let segs = split_on(s, '/');
    let name = segs[segs.len() - 1];
    let parts = split_on(name, '.');
    if parts.len() >= 2 && !(parts.len() == 2 && parts[0].len() == 0) {
        Option::Some(parts[parts.len() - 1])
    } else {
        Option::None
    }
}

/// The content type guessed for an extension.
pub open spec fn mime_for_ext(e: Seq<char>) -> Seq<char> {
    if e == "html"@ {
        "text/html; charset=utf-8"@
    } else if e == "js"@ || e == "mjs"@ {
        "application/javascript; charset=utf-8"@
    } else if e == "css"@ {
        "text/css; charset=utf-8"@
    } else if e == "json"@ {
        "application/json"@
    } else if e == "png"@ {
        "image/png"@
    } else if e == "jpg"@ || e == "jpeg"@ {
        "image/jpeg"@
    } else if e == "svg"@ {
        "image/svg+xml"@
    } else if e == "woff"@ {
        "font/woff"@
    } else if e == "woff2"@ {
        "font/woff2"@
    } else if e == "ico"@ {
        "image/x-icon"@
    } else if e == "wasm"@ {
        "application/wasm"@
    } else {
        "application/octet-stream"@
    }
}

/// The content type guessed for a path: by its extension alone.
pub open spec fn guess_mime_of(s: Seq<char>) -> Seq<char> {
    match ext_of(s) {
        Option::Some(e) => mime_for_ext(e),
        Option::None => "application/octet-stream"@,
    }
}

/// Guess a static file's content type from its path's extension.
pub fn guess_mime(path: &str) -> (r: &'static str)
    ensures
        r@ == guess_mime_of(path@),
{
    let chars = str_to_chars(path);
    let segs = split_chars(&chars, '/');
    proof {
        assert(segs.deep_view().len() > 0);
        assert(segs.deep_view()[segs@.len() - 1] == segs@[segs@.len() - 1].deep_view());
        assert(segs@[segs@.len() - 1].deep_view() =~= segs@[segs@.len() - 1]@);
    }
    let name = &segs[segs.len() - 1];
    let parts = split_chars(name, '.');
    proof {
        assert(parts.deep_view().len() > 0);
        assert(parts.deep_view()[parts@.len() - 1] == parts@[parts@.len() - 1].deep_view());
        assert(parts@[parts@.len() - 1].deep_view() =~= parts@[parts@.len() - 1]@);
        if parts@.len() == 2 {
            assert(parts.deep_view()[0] == parts@[0].deep_view());
            assert(parts@[0].deep_view() =~= parts@[0]@);
        }
    }
    if parts.len() < 2 || (parts.len() == 2 && parts[0].len() == 0) {
        return "application/octet-stream";
    }
    let e = chars_to_string(&parts[parts.len() - 1]);
    let es = e.as_str();
    if str_eq(es, "html") {
        "text/html; charset=utf-8"
    } else if str_eq(es, "js") || str_eq(es, "mjs") {
        "application/javascript; charset=utf-8"
    } else if str_eq(es, "css") {
        "text/css; charset=utf-8"
    } else if str_eq(es, "json") {
        "application/json"
    } else if str_eq(es, "png") {
        "image/png"
    } else if str_eq(es, "jpg") || str_eq(es, "jpeg") {
        "image/jpeg"
    } else if str_eq(es, "svg") {
        "image/svg+xml"
    } else if str_eq(es, "woff") {
        "font/woff"
    } else if str_eq(es, "woff2") {
        "font/woff2"
    } else if str_eq(es, "ico") {
        "image/x-icon"
    } else if str_eq(es, "wasm") {
        "application/wasm"
    } else {
        "application/octet-stream"
    }
}

} // verus!
