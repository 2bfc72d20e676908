//! The calls into outside crates and into parts of std that vstd does not
//! specify. Each contract here is believed, not proved.
use vstd::prelude::*;
use base64::Engine;
use crate::text::{ascii_lowercase, decimal, is_ascii_text};

verus! {

/// `dirs::home_dir`, as text (`to_string_lossy`). What the machine reports as
/// the home directory, if anything: nothing is stated of the result.
#[verifier::external_body]
pub(crate) fn home_dir() -> (r: Option<String>) {
    dirs::home_dir().map(|p| p.to_string_lossy().into_owned())
}

/// The shape of the text of a UUID: 36 characters, lowercase hexadecimal
/// digits in groups of 8, 4, 4, 4 and 12, separated by `-`.
pub open spec fn is_uuid_text(s: Seq<char>) -> bool {
    &&& s.len() == 36
    &&& forall|i: int|
        0 <= i < 36 ==> (if i == 8 || i == 13 || i == 18 || i == 23 {
            s[i] == '-'
        } else {
            ('0' <= #[trigger] s[i] && s[i] <= '9') || ('a' <= s[i] && s[i] <= 'f')
        })
}

/// `uuid::Uuid::new_v4().to_string()`: a random UUID in its hyphenated,
/// lowercase text form (`Uuid`'s `Display` writes it through `LowerHex`).
/// Only the shape of the text is stated; its digits are random.
#[verifier::external_body]
pub(crate) fn new_uuid_string() -> (r: String)
    ensures
        is_uuid_text(r@),
{
    uuid::Uuid::new_v4().to_string()
}

/// `whoami::username()`: the name of the user running the program, or
/// `"unknown"` where the system does not give one. It depends on the machine:
/// nothing is stated of it.
#[verifier::external_body]
pub(crate) fn current_username() -> (r: String) {
    whoami::username()
}

/// What `str::to_lowercase` returns for the characters `s`.
pub uninterp spec fn unicode_lowercase(s: Seq<char>) -> Seq<char>;

/// `str::to_lowercase`: the lowercase form of `s` under Unicode's
/// `Lowercase` mapping. The result is named, not written out: it is a function
/// of `s` alone. Of ASCII text it is the ASCII lowercase, letter by letter.
#[verifier::external_body]
pub(crate) fn lowercase(s: &str) -> (r: String)
    ensures
        r@ == unicode_lowercase(s@),
        is_ascii_text(s@) ==> r@ == ascii_lowercase(s@),
{
    s.to_lowercase()
}

/// What `bytesize::ByteSize::b(size).to_string()` returns.
pub uninterp spec fn bytesize_text(size: u64) -> Seq<char>;

/// `bytesize::ByteSize::b(size).to_string()`: a size in decimal units. The
/// text is named; the crate's `to_string` writes sizes under 1000 bytes as the
/// number followed by `" B"` (`format!("{} B", bytes)`), which is stated.
#[verifier::external_body]
pub(crate) fn byte_size_text(size: u64) -> (r: String)
    ensures
        r@ == bytesize_text(size),
        size < 1000 ==> r@ == decimal(size as nat) + " B"@,
{
    bytesize::ByteSize::b(size).to_string()
}

/// What base64 decoding with the standard alphabet and padding gives for the
/// bytes of `input`; none where the input is not valid.
pub uninterp spec fn base64_standard_decode(input: Seq<char>) -> Option<Seq<u8>>;

/// `base64::engine::general_purpose::STANDARD.decode(input.as_bytes())`, with
/// the error dropped. The decoded bytes are named: they are a function of the
/// input alone.
#[verifier::external_body]
pub(crate) fn decode_base64(input: &str) -> (r: Option<Vec<u8>>)
    ensures
        match r {
            Some(v) => base64_standard_decode(input@) == Some(v@),
            None => base64_standard_decode(input@) is None,
        },
{
    base64::engine::general_purpose::STANDARD.decode(input.as_bytes()).ok()
}

/// `String::from_utf8`, with the error dropped: a string exactly when the
/// bytes are valid UTF-8, holding the characters they encode.
#[verifier::external_body]
pub(crate) fn string_from_utf8(bytes: Vec<u8>) -> (r: Option<String>)
    ensures
        r is Some <==> vstd::utf8::valid_utf8(bytes@),
        r matches Some(s) ==> s@ == vstd::utf8::decode_utf8(bytes@),
{
    String::from_utf8(bytes).ok()
}

} // verus!
