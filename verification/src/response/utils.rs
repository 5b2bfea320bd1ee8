//! The name under which an exported file is offered for download.

use vstd::prelude::*;
use vstd::string::*;

verus! {

/// The bytes that stand for themselves in an encoded name: the ASCII
/// letters and digits, `-`, `.`, `_` and `~`.
pub open spec fn is_unreserved(byte: u8) -> bool {
    (0x30 <= byte <= 0x39) || (0x41 <= byte <= 0x5A) || (0x61 <= byte <= 0x7A) || byte == 0x2D
        || byte == 0x2E || byte == 0x5F || byte == 0x7E
}

/// The hexadecimal digit of a value below 16, in upper case.
pub open spec fn hex_digit(value: int) -> char {
    "0123456789ABCDEF"@[value]
}

/// The bytes with every byte that does not stand for itself written as
/// `%` and its two hexadecimal digits.
pub open spec fn percent_encoded(bytes: Seq<u8>) -> Seq<char>
    decreases bytes.len(),
{
    if bytes.len() == 0 {
        Seq::empty()
    } else if is_unreserved(bytes[0]) {
        seq![bytes[0] as char] + percent_encoded(bytes.drop_first())
    } else {
        seq!['%', hex_digit(bytes[0] as int / 16), hex_digit(bytes[0] as int % 16)]
            + percent_encoded(bytes.drop_first())
    }
}

/// Encodes a text with `urlencoding::encode`. The contract claims what
/// the crate documents: every byte of the text's UTF-8 form is
/// percent-encoded, except the ASCII letters and digits and `-`, `_`, `.`,
/// `~`; the digits of a byte are in upper case.
#[verifier::external_body]
fn percent_encode(text: &str) -> (encoded: String)
    ensures
        encoded@ == percent_encoded(vstd::utf8::encode_utf8(text@)),
{
    urlencoding::encode(text).into_owned()
}

/// The last component of a path, as `std::path::Path::file_name` finds
/// it for the platform the library is built for. Nothing is claimed of
/// the answer.
#[verifier::external_body]
fn file_name_of(path: &str) -> Option<String> {
    std::path::Path::new(path).file_name().and_then(|name| name.to_str()).map(|name| name.to_owned())
}

/// The encoded form of a file name, or the complaint that there is none.
pub open spec fn encoded_name(file_name: Option<Seq<char>>) -> Result<Seq<char>, Seq<char>> {
    match file_name {
        Some(name) => Ok(percent_encoded(vstd::utf8::encode_utf8(name))),
        None => Err("Failed to get file name from path."@),
    }
}

/// The name of a string result, whichever way it went.
pub open spec fn result_text(r: Result<String, String>) -> Result<Seq<char>, Seq<char>> {
    match r {
        Ok(text) => Ok(text@),
        Err(text) => Err(text@),
    }
}

/// The encoded form of a file name, or the complaint that there is none.
pub fn encode_file_name(file_name: &Option<String>) -> (r: Result<String, String>)
    ensures
        result_text(r) == encoded_name(crate::server::schema::optional_text(*file_name)),
{
    match file_name {
        Some(name) => Ok(percent_encode(name.as_str())),
        None => Err(String::from_str("Failed to get file name from path.")),
    }
}

/// The encoded form of the file name that a path ends in. Which part of
/// the path that is, and whether there is one, is for the platform to say.
pub fn get_encoded_file_name(path: &str) -> (r: Result<String, String>)
    ensures
        exists|file_name: Option<Seq<char>>| result_text(r) == #[trigger] encoded_name(file_name),
{
    let file_name = file_name_of(path);
    let r = encode_file_name(&file_name);
    proof {
        assert(result_text(r) == encoded_name(crate::server::schema::optional_text(file_name)));
    }
    r
}

} // verus!
