//! The address of the sheet's values.

use vstd::prelude::*;
use vstd::string::*;
use vstd::utf8::*;

verus! {

/// Bytes that percent-encoding leaves as they are: letters, digits and
/// `-`, `.`, `_`, `~`.
pub open spec fn is_unreserved(b: u8) -> bool {
    ||| 0x30 <= b <= 0x39
    ||| 0x41 <= b <= 0x5a
    ||| 0x61 <= b <= 0x7a
    ||| b == 0x2d
    ||| b == 0x2e
    ||| b == 0x5f
    ||| b == 0x7e
}

/// The upper-case hexadecimal digit for `n`, which is below sixteen.
pub open spec fn hex_digit(n: u8) -> char {
    if n < 10 {
        ((0x30 + n) as u8) as char
    } else {
        ((0x37 + n) as u8) as char
    }
}

/// One byte, percent-encoded.
pub open spec fn escaped_byte(b: u8) -> Seq<char> {
    if is_unreserved(b) {
        seq![b as char]
    } else {
        seq!['%', hex_digit(b / 16), hex_digit(b % 16)]
    }
}

/// A byte string, percent-encoded byte by byte.
pub open spec fn percent_encoded(bytes: Seq<u8>) -> Seq<char>
    decreases bytes.len(),
{
    if bytes.len() == 0 {
        Seq::empty()
    } else {
        percent_encoded(bytes.drop_last()) + escaped_byte(bytes.last())
    }
}

/// The address of the values of `range` in the sheet `spreadsheet_id`.
pub open spec fn values_url(spreadsheet_id: Seq<char>, range: Seq<char>) -> Seq<char> {
    "https://sheets.googleapis.com/v4/spreadsheets/"@ + spreadsheet_id + "/values/"@
        + percent_encoded(encode_utf8(range))
}

/// Calls `urlencoding::encode`, which writes every byte of the UTF-8 text
/// as `%` and two upper-case hexadecimal digits, but letters, digits and
/// `-`, `.`, `_`, `~`, which it copies.
#[verifier::external_body]
fn percent_encode(text: &str) -> (out: String)
    ensures
        out@ == percent_encoded(encode_utf8(text@)),
{
    urlencoding::encode(text).into_owned()
}

/// The cell range that is read.
pub fn form_responses_range() -> (s: &'static str)
    ensures
        s@ == "Form Responses 1!A1:Z600"@,
{
    "Form Responses 1!A1:Z600"
}

/// Builds the address from which the values of `range` are fetched. The
/// sheet's identifier goes in as it is; the range is percent-encoded.
pub fn sheet_values_url(spreadsheet_id: &str, range: &str) -> (url: String)
    ensures
        url@ == values_url(spreadsheet_id@, range@),
{
    let mut url = String::from_str("https://sheets.googleapis.com/v4/spreadsheets/");
    url.append(spreadsheet_id);
    url.append("/values/");
    let escaped = percent_encode(range);
    url.append(escaped.as_str());
    url
}

} // verus!
