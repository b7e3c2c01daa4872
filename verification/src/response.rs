//! Status lines and the bytes of a response.

use vstd::prelude::*;
use vstd::string::*;
use vstd::utf8::encode_utf8;
use crate::decimal::{decimal, decimal_string};

verus! {

/// The reason phrase of a status code; empty for a code the table lacks.
pub open spec fn reason_phrase(code: u16) -> Seq<char> {
    if code == 200 {
        "OK"@
    } else if code == 400 {
        "BAD REQUEST"@
    } else if code == 404 {
        "NOT FOUND"@
    } else {
        Seq::empty()
    }
}

/// The status line of a response, without its line ending.
pub open spec fn status_line(code: u16) -> Seq<char> {
    "HTTP/1.1 "@ + decimal(code as nat) + " "@ + reason_phrase(code)
}

/// A whole response: status line, the length of the body in bytes, a blank
/// line, and the body as it is.
pub open spec fn wire_format(code: u16, body: Seq<char>) -> Seq<char> {
    status_line(code) + "\r\nContent-Length: "@ + decimal(encode_utf8(body).len()) + "\r\n\r\n"@
        + body
}

fn reason_text(code: u16) -> (r: &'static str)
    ensures
        r@ == reason_phrase(code),
{
    if code == 200 {
        "OK"
    } else if code == 400 {
        "BAD REQUEST"
    } else if code == 404 {
        "NOT FOUND"
    } else {
        proof {
            reveal_strlit("");
        }
        assert(""@ =~= Seq::<char>::empty());
        ""
    }
}

/// Writes the status line for `code`.
pub fn get_status_line(code: u16) -> (line: String)
    ensures
        line@ == status_line(code),
{
    let mut line = String::from_str("HTTP/1.1 ");
    let number = decimal_string(code as u64);
    line.append(number.as_str());
    line.append(" ");
    line.append(reason_text(code));
    line
}

/// Writes the response that carries `body` under the status `code`.
pub fn serialize_response(code: u16, body: &str) -> (wire: String)
    ensures
        wire@ == wire_format(code, body@),
{
    let mut wire = get_status_line(code);
    let length = body.as_bytes().len();
    let number = decimal_string(length as u64);
    wire.append("\r\nContent-Length: ");
    wire.append(number.as_str());
    wire.append("\r\n\r\n");
    wire.append(body);
    wire
}

} // verus!
