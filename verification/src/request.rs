//! The request that asks the registry about one day, and the name of the
//! file that keeps an answer.

use vstd::prelude::*;
use vstd::utf8::encode_utf8;
use crate::classify::STATUS_OK;
use crate::text::{decimal, decimal_text};

verus! {

/// Where the registry listens.
pub const ENDPOINT: &'static str =
    "http://58.65.189.226:8080/ovd/API_FOR_VEH_REG_DATA/VEHDATA.php";

/// Seconds after which a request is given up.
pub const TIMEOUT_SECS: u64 = 10;

/// The content type of a request, which names the boundary between its fields.
pub const CONTENT_TYPE: &'static str =
    "multipart/form-data; boundary=wL36Yn8afVp8Ag7AmP8qZ0SA4n1v9T";

/// The line that opens a field of the form.
pub const FIELD_OPEN: &'static str = "--wL36Yn8afVp8Ag7AmP8qZ0SA4n1v9T\r\n";

/// The line that closes the form.
pub const FORM_CLOSE: &'static str = "--wL36Yn8afVp8Ag7AmP8qZ0SA4n1v9T--\r\n";

/// Header of the field that holds the identifier.
pub const IDENTIFIER_FIELD: &'static str =
    "Content-Disposition: form-data; name=registrationNo;\r\n";

/// Header of the field that holds the day.
pub const DATE_FIELD: &'static str = "Content-Disposition: form-data; name=registrationDate;\r\n";

/// Header that says a field is plain text, and the empty line after it.
pub const PLAIN_TEXT: &'static str = "Content-Type: text/plain\r\n\r\n";

/// End of a line.
pub const LINE_END: &'static str = "\r\n";

/// Directory in which answers are kept.
pub const RESULTS_DIR: &'static str = "vehicle_results";

/// One field of the form: its opening line, its two headers and its value
/// on a line of its own.
pub open spec fn form_field(header: Seq<char>, value: Seq<char>) -> Seq<u8> {
    encode_utf8(FIELD_OPEN@) + encode_utf8(header) + encode_utf8(PLAIN_TEXT@) + encode_utf8(value)
        + encode_utf8(LINE_END@)
}

/// The form that asks about `identifier` on `date`: the two fields, then
/// the closing line.
pub open spec fn request_body(identifier: Seq<char>, date: Seq<char>) -> Seq<u8> {
    form_field(IDENTIFIER_FIELD@, identifier) + form_field(DATE_FIELD@, date) + encode_utf8(
        FORM_CLOSE@,
    )
}

fn push_field(body: &mut Vec<u8>, header: &str, value: &str)
    ensures
        final(body)@ == old(body)@ + form_field(header@, value@),
{
    body.extend_from_slice(FIELD_OPEN.as_bytes());
    body.extend_from_slice(header.as_bytes());
    body.extend_from_slice(PLAIN_TEXT.as_bytes());
    body.extend_from_slice(value.as_bytes());
    body.extend_from_slice(LINE_END.as_bytes());
    assert(body@ =~= old(body)@ + form_field(header@, value@));
}

/// Builds the form that asks about `identifier` on `date`.
pub fn build_request_body(identifier: &str, date: &str) -> (body: Vec<u8>)
    ensures
        body@ == request_body(identifier@, date@),
{
    let mut body: Vec<u8> = Vec::new();
    push_field(&mut body, IDENTIFIER_FIELD, identifier);
    push_field(&mut body, DATE_FIELD, date);
    body.extend_from_slice(FORM_CLOSE.as_bytes());
    assert(body@ =~= request_body(identifier@, date@));
    body
}

/// Name of the file that keeps the answer for `identifier` on `date`: the
/// two joined by `_`, with the status in front unless it is 200.
pub open spec fn filename_text(identifier: Seq<char>, date: Seq<char>, status: u16) -> Seq<char> {
    if status != STATUS_OK {
        "HTTP"@ + decimal_text(status as nat) + "_"@ + identifier + "_"@ + date + ".html"@
    } else {
        identifier + "_"@ + date + ".html"@
    }
}

/// Names the file that keeps an answer.
pub fn result_filename(identifier: &str, date: &str, status: u16) -> (name: String)
    ensures
        name@ == filename_text(identifier@, date@, status),
{
    let mut name = String::new();
    if status != STATUS_OK {
        name.append("HTTP");
        name.append(decimal(status as u64).as_str());
        name.append("_");
    }
    name.append(identifier);
    name.append("_");
    name.append(date);
    name.append(".html");
    assert(name@ =~= filename_text(identifier@, date@, status));
    name
}

} // verus!
