//! The response builder: classifying the request line of a header block and
//! assembling the complete framed HTTP/1.1 response around the serialized
//! JSON body.

use crate::json::dec_str;
use crate::json::decimal_string;
use crate::json::error_body;
use crate::json::error_body_text;
use crate::json::is_digit_char;
use crate::json::lemma_dec_str_digits;
use crate::json::lemma_error_body_ascii;
use crate::json::lemma_score_body_ascii;
use crate::json::score_body_text;
use crate::json::scores_body;
use crate::reader::lines_view;
use vstd::prelude::*;
use vstd::string::*;

verus! {

/// The fixed text between the status line and the Content-Length value:
/// the header lines every response carries.
pub open spec fn fixed_headers_text() -> Seq<char> {
    "\r\nContent-Type: application/json\r\nAccess-Control-Allow-Origin: *\r\nAccess-Control-Allow-Methods: GET\r\nAccess-Control-Max-Age: 86400\r\nAccess-Control-Allow-Headers: X-PINGOTHER, Content-Type\r\nContent-Length: "@
}

/// A complete response: the status line, the fixed headers, a
/// Content-Length of exactly the body's length, a blank line, and the body.
/// The length is counted in characters; the library only frames ASCII
/// bodies, whose character count is their byte count.
pub open spec fn response_text(status: Seq<char>, body: Seq<char>) -> Seq<char> {
    status + fixed_headers_text() + dec_str(body.len()) + "\r\n\r\n"@ + body
}

/// The one request line the server recognizes.
pub open spec fn get_root_line() -> Seq<char> {
    "GET / HTTP/1.1"@
}

/// The status line of the success response.
pub open spec fn ok_status_line() -> Seq<char> {
    "HTTP/1.1 200 OK"@
}

/// The status line of the method-not-allowed response.
pub open spec fn not_allowed_status_line() -> Seq<char> {
    "HTTP/1.1 405 Method Not Allowed"@
}

/// Whether a header block asks for the one supported request: its first
/// line is exactly the recognized request line. An empty block never
/// matches.
pub open spec fn spec_is_get_root(block: Seq<Seq<char>>) -> bool {
    block.len() > 0 && block[0] == get_root_line()
}

/// The response the server owes a header block: the success response with
/// the fixed score table when the first line matches, the method-not-allowed
/// response for every other block, the empty one included.
pub open spec fn spec_response(block: Seq<Seq<char>>) -> Seq<char> {
    if spec_is_get_root(block) {
        response_text(ok_status_line(), score_body_text())
    } else {
        response_text(not_allowed_status_line(), error_body_text())
    }
}

/// Assemble the complete response for a status line and an ASCII body.
pub fn build_response(status_line: &str, body: &str) -> (r: String)
    requires
        body.is_ascii(),
    ensures
        r@ == response_text(status_line@, body@),
{
    let mut r = status_line.to_owned();
    r.append(
        "\r\nContent-Type: application/json\r\nAccess-Control-Allow-Origin: *\r\nAccess-Control-Allow-Methods: GET\r\nAccess-Control-Max-Age: 86400\r\nAccess-Control-Allow-Headers: X-PINGOTHER, Content-Type\r\nContent-Length: ",
    );
    let n = body.unicode_len();
    let digits = decimal_string(n as u64);
    r.append(digits.as_str());
    r.append("\r\n\r\n");
    r.append(body);
    proof {
        assert(r@ == response_text(status_line@, body@));
    }
    r
}

/// The response for a header block, as one string of response text: the
/// score table with a 200 status when the first line is exactly the
/// recognized request line, the method-not-allowed error with a 405 status
/// otherwise — also when the block is empty, so that a connection that
/// closed without sending anything is answered rather than crashed on.
pub fn response_for(headers: &Vec<String>) -> (r: String)
    ensures
        r@ == spec_response(lines_view(headers@)),
{
    let pattern = String::from_str("GET / HTTP/1.1");
    let is_get_root = headers.len() > 0 && headers[0] == pattern;
    proof {
        assert(lines_view(headers@).len() == headers@.len());
        if headers@.len() > 0 {
            assert(lines_view(headers@)[0] == headers@[0]@);
        }
        assert(is_get_root == spec_is_get_root(lines_view(headers@)));
    }
    if is_get_root {
        let body = scores_body();
        proof {
            lemma_score_body_ascii();
        }
        build_response("HTTP/1.1 200 OK", body.as_str())
    } else {
        let body = error_body();
        proof {
            lemma_error_body_ascii();
        }
        build_response("HTTP/1.1 405 Method Not Allowed", body.as_str())
    }
}

/// `p` is a prefix of `s`.
pub open spec fn starts_with(s: Seq<char>, p: Seq<char>) -> bool {
    p.len() <= s.len() && s.take(p.len() as int) == p
}

/// `p` is a suffix of `s`.
pub open spec fn ends_with(s: Seq<char>, p: Seq<char>) -> bool {
    p.len() <= s.len() && s.skip(s.len() - p.len()) == p
}

/// A header block whose first line is exactly the recognized request line
/// is answered by the success response: it begins with the 200 status line,
/// and what follows its blank line is the JSON object holding exactly the
/// ten fixed user scores.
pub proof fn lemma_get_root_response(block: Seq<Seq<char>>)
    requires
        spec_is_get_root(block),
    ensures
        spec_response(block) == response_text(ok_status_line(), score_body_text()),
        starts_with(spec_response(block), ok_status_line() + "\r\n"@),
        ends_with(spec_response(block), "\r\n\r\n"@ + score_body_text()),
{
    lemma_response_shape(ok_status_line(), score_body_text());
}

/// Every other header block — the empty one included — is answered by the
/// method-not-allowed response: it begins with the 405 status line, and
/// what follows its blank line is the JSON object holding exactly the four
/// fixed error fields.
pub proof fn lemma_other_response(block: Seq<Seq<char>>)
    requires
        !spec_is_get_root(block),
    ensures
        spec_response(block) == response_text(not_allowed_status_line(), error_body_text()),
        starts_with(spec_response(block), not_allowed_status_line() + "\r\n"@),
        ends_with(spec_response(block), "\r\n\r\n"@ + error_body_text()),
{
    lemma_response_shape(not_allowed_status_line(), error_body_text());
}

/// Every response begins with its status line followed by CRLF, and ends
/// with the blank line followed by its body.
pub proof fn lemma_response_shape(status: Seq<char>, body: Seq<char>)
    ensures
        starts_with(response_text(status, body), status + "\r\n"@),
        ends_with(response_text(status, body), "\r\n\r\n"@ + body),
{
    reveal_strlit("\r\n");
    reveal_strlit("\r\n\r\n");
    reveal_strlit(
        "\r\nContent-Type: application/json\r\nAccess-Control-Allow-Origin: *\r\nAccess-Control-Allow-Methods: GET\r\nAccess-Control-Max-Age: 86400\r\nAccess-Control-Allow-Headers: X-PINGOTHER, Content-Type\r\nContent-Length: ",
    );
    let r = response_text(status, body);
    let p = status + "\r\n"@;
    assert(fixed_headers_text()[0] == '\r');
    assert(fixed_headers_text()[1] == '\n');
    assert(r.take(p.len() as int) =~= p);
    assert(r.skip(r.len() - ("\r\n\r\n"@ + body).len()) =~= "\r\n\r\n"@ + body);
}

/// The Content-Length digits of a response are exactly the decimal
/// rendering of the byte length of the body that follows the blank line,
/// whenever the body is ASCII — as every body this library produces is; and
/// they stand directly after the fixed headers, which end with the
/// Content-Length header name.
pub proof fn lemma_content_length(status: Seq<char>, body: Seq<char>)
    requires
        vstd::utf8::is_ascii_chars(body),
    ensures
        response_text(status, body) == (status + fixed_headers_text()) + (dec_str(
            vstd::utf8::encode_utf8(body).len(),
        ) + ("\r\n\r\n"@ + body)),
        forall|i: int|
            0 <= i < dec_str(vstd::utf8::encode_utf8(body).len()).len() ==> is_digit_char(
                #[trigger] dec_str(vstd::utf8::encode_utf8(body).len())[i],
            ),
        ends_with(status + fixed_headers_text(), "Content-Length: "@),
{
    vstd::utf8::is_ascii_chars_encode_utf8(body);
    assert(vstd::utf8::encode_utf8(body).len() == body.len());
    lemma_dec_str_digits(body.len());
    assert(response_text(status, body) =~= (status + fixed_headers_text()) + (dec_str(body.len())
        + ("\r\n\r\n"@ + body)));
    reveal_strlit("Content-Length: ");
    reveal_strlit(
        "\r\nContent-Type: application/json\r\nAccess-Control-Allow-Origin: *\r\nAccess-Control-Allow-Methods: GET\r\nAccess-Control-Max-Age: 86400\r\nAccess-Control-Allow-Headers: X-PINGOTHER, Content-Type\r\nContent-Length: ",
    );
    let h = status + fixed_headers_text();
    assert(h.skip(h.len() - 16) =~= "Content-Length: "@);
}

/// The response is a function of the header block alone: two connections
/// that send the same block get byte-identical responses.
pub proof fn lemma_response_deterministic(b1: Seq<Seq<char>>, b2: Seq<Seq<char>>)
    requires
        b1 == b2,
    ensures
        spec_response(b1) == spec_response(b2),
{
}

/// A connection that closes before sending any line is answered with the
/// method-not-allowed response, like any other unrecognized request.
pub proof fn lemma_empty_block_response(block: Seq<Seq<char>>)
    requires
        block.len() == 0,
    ensures
        spec_response(block) == response_text(not_allowed_status_line(), error_body_text()),
{
}

} // verus!
