//! The request as it goes on the wire.
//!
//! Every request asks the peer to close the connection after its response:
//! the end of the stream is the only end of a response that this client knows.

use vstd::prelude::*;
use vstd::string::{StringExecFns, StringSliceAdditionalSpecFns};
use vstd::utf8::encode_utf8;
use crate::decimal::{decimal, decimal_string, lemma_decimal_is_digits};
use crate::response::{body_of, first_separator_at, lemma_body_after_first_separator, separator_at};

verus! {

/// The text of a GET request for `path` on `host`.
pub open spec fn get_request_text(host: Seq<char>, path: Seq<char>) -> Seq<char> {
    "GET "@ + path + " HTTP/1.1\r\nHost: "@ + host + "\r\nConnection: close\r\n\r\n"@
}

/// The head of a POST request for `path` on `host` that carries `length`
/// bytes of plain text: request line, headers and the blank line.
pub open spec fn post_head_text(host: Seq<char>, path: Seq<char>, length: nat) -> Seq<char> {
    "POST "@ + path + " HTTP/1.1\r\nHost: "@ + host
        + "\r\nContent-Type: text/plain\r\nContent-Length: "@ + decimal(length)
        + "\r\nConnection: close\r\n\r\n"@
}

/// The text of a POST request for `path` on `host` with the given body: the
/// head, with the body's length in bytes, and then the body as it is.
pub open spec fn post_request_text(host: Seq<char>, path: Seq<char>, body: Seq<char>) -> Seq<
    char,
> {
    post_head_text(host, path, encode_utf8(body).len()) + body
}

/// Renders a GET request.
pub fn get_request(host: &str, path: &str) -> (text: String)
    ensures
        text@ == get_request_text(host@, path@),
{
    let mut text: String = String::from_str("GET ");
    text.append(path);
    text.append(" HTTP/1.1\r\nHost: ");
    text.append(host);
    text.append("\r\nConnection: close\r\n\r\n");
    text
}

/// Renders a POST request with a plain-text body.
pub fn post_request(host: &str, path: &str, body: &str) -> (text: String)
    ensures
        text@ == post_request_text(host@, path@, body@),
{
    let length: usize = body.as_bytes().len();
    let mut text: String = String::from_str("POST ");
    text.append(path);
    text.append(" HTTP/1.1\r\nHost: ");
    text.append(host);
    text.append("\r\nContent-Type: text/plain\r\nContent-Length: ");
    text.append(decimal_string(length).as_str());
    text.append("\r\nConnection: close\r\n\r\n");
    text.append(body);
    text
}

/// The encoding of two texts in a row is their encodings in a row.
proof fn lemma_encode_joined(a: Seq<char>, b: Seq<char>)
    ensures
        encode_utf8(a + b) == encode_utf8(a) + encode_utf8(b),
    decreases a.len(),
{
    if a.len() == 0 {
        assert(a + b =~= b);
        assert(encode_utf8(a) + encode_utf8(b) =~= encode_utf8(b));
    } else {
        lemma_encode_joined(a.drop_first(), b);
        assert((a + b).drop_first() =~= a.drop_first() + b);
        assert(encode_utf8(a + b) =~= encode_utf8(a) + encode_utf8(b));
    }
}

/// On the wire the head of a POST request is followed by the bytes of the
/// body and by nothing else, and the length that the head declares is the
/// number of those bytes.
pub proof fn lemma_declared_length_is_wire_length(
    host: Seq<char>,
    path: Seq<char>,
    body: Seq<char>,
)
    ensures
        ({
            let length = encode_utf8(body).len();
            let head = post_head_text(host, path, length);
            let wire = encode_utf8(post_request_text(host, path, body));
            &&& wire == encode_utf8(head) + encode_utf8(body)
            &&& wire.len() == encode_utf8(head).len() + length
            &&& wire.subrange(wire.len() - length, wire.len() as int) == encode_utf8(body)
        }),
{
    let length = encode_utf8(body).len();
    let head = post_head_text(host, path, length);
    lemma_encode_joined(head, body);
    let wire = encode_utf8(head) + encode_utf8(body);
    assert(wire.subrange(wire.len() - length, wire.len() as int) =~= encode_utf8(body));
}

/// Whether `text` is free of carriage returns and line feeds.
pub open spec fn single_line(text: Seq<char>) -> bool {
    forall|i: int| 0 <= i < text.len() ==> text[i] != '\r' && text[i] != '\n'
}

/// Whether a line feed stands at position `i` of `text`, with a carriage
/// return right behind it.
spec fn line_ends_at(text: Seq<char>, i: int) -> bool {
    0 <= i && i + 1 < text.len() && text[i] == '\n' && text[i + 1] == '\r'
}

/// Whether no line feed in `text` has a carriage return right behind it.
spec fn no_blank_line(text: Seq<char>) -> bool {
    forall|i: int| !line_ends_at(text, i)
}

/// Whether `text` is empty or ends in something other than a line feed.
spec fn open_ended(text: Seq<char>) -> bool {
    text.len() > 0 ==> text.last() != '\n'
}

/// Joining two texts without a blank line makes none, unless the join does.
proof fn lemma_join(a: Seq<char>, b: Seq<char>)
    requires
        no_blank_line(a),
        no_blank_line(b),
        open_ended(a) || (b.len() > 0 ==> b[0] != '\r'),
    ensures
        no_blank_line(a + b),
        b.len() > 0 ==> (open_ended(a + b) <==> open_ended(b)),
        b.len() == 0 ==> (open_ended(a + b) <==> open_ended(a)),
{
    let t = a + b;
    if b.len() == 0 {
        assert(t =~= a);
    }
    assert forall|i: int| !line_ends_at(t, i) by {
        if 0 <= i && i + 1 < t.len() {
            if i + 1 < a.len() {
                assert(!line_ends_at(a, i));
            } else if i + 1 == a.len() {
                assert(t[i] == a.last());
                assert(t[i + 1] == b[0]);
            } else {
                assert(!line_ends_at(b, i - a.len()));
            }
        }
    }
}

/// A text of one line has no blank line, and does not end in a line feed.
proof fn lemma_single_line(text: Seq<char>)
    requires
        single_line(text),
    ensures
        no_blank_line(text),
        open_ended(text),
        text.len() > 0 ==> text[0] != '\r',
{
}

/// A text that is a head without a blank line, then CR LF CR LF, then a body,
/// has that body.
proof fn lemma_body_after_head(head: Seq<char>, body: Seq<char>)
    requires
        no_blank_line(head),
        open_ended(head),
        head.len() > 0 ==> head.last() != '\r',
    ensures
        body_of(head + "\r\n\r\n"@ + body) == body,
{
    reveal_strlit("\r\n\r\n");
    let blank = "\r\n\r\n"@;
    let text = head + blank + body;
    let at = head.len() as int;
    assert(separator_at(text, at));
    assert forall|j: int| 0 <= j < at implies !separator_at(text, j) by {
        if separator_at(text, j) {
            if j + 2 < at {
                assert(!line_ends_at(head, j + 1));
            } else if j + 2 == at {
                assert(text[j + 1] == head.last());
            } else {
                assert(text[j] == head.last());
            }
        }
    }
    assert(first_separator_at(text, at));
    lemma_body_after_first_separator(text, at);
    assert(text.subrange(at + 4, text.len() as int) =~= body);
}

/// A reader that splits a POST request at its first blank line finds the
/// body, the whole body and nothing but the body, whatever the body holds:
/// host and path being of one line each, the blank line that ends the head
/// is the first in the request, and nothing follows the body.
pub proof fn lemma_post_body_follows_blank_line(
    host: Seq<char>,
    path: Seq<char>,
    body: Seq<char>,
)
    requires
        single_line(host),
        single_line(path),
    ensures
        body_of(post_request_text(host, path, body)) == body,
{
    reveal_strlit("POST ");
    reveal_strlit(" HTTP/1.1\r\nHost: ");
    reveal_strlit("\r\nContent-Type: text/plain\r\nContent-Length: ");
    reveal_strlit("\r\nConnection: close\r\n\r\n");
    reveal_strlit("\r\nConnection: close");
    reveal_strlit("\r\n\r\n");
    let length = encode_utf8(body).len();
    let digits = decimal(length);
    lemma_decimal_is_digits(length);
    lemma_single_line(host);
    lemma_single_line(path);
    let method = "POST "@;
    let host_label = " HTTP/1.1\r\nHost: "@;
    let type_and_length = "\r\nContent-Type: text/plain\r\nContent-Length: "@;
    let connection = "\r\nConnection: close"@;
    assert(no_blank_line(method) && open_ended(method));
    assert(no_blank_line(host_label) && open_ended(host_label));
    assert(no_blank_line(type_and_length) && open_ended(type_and_length));
    assert(no_blank_line(connection) && open_ended(connection));
    assert(no_blank_line(digits) && open_ended(digits));
    let mut head = method;
    lemma_join(head, path);
    head = head + path;
    lemma_join(head, host_label);
    head = head + host_label;
    lemma_join(head, host);
    head = head + host;
    lemma_join(head, type_and_length);
    head = head + type_and_length;
    lemma_join(head, digits);
    head = head + digits;
    lemma_join(head, connection);
    head = head + connection;
    assert(head.last() == connection.last());
    lemma_body_after_head(head, body);
    assert("\r\nConnection: close\r\n\r\n"@ =~= connection + "\r\n\r\n"@);
    assert(post_request_text(host, path, body) =~= head + "\r\n\r\n"@ + body);
}

/// A GET request has no body: it ends with its first blank line.
pub proof fn lemma_get_has_no_body(host: Seq<char>, path: Seq<char>)
    requires
        single_line(host),
        single_line(path),
    ensures
        body_of(get_request_text(host, path)) == Seq::<char>::empty(),
{
    reveal_strlit("GET ");
    reveal_strlit(" HTTP/1.1\r\nHost: ");
    reveal_strlit("\r\nConnection: close\r\n\r\n");
    reveal_strlit("\r\nConnection: close");
    reveal_strlit("\r\n\r\n");
    lemma_single_line(host);
    lemma_single_line(path);
    let method = "GET "@;
    let host_label = " HTTP/1.1\r\nHost: "@;
    let connection = "\r\nConnection: close"@;
    assert(no_blank_line(method) && open_ended(method));
    assert(no_blank_line(host_label) && open_ended(host_label));
    assert(no_blank_line(connection) && open_ended(connection));
    let mut head = method;
    lemma_join(head, path);
    head = head + path;
    lemma_join(head, host_label);
    head = head + host_label;
    lemma_join(head, host);
    head = head + host;
    lemma_join(head, connection);
    head = head + connection;
    assert(head.last() == connection.last());
    let nothing = Seq::<char>::empty();
    lemma_body_after_head(head, nothing);
    assert("\r\nConnection: close\r\n\r\n"@ =~= connection + "\r\n\r\n"@);
    assert(get_request_text(host, path) =~= head + "\r\n\r\n"@ + nothing);
}

} // verus!
