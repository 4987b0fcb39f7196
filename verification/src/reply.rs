//! Responses: the bytes that go over the wire in answer to a request.

use crate::decimal::{decimal, is_digit, law_decimal_reads_back, lemma_decimal, to_decimal};
use crate::http::{
    content_length, decoded, field_line, header_end, header_field, header_fields, headers_of,
    law_field_reads_back, lemma_field_line,
};
use crate::json::Json;
use crate::lines::{
    crlf, head_of, law_head_ends_once, law_head_lines_read_back, lemma_one_line_behind,
    lemma_without_return, lines, lines_text, one_line, without_return,
};
use crate::text::{ascii_lower, law_trimmed_again, trimmed};
use crate::value::{contents, json_bytes, json_to_vec};
use crate::views::text_view;
use crate::wire::law_written_head_ends;
use vstd::prelude::*;
use vstd::utf8::encode_utf8;

verus! {

/// A response, as it goes over the wire: the head, then the body.
pub struct HttpResponse {
    pub head: String,
    pub body: Vec<u8>,
}

/// The view of a response.
pub struct ResponseView {
    pub head: Seq<char>,
    pub body: Seq<u8>,
}

impl View for HttpResponse {
    type V = ResponseView;

    open spec fn view(&self) -> ResponseView {
        ResponseView { head: self.head@, body: self.body@ }
    }
}

/// The origin that a response is meant for: the one that asked, or any.
pub open spec fn allowed_origin(origin: Option<Seq<char>>) -> Seq<char> {
    match origin {
        Some(o) => o,
        None => "*"@,
    }
}

/// The lines of the head of a response with a JSON body.
pub open spec fn json_head_lines(
    status_code: u16,
    status_text: Seq<char>,
    body_len: nat,
    origin: Option<Seq<char>>,
) -> Seq<Seq<char>> {
    seq![
        "HTTP/1.1 "@ + decimal(status_code as nat) + " "@ + status_text,
        field_line("Content-Type"@, "application/json; charset=utf-8"@),
        field_line("Content-Length"@, decimal(body_len)),
        field_line("Access-Control-Allow-Origin"@, allowed_origin(origin)),
        field_line("Vary"@, "Origin"@),
        field_line("Connection"@, "close"@),
    ]
}

/// The lines of the head of the response to a preflight request.
pub open spec fn options_head_lines(origin: Option<Seq<char>>) -> Seq<Seq<char>> {
    seq![
        "HTTP/1.1 204 No Content"@,
        field_line("Access-Control-Allow-Origin"@, allowed_origin(origin)),
        field_line("Access-Control-Allow-Methods"@, "POST, OPTIONS"@),
        field_line("Access-Control-Allow-Headers"@, "Content-Type, X-WAM-Extension"@),
        field_line("Access-Control-Max-Age"@, "600"@),
        field_line("Vary"@, "Origin"@),
        field_line("Connection"@, "close"@),
        field_line("Content-Length"@, "0"@),
    ]
}

/// Adds the line of a header field to a head.
fn add_field(head: &mut String, name: &str, value: &str)
    ensures
        final(head)@ == old(head)@ + field_line(name@, value@) + crlf(),
{
    head.append(name);
    head.append(": ");
    head.append(value);
    head.push('\r');
    head.push('\n');
    assert(head@ =~= old(head)@ + field_line(name@, value@) + crlf());
}

/// The text of the first lines grows by one line at a time.
proof fn lemma_next_line(ls: Seq<Seq<char>>, i: int)
    requires
        0 <= i < ls.len(),
    ensures
        lines_text(ls.take(i + 1)) == lines_text(ls.take(i)) + ls[i] + crlf(),
        lines_text(ls.take(0)) == Seq::<char>::empty(),
{
    assert(ls.take(i + 1).drop_last() == ls.take(i));
}

/// The response with that body.
pub open spec fn json_response_of(
    status_code: u16,
    status_text: Seq<char>,
    body: Seq<u8>,
    origin: Option<Seq<char>>,
) -> ResponseView {
    ResponseView {
        head: head_of(json_head_lines(status_code, status_text, body.len(), origin)),
        body,
    }
}

/// Puts a head before the bytes of a JSON body.
pub fn frame_json_response(
    status_code: u16,
    status_text: &str,
    body: Vec<u8>,
    origin: Option<&str>,
) -> (r: HttpResponse)
    ensures
        r@ == json_response_of(status_code, status_text@, body@, text_view(origin)),
{
    let cors_origin = match origin {
        Some(o) => o,
        None => "*",
    };
    let code = to_decimal(status_code as usize);
    let length = to_decimal(body.len());
    let ghost ls = json_head_lines(status_code, status_text@, body@.len(), text_view(origin));
    let mut head = "HTTP/1.1 ".to_owned();
    head.append(code.as_str());
    head.append(" ");
    head.append(status_text);
    head.push('\r');
    head.push('\n');
    proof {
        lemma_next_line(ls, 0);
        assert(head@ =~= lines_text(ls.take(1)));
    }
    add_field(&mut head, "Content-Type", "application/json; charset=utf-8");
    add_field(&mut head, "Content-Length", length.as_str());
    add_field(&mut head, "Access-Control-Allow-Origin", cors_origin);
    add_field(&mut head, "Vary", "Origin");
    add_field(&mut head, "Connection", "close");
    proof {
        lemma_next_line(ls, 1);
        lemma_next_line(ls, 2);
        lemma_next_line(ls, 3);
        lemma_next_line(ls, 4);
        lemma_next_line(ls, 5);
        assert(ls.take(6) == ls);
    }
    head.push('\r');
    head.push('\n');
    assert(head@ =~= head_of(ls));
    HttpResponse { head, body }
}

/// The response with a reply as its body.
pub fn json_response(
    status_code: u16,
    status_text: &str,
    reply: &Json,
    origin: Option<&str>,
) -> (r: Result<HttpResponse, String>)
    ensures
        r matches Ok(response) && response@ == json_response_of(
            status_code,
            status_text@,
            json_bytes(contents(reply@)),
            text_view(origin),
        ),
{
    match json_to_vec(reply) {
        Ok(body) => Ok(frame_json_response(status_code, status_text, body, origin)),
        Err(message) => Err(message),
    }
}

/// The response to a preflight request.
pub fn options_response(origin: Option<&str>) -> (r: HttpResponse)
    ensures
        r@ == (ResponseView {
            head: head_of(options_head_lines(text_view(origin))),
            body: Seq::empty(),
        }),
{
    let cors_origin = match origin {
        Some(o) => o,
        None => "*",
    };
    let ghost ls = options_head_lines(text_view(origin));
    let mut head = "HTTP/1.1 204 No Content".to_owned();
    head.push('\r');
    head.push('\n');
    proof {
        lemma_next_line(ls, 0);
        assert(head@ =~= lines_text(ls.take(1)));
    }
    add_field(&mut head, "Access-Control-Allow-Origin", cors_origin);
    add_field(&mut head, "Access-Control-Allow-Methods", "POST, OPTIONS");
    add_field(&mut head, "Access-Control-Allow-Headers", "Content-Type, X-WAM-Extension");
    add_field(&mut head, "Access-Control-Max-Age", "600");
    add_field(&mut head, "Vary", "Origin");
    add_field(&mut head, "Connection", "close");
    add_field(&mut head, "Content-Length", "0");
    proof {
        lemma_next_line(ls, 1);
        lemma_next_line(ls, 2);
        lemma_next_line(ls, 3);
        lemma_next_line(ls, 4);
        lemma_next_line(ls, 5);
        lemma_next_line(ls, 6);
        lemma_next_line(ls, 7);
        assert(ls.take(8) == ls);
    }
    head.push('\r');
    head.push('\n');
    assert(head@ =~= head_of(ls));
    HttpResponse { head, body: Vec::new() }
}

/// A number keeps to one line.
proof fn lemma_decimal_line(n: nat)
    ensures
        without_return(decimal(n)),
        one_line(decimal(n)),
{
    lemma_decimal(n);
    assert forall|j: int| 0 <= j < decimal(n).len() implies #[trigger] decimal(n)[j] != '\r' by {
        assert(is_digit(decimal(n)[j]));
    }
    lemma_without_return(decimal(n));
}

/// The lines of the head of a JSON response keep to one line each, and none is
/// empty.
proof fn lemma_json_head_lines(
    status_code: u16,
    status_text: Seq<char>,
    body_len: nat,
    origin: Option<Seq<char>>,
)
    requires
        one_line(status_text),
        one_line(allowed_origin(origin)),
    ensures
        forall|i: int|
            0 <= i < 6 ==> one_line(
                #[trigger] json_head_lines(status_code, status_text, body_len, origin)[i],
            ) && json_head_lines(status_code, status_text, body_len, origin)[i].len() > 0,
{
    reveal_strlit("HTTP/1.1 ");
    reveal_strlit(" ");
    reveal_strlit("Content-Type");
    reveal_strlit("application/json; charset=utf-8");
    reveal_strlit("Content-Length");
    reveal_strlit("Access-Control-Allow-Origin");
    reveal_strlit("Vary");
    reveal_strlit("Origin");
    reveal_strlit("Connection");
    reveal_strlit("close");
    let ls = json_head_lines(status_code, status_text, body_len, origin);
    lemma_decimal_line(status_code as nat);
    let front = "HTTP/1.1 "@ + decimal(status_code as nat) + " "@;
    let code = decimal(status_code as nat);
    assert(without_return("HTTP/1.1 "@) && without_return(" "@));
    assert forall|j: int| 0 <= j < front.len() implies #[trigger] front[j] != '\r' by {
        if 9 <= j < 9 + code.len() {
            assert(front[j] == code[j - 9]);
        }
    }
    lemma_one_line_behind(front, status_text);
    assert(one_line(ls[0]));
    lemma_without_return("application/json; charset=utf-8"@);
    lemma_field_line("Content-Type"@, "application/json; charset=utf-8"@);
    lemma_decimal_line(body_len);
    lemma_field_line("Content-Length"@, decimal(body_len));
    lemma_field_line("Access-Control-Allow-Origin"@, allowed_origin(origin));
    lemma_without_return("Origin"@);
    lemma_field_line("Vary"@, "Origin"@);
    lemma_without_return("close"@);
    lemma_field_line("Connection"@, "close"@);
    assert forall|i: int| 0 <= i < 6 implies one_line(#[trigger] ls[i]) && ls[i].len() > 0 by {
        if i == 0 {
        } else if i == 1 {
        } else if i == 2 {
        } else if i == 3 {
        } else if i == 4 {
        }
    }
}

/// The lines of the head of the response to a preflight request keep to one
/// line each, and none is empty.
proof fn lemma_options_head_lines(origin: Option<Seq<char>>)
    requires
        one_line(allowed_origin(origin)),
    ensures
        forall|i: int|
            0 <= i < 8 ==> one_line(#[trigger] options_head_lines(origin)[i])
                && options_head_lines(origin)[i].len() > 0,
{
    reveal_strlit("HTTP/1.1 204 No Content");
    reveal_strlit("Access-Control-Allow-Origin");
    reveal_strlit("Access-Control-Allow-Methods");
    reveal_strlit("POST, OPTIONS");
    reveal_strlit("Access-Control-Allow-Headers");
    reveal_strlit("Content-Type, X-WAM-Extension");
    reveal_strlit("Access-Control-Max-Age");
    reveal_strlit("600");
    reveal_strlit("Vary");
    reveal_strlit("Origin");
    reveal_strlit("Connection");
    reveal_strlit("close");
    reveal_strlit("Content-Length");
    reveal_strlit("0");
    let ls = options_head_lines(origin);
    lemma_without_return("HTTP/1.1 204 No Content"@);
    lemma_field_line("Access-Control-Allow-Origin"@, allowed_origin(origin));
    lemma_without_return("POST, OPTIONS"@);
    lemma_field_line("Access-Control-Allow-Methods"@, "POST, OPTIONS"@);
    lemma_without_return("Content-Type, X-WAM-Extension"@);
    lemma_field_line("Access-Control-Allow-Headers"@, "Content-Type, X-WAM-Extension"@);
    lemma_without_return("600"@);
    lemma_field_line("Access-Control-Max-Age"@, "600"@);
    lemma_without_return("Origin"@);
    lemma_field_line("Vary"@, "Origin"@);
    lemma_without_return("close"@);
    lemma_field_line("Connection"@, "close"@);
    lemma_without_return("0"@);
    lemma_field_line("Content-Length"@, "0"@);
    assert forall|i: int| 0 <= i < ls.len() implies one_line(#[trigger] ls[i]) && ls[i].len()
        > 0 by {
        if i == 0 {
        } else if i == 1 {
        } else if i == 2 {
        } else if i == 3 {
        } else if i == 4 {
        } else if i == 5 {
        } else if i == 6 {
        }
    }
}

/// The head of the response to a preflight request is read as it was written.
pub proof fn law_options_head_lines_read_back(origin: Option<Seq<char>>)
    requires
        one_line(allowed_origin(origin)),
    ensures
        lines(head_of(options_head_lines(origin))) == options_head_lines(origin) + seq![
            Seq::<char>::empty(),
            Seq::<char>::empty(),
        ],
{
    lemma_options_head_lines(origin);
    law_head_lines_read_back(options_head_lines(origin));
}

/// The header fields of a JSON response, as this library reads them.
pub open spec fn json_head_fields(body_len: nat, origin: Option<Seq<char>>) -> Map<
    Seq<char>,
    Seq<char>,
> {
    map![
        "content-type"@ => "application/json; charset=utf-8"@,
        "content-length"@ => decimal(body_len),
        "access-control-allow-origin"@ => trimmed(allowed_origin(origin)),
        "vary"@ => "Origin"@,
        "connection"@ => "close"@,
    ]
}

/// The header fields of a JSON response are read back as they were written.
pub proof fn law_json_head_fields_read_back(
    status_code: u16,
    status_text: Seq<char>,
    body_len: nat,
    origin: Option<Seq<char>>,
)
    requires
        one_line(status_text),
        one_line(allowed_origin(origin)),
    ensures
        headers_of(head_of(json_head_lines(status_code, status_text, body_len, origin)))
            == json_head_fields(body_len, origin),
{
    let ls = json_head_lines(status_code, status_text, body_len, origin);
    let empty = Seq::<char>::empty();
    lemma_json_head_lines(status_code, status_text, body_len, origin);
    law_head_lines_read_back(ls);
    let rest = lines(head_of(ls)).skip(1);
    assert(rest == seq![ls[1], ls[2], ls[3], ls[4], ls[5], empty, empty]);
    lemma_json_fields(body_len, allowed_origin(origin));
    assert(header_field(empty) is None);
    let r7 = rest;
    let r6 = r7.drop_last();
    let r5 = r6.drop_last();
    let r4 = r5.drop_last();
    let r3 = r4.drop_last();
    let r2 = r3.drop_last();
    let r1 = r2.drop_last();
    assert(r1.drop_last() == Seq::<Seq<char>>::empty());
    assert(header_fields(r1.drop_last()) == Map::<Seq<char>, Seq<char>>::empty());
    assert(r1.last() == ls[1] && r2.last() == ls[2] && r3.last() == ls[3] && r4.last() == ls[4]
        && r5.last() == ls[5] && r6.last() == empty && r7.last() == empty);
    let f1 = Map::<Seq<char>, Seq<char>>::empty().insert(
        "content-type"@,
        "application/json; charset=utf-8"@,
    );
    let f2 = f1.insert("content-length"@, decimal(body_len));
    let f3 = f2.insert("access-control-allow-origin"@, trimmed(allowed_origin(origin)));
    let f4 = f3.insert("vary"@, "Origin"@);
    assert(header_fields(r1) == f1);
    assert(header_fields(r2) == f2);
    assert(header_fields(r3) == f3);
    assert(header_fields(r4) == f4);
    assert(header_fields(r5) == f4.insert("connection"@, "close"@));
    assert(header_fields(r6) == header_fields(r5));
    assert(header_fields(r7) == header_fields(r6));
}

/// The fields that the lines of the head of a JSON response bind.
proof fn lemma_json_fields(body_len: nat, origin: Seq<char>)
    ensures
        header_field(field_line("Content-Type"@, "application/json; charset=utf-8"@)) == Some(
            ("content-type"@, "application/json; charset=utf-8"@),
        ),
        header_field(field_line("Content-Length"@, decimal(body_len))) == Some(
            ("content-length"@, decimal(body_len)),
        ),
        header_field(field_line("Access-Control-Allow-Origin"@, origin)) == Some(
            ("access-control-allow-origin"@, trimmed(origin)),
        ),
        header_field(field_line("Vary"@, "Origin"@)) == Some(("vary"@, "Origin"@)),
        header_field(field_line("Connection"@, "close"@)) == Some(("connection"@, "close"@)),
{
    assert(header_field(field_line("Content-Type"@, "application/json; charset=utf-8"@)) == Some(
        ("content-type"@, "application/json; charset=utf-8"@),
    )) by {
        reveal_strlit("Content-Type");
        reveal_strlit("content-type");
        reveal_strlit("application/json; charset=utf-8");
        law_field_reads_back("Content-Type"@, "application/json; charset=utf-8"@);
        law_trimmed_again("application/json; charset=utf-8"@);
        assert(ascii_lower("Content-Type"@) =~= "content-type"@);
    }
    assert(header_field(field_line("Content-Length"@, decimal(body_len))) == Some(
        ("content-length"@, decimal(body_len)),
    )) by {
        reveal_strlit("Content-Length");
        reveal_strlit("content-length");
        lemma_decimal(body_len);
        law_field_reads_back("Content-Length"@, decimal(body_len));
        assert(is_digit(decimal(body_len)[0]));
        assert(is_digit(decimal(body_len)[decimal(body_len).len() - 1]));
        law_trimmed_again(decimal(body_len));
        assert(ascii_lower("Content-Length"@) =~= "content-length"@);
    }
    assert(header_field(field_line("Access-Control-Allow-Origin"@, origin)) == Some(
        ("access-control-allow-origin"@, trimmed(origin)),
    )) by {
        reveal_strlit("Access-Control-Allow-Origin");
        reveal_strlit("access-control-allow-origin");
        law_field_reads_back("Access-Control-Allow-Origin"@, origin);
        assert(ascii_lower("Access-Control-Allow-Origin"@) =~= "access-control-allow-origin"@);
    }
    assert(header_field(field_line("Vary"@, "Origin"@)) == Some(("vary"@, "Origin"@))) by {
        reveal_strlit("Vary");
        reveal_strlit("vary");
        reveal_strlit("Origin");
        law_field_reads_back("Vary"@, "Origin"@);
        law_trimmed_again("Origin"@);
        assert(ascii_lower("Vary"@) =~= "vary"@);
    }
    assert(header_field(field_line("Connection"@, "close"@)) == Some(
        ("connection"@, "close"@),
    )) by {
        reveal_strlit("Connection");
        reveal_strlit("connection");
        reveal_strlit("close");
        law_field_reads_back("Connection"@, "close"@);
        law_trimmed_again("close"@);
        assert(ascii_lower("Connection"@) =~= "connection"@);
    }
}

/// The length that the head of a JSON response declares is that of its body.
pub proof fn law_declared_length_is_that_of_the_body(
    status_code: u16,
    status_text: Seq<char>,
    body_len: usize,
    origin: Option<Seq<char>>,
)
    requires
        one_line(status_text),
        one_line(allowed_origin(origin)),
    ensures
        content_length(
            headers_of(
                head_of(json_head_lines(status_code, status_text, body_len as nat, origin)),
            ),
        ) == body_len,
{
    law_json_head_fields_read_back(status_code, status_text, body_len as nat, origin);
    law_decimal_reads_back(body_len);
    reveal_strlit("content-type");
    reveal_strlit("content-length");
    reveal_strlit("access-control-allow-origin");
    reveal_strlit("vary");
    reveal_strlit("connection");
    assert("content-type"@.len() == 12);
    assert("content-length"@.len() == 14);
    assert("access-control-allow-origin"@.len() == 27);
    assert("vary"@.len() == 4);
    assert("connection"@.len() == 10);
}

/// Whether a response is read as one: its head holds no empty line but the one
/// that ends it, ends among the bytes where the body starts, and declares the
/// length of the body.
pub open spec fn well_framed(response: ResponseView) -> bool {
    &&& header_end(response_bytes(response)) == Some(encode_utf8(response.head).len() as int)
    &&& forall|j: int|
        0 <= j && j + 4 < response.head.len() ==> #[trigger] response.head.subrange(j, j + 4)
            != crlf() + crlf()
    &&& response.body.len() <= usize::MAX ==> content_length(headers_of(response.head))
        == response.body.len()
}

/// A head made of lines that keep to one line each, and are not empty, holds
/// no empty line but the one that ends it.
proof fn lemma_one_empty_line(ls: Seq<Seq<char>>)
    requires
        ls.len() > 0,
        forall|i: int| 0 <= i < ls.len() ==> one_line(#[trigger] ls[i]) && ls[i].len() > 0,
    ensures
        forall|j: int|
            0 <= j && j + 4 < head_of(ls).len() ==> #[trigger] head_of(ls).subrange(j, j + 4)
                != crlf() + crlf(),
{
    let head = head_of(ls);
    assert forall|j: int| 0 <= j && j + 4 < head.len() implies #[trigger] head.subrange(j, j + 4)
        != crlf() + crlf() by {
        let part = head.subrange(j, j + 4);
        if part == crlf() + crlf() {
            assert(part[0] == '\r' && part[1] == '\n' && part[2] == '\r' && part[3] == '\n');
            law_head_ends_once(ls, j);
        }
    }
}

/// A response in JSON is well framed, whatever its body.
pub proof fn law_json_response_is_well_framed(
    status_code: u16,
    status_text: Seq<char>,
    body: Seq<u8>,
    origin: Option<Seq<char>>,
)
    requires
        one_line(status_text),
        one_line(allowed_origin(origin)),
    ensures
        well_framed(json_response_of(status_code, status_text, body, origin)),
{
    let ls = json_head_lines(status_code, status_text, body.len(), origin);
    lemma_json_head_lines(status_code, status_text, body.len(), origin);
    lemma_one_empty_line(ls);
    law_json_response_reads_back(status_code, status_text, body, origin);
    if body.len() <= usize::MAX {
        law_declared_length_is_that_of_the_body(
            status_code,
            status_text,
            body.len() as usize,
            origin,
        );
    }
}

/// The response to a preflight request is well framed.
pub proof fn law_options_response_is_well_framed(origin: Option<Seq<char>>)
    requires
        one_line(allowed_origin(origin)),
    ensures
        well_framed(
            ResponseView { head: head_of(options_head_lines(origin)), body: Seq::empty() },
        ),
{
    lemma_options_head_lines(origin);
    lemma_one_empty_line(options_head_lines(origin));
    law_options_response_reads_back(origin);
    lemma_options_names_differ();
    reveal_strlit("0");
    assert(decimal(0) =~= "0"@);
    law_decimal_reads_back(0);
}

/// The header fields of the response to a preflight request, as this library
/// reads them.
pub open spec fn options_head_fields(origin: Option<Seq<char>>) -> Map<Seq<char>, Seq<char>> {
    map![
        "access-control-allow-origin"@ => trimmed(allowed_origin(origin)),
        "access-control-allow-methods"@ => "POST, OPTIONS"@,
        "access-control-allow-headers"@ => "Content-Type, X-WAM-Extension"@,
        "access-control-max-age"@ => "600"@,
        "vary"@ => "Origin"@,
        "connection"@ => "close"@,
        "content-length"@ => "0"@,
    ]
}

/// The names of the header fields of the response to a preflight request are
/// all different from the one that declares the length.
proof fn lemma_options_names_differ()
    ensures
        "content-length"@ != "access-control-allow-origin"@,
        "content-length"@ != "access-control-allow-methods"@,
        "content-length"@ != "access-control-allow-headers"@,
        "content-length"@ != "access-control-max-age"@,
        "content-length"@ != "vary"@,
        "content-length"@ != "connection"@,
{
    reveal_strlit("content-length");
    reveal_strlit("access-control-allow-origin");
    reveal_strlit("access-control-allow-methods");
    reveal_strlit("access-control-allow-headers");
    reveal_strlit("access-control-max-age");
    reveal_strlit("vary");
    reveal_strlit("connection");
    assert("content-length"@.len() == 14);
    assert("access-control-allow-origin"@.len() == 27);
    assert("access-control-allow-methods"@.len() == 28);
    assert("access-control-allow-headers"@.len() == 28);
    assert("access-control-max-age"@.len() == 22);
    assert("vary"@.len() == 4);
    assert("connection"@.len() == 10);
}

/// The fields that the lines of the head of the response to a preflight request
/// bind.
proof fn lemma_options_fields(origin: Seq<char>)
    ensures
        header_field(field_line("Access-Control-Allow-Origin"@, origin)) == Some(
            ("access-control-allow-origin"@, trimmed(origin)),
        ),
        header_field(field_line("Access-Control-Allow-Methods"@, "POST, OPTIONS"@)) == Some(
            ("access-control-allow-methods"@, "POST, OPTIONS"@),
        ),
        header_field(
            field_line("Access-Control-Allow-Headers"@, "Content-Type, X-WAM-Extension"@),
        ) == Some(("access-control-allow-headers"@, "Content-Type, X-WAM-Extension"@)),
        header_field(field_line("Access-Control-Max-Age"@, "600"@)) == Some(
            ("access-control-max-age"@, "600"@),
        ),
        header_field(field_line("Vary"@, "Origin"@)) == Some(("vary"@, "Origin"@)),
        header_field(field_line("Connection"@, "close"@)) == Some(("connection"@, "close"@)),
        header_field(field_line("Content-Length"@, "0"@)) == Some(("content-length"@, "0"@)),
{
    lemma_json_fields(0, origin);
    assert(decimal(0) =~= "0"@) by {
        reveal_strlit("0");
    }
    assert(header_field(field_line("Access-Control-Allow-Methods"@, "POST, OPTIONS"@)) == Some(
        ("access-control-allow-methods"@, "POST, OPTIONS"@),
    )) by {
        reveal_strlit("Access-Control-Allow-Methods");
        reveal_strlit("access-control-allow-methods");
        reveal_strlit("POST, OPTIONS");
        law_field_reads_back("Access-Control-Allow-Methods"@, "POST, OPTIONS"@);
        law_trimmed_again("POST, OPTIONS"@);
        assert(ascii_lower("Access-Control-Allow-Methods"@) =~= "access-control-allow-methods"@);
    }
    assert(header_field(
        field_line("Access-Control-Allow-Headers"@, "Content-Type, X-WAM-Extension"@),
    ) == Some(("access-control-allow-headers"@, "Content-Type, X-WAM-Extension"@))) by {
        reveal_strlit("Access-Control-Allow-Headers");
        reveal_strlit("access-control-allow-headers");
        reveal_strlit("Content-Type, X-WAM-Extension");
        law_field_reads_back("Access-Control-Allow-Headers"@, "Content-Type, X-WAM-Extension"@);
        law_trimmed_again("Content-Type, X-WAM-Extension"@);
        assert(ascii_lower("Access-Control-Allow-Headers"@) =~= "access-control-allow-headers"@);
    }
    assert(header_field(field_line("Access-Control-Max-Age"@, "600"@)) == Some(
        ("access-control-max-age"@, "600"@),
    )) by {
        reveal_strlit("Access-Control-Max-Age");
        reveal_strlit("access-control-max-age");
        reveal_strlit("600");
        law_field_reads_back("Access-Control-Max-Age"@, "600"@);
        law_trimmed_again("600"@);
        assert(ascii_lower("Access-Control-Max-Age"@) =~= "access-control-max-age"@);
    }
}

/// The header fields of the response to a preflight request are read back as
/// they were written.
pub proof fn law_options_head_fields_read_back(origin: Option<Seq<char>>)
    requires
        one_line(allowed_origin(origin)),
    ensures
        headers_of(head_of(options_head_lines(origin))) == options_head_fields(origin),
{
    let ls = options_head_lines(origin);
    let empty = Seq::<char>::empty();
    law_options_head_lines_read_back(origin);
    lemma_options_fields(allowed_origin(origin));
    assert(header_field(empty) is None);
    let r9 = lines(head_of(ls)).skip(1);
    let r8 = r9.drop_last();
    let r7 = r8.drop_last();
    let r6 = r7.drop_last();
    let r5 = r6.drop_last();
    let r4 = r5.drop_last();
    let r3 = r4.drop_last();
    let r2 = r3.drop_last();
    let r1 = r2.drop_last();
    assert(r9 == seq![ls[1], ls[2], ls[3], ls[4], ls[5], ls[6], ls[7], empty, empty]);
    assert(r1.drop_last() == Seq::<Seq<char>>::empty());
    assert(header_fields(r1.drop_last()) == Map::<Seq<char>, Seq<char>>::empty());
    assert(r1.last() == ls[1] && r2.last() == ls[2] && r3.last() == ls[3] && r4.last() == ls[4]
        && r5.last() == ls[5] && r6.last() == ls[6] && r7.last() == ls[7] && r8.last() == empty
        && r9.last() == empty);
    let f1 = Map::<Seq<char>, Seq<char>>::empty().insert(
        "access-control-allow-origin"@,
        trimmed(allowed_origin(origin)),
    );
    let f2 = f1.insert("access-control-allow-methods"@, "POST, OPTIONS"@);
    let f3 = f2.insert("access-control-allow-headers"@, "Content-Type, X-WAM-Extension"@);
    let f4 = f3.insert("access-control-max-age"@, "600"@);
    let f5 = f4.insert("vary"@, "Origin"@);
    let f6 = f5.insert("connection"@, "close"@);
    assert(header_fields(r1) == f1);
    assert(header_fields(r2) == f2);
    assert(header_fields(r3) == f3);
    assert(header_fields(r4) == f4);
    assert(header_fields(r5) == f5);
    assert(header_fields(r6) == f6);
    assert(header_fields(r7) == f6.insert("content-length"@, "0"@));
    assert(header_fields(r8) == header_fields(r7));
    assert(header_fields(r9) == header_fields(r8));
}

/// The bytes of a response as they go over the wire.
pub open spec fn response_bytes(response: ResponseView) -> Seq<u8> {
    encode_utf8(response.head) + response.body
}

/// Whether the bytes of a response are read as its head, with those header
/// fields, and its body.
pub open spec fn reads_back(response: ResponseView, fields: Map<Seq<char>, Seq<char>>) -> bool {
    let data = response_bytes(response);
    let end = encode_utf8(response.head).len() as int;
    &&& header_end(data) == Some(end)
    &&& decoded(data.take(end)) == response.head
    &&& headers_of(decoded(data.take(end))) == fields
    &&& data.skip(end) == response.body
}

/// A JSON response is read back from its bytes as it was written.
pub proof fn law_json_response_reads_back(
    status_code: u16,
    status_text: Seq<char>,
    body: Seq<u8>,
    origin: Option<Seq<char>>,
)
    requires
        one_line(status_text),
        one_line(allowed_origin(origin)),
    ensures
        reads_back(
            json_response_of(status_code, status_text, body, origin),
            json_head_fields(body.len(), origin),
        ),
{
    let response = json_response_of(status_code, status_text, body, origin);
    let bytes = encode_utf8(response.head);
    lemma_json_head_lines(status_code, status_text, body.len(), origin);
    law_written_head_ends(json_head_lines(status_code, status_text, body.len(), origin), body);
    law_json_head_fields_read_back(status_code, status_text, body.len(), origin);
    assert((bytes + body).skip(bytes.len() as int) == body);
}

/// The response to a preflight request is read back from its bytes as it was
/// written.
pub proof fn law_options_response_reads_back(origin: Option<Seq<char>>)
    requires
        one_line(allowed_origin(origin)),
    ensures
        reads_back(
            ResponseView { head: head_of(options_head_lines(origin)), body: Seq::empty() },
            options_head_fields(origin),
        ),
{
    let bytes = encode_utf8(head_of(options_head_lines(origin)));
    let body = Seq::<u8>::empty();
    lemma_options_head_lines(origin);
    law_written_head_ends(options_head_lines(origin), body);
    law_options_head_fields_read_back(origin);
    assert((bytes + body).skip(bytes.len() as int) == body);
}

/// A response starts with its status line, and says what it is, how long it is,
/// whom it is meant for and that the connection is closed; its body is what was
/// given.
pub proof fn law_what_a_json_response_says(
    status_code: u16,
    status_text: Seq<char>,
    body: Seq<u8>,
    origin: Option<Seq<char>>,
)
    requires
        one_line(status_text),
        origin is Some ==> one_line(origin->0),
    ensures
        ({
            let response = json_response_of(status_code, status_text, body, origin);
            &&& response.body == body
            &&& lines(response.head).len() == 8
            &&& lines(response.head)[0] == "HTTP/1.1 "@ + decimal(status_code as nat) + " "@
                + status_text
            &&& headers_of(response.head) == map![
                "content-type"@ => "application/json; charset=utf-8"@,
                "content-length"@ => decimal(body.len()),
                "access-control-allow-origin"@ => if origin is Some {
                    trimmed(origin->0)
                } else {
                    "*"@
                },
                "vary"@ => "Origin"@,
                "connection"@ => "close"@,
            ]
        }),
{
    lemma_any_origin();
    lemma_json_head_lines(status_code, status_text, body.len(), origin);
    law_head_lines_read_back(json_head_lines(status_code, status_text, body.len(), origin));
    law_json_head_fields_read_back(status_code, status_text, body.len(), origin);
}

/// The response to a preflight request starts with its status line, and says
/// whom it is meant for, which methods and header fields are allowed and for
/// how long, and that the connection is closed; it has no body.
pub proof fn law_what_a_preflight_response_says(origin: Option<Seq<char>>)
    requires
        origin is Some ==> one_line(origin->0),
    ensures
        lines(head_of(options_head_lines(origin))).len() == 10,
        lines(head_of(options_head_lines(origin)))[0] == "HTTP/1.1 204 No Content"@,
        headers_of(head_of(options_head_lines(origin))) == map![
            "access-control-allow-origin"@ => if origin is Some {
                trimmed(origin->0)
            } else {
                "*"@
            },
            "access-control-allow-methods"@ => "POST, OPTIONS"@,
            "access-control-allow-headers"@ => "Content-Type, X-WAM-Extension"@,
            "access-control-max-age"@ => "600"@,
            "vary"@ => "Origin"@,
            "connection"@ => "close"@,
            "content-length"@ => "0"@,
        ],
{
    lemma_any_origin();
    law_options_head_lines_read_back(origin);
    law_options_head_fields_read_back(origin);
}

/// The sign for any origin keeps to one line, and has no white space around it.
proof fn lemma_any_origin()
    ensures
        one_line("*"@),
        trimmed("*"@) == "*"@,
{
    reveal_strlit("*");
    lemma_without_return("*"@);
    law_trimmed_again("*"@);
}

/// The view of a response is the response.
pub proof fn law_view_is_the_response(response: HttpResponse)
    ensures
        response@.head == response.head@,
        response@.body == response.body@,
{
}

} // verus!
