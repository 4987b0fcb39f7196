//! Requests as a client writes them, and that they are read as they were
//! written.

use crate::http::{
    blank_line_at, content_length, decoded, field_line, first_blank_line_at, header_end,
    header_field, header_fields, headers_of, law_field_reads_back, law_header_end_is,
    lemma_field_line, progress_of, request_of, ProgressView, RequestView, MAX_REQUEST_SIZE,
};
use crate::lines::{
    crlf, head_of, law_head_ends_once, law_head_lines_read_back, lemma_one_line, lines, lines_text,
    one_line, without_return,
};
use crate::text::{
    ascii_lower, find_char, is_white_space, lemma_word_len, trim_start, trimmed, word_len, words,
};
use vstd::prelude::*;
use vstd::utf8::{
    encode_scalar, encode_utf8, encode_utf8_decode_utf8, encode_utf8_valid_utf8,
    is_ascii_chars_encode_utf8,
};

verus! {

/// Whether a text is one word.
pub open spec fn is_word(s: Seq<char>) -> bool {
    s.len() > 0 && forall|j: int| 0 <= j < s.len() ==> !is_white_space(#[trigger] s[j])
}

/// Whether a name and a value make a header field: the name has no colon, no
/// carriage return and no white space at its ends, and the value keeps to one
/// line.
pub open spec fn is_field(field: (Seq<char>, Seq<char>)) -> bool {
    &&& field.0.len() > 0
    &&& !is_white_space(field.0.first())
    &&& !is_white_space(field.0.last())
    &&& without_return(field.0)
    &&& forall|j: int| 0 <= j < field.0.len() ==> #[trigger] field.0[j] != ':'
    &&& one_line(field.1)
}

/// The lines of header fields.
pub open spec fn field_lines(fields: Seq<(Seq<char>, Seq<char>)>) -> Seq<Seq<char>> {
    fields.map_values(|f: (Seq<char>, Seq<char>)| field_line(f.0, f.1))
}

/// What header fields bind: their names in lower case to their values without
/// white space around them, a later one in place of an earlier one.
pub open spec fn bound_fields(fields: Seq<(Seq<char>, Seq<char>)>) -> Map<Seq<char>, Seq<char>>
    decreases fields.len(),
{
    if fields.len() == 0 {
        Map::empty()
    } else {
        bound_fields(fields.drop_last()).insert(
            ascii_lower(fields.last().0),
            trimmed(fields.last().1),
        )
    }
}

/// The lines of the head of a request.
pub open spec fn request_lines(
    method: Seq<char>,
    target: Seq<char>,
    fields: Seq<(Seq<char>, Seq<char>)>,
) -> Seq<Seq<char>> {
    seq![method + seq![' '] + target + " HTTP/1.1"@] + field_lines(fields)
}

/// The request with that head and body.
pub open spec fn written_request(
    method: Seq<char>,
    target: Seq<char>,
    fields: Seq<(Seq<char>, Seq<char>)>,
    body: Seq<u8>,
) -> RequestView {
    RequestView {
        method,
        path: target.take(find_char(target, '?') as int),
        headers: bound_fields(fields),
        body,
    }
}

/// White space in front makes no difference to the words of a text.
proof fn lemma_words_behind_space(s: Seq<char>)
    ensures
        words(seq![' '] + s) == words(s),
{
    assert((seq![' '] + s).drop_first() == s);
    assert(trim_start(seq![' '] + s) == trim_start(s));
}

/// A word and the space behind it are taken off the front of a text.
proof fn lemma_first_word(word: Seq<char>, rest: Seq<char>)
    requires
        is_word(word),
    ensures
        words(word + seq![' '] + rest) == seq![word] + words(rest),
{
    let s = word + seq![' '] + rest;
    assert(s.first() == word[0]);
    assert(trim_start(s) == s);
    lemma_word_len(s);
    let n = word_len(s) as int;
    assert(s[word.len() as int] == ' ');
    if n < word.len() {
        assert(s[n] == word[n]);
    }
    if n > word.len() {
        assert(!is_white_space(s[word.len() as int]));
    }
    assert(s.take(n) == word);
    assert(s.skip(n) == seq![' '] + rest);
    lemma_words_behind_space(rest);
}

/// The fields that the lines of fields bind are those fields.
proof fn lemma_field_lines(fields: Seq<(Seq<char>, Seq<char>)>)
    requires
        forall|i: int| 0 <= i < fields.len() ==> is_field(#[trigger] fields[i]),
    ensures
        header_fields(field_lines(fields)) == bound_fields(fields),
        forall|i: int| 0 <= i < fields.len() ==> one_line(#[trigger] field_lines(fields)[i]),
    decreases fields.len(),
{
    if fields.len() > 0 {
        let before = fields.drop_last();
        let last = fields.last();
        assert forall|i: int| 0 <= i < before.len() implies is_field(#[trigger] before[i]) by {
            assert(before[i] == fields[i]);
        }
        lemma_field_lines(before);
        assert(is_field(fields[fields.len() - 1]));
        assert(field_lines(fields).drop_last() == field_lines(before));
        law_field_reads_back(last.0, last.1);
        assert forall|i: int| 0 <= i < fields.len() implies one_line(
            #[trigger] field_lines(fields)[i],
        ) by {
            assert(is_field(fields[i]));
            lemma_field_line(fields[i].0, fields[i].1);
        }
    }
}

/// The first line of a request keeps to one line.
proof fn lemma_request_line(method: Seq<char>, target: Seq<char>)
    requires
        is_word(method),
        is_word(target),
    ensures
        one_line(method + seq![' '] + target + " HTTP/1.1"@),
        words(method + seq![' '] + target + " HTTP/1.1"@).len() >= 2,
        words(method + seq![' '] + target + " HTTP/1.1"@)[0] == method,
        words(method + seq![' '] + target + " HTTP/1.1"@)[1] == target,
{
    reveal_strlit(" HTTP/1.1");
    let line = method + seq![' '] + target + " HTTP/1.1"@;
    let tail = " HTTP/1.1"@.skip(1);
    assert(line == method + seq![' '] + (target + seq![' '] + tail));
    lemma_first_word(method, target + seq![' '] + tail);
    lemma_first_word(target, tail);
    assert forall|j: int| 0 <= j && j + 1 < line.len() implies !(#[trigger] line[j] == '\r' && line[j
        + 1] == '\n') by {
        if j < method.len() {
            assert(line[j] == method[j]);
        } else if j == method.len() {
        } else if j < method.len() + 1 + target.len() {
            assert(line[j] == target[j - method.len() - 1]);
        } else {
            assert(line[j] == " HTTP/1.1"@[j - method.len() - 1 - target.len()]);
        }
    }
    lemma_one_line(line);
}

/// The head of a request, with any body, is read as the request that was
/// written.
pub proof fn law_request_text_reads_back(
    method: Seq<char>,
    target: Seq<char>,
    fields: Seq<(Seq<char>, Seq<char>)>,
    body: Seq<u8>,
)
    requires
        is_word(method),
        is_word(target),
        forall|i: int| 0 <= i < fields.len() ==> is_field(#[trigger] fields[i]),
    ensures
        lines(head_of(request_lines(method, target, fields))) == request_lines(
            method,
            target,
            fields,
        ) + seq![Seq::<char>::empty(), Seq::<char>::empty()],
        headers_of(head_of(request_lines(method, target, fields))) == bound_fields(fields),
        request_of(head_of(request_lines(method, target, fields)), body) == Ok::<
            RequestView,
            Seq<char>,
        >(written_request(method, target, fields, body)),
{
    let ls = request_lines(method, target, fields);
    let empty = Seq::<char>::empty();
    lemma_request_line(method, target);
    lemma_field_lines(fields);
    assert forall|i: int| 0 <= i < ls.len() implies one_line(#[trigger] ls[i]) by {
        if i > 0 {
            assert(ls[i] == field_lines(fields)[i - 1]);
        }
    }
    law_head_lines_read_back(ls);
    let all = lines(head_of(ls));
    assert(all.first() == ls[0]);
    let rest = all.skip(1);
    assert(rest == field_lines(fields) + seq![empty, empty]);
    assert(rest.drop_last().drop_last() == field_lines(fields));
    assert(rest.last() == empty && rest.drop_last().last() == empty);
    assert(header_field(empty) is None);
    assert(header_fields(rest) == header_fields(rest.drop_last()));
}

/// An ASCII character is one byte, and any other has no byte below 128.
proof fn lemma_scalar_bytes(c: char)
    ensures
        (c as u32) < 0x80 ==> encode_scalar(c as u32) == seq![c as u8] && c as u8 == c as int,
        (c as u32) >= 0x80 ==> forall|i: int|
            0 <= i < encode_scalar(c as u32).len() ==> #[trigger] encode_scalar(c as u32)[i] >= 0x80,
        encode_scalar(c as u32).len() > 0,
{
    let u = c as u32;
    assert(u < 0x80 ==> (u & 0x7f) as u8 == u as u8) by (bit_vector);
    assert(0xc0u8 | ((u >> 6) & 0x1f) as u8 >= 0x80) by (bit_vector);
    assert(0xe0u8 | ((u >> 12) & 0x0f) as u8 >= 0x80) by (bit_vector);
    assert(0xf0u8 | ((u >> 18) & 0x7) as u8 >= 0x80) by (bit_vector);
    assert(0x80u8 | (u & 0x3f) as u8 >= 0x80) by (bit_vector);
    assert(0x80u8 | ((u >> 6) & 0x3f) as u8 >= 0x80) by (bit_vector);
    assert(0x80u8 | ((u >> 12) & 0x3f) as u8 >= 0x80) by (bit_vector);
}

/// A byte below 128 at the front stands for the first character.
proof fn lemma_first_byte(s: Seq<char>)
    requires
        encode_utf8(s).len() > 0,
        encode_utf8(s)[0] < 0x80,
    ensures
        s.len() > 0,
        s[0] as int == encode_utf8(s)[0],
        encode_utf8(s).skip(1) == encode_utf8(s.drop_first()),
{
    lemma_scalar_bytes(s[0]);
    assert(encode_scalar(s[0] as u32)[0] == encode_utf8(s)[0]);
}

/// A byte below 128 stands for a character of the text: the bytes behind it are
/// those of the characters behind that one.
proof fn lemma_low_byte(s: Seq<char>, j: int) -> (k: int)
    requires
        0 <= j < encode_utf8(s).len(),
        encode_utf8(s)[j] < 0x80,
    ensures
        0 <= k < s.len(),
        s[k] as int == encode_utf8(s)[j],
        encode_utf8(s).skip(j + 1) == encode_utf8(s.skip(k + 1)),
    decreases s.len(),
{
    let first = encode_scalar(s[0] as u32);
    let rest = s.drop_first();
    let n = first.len() as int;
    lemma_scalar_bytes(s[0]);
    if j < n {
        assert(encode_utf8(s)[j] == first[j]);
        assert(encode_utf8(s).skip(1) == encode_utf8(rest));
        assert(s.skip(1) == rest);
        0
    } else {
        assert(encode_utf8(s)[j] == encode_utf8(rest)[j - n]);
        let k = lemma_low_byte(rest, j - n);
        assert(encode_utf8(s).skip(j + 1) == encode_utf8(rest).skip(j - n + 1));
        assert(s.skip(k + 2) == rest.skip(k + 1));
        k + 1
    }
}

/// The bytes of two texts one behind the other.
proof fn lemma_encode_both(a: Seq<char>, b: Seq<char>)
    ensures
        encode_utf8(a + b) == encode_utf8(a) + encode_utf8(b),
    decreases a.len(),
{
    if a.len() == 0 {
        assert(a + b == b);
        assert(encode_utf8(a) + encode_utf8(b) == encode_utf8(b));
    } else {
        lemma_encode_both(a.drop_first(), b);
        assert((a + b).drop_first() == a.drop_first() + b);
        assert((a + b)[0] == a[0]);
        let first = encode_scalar(a[0] as u32);
        let rest = encode_utf8(a.drop_first());
        assert(first + (rest + encode_utf8(b)) == (first + rest) + encode_utf8(b));
    }
}

/// An empty line among the bytes of a head stands for one of the text, so that
/// it is the one that ends the head.
proof fn lemma_blank_line_ends_the_head(ls: Seq<Seq<char>>, j: int)
    requires
        ls.len() > 0,
        forall|i: int| 0 <= i < ls.len() ==> one_line(#[trigger] ls[i]) && ls[i].len() > 0,
        blank_line_at(encode_utf8(head_of(ls)), j),
    ensures
        j + 4 == encode_utf8(head_of(ls)).len(),
{
    let s = head_of(ls);
    let bytes = encode_utf8(s);
    let k = lemma_low_byte(s, j);
    let s1 = s.skip(k + 1);
    let s2 = s1.drop_first();
    let s3 = s2.drop_first();
    let s4 = s3.drop_first();
    assert(bytes.skip(j + 1)[0] == bytes[j + 1]);
    lemma_first_byte(s1);
    assert(bytes.skip(j + 1).skip(1) == bytes.skip(j + 2));
    assert(bytes.skip(j + 2)[0] == bytes[j + 2]);
    lemma_first_byte(s2);
    assert(bytes.skip(j + 2).skip(1) == bytes.skip(j + 3));
    assert(bytes.skip(j + 3)[0] == bytes[j + 3]);
    lemma_first_byte(s3);
    assert(bytes.skip(j + 3).skip(1) == bytes.skip(j + 4));
    assert(s1[0] == s[k + 1] && s2[0] == s[k + 2] && s3[0] == s[k + 3]);
    law_head_ends_once(ls, k);
    assert(s4.len() == 0);
    assert(bytes.skip(j + 4).len() == 0);
}

/// A head in UTF-8 ends where it was written to end, whatever follows it, and
/// is decoded as it was written.
pub proof fn law_written_head_ends(ls: Seq<Seq<char>>, body: Seq<u8>)
    requires
        ls.len() > 0,
        forall|i: int| 0 <= i < ls.len() ==> one_line(#[trigger] ls[i]) && ls[i].len() > 0,
    ensures
        header_end(encode_utf8(head_of(ls)) + body) == Some(
            encode_utf8(head_of(ls)).len() as int,
        ),
        decoded(
            (encode_utf8(head_of(ls)) + body).take(encode_utf8(head_of(ls)).len() as int),
        ) == head_of(ls),
{
    let s = head_of(ls);
    let bytes = encode_utf8(s);
    let data = bytes + body;
    let n = bytes.len() as int;
    let front = lines_text(ls.drop_last()) + ls.last();
    let end = crlf() + crlf();
    assert(s == front + end);
    lemma_encode_both(front, end);
    is_ascii_chars_encode_utf8(end);
    assert(encode_utf8(end)[0] == 13 && encode_utf8(end)[1] == 10 && encode_utf8(end)[2] == 13
        && encode_utf8(end)[3] == 10);
    assert(blank_line_at(data, n - 4));
    assert forall|j: int| 0 <= j < n - 4 implies !blank_line_at(data, j) by {
        if blank_line_at(data, j) {
            assert(blank_line_at(bytes, j));
            lemma_blank_line_ends_the_head(ls, j);
        }
    }
    assert(first_blank_line_at(data, n - 4));
    law_header_end_is(data, n - 4);
    assert(data.take(n) == bytes);
    encode_utf8_valid_utf8(s);
    encode_utf8_decode_utf8(s);
}

/// A request in UTF-8, with a body of the length that its header fields
/// declare, is read as it was written, where it is not too large.
pub proof fn law_request_reads_back(
    method: Seq<char>,
    target: Seq<char>,
    fields: Seq<(Seq<char>, Seq<char>)>,
    body: Seq<u8>,
)
    requires
        is_word(method),
        is_word(target),
        forall|i: int| 0 <= i < fields.len() ==> is_field(#[trigger] fields[i]),
        content_length(bound_fields(fields)) == body.len(),
        encode_utf8(head_of(request_lines(method, target, fields))).len() + body.len()
            <= MAX_REQUEST_SIZE,
    ensures
        progress_of(encode_utf8(head_of(request_lines(method, target, fields))) + body)
            == ProgressView::Done(Ok(written_request(method, target, fields, body))),
{
    let ls = request_lines(method, target, fields);
    let s = head_of(ls);
    let head = encode_utf8(s);
    let data = head + body;
    let n = head.len() as int;
    lemma_request_line(method, target);
    lemma_field_lines(fields);
    assert forall|i: int| 0 <= i < ls.len() implies one_line(#[trigger] ls[i]) && ls[i].len() > 0 by {
        if i > 0 {
            assert(ls[i] == field_lines(fields)[i - 1]);
            assert(is_field(fields[i - 1]));
        }
    }
    law_written_head_ends(ls, body);
    law_request_text_reads_back(method, target, fields, body);
    assert(data.subrange(n, n + body.len()) == body);
}

} // verus!
