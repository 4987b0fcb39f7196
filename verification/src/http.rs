//! HTTP requests: where their head ends, what it says, and when a request has
//! been read whole.

use crate::decimal::{parse_usize, parsed_usize};
use crate::lines::{
    law_lines, law_split_at_line_ends, lemma_one_line, lemma_one_line_behind,
    lemma_part_of_one_line, lines, one_line, position_of_crlf, without_return,
};
use crate::text::{
    ascii_lower, find_char, from_chars, is_white_space, law_first_place, law_trimmed,
    law_trimmed_again, lemma_find_char, next_word, position_of, to_ascii_lower, to_chars, trim, trimmed, trimmed_from,
    words,
};
use crate::text_map::TextMap;
use vstd::prelude::*;
use vstd::utf8::{decode_utf8, valid_utf8};

verus! {

/// The largest number of bytes of a request, and of its body.
pub const MAX_REQUEST_SIZE: usize = 65_536;

/// A request.
pub struct HttpRequest {
    pub method: String,
    pub path: String,
    /// The header fields, by their names in lower case.
    pub headers: TextMap<String>,
    pub body: Vec<u8>,
}

/// The view of a request.
pub struct RequestView {
    pub method: Seq<char>,
    pub path: Seq<char>,
    pub headers: Map<Seq<char>, Seq<char>>,
    pub body: Seq<u8>,
}

impl View for HttpRequest {
    type V = RequestView;

    open spec fn view(&self) -> RequestView {
        RequestView {
            method: self.method@,
            path: self.path@,
            headers: self.headers@,
            body: self.body@,
        }
    }
}

/// What `String::from_utf8_lossy` makes of bytes.
pub uninterp spec fn lossy_text(bytes: Seq<u8>) -> Seq<char>;

/// Calls `String::from_utf8_lossy`, which decodes bytes and puts a replacement
/// character wherever they are not UTF-8. The text is a function of the bytes.
/// Bytes that are UTF-8 throughout are decoded as they stand.
#[verifier::external_body]
fn decode_lossy(bytes: &[u8]) -> (r: String)
    ensures
        r@ == lossy_text(bytes@),
        valid_utf8(bytes@) ==> r@ == decode_utf8(bytes@),
{
    String::from_utf8_lossy(bytes).into_owned()
}

/// The text that bytes hold, as far as they are UTF-8.
pub open spec fn decoded(bytes: Seq<u8>) -> Seq<char> {
    if valid_utf8(bytes) {
        decode_utf8(bytes)
    } else {
        lossy_text(bytes)
    }
}

/// Whether an empty line, with the end of the line before it, starts at `i`.
pub open spec fn blank_line_at(data: Seq<u8>, i: int) -> bool {
    &&& 0 <= i
    &&& i + 4 <= data.len()
    &&& data[i] == 13
    &&& data[i + 1] == 10
    &&& data[i + 2] == 13
    &&& data[i + 3] == 10
}

/// Whether the first empty line of `data` starts at `i`.
pub open spec fn first_blank_line_at(data: Seq<u8>, i: int) -> bool {
    &&& blank_line_at(data, i)
    &&& forall|j: int| 0 <= j < i ==> !blank_line_at(data, j)
}

/// Where the head of a request ends: behind the first empty line.
pub open spec fn header_end(data: Seq<u8>) -> Option<int> {
    if exists|i: int| first_blank_line_at(data, i) {
        Some((choose|i: int| first_blank_line_at(data, i)) + 4)
    } else {
        None
    }
}

/// The first empty line determines where the head ends.
pub proof fn law_header_end_is(data: Seq<u8>, i: int)
    requires
        first_blank_line_at(data, i),
    ensures
        header_end(data) == Some(i + 4),
{
    let k = choose|k: int| first_blank_line_at(data, k);
    assert(first_blank_line_at(data, k));
    assert(blank_line_at(data, k) && blank_line_at(data, i));
}

/// Finds where the head of a request ends.
pub fn find_header_end(data: &[u8]) -> (r: Option<usize>)
    ensures
        match r {
            Some(end) => header_end(data@) == Some(end as int) && 4 <= end <= data@.len(),
            None => header_end(data@) is None,
        },
{
    let mut i: usize = 0;
    while i < data.len() && data.len() - i >= 4
        invariant
            i <= data@.len(),
            forall|j: int| 0 <= j < i ==> !blank_line_at(data@, j),
        decreases data@.len() - i,
    {
        if data[i] == 13 && data[i + 1] == 10 && data[i + 2] == 13 && data[i + 3] == 10 {
            proof {
                law_header_end_is(data@, i as int);
            }
            return Some(i + 4);
        }
        i += 1;
    }
    assert forall|j: int| !first_blank_line_at(data@, j) by {
        if first_blank_line_at(data@, j) {
            assert(blank_line_at(data@, j));
        }
    }
    None
}

/// The name, in lower case, and the value that a header line binds; none where
/// the line has no colon.
pub open spec fn header_field(line: Seq<char>) -> Option<(Seq<char>, Seq<char>)> {
    let i = find_char(line, ':') as int;
    if i < line.len() {
        Some((ascii_lower(trimmed(line.take(i))), trimmed(line.skip(i + 1))))
    } else {
        None
    }
}

/// The line of a header field.
pub open spec fn field_line(name: Seq<char>, value: Seq<char>) -> Seq<char> {
    name + ": "@ + value
}

/// The line of a header field keeps to one line where its value does.
pub proof fn lemma_field_line(name: Seq<char>, value: Seq<char>)
    requires
        without_return(name),
        one_line(value),
    ensures
        one_line(field_line(name, value)),
{
    reveal_strlit(": ");
    let front = name + ": "@;
    assert forall|j: int| 0 <= j < front.len() implies #[trigger] front[j] != '\r' by {
        if j < name.len() {
            assert(front[j] == name[j]);
        }
    }
    lemma_one_line_behind(front, value);
}

/// The header fields that lines bind. A later field replaces an earlier one of
/// the same name.
pub open spec fn header_fields(ls: Seq<Seq<char>>) -> Map<Seq<char>, Seq<char>>
    decreases ls.len(),
{
    if ls.len() == 0 {
        Map::empty()
    } else {
        match header_field(ls.last()) {
            Some((name, value)) => header_fields(ls.drop_last()).insert(name, value),
            None => header_fields(ls.drop_last()),
        }
    }
}

/// The header fields of the head of a request: those of its lines but the
/// first.
pub open spec fn headers_of(text: Seq<char>) -> Map<Seq<char>, Seq<char>> {
    header_fields(lines(text).skip(1))
}

/// Binds the field that a header line holds.
fn add_header(headers: &mut TextMap<String>, line: &[char])
    ensures
        final(headers)@ == match header_field(line@) {
            Some((name, value)) => old(headers)@.insert(name, value),
            None => old(headers)@,
        },
{
    let i = position_of(line, ':');
    if i < line.len() {
        assert(line@.take(i as int) == line@.subrange(0, i as int));
        assert(line@.skip(i + 1) == line@.subrange(i + 1, line@.len() as int));
        let name = to_ascii_lower(trim(&line[0..i]));
        let value = from_chars(trim(&line[i + 1..line.len()]));
        headers.insert(name, value);
    }
}

/// Reads the header fields of the head of a request.
pub fn parse_header_text(text: &str) -> (r: TextMap<String>)
    ensures
        r@ == headers_of(text@),
{
    let chars = to_chars(text);
    let mut headers: TextMap<String> = TextMap::new();
    let first = position_of_crlf(chars.as_slice());
    let ghost all = lines(text@);
    if first >= chars.len() {
        assert(all.skip(1) == Seq::<Seq<char>>::empty());
        return headers;
    }
    let mut from: usize = first + 2;
    let ghost mut done: Seq<Seq<char>> = Seq::empty();
    assert(all.skip(1) == done + lines(chars@.skip(from as int)));
    let mut more = true;
    while more
        invariant
            chars@ == text@,
            from <= chars@.len(),
            headers@ == header_fields(done),
            more ==> all.skip(1) == done + lines(chars@.skip(from as int)),
            !more ==> all.skip(1) == done,
        decreases (if more { 1int } else { 0int }), chars@.len() - from,
    {
        assert(chars@.skip(from as int) == chars@.subrange(from as int, chars@.len() as int));
        let rest = &chars.as_slice()[from..chars.len()];
        let n = position_of_crlf(rest);
        let ghost line = rest@.take(n as int);
        let ghost before = done;
        assert(line == rest@.subrange(0, n as int));
        add_header(&mut headers, &rest[0..n]);
        proof {
            done = before.push(line);
            assert(done.drop_last() == before);
        }
        if n < rest.len() {
            assert(rest@.skip(n + 2) == chars@.skip(from + n + 2));
            assert(before + (seq![line] + lines(rest@.skip(n + 2))) == done + lines(
                rest@.skip(n + 2),
            ));
            from = from + n + 2;
        } else {
            assert(line == rest@);
            assert(before + seq![line] == done);
            more = false;
        }
    }
    headers
}

/// Reads the header fields of the head of a request. No head is refused.
pub fn parse_headers(data: &[u8]) -> (r: Result<TextMap<String>, String>)
    ensures
        r matches Ok(headers) && headers@ == headers_of(decoded(data@)),
{
    let text = decode_lossy(data);
    Ok(parse_header_text(text.as_str()))
}

/// The request that a head and a body make, or the complaint about the head's
/// first line.
pub open spec fn request_of(head: Seq<char>, body: Seq<u8>) -> Result<RequestView, Seq<char>> {
    let parts = words(lines(head).first());
    if parts.len() == 0 {
        Err("missing method"@)
    } else if parts.len() == 1 {
        Err("missing path"@)
    } else {
        Ok(
            RequestView {
                method: parts[0],
                path: parts[1].take(find_char(parts[1], '?') as int),
                headers: headers_of(head),
                body,
            },
        )
    }
}

/// The view of a request or of a complaint.
pub open spec fn result_view(r: Result<HttpRequest, String>) -> Result<RequestView, Seq<char>> {
    match r {
        Ok(request) => Ok(request@),
        Err(message) => Err(message@),
    }
}

/// Makes a request of its head and its body.
pub fn request_from_text(head: &str, body: Vec<u8>) -> (r: Result<HttpRequest, String>)
    ensures
        result_view(r) == request_of(head@, body@),
{
    let chars = to_chars(head);
    let end = position_of_crlf(chars.as_slice());
    assert(lines(head@).first() == chars@.subrange(0, end as int)) by {
        assert(chars@.take(end as int) == chars@.subrange(0, end as int));
        if end >= chars@.len() {
            assert(chars@.subrange(0, end as int) == chars@);
        }
    }
    let request_line = &chars.as_slice()[0..end];
    let (method, rest) = match next_word(request_line) {
        Some(found) => found,
        None => {
            return Err("missing method".to_owned());
        },
    };
    let (target, _) = match next_word(rest) {
        Some(found) => found,
        None => {
            assert(words(request_line@).len() == 1);
            return Err("missing path".to_owned());
        },
    };
    let query = position_of(target, '?');
    assert(target@.take(query as int) == target@.subrange(0, query as int));
    Ok(
        HttpRequest {
            method: from_chars(method),
            path: from_chars(&target[0..query]),
            headers: parse_header_text(head),
            body,
        },
    )
}

/// Makes a request of the bytes read: those before `header_end` are its head,
/// the `content_length` bytes that follow its body.
pub fn build_http_request(data: Vec<u8>, header_end: usize, content_length: usize) -> (r: Result<
    HttpRequest,
    String,
>)
    requires
        header_end + content_length <= data@.len(),
    ensures
        result_view(r) == request_of(
            decoded(data@.take(header_end as int)),
            data@.subrange(header_end as int, header_end + content_length),
        ),
{
    let bytes = data.as_slice();
    assert(header_end + content_length <= bytes.len());
    assert(data@.take(header_end as int) == data@.subrange(0, header_end as int));
    let head = decode_lossy(&bytes[0..header_end]);
    let body = vstd::slice::slice_to_vec(&bytes[header_end..header_end + content_length]);
    request_from_text(head.as_str(), body)
}

/// The length of the body that the header fields declare: the number that the
/// field `content-length` writes, and zero where it writes none.
pub open spec fn content_length(headers: Map<Seq<char>, Seq<char>>) -> usize {
    if headers.contains_key("content-length"@) {
        match parsed_usize(headers["content-length"@]) {
            Some(n) => n,
            None => 0,
        }
    } else {
        0
    }
}

/// Reads the length of the body that the header fields declare.
pub fn declared_length(headers: &TextMap<String>) -> (r: usize)
    ensures
        r == content_length(headers@),
{
    match headers.get("content-length") {
        Some(value) => {
            let chars = to_chars(value.as_str());
            match parse_usize(chars.as_slice()) {
                Some(n) => n,
                None => 0,
            }
        },
        None => 0,
    }
}

/// How far reading a request has come.
pub enum ReadProgress {
    /// More bytes are needed.
    More(RequestReader),
    /// The request, or what is wrong with it.
    Done(Result<HttpRequest, String>),
}

/// The view of how far reading has come: the bytes so far, or the outcome.
pub enum ProgressView {
    More(Seq<u8>),
    Done(Result<RequestView, Seq<char>>),
}

impl View for ReadProgress {
    type V = ProgressView;

    open spec fn view(&self) -> ProgressView {
        match self {
            ReadProgress::More(reader) => ProgressView::More(reader@),
            ReadProgress::Done(r) => ProgressView::Done(result_view(*r)),
        }
    }
}

/// How far reading has come when `data` has been read.
pub open spec fn progress_of(data: Seq<u8>) -> ProgressView {
    if data.len() > MAX_REQUEST_SIZE {
        ProgressView::Done(Err("request is too large"@))
    } else {
        match header_end(data) {
            Some(end) => {
                let head = decoded(data.take(end));
                let length = content_length(headers_of(head)) as int;
                if length > MAX_REQUEST_SIZE {
                    ProgressView::Done(Err("request body is too large"@))
                } else if data.len() >= end + length {
                    ProgressView::Done(request_of(head, data.subrange(end, end + length)))
                } else {
                    ProgressView::More(data)
                }
            },
            None => ProgressView::More(data),
        }
    }
}

/// How far reading has come when `chunk` follows `data`. An empty chunk is the
/// end of the stream.
pub open spec fn progress_after(data: Seq<u8>, chunk: Seq<u8>) -> ProgressView {
    if chunk.len() == 0 {
        ProgressView::Done(Err("incomplete HTTP request"@))
    } else {
        progress_of(data + chunk)
    }
}

/// The bytes of a request that have been read so far, which are no more than a
/// request can have.
pub struct RequestReader {
    data: Vec<u8>,
}

impl View for RequestReader {
    type V = Seq<u8>;

    closed spec fn view(&self) -> Seq<u8> {
        self.data@
    }
}

impl RequestReader {
    #[verifier::type_invariant]
    spec fn inv(self) -> bool {
        self.data@.len() <= MAX_REQUEST_SIZE
    }

    /// A reader that has read nothing.
    pub fn new() -> (r: Self)
        ensures
            r@ == Seq::<u8>::empty(),
    {
        RequestReader { data: Vec::new() }
    }

    /// Takes in what has been read next; nothing, at the end of the stream.
    pub fn advance(self, chunk: &[u8]) -> (r: ReadProgress)
        ensures
            r@ == progress_after(self@, chunk@),
    {
        proof {
            use_type_invariant(&self);
        }
        if chunk.len() == 0 {
            return ReadProgress::Done(Err("incomplete HTTP request".to_owned()));
        }
        let mut data = self.data;
        if chunk.len() > MAX_REQUEST_SIZE - data.len() {
            return ReadProgress::Done(Err("request is too large".to_owned()));
        }
        data.extend_from_slice(chunk);
        assert(data@ == self@ + chunk@);
        if let Some(end) = find_header_end(data.as_slice()) {
            assert(data@.take(end as int) == data@.subrange(0, end as int));
            let headers = match parse_headers(&data.as_slice()[0..end]) {
                Ok(headers) => headers,
                Err(message) => {
                    return ReadProgress::Done(Err(message));
                },
            };
            let length = declared_length(&headers);
            if length > MAX_REQUEST_SIZE {
                return ReadProgress::Done(Err("request body is too large".to_owned()));
            }
            if data.len() >= end + length {
                return ReadProgress::Done(build_http_request(data, end, length));
            }
        }
        ReadProgress::More(RequestReader { data })
    }
}

/// Bytes that follow do not move the end of a head that has been read.
pub proof fn law_header_end_stays(data: Seq<u8>, more: Seq<u8>)
    requires
        header_end(data) is Some,
    ensures
        header_end(data + more) == header_end(data),
        4 <= header_end(data)->0 <= data.len(),
{
    let i = choose|i: int| first_blank_line_at(data, i);
    assert(first_blank_line_at(data, i));
    let all = data + more;
    assert forall|j: int| 0 <= j < i implies !blank_line_at(all, j) by {
        assert(!blank_line_at(data, j));
    }
    assert(first_blank_line_at(all, i));
    law_header_end_is(data, i);
    law_header_end_is(all, i);
}

/// Once reading is done, bytes that follow do not change the outcome, as long
/// as no more than the largest request has been read.
pub proof fn law_outcome_stays(data: Seq<u8>, more: Seq<u8>)
    requires
        progress_of(data) is Done,
        data.len() + more.len() <= MAX_REQUEST_SIZE,
    ensures
        progress_of(data + more) == progress_of(data),
{
    law_header_end_stays(data, more);
    let end = header_end(data)->0;
    let length = content_length(headers_of(decoded(data.take(end)))) as int;
    assert((data + more).take(end) == data.take(end));
    if length <= MAX_REQUEST_SIZE {
        assert((data + more).subrange(end, end + length) == data.subrange(end, end + length));
    }
}

/// How far reading has come when the chunks follow `data` one after the other,
/// up to the one that ends it.
pub open spec fn progress_over(data: Seq<u8>, chunks: Seq<Seq<u8>>) -> ProgressView
    decreases chunks.len(),
{
    if chunks.len() == 0 {
        ProgressView::More(data)
    } else {
        match progress_after(data, chunks.first()) {
            ProgressView::More(read) => progress_over(read, chunks.drop_first()),
            done => done,
        }
    }
}

/// How a request is cut into chunks makes no difference to what is read, as
/// long as it is no larger than the largest request.
pub proof fn law_chunks_do_not_matter(data: Seq<u8>, chunks: Seq<Seq<u8>>)
    requires
        chunks.len() > 0,
        forall|i: int| 0 <= i < chunks.len() ==> (#[trigger] chunks[i]).len() > 0,
        data.len() + chunks.flatten().len() <= MAX_REQUEST_SIZE,
    ensures
        progress_over(data, chunks) == progress_of(data + chunks.flatten()),
    decreases chunks.len(),
{
    let first = chunks.first();
    let rest = chunks.drop_first();
    let read = data + first;
    assert(chunks.flatten() == first + rest.flatten());
    assert(data + chunks.flatten() == read + rest.flatten());
    match progress_of(read) {
        ProgressView::More(_) => {
            if rest.len() == 0 {
                assert(rest.flatten() == Seq::<u8>::empty());
                assert(read + rest.flatten() == read);
            } else {
                assert forall|i: int| 0 <= i < rest.len() implies (#[trigger] rest[i]).len() > 0 by {
                    assert(rest[i] == chunks[i + 1]);
                }
                law_chunks_do_not_matter(read, rest);
            }
        },
        ProgressView::Done(_) => {
            law_outcome_stays(read, rest.flatten());
        },
    }
}

/// A request that has been read whole has the body that its header fields
/// declare, and no more than the largest one.
pub proof fn law_body_has_declared_length(data: Seq<u8>)
    ensures
        progress_of(data) matches ProgressView::Done(Ok(request)) ==> {
            &&& request.body.len() == content_length(request.headers)
            &&& request.body.len() <= MAX_REQUEST_SIZE
        },
{
    if header_end(data) is Some {
        law_header_end_stays(data, Seq::empty());
    }
}

/// The line of a header field is read back as it was written: the name in lower
/// case, the value without white space around it.
pub proof fn law_field_reads_back(name: Seq<char>, value: Seq<char>)
    requires
        name.len() > 0,
        !is_white_space(name.first()),
        !is_white_space(name.last()),
        forall|j: int| 0 <= j < name.len() ==> #[trigger] name[j] != ':',
    ensures
        header_field(field_line(name, value)) == Some((ascii_lower(name), trimmed(value))),
{
    reveal_strlit(": ");
    let line = field_line(name, value);
    lemma_find_char(line, ':');
    let i = find_char(line, ':') as int;
    let n = name.len() as int;
    assert(line[n] == ':');
    if i < n {
        assert(line[i] == name[i]);
    }
    assert(i == n);
    assert(line.take(i) == name);
    assert(line.skip(i + 1) == seq![' '] + value);
    assert((seq![' '] + value).drop_first() == value);
    law_trimmed_again(name);
}

/// The values of header fields hold no line ends, and no white space at their
/// ends.
pub proof fn law_header_values_keep_to_one_line(text: Seq<char>, name: Seq<char>)
    requires
        headers_of(text).contains_key(name),
    ensures
        one_line(headers_of(text)[name]),
        trimmed(headers_of(text)[name]) == headers_of(text)[name],
{
    law_lines(text);
    let ls = lines(text).skip(1);
    assert forall|i: int| 0 <= i < ls.len() implies one_line(#[trigger] ls[i]) by {
        assert(ls[i] == lines(text)[i + 1]);
    }
    lemma_field_values(ls, name);
}

/// The values of the fields that lines without line ends bind.
proof fn lemma_field_values(ls: Seq<Seq<char>>, name: Seq<char>)
    requires
        forall|i: int| 0 <= i < ls.len() ==> one_line(#[trigger] ls[i]),
        header_fields(ls).contains_key(name),
    ensures
        one_line(header_fields(ls)[name]),
        trimmed(header_fields(ls)[name]) == header_fields(ls)[name],
    decreases ls.len(),
{
    let line = ls.last();
    let before = ls.drop_last();
    assert forall|i: int| 0 <= i < before.len() implies one_line(#[trigger] before[i]) by {
        assert(before[i] == ls[i]);
    }
    assert(one_line(ls[ls.len() - 1]));
    match header_field(line) {
        Some((field, value)) => {
            if field == name {
                let i = find_char(line, ':') as int;
                let rest = line.skip(i + 1);
                assert(rest == line.subrange(i + 1, line.len() as int));
                lemma_part_of_one_line(line, i + 1, line.len() as int);
                law_trimmed(rest);
                lemma_part_of_one_line(
                    rest,
                    trimmed_from(rest),
                    trimmed_from(rest) + trimmed(rest).len(),
                );
                law_trimmed_again(rest);
            } else {
                lemma_field_values(before, name);
            }
        },
        None => {
            lemma_field_values(before, name);
        },
    }
}

/// The names of header fields are in lower case, and hold no colons, no line
/// ends, and no white space at their ends.
pub proof fn law_header_names_are_plain(text: Seq<char>, name: Seq<char>)
    requires
        headers_of(text).contains_key(name),
    ensures
        ascii_lower(name) == name,
        forall|j: int| 0 <= j < name.len() ==> #[trigger] name[j] != ':',
        one_line(name),
        trimmed(name) == name,
{
    law_lines(text);
    let ls = lines(text).skip(1);
    assert forall|i: int| 0 <= i < ls.len() implies one_line(#[trigger] ls[i]) by {
        assert(ls[i] == lines(text)[i + 1]);
    }
    lemma_field_names(ls, name);
}

/// Lower case leaves alone where the colons, the line ends and the white space
/// of a text are.
proof fn lemma_plain_in_lower_case(s: Seq<char>)
    requires
        forall|j: int| 0 <= j < s.len() ==> #[trigger] s[j] != ':',
        one_line(s),
        trimmed(s) == s,
    ensures
        ascii_lower(ascii_lower(s)) == ascii_lower(s),
        forall|j: int| 0 <= j < s.len() ==> #[trigger] ascii_lower(s)[j] != ':',
        one_line(ascii_lower(s)),
        trimmed(ascii_lower(s)) == ascii_lower(s),
{
    let t = ascii_lower(s);
    assert(ascii_lower(t) =~= t);
    assert forall|j: int| 0 <= j < s.len() implies #[trigger] t[j] != ':' by {
        assert(s[j] != ':');
    }
    lemma_one_line(s);
    lemma_one_line(t);
    assert forall|j: int| 0 <= j && j + 1 < t.len() implies !(#[trigger] t[j] == '\r' && t[j + 1]
        == '\n') by {
        assert(!(s[j] == '\r' && s[j + 1] == '\n'));
    }
    law_trimmed(s);
    law_trimmed_again(t);
    if s.len() > 0 {
        assert(is_white_space(t.first()) == is_white_space(s.first()));
        assert(is_white_space(t.last()) == is_white_space(s.last()));
    }
}

/// The names of the fields that lines without line ends bind.
proof fn lemma_field_names(ls: Seq<Seq<char>>, name: Seq<char>)
    requires
        forall|i: int| 0 <= i < ls.len() ==> one_line(#[trigger] ls[i]),
        header_fields(ls).contains_key(name),
    ensures
        ascii_lower(name) == name,
        forall|j: int| 0 <= j < name.len() ==> #[trigger] name[j] != ':',
        one_line(name),
        trimmed(name) == name,
    decreases ls.len(),
{
    let line = ls.last();
    let before = ls.drop_last();
    assert forall|i: int| 0 <= i < before.len() implies one_line(#[trigger] before[i]) by {
        assert(before[i] == ls[i]);
    }
    assert(one_line(ls[ls.len() - 1]));
    match header_field(line) {
        Some((field, _)) => {
            if field == name {
                let i = find_char(line, ':') as int;
                let front = line.take(i);
                let part = trimmed(front);
                let from = trimmed_from(front);
                lemma_find_char(line, ':');
                assert(front == line.subrange(0, i));
                lemma_part_of_one_line(line, 0, i);
                law_trimmed(front);
                law_trimmed_again(front);
                lemma_part_of_one_line(front, from, from + part.len());
                assert forall|j: int| 0 <= j < part.len() implies #[trigger] part[j] != ':' by {
                    assert(part[j] == line[from + j]);
                }
                lemma_plain_in_lower_case(part);
            } else {
                lemma_field_names(before, name);
            }
        },
        None => {
            lemma_field_names(before, name);
        },
    }
}

/// The head of a request ends behind the first place at which two line ends
/// follow each other, and has no end where there is no such place.
pub proof fn law_head_ends_at_two_line_ends(data: Seq<u8>)
    ensures
        match header_end(data) {
            Some(end) => {
                &&& 4 <= end <= data.len()
                &&& data.subrange(end - 4, end) == seq![13u8, 10u8, 13u8, 10u8]
                &&& forall|j: int|
                    0 <= j < end - 4 ==> #[trigger] data.subrange(j, j + 4) != seq![
                        13u8,
                        10u8,
                        13u8,
                        10u8,
                    ]
            },
            None => forall|j: int|
                0 <= j && j + 4 <= data.len() ==> #[trigger] data.subrange(j, j + 4) != seq![
                    13u8,
                    10u8,
                    13u8,
                    10u8,
                ],
        },
{
    let mark = seq![13u8, 10u8, 13u8, 10u8];
    assert forall|j: int| 0 <= j && j + 4 <= data.len() && #[trigger] data.subrange(j, j + 4)
        == mark implies blank_line_at(data, j) by {
        let part = data.subrange(j, j + 4);
        assert(part[0] == 13 && part[1] == 10 && part[2] == 13 && part[3] == 10);
    }
    if exists|i: int| first_blank_line_at(data, i) {
        let i = choose|i: int| first_blank_line_at(data, i);
        law_header_end_is(data, i);
        assert(data.subrange(i, i + 4) =~= mark);
    } else {
        assert forall|j: int| 0 <= j && j + 4 <= data.len() implies #[trigger] data.subrange(
            j,
            j + 4,
        ) != mark by {
            if data.subrange(j, j + 4) == mark {
                lemma_first_blank_line(data, j);
            }
        }
    }
}

/// Where there is an empty line there is a first one.
proof fn lemma_first_blank_line(data: Seq<u8>, j: int)
    requires
        blank_line_at(data, j),
    ensures
        exists|i: int| first_blank_line_at(data, i),
    decreases j,
{
    if forall|k: int| 0 <= k < j ==> !blank_line_at(data, k) {
        assert(first_blank_line_at(data, j));
    } else {
        let k = choose|k: int| 0 <= k < j && blank_line_at(data, k);
        lemma_first_blank_line(data, k);
    }
}

/// A header line binds what is in front of its first colon, in lower case, to
/// what is behind it, both without the white space around them; and a line
/// without a colon binds nothing.
pub proof fn law_header_line(name: Seq<char>, value: Seq<char>)
    requires
        forall|j: int| 0 <= j < name.len() ==> #[trigger] name[j] != ':',
    ensures
        header_field(name + seq![':'] + value) == Some((ascii_lower(trimmed(name)), trimmed(value))),
        header_field(name) is None,
{
    let line = name + seq![':'] + value;
    law_first_place(name, ':', value);
    assert(line.take(name.len() as int) == name);
    assert(line.skip(name.len() + 1int) == value);
}

/// The first line of a head binds nothing; and each line behind it binds its
/// name to its value, in place of what was bound before, or nothing where it
/// has no colon.
pub proof fn law_header_lines_bind_in_order(
    head: Seq<char>,
    name: Seq<char>,
    value: Seq<char>,
    first: Seq<char>,
)
    requires
        forall|j: int| 0 <= j < name.len() ==> #[trigger] name[j] != ':',
        one_line(name),
        one_line(name + seq![':'] + value),
        one_line(first),
    ensures
        headers_of(first) == Map::<Seq<char>, Seq<char>>::empty(),
        headers_of(head + seq!['\r', '\n'] + (name + seq![':'] + value)) == headers_of(head).insert(
            ascii_lower(trimmed(name)),
            trimmed(value),
        ),
        headers_of(head + seq!['\r', '\n'] + name) == headers_of(head),
{
    let line = name + seq![':'] + value;
    law_header_line(name, value);
    law_lines(head);
    lemma_one_line(first);
    lemma_one_line(line);
    lemma_one_line(name);
    law_split_at_line_ends(first, first);
    law_split_at_line_ends(line, line);
    law_split_at_line_ends(name, name);
    law_split_at_line_ends(head, line);
    law_split_at_line_ends(head, name);
    assert(lines(first).skip(1) == Seq::<Seq<char>>::empty());
    let ls = lines(head).skip(1);
    assert((lines(head) + seq![line]).skip(1) == ls.push(line));
    assert(ls.push(line).drop_last() == ls);
    assert((lines(head) + seq![name]).skip(1) == ls.push(name));
    assert(ls.push(name).drop_last() == ls);
}

/// A request has the first word of its first line for its method, and the
/// second one, up to a question mark, for its path; it keeps its body and all
/// its header fields. A first line without words lacks the method, one with a
/// single word the path.
pub proof fn law_parts_of_a_request(head: Seq<char>, body: Seq<u8>)
    ensures
        ({
            let parts = words(lines(head)[0]);
            &&& parts.len() == 0 ==> request_of(head, body) == Err::<RequestView, Seq<char>>(
                "missing method"@,
            )
            &&& parts.len() == 1 ==> request_of(head, body) == Err::<RequestView, Seq<char>>(
                "missing path"@,
            )
            &&& parts.len() >= 2 ==> request_of(head, body) is Ok
        }),
        request_of(head, body) matches Ok(request) ==> {
            let parts = words(lines(head)[0]);
            let n = request.path.len() as int;
            &&& request.method == parts[0]
            &&& n <= parts[1].len()
            &&& parts[1].take(n) == request.path
            &&& n < parts[1].len() ==> parts[1][n] == '?'
            &&& forall|j: int| 0 <= j < n ==> #[trigger] request.path[j] != '?'
            &&& request.headers == headers_of(head)
            &&& request.body == body
        },
{
    let parts = words(lines(head)[0]);
    law_lines(head);
    if parts.len() >= 2 {
        lemma_find_char(parts[1], '?');
    }
}

/// The length that is declared is the number under `content-length`, and zero
/// where there is none or it is no number.
pub proof fn law_declared_length(headers: Map<Seq<char>, Seq<char>>)
    ensures
        !headers.contains_key("content-length"@) ==> content_length(headers) == 0,
        headers.contains_key("content-length"@) ==> {
            &&& parsed_usize(headers["content-length"@]) matches Some(n) ==> content_length(headers)
                == n
            &&& parsed_usize(headers["content-length"@]) is None ==> content_length(headers) == 0
        },
{
}

/// Reading goes on until the head and as many bytes as it declares are there,
/// and gives up on more than 65536 bytes, on a body that is declared to be
/// larger than that, and at the end of the stream.
pub proof fn law_when_reading_is_done(data: Seq<u8>, chunk: Seq<u8>)
    ensures
        MAX_REQUEST_SIZE == 65536,
        progress_after(data, Seq::empty()) == ProgressView::Done(
            Err("incomplete HTTP request"@),
        ),
        chunk.len() > 0 ==> progress_after(data, chunk) == progress_of(data + chunk),
        data.len() > 65536 ==> progress_of(data) == ProgressView::Done(
            Err("request is too large"@),
        ),
        data.len() <= 65536 && header_end(data) is None ==> progress_of(data)
            == ProgressView::More(data),
        data.len() <= 65536 ==> (header_end(data) matches Some(end) ==> {
            let head = decoded(data.take(end));
            let n = content_length(headers_of(head)) as int;
            &&& n > 65536 ==> progress_of(data) == ProgressView::Done(
                Err("request body is too large"@),
            )
            &&& n <= 65536 && data.len() < end + n ==> progress_of(data)
                == ProgressView::More(data)
            &&& n <= 65536 && data.len() >= end + n ==> progress_of(data) == ProgressView::Done(
                request_of(head, data.subrange(end, end + n)),
            )
        }),
{
}

/// Bytes in UTF-8 are read as the text that they encode.
pub proof fn law_utf8_is_read(bytes: Seq<u8>)
    ensures
        valid_utf8(bytes) ==> decoded(bytes) == decode_utf8(bytes),
        !valid_utf8(bytes) ==> decoded(bytes) == lossy_text(bytes),
{
}

/// The views of a request and of how far reading has come are these, field by
/// field.
pub proof fn law_view_is_the_request(request: HttpRequest, message: String, reader: RequestReader)
    ensures
        request@.method == request.method@,
        request@.path == request.path@,
        request@.headers == request.headers@,
        request@.body == request.body@,
        result_view(Ok(request)) == Ok::<RequestView, Seq<char>>(request@),
        result_view(Err(message)) == Err::<RequestView, Seq<char>>(message@),
        ReadProgress::More(reader)@ == ProgressView::More(reader@),
        ReadProgress::Done(Ok(request))@ == ProgressView::Done(Ok(request@)),
        ReadProgress::Done(Err(message))@ == ProgressView::Done(Err(message@)),
{
}

} // verus!
