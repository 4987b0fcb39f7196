//! One exchange with the browser extension, from the first byte of the request
//! to the response.

use crate::bridge::{
    event_of, failure_reply, fits_the_head, header, health_reply, import_reply, import_step,
    law_answers_fit_the_head, law_only_auth1_tokens_are_imported, law_payload_answers_fit_the_head,
    origin_allowed, payload_step, payload_step_of, payload_view, route, route_of, token_of, Answer,
    AnswerView, DevinAuth1ImportEvent, DevinAuth1ImportRequest, EventView, PayloadStep,
    PayloadStepView, PayloadView, Route, RouteView, EXTENSION_HEADER,
};
use crate::http::{
    content_length, decoded, header_end, headers_of, law_body_has_declared_length, progress_after,
    request_of, ProgressView, ReadProgress, RequestReader, RequestView, MAX_REQUEST_SIZE,
};
use crate::json::{Json, JsonView};
use crate::lines::{head_of, one_line};
use crate::reply::{
    allowed_origin, json_response, json_response_of, law_json_response_is_well_framed,
    law_options_response_is_well_framed, options_head_lines, options_response, well_framed,
    HttpResponse, ResponseView,
};
use crate::value::{contents, json_bytes};
use crate::views::{as_text, copy_string, done_view, reply_view, string_view};
use vstd::prelude::*;

verus! {

/// The number of seconds in which a request has to be read.
pub const REQUEST_TIMEOUT_SECONDS: u64 = 5;

/// How far an exchange has come: the work that is to be done next, with what
/// it needs and what is kept for later.
pub enum Exchange {
    /// Read more of the request.
    Read(RequestReader),
    /// Read the body as a request to import.
    ParsePayload { body: Vec<u8>, origin: Option<String> },
    /// Import the account of the token.
    Import { token: String, origin: Option<String> },
    /// Tell the application of the import.
    Emit { event: DevinAuth1ImportEvent, answer: Answer },
    /// Send the response.
    Send(HttpResponse),
    /// The exchange is over, or has failed.
    Finished(Result<(), String>),
}

/// What the work has led to.
pub enum ExchangeEvent {
    /// More bytes were read, or none at the end of the stream, or reading
    /// failed.
    Chunk(Result<Vec<u8>, String>),
    /// The request was not read in time.
    TimedOut,
    /// The body was read as a request to import, or was not one.
    Parsed(Result<DevinAuth1ImportRequest, String>),
    /// The import ended.
    Imported(Result<Json, String>),
    /// The application was told.
    Emitted,
    /// The response was sent, or was not.
    Sent(Result<(), String>),
}

/// The view of how far an exchange has come.
pub enum ExchangeView {
    Read(Seq<u8>),
    ParsePayload { body: Seq<u8>, origin: Option<Seq<char>> },
    Import { token: Seq<char>, origin: Option<Seq<char>> },
    Emit { event: EventView, answer: AnswerView },
    Send(ResponseView),
    Finished(Result<(), Seq<char>>),
}

/// The view of what the work has led to.
pub enum ExchangeEventView {
    Chunk(Result<Seq<u8>, Seq<char>>),
    TimedOut,
    Parsed(Result<PayloadView, Seq<char>>),
    Imported(Result<JsonView, Seq<char>>),
    Emitted,
    Sent(Result<(), Seq<char>>),
}

impl View for Exchange {
    type V = ExchangeView;

    open spec fn view(&self) -> ExchangeView {
        match *self {
            Exchange::Read(reader) => ExchangeView::Read(reader@),
            Exchange::ParsePayload { body, origin } => ExchangeView::ParsePayload {
                body: body@,
                origin: string_view(origin),
            },
            Exchange::Import { token, origin } => ExchangeView::Import {
                token: token@,
                origin: string_view(origin),
            },
            Exchange::Emit { event, answer } => ExchangeView::Emit {
                event: event@,
                answer: answer@,
            },
            Exchange::Send(response) => ExchangeView::Send(response@),
            Exchange::Finished(r) => ExchangeView::Finished(done_view(r)),
        }
    }
}

impl View for ExchangeEvent {
    type V = ExchangeEventView;

    open spec fn view(&self) -> ExchangeEventView {
        match *self {
            ExchangeEvent::Chunk(r) => ExchangeEventView::Chunk(
                match r {
                    Ok(bytes) => Ok(bytes@),
                    Err(error) => Err(error@),
                },
            ),
            ExchangeEvent::TimedOut => ExchangeEventView::TimedOut,
            ExchangeEvent::Parsed(r) => ExchangeEventView::Parsed(payload_view(r)),
            ExchangeEvent::Imported(r) => ExchangeEventView::Imported(reply_view(r)),
            ExchangeEvent::Emitted => ExchangeEventView::Emitted,
            ExchangeEvent::Sent(r) => ExchangeEventView::Sent(done_view(r)),
        }
    }
}

/// To give an answer is to send it as a response.
pub open spec fn answered(answer: AnswerView) -> ExchangeView {
    ExchangeView::Send(
        json_response_of(
            answer.status_code,
            answer.status_text,
            json_bytes(contents(answer.reply)),
            answer.origin,
        ),
    )
}

/// What follows when a request has been read.
pub open spec fn routed(request: RequestView) -> ExchangeView {
    match route_of(request) {
        RouteView::Answer(answer) => answered(answer),
        RouteView::Preflight(origin) => ExchangeView::Send(
            ResponseView { head: head_of(options_head_lines(origin)), body: Seq::empty() },
        ),
        RouteView::Payload(origin) => ExchangeView::ParsePayload { body: request.body, origin },
    }
}

/// How far an exchange has come after an event that its work has led to. An
/// event that the work cannot lead to changes nothing.
pub open spec fn exchange_next(state: ExchangeView, event: ExchangeEventView) -> ExchangeView {
    match (state, event) {
        (ExchangeView::Read(data), ExchangeEventView::Chunk(r)) => match r {
            Ok(chunk) => match progress_after(data, chunk) {
                ProgressView::More(read) => ExchangeView::Read(read),
                ProgressView::Done(Ok(request)) => routed(request),
                ProgressView::Done(Err(message)) => ExchangeView::Finished(Err(message)),
            },
            Err(error) => ExchangeView::Finished(Err(error)),
        },
        (ExchangeView::Read(_), ExchangeEventView::TimedOut) => ExchangeView::Finished(
            Err("request timed out"@),
        ),
        (ExchangeView::ParsePayload { body: _, origin }, ExchangeEventView::Parsed(r)) =>
            match payload_step_of(r, origin) {
                PayloadStepView::Fail(message) => ExchangeView::Finished(Err(message)),
                PayloadStepView::Answer(answer) => answered(answer),
                PayloadStepView::Import(token) => ExchangeView::Import { token, origin },
            },
        (ExchangeView::Import { token: _, origin }, ExchangeEventView::Imported(r)) =>
            ExchangeView::Emit {
                event: event_of(import_reply(r)),
                answer: AnswerView {
                    status_code: 200,
                    status_text: "OK"@,
                    reply: import_reply(r),
                    origin,
                },
            },
        (ExchangeView::Emit { event: _, answer }, ExchangeEventView::Emitted) => answered(answer),
        (ExchangeView::Send(_), ExchangeEventView::Sent(r)) => ExchangeView::Finished(r),
        _ => state,
    }
}

/// The arguments that an import is called with, in their order, but for the
/// store.
pub struct ImportArguments(
    pub String,
    pub Option<String>,
    pub Option<String>,
    pub Vec<String>,
    pub Option<String>,
    pub Option<bool>,
    pub bool,
);

/// The view of the arguments that an import is called with.
pub struct ImportArgumentsView(
    pub Seq<char>,
    pub Option<Seq<char>>,
    pub Option<Seq<char>>,
    pub Seq<Seq<char>>,
    pub Option<Seq<char>>,
    pub Option<bool>,
    pub bool,
);

impl View for ImportArguments {
    type V = ImportArgumentsView;

    open spec fn view(&self) -> ImportArgumentsView {
        ImportArgumentsView(
            self.0@,
            string_view(self.1),
            string_view(self.2),
            Seq::new(self.3@.len(), |i: int| self.3@[i]@),
            string_view(self.4),
            self.5,
            self.6,
        )
    }
}

/// The arguments that the bridge imports a token with: nothing is chosen for
/// the account, and both switches are on.
pub open spec fn import_arguments_of(token: Seq<char>) -> ImportArgumentsView {
    ImportArgumentsView(token, None, None, Seq::empty(), None, Some(true), true)
}

impl Exchange {
    /// The start of an exchange.
    pub fn start() -> (r: Exchange)
        ensures
            r@ == ExchangeView::Read(Seq::empty()),
    {
        Exchange::Read(RequestReader::new())
    }

    /// Gives an answer.
    fn answer(answer: Answer) -> (r: Exchange)
        ensures
            r@ == answered(answer@),
    {
        match json_response(
            answer.status_code,
            answer.status_text.as_str(),
            &answer.reply,
            as_text(&answer.origin),
        ) {
            Ok(response) => Exchange::Send(response),
            Err(message) => Exchange::Finished(Err(message)),
        }
    }

    /// The arguments that the import is called with, where it is the work that
    /// is to be done next.
    pub fn import_arguments(&self) -> (r: Option<ImportArguments>)
        ensures
            match r {
                Some(arguments) => {
                    &&& self@ matches ExchangeView::Import { token, .. } && arguments@
                        == import_arguments_of(token)
                    &&& arguments.3@ == Seq::<String>::empty()
                },
                None => !(self@ is Import),
            },
    {
        match self {
            Exchange::Import { token, .. } => {
                let arguments = ImportArguments(
                    token.clone(),
                    None,
                    None,
                    Vec::new(),
                    None,
                    Some(true),
                    true,
                );
                assert(arguments@.3 =~= Seq::<Seq<char>>::empty());
                Some(arguments)
            },
            _ => None,
        }
    }

    /// Goes on with an event that the work has led to.
    pub fn step(self, event: ExchangeEvent) -> (r: Exchange)
        ensures
            r@ == exchange_next(self@, event@),
    {
        match (self, event) {
            (Exchange::Read(reader), ExchangeEvent::Chunk(r)) => match r {
                Ok(chunk) => match reader.advance(chunk.as_slice()) {
                    ReadProgress::More(reader) => Exchange::Read(reader),
                    ReadProgress::Done(Ok(request)) => match route(&request) {
                        Route::Answer(answer) => Self::answer(answer),
                        Route::Preflight(origin) => Exchange::Send(
                            options_response(as_text(&origin)),
                        ),
                        Route::Payload(origin) => Exchange::ParsePayload {
                            body: request.body,
                            origin,
                        },
                    },
                    ReadProgress::Done(Err(message)) => Exchange::Finished(Err(message)),
                },
                Err(error) => Exchange::Finished(Err(error)),
            },
            (Exchange::Read(_), ExchangeEvent::TimedOut) => Exchange::Finished(
                Err("request timed out".to_owned()),
            ),
            (Exchange::ParsePayload { body: _, origin }, ExchangeEvent::Parsed(r)) =>
                match payload_step(r, copy_string(&origin)) {
                    PayloadStep::Fail(message) => Exchange::Finished(Err(message)),
                    PayloadStep::Answer(answer) => Self::answer(answer),
                    PayloadStep::Import(token) => Exchange::Import { token, origin },
                },
            (Exchange::Import { token: _, origin }, ExchangeEvent::Imported(r)) => {
                let (event, answer) = import_step(r, origin);
                Exchange::Emit { event, answer }
            },
            (Exchange::Emit { event: _, answer }, ExchangeEvent::Emitted) => Self::answer(answer),
            (Exchange::Send(_), ExchangeEvent::Sent(r)) => Exchange::Finished(r),
            (state, _) => state,
        }
    }
}

impl ExchangeView {
    /// Whether the work that is to be done next can lead to that event.
    pub open spec fn expects(self, event: ExchangeEventView) -> bool {
        match self {
            ExchangeView::Read(_) => event is Chunk || event is TimedOut,
            ExchangeView::ParsePayload { .. } => event is Parsed,
            ExchangeView::Import { .. } => event is Imported,
            ExchangeView::Emit { .. } => event is Emitted,
            ExchangeView::Send(_) => event is Sent,
            ExchangeView::Finished(_) => false,
        }
    }

    /// The number of stages that are left at most.
    pub open spec fn stages_left(self) -> nat {
        match self {
            ExchangeView::Read(_) => 5,
            ExchangeView::ParsePayload { .. } => 4,
            ExchangeView::Import { .. } => 3,
            ExchangeView::Emit { .. } => 2,
            ExchangeView::Send(_) => 1,
            ExchangeView::Finished(_) => 0,
        }
    }

    /// The number of bytes that can still be read.
    pub open spec fn bytes_left(self) -> int {
        match self {
            ExchangeView::Read(data) => MAX_REQUEST_SIZE - data.len(),
            _ => 0,
        }
    }
}

/// Every exchange comes to an end: each event that the work leads to brings it
/// to a later stage, or more of the request has been read, of which no more
/// than the largest request is taken; and only a finished exchange expects
/// none.
pub proof fn law_exchange_ends(state: ExchangeView, event: ExchangeEventView)
    ensures
        state.expects(event) ==> {
            let next = exchange_next(state, event);
            ||| next.stages_left() < state.stages_left()
            ||| next.stages_left() == state.stages_left() && 0 <= next.bytes_left()
                < state.bytes_left()
        },
        !state.expects(event) ==> exchange_next(state, event) == state,
        state.stages_left() == 0 <==> state is Finished,
{
}

/// An account is imported only for a request that has passed every check: the
/// work of importing follows only the reading of a body, on behalf of the same
/// origin, and that follows only a request that may have its body read.
pub proof fn law_import_follows_every_check(
    state: ExchangeView,
    event: ExchangeEventView,
    token: Seq<char>,
    origin: Option<Seq<char>>,
)
    requires
        state.expects(event),
    ensures
        exchange_next(state, event) == (ExchangeView::Import { token, origin }) ==> {
            &&& state matches ExchangeView::ParsePayload { body: _, origin: o } && o == origin
            &&& event matches ExchangeEventView::Parsed(r) && payload_step_of(r, origin)
                == PayloadStepView::Import(token)
        },
        exchange_next(state, event) is ParsePayload ==> {
            &&& state is Read
            &&& event matches ExchangeEventView::Chunk(Ok(chunk)) && (progress_after(
                state->Read_0,
                chunk,
            ) matches ProgressView::Done(Ok(request)) && route_of(request) is Payload)
        },
{
}

/// The application is told of every import that was tried, and of nothing
/// else.
pub proof fn law_every_import_is_told(state: ExchangeView, event: ExchangeEventView)
    requires
        state.expects(event),
    ensures
        exchange_next(state, event) is Emit <==> state is Import,
{
}

/// A request that has been read is answered, unless its body is to be read and
/// is not JSON: an exchange fails only while the request is read, over such a
/// body, or when the response cannot be sent; and it ends well only after its
/// response was sent.
pub proof fn law_every_request_is_answered(state: ExchangeView, event: ExchangeEventView)
    requires
        state.expects(event),
    ensures
        exchange_next(state, event) == ExchangeView::Finished(Ok(())) ==> state is Send,
        exchange_next(state, event) is Finished ==> match (state, event) {
            (ExchangeView::Read(_), ExchangeEventView::TimedOut) => true,
            (ExchangeView::Read(data), ExchangeEventView::Chunk(Ok(chunk))) => progress_after(
                data,
                chunk,
            ) matches ProgressView::Done(Err(_)),
            (ExchangeView::Read(_), ExchangeEventView::Chunk(Err(_))) => true,
            (ExchangeView::ParsePayload { .. }, ExchangeEventView::Parsed(r)) => r is Err,
            (ExchangeView::Send(_), _) => true,
            _ => false,
        },
{
}

/// The refusal of a request, with a message.
pub open spec fn refusal(
    status_code: u16,
    status_text: Seq<char>,
    message: Seq<char>,
    origin: Option<Seq<char>>,
) -> ExchangeView {
    answered(AnswerView { status_code, status_text, reply: failure_reply(message), origin })
}

/// What each request is answered: one from a foreign origin is forbidden,
/// whatever it asks for; else a preflight request is granted, a question for
/// the bridge's health is answered, one for anything but the endpoint for
/// tokens finds nothing, and there one without the extension's mark is
/// forbidden. Only then its body is read.
pub proof fn law_answer_to_each_request(request: RequestView)
    ensures
        ({
            let origin = header(request, "origin"@);
            let health = request.method == "GET"@ && request.path == "/health"@;
            let import = request.method == "POST"@ && request.path == "/devin-auth1-token"@;
            let marked = header(request, "x-wam-extension"@) == Some(EXTENSION_HEADER@);
            &&& !origin_allowed(origin) ==> routed(request) == refusal(
                403,
                "Forbidden"@,
                "Origin is not allowed"@,
                None,
            )
            &&& origin_allowed(origin) && request.method == "OPTIONS"@ ==> routed(request)
                == ExchangeView::Send(
                ResponseView { head: head_of(options_head_lines(origin)), body: Seq::empty() },
            )
            &&& origin_allowed(origin) && health ==> routed(request) == answered(
                AnswerView { status_code: 200, status_text: "OK"@, reply: health_reply(), origin },
            )
            &&& origin_allowed(origin) && request.method != "OPTIONS"@ && !health && !import
                ==> routed(request) == refusal(
                404,
                "Not Found"@,
                "Endpoint not found"@,
                origin,
            )
            &&& origin_allowed(origin) && import && !marked ==> routed(request) == refusal(
                403,
                "Forbidden"@,
                "Extension header is missing"@,
                origin,
            )
            &&& origin_allowed(origin) && import && marked ==> routed(request) == (
            ExchangeView::ParsePayload { body: request.body, origin })
        }),
{
    reveal_strlit("POST");
    reveal_strlit("OPTIONS");
    reveal_strlit("GET");
    assert("POST"@.len() == 4);
    assert("OPTIONS"@.len() == 7);
    assert("GET"@.len() == 3);
}

/// What the body of a request is answered: it is refused where its token is not
/// of the kind that is imported, and the token is imported where it is.
pub proof fn law_answer_to_each_payload(
    body: Seq<u8>,
    origin: Option<Seq<char>>,
    payload: PayloadView,
)
    ensures
        exchange_next(
            ExchangeView::ParsePayload { body, origin },
            ExchangeEventView::Parsed(Ok(payload)),
        ) == (if "auth1_"@.is_prefix_of(token_of(payload)) {
            ExchangeView::Import { token: token_of(payload), origin }
        } else {
            refusal(400, "Bad Request"@, "Invalid auth1 token"@, origin)
        }),
{
}

/// The end of an exchange from the import on: the application is told of it,
/// the answer tells the same, and it is sent.
pub proof fn law_import_is_answered(
    token: Seq<char>,
    origin: Option<Seq<char>>,
    result: Result<JsonView, Seq<char>>,
)
    ensures
        ({
            let told = exchange_next(
                ExchangeView::Import { token, origin },
                ExchangeEventView::Imported(result),
            );
            &&& told matches ExchangeView::Emit { event, .. } && event == event_of(
                import_reply(result),
            )
            &&& exchange_next(told, ExchangeEventView::Emitted) == answered(
                AnswerView {
                    status_code: 200,
                    status_text: "OK"@,
                    reply: import_reply(result),
                    origin,
                },
            )
        }),
{
}

impl ExchangeView {
    /// What holds at every point of an exchange.
    pub open spec fn sound(self) -> bool {
        match self {
            ExchangeView::Read(data) => data.len() <= MAX_REQUEST_SIZE,
            ExchangeView::ParsePayload { body, origin } => {
                &&& body.len() <= MAX_REQUEST_SIZE
                &&& origin_allowed(origin)
                &&& one_line(allowed_origin(origin))
            },
            ExchangeView::Import { token, origin } => {
                &&& "auth1_"@.is_prefix_of(token)
                &&& origin_allowed(origin)
                &&& one_line(allowed_origin(origin))
            },
            ExchangeView::Emit { event, answer } => {
                &&& event == event_of(answer.reply)
                &&& fits_the_head(answer)
            },
            ExchangeView::Send(response) => well_framed(response),
            ExchangeView::Finished(_) => true,
        }
    }
}

/// An answer that fits the head is sent as a well framed response.
proof fn lemma_answered_is_sound(answer: AnswerView)
    requires
        fits_the_head(answer),
    ensures
        answered(answer).sound(),
{
    law_json_response_is_well_framed(
        answer.status_code,
        answer.status_text,
        json_bytes(contents(answer.reply)),
        answer.origin,
    );
}

/// What follows when a request has been read is sound.
proof fn lemma_routed_is_sound(head: Seq<char>, body: Seq<u8>)
    requires
        request_of(head, body) is Ok,
        body.len() <= MAX_REQUEST_SIZE,
    ensures
        routed(request_of(head, body)->Ok_0).sound(),
{
    law_answers_fit_the_head(head, body);
    match route_of(request_of(head, body)->Ok_0) {
        RouteView::Answer(answer) => {
            lemma_answered_is_sound(answer);
        },
        RouteView::Preflight(origin) => {
            law_options_response_is_well_framed(origin);
        },
        RouteView::Payload(_) => {},
    }
}

/// What holds at every point of an exchange holds at its start and after each
/// event: no more than the largest request is kept, an account is imported only
/// for an allowed origin and a token of its kind, and whatever a request says,
/// the response to it is well framed.
pub proof fn law_exchange_stays_sound(state: ExchangeView, event: ExchangeEventView)
    requires
        state.sound(),
    ensures
        ExchangeView::Read(Seq::empty()).sound(),
        exchange_next(state, event).sound(),
{
    match (state, event) {
        (ExchangeView::Read(data), ExchangeEventView::Chunk(Ok(chunk))) => {
            let all = data + chunk;
            if let ProgressView::Done(Ok(_)) = progress_after(data, chunk) {
                law_body_has_declared_length(all);
                let end = header_end(all)->0;
                let head = decoded(all.take(end));
                let length = content_length(headers_of(head)) as int;
                lemma_routed_is_sound(head, all.subrange(end, end + length));
            }
        },
        (ExchangeView::ParsePayload { body: _, origin }, ExchangeEventView::Parsed(r)) => {
            law_payload_answers_fit_the_head(r, failure_reply(Seq::empty()), origin);
            law_only_auth1_tokens_are_imported(r, origin);
            if let PayloadStepView::Answer(answer) = payload_step_of(r, origin) {
                lemma_answered_is_sound(answer);
            }
        },
        (ExchangeView::Import { token: _, origin }, ExchangeEventView::Imported(r)) => {
            law_payload_answers_fit_the_head(
                Err(Seq::empty()),
                import_reply(r),
                origin,
            );
        },
        (ExchangeView::Emit { event: _, answer }, ExchangeEventView::Emitted) => {
            lemma_answered_is_sound(answer);
        },
        _ => {},
    }
}

/// What follows the reading of a request: reading goes on, or the exchange
/// fails for the reason that there is, or the request is answered, or its body
/// is read.
pub proof fn law_after_reading(data: Seq<u8>, chunk: Seq<u8>, error: Seq<char>)
    ensures
        REQUEST_TIMEOUT_SECONDS == 5,
        exchange_next(ExchangeView::Read(data), ExchangeEventView::TimedOut)
            == ExchangeView::Finished(Err("request timed out"@)),
        exchange_next(ExchangeView::Read(data), ExchangeEventView::Chunk(Err(error)))
            == ExchangeView::Finished(Err(error)),
        ({
            let next = exchange_next(
                ExchangeView::Read(data),
                ExchangeEventView::Chunk(Ok(chunk)),
            );
            match progress_after(data, chunk) {
                ProgressView::More(read) => next == ExchangeView::Read(read),
                ProgressView::Done(Err(message)) => next == ExchangeView::Finished(Err(message)),
                ProgressView::Done(Ok(request)) => match route_of(request) {
                    RouteView::Answer(answer) => next == ExchangeView::Send(
                        json_response_of(
                            answer.status_code,
                            answer.status_text,
                            json_bytes(contents(answer.reply)),
                            answer.origin,
                        ),
                    ),
                    RouteView::Preflight(origin) => next matches ExchangeView::Send(response)
                        && response.head == head_of(options_head_lines(origin))
                        && response.body.len() == 0,
                    RouteView::Payload(origin) => next == (ExchangeView::ParsePayload {
                        body: request.body,
                        origin,
                    }),
                },
            }
        }),
{
}

/// What follows the reading of a body: the exchange fails, the request is
/// answered, or the token is imported, on behalf of the same origin.
pub proof fn law_after_the_body(
    body: Seq<u8>,
    origin: Option<Seq<char>>,
    payload: Result<PayloadView, Seq<char>>,
)
    ensures
        ({
            let next = exchange_next(
                ExchangeView::ParsePayload { body, origin },
                ExchangeEventView::Parsed(payload),
            );
            match payload_step_of(payload, origin) {
                PayloadStepView::Fail(message) => next == ExchangeView::Finished(Err(message)),
                PayloadStepView::Answer(answer) => next == ExchangeView::Send(
                    json_response_of(
                        answer.status_code,
                        answer.status_text,
                        json_bytes(contents(answer.reply)),
                        answer.origin,
                    ),
                ),
                PayloadStepView::Import(token) => next == (ExchangeView::Import { token, origin }),
            }
        }),
{
}

/// What follows an import: the application is told what the answer says, the
/// answer is sent with a code of success to the origin that asked, and the
/// exchange ends as the sending does.
pub proof fn law_after_the_import(
    token: Seq<char>,
    origin: Option<Seq<char>>,
    result: Result<JsonView, Seq<char>>,
    response: ResponseView,
    sent: Result<(), Seq<char>>,
)
    ensures
        ({
            let told = exchange_next(
                ExchangeView::Import { token, origin },
                ExchangeEventView::Imported(result),
            );
            &&& told matches ExchangeView::Emit { event, .. } && event == event_of(
                import_reply(result),
            )
            &&& exchange_next(told, ExchangeEventView::Emitted) == ExchangeView::Send(
                json_response_of(200, "OK"@, json_bytes(contents(import_reply(result))), origin),
            )
        }),
        exchange_next(ExchangeView::Send(response), ExchangeEventView::Sent(sent))
            == ExchangeView::Finished(sent),
{
}

/// A token is imported as it is, with nothing chosen for the account.
pub proof fn law_what_is_imported(token: Seq<char>)
    ensures
        import_arguments_of(token).0 == token,
        import_arguments_of(token).1 is None,
        import_arguments_of(token).2 is None,
        import_arguments_of(token).3.len() == 0,
        import_arguments_of(token).4 is None,
        import_arguments_of(token).5 == Some(true),
        import_arguments_of(token).6,
{
}

/// The views of an exchange and of what its work has led to are these, field by
/// field.
pub proof fn law_view_is_the_exchange(
    reader: RequestReader,
    bytes: Vec<u8>,
    origin: Option<String>,
    s: String,
    event: DevinAuth1ImportEvent,
    answer: Answer,
    response: HttpResponse,
    payload: DevinAuth1ImportRequest,
    value: Json,
)
    ensures
        Exchange::Read(reader)@ == ExchangeView::Read(reader@),
        (Exchange::ParsePayload { body: bytes, origin })@ == (ExchangeView::ParsePayload {
            body: bytes@,
            origin: string_view(origin),
        }),
        (Exchange::Import { token: s, origin })@ == (ExchangeView::Import {
            token: s@,
            origin: string_view(origin),
        }),
        (Exchange::Emit { event, answer })@ == (ExchangeView::Emit {
            event: event@,
            answer: answer@,
        }),
        Exchange::Send(response)@ == ExchangeView::Send(response@),
        Exchange::Finished(Ok(()))@ == ExchangeView::Finished(Ok(())),
        Exchange::Finished(Err(s))@ == ExchangeView::Finished(Err(s@)),
        ExchangeEvent::Chunk(Ok(bytes))@ == ExchangeEventView::Chunk(Ok(bytes@)),
        ExchangeEvent::Chunk(Err(s))@ == ExchangeEventView::Chunk(Err(s@)),
        ExchangeEvent::TimedOut@ == ExchangeEventView::TimedOut,
        ExchangeEvent::Parsed(Ok(payload))@ == ExchangeEventView::Parsed(Ok(payload@)),
        ExchangeEvent::Parsed(Err(s))@ == ExchangeEventView::Parsed(Err(s@)),
        ExchangeEvent::Imported(Ok(value))@ == ExchangeEventView::Imported(Ok(value@)),
        ExchangeEvent::Imported(Err(s))@ == ExchangeEventView::Imported(Err(s@)),
        ExchangeEvent::Emitted@ == ExchangeEventView::Emitted,
        ExchangeEvent::Sent(Ok(()))@ == ExchangeEventView::Sent(Ok(())),
        ExchangeEvent::Sent(Err(s))@ == ExchangeEventView::Sent(Err(s@)),
{
}

/// What a work cannot lead to changes nothing: each work leads to its own kind
/// of event.
pub proof fn law_other_events_do_not_count(state: ExchangeView, event: ExchangeEventView)
    ensures
        state is Read && !(event is Chunk) && !(event is TimedOut) ==> exchange_next(state, event)
            == state,
        state is ParsePayload && !(event is Parsed) ==> exchange_next(state, event) == state,
        state is Import && !(event is Imported) ==> exchange_next(state, event) == state,
        state is Emit && !(event is Emitted) ==> exchange_next(state, event) == state,
        state is Send && !(event is Sent) ==> exchange_next(state, event) == state,
        state is Finished ==> exchange_next(state, event) == state,
{
}

} // verus!
