//! The bridge to the browser extension: which requests it answers how, and
//! what it tells of an import.

use crate::decimal::{decimal, to_decimal};
use crate::http::{law_header_values_keep_to_one_line, request_of, HttpRequest, RequestView};
use crate::json::{member, members_view, object, put, text, Json, JsonView};
use crate::lines::{lemma_one_line, one_line};
use crate::reply::allowed_origin;
use crate::text::{
    from_chars, is_white_space, law_trimmed, law_trims_white_space_only, same_text, starts_with,
    to_chars, trim, trimmed, trimmed_from,
};
use crate::views::{as_text, reply_view, string_view, text_or, text_view};
use vstd::prelude::*;

verus! {

/// The ports that the bridge tries to listen on, in this order.
pub const BRIDGE_PORTS: [u16; 5] = [19876, 19877, 19878, 19879, 19880];

/// What the extension says in the header field `x-wam-extension`.
pub const EXTENSION_HEADER: &'static str = "devin-auth1";

/// The address that the bridge listens on.
pub const BRIDGE_ADDRESS: &'static str = "127.0.0.1";

/// The event by which the application is told that the bridge listens.
pub const READY_EVENT: &'static str = "devin-extension-bridge-ready";

/// The event by which the application is told of an import.
pub const IMPORTED_EVENT: &'static str = "devin-auth1-token-imported";

/// The port to try once that many ports have failed.
pub fn bridge_port(failures: usize) -> (r: Option<u16>)
    ensures
        r == (if failures < BRIDGE_PORTS@.len() {
            Some(BRIDGE_PORTS@[failures as int])
        } else {
            None
        }),
{
    if failures < 5 {
        Some(BRIDGE_PORTS[failures])
    } else {
        None
    }
}

/// The numbers in base ten, with commas between them.
pub open spec fn listed(ports: Seq<u16>) -> Seq<char>
    decreases ports.len(),
{
    if ports.len() == 0 {
        Seq::empty()
    } else if ports.len() == 1 {
        decimal(ports[0] as nat)
    } else {
        listed(ports.drop_last()) + ", "@ + decimal(ports.last() as nat)
    }
}

/// What is reported when no port could be had.
pub fn ports_unavailable() -> (r: String)
    ensures
        r@ == "ports ["@ + listed(BRIDGE_PORTS@) + "] are unavailable"@,
{
    let mut r = "ports [".to_owned();
    let mut i: usize = 0;
    let ghost ports = BRIDGE_PORTS@;
    while i < 5
        invariant
            i <= 5,
            ports == BRIDGE_PORTS@,
            ports.len() == 5,
            r@ == "ports ["@ + listed(ports.take(i as int)),
        decreases 5 - i,
    {
        if i > 0 {
            r.append(", ");
        }
        let number = to_decimal(BRIDGE_PORTS[i] as usize);
        r.append(number.as_str());
        i += 1;
        assert(ports.take(i as int).drop_last() == ports.take(i - 1));
        assert(r@ == "ports ["@ + listed(ports.take(i as int)));
    }
    assert(ports.take(i as int) == ports);
    r.append("] are unavailable");
    r
}

/// Whether a request from that origin is allowed: one from an extension, or
/// one that names no origin.
pub open spec fn origin_allowed(origin: Option<Seq<char>>) -> bool {
    match origin {
        Some(value) => "chrome-extension://"@.is_prefix_of(value),
        None => true,
    }
}

/// Whether a request from that origin is allowed.
pub fn is_origin_allowed(origin: Option<&str>) -> (r: bool)
    ensures
        r == origin_allowed(text_view(origin)),
{
    match origin {
        Some(value) => starts_with(value, "chrome-extension://"),
        None => true,
    }
}

/// An answer in JSON.
pub struct Answer {
    pub status_code: u16,
    pub status_text: String,
    pub reply: Json,
    /// The origin that the answer is meant for; any, where it is missing.
    pub origin: Option<String>,
}

/// The view of an answer.
pub struct AnswerView {
    pub status_code: u16,
    pub status_text: Seq<char>,
    pub reply: JsonView,
    pub origin: Option<Seq<char>>,
}

impl View for Answer {
    type V = AnswerView;

    open spec fn view(&self) -> AnswerView {
        AnswerView {
            status_code: self.status_code,
            status_text: self.status_text@,
            reply: self.reply@,
            origin: string_view(self.origin),
        }
    }
}

/// What is to be done with a request.
pub enum Route {
    /// Answer it.
    Answer(Answer),
    /// Answer a preflight request from that origin.
    Preflight(Option<String>),
    /// Read its body as a request to import, on behalf of that origin.
    Payload(Option<String>),
}

/// The view of what is to be done with a request.
pub enum RouteView {
    Answer(AnswerView),
    Preflight(Option<Seq<char>>),
    Payload(Option<Seq<char>>),
}

impl View for Route {
    type V = RouteView;

    open spec fn view(&self) -> RouteView {
        match self {
            Route::Answer(answer) => RouteView::Answer(answer@),
            Route::Preflight(origin) => RouteView::Preflight(string_view(*origin)),
            Route::Payload(origin) => RouteView::Payload(string_view(*origin)),
        }
    }
}

/// The reply with a message about a failure.
pub open spec fn failure_reply(message: Seq<char>) -> JsonView {
    JsonView::Object(
        seq![("success"@, JsonView::Bool(false)), ("message"@, JsonView::Text(message))],
    )
}

/// The reply that tells that the bridge is there.
pub open spec fn health_reply() -> JsonView {
    JsonView::Object(
        seq![
            ("success"@, JsonView::Bool(true)),
            ("service"@, JsonView::Text("devin-auth1-bridge"@)),
        ],
    )
}

/// The value of a header field.
pub open spec fn header(request: RequestView, name: Seq<char>) -> Option<Seq<char>> {
    if request.headers.contains_key(name) {
        Some(request.headers[name])
    } else {
        None
    }
}

/// What is to be done with a request.
pub open spec fn route_of(request: RequestView) -> RouteView {
    let origin = header(request, "origin"@);
    if !origin_allowed(origin) {
        RouteView::Answer(
            AnswerView {
                status_code: 403,
                status_text: "Forbidden"@,
                reply: failure_reply("Origin is not allowed"@),
                origin: None,
            },
        )
    } else if request.method == "OPTIONS"@ {
        RouteView::Preflight(origin)
    } else if request.method == "GET"@ && request.path == "/health"@ {
        RouteView::Answer(
            AnswerView { status_code: 200, status_text: "OK"@, reply: health_reply(), origin },
        )
    } else if request.method != "POST"@ || request.path != "/devin-auth1-token"@ {
        RouteView::Answer(
            AnswerView {
                status_code: 404,
                status_text: "Not Found"@,
                reply: failure_reply("Endpoint not found"@),
                origin,
            },
        )
    } else if header(request, "x-wam-extension"@) != Some(EXTENSION_HEADER@) {
        RouteView::Answer(
            AnswerView {
                status_code: 403,
                status_text: "Forbidden"@,
                reply: failure_reply("Extension header is missing"@),
                origin,
            },
        )
    } else {
        RouteView::Payload(origin)
    }
}

/// Makes the reply with a message about a failure.
fn failure(message: &str) -> (r: Json)
    ensures
        r@ == failure_reply(message@),
{
    let mut members: Vec<(String, Json)> = Vec::new();
    put(&mut members, "success", Json::Bool(false));
    put(&mut members, "message", text(message));
    assert(members_view(members@) =~= failure_reply(message@)->Object_0);
    object(members)
}

/// Makes the reply that tells that the bridge is there.
fn health() -> (r: Json)
    ensures
        r@ == health_reply(),
{
    let mut members: Vec<(String, Json)> = Vec::new();
    put(&mut members, "success", Json::Bool(true));
    put(&mut members, "service", text("devin-auth1-bridge"));
    assert(members_view(members@) =~= health_reply()->Object_0);
    object(members)
}

/// Decides what is to be done with a request.
pub fn route(request: &HttpRequest) -> (r: Route)
    ensures
        r@ == route_of(request@),
{
    let origin = match request.headers.get("origin") {
        Some(value) => Some(value.clone()),
        None => None,
    };
    if !is_origin_allowed(as_text(&origin)) {
        return Route::Answer(
            Answer {
                status_code: 403,
                status_text: "Forbidden".to_owned(),
                reply: failure("Origin is not allowed"),
                origin: None,
            },
        );
    }
    if same_text(request.method.as_str(), "OPTIONS") {
        return Route::Preflight(origin);
    }
    if same_text(request.method.as_str(), "GET") && same_text(request.path.as_str(), "/health") {
        return Route::Answer(
            Answer { status_code: 200, status_text: "OK".to_owned(), reply: health(), origin },
        );
    }
    if !same_text(request.method.as_str(), "POST") || !same_text(
        request.path.as_str(),
        "/devin-auth1-token",
    ) {
        return Route::Answer(
            Answer {
                status_code: 404,
                status_text: "Not Found".to_owned(),
                reply: failure("Endpoint not found"),
                origin,
            },
        );
    }
    let marked = match request.headers.get("x-wam-extension") {
        Some(value) => same_text(value.as_str(), EXTENSION_HEADER),
        None => false,
    };
    if !marked {
        return Route::Answer(
            Answer {
                status_code: 403,
                status_text: "Forbidden".to_owned(),
                reply: failure("Extension header is missing"),
                origin,
            },
        );
    }
    Route::Payload(origin)
}

/// The body of a request to import an account.
pub struct DevinAuth1ImportRequest {
    pub auth1_token: Option<String>,
    pub token: Option<String>,
}

/// The view of the body of a request to import an account.
pub struct PayloadView {
    pub auth1_token: Option<Seq<char>>,
    pub token: Option<Seq<char>>,
}

impl View for DevinAuth1ImportRequest {
    type V = PayloadView;

    open spec fn view(&self) -> PayloadView {
        PayloadView { auth1_token: string_view(self.auth1_token), token: string_view(self.token) }
    }
}

/// The token that is to be imported: the first one given, without the white
/// space around it.
pub open spec fn token_of(payload: PayloadView) -> Seq<char> {
    trimmed(
        match payload.auth1_token {
            Some(t) => t,
            None => match payload.token {
                Some(t) => t,
                None => Seq::empty(),
            },
        },
    )
}

/// What is to be done with the body of a request to import.
pub enum PayloadStep {
    /// Give the request up, for that reason.
    Fail(String),
    /// Answer it.
    Answer(Answer),
    /// Import the account of that token.
    Import(String),
}

/// The view of what is to be done with the body of a request to import.
pub enum PayloadStepView {
    Fail(Seq<char>),
    Answer(AnswerView),
    Import(Seq<char>),
}

impl View for PayloadStep {
    type V = PayloadStepView;

    open spec fn view(&self) -> PayloadStepView {
        match self {
            PayloadStep::Fail(message) => PayloadStepView::Fail(message@),
            PayloadStep::Answer(answer) => PayloadStepView::Answer(answer@),
            PayloadStep::Import(token) => PayloadStepView::Import(token@),
        }
    }
}

/// What is to be done with a body that reads as `payload`, or that does not
/// read as one for the reason given.
pub open spec fn payload_step_of(
    payload: Result<PayloadView, Seq<char>>,
    origin: Option<Seq<char>>,
) -> PayloadStepView {
    match payload {
        Ok(payload) => if "auth1_"@.is_prefix_of(token_of(payload)) {
            PayloadStepView::Import(token_of(payload))
        } else {
            PayloadStepView::Answer(
                AnswerView {
                    status_code: 400,
                    status_text: "Bad Request"@,
                    reply: failure_reply("Invalid auth1 token"@),
                    origin,
                },
            )
        },
        Err(error) => PayloadStepView::Fail("invalid JSON payload: "@ + error),
    }
}

/// The view of a body that was read, or of the reason why it was not.
pub open spec fn payload_view(payload: Result<DevinAuth1ImportRequest, String>) -> Result<
    PayloadView,
    Seq<char>,
> {
    match payload {
        Ok(payload) => Ok(payload@),
        Err(error) => Err(error@),
    }
}

/// Decides what is to be done with the body of a request to import.
pub fn payload_step(
    payload: Result<DevinAuth1ImportRequest, String>,
    origin: Option<String>,
) -> (r: PayloadStep)
    ensures
        r@ == payload_step_of(payload_view(payload), string_view(origin)),
{
    let payload = match payload {
        Ok(payload) => payload,
        Err(error) => {
            let mut message = "invalid JSON payload: ".to_owned();
            message.append(error.as_str());
            return PayloadStep::Fail(message);
        },
    };
    let given = match payload.auth1_token {
        Some(t) => t,
        None => match payload.token {
            Some(t) => t,
            None => String::new(),
        },
    };
    let chars = to_chars(given.as_str());
    let token = from_chars(trim(chars.as_slice()));
    if !starts_with(token.as_str(), "auth1_") {
        return PayloadStep::Answer(
            Answer {
                status_code: 400,
                status_text: "Bad Request".to_owned(),
                reply: failure("Invalid auth1 token"),
                origin,
            },
        );
    }
    PayloadStep::Import(token)
}

/// How an import ended, in one word.
pub open spec fn import_status(value: JsonView) -> Seq<char> {
    if value.bool_at("already_exists"@) == Some(true) {
        "already_exists"@
    } else if value.bool_at("requires_org_selection"@) == Some(true) {
        "requires_org_selection"@
    } else if value.bool_at("success"@) == Some(true) {
        "imported"@
    } else {
        "error"@
    }
}

/// What is said of an import that ended so where nothing else is said.
pub open spec fn default_message(status: Seq<char>) -> Seq<char> {
    if status == "already_exists"@ {
        "Account already exists"@
    } else if status == "imported"@ {
        "Account imported"@
    } else if status == "requires_org_selection"@ {
        "Organization selection is required"@
    } else {
        "Import failed"@
    }
}

/// A text that may be missing, as JSON.
pub open spec fn text_or_null(s: Option<Seq<char>>) -> JsonView {
    match s {
        Some(s) => JsonView::Text(s),
        None => JsonView::Null,
    }
}

/// The reply to an import that ended in that way.
pub open spec fn import_reply(result: Result<JsonView, Seq<char>>) -> JsonView {
    match result {
        Ok(value) => JsonView::Object(
            seq![
                ("success"@, JsonView::Bool(value.bool_at("success"@) == Some(true))),
                ("status"@, JsonView::Text(import_status(value))),
                ("alreadyExists"@, JsonView::Bool(value.bool_at("already_exists"@) == Some(true))),
                (
                    "requiresOrgSelection"@,
                    JsonView::Bool(value.bool_at("requires_org_selection"@) == Some(true)),
                ),
                ("email"@, text_or_null(value.str_at("email"@))),
                (
                    "message"@,
                    JsonView::Text(
                        text_or(value.str_at("message"@), default_message(import_status(value))),
                    ),
                ),
            ],
        ),
        Err(error) => JsonView::Object(
            seq![
                ("success"@, JsonView::Bool(false)),
                ("status"@, JsonView::Text("error"@)),
                ("message"@, JsonView::Text(error)),
            ],
        ),
    }
}

/// Whether a member is there and true.
fn is_true(value: &Json, name: &str) -> (r: bool)
    ensures
        r == (value@.bool_at(name@) == Some(true)),
{
    match value.bool_at(name) {
        Some(b) => b,
        None => false,
    }
}

/// Makes the reply to an import.
pub fn import_result_to_response(result: Result<Json, String>) -> (r: Json)
    ensures
        r@ == import_reply(reply_view(result)),
{
    let ghost expected = import_reply(reply_view(result))->Object_0;
    let mut members: Vec<(String, Json)> = Vec::new();
    match result {
        Ok(value) => {
            let already_exists = is_true(&value, "already_exists");
            let requires_org_selection = is_true(&value, "requires_org_selection");
            let success = is_true(&value, "success");
            let email = match value.str_at("email") {
                Some(email) => text(email),
                None => Json::Null,
            };
            let (status, default) = if already_exists {
                ("already_exists", "Account already exists")
            } else if requires_org_selection {
                ("requires_org_selection", "Organization selection is required")
            } else if success {
                ("imported", "Account imported")
            } else {
                ("error", "Import failed")
            };
            proof {
                reveal_strlit("already_exists");
                reveal_strlit("requires_org_selection");
                reveal_strlit("imported");
                reveal_strlit("error");
                assert("already_exists"@.len() == 14);
                assert("requires_org_selection"@.len() == 22);
                assert("imported"@.len() == 8);
                assert("error"@.len() == 5);
                assert(default@ == default_message(status@));
            }
            let message = match value.str_at("message") {
                Some(message) => message,
                None => default,
            };
            put(&mut members, "success", Json::Bool(success));
            put(&mut members, "status", text(status));
            put(&mut members, "alreadyExists", Json::Bool(already_exists));
            put(&mut members, "requiresOrgSelection", Json::Bool(requires_org_selection));
            put(&mut members, "email", email);
            put(&mut members, "message", text(message));
        },
        Err(error) => {
            put(&mut members, "success", Json::Bool(false));
            put(&mut members, "status", text("error"));
            put(&mut members, "message", Json::Text(error));
        },
    }
    assert(members_view(members@) =~= expected);
    object(members)
}

/// What the application is told of an import.
pub struct DevinAuth1ImportEvent {
    pub success: bool,
    pub status: String,
    pub email: Option<String>,
    pub message: String,
}

/// The view of what the application is told of an import.
pub struct EventView {
    pub success: bool,
    pub status: Seq<char>,
    pub email: Option<Seq<char>>,
    pub message: Seq<char>,
}

impl View for DevinAuth1ImportEvent {
    type V = EventView;

    open spec fn view(&self) -> EventView {
        EventView {
            success: self.success,
            status: self.status@,
            email: string_view(self.email),
            message: self.message@,
        }
    }
}

/// What the application is told of an import that was answered with that
/// reply.
pub open spec fn event_of(reply: JsonView) -> EventView {
    EventView {
        success: reply.bool_at("success"@) == Some(true),
        status: text_or(reply.str_at("status"@), "error"@),
        email: reply.str_at("email"@),
        message: text_or(reply.str_at("message"@), "Import failed"@),
    }
}

/// Makes what the application is told of an import from the reply to it.
pub fn response_to_event(response: &Json) -> (r: DevinAuth1ImportEvent)
    ensures
        r@ == event_of(response@),
{
    let success = is_true(response, "success");
    let status = match response.str_at("status") {
        Some(s) => s,
        None => "error",
    };
    let email = match response.str_at("email") {
        Some(s) => Some(s.to_owned()),
        None => None,
    };
    let message = match response.str_at("message") {
        Some(s) => s,
        None => "Import failed",
    };
    DevinAuth1ImportEvent {
        success,
        status: status.to_owned(),
        email,
        message: message.to_owned(),
    }
}

/// What follows an import: the application is told, and the request is
/// answered.
pub fn import_step(result: Result<Json, String>, origin: Option<String>) -> (r: (
    DevinAuth1ImportEvent,
    Answer,
))
    ensures
        r.0@ == event_of(import_reply(reply_view(result))),
        r.1@ == (AnswerView {
            status_code: 200,
            status_text: "OK"@,
            reply: import_reply(reply_view(result)),
            origin: string_view(origin),
        }),
{
    let reply = import_result_to_response(result);
    let event = response_to_event(&reply);
    (event, Answer { status_code: 200, status_text: "OK".to_owned(), reply, origin })
}

/// The names of methods are all different.
proof fn lemma_methods_differ()
    ensures
        "POST"@ != "OPTIONS"@,
        "POST"@ != "GET"@,
{
    reveal_strlit("POST");
    reveal_strlit("OPTIONS");
    reveal_strlit("GET");
    assert("POST"@.len() == 4);
    assert("OPTIONS"@.len() == 7);
    assert("GET"@.len() == 3);
}

/// A request from an origin that is not allowed is refused, whatever it asks
/// for, and the refusal does not name its origin.
pub proof fn law_foreign_origin_is_refused(request: RequestView)
    requires
        !origin_allowed(header(request, "origin"@)),
    ensures
        route_of(request) == RouteView::Answer(
            AnswerView {
                status_code: 403,
                status_text: "Forbidden"@,
                reply: failure_reply("Origin is not allowed"@),
                origin: None,
            },
        ),
{
}

/// The body of a request is read only where its origin is allowed, it is
/// posted to the endpoint for tokens, and it carries the extension's mark.
pub proof fn law_payload_needs_every_check(request: RequestView)
    ensures
        route_of(request) is Payload <==> {
            &&& origin_allowed(header(request, "origin"@))
            &&& request.method == "POST"@
            &&& request.path == "/devin-auth1-token"@
            &&& header(request, "x-wam-extension"@) == Some(EXTENSION_HEADER@)
        },
{
    lemma_methods_differ();
}

/// Whatever is done with a request from an allowed origin is done for that
/// origin.
pub proof fn law_answers_go_to_the_asker(request: RequestView)
    requires
        origin_allowed(header(request, "origin"@)),
    ensures
        match route_of(request) {
            RouteView::Answer(answer) => answer.origin == header(request, "origin"@),
            RouteView::Preflight(origin) => origin == header(request, "origin"@),
            RouteView::Payload(origin) => origin == header(request, "origin"@),
        },
{
}

/// Only a token with the prefix of its kind is imported, and without white
/// space at its ends.
pub proof fn law_only_auth1_tokens_are_imported(
    payload: Result<PayloadView, Seq<char>>,
    origin: Option<Seq<char>>,
)
    ensures
        payload_step_of(payload, origin) matches PayloadStepView::Import(token) ==> {
            &&& payload is Ok
            &&& "auth1_"@.is_prefix_of(token)
            &&& token.len() > 0
            &&& !is_white_space(token.first())
            &&& !is_white_space(token.last())
        },
{
    reveal_strlit("auth1_");
    if let Ok(p) = payload {
        law_trimmed(
            match p.auth1_token {
                Some(t) => t,
                None => match p.token {
                    Some(t) => t,
                    None => Seq::empty(),
                },
            },
        );
    }
}

/// The names of the members of a reply to an import are all different.
proof fn lemma_members_differ()
    ensures
        "success"@ != "status"@,
        "success"@ != "email"@,
        "success"@ != "message"@,
        "success"@ != "alreadyExists"@,
        "success"@ != "requiresOrgSelection"@,
        "status"@ != "email"@,
        "status"@ != "message"@,
        "status"@ != "alreadyExists"@,
        "status"@ != "requiresOrgSelection"@,
        "email"@ != "message"@,
        "email"@ != "alreadyExists"@,
        "email"@ != "requiresOrgSelection"@,
        "message"@ != "alreadyExists"@,
        "message"@ != "requiresOrgSelection"@,
{
    reveal_strlit("success");
    reveal_strlit("status");
    reveal_strlit("email");
    reveal_strlit("message");
    reveal_strlit("alreadyExists");
    reveal_strlit("requiresOrgSelection");
    assert("success"@.len() == 7 && "success"@[0] == 's');
    assert("message"@.len() == 7 && "message"@[0] == 'm');
    assert("status"@.len() == 6);
    assert("email"@.len() == 5);
    assert("alreadyExists"@.len() == 13);
    assert("requiresOrgSelection"@.len() == 20);
}

/// The application is told of an import what the extension is told: whether it
/// succeeded, how it ended, the account's address where it is known, and the
/// message.
pub proof fn law_event_agrees_with_reply(result: Result<JsonView, Seq<char>>)
    ensures
        event_of(import_reply(result)) == (match result {
            Ok(value) => EventView {
                success: value.bool_at("success"@) == Some(true),
                status: import_status(value),
                email: value.str_at("email"@),
                message: text_or(value.str_at("message"@), default_message(import_status(value))),
            },
            Err(error) => EventView {
                success: false,
                status: "error"@,
                email: None,
                message: error,
            },
        }),
{
    lemma_members_differ();
    reveal_with_fuel(member, 7);
    let members = import_reply(result)->Object_0;
    let rest = members.drop_first();
    assert(rest.first() == members[1]);
    assert(rest.drop_first().first() == members[2]);
    if result is Ok {
        assert(rest.drop_first().drop_first().first() == members[3]);
        assert(rest.drop_first().drop_first().drop_first().first() == members[4]);
        assert(rest.drop_first().drop_first().drop_first().drop_first().first() == members[5]);
    }
}

/// An import is said to be one exactly where it succeeded, the account was not
/// there before and no choice of an organization is called for.
pub proof fn law_imported_means_success(value: JsonView)
    ensures
        import_status(value) == "imported"@ <==> {
            &&& value.bool_at("success"@) == Some(true)
            &&& value.bool_at("already_exists"@) != Some(true)
            &&& value.bool_at("requires_org_selection"@) != Some(true)
        },
{
    reveal_strlit("already_exists");
    reveal_strlit("requires_org_selection");
    reveal_strlit("imported");
    reveal_strlit("error");
    assert("already_exists"@.len() == 14);
    assert("requires_org_selection"@.len() == 22);
    assert("imported"@.len() == 8);
    assert("error"@.len() == 5);
}

/// Whether an answer fits on the lines of the head of a response.
pub open spec fn fits_the_head(answer: AnswerView) -> bool {
    one_line(answer.status_text) && one_line(allowed_origin(answer.origin))
}

/// The origin that a request names keeps to one line, and so does the sign for
/// any origin.
proof fn lemma_origin_line(head: Seq<char>, body: Seq<u8>)
    ensures
        one_line(allowed_origin(None)),
        request_of(head, body) matches Ok(request) ==> one_line(
            allowed_origin(header(request, "origin"@)),
        ),
{
    reveal_strlit("*");
    lemma_one_line("*"@);
    if let Ok(request) = request_of(head, body) {
        if request.headers.contains_key("origin"@) {
            law_header_values_keep_to_one_line(head, "origin"@);
        }
    }
}

/// What is written of a request into the head of the response to it cannot
/// break the head: whatever a request says, the answers to it fit on the lines
/// of the head.
pub proof fn law_answers_fit_the_head(head: Seq<char>, body: Seq<u8>)
    requires
        request_of(head, body) is Ok,
    ensures
        match route_of(request_of(head, body)->Ok_0) {
            RouteView::Answer(answer) => fits_the_head(answer),
            RouteView::Preflight(origin) => one_line(allowed_origin(origin)),
            RouteView::Payload(origin) => one_line(allowed_origin(origin)),
        },
{
    reveal_strlit("Forbidden");
    reveal_strlit("OK");
    reveal_strlit("Not Found");
    lemma_one_line("Forbidden"@);
    lemma_one_line("OK"@);
    lemma_one_line("Not Found"@);
    lemma_origin_line(head, body);
}

/// The answers to the body of a request, and to an import, fit on the lines of
/// the head where the origin that asked does.
pub proof fn law_payload_answers_fit_the_head(
    payload: Result<PayloadView, Seq<char>>,
    reply: JsonView,
    origin: Option<Seq<char>>,
)
    requires
        one_line(allowed_origin(origin)),
    ensures
        payload_step_of(payload, origin) matches PayloadStepView::Answer(answer) ==> fits_the_head(
            answer,
        ),
        fits_the_head(AnswerView { status_code: 200, status_text: "OK"@, reply, origin }),
{
    reveal_strlit("OK");
    reveal_strlit("Bad Request");
    lemma_one_line("OK"@);
    lemma_one_line("Bad Request"@);
}

/// The bridge tries five ports, in this order, and listens on this machine
/// only; and this is what it and the extension say of themselves.
pub proof fn law_names_and_numbers()
    ensures
        BRIDGE_PORTS@ == seq![19876u16, 19877u16, 19878u16, 19879u16, 19880u16],
        BRIDGE_ADDRESS@ == "127.0.0.1"@,
        EXTENSION_HEADER@ == "devin-auth1"@,
        READY_EVENT@ == "devin-extension-bridge-ready"@,
        IMPORTED_EVENT@ == "devin-auth1-token-imported"@,
{
}

/// Numbers are listed in base ten, each behind the others with a comma and a
/// space between.
pub proof fn law_listed(ports: Seq<u16>, port: u16)
    ensures
        listed(Seq::empty()) == Seq::<char>::empty(),
        listed(seq![port]) == decimal(port as nat),
        ports.len() > 0 ==> listed(ports.push(port)) == listed(ports) + ", "@ + decimal(
            port as nat,
        ),
{
    assert(ports.push(port).drop_last() == ports);
}

/// A request is allowed that names no origin, or one that starts as the origins
/// of extensions do; and no other.
pub proof fn law_allowed_origins(rest: Seq<char>, other: Seq<char>)
    ensures
        origin_allowed(None),
        origin_allowed(Some("chrome-extension://"@ + rest)),
        origin_allowed(Some(other)) ==> other.len() >= 19 && other.take(19)
            == "chrome-extension://"@,
{
    reveal_strlit("chrome-extension://");
    let all = "chrome-extension://"@ + rest;
    assert(all.subrange(0, 19) == "chrome-extension://"@);
}

/// What is done with a request, by what it says: refused for its origin, a
/// preflight request, the question for the health, refused for its endpoint,
/// refused for want of the extension's mark, or a body to be read; in this
/// order.
pub proof fn law_what_is_done_with_a_request(request: RequestView)
    ensures
        ({
            let named = request.headers.contains_key("origin"@);
            let origin = if named {
                Some(request.headers["origin"@])
            } else {
                None
            };
            let allowed = named ==> "chrome-extension://"@.is_prefix_of(
                request.headers["origin"@],
            );
            let health = request.method == "GET"@ && request.path == "/health"@;
            let import = request.method == "POST"@ && request.path == "/devin-auth1-token"@;
            let marked = request.headers.contains_key("x-wam-extension"@)
                && request.headers["x-wam-extension"@] == "devin-auth1"@;
            &&& !allowed ==> route_of(request) == RouteView::Answer(
                AnswerView {
                    status_code: 403,
                    status_text: "Forbidden"@,
                    reply: JsonView::Object(
                        seq![
                            ("success"@, JsonView::Bool(false)),
                            ("message"@, JsonView::Text("Origin is not allowed"@)),
                        ],
                    ),
                    origin: None,
                },
            )
            &&& allowed && request.method == "OPTIONS"@ ==> route_of(request)
                == RouteView::Preflight(origin)
            &&& allowed && health ==> route_of(request) == RouteView::Answer(
                AnswerView {
                    status_code: 200,
                    status_text: "OK"@,
                    reply: JsonView::Object(
                        seq![
                            ("success"@, JsonView::Bool(true)),
                            ("service"@, JsonView::Text("devin-auth1-bridge"@)),
                        ],
                    ),
                    origin,
                },
            )
            &&& allowed && request.method != "OPTIONS"@ && !health && !import ==> route_of(request)
                == RouteView::Answer(
                AnswerView {
                    status_code: 404,
                    status_text: "Not Found"@,
                    reply: JsonView::Object(
                        seq![
                            ("success"@, JsonView::Bool(false)),
                            ("message"@, JsonView::Text("Endpoint not found"@)),
                        ],
                    ),
                    origin,
                },
            )
            &&& allowed && import && !marked ==> route_of(request) == RouteView::Answer(
                AnswerView {
                    status_code: 403,
                    status_text: "Forbidden"@,
                    reply: JsonView::Object(
                        seq![
                            ("success"@, JsonView::Bool(false)),
                            ("message"@, JsonView::Text("Extension header is missing"@)),
                        ],
                    ),
                    origin,
                },
            )
            &&& allowed && import && marked ==> route_of(request) == RouteView::Payload(origin)
        }),
{
    lemma_methods_differ();
    reveal_strlit("GET");
    reveal_strlit("OPTIONS");
    assert("GET"@.len() == 3);
    assert("OPTIONS"@.len() == 7);
}

/// The token that is imported is a part of the text that was given, character
/// for character, and all else in that text is white space: the text under the
/// first name where there is one, else the one under the second.
pub proof fn law_token_is_part_of_the_text_given(
    payload: PayloadView,
    origin: Option<Seq<char>>,
    given: Seq<char>,
    token: Seq<char>,
)
    requires
        payload_step_of(Ok(payload), origin) == PayloadStepView::Import(token),
        payload.auth1_token == Some(given) || payload.auth1_token is None && payload.token == Some(
            given,
        ),
    ensures
        exists|from: int|
            {
                &&& 0 <= from
                &&& from + token.len() <= given.len()
                &&& #[trigger] given.subrange(from, from + token.len()) == token
                &&& forall|j: int| 0 <= j < from ==> is_white_space(#[trigger] given[j])
                &&& forall|j: int|
                    from + token.len() <= j < given.len() ==> is_white_space(#[trigger] given[j])
            },
{
    let from = trimmed_from(given);
    law_trimmed(given);
    assert(token == trimmed(given));
    assert(given.subrange(from, from + token.len()) == token);
}

/// What is done with a text that was given as a token, with white space around
/// it: it is imported unchanged where it starts as such tokens do, and refused
/// where it does not. The text under the first name counts where there is one,
/// and nothing at all is refused.
pub proof fn law_what_is_done_with_a_token(
    front: Seq<char>,
    token: Seq<char>,
    behind: Seq<char>,
    other: Option<Seq<char>>,
    origin: Option<Seq<char>>,
    error: Seq<char>,
)
    requires
        forall|j: int| 0 <= j < front.len() ==> is_white_space(#[trigger] front[j]),
        forall|j: int| 0 <= j < behind.len() ==> is_white_space(#[trigger] behind[j]),
        token.len() > 0 ==> !is_white_space(token.first()) && !is_white_space(token.last()),
    ensures
        ({
            let text = Some(front + token + behind);
            let first = PayloadView { auth1_token: text, token: other };
            let second = PayloadView { auth1_token: None, token: text };
            let neither = PayloadView { auth1_token: None, token: None };
            let refused = PayloadStepView::Answer(
                AnswerView {
                    status_code: 400,
                    status_text: "Bad Request"@,
                    reply: JsonView::Object(
                        seq![
                            ("success"@, JsonView::Bool(false)),
                            ("message"@, JsonView::Text("Invalid auth1 token"@)),
                        ],
                    ),
                    origin,
                },
            );
            let expected = if "auth1_"@.is_prefix_of(token) {
                PayloadStepView::Import(token)
            } else {
                refused
            };
            &&& payload_step_of(Ok(first), origin) == expected
            &&& payload_step_of(Ok(second), origin) == expected
            &&& payload_step_of(Ok(neither), origin) == refused
            &&& payload_step_of(Err(error), origin) == PayloadStepView::Fail(
                "invalid JSON payload: "@ + error,
            )
        }),
{
    reveal_strlit("auth1_");
    law_trims_white_space_only(front, token, behind);
    law_trimmed(Seq::empty());
}

/// How an import ended: the account was there before where that is said,
/// whatever else is said; else an organization has to be chosen where that is
/// said, whatever is said of success; else success tells whether it was
/// imported.
pub proof fn law_how_an_import_ended(value: JsonView)
    ensures
        ({
            let exists_already = value.get("already_exists"@) == Some(JsonView::Bool(true));
            let choose_one = value.get("requires_org_selection"@) == Some(JsonView::Bool(true));
            let success = value.get("success"@) == Some(JsonView::Bool(true));
            &&& import_status(value) == "already_exists"@ <==> exists_already
            &&& import_status(value) == "requires_org_selection"@ <==> choose_one
                && !exists_already
            &&& import_status(value) == "imported"@ <==> success && !exists_already && !choose_one
            &&& import_status(value) == "error"@ <==> !exists_already && !choose_one && !success
        }),
{
    law_imported_means_success(value);
    reveal_strlit("already_exists");
    reveal_strlit("requires_org_selection");
    reveal_strlit("imported");
    reveal_strlit("error");
    assert("already_exists"@.len() == 14);
    assert("requires_org_selection"@.len() == 22);
    assert("imported"@.len() == 8);
    assert("error"@.len() == 5);
}

/// What the extension is told of an import that ended: the three flags as they
/// were given, the status, the address where there is one, and the message that
/// was given.
pub proof fn law_what_is_told_of_an_import(value: JsonView, email: Seq<char>, message: Seq<char>)
    ensures
        ({
            let told = import_reply(Ok(value))->Object_0;
            &&& import_reply(Ok(value)) is Object
            &&& told.len() == 6
            &&& told.contains(
                (
                    "success"@,
                    JsonView::Bool(value.get("success"@) == Some(JsonView::Bool(true))),
                ),
            )
            &&& told.contains(
                (
                    "alreadyExists"@,
                    JsonView::Bool(value.get("already_exists"@) == Some(JsonView::Bool(true))),
                ),
            )
            &&& told.contains(
                (
                    "requiresOrgSelection"@,
                    JsonView::Bool(
                        value.get("requires_org_selection"@) == Some(JsonView::Bool(true)),
                    ),
                ),
            )
            &&& told.contains(("status"@, JsonView::Text(import_status(value))))
            &&& value.get("email"@) == Some(JsonView::Text(email)) ==> told.contains(
                ("email"@, JsonView::Text(email)),
            )
            &&& !(value.get("email"@) matches Some(JsonView::Text(_))) ==> told.contains(
                ("email"@, JsonView::Null),
            )
            &&& value.get("message"@) == Some(JsonView::Text(message)) ==> told.contains(
                ("message"@, JsonView::Text(message)),
            )
        }),
{
    let told = import_reply(Ok(value))->Object_0;
    assert(told[0].0 == "success"@);
    assert(told[1].0 == "status"@);
    assert(told[2].0 == "alreadyExists"@);
    assert(told[3].0 == "requiresOrgSelection"@);
    assert(told[4].0 == "email"@);
    assert(told[5].0 == "message"@);
}

/// Where an import gave no message, one is told that says how it ended.
pub proof fn law_message_of_an_import(value: JsonView)
    requires
        !(value.get("message"@) matches Some(JsonView::Text(_))),
    ensures
        ({
            let told = import_reply(Ok(value))->Object_0;
            let exists_already = value.get("already_exists"@) == Some(JsonView::Bool(true));
            let choose_one = value.get("requires_org_selection"@) == Some(JsonView::Bool(true));
            let success = value.get("success"@) == Some(JsonView::Bool(true));
            &&& exists_already ==> told.contains(
                ("message"@, JsonView::Text("Account already exists"@)),
            )
            &&& choose_one && !exists_already ==> told.contains(
                ("message"@, JsonView::Text("Organization selection is required"@)),
            )
            &&& success && !exists_already && !choose_one ==> told.contains(
                ("message"@, JsonView::Text("Account imported"@)),
            )
            &&& !exists_already && !choose_one && !success ==> told.contains(
                ("message"@, JsonView::Text("Import failed"@)),
            )
        }),
{
    law_how_an_import_ended(value);
    reveal_strlit("already_exists");
    reveal_strlit("requires_org_selection");
    reveal_strlit("imported");
    reveal_strlit("error");
    assert("already_exists"@.len() == 14);
    assert("requires_org_selection"@.len() == 22);
    assert("imported"@.len() == 8);
    assert("error"@.len() == 5);
    let told = import_reply(Ok(value))->Object_0;
    assert(told[5].0 == "message"@);
}

/// What the extension is told of an import that could not be tried: no success,
/// an error, and the reason as its message.
pub proof fn law_what_is_told_of_a_failure(error: Seq<char>)
    ensures
        import_reply(Err(error)) is Object,
        import_reply(Err(error))->Object_0.len() == 3,
        import_reply(Err(error))->Object_0.contains(("success"@, JsonView::Bool(false))),
        import_reply(Err(error))->Object_0.contains(("status"@, JsonView::Text("error"@))),
        import_reply(Err(error))->Object_0.contains(("message"@, JsonView::Text(error))),
{
    let told = import_reply(Err(error))->Object_0;
    assert(told[0].0 == "success"@);
    assert(told[1].0 == "status"@);
    assert(told[2].0 == "message"@);
}

/// The application is told what an answer says: its success where that is true,
/// and its status, address and message where they are texts; else that there
/// was an error, no address, and that the import failed.
pub proof fn law_what_the_application_is_told(
    reply: JsonView,
    status: Seq<char>,
    email: Seq<char>,
    message: Seq<char>,
)
    ensures
        event_of(reply).success <==> reply.get("success"@) == Some(JsonView::Bool(true)),
        reply.get("status"@) == Some(JsonView::Text(status)) ==> event_of(reply).status == status,
        !(reply.get("status"@) matches Some(JsonView::Text(_))) ==> event_of(reply).status
            == "error"@,
        reply.get("email"@) == Some(JsonView::Text(email)) <==> event_of(reply).email == Some(
            email,
        ),
        reply.get("message"@) == Some(JsonView::Text(message)) ==> event_of(reply).message
            == message,
        !(reply.get("message"@) matches Some(JsonView::Text(_))) ==> event_of(reply).message
            == "Import failed"@,
{
}

/// The views of answers, of bodies and of events are these, field by field.
pub proof fn law_views_are_the_values(
    answer: Answer,
    payload: DevinAuth1ImportRequest,
    event: DevinAuth1ImportEvent,
    s: String,
)
    ensures
        answer@.status_code == answer.status_code,
        answer@.status_text == answer.status_text@,
        answer@.reply == answer.reply@,
        answer.origin matches Some(o) ==> answer@.origin == Some(o@),
        answer.origin is None ==> answer@.origin is None,
        payload.auth1_token matches Some(t) ==> payload@.auth1_token == Some(t@),
        payload.auth1_token is None ==> payload@.auth1_token is None,
        payload.token matches Some(t) ==> payload@.token == Some(t@),
        payload.token is None ==> payload@.token is None,
        payload_view(Ok(payload)) == Ok::<PayloadView, Seq<char>>(payload@),
        payload_view(Err(s)) == Err::<PayloadView, Seq<char>>(s@),
        event@.success == event.success,
        event@.status == event.status@,
        event.email matches Some(e) ==> event@.email == Some(e@),
        event.email is None ==> event@.email is None,
        event@.message == event.message@,
        Route::Answer(answer)@ == RouteView::Answer(answer@),
        Route::Preflight(Some(s))@ == RouteView::Preflight(Some(s@)),
        Route::Preflight(None)@ == RouteView::Preflight(None),
        Route::Payload(Some(s))@ == RouteView::Payload(Some(s@)),
        Route::Payload(None)@ == RouteView::Payload(None),
        PayloadStep::Fail(s)@ == PayloadStepView::Fail(s@),
        PayloadStep::Answer(answer)@ == PayloadStepView::Answer(answer@),
        PayloadStep::Import(s)@ == PayloadStepView::Import(s@),
{
}

} // verus!
