use account_bridge::bridge::{
    bridge_port, import_result_to_response, import_step, is_origin_allowed, payload_step,
    ports_unavailable, response_to_event, route, DevinAuth1ImportRequest, PayloadStep, Route,
};
use account_bridge::exchange::{Exchange, ExchangeEvent};
use account_bridge::http::{find_header_end, parse_header_text, request_from_text, HttpRequest};
use account_bridge::json::Json;
use account_bridge::reply::{frame_json_response, json_response, options_response};
use account_bridge::report::report_ready;
use account_bridge::value::{json_to_vec, Decimal};

const ORIGIN: &str = "chrome-extension://abc";

fn request(head: &str) -> HttpRequest {
    request_from_text(head, b"{}".to_vec()).ok().unwrap()
}

fn number(n: f64) -> Json {
    Json::Decimal(Decimal::new(serde_json::Value::from(n)).unwrap())
}

fn text(s: &str) -> Json {
    Json::Text(s.to_string())
}

fn object(members: Vec<(&str, Json)>) -> Json {
    Json::Object(members.into_iter().map(|(name, value)| (name.to_string(), value)).collect())
}

fn payload(auth1_token: Option<&str>, token: Option<&str>) -> DevinAuth1ImportRequest {
    DevinAuth1ImportRequest {
        auth1_token: auth1_token.map(|t| t.to_string()),
        token: token.map(|t| t.to_string()),
    }
}

fn sent(state: Exchange) -> (String, String) {
    match state {
        Exchange::Send(response) => (response.head, String::from_utf8(response.body).unwrap()),
        _ => panic!("nothing to send"),
    }
}

fn failed(state: Exchange) -> String {
    match state {
        Exchange::Finished(Err(message)) => message,
        _ => panic!("no failure"),
    }
}

fn chunk(bytes: &[u8]) -> ExchangeEvent {
    ExchangeEvent::Chunk(Ok(bytes.to_vec()))
}

#[test]
fn ports_are_tried_in_order() {
    let tried: Vec<Option<u16>> = (0..6).map(bridge_port).collect();
    assert_eq!(
        tried,
        [Some(19876), Some(19877), Some(19878), Some(19879), Some(19880), None]
    );
    assert_eq!(
        ports_unavailable(),
        "ports [19876, 19877, 19878, 19879, 19880] are unavailable"
    );
}

#[test]
fn readiness_names_the_ports() {
    match report_ready(19877) {
        Json::Object(members) => {
            assert_eq!(members.len(), 2);
            assert_eq!(members[0].0, "port");
            assert!(matches!(members[0].1, Json::Unsigned(19877)));
            assert_eq!(members[1].0, "ports");
            match &members[1].1 {
                Json::Array(ports) => {
                    assert_eq!(ports.len(), 5);
                    assert!(matches!(ports[0], Json::Unsigned(19876)));
                    assert!(matches!(ports[4], Json::Unsigned(19880)));
                }
                _ => panic!("no array"),
            }
        }
        _ => panic!("no object"),
    }
}

#[test]
fn origins() {
    assert!(is_origin_allowed(None));
    assert!(is_origin_allowed(Some(ORIGIN)));
    assert!(!is_origin_allowed(Some("https://example.com")));
    assert!(!is_origin_allowed(Some("Chrome-extension://abc")));
    assert!(!is_origin_allowed(Some("")));
}

#[test]
fn a_foreign_origin_is_refused_whatever_it_asks() {
    for line in ["OPTIONS /", "GET /health", "POST /devin-auth1-token", "PUT /x"] {
        let asked = request(&format!("{} HTTP/1.1\r\nOrigin: https://evil.example\r\n", line));
        match route(&asked) {
            Route::Answer(answer) => {
                assert_eq!(answer.status_code, 403);
                assert_eq!(answer.status_text, "Forbidden");
                assert!(answer.origin.is_none());
                assert_eq!(answer.reply.bool_at("success"), Some(false));
                assert_eq!(answer.reply.str_at("message"), Some("Origin is not allowed"));
            }
            _ => panic!("not refused"),
        }
    }
}

#[test]
fn a_preflight_request_is_answered() {
    match route(&request(&format!("OPTIONS /any HTTP/1.1\r\nOrigin: {}\r\n", ORIGIN))) {
        Route::Preflight(origin) => assert_eq!(origin.unwrap(), ORIGIN),
        _ => panic!("no preflight"),
    }
}

#[test]
fn the_health_endpoint() {
    match route(&request("GET /health?now HTTP/1.1\r\n")) {
        Route::Answer(answer) => {
            assert_eq!(answer.status_code, 200);
            assert_eq!(answer.status_text, "OK");
            assert!(answer.origin.is_none());
            assert_eq!(answer.reply.bool_at("success"), Some(true));
            assert_eq!(answer.reply.str_at("service"), Some("devin-auth1-bridge"));
            assert_eq!(answer.reply.str_at("message"), None);
        }
        _ => panic!("no answer"),
    }
}

#[test]
fn unknown_endpoints_are_not_found() {
    for line in ["GET /", "POST /health", "POST /devin-auth1-token/", "get /health"] {
        match route(&request(&format!("{} HTTP/1.1\r\nOrigin: {}\r\n", line, ORIGIN))) {
            Route::Answer(answer) => {
                assert_eq!(answer.status_code, 404);
                assert_eq!(answer.status_text, "Not Found");
                assert_eq!(answer.origin.as_deref(), Some(ORIGIN));
                assert_eq!(answer.reply.str_at("message"), Some("Endpoint not found"));
            }
            _ => panic!("found"),
        }
    }
}

#[test]
fn the_extension_has_to_show_itself() {
    for mark in ["", "X-WAM-Extension: other\r\n", "X-WAM-Extension: DEVIN-AUTH1\r\n"] {
        match route(&request(&format!("POST /devin-auth1-token HTTP/1.1\r\n{}", mark))) {
            Route::Answer(answer) => {
                assert_eq!(answer.status_code, 403);
                assert_eq!(answer.reply.str_at("message"), Some("Extension header is missing"));
            }
            _ => panic!("let through"),
        }
    }
    let marked = "POST /devin-auth1-token HTTP/1.1\r\nx-wam-extension: devin-auth1\r\n";
    assert!(matches!(route(&request(marked)), Route::Payload(None)));
}

#[test]
fn the_token_of_a_payload() {
    let cases = [
        (payload(Some(" auth1_a "), Some("auth1_b")), Some("auth1_a")),
        (payload(None, Some("\tauth1_b\n")), Some("auth1_b")),
        (payload(Some("auth1_"), None), Some("auth1_")),
        (payload(Some(""), Some("auth1_b")), None),
        (payload(Some("xauth1_"), None), None),
        (payload(None, None), None),
    ];
    for (given, expected) in cases {
        match payload_step(Ok(given), Some(ORIGIN.to_string())) {
            PayloadStep::Import(token) => assert_eq!(Some(token.as_str()), expected),
            PayloadStep::Answer(answer) => {
                assert!(expected.is_none());
                assert_eq!(answer.status_code, 400);
                assert_eq!(answer.status_text, "Bad Request");
                assert_eq!(answer.origin.as_deref(), Some(ORIGIN));
                assert_eq!(answer.reply.str_at("message"), Some("Invalid auth1 token"));
            }
            PayloadStep::Fail(_) => panic!("failed"),
        }
    }
}

#[test]
fn a_payload_that_is_no_json_fails() {
    match payload_step(Err("EOF at line 1".to_string()), None) {
        PayloadStep::Fail(message) => assert_eq!(message, "invalid JSON payload: EOF at line 1"),
        _ => panic!("not failed"),
    }
}

#[test]
fn statuses_and_messages_of_imports() {
    let cases = [
        (true, true, true, "already_exists", "Account already exists"),
        (false, true, true, "requires_org_selection", "Organization selection is required"),
        (false, false, true, "imported", "Account imported"),
        (false, false, false, "error", "Import failed"),
    ];
    for (exists, organization, success, status, message) in cases {
        let reply = import_result_to_response(Ok(object(vec![
            ("already_exists", Json::Bool(exists)),
            ("requires_org_selection", Json::Bool(organization)),
            ("success", Json::Bool(success)),
        ])));
        assert_eq!(reply.bool_at("success"), Some(success));
        assert_eq!(reply.bool_at("alreadyExists"), Some(exists));
        assert_eq!(reply.bool_at("requiresOrgSelection"), Some(organization));
        assert_eq!(reply.str_at("status"), Some(status));
        assert_eq!(reply.str_at("message"), Some(message));
        assert!(matches!(reply.get("email"), Some(Json::Null)));
    }
}

#[test]
fn an_import_tells_its_own_message() {
    let value = object(vec![
        ("success", Json::Bool(true)),
        ("email", text("a@b.c")),
        ("message", text("done")),
        ("already_exists", text("true")),
    ]);
    let reply = import_result_to_response(Ok(value));
    assert_eq!(reply.str_at("status"), Some("imported"));
    assert_eq!(reply.str_at("email"), Some("a@b.c"));
    assert_eq!(reply.str_at("message"), Some("done"));
    assert_eq!(reply.bool_at("alreadyExists"), Some(false));
}

#[test]
fn a_failed_import() {
    let reply = import_result_to_response(Err("no such token".to_string()));
    assert_eq!(reply.bool_at("success"), Some(false));
    assert_eq!(reply.str_at("status"), Some("error"));
    assert_eq!(reply.str_at("message"), Some("no such token"));
    assert!(reply.get("email").is_none());
    assert!(reply.get("alreadyExists").is_none());
}

#[test]
fn the_event_agrees_with_the_reply() {
    let (event, answer) = import_step(
        Ok(object(vec![("success", Json::Bool(true)), ("email", text("a@b.c"))])),
        Some(ORIGIN.to_string()),
    );
    assert!(event.success);
    assert_eq!(event.status, "imported");
    assert_eq!(event.email.as_deref(), Some("a@b.c"));
    assert_eq!(event.message, "Account imported");
    assert_eq!(answer.status_code, 200);
    assert_eq!(answer.origin.as_deref(), Some(ORIGIN));
    let (event, _) = import_step(Err("broken".to_string()), None);
    assert!(!event.success);
    assert_eq!(event.status, "error");
    assert_eq!(event.email, None);
    assert_eq!(event.message, "broken");
}

#[test]
fn an_event_of_any_reply() {
    let others = [
        Json::Null,
        text("success"),
        Json::Array(vec![Json::Bool(true)]),
        object(vec![]),
        object(vec![
            ("success", Json::Unsigned(1)),
            ("status", Json::Null),
            ("email", Json::Array(vec![text("a@b.c")])),
            ("message", object(vec![("message", text("m"))])),
        ]),
        object(vec![
            ("success", text("true")),
            ("status", Json::Signed(-1)),
            ("email", Json::Bool(true)),
            ("message", number(1.5)),
        ]),
    ];
    for reply in others {
        let event = response_to_event(&reply);
        assert!(!event.success);
        assert_eq!(event.status, "error");
        assert_eq!(event.email, None);
        assert_eq!(event.message, "Import failed");
    }
    let event = response_to_event(&object(vec![
        ("message", text("m")),
        ("email", text("a@b.c")),
        ("status", text("s")),
        ("success", Json::Bool(true)),
        ("more", Json::Unsigned(2)),
    ]));
    assert!(event.success);
    assert_eq!(event.status, "s");
    assert_eq!(event.email.as_deref(), Some("a@b.c"));
    assert_eq!(event.message, "m");
}

fn written(value: Json) -> String {
    String::from_utf8(json_to_vec(&value).unwrap()).unwrap()
}

#[test]
fn any_value_is_written_as_json() {
    assert_eq!(written(Json::Null), "null");
    assert_eq!(written(Json::Bool(true)), "true");
    assert_eq!(written(Json::Unsigned(u64::MAX)), "18446744073709551615");
    assert_eq!(written(Json::Signed(7)), "7");
    assert_eq!(written(Json::Signed(i64::MIN)), "-9223372036854775808");
    assert_eq!(written(number(1.5)), "1.5");
    for n in [0.1, -0.0, 1.0, 1e300, 5e-324, 0.30000000000000004, 123456789.12345679] {
        assert_eq!(written(number(n)), serde_json::Value::from(n).to_string());
    }
    assert_eq!(written(text("a \"b\"\n")), "\"a \\\"b\\\"\\n\"");
    assert_eq!(written(Json::Array(vec![])), "[]");
    let list = Json::Array(vec![Json::Unsigned(0), Json::Array(vec![text("x")])]);
    assert_eq!(written(list), "[0,[\"x\"]]");
    assert_eq!(written(object(vec![])), "{}");
    let nested = object(vec![
        ("success", Json::Bool(false)),
        ("email", Json::Null),
        ("items", Json::Array(vec![object(vec![("n", Json::Signed(-2))])])),
        ("success", Json::Bool(true)),
    ]);
    assert_eq!(written(nested), "{\"email\":null,\"items\":[{\"n\":-2}],\"success\":false}");
}

#[test]
fn numbers_that_are_not_whole() {
    let number = Decimal::new(serde_json::Value::from(2.5)).unwrap();
    assert_eq!(number.to_value(), serde_json::Value::from(2.5));
    for other in [
        serde_json::Value::Null,
        serde_json::Value::from(2),
        serde_json::Value::from(-2),
        serde_json::Value::from(u64::MAX),
        serde_json::Value::from("2.5"),
        serde_json::Value::from(vec![2.5]),
    ] {
        assert_eq!(Decimal::new(other.clone()).err(), Some(other));
    }
}

#[test]
fn the_arguments_of_an_import() {
    let state = Exchange::Import { token: "auth1_t".to_string(), origin: None };
    let arguments = state.import_arguments().unwrap();
    assert_eq!(arguments.0, "auth1_t");
    assert_eq!((arguments.1, arguments.2, arguments.4), (None, None, None));
    assert!(arguments.3.is_empty());
    assert_eq!(arguments.5, Some(true));
    assert!(arguments.6);
    assert!(Exchange::start().import_arguments().is_none());
}

#[test]
fn a_json_response_is_framed() {
    let response = frame_json_response(404, "Not Found", b"{}".to_vec(), None);
    assert_eq!(
        response.head,
        "HTTP/1.1 404 Not Found\r\nContent-Type: application/json; charset=utf-8\r\n\
Content-Length: 2\r\nAccess-Control-Allow-Origin: *\r\nVary: Origin\r\nConnection: close\r\n\r\n"
    );
    assert_eq!(response.body, b"{}");
    let reply = object(vec![("success", Json::Bool(true))]);
    let response = json_response(200, "OK", &reply, Some(ORIGIN)).unwrap();
    assert_eq!(response.body, b"{\"success\":true}");
    let headers = parse_header_text(&response.head);
    assert_eq!(headers.get("content-length").unwrap(), "16");
    assert_eq!(headers.get("access-control-allow-origin").unwrap(), ORIGIN);
    assert_eq!(headers.get("content-type").unwrap(), "application/json; charset=utf-8");
    assert_eq!(headers.get("vary").unwrap(), "Origin");
    assert_eq!(headers.get("connection").unwrap(), "close");
}

#[test]
fn the_preflight_response() {
    let response = options_response(Some(ORIGIN));
    assert_eq!(
        response.head,
        "HTTP/1.1 204 No Content\r\nAccess-Control-Allow-Origin: chrome-extension://abc\r\n\
Access-Control-Allow-Methods: POST, OPTIONS\r\n\
Access-Control-Allow-Headers: Content-Type, X-WAM-Extension\r\n\
Access-Control-Max-Age: 600\r\nVary: Origin\r\nConnection: close\r\nContent-Length: 0\r\n\r\n"
    );
    assert!(response.body.is_empty());
    assert_eq!(find_header_end(response.head.as_bytes()), Some(response.head.len()));
    let headers = parse_header_text(&response.head);
    for (name, value) in [
        ("access-control-allow-origin", ORIGIN),
        ("access-control-allow-methods", "POST, OPTIONS"),
        ("access-control-allow-headers", "Content-Type, X-WAM-Extension"),
        ("access-control-max-age", "600"),
        ("vary", "Origin"),
        ("connection", "close"),
        ("content-length", "0"),
    ] {
        assert_eq!(headers.get(name).unwrap(), value);
    }
    assert!(options_response(None).head.contains("Access-Control-Allow-Origin: *\r\n"));
}

#[test]
fn an_exchange_that_imports() {
    let state = Exchange::start().step(chunk(b"POST /devin-auth1-token HTTP/1.1\r\nOrigin: "));
    let state = state.step(chunk(
        b"chrome-extension://abc\r\nX-WAM-Extension: devin-auth1\r\nContent-Length: 2\r\n\r\n{}",
    ));
    match &state {
        Exchange::ParsePayload { body, origin } => {
            assert_eq!(body, b"{}");
            assert_eq!(origin.as_deref(), Some(ORIGIN));
        }
        _ => panic!("no payload"),
    }
    let state = state.step(ExchangeEvent::Parsed(Ok(payload(Some("auth1_t"), None))));
    match &state {
        Exchange::Import { token, .. } => assert_eq!(token, "auth1_t"),
        _ => panic!("no import"),
    }
    let state = state.step(ExchangeEvent::Imported(Ok(object(vec![("success", Json::Bool(true))]))));
    match &state {
        Exchange::Emit { event, .. } => assert_eq!(event.status, "imported"),
        _ => panic!("nothing told"),
    }
    let state = state.step(ExchangeEvent::Emitted);
    match &state {
        Exchange::Send(response) => {
            assert!(response.head.starts_with("HTTP/1.1 200 OK\r\n"));
            assert_eq!(
                String::from_utf8(response.body.clone()).unwrap(),
                "{\"alreadyExists\":false,\"email\":null,\"message\":\"Account imported\",\
\"requiresOrgSelection\":false,\"status\":\"imported\",\"success\":true}"
            );
        }
        _ => panic!("nothing sent"),
    }
    assert!(matches!(state.step(ExchangeEvent::Sent(Ok(()))), Exchange::Finished(Ok(()))));
}

#[test]
fn an_exchange_that_refuses() {
    let (head, body) =
        sent(Exchange::start().step(chunk(b"GET /health H\r\nOrigin: http://x\r\n\r\n")));
    assert!(head.starts_with("HTTP/1.1 403 Forbidden\r\n"));
    assert!(head.contains("Access-Control-Allow-Origin: *\r\n"));
    assert_eq!(body, "{\"message\":\"Origin is not allowed\",\"success\":false}");
    let (head, body) = sent(Exchange::start().step(chunk(b"OPTIONS / H\r\n\r\n")));
    assert!(head.starts_with("HTTP/1.1 204 No Content\r\n"));
    assert_eq!(body, "");
}

#[test]
fn an_exchange_that_fails() {
    assert_eq!(failed(Exchange::start().step(ExchangeEvent::TimedOut)), "request timed out");
    assert_eq!(failed(Exchange::start().step(chunk(b""))), "incomplete HTTP request");
    let broken = ExchangeEvent::Chunk(Err("reset".to_string()));
    assert_eq!(failed(Exchange::start().step(broken)), "reset");
    let marked = b"POST /devin-auth1-token H\r\nX-WAM-Extension: devin-auth1\r\n\r\n";
    let state = Exchange::start().step(chunk(marked));
    let state = state.step(ExchangeEvent::Parsed(Err("bad".to_string())));
    assert_eq!(failed(state), "invalid JSON payload: bad");
}

#[test]
fn an_exchange_heeds_only_what_it_expects() {
    let state = Exchange::start().step(ExchangeEvent::Emitted);
    assert!(matches!(state, Exchange::Read(_)));
    let state = Exchange::Finished(Ok(())).step(ExchangeEvent::TimedOut);
    assert!(matches!(state, Exchange::Finished(Ok(()))));
}

#[test]
fn whatever_a_request_says_the_response_is_well_framed() {
    let origins = [
        "",
        "Origin: chrome-extension://abc\r\n",
        "Origin: chrome-extension://\u{e9}\rX-Y: z\r\n",
        "Origin: chrome-extension://a\nb\r\n",
        "Origin: http://x\r\n",
    ];
    for origin in origins {
        for line in ["GET /health", "OPTIONS /", "POST /other", "POST /devin-auth1-token"] {
            let asked = format!("{} HTTP/1.1\r\n{}\r\n", line, origin);
            let (head, body) = sent(Exchange::start().step(chunk(asked.as_bytes())));
            assert_eq!(head.find("\r\n\r\n"), Some(head.len() - 4));
            let bytes = [head.as_bytes(), body.as_bytes()].concat();
            assert_eq!(find_header_end(&bytes), Some(head.len()));
            let declared = parse_header_text(&head).get("content-length").unwrap().clone();
            assert_eq!(declared, body.len().to_string());
        }
    }
}

#[test]
fn a_token_of_another_kind_is_refused() {
    let marked = b"POST /devin-auth1-token H\r\nX-WAM-Extension: devin-auth1\r\n\r\n";
    let state = Exchange::start().step(chunk(marked));
    let state = state.step(ExchangeEvent::Parsed(Ok(payload(Some("sk-1"), None))));
    let (head, body) = sent(state);
    assert!(head.starts_with("HTTP/1.1 400 Bad Request\r\n"));
    assert_eq!(body, "{\"message\":\"Invalid auth1 token\",\"success\":false}");
}

#[test]
fn a_response_that_cannot_be_sent_fails_the_exchange() {
    let state = Exchange::start().step(chunk(b"GET /health H\r\n\r\n"));
    let state = state.step(ExchangeEvent::Sent(Err("broken pipe".to_string())));
    assert_eq!(failed(state), "broken pipe");
}
