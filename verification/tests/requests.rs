use mcd_cli::args::{
    mall_orders_args, menu_args, nearby_args, order_create_args, resolve_token, single_text_args, OrderOptions,
};
use mcd_cli::json::Json;
use mcd_cli::rpc::{
    bearer, call_tool_params, client_info, connected_report, data_of, initialize_params, jsonrpc_request,
    http_error, http_ok, response_outcome, structured_payload, success_json_text, tool_text, ClientInfo, InitializeResult, RequestIds,
    RpcError, ToolContent,
};
use mcd_cli::text::{text_lines, trimmed};

fn dump(j: &Json) -> String {
    match j {
        Json::Null => "null".to_string(),
        Json::Bool(b) => b.to_string(),
        Json::Int(i) => i.to_string(),
        Json::UInt(u) => u.to_string(),
        Json::Float(f) => f.clone(),
        Json::Str(s) => format!("{:?}", s),
        Json::Array(a) => format!("[{}]", a.iter().map(dump).collect::<Vec<_>>().join(",")),
        Json::Object(es) => format!("{{{}}}", es.iter().map(|(k, v)| format!("{:?}:{}", k, dump(v))).collect::<Vec<_>>().join(",")),
    }
}

#[test]
fn tool_arguments() {
    assert_eq!(dump(&nearby_args(1, 2, Some("北京"), None)), "{\"beType\":1,\"searchType\":2,\"city\":\"北京\"}");
    assert_eq!(
        dump(&menu_args("S1", None, 1, 1, Some("2025-01-01 12:00"))),
        "{\"storeCode\":\"S1\",\"orderType\":1,\"beType\":1,\"reservationDate\":\"2025-01-01 12:00\"}"
    );
    assert_eq!(dump(&mall_orders_args(None, 10)), "{\"size\":10}");
    assert_eq!(dump(&single_text_args("orderId", "O1")), "{\"orderId\":\"O1\"}");
    let o = OrderOptions {
        be: Some("B"),
        address: None,
        take_way: Some("1"),
        reservation_date: None,
        coupon_id: None,
        coupon_code: None,
        gm_service_code: None,
    };
    assert_eq!(
        dump(&order_create_args("S", Json::Array(Vec::new()), 1, 1, &o)),
        "{\"storeCode\":\"S\",\"items\":[],\"orderType\":1,\"beType\":1,\"beCode\":\"B\",\"takeWayCode\":\"1\"}"
    );
}

#[test]
fn token_precedence() {
    let t = |x: &str| Some(x.to_string());
    assert_eq!(resolve_token(t("cli"), t("env"), t("cfg")), t("cli"));
    assert_eq!(resolve_token(None, t("env"), t("cfg")), t("env"));
    assert_eq!(resolve_token(None, None, t("cfg")), t("cfg"));
    assert_eq!(resolve_token(None, None, None), None);
}

#[test]
fn jsonrpc_bodies() {
    let mut ids = RequestIds::new();
    assert_eq!(ids.next_id(), 1);
    assert_eq!(ids.next_id(), 2);
    let mut last = RequestIds { next: u64::MAX };
    assert_eq!(last.next_id(), u64::MAX);
    assert_eq!(last.next, 0);
    let body = jsonrpc_request(3, "tools/call", call_tool_params("now-time-info", Json::Object(Vec::new())));
    assert_eq!(
        dump(&body),
        "{\"jsonrpc\":\"2.0\",\"id\":3,\"method\":\"tools/call\",\"params\":{\"name\":\"now-time-info\",\"arguments\":{}}}"
    );
    let init = initialize_params(&client_info("0.1.0"));
    assert_eq!(
        dump(&init),
        "{\"protocolVersion\":\"2025-06-18\",\"capabilities\":{},\"clientInfo\":{\"name\":\"mcd-cli\",\"version\":\"0.1.0\"}}"
    );
    assert_eq!(bearer("abc"), "Bearer abc");
}

#[test]
fn responses_and_tool_results() {
    assert!(matches!(response_outcome(Some(1), None), Ok(1)));
    let e = response_outcome::<i32>(Some(1), Some((-32601, "no".to_string()))).unwrap_err();
    assert_eq!(e.message(), "MCP error -32601: no");
    assert!(matches!(response_outcome::<i32>(None, None), Err(RpcError::Empty)));
    assert_eq!(RpcError::Empty.message(), "Empty result from MCP server");
    let parts = vec![ToolContent { text: Some("ab".to_string()) }, ToolContent { text: None }, ToolContent { text: Some("c".to_string()) }];
    assert_eq!(tool_text(&parts), "abc");
    assert_eq!(success_json_text("结果: {\"success\":true}").as_deref(), Some("{\"success\":true}"));
    assert_eq!(success_json_text("{\"ok\":1}"), None);
    let parsed = Json::Object(vec![("data".to_string(), Json::Int(5))]);
    assert_eq!(dump(&data_of(&parsed)), "5");
    assert_eq!(dump(&data_of(&Json::Null)), "null");
    assert_eq!(dump(&structured_payload(&Json::Object(vec![("x".to_string(), Json::Int(1))]))), "{\"x\":1}");
    let r = InitializeResult {
        protocol_version: "2025-06-18".to_string(),
        server_info: ClientInfo { name: "mcd".to_string(), version: "1.0".to_string() },
    };
    assert_eq!(connected_report(&r), "✅ 连接成功!\n   协议版本: 2025-06-18\n   服务端: mcd v1.0");
}

#[test]
fn text_helpers() {
    assert_eq!(trimmed("\t a b \n"), "a b");
    assert_eq!(text_lines("a\r\nb\n\nc"), vec!["a", "b", "", "c"]);
    assert_eq!(text_lines("a\n"), vec!["a"]);
    assert!(text_lines("").is_empty());
    for t in ["x\ny\r\n", "\n\n", "a\rb", "only"] {
        assert_eq!(text_lines(t), t.lines().collect::<Vec<_>>());
    }
}

#[test]
fn page_requests() {
    let search = mcd_cli::screens::store_search_args(" 北京 ", "  ");
    assert_eq!(dump(&search), "{\"beType\":1,\"searchType\":2,\"city\":\"北京\"}");
    let both = mcd_cli::screens::store_search_args("上海", "人民广场");
    assert_eq!(dump(&both), "{\"beType\":1,\"searchType\":2,\"city\":\"上海\",\"keyword\":\"人民广场\"}");
    let plain = mcd_cli::screens::page_order_args("S", Json::Array(Vec::new()), "");
    assert_eq!(dump(&plain), "{\"storeCode\":\"S\",\"items\":[],\"orderType\":1,\"beType\":1}");
    let with_way = mcd_cli::screens::page_order_args("S", Json::Array(Vec::new()), "T1");
    assert_eq!(dump(&with_way), "{\"storeCode\":\"S\",\"items\":[],\"orderType\":1,\"beType\":1,\"takeWayCode\":\"T1\"}");
}

#[test]
fn http_failures() {
    assert!(http_ok(200));
    assert!(http_ok(204));
    assert!(!http_ok(199));
    assert!(!http_ok(300));
    assert_eq!(http_error(401, "Unauthorized", "bad token".to_string()).message(), "HTTP 401 Unauthorized: bad token");
}
