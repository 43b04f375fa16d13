use polar_gateway::commerce::{
    after_customer_lookup, checkout_reply, portal_reply, products_reply, start_checkout,
    CheckoutStep, PortalStep, Product, Upstream,
};
use polar_gateway::text::{parse_i64, push_decimal};

fn text(body: &[u8]) -> String {
    String::from_utf8(body.to_vec()).unwrap()
}

#[test]
fn portal_unknown_email_is_not_found() {
    match after_customer_lookup(Upstream::Parsed(vec![])) {
        PortalStep::Respond(r) => {
            assert_eq!(r.status, 404);
            assert_eq!(text(&r.body), "Customer not found");
        }
        PortalStep::CreateSession(_) => panic!("expected a response"),
    }
}

#[test]
fn portal_uses_first_customer() {
    let ids = vec!["cus_1".to_string(), "cus_2".to_string()];
    match after_customer_lookup(Upstream::Parsed(ids)) {
        PortalStep::CreateSession(id) => assert_eq!(id, "cus_1"),
        PortalStep::Respond(_) => panic!("expected a session request"),
    }
}

#[test]
fn portal_lookup_failure_reports_status() {
    match after_customer_lookup(Upstream::Rejected(401, "unauthorized".to_string())) {
        PortalStep::Respond(r) => {
            assert_eq!(r.status, 500);
            assert_eq!(text(&r.body), "API Customer Error: 401 - unauthorized");
        }
        PortalStep::CreateSession(_) => panic!("expected a response"),
    }
}

#[test]
fn portal_session_redirects() {
    let r = portal_reply(Upstream::Parsed("https://portal.example/s".to_string()));
    assert_eq!(r.status, 307);
    assert_eq!(r.location.as_deref(), Some("https://portal.example/s"));
    assert!(r.body.is_empty());
}

#[test]
fn portal_session_failures() {
    let r = portal_reply(Upstream::Rejected(503, "down".to_string()));
    assert_eq!(r.status, 500);
    assert_eq!(text(&r.body), "API Session Error: 503 - down");
    let r = portal_reply(Upstream::Malformed("expected value".to_string()));
    assert_eq!(text(&r.body), "JSON Error: expected value");
    let r = portal_reply(Upstream::Transport("connection refused".to_string()));
    assert_eq!(r.status, 500);
    assert_eq!(text(&r.body), "connection refused");
}

#[test]
fn checkout_bad_gateway_is_reported() {
    let r = checkout_reply(Upstream::Rejected(502, "bad gateway".to_string()));
    assert_eq!(r.status, 500);
    assert!(r.location.is_none());
    let body = text(&r.body);
    assert!(body.contains("502"));
    assert_eq!(body, "API Error: 502 - bad gateway");
}

#[test]
fn checkout_redirects_to_session() {
    let r = checkout_reply(Upstream::Parsed("https://checkout.example/c".to_string()));
    assert_eq!(r.status, 307);
    assert_eq!(r.location.as_deref(), Some("https://checkout.example/c"));
}

#[test]
fn checkout_parse_and_transport_errors() {
    let r = checkout_reply(Upstream::Malformed("missing field `url`".to_string()));
    assert_eq!(r.status, 500);
    assert_eq!(text(&r.body), "JSON Error: missing field `url`");
    let r = checkout_reply(Upstream::Transport("timed out".to_string()));
    assert_eq!(text(&r.body), "timed out");
}

#[test]
fn checkout_request_names_product() {
    match start_checkout("prod_123", None) {
        CheckoutStep::Create(c) => {
            assert_eq!(c.products, vec!["prod_123".to_string()]);
            assert_eq!(c.success_url, "http://localhost:3000/");
        }
        CheckoutStep::Respond(_) => panic!("expected a request"),
    }
    match start_checkout("prod_123", Some("https://shop.example/done")) {
        CheckoutStep::Create(c) => assert_eq!(c.success_url, "https://shop.example/done"),
        CheckoutStep::Respond(_) => panic!("expected a request"),
    }
}

#[test]
fn checkout_without_product_is_bad_request() {
    match start_checkout("", None) {
        CheckoutStep::Respond(r) => {
            assert_eq!(r.status, 400);
            assert_eq!(text(&r.body), "missing product");
        }
        CheckoutStep::Create(_) => panic!("expected a response"),
    }
}

#[test]
fn products_page_lists_links() {
    let ps = vec![
        Product { id: "p1".to_string(), name: "One".to_string() },
        Product { id: "p2".to_string(), name: "Two".to_string() },
    ];
    let r = products_reply(Upstream::Parsed(ps));
    assert_eq!(r.status, 200);
    let body = text(&r.body);
    assert!(body.starts_with("<html><body><form action=\"/portal\""));
    assert!(body.contains(
        "<div><a target=\"_blank\" href=\"/checkout?products=p1\">One</a></div><div><a target=\"_blank\" href=\"/checkout?products=p2\">Two</a></div></body></html>"
    ));
}

#[test]
fn products_listing_failure() {
    let r = products_reply(Upstream::Rejected(500, "oops".to_string()));
    assert_eq!(r.status, 500);
    assert_eq!(text(&r.body), "API Error: 500 - oops");
}

#[test]
fn decimal_digits_of_statuses() {
    for (n, s) in [(0u16, "0"), (7, "7"), (10, "10"), (502, "502"), (65535, "65535")] {
        let mut out = b"x".to_vec();
        push_decimal(&mut out, n);
        assert_eq!(text(&out), format!("x{}", s));
    }
}

#[test]
fn integer_parsing_edges() {
    assert_eq!(parse_i64("1700000000"), Some(1700000000));
    assert_eq!(parse_i64("+42"), Some(42));
    assert_eq!(parse_i64("-42"), Some(-42));
    assert_eq!(parse_i64("-0"), Some(0));
    assert_eq!(parse_i64("9223372036854775807"), Some(i64::MAX));
    assert_eq!(parse_i64("-9223372036854775808"), Some(i64::MIN));
    assert_eq!(parse_i64("9223372036854775808"), None);
    assert_eq!(parse_i64("-9223372036854775809"), None);
    assert_eq!(parse_i64("18446744073709551616"), None);
    assert_eq!(parse_i64(""), None);
    assert_eq!(parse_i64("-"), None);
    assert_eq!(parse_i64("+"), None);
    assert_eq!(parse_i64("+-1"), None);
    assert_eq!(parse_i64(" 1"), None);
    assert_eq!(parse_i64("1a"), None);
    assert_eq!(parse_i64("\u{663}"), None);
}
