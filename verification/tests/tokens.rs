use machine_gateway::error::ErrorKind;
use machine_gateway::query::{Filters, RawListQuery};
use machine_gateway::respond::{filters_eq, prepare};
use machine_gateway::text::{decimal_string, str_chars, string_from_chars};
use machine_gateway::token::{decode_token, encode_token};

fn no_filters() -> Filters {
    Filters {
        machine_type: None,
        brand: None,
        name: None,
        image: None,
        state: None,
        memory: None,
        tombstone: None,
        tag_name: None,
        docker: None,
    }
}

fn raw_with_state(state: &str) -> RawListQuery {
    RawListQuery {
        machine_type: None,
        brand: None,
        name: None,
        image: None,
        state: Some(state.to_string()),
        memory: None,
        tombstone: None,
        limit: None,
        offset: None,
        tag_name: None,
        docker: None,
        credentials: None,
        token: None,
    }
}

#[test]
fn token_round_trips_filters_and_last_identifier() {
    let mut f = no_filters();
    f.state = Some("running".to_string());
    f.memory = Some(1024);
    f.docker = Some(false);
    f.tag_name = Some("team".to_string());
    let t = encode_token(&f, "vm-17");
    let (f2, last) = decode_token(&t).expect("token decodes");
    assert!(filters_eq(&f, &f2));
    assert_eq!(last, "vm-17");
}

#[test]
fn token_round_trips_awkward_characters() {
    let mut f = no_filters();
    f.name = Some("naïve \"machine\" № 7\n".to_string());
    let t = encode_token(&f, "id.with.dots");
    let (f2, last) = decode_token(&t).expect("token decodes");
    assert_eq!(f2.name.as_deref(), Some("naïve \"machine\" № 7\n"));
    assert_eq!(last, "id.with.dots");
}

#[test]
fn corrupt_tokens_are_rejected() {
    assert!(decode_token("").is_none());
    assert!(decode_token("garbage").is_none());
    let t = encode_token(&no_filters(), "vm-1");
    let mut chopped = t.clone();
    chopped.pop();
    assert!(decode_token(&chopped).is_none());
    let mut extended = t.clone();
    extended.push('0');
    assert!(decode_token(&extended).is_none());
}

#[test]
fn token_from_filter_set_a_fails_under_filter_set_b() {
    let mut fa = no_filters();
    fa.state = Some("running".to_string());
    let token_under_a = encode_token(&fa, "vm-02");

    let mut raw_b = raw_with_state("stopped");
    raw_b.token = Some(token_under_a.clone());
    let e = prepare(&raw_b).expect_err("mismatched token must fail");
    assert_eq!(e.kind, ErrorKind::InvalidToken);

    let mut raw_a = raw_with_state("running");
    raw_a.token = Some(token_under_a);
    assert!(prepare(&raw_a).is_ok());
}

#[test]
fn repeating_the_identical_request_gives_the_identical_start() {
    let mut fa = no_filters();
    fa.state = Some("running".to_string());
    let token = encode_token(&fa, "vm-02");
    let mut raw = raw_with_state("running");
    raw.token = Some(token);
    let p1 = prepare(&raw).expect("valid");
    let p2 = prepare(&raw).expect("valid");
    match (&p1.query.start, &p2.query.start) {
        (
            machine_gateway::query::PageStart::After(a),
            machine_gateway::query::PageStart::After(b),
        ) => {
            assert_eq!(a, b);
            assert_eq!(a, "vm-02");
        },
        _ => panic!("token must set the page start"),
    }
}

#[test]
fn decimal_rendering_is_exact() {
    assert_eq!(decimal_string(0), "0");
    assert_eq!(decimal_string(7), "7");
    assert_eq!(decimal_string(42), "42");
    assert_eq!(decimal_string(1234567890), "1234567890");
    assert_eq!(decimal_string(u64::MAX), "18446744073709551615");
}

#[test]
fn char_vector_bridges_preserve_contents() {
    let s = "hé\u{1F980}llo";
    let v = str_chars(s);
    assert_eq!(v.len(), 6);
    assert_eq!(string_from_chars(&v), s);
}
