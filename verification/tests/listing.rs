use machine_gateway::error::ErrorKind;
use machine_gateway::machine::{state_of, to_machine, vm_matches, MachineState, VmRecord};
use machine_gateway::query::{validate, RawListQuery};
use machine_gateway::respond::{error_response, prepare, respond, UpstreamOutcome};

fn empty_query() -> RawListQuery {
    RawListQuery {
        machine_type: None,
        brand: None,
        name: None,
        image: None,
        state: None,
        memory: None,
        tombstone: None,
        limit: None,
        offset: None,
        tag_name: None,
        docker: None,
        credentials: None,
        token: None,
    }
}

fn vm(uuid: &str, alias: &str, state: &str, ram: u64) -> VmRecord {
    VmRecord {
        uuid: uuid.to_string(),
        alias: alias.to_string(),
        role: "smartmachine".to_string(),
        brand: "joyent".to_string(),
        state: state.to_string(),
        image_uuid: "img-1".to_string(),
        ram,
        tags: Vec::new(),
        created: 1_600_000_000,
        docker: false,
        destroyed: false,
        credentials: Vec::new(),
    }
}

fn header<'a>(
    r: &'a machine_gateway::respond::HttpResponse,
    name: &str,
) -> Option<&'a String> {
    r.headers.iter().find(|h| h.0 == name).map(|h| &h.1)
}

/// The upstream collaborator played in-process: it filters the snapshot by
/// the translated query, exactly as the VM service contract promises.
fn upstream_fetch(
    p: &machine_gateway::respond::Prepared,
    snapshot: &[VmRecord],
    calls: &mut usize,
) -> UpstreamOutcome {
    *calls += 1;
    let vms: Vec<VmRecord> = snapshot
        .iter()
        .filter(|v| vm_matches(&p.upstream, v))
        .map(|v| vm(&v.uuid, &v.alias, &v.state, v.ram))
        .collect();
    UpstreamOutcome::Vms(vms)
}

fn running_and_stopped_snapshot() -> Vec<VmRecord> {
    vec![
        vm("vm-05", "eee", "running", 512),
        vm("vm-01", "aaa", "running", 256),
        vm("vm-07", "ggg", "stopped", 256),
        vm("vm-03", "ccc", "running", 1024),
        vm("vm-06", "fff", "stopped", 128),
        vm("vm-02", "bbb", "running", 256),
        vm("vm-08", "hhh", "stopped", 512),
        vm("vm-04", "ddd", "running", 2048),
    ]
}

fn count_occurrences(haystack: &str, needle: &str) -> usize {
    let mut n = 0;
    let mut at = 0;
    while let Some(p) = haystack[at..].find(needle) {
        n += 1;
        at += p + needle.len();
    }
    n
}

#[test]
fn running_limit_two_pages_through_all_running_machines() {
    let snapshot = running_and_stopped_snapshot();
    let mut calls = 0usize;

    let mut raw = empty_query();
    raw.state = Some("running".to_string());
    raw.limit = Some(2);
    let p = prepare(&raw).expect("valid query");
    let r1 = respond(&p, &upstream_fetch(&p, &snapshot, &mut calls));
    assert_eq!(r1.status, 200);
    assert_eq!(header(&r1, "x-resource-count").unwrap(), "2");
    assert_eq!(count_occurrences(&r1.body, "\"id\""), 2);
    assert!(r1.body.contains("\"id\":\"vm-01\""));
    assert!(r1.body.contains("\"id\":\"vm-02\""));
    assert_eq!(count_occurrences(&r1.body, "\"state\":\"running\""), 2);
    let t1 = header(&r1, "x-next-token").expect("first page has a token").clone();
    assert!(!t1.is_empty());

    let mut raw2 = empty_query();
    raw2.state = Some("running".to_string());
    raw2.limit = Some(2);
    raw2.token = Some(t1);
    let p2 = prepare(&raw2).expect("token matches filters");
    let r2 = respond(&p2, &upstream_fetch(&p2, &snapshot, &mut calls));
    assert_eq!(header(&r2, "x-resource-count").unwrap(), "2");
    assert!(r2.body.contains("\"id\":\"vm-03\""));
    assert!(r2.body.contains("\"id\":\"vm-04\""));
    let t2 = header(&r2, "x-next-token").expect("second page has a token").clone();

    let mut raw3 = empty_query();
    raw3.state = Some("running".to_string());
    raw3.limit = Some(2);
    raw3.token = Some(t2);
    let p3 = prepare(&raw3).expect("token matches filters");
    let r3 = respond(&p3, &upstream_fetch(&p3, &snapshot, &mut calls));
    assert_eq!(header(&r3, "x-resource-count").unwrap(), "1");
    assert!(r3.body.contains("\"id\":\"vm-05\""));
    assert!(header(&r3, "x-next-token").is_none());
    assert_eq!(calls, 3);
}

#[test]
fn negative_memory_rejected_before_any_upstream_call() {
    let mut raw = empty_query();
    raw.memory = Some(-1);
    let mut calls = 0usize;
    let err = match prepare(&raw) {
        Err(e) => e,
        Ok(p) => {
            // would be the only path that reaches the collaborator
            let _ = upstream_fetch(&p, &[], &mut calls);
            panic!("memory=-1 must be rejected");
        },
    };
    assert_eq!(err.kind, ErrorKind::InvalidFilter);
    assert_eq!(err.field, "memory");
    let r = error_response(&err);
    assert_eq!(r.status, 400);
    assert!(r.body.contains("InvalidFilter"));
    assert!(r.body.contains("memory"));
    assert_eq!(calls, 0);
}

#[test]
fn upstream_timeout_surfaces_as_unavailable_with_no_partial_page() {
    let mut raw = empty_query();
    raw.state = Some("running".to_string());
    let p = prepare(&raw).expect("valid query");
    let r = respond(&p, &UpstreamOutcome::Unavailable);
    assert_eq!(r.status, 503);
    assert!(r.body.contains("UpstreamUnavailable"));
    assert!(!r.body.contains("\"id\""));
    assert!(!r.body.starts_with('['));
    assert!(header(&r, "x-resource-count").is_none());
    assert!(header(&r, "x-next-token").is_none());
}

#[test]
fn credentials_omitted_by_default_and_included_on_request() {
    let mut with_creds = vm("vm-10", "secretive", "running", 256);
    with_creds.credentials = vec![("admin".to_string(), "SECRET-REDACTED".to_string())];
    let without_creds = vm("vm-11", "open", "running", 256);
    let snapshot = vec![with_creds, without_creds];

    let snap = |p: &machine_gateway::respond::Prepared| {
        UpstreamOutcome::Vms(
            snapshot
                .iter()
                .filter(|v| vm_matches(&p.upstream, v))
                .map(|v| {
                    let mut c = vm(&v.uuid, &v.alias, &v.state, v.ram);
                    c.credentials = v.credentials.clone();
                    c
                })
                .collect(),
        )
    };

    let raw = empty_query();
    let p = prepare(&raw).expect("valid query");
    let r = respond(&p, &snap(&p));
    assert!(!r.body.contains("credentials"));

    let mut raw2 = empty_query();
    raw2.credentials = Some(true);
    let p2 = prepare(&raw2).expect("valid query");
    let r2 = respond(&p2, &snap(&p2));
    assert_eq!(count_occurrences(&r2.body, "\"credentials\""), 1);
    assert!(r2.body.contains("\"admin\":\"SECRET-REDACTED\""));
}

#[test]
fn invalid_limit_offset_and_tag_name_are_rejected_with_the_field_named() {
    let mut raw = empty_query();
    raw.limit = Some(0);
    let e = validate(&raw).unwrap_err();
    assert_eq!(e.kind, ErrorKind::InvalidFilter);
    assert_eq!(e.field, "limit");

    let mut raw = empty_query();
    raw.limit = Some(1001);
    assert_eq!(validate(&raw).unwrap_err().field, "limit");

    let mut raw = empty_query();
    raw.offset = Some(-5);
    assert_eq!(validate(&raw).unwrap_err().field, "offset");

    let mut raw = empty_query();
    raw.tag_name = Some(String::new());
    assert_eq!(validate(&raw).unwrap_err().field, "tag_name");
}

#[test]
fn defaults_apply_when_limit_and_credentials_are_absent() {
    let q = validate(&empty_query()).expect("empty query is valid");
    assert_eq!(q.limit, 100);
    assert!(!q.credentials);
}

#[test]
fn state_mapping_is_total_with_unknown_fallback() {
    assert_eq!(state_of("provisioning"), MachineState::Provisioning);
    assert_eq!(state_of("running"), MachineState::Running);
    assert_eq!(state_of("stopping"), MachineState::Stopping);
    assert_eq!(state_of("stopped"), MachineState::Stopped);
    assert_eq!(state_of("destroyed"), MachineState::Deleted);
    assert_eq!(state_of("failed"), MachineState::Failed);
    assert_eq!(state_of("halting-and-catching-fire"), MachineState::Unknown);
    assert_eq!(state_of(""), MachineState::Unknown);
}

#[test]
fn mapper_is_total_and_carries_fields_over() {
    let mut v = vm("vm-42", "workhorse", "comatose", 768);
    v.tags = vec![("team".to_string(), "infra".to_string())];
    let m = to_machine(&v, false);
    assert_eq!(m.id, "vm-42");
    assert_eq!(m.name, "workhorse");
    assert_eq!(m.state, MachineState::Unknown);
    assert_eq!(m.memory, 768);
    assert_eq!(m.tags.len(), 1);
    assert!(m.credentials.is_none());
}

#[test]
fn mapper_withholds_credentials_when_not_requested() {
    let mut v = vm("vm-43", "locked", "running", 256);
    v.credentials = vec![("root".to_string(), "SECRET-REDACTED".to_string())];
    assert!(to_machine(&v, false).credentials.is_none());
    assert_eq!(to_machine(&v, true).credentials.unwrap().len(), 1);
}

#[test]
fn offset_is_a_best_effort_alias_for_the_page_start() {
    let snapshot = running_and_stopped_snapshot();
    let mut calls = 0usize;
    let mut raw = empty_query();
    raw.state = Some("running".to_string());
    raw.offset = Some(2);
    raw.limit = Some(10);
    let p = prepare(&raw).expect("valid query");
    let r = respond(&p, &upstream_fetch(&p, &snapshot, &mut calls));
    assert_eq!(header(&r, "x-resource-count").unwrap(), "3");
    assert!(r.body.contains("\"id\":\"vm-03\""));
    assert!(!r.body.contains("\"id\":\"vm-01\""));
    assert!(header(&r, "x-next-token").is_none());
}

#[test]
fn empty_snapshot_yields_an_empty_terminal_page() {
    let raw = empty_query();
    let p = prepare(&raw).expect("valid query");
    let r = respond(&p, &UpstreamOutcome::Vms(Vec::new()));
    assert_eq!(r.status, 200);
    assert_eq!(r.body, "[]");
    assert_eq!(header(&r, "x-resource-count").unwrap(), "0");
    assert!(header(&r, "x-next-token").is_none());
}

#[test]
fn body_is_sorted_by_identifier_regardless_of_upstream_order() {
    let snapshot = vec![
        vm("vm-zz", "last", "running", 1),
        vm("vm-aa", "first", "running", 2),
        vm("vm-mm", "middle", "running", 3),
    ];
    let raw = empty_query();
    let p = prepare(&raw).expect("valid query");
    let mut calls = 0usize;
    let r = respond(&p, &upstream_fetch(&p, &snapshot, &mut calls));
    let a = r.body.find("vm-aa").unwrap();
    let m = r.body.find("vm-mm").unwrap();
    let z = r.body.find("vm-zz").unwrap();
    assert!(a < m && m < z);
}

#[test]
fn body_escapes_quotes_backslashes_and_control_characters() {
    let mut v = vm("vm-esc", "we\"ird\\na\nme", "running", 64);
    v.tags = Vec::new();
    let raw = empty_query();
    let p = prepare(&raw).expect("valid query");
    let r = respond(&p, &UpstreamOutcome::Vms(vec![v]));
    assert!(r.body.contains("we\\\"ird\\\\na\\u000ame"));
}

#[test]
fn following_tokens_to_the_end_collects_the_full_sorted_set_exactly_once() {
    let snapshot = running_and_stopped_snapshot();
    let mut collected: Vec<String> = Vec::new();
    let mut token: Option<String> = None;
    let mut calls = 0usize;
    loop {
        let mut raw = empty_query();
        raw.limit = Some(3);
        raw.token = token.take();
        let p = prepare(&raw).expect("valid query");
        let r = respond(&p, &upstream_fetch(&p, &snapshot, &mut calls));
        assert_eq!(r.status, 200);
        let mut at = 0;
        while let Some(pos) = r.body[at..].find("\"id\":\"") {
            let begin = at + pos + 6;
            let end = begin + r.body[begin..].find('"').unwrap();
            collected.push(r.body[begin..end].to_string());
            at = end;
        }
        match header(&r, "x-next-token") {
            Some(t) => token = Some(t.clone()),
            None => break,
        }
        assert!(calls < 10, "pagination must terminate");
    }
    let expected: Vec<String> =
        (1..=8).map(|i| format!("vm-{:02}", i)).collect();
    assert_eq!(collected, expected);
}
