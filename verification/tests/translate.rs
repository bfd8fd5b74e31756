use machine_gateway::machine::{vm_matches, VmRecord};
use machine_gateway::query::{translate, validate, EmptyScanParams, RawListQuery};
use machine_gateway::respond::images_not_implemented;

fn full_raw() -> RawListQuery {
    RawListQuery {
        machine_type: Some("smartmachine".to_string()),
        brand: Some("joyent".to_string()),
        name: Some("web-1".to_string()),
        image: Some("img-9".to_string()),
        state: Some("running".to_string()),
        memory: Some(512),
        tombstone: Some(true),
        limit: Some(25),
        offset: None,
        tag_name: Some("team".to_string()),
        docker: Some(true),
        credentials: Some(true),
        token: None,
    }
}

fn tagged_vm() -> VmRecord {
    VmRecord {
        uuid: "vm-77".to_string(),
        alias: "web-1".to_string(),
        role: "smartmachine".to_string(),
        brand: "joyent".to_string(),
        state: "running".to_string(),
        image_uuid: "img-9".to_string(),
        ram: 512,
        tags: vec![("team".to_string(), "infra".to_string())],
        created: 1_600_000_000,
        docker: true,
        destroyed: false,
        credentials: Vec::new(),
    }
}

#[test]
fn translator_maps_every_dimension_into_the_upstream_vocabulary() {
    let q = validate(&full_raw()).expect("valid query");
    let u = translate(&q.filters);
    assert_eq!(u.role.as_deref(), Some("smartmachine"));
    assert_eq!(u.brand.as_deref(), Some("joyent"));
    assert_eq!(u.alias.as_deref(), Some("web-1"));
    assert_eq!(u.image_uuid.as_deref(), Some("img-9"));
    assert_eq!(u.state.as_deref(), Some("running"));
    assert_eq!(u.ram, Some(512));
    assert_eq!(u.include_destroyed, Some(true));
    assert_eq!(u.tag_key.as_deref(), Some("team"));
    assert_eq!(u.docker, Some(true));
}

#[test]
fn translator_is_a_pure_function_of_the_filters() {
    let q = validate(&full_raw()).expect("valid query");
    let a = translate(&q.filters);
    let b = translate(&q.filters);
    assert_eq!(a.role, b.role);
    assert_eq!(a.brand, b.brand);
    assert_eq!(a.alias, b.alias);
    assert_eq!(a.image_uuid, b.image_uuid);
    assert_eq!(a.state, b.state);
    assert_eq!(a.ram, b.ram);
    assert_eq!(a.include_destroyed, b.include_destroyed);
    assert_eq!(a.tag_key, b.tag_key);
    assert_eq!(a.docker, b.docker);
}

#[test]
fn empty_filters_translate_to_an_unconstrained_upstream_query() {
    let raw = RawListQuery {
        machine_type: None,
        brand: None,
        name: None,
        image: None,
        state: None,
        memory: None,
        tombstone: None,
        limit: None,
        offset: None,
        tag_name: None,
        docker: None,
        credentials: None,
        token: None,
    };
    let q = validate(&raw).expect("valid query");
    let u = translate(&q.filters);
    assert!(u.role.is_none());
    assert!(u.brand.is_none());
    assert!(u.alias.is_none());
    assert!(u.image_uuid.is_none());
    assert!(u.state.is_none());
    assert!(u.ram.is_none());
    assert!(u.include_destroyed.is_none());
    assert!(u.tag_key.is_none());
    assert!(u.docker.is_none());
}

#[test]
fn upstream_matching_honours_every_dimension() {
    let q = validate(&full_raw()).expect("valid query");
    let u = translate(&q.filters);
    let v = tagged_vm();
    assert!(vm_matches(&u, &v));

    let mut wrong_ram = tagged_vm();
    wrong_ram.ram = 256;
    assert!(!vm_matches(&u, &wrong_ram));

    let mut untagged = tagged_vm();
    untagged.tags = Vec::new();
    assert!(!vm_matches(&u, &untagged));
}

#[test]
fn destroyed_machines_are_hidden_unless_tombstones_are_requested() {
    let mut raw = full_raw();
    raw.tombstone = None;
    let q = validate(&raw).expect("valid query");
    let u = translate(&q.filters);
    let mut gone = tagged_vm();
    gone.destroyed = true;
    assert!(!vm_matches(&u, &gone));

    let q2 = validate(&full_raw()).expect("valid query");
    let u2 = translate(&q2.filters);
    assert!(vm_matches(&u2, &gone));
}

#[test]
fn images_endpoint_is_a_named_stub() {
    let r = images_not_implemented();
    assert_eq!(r.status, 501);
    assert!(r.body.contains("not implemented"));
    let _scan = EmptyScanParams {};
}
