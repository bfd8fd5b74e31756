//! The listing handler: validating and preparing a request before any
//! upstream work, and shaping the HTTP response from the upstream outcome.

use vstd::prelude::*;
use crate::error::{ApiError, ErrorKind};
use crate::json::{error_body, json_error, json_machines, machines_body};
use crate::machine::{
    spec_state_of, spec_to_machine, to_machine, Machine, MachineModel, MachineState, VmRecord,
    VmRecordModel,
};
use crate::order::{machines_view, sort_by_id, spec_sort};
use crate::page::{paginate, spec_has_next, spec_page_items};
use crate::query::{
    opt_view, spec_invalid_field, spec_translate, spec_validated, translate, validate, Filters,
    FiltersModel, ListQuery, ListQueryModel, PageStart, PageStartModel, RawListQuery,
    RawListQueryModel, UpstreamQuery,
};
use crate::text::{decimal_string, spec_decimal, str_eq};
use crate::token::{dec_token, decode_token, spec_token};

verus! {

/// A request that passed validation: the validated query (with the page
/// start taken from the continuation token when one was presented) and the
/// translated upstream query, ready for the collaborator call.
#[derive(Debug)]
pub struct Prepared {
    pub query: ListQuery,
    pub upstream: UpstreamQuery,
}

/// What preparing a raw query yields: the validated query, or the error
/// that rejects the request before any upstream work.
pub open spec fn spec_prepare(r: RawListQueryModel) -> Result<ListQueryModel, (ErrorKind, Seq<
    char,
>)> {
    if spec_invalid_field(r) is Some {
        Err((ErrorKind::InvalidFilter, spec_invalid_field(r)->Some_0))
    } else {
        let q = spec_validated(r);
        match r.token {
            None => Ok(q),
            Some(t) => match dec_token(t) {
                None => Err((ErrorKind::InvalidToken, Seq::empty())),
                Some((tf, last)) => if tf == q.filters {
                    Ok(
                        ListQueryModel {
                            filters: q.filters,
                            limit: q.limit,
                            start: PageStartModel::After(last),
                            credentials: q.credentials,
                        },
                    )
                } else {
                    Err((ErrorKind::InvalidToken, Seq::empty()))
                },
            },
        }
    }
}

fn opt_str_eq(a: &Option<String>, b: &Option<String>) -> (r: bool)
    ensures
        r == (opt_view(*a) == opt_view(*b)),
{
    match (a, b) {
        (None, None) => true,
        (Some(x), Some(y)) => {
            let e = str_eq(x.as_str(), y.as_str());
            proof {
                if e {
                    assert(opt_view(*a) == opt_view(*b));
                } else {
                    assert(opt_view(*a) != opt_view(*b));
                }
            }
            e
        },
        _ => false,
    }
}

/// Decides whether two filter sets are the same in every dimension.
pub fn filters_eq(a: &Filters, b: &Filters) -> (r: bool)
    ensures
        r == (a@ == b@),
{
    let r = opt_str_eq(&a.machine_type, &b.machine_type) && opt_str_eq(&a.brand, &b.brand)
        && opt_str_eq(&a.name, &b.name) && opt_str_eq(&a.image, &b.image) && opt_str_eq(
        &a.state,
        &b.state,
    ) && a.memory == b.memory && a.tombstone == b.tombstone && opt_str_eq(&a.tag_name, &b.tag_name)
        && a.docker == b.docker;
    proof {
        if r {
            assert(a@ == b@);
        }
    }
    r
}

/// Validates a raw query and interprets its continuation token, before any
/// upstream work: an unsatisfiable filter fails with `InvalidFilter`
/// naming the field, a corrupt token or one issued under a different
/// filter set fails with `InvalidToken`.
pub fn prepare(raw: &RawListQuery) -> (r: Result<Prepared, ApiError>)
    ensures
        match r {
            Ok(p) => {
                &&& spec_prepare(raw@) is Ok
                &&& p.query@ == spec_prepare(raw@)->Ok_0
                &&& p.upstream@ == spec_translate(p.query@.filters)
            },
            Err(e) => {
                &&& spec_prepare(raw@) is Err
                &&& e.kind == spec_prepare(raw@)->Err_0.0
                &&& e.field@ == spec_prepare(raw@)->Err_0.1
            },
        },
{
    let mut q = match validate(raw) {
        Ok(q) => q,
        Err(e) => {
            return Err(e);
        },
    };
    if let Some(t) = &raw.token {
        match decode_token(t.as_str()) {
            None => {
                return Err(ApiError::invalid_token());
            },
            Some((tf, last)) => {
                if filters_eq(&tf, &q.filters) {
                    q.start = PageStart::After(last);
                } else {
                    return Err(ApiError::invalid_token());
                }
            },
        }
    }
    let upstream = translate(&q.filters);
    Ok(Prepared { query: q, upstream })
}

/// What one upstream listing call came to: the records, or a failure
/// (unreachable, errored, or timed out) with no partial data.
pub enum UpstreamOutcome {
    Vms(Vec<VmRecord>),
    Unavailable,
}

/// Models of a sequence of VM records.
pub open spec fn vms_view(s: Seq<VmRecord>) -> Seq<VmRecordModel> {
    s.map_values(|v: VmRecord| v@)
}

/// The machines a snapshot of VM records maps to.
pub open spec fn spec_mapped(vms: Seq<VmRecordModel>, with_credentials: bool) -> Seq<
    MachineModel,
> {
    vms.map_values(|v: VmRecordModel| spec_to_machine(v, with_credentials))
}

/// The body of a successful listing: the current page of the sorted,
/// mapped snapshot, as JSON.
pub open spec fn spec_list_body(q: ListQueryModel, vms: Seq<VmRecordModel>) -> Seq<char> {
    json_machines(spec_page_items(spec_sort(spec_mapped(vms, q.credentials)), q.start, q.limit))
}

/// An HTTP response as the library shapes it: the transport layer sends
/// exactly these values.
pub struct HttpResponse {
    pub status: u16,
    pub headers: Vec<(String, String)>,
    pub body: String,
}

/// Header names used by the listing endpoint.  The next-page token
/// travels in `x-next-token`; the count of machines in the body in
/// `x-resource-count`.
pub open spec fn header_views(hs: Seq<(String, String)>) -> Seq<(Seq<char>, Seq<char>)> {
    hs.map_values(|h: (String, String)| (h.0@, h.1@))
}

/// The error response of a failed request: its status from the kind, a
/// JSON body of kind and message, and no other content.
pub fn error_response(e: &ApiError) -> (r: HttpResponse)
    ensures
        r.status == e.kind.spec_status(),
        header_views(r.headers@) == seq![("content-type"@, "application/json"@)],
        r.body@ == json_error(e.kind, e.field@),
{
    let body = error_body(e);
    let mut headers: Vec<(String, String)> = Vec::new();
    headers.push((String::from_str("content-type"), String::from_str("application/json")));
    proof {
        assert(header_views(headers@) =~= seq![("content-type"@, "application/json"@)]);
    }
    HttpResponse { status: e.kind.status(), headers, body }
}

fn map_machines(vms: &Vec<VmRecord>, with_credentials: bool) -> (r: Vec<Machine>)
    ensures
        machines_view(r@) == spec_mapped(vms_view(vms@), with_credentials),
{
    let mut out: Vec<Machine> = Vec::new();
    let mut i: usize = 0;
    while i < vms.len()
        invariant
            i <= vms.len(),
            machines_view(out@) == spec_mapped(vms_view(vms@).take(i as int), with_credentials),
        decreases vms.len() - i,
    {
        let ghost pre = machines_view(out@);
        out.push(to_machine(&vms[i], with_credentials));
        proof {
            assert(machines_view(out@) =~= pre.push(spec_to_machine(
                vms_view(vms@)[i as int],
                with_credentials,
            )));
            assert(machines_view(out@) =~= spec_mapped(
                vms_view(vms@).take(i as int + 1),
                with_credentials,
            ));
        }
        i += 1;
    }
    proof {
        assert(vms_view(vms@).take(vms@.len() as int) =~= vms_view(vms@));
    }
    out
}

/// Shapes the HTTP response of a listing from the prepared query and the
/// upstream outcome.  On success: status 200, the current page of the
/// sorted mapped snapshot as the body, `x-resource-count` carrying exactly
/// the number of machines in the body, and `x-next-token` exactly when
/// machines remain.  On upstream failure: status 503 with the
/// `UpstreamUnavailable` error body and no machines at all.
pub fn respond(p: &Prepared, outcome: &UpstreamOutcome) -> (r: HttpResponse)
    requires
        1 <= p.query.limit,
    ensures
        match outcome {
            UpstreamOutcome::Unavailable => {
                &&& r.status == 503
                &&& r.body@ == json_error(ErrorKind::UpstreamUnavailable, Seq::empty())
                &&& header_views(r.headers@) == seq![("content-type"@, "application/json"@)]
            },
            UpstreamOutcome::Vms(vms) => {
                let sorted = spec_sort(spec_mapped(vms_view(vms@), p.query@.credentials));
                let items = spec_page_items(sorted, p.query@.start, p.query.limit);
                &&& r.status == 200
                &&& r.body@ == spec_list_body(p.query@, vms_view(vms@))
                &&& header_views(r.headers@)[0] == ("content-type"@, "application/json"@)
                &&& header_views(r.headers@)[1] == ("x-resource-count"@, spec_decimal(
                    items.len(),
                ))
                &&& spec_has_next(sorted, p.query@.start, p.query.limit) ==> header_views(
                    r.headers@,
                ) == seq![
                    ("content-type"@, "application/json"@),
                    ("x-resource-count"@, spec_decimal(items.len())),
                    ("x-next-token"@, spec_token(p.query@.filters, items.last().id)),
                ]
                &&& !spec_has_next(sorted, p.query@.start, p.query.limit) ==> header_views(
                    r.headers@,
                ) == seq![
                    ("content-type"@, "application/json"@),
                    ("x-resource-count"@, spec_decimal(items.len())),
                ]
            },
        },
{
    match outcome {
        UpstreamOutcome::Unavailable => error_response(&ApiError::upstream_unavailable()),
        UpstreamOutcome::Vms(vms) => {
            let machines = map_machines(vms, p.query.credentials);
            let sorted = sort_by_id(&machines);
            let page = paginate(&sorted, &p.query.filters, &p.query.start, p.query.limit);
            let body = machines_body(&page.machines);
            let count = decimal_string(page.machines.len() as u64);
            let mut headers: Vec<(String, String)> = Vec::new();
            headers.push(
                (String::from_str("content-type"), String::from_str("application/json")),
            );
            headers.push((String::from_str("x-resource-count"), count));
            match page.next {
                Some(t) => {
                    headers.push((String::from_str("x-next-token"), t));
                    proof {
                        assert(header_views(headers@) =~= seq![
                            ("content-type"@, "application/json"@),
                            (
                                "x-resource-count"@,
                                spec_decimal(machines_view(page.machines@).len()),
                            ),
                            (
                                "x-next-token"@,
                                spec_token(
                                    p.query@.filters,
                                    spec_page_items(
                                        spec_sort(
                                            spec_mapped(vms_view(vms@), p.query@.credentials),
                                        ),
                                        p.query@.start,
                                        p.query.limit,
                                    ).last().id,
                                ),
                            ),
                        ]);
                    }
                },
                None => {
                    proof {
                        assert(header_views(headers@) =~= seq![
                            ("content-type"@, "application/json"@),
                            (
                                "x-resource-count"@,
                                spec_decimal(machines_view(page.machines@).len()),
                            ),
                        ]);
                    }
                },
            }
            HttpResponse { status: 200, headers, body }
        },
    }
}

/// The stub of the images listing: named in the routing table but not
/// implemented, it answers every request the same way.
pub fn images_not_implemented() -> (r: HttpResponse)
    ensures
        r.status == 501,
        r.body@ == "images listing is not implemented"@,
{
    let mut headers: Vec<(String, String)> = Vec::new();
    headers.push((String::from_str("content-type"), String::from_str("text/plain")));
    HttpResponse {
        status: 501,
        headers,
        body: String::from_str("images listing is not implemented"),
    }
}

/// How many records of a snapshot carry a state outside the recognized
/// vocabulary.  Such records still map (to the `Unknown` display state);
/// the count is reported so the caller can record the anomaly.
pub open spec fn spec_anomalies(vms: Seq<VmRecordModel>) -> nat
    decreases vms.len(),
{
    if vms.len() == 0 {
        0
    } else {
        (if spec_state_of(vms[0].state) == MachineState::Unknown {
            1 as nat
        } else {
            0 as nat
        }) + spec_anomalies(vms.skip(1))
    }
}

/// Counts the records whose state falls outside the recognized vocabulary.
pub fn count_anomalies(vms: &Vec<VmRecord>) -> (n: u64)
    ensures
        n as nat == spec_anomalies(vms_view(vms@)),
    decreases vms@.len(),
{
    let mut n: u64 = 0;
    let mut i: usize = 0;
    while i < vms.len()
        invariant
            i <= vms.len(),
            n as nat == spec_anomalies(vms_view(vms@).take(i as int)),
            n <= i,
        decreases vms.len() - i,
    {
        let s = crate::machine::state_of(vms[i].state.as_str());
        let is_unknown = match s {
            MachineState::Unknown => true,
            _ => false,
        };
        proof {
            lemma_anomalies_snoc(vms_view(vms@), i as int);
        }
        if is_unknown {
            n += 1;
        }
        i += 1;
    }
    proof {
        assert(vms_view(vms@).take(vms@.len() as int) =~= vms_view(vms@));
    }
    n
}

/// Counting anomalies over one more record adds that record's own count.
proof fn lemma_anomalies_snoc(s: Seq<VmRecordModel>, i: int)
    requires
        0 <= i < s.len(),
    ensures
        spec_anomalies(s.take(i + 1)) == spec_anomalies(s.take(i)) + (
        if spec_state_of(s[i].state) == MachineState::Unknown {
            1 as nat
        } else {
            0 as nat
        }),
    decreases i,
{
    if i == 0 {
        assert(s.take(1).skip(1) =~= Seq::<VmRecordModel>::empty());
        assert(s.take(0) =~= Seq::<VmRecordModel>::empty());
    } else {
        assert(s.take(i + 1)[0] == s[0]);
        assert(s.take(i)[0] == s[0]);
        assert(s.take(i + 1).skip(1) =~= s.skip(1).take(i));
        assert(s.take(i).skip(1) =~= s.skip(1).take(i - 1));
        lemma_anomalies_snoc(s.skip(1), i - 1);
        assert(s.skip(1)[i - 1] == s[i]);
    }
}

/// Preparing is a pure function of the request: the identical raw query
/// always prepares to the identical validated query or the identical
/// error, with no hidden state.
pub proof fn lemma_prepare_deterministic(a: RawListQueryModel, b: RawListQueryModel)
    requires
        a == b,
    ensures
        spec_prepare(a) == spec_prepare(b),
{
}

/// Idempotence: repeating the identical request (same filters, same
/// token) against the same upstream snapshot yields the identical page
/// body.
pub proof fn lemma_response_idempotent(
    q1: ListQueryModel,
    q2: ListQueryModel,
    vms1: Seq<VmRecordModel>,
    vms2: Seq<VmRecordModel>,
)
    requires
        q1 == q2,
        vms1 == vms2,
    ensures
        spec_list_body(q1, vms1) == spec_list_body(q2, vms2),
{
}

/// Pagination completeness for a whole listing: sorting the mapped
/// snapshot keeps exactly its machines, the sorted set is strictly
/// ordered when identifiers are distinct (so each continuation token
/// resumes exactly at its page's end), and the concatenation of all pages
/// is exactly the sorted set, with no duplicates and no omissions.
pub proof fn lemma_listing_pages_complete(
    vms: Seq<VmRecordModel>,
    with_credentials: bool,
    limit: u64,
)
    requires
        1 <= limit,
        crate::order::distinct_ids(spec_mapped(vms, with_credentials)),
    ensures
        ({
            let sorted = spec_sort(spec_mapped(vms, with_credentials));
            &&& sorted.to_multiset() == spec_mapped(vms, with_credentials).to_multiset()
            &&& crate::order::strictly_sorted_by_id(sorted)
            &&& crate::page::spec_all_pages_from(sorted, 0, limit) == sorted
        }),
{
    let m = spec_mapped(vms, with_credentials);
    crate::order::lemma_spec_sort_sorted(m);
    crate::order::lemma_spec_sort_multiset(m);
    crate::order::lemma_sort_preserves_distinct_ids(m);
    crate::order::lemma_sorted_distinct_strict(spec_sort(m));
    crate::page::lemma_pagination_complete(spec_sort(m), limit);
}

/// Token isolation at the request level: a continuation token issued
/// under filter set `a` is rejected with `InvalidToken` by any otherwise
/// valid request whose own filter set differs from `a`.
pub proof fn lemma_token_isolation_prepare(r: RawListQueryModel, a: FiltersModel, last: Seq<char>)
    requires
        spec_invalid_field(r) is None,
        r.token == Some(spec_token(a, last)),
        a != spec_validated(r).filters,
    ensures
        spec_prepare(r) == Err::<ListQueryModel, (ErrorKind, Seq<char>)>(
            (ErrorKind::InvalidToken, Seq::empty()),
        ),
{
    crate::token::lemma_token_round_trip(a, last);
}

/// When credential data was not requested, no machine of the mapped
/// snapshot carries a credentials field at all.
pub proof fn lemma_credentials_omitted_everywhere(vms: Seq<VmRecordModel>)
    ensures
        forall|i: int|
            0 <= i < spec_mapped(vms, false).len() ==> (#[trigger] spec_mapped(
                vms,
                false,
            )[i]).credentials is None,
{
}

/// When credential data was requested, every machine whose record carries
/// credential data presents it unchanged.
pub proof fn lemma_credentials_included_everywhere(vms: Seq<VmRecordModel>)
    ensures
        forall|i: int|
            0 <= i < spec_mapped(vms, true).len() && vms[i].credentials.len() > 0
                ==> (#[trigger] spec_mapped(vms, true)[i]).credentials == Some(vms[i].credentials),
{
}

} // verus!
