//! The public query of the listing endpoint: its raw form as the client
//! sent it, its validated form, and the translation into the upstream VM
//! service's query vocabulary.

use vstd::prelude::*;
use crate::error::{ApiError, ErrorKind};

verus! {

/// Default page size when the client supplies no `limit`.
pub const DEFAULT_LIMIT: u64 = 100;

/// Largest page size a client may request.
pub const MAX_LIMIT: u64 = 1000;

/// The query parameters of `GET /{account}/machines`, exactly as the HTTP
/// layer parsed them; every field is optional and absence means "no filter
/// on this dimension".
pub struct RawListQuery {
    pub machine_type: Option<String>,
    pub brand: Option<String>,
    pub name: Option<String>,
    pub image: Option<String>,
    pub state: Option<String>,
    pub memory: Option<i64>,
    pub tombstone: Option<bool>,
    pub limit: Option<i64>,
    pub offset: Option<i64>,
    pub tag_name: Option<String>,
    pub docker: Option<bool>,
    pub credentials: Option<bool>,
    /// Opaque continuation token from an earlier page, if the client is
    /// resuming a paginated listing.
    pub token: Option<String>,
}

/// Mathematical image of a `RawListQuery`.
pub struct RawListQueryModel {
    pub machine_type: Option<Seq<char>>,
    pub brand: Option<Seq<char>>,
    pub name: Option<Seq<char>>,
    pub image: Option<Seq<char>>,
    pub state: Option<Seq<char>>,
    pub memory: Option<int>,
    pub tombstone: Option<bool>,
    pub limit: Option<int>,
    pub offset: Option<int>,
    pub tag_name: Option<Seq<char>>,
    pub docker: Option<bool>,
    pub credentials: Option<bool>,
    pub token: Option<Seq<char>>,
}

/// The view of an optional string: the character sequence, if present.
pub open spec fn opt_view(o: Option<String>) -> Option<Seq<char>> {
    match o {
        Some(s) => Some(s@),
        None => None,
    }
}

impl View for RawListQuery {
    type V = RawListQueryModel;

    open spec fn view(&self) -> RawListQueryModel {
        RawListQueryModel {
            machine_type: opt_view(self.machine_type),
            brand: opt_view(self.brand),
            name: opt_view(self.name),
            image: opt_view(self.image),
            state: opt_view(self.state),
            memory: match self.memory {
                Some(m) => Some(m as int),
                None => None,
            },
            tombstone: self.tombstone,
            limit: match self.limit {
                Some(l) => Some(l as int),
                None => None,
            },
            offset: match self.offset {
                Some(o) => Some(o as int),
                None => None,
            },
            tag_name: opt_view(self.tag_name),
            docker: self.docker,
            credentials: self.credentials,
            token: opt_view(self.token),
        }
    }
}

/// The filter dimensions of a validated query.  These nine fields are what
/// a continuation token is fingerprinted against: a token issued under one
/// `Filters` value is rejected under any other.
#[derive(Debug)]
pub struct Filters {
    pub machine_type: Option<String>,
    pub brand: Option<String>,
    pub name: Option<String>,
    pub image: Option<String>,
    pub state: Option<String>,
    pub memory: Option<u64>,
    pub tombstone: Option<bool>,
    pub tag_name: Option<String>,
    pub docker: Option<bool>,
}

/// Mathematical image of a `Filters`.
pub struct FiltersModel {
    pub machine_type: Option<Seq<char>>,
    pub brand: Option<Seq<char>>,
    pub name: Option<Seq<char>>,
    pub image: Option<Seq<char>>,
    pub state: Option<Seq<char>>,
    pub memory: Option<u64>,
    pub tombstone: Option<bool>,
    pub tag_name: Option<Seq<char>>,
    pub docker: Option<bool>,
}

impl View for Filters {
    type V = FiltersModel;

    open spec fn view(&self) -> FiltersModel {
        FiltersModel {
            machine_type: opt_view(self.machine_type),
            brand: opt_view(self.brand),
            name: opt_view(self.name),
            image: opt_view(self.image),
            state: opt_view(self.state),
            memory: self.memory,
            tombstone: self.tombstone,
            tag_name: opt_view(self.tag_name),
            docker: self.docker,
        }
    }
}

/// Where a page begins: at the start of the result set, at a record offset
/// (the best-effort legacy alias), or just after a last-seen sort key taken
/// from a continuation token.  A token, when present, takes precedence over
/// an offset.
#[derive(Debug)]
pub enum PageStart {
    Beginning,
    AtOffset(u64),
    After(String),
}

/// Mathematical image of a `PageStart`.
pub enum PageStartModel {
    Beginning,
    AtOffset(u64),
    After(Seq<char>),
}

impl View for PageStart {
    type V = PageStartModel;

    open spec fn view(&self) -> PageStartModel {
        match self {
            PageStart::Beginning => PageStartModel::Beginning,
            PageStart::AtOffset(o) => PageStartModel::AtOffset(*o),
            PageStart::After(k) => PageStartModel::After(k@),
        }
    }
}

/// The validated public query: filter dimensions, a resolved page size in
/// `1 ..= MAX_LIMIT`, a page start position, and whether credential data
/// was requested.
#[derive(Debug)]
pub struct ListQuery {
    pub filters: Filters,
    pub limit: u64,
    pub start: PageStart,
    pub credentials: bool,
}

/// Mathematical image of a `ListQuery`.
pub struct ListQueryModel {
    pub filters: FiltersModel,
    pub limit: u64,
    pub start: PageStartModel,
    pub credentials: bool,
}

impl View for ListQuery {
    type V = ListQueryModel;

    open spec fn view(&self) -> ListQueryModel {
        ListQueryModel {
            filters: self.filters@,
            limit: self.limit,
            start: self.start@,
            credentials: self.credentials,
        }
    }
}

/// A negative memory filter is unsatisfiable.
pub open spec fn memory_invalid(r: RawListQueryModel) -> bool {
    match r.memory {
        Some(m) => m < 0,
        None => false,
    }
}

/// A requested page size must be positive and at most `MAX_LIMIT`.
pub open spec fn limit_invalid(r: RawListQueryModel) -> bool {
    match r.limit {
        Some(l) => l < 1 || l > MAX_LIMIT as int,
        None => false,
    }
}

/// A record offset must not be negative.
pub open spec fn offset_invalid(r: RawListQueryModel) -> bool {
    match r.offset {
        Some(o) => o < 0,
        None => false,
    }
}

/// A tag-presence filter must name a non-empty tag key.
pub open spec fn tag_name_invalid(r: RawListQueryModel) -> bool {
    match r.tag_name {
        Some(t) => t.len() == 0,
        None => false,
    }
}

/// The first invalid filter field of a raw query, by the fixed order in
/// which fields are checked; `None` when every filter field is acceptable.
pub open spec fn spec_invalid_field(r: RawListQueryModel) -> Option<Seq<char>> {
    if memory_invalid(r) {
        Some("memory"@)
    } else if limit_invalid(r) {
        Some("limit"@)
    } else if offset_invalid(r) {
        Some("offset"@)
    } else if tag_name_invalid(r) {
        Some("tag_name"@)
    } else {
        None
    }
}

/// The filter dimensions a valid raw query selects.
pub open spec fn spec_filters_of(r: RawListQueryModel) -> FiltersModel {
    FiltersModel {
        machine_type: r.machine_type,
        brand: r.brand,
        name: r.name,
        image: r.image,
        state: r.state,
        memory: match r.memory {
            Some(m) => Some(m as u64),
            None => None,
        },
        tombstone: r.tombstone,
        tag_name: r.tag_name,
        docker: r.docker,
    }
}

/// The resolved page size of a valid raw query.
pub open spec fn spec_limit_of(r: RawListQueryModel) -> u64 {
    match r.limit {
        Some(l) => l as u64,
        None => DEFAULT_LIMIT,
    }
}

/// The page start a valid raw query selects, before any continuation token
/// is taken into account.
pub open spec fn spec_offset_start_of(r: RawListQueryModel) -> PageStartModel {
    match r.offset {
        Some(o) => PageStartModel::AtOffset(o as u64),
        None => PageStartModel::Beginning,
    }
}

/// The validated query a valid raw query denotes, before any continuation
/// token is taken into account.
pub open spec fn spec_validated(r: RawListQueryModel) -> ListQueryModel {
    ListQueryModel {
        filters: spec_filters_of(r),
        limit: spec_limit_of(r),
        start: spec_offset_start_of(r),
        credentials: match r.credentials {
            Some(c) => c,
            None => false,
        },
    }
}

fn clone_opt_string(o: &Option<String>) -> (r: Option<String>)
    ensures
        opt_view(r) == opt_view(*o),
{
    match o {
        Some(s) => Some(s.clone()),
        None => None,
    }
}

/// Validates the filter, limit and offset parameters of a raw query.
///
/// Returns the validated query, or `InvalidFilter` naming the first field
/// whose value is unsatisfiable.  The continuation token, if any, is not
/// interpreted here; the returned page start reflects the offset alias
/// alone.  No upstream work happens before this check.
pub fn validate(raw: &RawListQuery) -> (r: Result<ListQuery, ApiError>)
    ensures
        match r {
            Ok(q) => spec_invalid_field(raw@) is None && q@ == spec_validated(raw@),
            Err(e) => {
                &&& spec_invalid_field(raw@) is Some
                &&& e.kind == ErrorKind::InvalidFilter
                &&& e.field@ == spec_invalid_field(raw@)->Some_0
            },
        },
{
    if let Some(m) = raw.memory {
        if m < 0 {
            return Err(ApiError::invalid_filter("memory"));
        }
    }
    if let Some(l) = raw.limit {
        if l < 1 || l > MAX_LIMIT as i64 {
            return Err(ApiError::invalid_filter("limit"));
        }
    }
    if let Some(o) = raw.offset {
        if o < 0 {
            return Err(ApiError::invalid_filter("offset"));
        }
    }
    if let Some(t) = &raw.tag_name {
        if t.as_str().is_empty() {
            return Err(ApiError::invalid_filter("tag_name"));
        }
    }
    let filters = Filters {
        machine_type: clone_opt_string(&raw.machine_type),
        brand: clone_opt_string(&raw.brand),
        name: clone_opt_string(&raw.name),
        image: clone_opt_string(&raw.image),
        state: clone_opt_string(&raw.state),
        memory: match raw.memory {
            Some(m) => Some(m as u64),
            None => None,
        },
        tombstone: raw.tombstone,
        tag_name: clone_opt_string(&raw.tag_name),
        docker: raw.docker,
    };
    let limit: u64 = match raw.limit {
        Some(l) => l as u64,
        None => DEFAULT_LIMIT,
    };
    let start = match raw.offset {
        Some(o) => PageStart::AtOffset(o as u64),
        None => PageStart::Beginning,
    };
    Ok(ListQuery {
        filters,
        limit,
        start,
        credentials: match raw.credentials {
            Some(c) => c,
            None => false,
        },
    })
}

/// The filter set in the upstream VM service's vocabulary: a pure
/// projection of the public filter dimensions, constructed fresh for each
/// request.
#[derive(Debug)]
pub struct UpstreamQuery {
    /// From the public `type` filter: the VM's role.
    pub role: Option<String>,
    pub brand: Option<String>,
    /// From the public `name` filter: the VM's alias.
    pub alias: Option<String>,
    pub state: Option<String>,
    /// From the public `image` filter: the VM's image reference.
    pub image_uuid: Option<String>,
    /// From the public `memory` filter: the VM's RAM allocation.
    pub ram: Option<u64>,
    /// From the public `tombstone` filter: whether destroyed VMs are
    /// included.
    pub include_destroyed: Option<bool>,
    /// From the public `tag_name` filter: the tag key that must be present.
    pub tag_key: Option<String>,
    pub docker: Option<bool>,
}

/// Mathematical image of an `UpstreamQuery`.
pub struct UpstreamQueryModel {
    pub role: Option<Seq<char>>,
    pub brand: Option<Seq<char>>,
    pub alias: Option<Seq<char>>,
    pub state: Option<Seq<char>>,
    pub image_uuid: Option<Seq<char>>,
    pub ram: Option<u64>,
    pub include_destroyed: Option<bool>,
    pub tag_key: Option<Seq<char>>,
    pub docker: Option<bool>,
}

impl View for UpstreamQuery {
    type V = UpstreamQueryModel;

    open spec fn view(&self) -> UpstreamQueryModel {
        UpstreamQueryModel {
            role: opt_view(self.role),
            brand: opt_view(self.brand),
            alias: opt_view(self.alias),
            state: opt_view(self.state),
            image_uuid: opt_view(self.image_uuid),
            ram: self.ram,
            include_destroyed: self.include_destroyed,
            tag_key: opt_view(self.tag_key),
            docker: self.docker,
        }
    }
}

/// The upstream query a filter set translates to: each public dimension
/// carried over unchanged into the upstream field of the same meaning.
pub open spec fn spec_translate(f: FiltersModel) -> UpstreamQueryModel {
    UpstreamQueryModel {
        role: f.machine_type,
        brand: f.brand,
        alias: f.name,
        state: f.state,
        image_uuid: f.image,
        ram: f.memory,
        include_destroyed: f.tombstone,
        tag_key: f.tag_name,
        docker: f.docker,
    }
}

/// Translates validated filter dimensions into the upstream vocabulary.
/// Pure: the result is a function of the filters alone.
pub fn translate(f: &Filters) -> (r: UpstreamQuery)
    ensures
        r@ == spec_translate(f@),
{
    UpstreamQuery {
        role: clone_opt_string(&f.machine_type),
        brand: clone_opt_string(&f.brand),
        alias: clone_opt_string(&f.name),
        state: clone_opt_string(&f.state),
        image_uuid: clone_opt_string(&f.image),
        ram: f.memory,
        include_destroyed: f.tombstone,
        tag_key: clone_opt_string(&f.tag_name),
        docker: f.docker,
    }
}

/// The translator is a pure function of its input: equal filter sets always
/// translate to equal upstream queries, with no hidden state.
pub proof fn lemma_translate_deterministic(a: FiltersModel, b: FiltersModel)
    requires
        a == b,
    ensures
        spec_translate(a) == spec_translate(b),
{
}

/// Scan parameters of the paginated listing: the scan is fully determined
/// by the filter fields, so there is nothing here.
pub struct EmptyScanParams {}

} // verus!
