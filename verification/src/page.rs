//! The pagination coordinator: where a page begins, which machines it
//! holds, when a continuation token is issued, and the completeness of
//! paging through the whole result set.

use vstd::prelude::*;
use crate::machine::{Machine, MachineModel};
use crate::order::{
    clone_machine, lemma_lex_asymmetric, lemma_lex_irreflexive, lex_lt, machines_view,
    str_lex_lt, strictly_sorted_by_id,
};
use crate::query::{Filters, PageStart, PageStartModel};
use crate::token::{spec_token, encode_token};

verus! {

/// How many leading machines of `s` have an identifier not strictly above
/// `last`.  On an identifier-sorted sequence this is the index of the
/// first machine past the one a continuation token names.
pub open spec fn resume_index(s: Seq<MachineModel>, last: Seq<char>) -> int
    decreases s.len(),
{
    if s.len() == 0 {
        0
    } else if !lex_lt(last, s[0].id) {
        1 + resume_index(s.skip(1), last)
    } else {
        0
    }
}

/// The resume index never leaves the sequence.
pub proof fn lemma_resume_index_bounds(s: Seq<MachineModel>, last: Seq<char>)
    ensures
        0 <= resume_index(s, last) <= s.len(),
    decreases s.len(),
{
    if s.len() > 0 && !lex_lt(last, s[0].id) {
        lemma_resume_index_bounds(s.skip(1), last);
    }
}

/// The resume index is the unique boundary: everything before it is not
/// above `last`, everything from it on is.
proof fn lemma_resume_index_at(s: Seq<MachineModel>, last: Seq<char>, b: int)
    requires
        0 <= b <= s.len(),
        forall|k: int| 0 <= k < b ==> !lex_lt(last, #[trigger] s[k].id),
        b == s.len() || lex_lt(last, s[b].id),
    ensures
        resume_index(s, last) == b,
    decreases s.len(),
{
    if b == 0 {
    } else {
        assert(!lex_lt(last, s[0].id));
        let s1 = s.skip(1);
        assert forall|k: int| 0 <= k < b - 1 implies !lex_lt(last, #[trigger] s1[k].id) by {
            assert(s1[k] == s[k + 1]);
        }
        if b < s.len() {
            assert(s1[b - 1] == s[b]);
        }
        lemma_resume_index_at(s1, last, b - 1);
    }
}

/// The index where a page begins.
pub open spec fn spec_start_index(s: Seq<MachineModel>, start: PageStartModel) -> int {
    match start {
        PageStartModel::Beginning => 0,
        PageStartModel::AtOffset(o) => if o as int <= s.len() {
            o as int
        } else {
            s.len() as int
        },
        PageStartModel::After(last) => resume_index(s, last),
    }
}

/// The index just past a page that begins at `b`.
pub open spec fn spec_end_index(s: Seq<MachineModel>, b: int, limit: u64) -> int {
    if b + limit <= s.len() {
        b + limit
    } else {
        s.len() as int
    }
}

/// The machines of the page that begins at `start`.
pub open spec fn spec_page_items(
    s: Seq<MachineModel>,
    start: PageStartModel,
    limit: u64,
) -> Seq<MachineModel> {
    let b = spec_start_index(s, start);
    s.subrange(b, spec_end_index(s, b, limit))
}

/// Whether machines remain past the page that begins at `start`: exactly
/// then is a continuation token issued.
pub open spec fn spec_has_next(s: Seq<MachineModel>, start: PageStartModel, limit: u64) -> bool {
    spec_start_index(s, start) + limit < s.len()
}

/// A page of the listing: the machines of the current slice, and the
/// continuation token for the next page when this one was cut short by the
/// limit (the terminal page carries none).
pub struct Page {
    pub machines: Vec<Machine>,
    pub next: Option<String>,
}

proof fn lemma_view_push(s: Seq<Machine>, x: Machine)
    ensures
        machines_view(s.push(x)) =~= machines_view(s).push(x@),
{
}

fn start_index(sorted: &Vec<Machine>, start: &PageStart) -> (b: usize)
    ensures
        b as int == spec_start_index(machines_view(sorted@), start@),
{
    match start {
        PageStart::Beginning => 0,
        PageStart::AtOffset(o) => {
            if *o >= sorted.len() as u64 {
                sorted.len()
            } else {
                proof {
                    assert((*o) as int <= machines_view(sorted@).len());
                }
                #[verifier::truncate] (*o as usize)
            }
        },
        PageStart::After(last) => {
            let mut b: usize = 0;
            while b < sorted.len() && !str_lex_lt(last.as_str(), sorted[b].id.as_str())
                invariant
                    b <= sorted.len(),
                    forall|k: int|
                        0 <= k < b ==> !lex_lt(last@, #[trigger] machines_view(sorted@)[k].id),
                decreases sorted.len() - b,
            {
                b += 1;
            }
            proof {
                lemma_resume_index_at(machines_view(sorted@), last@, b as int);
            }
            b
        },
    }
}

/// Cuts the page out of the sorted result set and issues the continuation
/// token exactly when machines remain.  The token binds the filter
/// fingerprint and the identifier of the last machine of this page.
pub fn paginate(sorted: &Vec<Machine>, filters: &Filters, start: &PageStart, limit: u64) -> (p:
    Page)
    requires
        1 <= limit,
    ensures
        machines_view(p.machines@) == spec_page_items(machines_view(sorted@), start@, limit),
        match p.next {
            Some(t) => spec_has_next(machines_view(sorted@), start@, limit) && t@ == spec_token(
                filters@,
                spec_page_items(machines_view(sorted@), start@, limit).last().id,
            ),
            None => !spec_has_next(machines_view(sorted@), start@, limit),
        },
{
    let ghost s = machines_view(sorted@);
    let b = start_index(sorted, start);
    proof {
        if start@ is After {
            lemma_resume_index_bounds(s, start@->After_0);
        }
        assert(b <= s.len());
    }
    let e: usize = if limit <= (sorted.len() - b) as u64 {
        b + limit as usize
    } else {
        sorted.len()
    };
    let mut machines: Vec<Machine> = Vec::new();
    let mut i: usize = b;
    while i < e
        invariant
            b <= i <= e <= sorted.len(),
            machines_view(machines@) == machines_view(sorted@).subrange(b as int, i as int),
        decreases e - i,
    {
        let cm = clone_machine(&sorted[i]);
        proof {
            lemma_view_push(machines@, cm);
        }
        let ghost pre = machines_view(machines@);
        machines.push(cm);
        proof {
            assert(machines_view(machines@) == pre.push(machines_view(sorted@)[i as int]));
            assert(machines_view(machines@) =~= machines_view(sorted@).subrange(
                b as int,
                i as int + 1,
            ));
        }
        i += 1;
    }
    proof {
        assert(e as int == spec_end_index(s, b as int, limit));
        assert(machines_view(machines@) == spec_page_items(s, start@, limit));
    }
    let next = if e < sorted.len() {
        proof {
            assert(machines_view(machines@).len() > 0);
            assert(machines_view(machines@).last() == spec_page_items(s, start@, limit).last());
        }
        let last_machine = &machines[machines.len() - 1];
        Some(encode_token(filters, last_machine.id.as_str()))
    } else {
        None
    };
    Page { machines, next }
}

/// On a strictly sorted result set, resuming after the machine at `k`
/// starts exactly at `k + 1`: the token loses nothing and repeats nothing.
pub proof fn lemma_resume_after(s: Seq<MachineModel>, k: int)
    requires
        strictly_sorted_by_id(s),
        0 <= k < s.len(),
    ensures
        resume_index(s, s[k].id) == k + 1,
{
    assert forall|j: int| 0 <= j < k + 1 implies !lex_lt(s[k].id, #[trigger] s[j].id) by {
        if j < k {
            lemma_lex_asymmetric(s[j].id, s[k].id);
        } else {
            lemma_lex_irreflexive(s[k].id);
        }
    }
    lemma_resume_index_at(s, s[k].id, k + 1);
}

/// The concatenation of every page from index `b` on, following the page
/// boundaries the continuation tokens encode.
pub open spec fn spec_all_pages_from(s: Seq<MachineModel>, b: int, limit: u64) -> Seq<MachineModel>
    decreases s.len() - b
        when 0 <= b <= s.len() && 1 <= limit
{
    if b >= s.len() {
        Seq::empty()
    } else {
        s.subrange(b, spec_end_index(s, b, limit)) + spec_all_pages_from(
            s,
            spec_end_index(s, b, limit),
            limit,
        )
    }
}

/// Pagination completeness: for a fixed filter set and a static snapshot,
/// concatenating all pages obtained by following continuation boundaries
/// from the first page yields exactly the full sorted result set, with no
/// duplicates and no omissions.
pub proof fn lemma_pagination_complete(s: Seq<MachineModel>, limit: u64)
    requires
        1 <= limit,
    ensures
        spec_all_pages_from(s, 0, limit) == s,
{
    lemma_pages_cover(s, 0, limit);
    assert(s.subrange(0, s.len() as int) =~= s);
}

/// Every tail of the page chain covers exactly the remaining records.
pub proof fn lemma_pages_cover(s: Seq<MachineModel>, b: int, limit: u64)
    requires
        0 <= b <= s.len(),
        1 <= limit,
    ensures
        spec_all_pages_from(s, b, limit) == s.subrange(b, s.len() as int),
    decreases s.len() - b,
{
    if b >= s.len() {
        assert(spec_all_pages_from(s, b, limit) =~= s.subrange(b, s.len() as int));
    } else {
        let e = spec_end_index(s, b, limit);
        lemma_pages_cover(s, e, limit);
        assert(s.subrange(b, e) + s.subrange(e, s.len() as int) =~= s.subrange(
            b,
            s.len() as int,
        ));
    }
}

/// Following the token of a non-terminal page starts the next page exactly
/// at this page's end: the chain of `spec_all_pages_from` is the chain a
/// client walks by presenting each returned token in turn.
pub proof fn lemma_token_resumes_next_page(s: Seq<MachineModel>, start: PageStartModel, limit: u64)
    requires
        strictly_sorted_by_id(s),
        1 <= limit,
        0 <= spec_start_index(s, start) <= s.len(),
        spec_has_next(s, start, limit),
    ensures
        spec_start_index(
            s,
            PageStartModel::After(spec_page_items(s, start, limit).last().id),
        ) == spec_end_index(s, spec_start_index(s, start), limit),
{
    let b = spec_start_index(s, start);
    let e = spec_end_index(s, b, limit);
    assert(spec_page_items(s, start, limit).last() == s[e - 1]);
    lemma_resume_after(s, e - 1);
}

} // verus!
