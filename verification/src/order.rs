//! The stable, total ordering of the result set: lexicographic order on
//! machine identifiers, and a verified sort of the mapped machines.

use vstd::prelude::*;
use crate::machine::{Machine, MachineModel};
use vstd::multiset::Multiset;

verus! {

/// Strict lexicographic order on character sequences: the usual dictionary
/// order, by character value.
pub open spec fn lex_lt(a: Seq<char>, b: Seq<char>) -> bool
    decreases a.len(),
{
    if b.len() == 0 {
        false
    } else if a.len() == 0 {
        true
    } else if a[0] != b[0] {
        a[0] < b[0]
    } else {
        lex_lt(a.skip(1), b.skip(1))
    }
}

/// Non-strict lexicographic order.
pub open spec fn lex_le(a: Seq<char>, b: Seq<char>) -> bool {
    lex_lt(a, b) || a == b
}

/// The order is total: any two sequences are comparable.
pub proof fn lemma_lex_trichotomy(a: Seq<char>, b: Seq<char>)
    ensures
        lex_lt(a, b) || lex_lt(b, a) || a == b,
    decreases a.len(),
{
    if b.len() == 0 || a.len() == 0 {
    } else if a[0] != b[0] {
    } else {
        lemma_lex_trichotomy(a.skip(1), b.skip(1));
        if !lex_lt(a, b) && !lex_lt(b, a) {
            assert(a.skip(1) == b.skip(1));
            assert forall|i: int| 0 <= i < a.len() implies a[i] == b[i] by {
                if i > 0 {
                    assert(a[i] == a.skip(1)[i - 1]);
                    assert(b[i] == b.skip(1)[i - 1]);
                }
            }
            assert(a =~= b);
        }
    }
}

/// The order is asymmetric: nothing is both below and above.
pub proof fn lemma_lex_asymmetric(a: Seq<char>, b: Seq<char>)
    requires
        lex_lt(a, b),
    ensures
        !lex_lt(b, a),
    decreases a.len(),
{
    if b.len() == 0 || a.len() == 0 {
    } else if a[0] != b[0] {
    } else {
        lemma_lex_asymmetric(a.skip(1), b.skip(1));
    }
}

/// The order is irreflexive.
pub proof fn lemma_lex_irreflexive(a: Seq<char>)
    ensures
        !lex_lt(a, a),
    decreases a.len(),
{
    if a.len() > 0 {
        lemma_lex_irreflexive(a.skip(1));
    }
}

/// The order is transitive.
pub proof fn lemma_lex_transitive(a: Seq<char>, b: Seq<char>, c: Seq<char>)
    requires
        lex_lt(a, b),
        lex_lt(b, c),
    ensures
        lex_lt(a, c),
    decreases a.len(),
{
    if b.len() == 0 || c.len() == 0 {
    } else if a.len() == 0 {
    } else {
        if a[0] == b[0] && b[0] == c[0] {
            lemma_lex_transitive(a.skip(1), b.skip(1), c.skip(1));
        }
    }
}

/// Decides strict lexicographic order on two string slices.
pub fn str_lex_lt(a: &str, b: &str) -> (r: bool)
    ensures
        r == lex_lt(a@, b@),
    decreases a@.len(),
{
    let alen = a.unicode_len();
    let blen = b.unicode_len();
    if blen == 0 {
        false
    } else if alen == 0 {
        true
    } else {
        let ca = a.get_char(0);
        let cb = b.get_char(0);
        if ca != cb {
            ca < cb
        } else {
            let ra = a.substring_char(1, alen);
            let rb = b.substring_char(1, blen);
            proof {
                assert(ra@ =~= a@.skip(1));
                assert(rb@ =~= b@.skip(1));
            }
            str_lex_lt(ra, rb)
        }
    }
}

/// The models of a sequence of machines.
pub open spec fn machines_view(s: Seq<Machine>) -> Seq<MachineModel> {
    s.map_values(|m: Machine| m@)
}

/// A machine sequence sorted by identifier, the stable composite sort key
/// of the listing (the identifier alone, which is unique per machine, so
/// no tie-break is needed).
pub open spec fn sorted_by_id(s: Seq<MachineModel>) -> bool {
    forall|i: int, j: int| 0 <= i < j < s.len() ==> lex_le(#[trigger] s[i].id, #[trigger] s[j].id)
}

/// A machine sequence whose identifiers strictly increase; what sorting
/// yields when identifiers are distinct.
pub open spec fn strictly_sorted_by_id(s: Seq<MachineModel>) -> bool {
    forall|i: int, j: int| 0 <= i < j < s.len() ==> lex_lt(#[trigger] s[i].id, #[trigger] s[j].id)
}

/// Identifiers of the sequence are pairwise distinct.
pub open spec fn distinct_ids(s: Seq<MachineModel>) -> bool {
    forall|i: int, j: int| 0 <= i < j < s.len() ==> #[trigger] s[i].id != #[trigger] s[j].id
}

proof fn lemma_view_insert(s: Seq<Machine>, i: int, x: Machine)
    requires
        0 <= i <= s.len(),
    ensures
        machines_view(s.insert(i, x)) =~= machines_view(s).insert(i, x@),
{
    s.insert_ensures(i, x);
    machines_view(s).insert_ensures(i, x@);
}

/// Where a machine lands when inserted into an identifier-sorted sequence:
/// before the first machine whose identifier is not strictly below its
/// own.
pub open spec fn spec_insert(s: Seq<MachineModel>, m: MachineModel) -> Seq<MachineModel>
    decreases s.len(),
{
    if s.len() > 0 && lex_lt(s[0].id, m.id) {
        seq![s[0]] + spec_insert(s.skip(1), m)
    } else {
        seq![m] + s
    }
}

/// Insertion sort by machine identifier, as a function: the unique result
/// the library's ordering step produces.
pub open spec fn spec_sort(s: Seq<MachineModel>) -> Seq<MachineModel>
    decreases s.len(),
{
    if s.len() == 0 {
        Seq::empty()
    } else {
        spec_insert(spec_sort(s.drop_last()), s.last())
    }
}

/// Inserting adds exactly the one machine.
pub proof fn lemma_spec_insert_multiset(s: Seq<MachineModel>, m: MachineModel)
    ensures
        spec_insert(s, m).to_multiset() =~= s.to_multiset().insert(m),
        spec_insert(s, m).len() == s.len() + 1,
    decreases s.len(),
{
    broadcast use vstd::multiset::group_multiset_axioms;
    broadcast use vstd::seq_lib::group_to_multiset_ensures;

    if s.len() > 0 && lex_lt(s[0].id, m.id) {
        lemma_spec_insert_multiset(s.skip(1), m);
        vstd::seq_lib::lemma_multiset_commutative(seq![s[0]], spec_insert(s.skip(1), m));
        vstd::seq_lib::lemma_multiset_commutative(seq![s[0]], s.skip(1));
        assert(seq![s[0]] + s.skip(1) =~= s);
        assert(spec_insert(s, m).to_multiset() =~= seq![s[0]].to_multiset().add(
            spec_insert(s.skip(1), m).to_multiset(),
        ));
        assert(seq![s[0]].to_multiset().add(s.skip(1).to_multiset().insert(m)) =~= seq![
            s[0],
        ].to_multiset().add(s.skip(1).to_multiset()).insert(m));
    } else {
        vstd::seq_lib::lemma_multiset_commutative(seq![m], s);
        assert(seq![m].to_multiset() =~= Multiset::empty().insert(m));
        assert(Multiset::empty().insert(m).add(s.to_multiset()) =~= s.to_multiset().insert(m));
    }
}

/// Sorting keeps exactly the machines of the input.
pub proof fn lemma_spec_sort_multiset(s: Seq<MachineModel>)
    ensures
        spec_sort(s).to_multiset() =~= s.to_multiset(),
        spec_sort(s).len() == s.len(),
    decreases s.len(),
{
    broadcast use vstd::multiset::group_multiset_axioms;
    broadcast use vstd::seq_lib::group_to_multiset_ensures;

    if s.len() > 0 {
        lemma_spec_sort_multiset(s.drop_last());
        lemma_spec_insert_multiset(spec_sort(s.drop_last()), s.last());
        assert(s.drop_last().push(s.last()) =~= s);
        assert(s.drop_last().push(s.last()).to_multiset() =~= s.drop_last().to_multiset().insert(
            s.last(),
        ));
    }
}

/// Inserting into an identifier-sorted sequence keeps it sorted.
pub proof fn lemma_spec_insert_sorted(s: Seq<MachineModel>, m: MachineModel)
    requires
        sorted_by_id(s),
    ensures
        sorted_by_id(spec_insert(s, m)),
    decreases s.len(),
{
    let r = spec_insert(s, m);
    if s.len() > 0 && lex_lt(s[0].id, m.id) {
        assert(sorted_by_id(s.skip(1)));
        lemma_spec_insert_sorted(s.skip(1), m);
        let r1 = spec_insert(s.skip(1), m);
        lemma_spec_insert_multiset(s.skip(1), m);
        // Every machine of the inserted tail is either the new machine or
        // one of the old tail, so the head stays below all of them.
        assert forall|j: int| 0 <= j < r1.len() implies lex_le(s[0].id, r1[j].id) by {
            lemma_spec_insert_member(s.skip(1), m, j);
            if r1[j] == m {
                assert(lex_lt(s[0].id, m.id));
            } else {
                let k = choose|k: int| 0 <= k < s.skip(1).len() && s.skip(1)[k] == r1[j];
                assert(lex_le(s[0].id, s[k + 1].id));
            }
        }
        assert forall|i: int, j: int| 0 <= i < j < r.len() implies lex_le(
            r[i].id,
            r[j].id,
        ) by {
            if i == 0 {
                assert(r[j] == r1[j - 1]);
            } else {
                assert(r[i] == r1[i - 1] && r[j] == r1[j - 1]);
            }
        }
    } else {
        assert forall|i: int, j: int| 0 <= i < j < r.len() implies lex_le(
            r[i].id,
            r[j].id,
        ) by {
            if i == 0 {
                lemma_lex_trichotomy(m.id, s[j - 1].id);
                if j - 1 == 0 {
                } else {
                    assert(lex_le(s[0].id, s[j - 1].id));
                    if s.len() > 0 && !lex_lt(s[0].id, m.id) {
                        lemma_lex_trichotomy(s[0].id, m.id);
                        if lex_lt(m.id, s[0].id) || m.id == s[0].id {
                            if s[0].id == s[j - 1].id {
                            } else {
                                if m.id == s[0].id {
                                } else {
                                    lemma_lex_transitive(m.id, s[0].id, s[j - 1].id);
                                }
                            }
                        }
                    }
                }
            } else {
                assert(r[i] == s[i - 1] && r[j] == s[j - 1]);
            }
        }
    }
}

/// Every position of an insertion holds the new machine or one of the old
/// sequence.
proof fn lemma_spec_insert_member(s: Seq<MachineModel>, m: MachineModel, j: int)
    requires
        0 <= j < spec_insert(s, m).len(),
    ensures
        spec_insert(s, m)[j] == m || exists|k: int| 0 <= k < s.len() && s[k] == spec_insert(s, m)[j],
    decreases s.len(),
{
    lemma_spec_insert_multiset(s, m);
    let r = spec_insert(s, m);
    if s.len() > 0 && lex_lt(s[0].id, m.id) {
        if j == 0 {
            assert(s[0] == r[0]);
        } else {
            lemma_spec_insert_member(s.skip(1), m, j - 1);
            if spec_insert(s.skip(1), m)[j - 1] == m {
            } else {
                let k = choose|k: int|
                    0 <= k < s.skip(1).len() && s.skip(1)[k] == spec_insert(s.skip(1), m)[j - 1];
                assert(s[k + 1] == r[j]);
            }
        }
    } else {
        if j > 0 {
            assert(s[j - 1] == r[j]);
        }
    }
}

/// The sorted arrangement of the machines: every machine of the input,
/// in identifier order.
pub proof fn lemma_spec_sort_sorted(s: Seq<MachineModel>)
    ensures
        sorted_by_id(spec_sort(s)),
    decreases s.len(),
{
    if s.len() > 0 {
        lemma_spec_sort_sorted(s.drop_last());
        lemma_spec_insert_sorted(spec_sort(s.drop_last()), s.last());
    }
}

fn clone_string(s: &String) -> (r: String)
    ensures
        r@ == s@,
{
    s.clone()
}

/// A field-for-field copy of a machine.
pub fn clone_machine(m: &Machine) -> (r: Machine)
    ensures
        r@ == m@,
{
    let credentials = match &m.credentials {
        Some(c) => Some(crate::machine::clone_pairs(c)),
        None => None,
    };
    Machine {
        id: m.id.clone(),
        name: m.name.clone(),
        machine_type: m.machine_type.clone(),
        brand: m.brand.clone(),
        state: m.state,
        image: m.image.clone(),
        memory: m.memory,
        tags: crate::machine::clone_pairs(&m.tags),
        created: m.created,
        credentials,
    }
}

fn insert_sorted(out: &mut Vec<Machine>, m: Machine)
    ensures
        machines_view(final(out)@) == spec_insert(machines_view(old(out)@), m@),
{
    let mut p: usize = 0;
    while p < out.len() && str_lex_lt(out[p].id.as_str(), m.id.as_str())
        invariant
            p <= out.len(),
            forall|k: int| 0 <= k < p ==> lex_lt(#[trigger] machines_view(out@)[k].id, m@.id),
        decreases out.len() - p,
    {
        p += 1;
    }
    let ghost pre = out@;
    let ghost pi = p as int;
    out.insert(p, m);
    proof {
        lemma_view_insert(pre, pi, m);
        lemma_insert_at(machines_view(pre), m@, pi);
        assert(machines_view(pre).insert(pi, m@) =~= machines_view(pre).subrange(0, pi) + seq![m@]
            + machines_view(pre).subrange(pi, machines_view(pre).len() as int));
    }
}

/// The recursive insertion point is exactly the first position whose
/// identifier is not strictly below the new one.
proof fn lemma_insert_at(s: Seq<MachineModel>, m: MachineModel, p: int)
    requires
        0 <= p <= s.len(),
        forall|k: int| 0 <= k < p ==> lex_lt(#[trigger] s[k].id, m.id),
        p == s.len() || !lex_lt(s[p].id, m.id),
    ensures
        spec_insert(s, m) == s.subrange(0, p) + seq![m] + s.subrange(p, s.len() as int),
    decreases s.len(),
{
    if p == 0 {
        assert(s.subrange(0, 0) =~= Seq::<MachineModel>::empty());
        assert(s.subrange(0, s.len() as int) =~= s);
        assert(spec_insert(s, m) =~= s.subrange(0, 0) + seq![m] + s.subrange(0, s.len() as int));
    } else {
        assert(lex_lt(s[0].id, m.id));
        let s1 = s.skip(1);
        assert forall|k: int| 0 <= k < p - 1 implies lex_lt(#[trigger] s1[k].id, m.id) by {
            assert(s1[k] == s[k + 1]);
        }
        lemma_insert_at(s1, m, p - 1);
        assert(spec_insert(s, m) == seq![s[0]] + spec_insert(s1, m));
        assert(seq![s[0]] + (s1.subrange(0, p - 1) + seq![m] + s1.subrange(p - 1, s1.len() as int))
            =~= s.subrange(0, p) + seq![m] + s.subrange(p, s.len() as int));
    }
}

/// Sorts machines by identifier: returns exactly `spec_sort` of the input,
/// the identifier-ordered arrangement of the same machines.
pub fn sort_by_id(v: &Vec<Machine>) -> (r: Vec<Machine>)
    ensures
        machines_view(r@) == spec_sort(machines_view(v@)),
        sorted_by_id(machines_view(r@)),
        machines_view(r@).to_multiset() == machines_view(v@).to_multiset(),
{
    let mut out: Vec<Machine> = Vec::new();
    let mut i: usize = 0;
    while i < v.len()
        invariant
            i <= v.len(),
            machines_view(out@) == spec_sort(machines_view(v@).take(i as int)),
        decreases v.len() - i,
    {
        let m = clone_machine(&v[i]);
        insert_sorted(&mut out, m);
        proof {
            let mv = machines_view(v@);
            assert(mv.take(i as int + 1).drop_last() =~= mv.take(i as int));
            assert(mv.take(i as int + 1).last() == mv[i as int]);
        }
        i += 1;
    }
    proof {
        assert(machines_view(v@).take(v@.len() as int) =~= machines_view(v@));
        lemma_spec_sort_sorted(machines_view(v@));
        lemma_spec_sort_multiset(machines_view(v@));
    }
    out
}

/// A machine that occurs twice in a sequence, or two distinct machines
/// sharing an identifier, contradict pairwise-distinct identifiers.
proof fn lemma_two_indices_of_count(s: Seq<MachineModel>, m1: MachineModel, m2: MachineModel)
    requires
        m1.id == m2.id,
        (if m1 == m2 {
            s.to_multiset().count(m1) >= 2
        } else {
            s.to_multiset().count(m1) >= 1 && s.to_multiset().count(m2) >= 1
        }),
    ensures
        !distinct_ids(s),
{
    broadcast use vstd::multiset::group_multiset_axioms;
    broadcast use vstd::seq_lib::group_to_multiset_ensures;

    vstd::seq_lib::to_multiset_contains(s, m1);
    assert(s.contains(m1));
    let i1 = choose|i: int| 0 <= i < s.len() && s[i] == m1;
    let s2 = s.remove(i1);
    vstd::seq_lib::to_multiset_remove(s, i1);
    if m1 == m2 {
        assert(s2.to_multiset().count(m1) >= 1);
    } else {
        assert(s2.to_multiset().count(m2) >= 1);
    }
    vstd::seq_lib::to_multiset_contains(s2, m2);
    assert(s2.contains(m2));
    let i2 = choose|i: int| 0 <= i < s2.len() && s2[i] == m2;
    s.remove_ensures(i1);
    let j2: int = if i2 < i1 {
        i2
    } else {
        i2 + 1
    };
    assert(s[j2] == m2);
    assert(j2 != i1);
    assert(s[i1].id == s[j2].id);
}

/// Sorting machines with pairwise-distinct identifiers keeps the
/// identifiers pairwise distinct.
pub proof fn lemma_sort_preserves_distinct_ids(s: Seq<MachineModel>)
    requires
        distinct_ids(s),
    ensures
        distinct_ids(spec_sort(s)),
{
    broadcast use vstd::multiset::group_multiset_axioms;
    broadcast use vstd::seq_lib::group_to_multiset_ensures;

    lemma_spec_sort_multiset(s);
    let t = spec_sort(s);
    assert forall|i: int, j: int| 0 <= i < j < t.len() implies #[trigger] t[i].id
        != #[trigger] t[j].id by {
        if t[i].id == t[j].id {
            if t[i] == t[j] {
                let t2 = t.remove(j);
                vstd::seq_lib::to_multiset_remove(t, j);
                t.remove_ensures(j);
                assert(t2[i] == t[i]);
                assert(t2.contains(t[i]));
                vstd::seq_lib::to_multiset_contains(t2, t[i]);
                assert(t2.to_multiset().count(t[i]) >= 1);
                assert(t.to_multiset().count(t[i]) >= 2);
                lemma_two_indices_of_count(s, t[i], t[j]);
            } else {
                assert(t.contains(t[i]));
                assert(t.contains(t[j]));
                vstd::seq_lib::to_multiset_contains(t, t[i]);
                vstd::seq_lib::to_multiset_contains(t, t[j]);
                lemma_two_indices_of_count(s, t[i], t[j]);
            }
        }
    }
}

/// Sorting a set of machines with pairwise-distinct identifiers yields a
/// strictly increasing identifier sequence.
pub proof fn lemma_sorted_distinct_strict(s: Seq<MachineModel>)
    requires
        sorted_by_id(s),
        distinct_ids(s),
    ensures
        strictly_sorted_by_id(s),
{
}

} // verus!
