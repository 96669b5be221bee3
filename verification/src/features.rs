//! Feature sets and their normal form: every name once, in ascending order.

use vstd::prelude::*;
use crate::order::{
    lemma_precedes_asymmetric, lemma_precedes_connected, lemma_precedes_irreflexive,
    lemma_precedes_transitive, precedes, str_precedes,
};

verus! {

/// The names that a list of feature strings holds, in the list's order.
pub open spec fn names_of(features: Seq<String>) -> Seq<Seq<char>> {
    features.map_values(|s: String| s@)
}

/// Each name strictly precedes every later one, so no name occurs twice.
pub open spec fn strictly_ascending(names: Seq<Seq<char>>) -> bool {
    forall|i: int, j: int|
        0 <= i < j < names.len() ==> precedes(#[trigger] names[i], #[trigger] names[j])
}

/// `names` lists exactly the members of `features`, in ascending order.
pub open spec fn is_normal_form(names: Seq<Seq<char>>, features: Set<Seq<char>>) -> bool {
    strictly_ascending(names) && names.to_set() == features
}

/// The normal form of a feature set. A finite set has one
/// (`lemma_normal_form_exists`) and only one (`lemma_normal_form_unique`);
/// `normalize` computes it.
pub open spec fn normalized(features: Set<Seq<char>>) -> Seq<Seq<char>> {
    choose|names: Seq<Seq<char>>| is_normal_form(names, features)
}

/// Part of an ascending list is ascending.
proof fn lemma_ascending_part(names: Seq<Seq<char>>, from: int, to: int)
    requires
        strictly_ascending(names),
        0 <= from <= to <= names.len(),
    ensures
        strictly_ascending(names.subrange(from, to)),
{
    let part = names.subrange(from, to);
    assert forall|i: int, j: int| 0 <= i < j < part.len() implies precedes(
        #[trigger] part[i],
        #[trigger] part[j],
    ) by {
        assert(precedes(names[from + i], names[from + j]));
    }
}

/// The first name of an ascending list precedes every other member.
proof fn lemma_first_is_least(names: Seq<Seq<char>>, member: Seq<char>)
    requires
        strictly_ascending(names),
        names.to_set().contains(member),
    ensures
        names.len() > 0,
        member == names[0] || (precedes(names[0], member) && names.drop_first().to_set().contains(
            member,
        )),
{
    let at = choose|at: int| 0 <= at < names.len() && names[at] == member;
    if at > 0 {
        assert(precedes(names[0], names[at]));
        assert(names.drop_first()[at - 1] == member);
    }
}

/// Ascending lists with the same members and the same first name have the
/// same members behind the first.
proof fn lemma_rest_has_members(a: Seq<Seq<char>>, b: Seq<Seq<char>>, member: Seq<char>)
    requires
        strictly_ascending(a),
        strictly_ascending(b),
        a.to_set() == b.to_set(),
        a.len() > 0,
        b.len() > 0,
        a[0] == b[0],
        a.drop_first().to_set().contains(member),
    ensures
        b.drop_first().to_set().contains(member),
{
    let at = choose|at: int| 0 <= at < a.drop_first().len() && a.drop_first()[at] == member;
    assert(precedes(a[0], a[at + 1]));
    assert(a.to_set().contains(a[at + 1]));
    lemma_first_is_least(b, member);
    lemma_precedes_irreflexive(member);
}

/// Two ascending lists with the same members are the same list.
pub proof fn lemma_normal_form_unique(a: Seq<Seq<char>>, b: Seq<Seq<char>>)
    requires
        strictly_ascending(a),
        strictly_ascending(b),
        a.to_set() == b.to_set(),
    ensures
        a == b,
    decreases a.len(),
{
    if a.len() == 0 || b.len() == 0 {
        if a.len() > 0 {
            assert(a.to_set().contains(a[0]));
        }
        if b.len() > 0 {
            assert(b.to_set().contains(b[0]));
        }
        assert(a =~= b);
    } else {
        assert(a.to_set().contains(a[0]));
        assert(b.to_set().contains(b[0]));
        lemma_first_is_least(a, b[0]);
        lemma_first_is_least(b, a[0]);
        if a[0] != b[0] {
            lemma_precedes_asymmetric(a[0], b[0]);
        }
        let rest_a = a.drop_first();
        let rest_b = b.drop_first();
        lemma_ascending_part(a, 1, a.len() as int);
        lemma_ascending_part(b, 1, b.len() as int);
        assert forall|member: Seq<char>| rest_a.to_set().contains(member)
            <==> rest_b.to_set().contains(member) by {
            if rest_a.to_set().contains(member) {
                lemma_rest_has_members(a, b, member);
            }
            if rest_b.to_set().contains(member) {
                lemma_rest_has_members(b, a, member);
            }
        }
        assert(rest_a.to_set() =~= rest_b.to_set());
        lemma_normal_form_unique(rest_a, rest_b);
        assert(a =~= seq![a[0]] + rest_a);
        assert(b =~= seq![b[0]] + rest_b);
    }
}

/// `names` with `name` put in its place, unless it is listed already.
pub open spec fn with_name(names: Seq<Seq<char>>, name: Seq<char>) -> Seq<Seq<char>>
    decreases names.len(),
{
    if names.len() == 0 {
        seq![name]
    } else if names.last() == name {
        names
    } else if precedes(names.last(), name) {
        names.push(name)
    } else {
        with_name(names.drop_last(), name).push(names.last())
    }
}

/// A name that is not listed goes behind the smaller names and before the
/// greater ones.
proof fn lemma_with_name_inserts(names: Seq<Seq<char>>, name: Seq<char>, at: int)
    requires
        0 <= at <= names.len(),
        forall|i: int| 0 <= i < at ==> precedes(#[trigger] names[i], name),
        forall|i: int| at <= i < names.len() ==> precedes(name, #[trigger] names[i]),
    ensures
        with_name(names, name) == names.insert(at, name),
    decreases names.len(),
{
    lemma_precedes_irreflexive(name);
    if names.len() == 0 {
        assert(seq![name] =~= names.insert(at, name));
    } else if at == names.len() {
        assert(precedes(names[names.len() - 1], name));
        assert(names.push(name) =~= names.insert(at, name));
    } else {
        assert(precedes(name, names[names.len() - 1]));
        lemma_precedes_asymmetric(name, names.last());
        lemma_with_name_inserts(names.drop_last(), name, at);
        assert(names.drop_last().insert(at, name).push(names.last()) =~= names.insert(at, name));
    }
}

/// A name that is listed changes nothing.
proof fn lemma_with_name_present(names: Seq<Seq<char>>, name: Seq<char>, at: int)
    requires
        strictly_ascending(names),
        0 <= at < names.len(),
        names[at] == name,
    ensures
        with_name(names, name) == names,
    decreases names.len(),
{
    if at < names.len() - 1 {
        assert(precedes(names[at], names[names.len() - 1]));
        lemma_precedes_irreflexive(name);
        lemma_precedes_asymmetric(name, names.last());
        lemma_ascending_part(names, 0, names.len() - 1);
        lemma_with_name_present(names.drop_last(), name, at);
        assert(names.drop_last().push(names.last()) =~= names);
    }
}

/// Putting a name in its place keeps the list ascending and adds just that
/// name to its members.
pub proof fn lemma_with_name(names: Seq<Seq<char>>, name: Seq<char>)
    requires
        strictly_ascending(names),
    ensures
        is_normal_form(with_name(names, name), names.to_set().insert(name)),
    decreases names.len(),
{
    let out = with_name(names, name);
    if names.len() == 0 {
        assert(out[0] == name);
        assert(out.to_set() =~= names.to_set().insert(name));
    } else if names.last() == name {
        assert(names.to_set().contains(names[names.len() - 1]));
        assert(out.to_set() =~= names.to_set().insert(name));
    } else if precedes(names.last(), name) {
        names.lemma_push_to_set_commute(name);
        assert forall|i: int, j: int| 0 <= i < j < out.len() implies precedes(
            #[trigger] out[i],
            #[trigger] out[j],
        ) by {
            if j < names.len() {
                assert(precedes(names[i], names[j]));
            } else if i < names.len() - 1 {
                assert(precedes(names[i], names[names.len() - 1]));
                lemma_precedes_transitive(names[i], names.last(), name);
            }
        }
    } else {
        let init = names.drop_last();
        let last = names.last();
        let placed = with_name(init, name);
        lemma_ascending_part(names, 0, names.len() - 1);
        lemma_with_name(init, name);
        lemma_precedes_connected(last, name);
        assert(names =~= init.push(last));
        init.lemma_push_to_set_commute(last);
        placed.lemma_push_to_set_commute(last);
        assert(out.to_set() =~= names.to_set().insert(name));
        assert forall|i: int, j: int| 0 <= i < j < out.len() implies precedes(
            #[trigger] out[i],
            #[trigger] out[j],
        ) by {
            if j < placed.len() {
                assert(precedes(placed[i], placed[j]));
            } else {
                assert(placed.to_set().contains(placed[i]));
                if placed[i] != name {
                    let at = choose|at: int| 0 <= at < init.len() && init[at] == placed[i];
                    assert(precedes(names[at], names[names.len() - 1]));
                }
            }
        }
    }
}

/// The members of any list of names have a normal form.
pub proof fn lemma_list_has_normal_form(list: Seq<Seq<char>>)
    ensures
        is_normal_form(normalized(list.to_set()), list.to_set()),
    decreases list.len(),
{
    if list.len() == 0 {
        assert(Seq::<Seq<char>>::empty().to_set() =~= list.to_set());
        assert(is_normal_form(Seq::empty(), list.to_set()));
    } else {
        let init = list.drop_last();
        lemma_list_has_normal_form(init);
        lemma_with_name(normalized(init.to_set()), list.last());
        assert(list =~= init.push(list.last()));
        init.lemma_push_to_set_commute(list.last());
        assert(is_normal_form(with_name(normalized(init.to_set()), list.last()), list.to_set()));
    }
}

/// Every finite set of names has a normal form.
pub proof fn lemma_normal_form_exists(features: Set<Seq<char>>)
    requires
        features.finite(),
    ensures
        is_normal_form(normalized(features), features),
{
    features.lemma_to_seq_to_set_id();
    lemma_list_has_normal_form(features.to_seq());
}

/// Sorts the feature names and drops repeated ones.
pub fn normalize(features: &[String]) -> (out: Vec<String>)
    ensures
        names_of(out@) == normalized(names_of(features@).to_set()),
        is_normal_form(names_of(out@), names_of(features@).to_set()),
{
    let mut out: Vec<String> = Vec::new();
    let mut k: usize = 0;
    proof {
        assert(names_of(out@).to_set() =~= names_of(features@.take(0)).to_set());
    }
    while k < features.len()
        invariant
            k <= features@.len(),
            is_normal_form(names_of(out@), names_of(features@.take(k as int)).to_set()),
        decreases features@.len() - k,
    {
        let name = &features[k];
        let ghost listed = names_of(out@);
        let mut at: usize = 0;
        while at < out.len() && str_precedes(out[at].as_str(), name.as_str())
            invariant
                at <= out@.len(),
                listed == names_of(out@),
                forall|i: int| 0 <= i < at ==> precedes(#[trigger] listed[i], name@),
            decreases out@.len() - at,
        {
            at += 1;
        }
        let is_listed = at < out.len() && !str_precedes(name.as_str(), out[at].as_str());
        proof {
            let seen = names_of(features@.take(k as int));
            assert(names_of(features@.take(k + 1)) =~= seen.push(name@));
            seen.lemma_push_to_set_commute(name@);
            lemma_with_name(listed, name@);
            if is_listed {
                if listed[at as int] != name@ {
                    lemma_precedes_connected(listed[at as int], name@);
                }
                lemma_with_name_present(listed, name@, at as int);
            } else {
                assert forall|i: int| at <= i < listed.len() implies precedes(
                    name@,
                    #[trigger] listed[i],
                ) by {
                    if i > at {
                        assert(precedes(listed[at as int], listed[i]));
                        lemma_precedes_transitive(name@, listed[at as int], listed[i]);
                    }
                }
                lemma_with_name_inserts(listed, name@, at as int);
            }
        }
        if !is_listed {
            out.insert(at, name.clone());
            assert(names_of(out@) =~= listed.insert(at as int, name@));
        }
        k += 1;
    }
    proof {
        assert(features@.take(k as int) =~= features@);
        lemma_normal_form_unique(names_of(out@), normalized(names_of(features@).to_set()));
    }
    out
}

} // verus!
