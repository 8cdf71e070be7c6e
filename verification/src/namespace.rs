//! The namespace registry: the column families of all stores, collected in
//! order and checked for global uniqueness.

use vstd::hash_set::StringHashSet;
use vstd::prelude::*;

verus! {

/// The names that a list of string slices spells out.
pub open spec fn names(list: Seq<&str>) -> Seq<Seq<char>> {
    Seq::new(list.len(), |i: int| list[i]@)
}

/// The names of every descriptor, one sequence per store.
pub open spec fn descriptor_names(descriptors: Seq<Vec<&str>>) -> Seq<Seq<Seq<char>>> {
    Seq::new(descriptors.len(), |i: int| names(descriptors[i]@))
}

/// The first name, in scan order, that repeats an earlier one.
pub open spec fn first_duplicate(names: Seq<Seq<char>>) -> Option<Seq<char>>
    decreases names.len(),
{
    if names.len() == 0 {
        None
    } else {
        match first_duplicate(names.drop_last()) {
            Some(name) => Some(name),
            None => if names.drop_last().contains(names.last()) {
                Some(names.last())
            } else {
                None
            },
        }
    }
}

/// A sequence has a first duplicate exactly when it is not duplicate-free.
pub proof fn lemma_first_duplicate_none_iff_unique(names: Seq<Seq<char>>)
    ensures
        first_duplicate(names) is None <==> names.no_duplicates(),
    decreases names.len(),
{
    if names.len() > 0 {
        let front = names.drop_last();
        lemma_first_duplicate_none_iff_unique(front);
        if first_duplicate(names) is None {
            assert forall|i: int, j: int|
                0 <= i < names.len() && 0 <= j < names.len() && i != j implies names[i] != names[j] by {
                if i < front.len() && j < front.len() {
                    assert(front[i] != front[j]);
                } else if i < front.len() {
                    assert(front[i] == names[i]);
                } else {
                    assert(front[j] == names[j]);
                }
            }
        }
        if names.no_duplicates() {
            assert forall|i: int, j: int|
                0 <= i < front.len() && 0 <= j < front.len() && i != j implies front[i] != front[j] by {
                assert(front[i] == names[i] && front[j] == names[j]);
            }
            if front.contains(names.last()) {
                let i = choose|i: int| 0 <= i < front.len() && front[i] == names.last();
                assert(names[i] == names[names.len() - 1]);
            }
        }
    }
}

/// A duplicate found in a prefix is the first duplicate of the whole.
pub proof fn lemma_first_duplicate_of_prefix(names: Seq<Seq<char>>, k: int)
    requires
        0 <= k <= names.len(),
        first_duplicate(names.take(k)) is Some,
    ensures
        first_duplicate(names) == first_duplicate(names.take(k)),
    decreases names.len() - k,
{
    if k < names.len() {
        assert(names.take(k + 1).drop_last() =~= names.take(k));
        lemma_first_duplicate_of_prefix(names, k + 1);
    } else {
        assert(names.take(k) =~= names);
    }
}

/// Where the first duplicate stands: at the first position whose name already
/// occurs before it.
pub proof fn lemma_first_duplicate_position(names: Seq<Seq<char>>) -> (at: int)
    requires
        first_duplicate(names) is Some,
    ensures
        0 <= at < names.len(),
        first_duplicate(names) == Some(names[at]),
        names.take(at).no_duplicates(),
        names.take(at).contains(names[at]),
    decreases names.len(),
{
    let front = names.drop_last();
    if first_duplicate(front) is Some {
        let at = lemma_first_duplicate_position(front);
        assert(front.take(at) =~= names.take(at));
        at
    } else {
        lemma_first_duplicate_none_iff_unique(front);
        let at = names.len() - 1;
        assert(names.take(at) =~= front);
        at
    }
}

/// Where the name at place `i` of descriptor `a` stands in the concatenation:
/// behind all names of the descriptors before `a`.
pub proof fn lemma_concat_position(descriptors: Seq<Seq<Seq<char>>>, a: int, i: int) -> (at: int)
    requires
        0 <= a < descriptors.len(),
        0 <= i < descriptors[a].len(),
    ensures
        at == descriptors.take(a).flatten().len() + i,
        0 <= at < descriptors.flatten().len(),
        descriptors.flatten()[at] == descriptors[a][i],
{
    let before = descriptors.take(a);
    let rest = descriptors.skip(a);
    assert(descriptors =~= before + rest);
    vstd::seq_lib::lemma_flatten_concat(before, rest);
    assert(rest.flatten() == rest.first() + rest.drop_first().flatten());
    before.flatten().len() + i
}

/// The names of the descriptors before `a` are no more than those of the
/// descriptors before `b`, where `a` comes first.
pub proof fn lemma_concat_prefix_grows(descriptors: Seq<Seq<Seq<char>>>, a: int, b: int)
    requires
        0 <= a <= b <= descriptors.len(),
    ensures
        descriptors.take(a).flatten().len() <= descriptors.take(b).flatten().len(),
{
    let between = descriptors.subrange(a, b);
    assert(descriptors.take(b) =~= descriptors.take(a) + between);
    vstd::seq_lib::lemma_flatten_concat(descriptors.take(a), between);
}

/// The concatenation holds the names that the descriptors declare, and no
/// others.
pub proof fn lemma_concat_holds_the_declared_names(
    descriptors: Seq<Seq<Seq<char>>>,
    name: Seq<char>,
)
    ensures
        descriptors.flatten().contains(name) <==> exists|a: int|
            0 <= a < descriptors.len() && #[trigger] descriptors[a].contains(name),
    decreases descriptors.len(),
{
    if descriptors.len() > 0 {
        let front = descriptors.drop_last();
        let last = descriptors.last();
        assert(descriptors =~= front.push(last));
        front.lemma_flatten_push(last);
        lemma_concat_holds_the_declared_names(front, name);
        let all = descriptors.flatten();
        if all.contains(name) {
            let at = choose|at: int| 0 <= at < all.len() && all[at] == name;
            if at < front.flatten().len() {
                assert(front.flatten()[at] == name);
                let a = choose|a: int| 0 <= a < front.len() && #[trigger] front[a].contains(name);
                assert(descriptors[a].contains(name));
            } else {
                assert(last[at - front.flatten().len()] == name);
                assert(descriptors[descriptors.len() - 1].contains(name));
            }
        }
        if exists|a: int| 0 <= a < descriptors.len() && #[trigger] descriptors[a].contains(name) {
            let a = choose|a: int|
                0 <= a < descriptors.len() && #[trigger] descriptors[a].contains(name);
            let i = choose|i: int| 0 <= i < descriptors[a].len() && descriptors[a][i] == name;
            let at = lemma_concat_position(descriptors, a, i);
        }
    }
}

/// A name that two different stores declare makes the concatenation hold a
/// duplicate.
pub proof fn lemma_shared_name_is_duplicate(
    descriptors: Seq<Seq<Seq<char>>>,
    a: int,
    i: int,
    b: int,
    j: int,
)
    requires
        0 <= a < descriptors.len(),
        0 <= b < descriptors.len(),
        a != b,
        0 <= i < descriptors[a].len(),
        0 <= j < descriptors[b].len(),
        descriptors[a][i] == descriptors[b][j],
    ensures
        !descriptors.flatten().no_duplicates(),
        first_duplicate(descriptors.flatten()) is Some,
{
    let at_a = lemma_concat_position(descriptors, a, i);
    let at_b = lemma_concat_position(descriptors, b, j);
    if a < b {
        assert(descriptors.take(a + 1) =~= descriptors.take(a).push(descriptors[a]));
        descriptors.take(a).lemma_flatten_push(descriptors[a]);
        lemma_concat_prefix_grows(descriptors, a + 1, b);
        assert(at_a < at_b);
    } else {
        assert(descriptors.take(b + 1) =~= descriptors.take(b).push(descriptors[b]));
        descriptors.take(b).lemma_flatten_push(descriptors[b]);
        lemma_concat_prefix_grows(descriptors, b + 1, a);
        assert(at_b < at_a);
    }
    lemma_first_duplicate_none_iff_unique(descriptors.flatten());
}

/// All column families of all descriptors, in descriptor order and, within a
/// descriptor, in declaration order.
pub fn concat_column_families<'a>(descriptors: &Vec<Vec<&'a str>>) -> (all: Vec<&'a str>)
    ensures
        names(all@) == descriptor_names(descriptors@).flatten(),
{
    let mut all: Vec<&'a str> = Vec::new();
    let mut d: usize = 0;
    assert(descriptor_names(descriptors@).take(0) =~= Seq::empty());
    assert(names(all@) =~= Seq::empty());
    while d < descriptors.len()
        invariant
            d <= descriptors.len(),
            names(all@) == descriptor_names(descriptors@).take(d as int).flatten(),
        decreases descriptors.len() - d,
    {
        let descriptor = &descriptors[d];
        let ghost before = all@;
        let mut i: usize = 0;
        while i < descriptor.len()
            invariant
                i <= descriptor.len(),
                names(all@) == names(before) + names(descriptor@).take(i as int),
            decreases descriptor.len() - i,
        {
            let ghost prior = all@;
            all.push(descriptor[i]);
            proof {
                let own = names(descriptor@);
                assert(names(all@) =~= names(prior).push(own[i as int]));
                assert(own.take(i + 1) =~= own.take(i as int).push(own[i as int]));
            }
            i += 1;
        }
        proof {
            let per_store = descriptor_names(descriptors@);
            assert(names(descriptor@).take(i as int) =~= names(descriptor@));
            assert(per_store.take(d + 1) =~= per_store.take(d as int).push(per_store[d as int]));
            per_store.take(d as int).lemma_flatten_push(per_store[d as int]);
        }
        d += 1;
    }
    assert(descriptor_names(descriptors@).take(d as int) =~= descriptor_names(descriptors@));
    all
}

/// Scans the names once, remembering those seen, and stops at the first one
/// that was seen before.
pub fn find_duplicate<'a>(column_families: &Vec<&'a str>) -> (found: Option<&'a str>)
    ensures
        match found {
            Some(name) => first_duplicate(names(column_families@)) == Some(name@),
            None => first_duplicate(names(column_families@)) is None,
        },
{
    let ghost all = names(column_families@);
    let mut seen = StringHashSet::new();
    let mut i: usize = 0;
    assert(all.take(0).to_set() =~= Set::empty());
    while i < column_families.len()
        invariant
            i <= column_families.len(),
            all == names(column_families@),
            seen@ == all.take(i as int).to_set(),
            first_duplicate(all.take(i as int)) is None,
        decreases column_families.len() - i,
    {
        let name: &'a str = column_families[i];
        let fresh = seen.insert(name.to_owned());
        proof {
            assert(all.take(i + 1).drop_last() =~= all.take(i as int));
            assert(all.take(i + 1).last() == name@);
        }
        if !fresh {
            proof {
                lemma_first_duplicate_of_prefix(all, i + 1);
            }
            return Some(name);
        }
        proof {
            let prev = all.take(i as int);
            assert(all.take(i + 1) =~= prev.push(name@));
            prev.lemma_push_to_set_commute(name@);
        }
        i += 1;
    }
    assert(all.take(i as int) =~= all);
    None
}

/// The registry: all column families in order where each is declared once,
/// else the first name that is declared again.
pub fn unique_column_families<'a>(descriptors: &Vec<Vec<&'a str>>) -> (checked: Result<
    Vec<&'a str>,
    &'a str,
>)
    ensures
        checked is Ok <==> descriptor_names(descriptors@).flatten().no_duplicates(),
        match checked {
            Ok(all) => names(all@) == descriptor_names(descriptors@).flatten() && first_duplicate(
                names(all@),
            ) is None,
            Err(name) => first_duplicate(descriptor_names(descriptors@).flatten()) == Some(name@),
        },
{
    let column_families = concat_column_families(descriptors);
    proof {
        lemma_first_duplicate_none_iff_unique(names(column_families@));
    }
    match find_duplicate(&column_families) {
        Some(name) => Err(name),
        None => Ok(column_families),
    }
}

} // verus!
