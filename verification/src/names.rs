use crate::text::{same_text, texts};
use vstd::prelude::*;

verus! {

/// Whether no name stands twice in the list.
pub open spec fn distinct(names: Seq<Seq<char>>) -> bool {
    forall|i: int, j: int| 0 <= i < j < names.len() ==> names[i] != names[j]
}

/// The mapping that a list of distinct names and a list of values of the
/// same length stand for: each name leads to the value at its position.
pub open spec fn paired<V>(names: Seq<Seq<char>>, values: Seq<V>) -> Map<Seq<char>, V> {
    Map::new(|name: Seq<char>| names.contains(name), |name: Seq<char>| values[names.index_of(name)])
}

/// In a list of distinct names, a name is found at one position only.
pub proof fn lemma_position<V>(names: Seq<Seq<char>>, values: Seq<V>, i: int)
    requires
        distinct(names),
        names.len() == values.len(),
        0 <= i < names.len(),
    ensures
        names.contains(names[i]),
        names.index_of(names[i]) == i,
        paired(names, values).contains_key(names[i]),
        paired(names, values)[names[i]] == values[i],
{
    assert(names.contains(names[i]));
    let k = names.index_of(names[i]);
    assert(0 <= k < names.len() && names[k] == names[i]);
    if k < i {
        assert(names[k] != names[i]);
    } else if i < k {
        assert(names[i] != names[k]);
    }
}

/// Adding a name that does not occur yet adds one pair to the mapping.
pub proof fn lemma_paired_push<V>(names: Seq<Seq<char>>, values: Seq<V>, name: Seq<char>, value: V)
    requires
        distinct(names),
        names.len() == values.len(),
        !names.contains(name),
    ensures
        distinct(names.push(name)),
        paired(names.push(name), values.push(value)) == paired(names, values).insert(name, value),
{
    let names2 = names.push(name);
    let values2 = values.push(value);
    assert forall|i: int, j: int| 0 <= i < j < names2.len() implies names2[i] != names2[j] by {
        if j == names.len() {
            assert(names.contains(names[i]));
        }
    }
    assert forall|k: Seq<char>| #[trigger] names2.contains(k) <==> (names.contains(k) || k == name) by {
        if names2.contains(k) {
            let i = choose|i: int| 0 <= i < names2.len() && names2[i] == k;
            if i < names.len() {
                assert(names[i] == k);
            }
        }
        if names.contains(k) {
            let i = choose|i: int| 0 <= i < names.len() && names[i] == k;
            assert(names2[i] == k);
        }
        if k == name {
            assert(names2[names.len() as int] == k);
        }
    }
    assert forall|k: Seq<char>| #[trigger] names2.contains(k) implies paired(names2, values2)[k]
        == paired(names, values).insert(name, value)[k] by {
        let i = choose|i: int| 0 <= i < names2.len() && names2[i] == k;
        lemma_position(names2, values2, i);
        if i < names.len() {
            assert(names[i] == k);
            lemma_position(names, values, i);
        }
    }
    assert(paired(names2, values2) =~= paired(names, values).insert(name, value));
}

/// Replacing the value at the position of a name replaces it in the
/// mapping.
pub proof fn lemma_paired_update<V>(names: Seq<Seq<char>>, values: Seq<V>, i: int, value: V)
    requires
        distinct(names),
        names.len() == values.len(),
        0 <= i < names.len(),
    ensures
        paired(names, values.update(i, value)) == paired(names, values).insert(names[i], value),
{
    let values2 = values.update(i, value);
    lemma_position(names, values, i);
    assert forall|k: Seq<char>| #[trigger] names.contains(k) implies paired(names, values2)[k]
        == paired(names, values).insert(names[i], value)[k] by {
        let j = choose|j: int| 0 <= j < names.len() && names[j] == k;
        lemma_position(names, values, j);
        lemma_position(names, values2, j);
    }
    assert(paired(names, values2) =~= paired(names, values).insert(names[i], value));
}

/// Looks for `key` in a list of names.
pub fn find_name(names: &Vec<String>, key: &str) -> (out: Option<usize>)
    ensures
        match out {
            Some(i) => i < names.len() && names[i as int]@ == key@,
            None => !texts(names@).contains(key@),
        },
{
    let mut i: usize = 0;
    while i < names.len()
        invariant
            i <= names.len(),
            forall|k: int| 0 <= k < i ==> names[k]@ != key@,
        decreases names.len() - i,
    {
        if same_text(names[i].as_str(), key) {
            return Some(i);
        }
        i += 1;
    }
    assert(!texts(names@).contains(key@)) by {
        if texts(names@).contains(key@) {
            let k = choose|k: int| 0 <= k < texts(names@).len() && texts(names@)[k] == key@;
            assert(names[k]@ == key@);
        }
    }
    None
}

} // verus!
