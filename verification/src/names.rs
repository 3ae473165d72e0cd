//! Lists of names, as the sets of names that they hold.
use vstd::prelude::*;

verus! {

/// The texts of a list of names, as a set.
pub open spec fn name_set(names: Seq<String>) -> Set<Seq<char>> {
    names.map_values(|name: String| name@).to_set()
}

/// A name stands in the set of a list's names exactly where the list holds it.
pub(crate) proof fn lemma_name_set(names: Seq<String>, name: Seq<char>)
    ensures
        name_set(names).contains(name) <==> exists|i: int|
            0 <= i < names.len() && (#[trigger] names[i])@ == name,
{
    let texts = names.map_values(|n: String| n@);
    if name_set(names).contains(name) {
        assert(texts.contains(name));
        let i = choose|i: int| 0 <= i < texts.len() && texts[i] == name;
        assert(names[i]@ == name);
    }
    if exists|i: int| 0 <= i < names.len() && (#[trigger] names[i])@ == name {
        let i = choose|i: int| 0 <= i < names.len() && (#[trigger] names[i])@ == name;
        assert(texts[i] == name);
        assert(texts.contains(name));
    }
}

/// Whether a list holds a name.
pub fn holds_name(names: &Vec<String>, name: &String) -> (res: bool)
    ensures
        res == name_set(names@).contains(name@),
{
    proof {
        lemma_name_set(names@, name@);
    }
    let mut i: usize = 0;
    while i < names.len()
        invariant
            i <= names.len(),
            forall|j: int| 0 <= j < i ==> (#[trigger] names@[j])@ != name@,
        decreases names.len() - i,
    {
        if names[i] == *name {
            proof {
                lemma_name_set(names@, name@);
            }
            return true;
        }
        i += 1;
    }
    false
}

/// Whether a list holds all names of another one that a third one holds too.
pub fn holds_common_names(names: &Vec<String>, first: &Vec<String>, second: &Vec<String>) -> (res:
    bool)
    ensures
        res == name_set(first@).intersect(name_set(second@)).subset_of(name_set(names@)),
{
    let mut i: usize = 0;
    while i < first.len()
        invariant
            i <= first.len(),
            forall|j: int|
                0 <= j < i && name_set(second@).contains((#[trigger] first@[j])@) ==> name_set(
                    names@,
                ).contains(first@[j]@),
        decreases first.len() - i,
    {
        if holds_name(second, &first[i]) && !holds_name(names, &first[i]) {
            proof {
                lemma_name_set(first@, first@[i as int]@);
                assert(name_set(first@).intersect(name_set(second@)).contains(first@[i as int]@));
            }
            return false;
        }
        i += 1;
    }
    assert forall|name: Seq<char>|
        name_set(first@).intersect(name_set(second@)).contains(name) implies name_set(
        names@,
    ).contains(name) by {
        lemma_name_set(first@, name);
    }
    true
}

/// Whether a list holds all names of another one.
pub fn holds_names(names: &Vec<String>, others: &Vec<String>) -> (res: bool)
    ensures
        res == name_set(others@).subset_of(name_set(names@)),
{
    assert(name_set(others@).intersect(name_set(others@)) =~= name_set(others@));
    holds_common_names(names, others, others)
}

} // verus!
