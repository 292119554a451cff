//! First-match lookup of a name in a sequence of keys.
use vstd::prelude::*;

verus! {

/// The position of the first key equal to `name`.
pub open spec fn first_index(keys: Seq<Seq<char>>, name: Seq<char>) -> Option<int>
    decreases keys.len(),
{
    if keys.len() == 0 {
        None
    } else {
        match first_index(keys.drop_last(), name) {
            Some(i) => Some(i),
            None => if keys.last() == name {
                Some(keys.len() - 1)
            } else {
                None
            },
        }
    }
}

/// `first_index` finds the earliest occurrence, and finds none only when the
/// name does not occur.
pub proof fn lemma_first_index(keys: Seq<Seq<char>>, name: Seq<char>)
    ensures
        match first_index(keys, name) {
            Some(i) => 0 <= i < keys.len() && keys[i] == name && forall|j: int|
                0 <= j < i ==> keys[j] != name,
            None => forall|j: int| 0 <= j < keys.len() ==> keys[j] != name,
        },
    decreases keys.len(),
{
    if keys.len() > 0 {
        lemma_first_index(keys.drop_last(), name);
        assert forall|j: int| 0 <= j < keys.len() - 1 implies keys.drop_last()[j] == keys[j] by {}
    }
}

/// A key that occurs at `i` and nowhere before is what `first_index` finds.
pub proof fn lemma_first_index_at(keys: Seq<Seq<char>>, name: Seq<char>, i: int)
    requires
        0 <= i < keys.len(),
        keys[i] == name,
        forall|j: int| 0 <= j < i ==> keys[j] != name,
    ensures
        first_index(keys, name) == Some(i),
{
    lemma_first_index(keys, name);
}

} // verus!
