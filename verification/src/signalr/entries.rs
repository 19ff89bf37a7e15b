//! Named entries: the members of an object, as a list of names with what they
//! name. Where a name occurs more than once, the last entry of that name is
//! the one that counts, as if the entries had been put into a map one after
//! the other.

use vstd::prelude::*;

verus! {

/// The position of the last entry named `key`, if there is one.
pub open spec fn member_index<V>(members: Seq<(Seq<char>, V)>, key: Seq<char>) -> Option<int>
    decreases members.len(),
{
    if members.len() == 0 {
        None
    } else if members.last().0 == key {
        Some(members.len() - 1)
    } else {
        member_index(members.drop_last(), key)
    }
}

/// Whether `at` is where the last entry named `key` stands: the position of
/// an entry of that name with none of that name after it, or nothing where no
/// entry has the name.
pub open spec fn is_last_named<V>(
    members: Seq<(Seq<char>, V)>,
    key: Seq<char>,
    at: Option<int>,
) -> bool {
    match at {
        Some(i) => 0 <= i < members.len() && members[i].0 == key && forall|j: int|
            i < j < members.len() ==> members[j].0 != key,
        None => forall|j: int| 0 <= j < members.len() ==> members[j].0 != key,
    }
}

/// `member_index` is where the last entry of the name stands, and nothing
/// else is.
pub proof fn lemma_member_index<V>(members: Seq<(Seq<char>, V)>, key: Seq<char>)
    ensures
        is_last_named(members, key, member_index(members, key)),
        forall|at: Option<int>|
            is_last_named(members, key, at) ==> at == member_index(members, key),
    decreases members.len(),
{
    if members.len() > 0 && members.last().0 != key {
        let front = members.drop_last();
        lemma_member_index(front, key);
        assert(forall|j: int| 0 <= j < front.len() ==> front[j] == members[j]);
    }
}

/// Two lists with the same names in the same places have the last entry of a
/// name in the same place.
pub proof fn lemma_member_index_by_names<V, W>(
    left: Seq<(Seq<char>, V)>,
    right: Seq<(Seq<char>, W)>,
    key: Seq<char>,
)
    requires
        left.len() == right.len(),
        forall|i: int| 0 <= i < left.len() ==> left[i].0 == right[i].0,
    ensures
        member_index(left, key) == member_index(right, key),
{
    lemma_member_index(left, key);
    lemma_member_index(right, key);
    assert(is_last_named(right, key, member_index(left, key)));
}

/// The names of a list of entries, each with the position it stands at.
pub open spec fn names_of<V>(members: Seq<(String, V)>) -> Seq<(Seq<char>, int)> {
    Seq::new(members.len(), |i: int| (members[i].0@, i))
}

/// Finds the last entry named `key`.
pub fn find_member<V>(members: &Vec<(String, V)>, key: &str) -> (r: Option<usize>)
    ensures
        match r {
            Some(i) => i < members.len() && member_index(names_of(members@), key@) == Some(
                i as int,
            ),
            None => member_index(names_of(members@), key@) is None,
        },
{
    let wanted = key.to_owned();
    let mut i: usize = members.len();
    while i > 0
        invariant
            i <= members.len(),
            wanted@ == key@,
            forall|j: int| i <= j < members.len() ==> members@[j].0@ != key@,
        decreases i,
    {
        i = i - 1;
        if members[i].0 == wanted {
            proof {
                lemma_member_index(names_of(members@), key@);
                assert(is_last_named(names_of(members@), key@, Some(i as int)));
            }
            return Some(i);
        }
    }
    proof {
        lemma_member_index(names_of(members@), key@);
        assert(is_last_named(names_of(members@), key@, None));
    }
    None
}

} // verus!
