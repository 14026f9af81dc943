use vstd::prelude::*;

verus! {

/// A JSON value. Numbers keep their textual form, so that no precision is
/// lost and no floating point is involved; the members of an object keep
/// their insertion order, and in a well-formed document their keys are unique.
#[derive(Debug, PartialEq)]
pub enum Json {
    Null,
    Bool(bool),
    Number(String),
    String(String),
    Array(Vec<Json>),
    Object(Vec<(String, Json)>),
}

/// The nodes that a sequence of references designates.
pub open spec fn targets<T>(r: Seq<&T>) -> Seq<T> {
    r.map_values(|x: &T| *x)
}

/// The value of the first member of `members` whose key is `key`; in a
/// well-formed object, whose keys are unique, the value stored under `key`.
pub open spec fn lookup(members: Seq<(String, Json)>, key: Seq<char>) -> Option<Json>
    decreases members.len(),
{
    if members.len() == 0 {
        None
    } else if members[0].0@ == key {
        Some(members[0].1)
    } else {
        lookup(members.drop_first(), key)
    }
}

/// A reference to the value that `lookup` finds among the members of an object.
pub fn get_member<'a>(members: &'a Vec<(String, Json)>, key: &String) -> (r: Option<&'a Json>)
    ensures
        match r {
            Some(v) => lookup(members@, key@) == Some(*v),
            None => lookup(members@, key@) is None,
        },
{
    let mut i: usize = 0;
    assert(members@.subrange(0, members@.len() as int) =~= members@);
    while i < members.len()
        invariant
            i <= members.len(),
            lookup(members@, key@) == lookup(members@.subrange(i as int, members@.len() as int), key@),
        decreases members.len() - i,
    {
        proof {
            let rest = members@.subrange(i as int, members@.len() as int);
            assert(rest.drop_first() =~= members@.subrange(i + 1, members@.len() as int));
        }
        if members[i].0 == *key {
            return Some(&members[i].1);
        }
        i = i + 1;
    }
    proof {
        assert(members@.subrange(i as int, members@.len() as int).len() == 0);
    }
    None
}

} // verus!
