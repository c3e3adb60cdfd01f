use vstd::prelude::*;

verus! {

/// First value bound to `name` in an ordered association list.
pub open spec fn assoc_find<V>(entries: Seq<(String, V)>, name: Seq<char>) -> Option<V>
    decreases entries.len(),
{
    if entries.len() == 0 {
        Option::None
    } else if entries[0].0@ == name {
        Option::Some(entries[0].1)
    } else {
        assoc_find(entries.drop_first(), name)
    }
}

/// Whether `name` is bound in the list.
pub open spec fn assoc_has<V>(entries: Seq<(String, V)>, name: Seq<char>) -> bool {
    assoc_find(entries, name) is Some
}

/// Looks `name` up in an ordered association list, returning the first match.
pub fn assoc_get<'a, V>(entries: &'a Vec<(String, V)>, name: &String) -> (r: Option<&'a V>)
    ensures
        match assoc_find(entries@, name@) {
            Option::Some(v) => r matches Option::Some(rv) && *rv == v,
            Option::None => r is None,
        },
{
    let n = entries.len();
    let mut i: usize = 0;
    proof {
        assert(entries@.skip(0) =~= entries@);
    }
    while i < n
        invariant
            0 <= i <= n,
            n == entries@.len(),
            assoc_find(entries@, name@) == assoc_find(entries@.skip(i as int), name@),
        decreases n - i,
    {
        if entries[i].0 == *name {
            proof {
                assert(entries@.skip(i as int)[0] == entries@[i as int]);
            }
            return Option::Some(&entries[i].1);
        }
        proof {
            assert(entries@.skip(i as int)[0] == entries@[i as int]);
            assert(entries@.skip(i as int).drop_first() =~= entries@.skip(i as int + 1));
        }
        i = i + 1;
    }
    proof {
        assert(entries@.skip(n as int) =~= Seq::<(String, V)>::empty());
    }
    Option::None
}

/// Whether `name` occurs in a list of names.
pub open spec fn name_in(names: Seq<Seq<char>>, name: Seq<char>) -> bool {
    exists|i: int| 0 <= i < names.len() && names[i] == name
}

/// Membership test on a list of names.
pub fn contains_name(names: &Vec<String>, name: &String) -> (r: bool)
    ensures
        r == name_in(names.deep_view(), name@),
{
    let n = names.len();
    let mut i: usize = 0;
    while i < n
        invariant
            0 <= i <= n,
            n == names@.len(),
            forall|j: int| 0 <= j < i ==> names.deep_view()[j] != name@,
        decreases n - i,
    {
        if names[i] == *name {
            proof {
                assert(names.deep_view()[i as int] == name@);
            }
            return true;
        }
        proof {
            assert(names.deep_view()[i as int] == names@[i as int]@);
        }
        i = i + 1;
    }
    false
}

} // verus!
