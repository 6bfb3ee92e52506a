//! Naming the lifetimes that a type leaves out.

use vstd::prelude::*;

verus! {

/// The name of a lifetime after every `'_` was given a name.
pub open spec fn spec_unelide(name: Seq<char>, lifetime: Seq<char>) -> Seq<char> {
    if name == "_"@ {
        lifetime
    } else {
        name
    }
}

/// Gives `'_` the name `lifetime` and leaves every other lifetime as it is. Names come without the
/// apostrophe.
pub fn unelide(name: &str, lifetime: &str) -> (r: String)
    ensures
        r@ == spec_unelide(name@, lifetime@),
{
    let name = name.to_owned();
    if name == "_".to_owned() {
        lifetime.to_owned()
    } else {
        name
    }
}

/// Gives every `'_` in a row of lifetimes the name `lifetime`.
pub fn unelide_lifetimes(names: &Vec<String>, lifetime: &str) -> (r: Vec<String>)
    ensures
        r@.len() == names@.len(),
        forall|i: int|
            0 <= i < names@.len() ==> (#[trigger] r@[i])@ == spec_unelide(names@[i]@, lifetime@),
{
    let mut r: Vec<String> = Vec::new();
    let mut i: usize = 0;
    while i < names.len()
        invariant
            i <= names@.len(),
            r@.len() == i,
            forall|j: int|
                0 <= j < i ==> (#[trigger] r@[j])@ == spec_unelide(names@[j]@, lifetime@),
        decreases names@.len() - i,
    {
        r.push(unelide(names[i].as_str(), lifetime));
        i += 1;
    }
    r
}

/// A lifetime that is left out gets the given name, and every other one keeps its own.
pub proof fn only_elided_lifetimes_are_named(name: Seq<char>, lifetime: Seq<char>)
    ensures
        name == "_"@ ==> spec_unelide(name, lifetime) == lifetime,
        name != "_"@ ==> spec_unelide(name, lifetime) == name,
{
}

/// Naming lifetimes twice changes nothing more, unless the given name is itself left out.
pub proof fn unelide_is_idempotent(name: Seq<char>, lifetime: Seq<char>, other: Seq<char>)
    requires
        lifetime != "_"@,
    ensures
        spec_unelide(spec_unelide(name, lifetime), other) == spec_unelide(name, lifetime),
{
}

} // verus!
