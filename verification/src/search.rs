//! Searches in lists that may break off before their end.

use vstd::prelude::*;

verus! {

/// How a search ended.
#[derive(Clone, Copy, PartialEq, Eq, Structural, Debug)]
pub enum Search {
    /// At the entry with this index.
    Found(usize),
    /// Reading the list failed before an entry was found.
    ReadFailed,
    /// No entry fits.
    Missing,
}

/// A search ends at the first entry that fits; a failure to read on counts
/// only where no entry before it fits.
pub open spec fn search_result(
    names: Seq<Seq<char>>,
    fits: spec_fn(Seq<char>) -> bool,
    read_failed: bool,
    r: Search,
) -> bool {
    match r {
        Search::Found(i) => {
            &&& i < names.len()
            &&& fits(names[i as int])
            &&& forall|j: int| 0 <= j < i ==> !fits(#[trigger] names[j])
        },
        Search::ReadFailed => {
            read_failed && forall|j: int| 0 <= j < names.len() ==> !fits(#[trigger] names[j])
        },
        Search::Missing => {
            !read_failed && forall|j: int| 0 <= j < names.len() ==> !fits(#[trigger] names[j])
        },
    }
}

/// A search has one result only.
pub proof fn search_is_determined(
    names: Seq<Seq<char>>,
    fits: spec_fn(Seq<char>) -> bool,
    read_failed: bool,
    a: Search,
    b: Search,
)
    requires
        search_result(names, fits, read_failed, a),
        search_result(names, fits, read_failed, b),
    ensures
        a == b,
{
    if a is Found && b is Found {
        let i = a->Found_0;
        let j = b->Found_0;
        assert(fits(names[i as int]) && fits(names[j as int]));
    } else if a is Found {
        assert(fits(names[a->Found_0 as int]));
    } else if b is Found {
        assert(fits(names[b->Found_0 as int]));
    }
}

} // verus!
