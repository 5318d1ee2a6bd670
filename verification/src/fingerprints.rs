//! The set of lines seen so far: a hash set of the `fnv` crate, behind the few operations
//! that change detection needs.

use fnv::FnvHashSet;
use vstd::prelude::*;

verus! {

#[verifier::external_type_specification]
#[verifier::external_body]
pub struct ExFnvHasher(fnv::FnvHasher);

#[verifier::external_type_specification]
#[verifier::external_body]
#[verifier::reject_recursive_types(H)]
pub struct ExBuildHasherDefault<H>(std::hash::BuildHasherDefault<H>);

/// The lines that `set` holds, each as its text.
pub uninterp spec fn fingerprints(set: FnvHashSet<String>) -> Set<Seq<char>>;

/// The texts of `lines`.
pub open spec fn texts(lines: Seq<String>) -> Seq<Seq<char>> {
    lines.map_values(|line: String| line@)
}

/// `FnvHashSet::default`: a set that holds nothing.
#[verifier::external_body]
pub(crate) fn empty() -> (set: FnvHashSet<String>)
    ensures
        fingerprints(set) == Set::<Seq<char>>::empty(),
{
    FnvHashSet::default()
}

/// `HashSet::insert`: afterwards the set holds `line` besides what it held.
#[verifier::external_body]
pub(crate) fn insert(set: &mut FnvHashSet<String>, line: String)
    ensures
        fingerprints(*final(set)) == fingerprints(*old(set)).insert(line@),
{
    set.insert(line);
}

/// `HashSet::contains`: whether the set holds a line with the text of `line`.
#[verifier::external_body]
pub(crate) fn contains(set: &FnvHashSet<String>, line: &String) -> (found: bool)
    ensures
        found == fingerprints(*set).contains(line@),
{
    set.contains(line)
}

/// `HashSet::iter`: every line of the set once, in no stated order.
#[verifier::external_body]
pub(crate) fn lines(set: &FnvHashSet<String>) -> (all: Vec<String>)
    ensures
        texts(all@).no_duplicates(),
        texts(all@).to_set() == fingerprints(*set),
{
    set.iter().cloned().collect()
}

} // verus!
