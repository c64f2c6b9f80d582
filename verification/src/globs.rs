//! Glob sets, from the `globset` crate.

use vstd::prelude::*;

verus! {

/// A set of glob patterns, ready for matching.
#[verifier::external_type_specification]
#[verifier::external_body]
pub struct ExGlobSet(globset::GlobSet);

/// A set of glob patterns being gathered.
#[verifier::external_type_specification]
#[verifier::external_body]
pub struct ExGlobSetBuilder(globset::GlobSetBuilder);

#[verifier::external_type_specification]
#[verifier::external_body]
pub struct ExGlobError(globset::Error);

/// Whether `globset` can parse a pattern, on a system whose path separator is `/`.
pub uninterp spec fn glob_parses(pattern: Seq<char>) -> bool;

/// Whether `globset` can compile a list of patterns into one set.
pub uninterp spec fn globs_compile(patterns: Seq<Seq<char>>) -> bool;

/// Whether a pattern matches a path, by the rules of `globset` on a system whose
/// path separator is `/`.
pub uninterp spec fn glob_matches(pattern: Seq<char>, path: Seq<char>) -> bool;

/// The patterns a builder holds, in the order they were added.
pub uninterp spec fn builder_globs(b: globset::GlobSetBuilder) -> Seq<Seq<char>>;

/// The patterns a set was built from.
pub uninterp spec fn set_globs(s: globset::GlobSet) -> Seq<Seq<char>>;

/// Some pattern of the list matches the path.
pub open spec fn any_glob_matches(patterns: Seq<Seq<char>>, path: Seq<char>) -> bool {
    exists|i: int| 0 <= i < patterns.len() && glob_matches(#[trigger] patterns[i], path)
}

/// `GlobSetBuilder::new` makes a builder that holds no pattern.
#[verifier::external_body]
pub(crate) fn new_builder() -> (r: globset::GlobSetBuilder)
    ensures
        builder_globs(r) == Seq::<Seq<char>>::empty(),
{
    globset::GlobSetBuilder::new()
}

/// `Glob::new` parses the pattern, and `GlobSetBuilder::add` puts it behind the
/// patterns the builder holds. A pattern that does not parse changes nothing.
#[verifier::external_body]
pub(crate) fn add_glob(b: &mut globset::GlobSetBuilder, pattern: &str) -> (r: Result<(), globset::Error>)
    ensures
        r is Ok == glob_parses(pattern@),
        r is Ok ==> builder_globs(*final(b)) == builder_globs(*old(b)).push(pattern@),
        r is Err ==> builder_globs(*final(b)) == builder_globs(*old(b)),
{
    b.add(globset::Glob::new(pattern)?);
    Ok(())
}

/// `GlobSetBuilder::build` compiles the patterns of the builder into a set.
#[verifier::external_body]
pub(crate) fn build(b: &globset::GlobSetBuilder) -> (r: Result<globset::GlobSet, globset::Error>)
    ensures
        r is Ok == globs_compile(builder_globs(*b)),
        r matches Ok(s) ==> set_globs(s) == builder_globs(*b),
{
    b.build()
}

/// `GlobSet::is_match` says whether any pattern of the set matches the path.
#[verifier::external_body]
pub(crate) fn set_matches(s: &globset::GlobSet, path: &str) -> (r: bool)
    ensures
        r == (exists|i: int| 0 <= i < set_globs(*s).len() && glob_matches(#[trigger] set_globs(*s)[i], path@)),
{
    s.is_match(path)
}

} // verus!
