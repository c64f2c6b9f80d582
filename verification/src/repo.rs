//! Repository discovery and candidate-file selection.
//!
//! The walk over the directory tree happens outside; what it found is judged
//! here: the root is the nearest ancestor with a `.synapse` directory (falling
//! back to `.git`, then to the starting directory), and a file is a candidate
//! when the include globs of the config match it and the exclude globs do not.

use crate::config::{IndexConfig, SYNAPSE_DIR};
use crate::errors::SynapseError;
use crate::globs::{
    add_glob, any_glob_matches, build, builder_globs, glob_parses, globs_compile, new_builder, set_globs, set_matches,
};
use crate::lists::{
    first, first_found, first_of_prefix, keep, keep_members, retain, sort_dedup_texts, sorted_set, sorted_set_laws,
    take_next, take_none, take_whole, views_push,
};
use crate::text::{cat, cat3, replace_char, replaced_char, same, starts_with, views};
use vstd::prelude::*;

verus! {

/// A repository rooted at a discovered directory.
pub struct Repo {
    pub root: String,
}

/// One directory on the way up from the starting directory.
pub struct Ancestor {
    pub path: String,
    /// It holds a `.synapse` directory.
    pub has_synapse: bool,
    /// It holds a `.git` entry.
    pub has_git: bool,
}

/// The first directory with `.synapse`, as far as it is in the list.
pub open spec fn synapse_root(dirs: Seq<Ancestor>) -> Option<Seq<char>>
    decreases dirs.len(),
{
    if dirs.len() == 0 {
        None
    } else if dirs[0].has_synapse {
        Some(dirs[0].path@)
    } else {
        synapse_root(dirs.drop_first())
    }
}

/// The first directory with `.git`, as far as it is in the list.
pub open spec fn git_root(dirs: Seq<Ancestor>) -> Option<Seq<char>>
    decreases dirs.len(),
{
    if dirs.len() == 0 {
        None
    } else if dirs[0].has_git {
        Some(dirs[0].path@)
    } else {
        git_root(dirs.drop_first())
    }
}

/// The root of the repository around `start`.
pub open spec fn root_of(start: Seq<char>, dirs: Seq<Ancestor>) -> Seq<char> {
    match synapse_root(dirs) {
        Some(p) => p,
        None => match git_root(dirs) {
            Some(p) => p,
            None => start,
        },
    }
}

/// A path of Synapse's own state.
pub open spec fn own_state(rel: Seq<char>) -> bool {
    (SYNAPSE_DIR@ + "/"@).is_prefix_of(rel) || rel == SYNAPSE_DIR@
}

/// A path that the exclude globs do not match and the include globs do.
pub open spec fn matches_globs(including: Seq<Seq<char>>, excluding: Seq<Seq<char>>, rel: Seq<char>) -> bool {
    !any_glob_matches(excluding, rel) && any_glob_matches(including, rel)
}

/// The paths with forward slashes.
pub open spec fn normalized(paths: Seq<Seq<char>>) -> Seq<Seq<char>> {
    paths.map_values(|p: Seq<char>| replace_char(p, '\\', '/'))
}

/// A path that the globs let through, outside the program's own directory.
pub open spec fn is_wanted(including: Seq<Seq<char>>, excluding: Seq<Seq<char>>) -> spec_fn(Seq<char>) -> bool {
    |rel: Seq<char>| !own_state(rel) && matches_globs(including, excluding, rel)
}

/// The candidate files among the walked ones: sorted, each once.
pub open spec fn candidates_of(
    including: Seq<Seq<char>>,
    excluding: Seq<Seq<char>>,
    walked: Seq<Seq<char>>,
) -> Seq<Seq<char>> {
    sorted_set(keep(normalized(walked), is_wanted(including, excluding)))
}

/// Every pattern parses and the list compiles.
pub open spec fn globs_ok(patterns: Seq<Seq<char>>) -> bool {
    (forall|i: int| 0 <= i < patterns.len() ==> glob_parses(#[trigger] patterns[i])) && globs_compile(patterns)
}

/// Why a list of patterns is refused: the first that does not parse, or the set
/// as a whole.
pub open spec fn glob_error_text(patterns: Seq<Seq<char>>) -> Seq<char> {
    match first(patterns, |p: Seq<char>| !glob_parses(p)) {
        Some(p) => "invalid glob `"@ + p + "`"@,
        None => "building glob set"@,
    }
}

impl Repo {
    /// Discover the repo root, given the directories from `start` upwards.
    ///
    /// Prefers a directory containing `.synapse`; otherwise the nearest `.git`;
    /// otherwise `start` itself.
    pub fn discover(start: &str, ancestors: &Vec<Ancestor>) -> (r: Repo)
        ensures
            r.root@ == root_of(start@, ancestors@),
    {
        let mut synapse: Option<usize> = None;
        let mut git: Option<usize> = None;
        let mut i: usize = 0;
        assert(ancestors@.skip(0) =~= ancestors@);
        while i < ancestors.len()
            invariant
                i <= ancestors@.len(),
                synapse matches Some(k) ==> k < i && synapse_root(ancestors@) == Some(ancestors@[k as int].path@),
                git matches Some(k) ==> k < i && git_root(ancestors@) == Some(ancestors@[k as int].path@),
                synapse is None ==> synapse_root(ancestors@) == synapse_root(ancestors@.skip(i as int)),
                git is None ==> git_root(ancestors@) == git_root(ancestors@.skip(i as int)),
            decreases ancestors@.len() - i,
        {
            assert(ancestors@.skip(i as int).drop_first() =~= ancestors@.skip(i as int + 1));
            if synapse.is_none() && ancestors[i].has_synapse {
                synapse = Some(i);
            }
            if git.is_none() && ancestors[i].has_git {
                git = Some(i);
            }
            i += 1;
        }
        let root = match synapse {
            Some(k) => ancestors[k].path.clone(),
            None => match git {
                Some(k) => ancestors[k].path.clone(),
                None => start.to_owned(),
            },
        };
        Repo { root }
    }

    /// The candidate files (repo-relative, forward-slash paths) among those that a
    /// walk found: those that match the config's include globs and survive the
    /// exclude globs, sorted, each once.
    pub fn candidate_files(&self, index: &IndexConfig, walked: Vec<String>) -> (r: Result<Vec<String>, SynapseError>)
        ensures
            r is Ok == (globs_ok(views(index.includes@)) && globs_ok(views(index.excludes@))),
            r matches Err(e) ==> e.text() == (if globs_ok(views(index.includes@)) {
                glob_error_text(views(index.excludes@))
            } else {
                glob_error_text(views(index.includes@))
            }),
            r matches Ok(v) ==> views(v@) == candidates_of(
                views(index.includes@),
                views(index.excludes@),
                views(walked@),
            ) && views(v@).no_duplicates(),
    {
        let including = match build_globset(&index.includes) {
            Ok(s) => s,
            Err(e) => {
                return Err(e);
            },
        };
        let excluding = match build_globset(&index.excludes) {
            Ok(s) => s,
            Err(e) => {
                return Err(e);
            },
        };
        let own = cat(SYNAPSE_DIR, "/");
        let own = own.as_str();
        let ghost wanted = is_wanted(views(index.includes@), views(index.excludes@));
        let f = |rel: &String| -> (r: bool)
            ensures
                r == wanted(rel@),
            {
                !starts_with(rel.as_str(), own) && !same(rel.as_str(), SYNAPSE_DIR) && path_matches(
                    &including,
                    &excluding,
                    rel.as_str(),
                )
            };
        let mut paths: Vec<String> = Vec::new();
        let mut i: usize = 0;
        let ghost all = normalized(views(walked@));
        assert(views(paths@) =~= all.take(0));
        while i < walked.len()
            invariant
                i <= walked@.len(),
                all == normalized(views(walked@)),
                views(paths@) == all.take(i as int),
            decreases walked@.len() - i,
        {
            let p = normalize(walked[i].as_str());
            proof {
                take_next(all, i as int);
                assert(views(walked@)[i as int] == walked@[i as int]@);
                views_push(paths@, p);
            }
            paths.push(p);
            i += 1;
        }
        proof {
            take_whole(all);
        }
        let kept = retain(paths, f, Ghost(wanted));
        proof {
            sorted_set_laws(views(kept@));
        }
        Ok(sort_dedup_texts(kept))
    }
}

/// Build a glob set from glob patterns.
pub fn build_globset(patterns: &Vec<String>) -> (r: Result<globset::GlobSet, SynapseError>)
    ensures
        r is Ok == globs_ok(views(patterns@)),
        r matches Ok(s) ==> set_globs(s) == views(patterns@),
        r matches Err(e) ==> e is Invalid && e.text() == glob_error_text(views(patterns@)),
{
    let ghost bad = |p: Seq<char>| !glob_parses(p);
    let mut b = new_builder();
    let mut i: usize = 0;
    proof {
        take_none(views(patterns@));
    }
    while i < patterns.len()
        invariant
            i <= patterns@.len(),
            builder_globs(b) == views(patterns@).take(i as int),
            bad == (|p: Seq<char>| !glob_parses(p)),
            first(views(patterns@).take(i as int), bad) is None,
        decreases patterns@.len() - i,
    {
        proof {
            take_next(views(patterns@), i as int);
        }
        match add_glob(&mut b, patterns[i].as_str()) {
            Ok(_) => {},
            Err(_) => {
                proof {
                    assert(!glob_parses(views(patterns@)[i as int]));
                    first_of_prefix(views(patterns@), bad, i as int + 1);
                }
                return Err(SynapseError::Invalid(cat3("invalid glob `", patterns[i].as_str(), "`")));
            },
        }
        i += 1;
    }
    proof {
        take_whole(views(patterns@));
        first_found(views(patterns@), bad);
        assert forall|j: int| 0 <= j < patterns@.len() implies glob_parses(#[trigger] views(patterns@)[j]) by {
            assert(!bad(views(patterns@)[j]));
        }
    }
    match build(&b) {
        Ok(s) => Ok(s),
        Err(_) => Err(SynapseError::Invalid("building glob set".to_owned())),
    }
}

/// Decide whether a repo-relative path is included and not excluded.
pub fn path_matches(including: &globset::GlobSet, excluding: &globset::GlobSet, rel: &str) -> (r: bool)
    ensures
        r == matches_globs(set_globs(*including), set_globs(*excluding), rel@),
{
    if set_matches(excluding, rel) {
        return false;
    }
    set_matches(including, rel)
}

/// Normalize a path to forward slashes (for cross-platform deterministic ids).
pub fn normalize(p: &str) -> (r: String)
    ensures
        r@ == replace_char(p@, '\\', '/'),
{
    replaced_char(p, '\\', '/')
}

/// A path that an exclude glob matches is never a candidate, whatever the include
/// globs say.
pub proof fn exclusion_wins(including: Seq<Seq<char>>, excluding: Seq<Seq<char>>, rel: Seq<char>)
    requires
        any_glob_matches(excluding, rel),
    ensures
        !matches_globs(including, excluding, rel),
{
}

/// No candidate holds a backslash, whichever separator the walked paths had; none
/// lies in the program's own directory; and each is matched by the globs.
pub proof fn candidates_are_clean(
    including: Seq<Seq<char>>,
    excluding: Seq<Seq<char>>,
    walked: Seq<Seq<char>>,
    rel: Seq<char>,
)
    requires
        candidates_of(including, excluding, walked).contains(rel),
    ensures
        !rel.contains('\\'),
        !own_state(rel),
        matches_globs(including, excluding, rel),
{
    let wanted = is_wanted(including, excluding);
    let kept = keep(normalized(walked), wanted);
    sorted_set_laws(kept);
    keep_members(normalized(walked), wanted);
    assert(kept.contains(rel));
    let i = normalized(walked).index_of(rel);
    normalized_path_is_clean(walked[i]);
}

/// A normalized path has no backslash, and normalizing it again changes nothing.
pub proof fn normalized_path_is_clean(p: Seq<char>)
    ensures
        !replace_char(p, '\\', '/').contains('\\'),
        replace_char(replace_char(p, '\\', '/'), '\\', '/') == replace_char(p, '\\', '/'),
{
    assert(replace_char(replace_char(p, '\\', '/'), '\\', '/') =~= replace_char(p, '\\', '/'));
}

} // verus!
