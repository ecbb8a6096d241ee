//! Path selection: which visited files take part in a run.
//!
//! A file is included iff it matches the configured glob filter (vacuously,
//! when there is none), flipped by the `invert` flag. Glob matching itself
//! goes through the `globset` crate behind trusted wrappers. The crate may
//! refuse a filter in two ways — the pattern does not parse, or its
//! size-capped compilation fails — and both come back as `None` here; both
//! refusals depend on the pattern alone, so selection answers exactly for
//! the accepted filters, and always with no filter.

use vstd::prelude::*;

verus! {

/// Whether the `globset` crate accepts this pattern as a glob; a function of
/// the pattern alone.
pub uninterp spec fn glob_is_valid(pattern: Seq<char>) -> bool;

/// Whether the `globset` crate turns this parsed pattern into a matcher: its
/// regex compilation runs under a fixed size cap and may refuse a pattern
/// that parses. A function of the pattern alone. Meaningful only when
/// `glob_is_valid(pattern)` holds.
pub uninterp spec fn glob_compiles(pattern: Seq<char>) -> bool;

/// Whether the compiled pattern matches this path, as the `globset` crate
/// decides it; a function of the pattern and path strings alone. Meaningful
/// only when `glob_accepted(pattern)` holds.
pub uninterp spec fn glob_matches(pattern: Seq<char>, path: Seq<char>) -> bool;

/// The glob engine takes this pattern all the way to a matcher: it parses,
/// and its size-capped compilation goes through.
pub open spec fn glob_accepted(pattern: Seq<char>) -> bool {
    glob_is_valid(pattern) && glob_compiles(pattern)
}

/// Relies on `globset::Glob::new`: whether a pattern parses depends on the
/// pattern string alone, and parsing never panics.
#[verifier::external_body]
fn glob_check(pattern: &str) -> (r: bool)
    ensures
        r == glob_is_valid(pattern@),
{
    globset::Glob::new(pattern).is_ok()
}

/// Relies on `globset::Glob::new`, `globset::GlobSetBuilder::build` and
/// `globset::GlobSet::is_match`. Parsing, the size-capped compilation and
/// the match decision are all deterministic in the strings and report
/// failure as an error, never a panic: a decision comes back exactly for the
/// patterns the engine accepts outright.
#[verifier::external_body]
fn glob_match(pattern: &str, path: &str) -> (r: Option<bool>)
    ensures
        r is Some <==> (glob_is_valid(pattern@) && glob_compiles(pattern@)),
        r matches Some(b) ==> b == glob_matches(pattern@, path@),
{
    let glob = match globset::Glob::new(pattern) {
        Ok(glob) => glob,
        Err(_) => return None,
    };
    let mut builder = globset::GlobSetBuilder::new();
    builder.add(glob);
    match builder.build() {
        Ok(set) => Some(set.is_match(path)),
        Err(_) => None,
    }
}

/// The filter is absent or a pattern the glob engine parses.
pub open spec fn filter_ok(filter: Option<String>) -> bool {
    filter matches Some(f) ==> glob_is_valid(f@)
}

/// The filter is absent or a pattern the glob engine takes all the way to a
/// matcher.
pub open spec fn filter_accepted(filter: Option<String>) -> bool {
    filter matches Some(f) ==> glob_accepted(f@)
}

/// A visited file takes part iff it matches the filter (vacuously true when
/// there is none), flipped by `invert`.
pub open spec fn spec_included(path: Seq<char>, filter: Option<String>, invert: bool) -> bool {
    let matched = match filter {
        Option::None => true,
        Option::Some(f) => glob_matches(f@, path),
    };
    matched != invert
}

/// The inclusion predicate over paths, as a value.
pub open spec fn included_pred(filter: Option<String>, invert: bool) -> spec_fn(String) -> bool {
    |p: String| spec_included(p@, filter, invert)
}

/// With no filter, inclusion depends on `invert` alone: every path with
/// `invert` off, none with `invert` on.
pub proof fn lemma_no_filter_inclusion(path: Seq<char>, invert: bool)
    ensures
        spec_included(path, None, invert) == !invert,
{
}

/// Decide inclusion of one path: the decision comes back exactly when the
/// filter is absent or the glob engine accepts its pattern, and `None` when
/// the pattern does not parse or refuses to compile.
pub fn try_include(path: &str, filter: &Option<String>, invert: bool) -> (r: Option<bool>)
    ensures
        r is Some <==> filter_accepted(*filter),
        r matches Some(b) ==> b == spec_included(path@, *filter, invert),
{
    match filter {
        None => Some(!invert),
        Some(f) => match glob_match(f.as_str(), path) {
            Some(matched) => Some(matched != invert),
            None => None,
        },
    }
}

/// Keep exactly the paths that take part, in their given order. Selection
/// comes back whenever the filter is absent or the glob engine accepts its
/// pattern, and `None` whenever the pattern does not parse.
pub fn try_select_paths(paths: &Vec<String>, filter: &Option<String>, invert: bool) -> (r: Option<
    Vec<String>,
>)
    ensures
        filter_accepted(*filter) ==> r is Some,
        !filter_ok(*filter) ==> r is None,
        r matches Some(v) ==> v@ == paths@.filter(included_pred(*filter, invert)),
{
    if let Some(f) = filter {
        if !glob_check(f.as_str()) {
            return None;
        }
    }
    let ghost pred = included_pred(*filter, invert);
    let mut out: Vec<String> = Vec::new();
    proof {
        reveal(Seq::filter);
        assert(paths@.take(0).filter(pred) =~= out@);
    }
    let n = paths.len();
    let mut j: usize = 0;
    while j < n
        invariant
            n == paths@.len(),
            j <= n,
            pred == included_pred(*filter, invert),
            out@ == paths@.take(j as int).filter(pred),
        decreases n - j,
    {
        let p = &paths[j];
        match try_include(p.as_str(), filter, invert) {
            Some(true) => {
                out.push(p.clone());
            },
            Some(false) => {},
            None => {
                return None;
            },
        }
        proof {
            reveal(Seq::filter);
            assert(paths@.take(j + 1).drop_last() =~= paths@.take(j as int));
            assert(paths@.take(j + 1).last() == paths@[j as int]);
        }
        j = j + 1;
    }
    proof {
        assert(paths@.take(n as int) =~= paths@);
    }
    Some(out)
}

} // verus!
