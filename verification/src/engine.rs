//! The replacement engine: applies a rule set to one text buffer.
//!
//! Exact rules are plain substring substitution, implemented and verified
//! here; regular-expression rules go through the `regex` crate behind trusted
//! wrappers whose results are named but not interpreted.

use vstd::prelude::*;
use vstd::string::StrSliceExecFns;
use vstd::string::StringExecFns;

use crate::rules::ProcessingError;
use crate::rules::Replacement;
use crate::rules::RuleSet;

verus! {

/// The key occurs in `text` starting at position `i`.
pub open spec fn match_at(text: Seq<char>, key: Seq<char>, i: int) -> bool {
    i + key.len() <= text.len() && text.subrange(i, i + key.len()) == key
}

/// The key occurs somewhere in `text` (an empty key occurs in every text).
pub open spec fn spec_contains(text: Seq<char>, key: Seq<char>) -> bool {
    exists|i: int| 0 <= i && #[trigger] match_at(text, key, i)
}

/// The text with every non-overlapping occurrence of `key` replaced by
/// `repl`, scanning left to right. An empty key matches before every
/// character and at the end, as substring search does.
pub open spec fn replaced(text: Seq<char>, key: Seq<char>, repl: Seq<char>) -> Seq<char>
    decreases text.len(),
{
    if key.len() == 0 {
        if text.len() == 0 {
            repl
        } else {
            repl + seq![text[0]] + replaced(text.skip(1), key, repl)
        }
    } else if text.len() < key.len() {
        text
    } else if text.subrange(0, key.len() as int) == key {
        repl + replaced(text.skip(key.len() as int), key, repl)
    } else {
        seq![text[0]] + replaced(text.skip(1), key, repl)
    }
}

/// A text that does not contain the key is left untouched by replacement.
pub proof fn lemma_replaced_absent(text: Seq<char>, key: Seq<char>, repl: Seq<char>)
    requires
        !spec_contains(text, key),
    ensures
        replaced(text, key, repl) == text,
    decreases text.len(),
{
    assert(key.len() > 0) by {
        if key.len() == 0 {
            assert(match_at(text, key, 0)) by {
                assert(text.subrange(0, 0) =~= key);
            }
        }
    }
    if text.len() < key.len() {
    } else if text.subrange(0, key.len() as int) == key {
        assert(match_at(text, key, 0));
    } else {
        assert(!spec_contains(text.skip(1), key)) by {
            if spec_contains(text.skip(1), key) {
                let m = choose|m: int| 0 <= m && #[trigger] match_at(text.skip(1), key, m);
                assert(text.subrange(m + 1, m + 1 + key.len()) =~= text.skip(1).subrange(
                    m,
                    m + key.len(),
                ));
                assert(match_at(text, key, m + 1));
            }
        }
        lemma_replaced_absent(text.skip(1), key, repl);
        assert(seq![text[0]] + text.skip(1) =~= text);
    }
}

/// The characters of `text` from `i` on read exactly as `key`.
fn str_eq_at(text: &str, i: usize, key: &str) -> (b: bool)
    requires
        i + key@.len() <= text@.len(),
        text@.len() <= usize::MAX,
    ensures
        b == (text@.subrange(i as int, i as int + key@.len() as int) == key@),
{
    let k = key.unicode_len();
    let mut j: usize = 0;
    while j < k
        invariant
            k == key@.len(),
            i + k <= text@.len() <= usize::MAX,
            j <= k,
            forall|m: int| 0 <= m < j ==> text@[i + m] == key@[m],
        decreases k - j,
    {
        if text.get_char(i + j) != key.get_char(j) {
            proof {
                assert(text@.subrange(i as int, i as int + k as int)[j as int] == text@[i + j]);
            }
            return false;
        }
        j = j + 1;
    }
    proof {
        assert(text@.subrange(i as int, i as int + k as int) =~= key@);
    }
    true
}

/// Whether the key occurs in the text, as the engine's specification counts
/// occurrences.
pub fn contains_exact(text: &str, key: &str) -> (b: bool)
    ensures
        b == spec_contains(text@, key@),
{
    let n = text.unicode_len();
    let k = key.unicode_len();
    if k == 0 {
        proof {
            assert(text@.subrange(0, 0) =~= key@);
            assert(match_at(text@, key@, 0));
        }
        return true;
    }
    if k > n {
        proof {
            if spec_contains(text@, key@) {
                let m = choose|m: int| 0 <= m && #[trigger] match_at(text@, key@, m);
                assert(false);
            }
        }
        return false;
    }
    let mut i: usize = 0;
    while i <= n - k
        invariant
            n == text@.len(),
            k == key@.len(),
            1 <= k <= n,
            i <= n - k + 1,
            forall|m: int| 0 <= m < i ==> !match_at(text@, key@, m),
        decreases n - i,
    {
        if str_eq_at(text, i, key) {
            proof {
                assert(match_at(text@, key@, i as int));
            }
            return true;
        }
        i = i + 1;
    }
    proof {
        if spec_contains(text@, key@) {
            let m = choose|m: int| 0 <= m && #[trigger] match_at(text@, key@, m);
            assert(m + k <= n);
            assert(m < i);
        }
    }
    false
}

/// Replace every non-overlapping occurrence of `key` in `text` with `repl`,
/// left to right.
pub fn replace_exact(text: &str, key: &str, repl: &str) -> (r: String)
    ensures
        r@ == replaced(text@, key@, repl@),
{
    let n = text.unicode_len();
    let k = key.unicode_len();
    let mut out = String::new();
    proof {
        assert(text@.skip(0) =~= text@);
    }
    if k == 0 {
        let mut i: usize = 0;
        while i < n
            invariant
                n == text@.len(),
                key@.len() == 0,
                i <= n,
                out@ + replaced(text@.skip(i as int), key@, repl@) == replaced(
                    text@,
                    key@,
                    repl@,
                ),
            decreases n - i,
        {
            let ghost out0 = out@;
            let ghost rest = text@.skip(i as int);
            out.append(repl);
            let piece = text.substring_char(i, i + 1);
            out.append(piece);
            proof {
                assert(piece@ =~= seq![rest[0]]);
                assert(rest.skip(1) =~= text@.skip(i + 1));
                assert(replaced(rest, key@, repl@) == repl@ + seq![rest[0]] + replaced(
                    rest.skip(1),
                    key@,
                    repl@,
                ));
                assert(out@ + replaced(text@.skip(i + 1), key@, repl@) =~= out0 + replaced(
                    rest,
                    key@,
                    repl@,
                ));
            }
            i = i + 1;
        }
        out.append(repl);
        proof {
            assert(text@.skip(n as int) =~= Seq::<char>::empty());
            assert(replaced(text@.skip(n as int), key@, repl@) == repl@);
        }
        return out;
    }
    let mut i: usize = 0;
    while i < n
        invariant
            n == text@.len(),
            k == key@.len(),
            1 <= k,
            i <= n,
            out@ + replaced(text@.skip(i as int), key@, repl@) == replaced(text@, key@, repl@),
        decreases n - i,
    {
        let ghost out0 = out@;
        let ghost rest = text@.skip(i as int);
        if k <= n - i && str_eq_at(text, i, key) {
            out.append(repl);
            proof {
                assert(rest.subrange(0, k as int) =~= text@.subrange(
                    i as int,
                    i as int + k as int,
                ));
                assert(rest.skip(k as int) =~= text@.skip(i + k));
                assert(replaced(rest, key@, repl@) == repl@ + replaced(
                    rest.skip(k as int),
                    key@,
                    repl@,
                ));
                assert(out@ + replaced(text@.skip(i + k), key@, repl@) =~= out0 + replaced(
                    rest,
                    key@,
                    repl@,
                ));
            }
            i = i + k;
        } else {
            let piece = text.substring_char(i, i + 1);
            out.append(piece);
            proof {
                assert(piece@ =~= seq![rest[0]]);
                assert(rest.skip(1) =~= text@.skip(i + 1));
                if k <= n - i {
                    assert(rest.subrange(0, k as int) =~= text@.subrange(
                        i as int,
                        i as int + k as int,
                    ));
                    assert(rest.subrange(0, k as int) != key@);
                } else {
                    assert(rest.len() < k);
                }
                assert(replaced(rest, key@, repl@) == seq![rest[0]] + replaced(
                    rest.skip(1),
                    key@,
                    repl@,
                ));
                assert(out@ + replaced(text@.skip(i + 1), key@, repl@) =~= out0 + replaced(
                    rest,
                    key@,
                    repl@,
                ));
            }
            i = i + 1;
        }
    }
    proof {
        assert(text@.skip(n as int) =~= Seq::<char>::empty());
        assert(replaced(text@.skip(n as int), key@, repl@) =~= text@.skip(n as int));
        assert(out@ + text@.skip(n as int) =~= out@);
    }
    out
}

/// Whether the `regex` crate accepts this pattern; a function of the pattern
/// alone.
pub uninterp spec fn regex_is_valid(pattern: Seq<char>) -> bool;

/// Whether the compiled pattern matches somewhere in `text`, as the `regex`
/// crate decides it; a function of the two strings alone. Meaningful only
/// when `regex_is_valid(pattern)` holds.
pub uninterp spec fn regex_matches(pattern: Seq<char>, text: Seq<char>) -> bool;

/// Relies on `regex::Regex::new`, whose acceptance of a pattern (compiled
/// size limit included) is reported as an error, never a panic, and depends
/// on the pattern alone, and on `regex::Regex::is_match`, whose decision
/// depends on the pattern and haystack strings alone.
#[verifier::external_body]
fn regex_match_check(pattern: &str, text: &str) -> (r: Option<bool>)
    ensures
        r is Some <==> regex_is_valid(pattern@),
        r matches Some(b) ==> b == regex_matches(pattern@, text@),
{
    match regex::Regex::new(pattern) {
        Ok(re) => Some(re.is_match(text)),
        Err(_) => None,
    }
}

/// The text that the `regex` crate produces when every match of `pattern` in
/// `text` is rewritten with the template `rewrite`; a function of the three
/// strings alone. Meaningful only when `regex_is_valid(pattern)` holds.
pub uninterp spec fn regex_replaced(pattern: Seq<char>, text: Seq<char>, rewrite: Seq<char>) -> Seq<
    char,
>;

/// Relies on `regex::Regex::new`, whose acceptance of a pattern depends on
/// the pattern alone, and on `regex::Regex::replace_all`, whose output
/// depends only on the compiled pattern, the haystack and the rewrite
/// template.
#[verifier::external_body]
fn regex_replace_all(pattern: &str, text: &str, rewrite: &str) -> (r: Option<String>)
    ensures
        r is Some <==> regex_is_valid(pattern@),
        r matches Some(s) ==> s@ == regex_replaced(pattern@, text@, rewrite@),
{
    match regex::Regex::new(pattern) {
        Ok(re) => Some(re.replace_all(text, rewrite).into_owned()),
        Err(_) => None,
    }
}

/// What one rule turns a text into: the rewritten text, or the offending
/// pattern if the rule is a regular expression that does not compile. A
/// regular expression that compiles but matches nothing leaves the text
/// unchanged.
pub open spec fn apply_rule(text: Seq<char>, key: Seq<char>, rep: Replacement) -> Result<
    Seq<char>,
    Seq<char>,
> {
    match rep {
        Replacement::Exact(r) => Ok(replaced(text, key, r@)),
        Replacement::Regex { pattern, replacement } => {
            if !regex_is_valid(pattern@) {
                Err(pattern@)
            } else if !regex_matches(pattern@, text) {
                Ok(text)
            } else {
                Ok(regex_replaced(pattern@, text, replacement@))
            }
        },
    }
}

/// What a whole rule sequence turns a text into, each rule's output feeding
/// the next; stops at the first regular expression that does not compile and
/// reports its pattern.
pub open spec fn apply_rules(text: Seq<char>, rules: Seq<(String, Replacement)>) -> Result<
    Seq<char>,
    Seq<char>,
>
    decreases rules.len(),
{
    if rules.len() == 0 {
        Ok(text)
    } else {
        match apply_rule(text, rules[0].0@, rules[0].1) {
            Ok(t) => apply_rules(t, rules.skip(1)),
            Err(p) => Err(p),
        }
    }
}

/// With no rules, any text comes back byte-identical.
pub proof fn lemma_apply_rules_empty(text: Seq<char>)
    ensures
        apply_rules(text, Seq::<(String, Replacement)>::empty()) == Ok::<Seq<char>, Seq<char>>(
            text,
        ),
{
}

/// A regular-expression rule whose pattern does not compile fails on every
/// text, whether or not the text holds anything the pattern or its literal
/// spelling would match.
pub proof fn lemma_invalid_regex_rejected(
    text: Seq<char>,
    key: String,
    pattern: String,
    replacement: String,
)
    requires
        !regex_is_valid(pattern@),
    ensures
        apply_rules(text, seq![(key, Replacement::Regex { pattern, replacement })]) == Err::<
            Seq<char>,
            Seq<char>,
        >(pattern@),
{
}

/// A regular-expression rule whose pattern compiles but matches nothing
/// leaves any text byte-identical.
pub proof fn lemma_regex_no_match_is_identity(
    text: Seq<char>,
    key: Seq<char>,
    pattern: String,
    replacement: String,
)
    requires
        regex_is_valid(pattern@),
        !regex_matches(pattern@, text),
    ensures
        apply_rule(text, key, Replacement::Regex { pattern, replacement }) == Ok::<
            Seq<char>,
            Seq<char>,
        >(text),
{
}

/// An exact rule whose key is absent leaves any text byte-identical.
pub proof fn lemma_apply_rule_absent(text: Seq<char>, key: Seq<char>, rep: Seq<char>, r: String)
    requires
        !spec_contains(text, key),
        r@ == rep,
    ensures
        apply_rule(text, key, Replacement::Exact(r)) == Ok::<Seq<char>, Seq<char>>(text),
{
    lemma_replaced_absent(text, key, rep);
}

/// Apply every rule of `changes` to `text` in order. Succeeds with the fully
/// rewritten text unless some regular-expression rule carries a pattern the
/// `regex` crate rejects; then the first such pattern, in rule order, comes
/// back as `InvalidRegex`, whether or not it would have matched.
pub fn replace_strings(text: &str, changes: &RuleSet) -> (r: Result<String, ProcessingError>)
    ensures
        r is Ok <==> apply_rules(text@, changes@) is Ok,
        r matches Ok(s) ==> apply_rules(text@, changes@) matches Ok(t) && s@ == t,
        r matches Err(e) ==> {
            &&& e matches ProcessingError::InvalidRegex(p)
            &&& apply_rules(text@, changes@) matches Err(q) && p@ == q
        },
{
    let ghost all = changes@;
    let mut cur: String = text.to_owned();
    proof {
        assert(all.skip(0) =~= all);
    }
    let n = changes.len();
    let mut idx: usize = 0;
    while idx < n
        invariant
            all == changes@,
            n == all.len(),
            idx <= n,
            apply_rules(text@, all) == apply_rules(cur@, all.skip(idx as int)),
        decreases n - idx,
    {
        let ghost pending = all.skip(idx as int);
        proof {
            assert(pending[0] == all[idx as int]);
            assert(pending.skip(1) =~= all.skip(idx as int + 1));
        }
        let ghost before = cur@;
        let entry = changes.entry(idx);
        match &entry.1 {
            Replacement::Exact(rep) => {
                if contains_exact(cur.as_str(), entry.0.as_str()) {
                    let next = replace_exact(cur.as_str(), entry.0.as_str(), rep.as_str());
                    cur = next;
                } else {
                    proof {
                        lemma_replaced_absent(cur@, entry.0@, rep@);
                    }
                }
                proof {
                    assert(apply_rule(before, pending[0].0@, pending[0].1) == Ok::<
                        Seq<char>,
                        Seq<char>,
                    >(cur@));
                    assert(apply_rules(before, pending) == apply_rules(
                        cur@,
                        all.skip(idx as int + 1),
                    ));
                }
            },
            Replacement::Regex { pattern, replacement } => {
                match regex_match_check(pattern.as_str(), cur.as_str()) {
                    None => {
                        proof {
                            assert(apply_rule(before, pending[0].0@, pending[0].1) == Err::<
                                Seq<char>,
                                Seq<char>,
                            >(pattern@));
                            assert(apply_rules(text@, all) == Err::<Seq<char>, Seq<char>>(
                                pattern@,
                            ));
                        }
                        return Err(ProcessingError::InvalidRegex(pattern.clone()));
                    },
                    Some(false) => {
                        proof {
                            assert(apply_rule(before, pending[0].0@, pending[0].1) == Ok::<
                                Seq<char>,
                                Seq<char>,
                            >(cur@));
                            assert(apply_rules(before, pending) == apply_rules(
                                cur@,
                                all.skip(idx as int + 1),
                            ));
                        }
                    },
                    Some(true) => {
                        let outcome = regex_replace_all(
                            pattern.as_str(),
                            cur.as_str(),
                            replacement.as_str(),
                        );
                        let next = outcome.unwrap();
                        cur = next;
                        proof {
                            assert(apply_rule(before, pending[0].0@, pending[0].1) == Ok::<
                                Seq<char>,
                                Seq<char>,
                            >(cur@));
                            assert(apply_rules(before, pending) == apply_rules(
                                cur@,
                                all.skip(idx as int + 1),
                            ));
                        }
                    },
                }
            },
        }
        idx = idx + 1;
    }
    proof {
        assert(all.skip(n as int) =~= Seq::<(String, Replacement)>::empty());
    }
    Ok(cur)
}

} // verus!
