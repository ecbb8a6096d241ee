//! The data model: substitution rules, rule sets and the session
//! configuration.

use vstd::prelude::*;

verus! {

/// An error raised while rules are parsed or applied.
#[derive(Debug, Clone, PartialEq, Eq)]
pub enum ProcessingError {
    /// A regular-expression rule whose pattern does not compile; carries the
    /// offending pattern.
    InvalidRegex(String),
    /// A non-recursive run was given a directory as its root.
    PathIsDirectory,
    /// A scripted rule value that is neither a string nor a well-formed
    /// pattern/replacement table; carries the offending key.
    ScriptValueError(String),
}

/// One substitution strategy: replace a literal substring, or rewrite the
/// matches of a regular expression.
#[derive(Debug, Clone, PartialEq, Eq)]
pub enum Replacement {
    /// Replace every non-overlapping occurrence of the rule's key with this
    /// literal text.
    Exact(String),
    /// Compile `pattern` and replace all its matches with `replacement`
    /// (a rewrite template); the rule's key plays no part.
    Regex { pattern: String, replacement: String },
}

/// A collection of named substitution rules with unique keys.
///
/// Rules are applied sequentially in the order held here; the order is not
/// part of the wire contract.
#[derive(Debug, Clone)]
pub struct RuleSet {
    rules: Vec<(String, Replacement)>,
}

impl View for RuleSet {
    type V = Seq<(String, Replacement)>;

    closed spec fn view(&self) -> Seq<(String, Replacement)> {
        self.rules@
    }
}

/// The index of the first entry of `s` whose key reads `k`, or `-1` if no
/// entry does.
pub open spec fn find_key(s: Seq<(String, Replacement)>, k: Seq<char>) -> int
    decreases s.len(),
{
    if s.len() == 0 {
        -1
    } else if s[0].0@ == k {
        0
    } else {
        let rest = find_key(s.skip(1), k);
        if rest == -1 {
            -1
        } else {
            rest + 1
        }
    }
}

/// No two entries share a key.
pub open spec fn unique_keys(s: Seq<(String, Replacement)>) -> bool {
    forall|i: int, j: int| 0 <= i < j < s.len() ==> s[i].0@ != s[j].0@
}

/// `find_key` returns `-1` exactly when no entry has the key, and otherwise
/// the index of an entry that does.
pub proof fn lemma_find_key(s: Seq<(String, Replacement)>, k: Seq<char>)
    ensures
        find_key(s, k) == -1 <==> (forall|i: int| 0 <= i < s.len() ==> s[i].0@ != k),
        find_key(s, k) != -1 ==> 0 <= find_key(s, k) < s.len() && s[find_key(s, k)].0@ == k,
    decreases s.len(),
{
    if s.len() > 0 && s[0].0@ != k {
        lemma_find_key(s.skip(1), k);
        assert(forall|i: int| 0 < i < s.len() ==> s[i].0@ == s.skip(1)[i - 1].0@);
    }
}

impl RuleSet {
    /// Well-formed: keys are unique.
    pub open spec fn wf(&self) -> bool {
        unique_keys(self@)
    }

    /// An empty rule set.
    pub fn new() -> (r: RuleSet)
        ensures
            r@ == Seq::<(String, Replacement)>::empty(),
            r.wf(),
    {
        RuleSet { rules: Vec::new() }
    }

    /// The number of rules.
    pub fn len(&self) -> (n: usize)
        ensures
            n == self@.len(),
    {
        self.rules.len()
    }

    /// The rule at position `i`.
    pub fn entry(&self, i: usize) -> (e: &(String, Replacement))
        requires
            i < self@.len(),
        ensures
            *e == self@[i as int],
    {
        &self.rules[i]
    }

    /// Add a rule, replacing the rule already held under the same key, if
    /// any; keys stay unique.
    pub fn insert(&mut self, key: String, value: Replacement)
        requires
            old(self).wf(),
        ensures
            final(self).wf(),
            ({
                let at = find_key(old(self)@, key@);
                if at == -1 {
                    final(self)@ == old(self)@.push((key, value))
                } else {
                    final(self)@ == old(self)@.update(at, (key, value))
                }
            }),
    {
        let ghost orig = self@;
        let n = self.rules.len();
        let mut i: usize = 0;
        while i < n
            invariant
                orig == old(self)@,
                unique_keys(orig),
                n == orig.len(),
                self@ == orig,
                i <= n,
                forall|m: int| 0 <= m < i ==> orig[m].0@ != key@,
            decreases n - i,
        {
            if self.rules[i].0 == key {
                proof {
                    lemma_find_key_prefix_hit(orig, key@, i as int);
                }
                self.rules.set(i, (key, value));
                proof {
                    assert forall|a: int, b: int|
                        0 <= a < b < self@.len() implies self@[a].0@ != self@[b].0@ by {
                        assert(forall|m: int|
                            0 <= m < self@.len() ==> self@[m].0@ == orig[m].0@);
                    }
                }
                return ;
            }
            i = i + 1;
        }
        proof {
            lemma_find_key(orig, key@);
        }
        self.rules.push((key, value));
        proof {
            assert forall|a: int, b: int|
                0 <= a < b < self@.len() implies self@[a].0@ != self@[b].0@ by {
                assert(forall|m: int| 0 <= m < orig.len() ==> self@[m].0@ == orig[m].0@);
                assert(self@[orig.len() as int].0@ == key@);
            }
        }
    }
}

/// If the first `i` entries miss the key and entry `i` has it, `find_key`
/// lands on `i`.
pub proof fn lemma_find_key_prefix_hit(s: Seq<(String, Replacement)>, k: Seq<char>, i: int)
    requires
        0 <= i < s.len(),
        s[i].0@ == k,
        forall|m: int| 0 <= m < i ==> s[m].0@ != k,
    ensures
        find_key(s, k) == i,
    decreases i,
{
    if i > 0 {
        lemma_find_key_prefix_hit(s.skip(1), k, i - 1);
        assert(forall|m: int| 0 <= m < i - 1 ==> s.skip(1)[m].0@ == s[m + 1].0@);
    } else {
        assert(find_key(s, k) == 0);
    }
}

/// The rule set and traversal flags of one session.
#[derive(Debug, Clone)]
pub struct Config {
    /// The substitution rules.
    pub changes: RuleSet,
    /// Walk the whole subtree under the root instead of taking the root as a
    /// single file.
    pub recursive: bool,
    /// An optional glob pattern deciding which visited files take part.
    pub filter: Option<String>,
    /// Flip the filter's inclusion decision.
    pub invert: bool,
}

impl Config {
    /// The configuration a scripted session starts from: the given rules with
    /// every traversal flag off.
    pub fn new_session(changes: RuleSet) -> (c: Config)
        ensures
            c.changes == changes,
            !c.recursive,
            c.filter is None,
            !c.invert,
    {
        Config { changes, recursive: false, filter: None, invert: false }
    }

    /// Turn subtree traversal on or off; nothing else changes.
    pub fn set_recursive(&mut self, val: bool)
        ensures
            final(self).recursive == val,
            final(self).changes == old(self).changes,
            final(self).filter == old(self).filter,
            final(self).invert == old(self).invert,
    {
        self.recursive = val;
    }

    /// Flip or restore the filter's sense; nothing else changes.
    pub fn set_invert(&mut self, val: bool)
        ensures
            final(self).invert == val,
            final(self).changes == old(self).changes,
            final(self).recursive == old(self).recursive,
            final(self).filter == old(self).filter,
    {
        self.invert = val;
    }

    /// Install or clear the glob filter; nothing else changes.
    pub fn set_filter(&mut self, val: Option<String>)
        ensures
            final(self).filter == val,
            final(self).changes == old(self).changes,
            final(self).recursive == old(self).recursive,
            final(self).invert == old(self).invert,
    {
        self.filter = val;
    }
}

} // verus!
