//! The wire shape of rules, and the scripting bridge's rule parsing.
//!
//! On the wire — in the JSON configuration and in the scripting interface —
//! a rule's value is untagged: a plain string means an exact replacement, a
//! table carrying `pattern` and `replacement` strings means a
//! regular-expression rule, and anything else is rejected naming the
//! offending key. This module turns such shapes into a rule set and back.

use vstd::prelude::*;

use crate::rules::find_key;
use crate::rules::lemma_find_key;
use crate::rules::unique_keys;
use crate::rules::ProcessingError;
use crate::rules::Replacement;
use crate::rules::RuleSet;

verus! {

/// The shape of one rule value as it arrives from the wire: a plain string,
/// a table that may carry `pattern` and `replacement` strings, or something
/// else entirely.
#[derive(Debug, Clone, PartialEq, Eq)]
pub enum RawValue {
    /// A plain string value.
    Text(String),
    /// A table value; a field is `None` where the table lacks it or holds a
    /// non-string.
    Table { pattern: Option<String>, replacement: Option<String> },
    /// A value of any other kind.
    Other,
}

/// The rule a wire value stands for, if it is well-formed: a string is an
/// exact replacement, a table with both fields is a regular-expression rule.
pub open spec fn spec_rule_from_raw(v: RawValue) -> Option<Replacement> {
    match v {
        RawValue::Text(s) => Some(Replacement::Exact(s)),
        RawValue::Table { pattern: Some(p), replacement: Some(r) } => Some(
            Replacement::Regex { pattern: p, replacement: r },
        ),
        _ => None,
    }
}

/// The wire shape a rule serializes to.
pub open spec fn raw_of_rule(rep: Replacement) -> RawValue {
    match rep {
        Replacement::Exact(s) => RawValue::Text(s),
        Replacement::Regex { pattern, replacement } => RawValue::Table {
            pattern: Some(pattern),
            replacement: Some(replacement),
        },
    }
}

/// The wire form of a whole rule sequence, keys kept.
pub open spec fn raw_entries(s: Seq<(String, Replacement)>) -> Seq<(String, RawValue)> {
    s.map_values(|p: (String, Replacement)| (p.0, raw_of_rule(p.1)))
}

/// Inserting under `key` replaces the entry already keyed by it, or appends.
pub open spec fn insert_rule(
    s: Seq<(String, Replacement)>,
    key: String,
    rep: Replacement,
) -> Seq<(String, Replacement)> {
    let at = find_key(s, key@);
    if at == -1 {
        s.push((key, rep))
    } else {
        s.update(at, (key, rep))
    }
}

/// The rule sequence a list of wire entries parses to, entry by entry, or
/// the first offending key.
pub open spec fn spec_rules_from_raw(
    acc: Seq<(String, Replacement)>,
    entries: Seq<(String, RawValue)>,
) -> Result<Seq<(String, Replacement)>, Seq<char>>
    decreases entries.len(),
{
    if entries.len() == 0 {
        Ok(acc)
    } else {
        match spec_rule_from_raw(entries[0].1) {
            Some(rep) => spec_rules_from_raw(insert_rule(acc, entries[0].0, rep), entries.skip(1)),
            None => Err(entries[0].0@),
        }
    }
}

/// Parse one wire value into the rule it stands for; an ill-formed value is
/// rejected naming its key.
pub fn rule_from_raw(key: &String, value: &RawValue) -> (r: Result<Replacement, ProcessingError>)
    ensures
        r is Ok <==> spec_rule_from_raw(*value) is Some,
        r matches Ok(rep) ==> spec_rule_from_raw(*value) == Some(rep),
        r matches Err(e) ==> (e matches ProcessingError::ScriptValueError(k) && k@ == key@),
{
    match value {
        RawValue::Text(s) => Ok(Replacement::Exact(s.clone())),
        RawValue::Table { pattern: Some(p), replacement: Some(r) } => Ok(
            Replacement::Regex { pattern: p.clone(), replacement: r.clone() },
        ),
        _ => Err(ProcessingError::ScriptValueError(key.clone())),
    }
}

/// Parse a list of wire entries into a rule set, in order, later entries
/// replacing earlier ones under the same key. Fails naming the first key, in
/// entry order, whose value is neither a string nor a table carrying both
/// `pattern` and `replacement`.
pub fn rules_from_raw(entries: &Vec<(String, RawValue)>) -> (r: Result<RuleSet, ProcessingError>)
    ensures
        r is Ok <==> spec_rules_from_raw(
            Seq::<(String, Replacement)>::empty(),
            entries@,
        ) is Ok,
        r matches Ok(rs) ==> (spec_rules_from_raw(Seq::<(String, Replacement)>::empty(), entries@)
            matches Ok(s) && rs@ == s && rs.wf()),
        r matches Err(e) ==> (e matches ProcessingError::ScriptValueError(k)
            && spec_rules_from_raw(Seq::<(String, Replacement)>::empty(), entries@) matches Err(q)
            && k@ == q),
{
    let ghost all = entries@;
    let mut rs = RuleSet::new();
    proof {
        assert(all.skip(0) =~= all);
    }
    let n = entries.len();
    let mut i: usize = 0;
    while i < n
        invariant
            all == entries@,
            n == all.len(),
            i <= n,
            rs.wf(),
            spec_rules_from_raw(Seq::<(String, Replacement)>::empty(), all)
                == spec_rules_from_raw(rs@, all.skip(i as int)),
        decreases n - i,
    {
        let ghost pending = all.skip(i as int);
        proof {
            assert(pending[0] == all[i as int]);
            assert(pending.skip(1) =~= all.skip(i as int + 1));
        }
        let entry = &entries[i];
        match rule_from_raw(&entry.0, &entry.1) {
            Ok(rep) => {
                let ghost before = rs@;
                let key_c = entry.0.clone();
                let ghost kc = key_c;
                rs.insert(key_c, rep);
                proof {
                    assert(kc == all[i as int].0);
                    assert(rs@ == insert_rule(before, all[i as int].0, rep));
                }
            },
            Err(e) => {
                return Err(e);
            },
        }
        i = i + 1;
    }
    proof {
        assert(all.skip(n as int) =~= Seq::<(String, RawValue)>::empty());
    }
    Ok(rs)
}

/// Serialize a rule set back to its wire entries, keys and order kept.
pub fn rules_to_raw(rules: &RuleSet) -> (r: Vec<(String, RawValue)>)
    ensures
        r@ == raw_entries(rules@),
{
    let mut out: Vec<(String, RawValue)> = Vec::new();
    let n = rules.len();
    let mut i: usize = 0;
    proof {
        assert(out@ =~= raw_entries(rules@.take(0)));
    }
    while i < n
        invariant
            n == rules@.len(),
            i <= n,
            out@ == raw_entries(rules@.take(i as int)),
        decreases n - i,
    {
        let entry = rules.entry(i);
        let raw = match &entry.1 {
            Replacement::Exact(s) => RawValue::Text(s.clone()),
            Replacement::Regex { pattern, replacement } => RawValue::Table {
                pattern: Some(pattern.clone()),
                replacement: Some(replacement.clone()),
            },
        };
        out.push((entry.0.clone(), raw));
        proof {
            assert(out@ =~= raw_entries(rules@.take(i as int + 1)));
        }
        i = i + 1;
    }
    proof {
        assert(rules@.take(n as int) =~= rules@);
    }
    out
}

proof fn lemma_round_trip_rec(acc: Seq<(String, Replacement)>, rules: Seq<(String, Replacement)>)
    requires
        unique_keys(acc + rules),
    ensures
        spec_rules_from_raw(acc, raw_entries(rules)) == Ok::<
            Seq<(String, Replacement)>,
            Seq<char>,
        >(acc + rules),
    decreases rules.len(),
{
    if rules.len() == 0 {
        assert(raw_entries(rules).len() == 0);
        assert(acc + rules =~= acc);
    } else {
        let e = rules[0];
        assert((acc + rules)[acc.len() as int] == e);
        assert(raw_entries(rules)[0] == (e.0, raw_of_rule(e.1)));
        assert(spec_rule_from_raw(raw_of_rule(e.1)) == Some(e.1));
        lemma_find_key(acc, e.0@);
        assert(find_key(acc, e.0@) == -1) by {
            if find_key(acc, e.0@) != -1 {
                let at = find_key(acc, e.0@);
                assert((acc + rules)[at].0@ == e.0@);
            }
        }
        assert(insert_rule(acc, e.0, e.1) == acc.push(e));
        assert(acc.push(e) + rules.skip(1) =~= acc + rules);
        lemma_round_trip_rec(acc.push(e), rules.skip(1));
        assert(raw_entries(rules).skip(1) =~= raw_entries(rules.skip(1)));
    }
}

/// A serialize/parse round trip keeps the effective rule set exactly: no
/// rule is added, dropped or changed.
pub proof fn lemma_raw_round_trip(rules: Seq<(String, Replacement)>)
    requires
        unique_keys(rules),
    ensures
        spec_rules_from_raw(Seq::<(String, Replacement)>::empty(), raw_entries(rules)) == Ok::<
            Seq<(String, Replacement)>,
            Seq<char>,
        >(rules),
{
    let empty = Seq::<(String, Replacement)>::empty();
    assert(empty + rules =~= rules);
    lemma_round_trip_rec(empty, rules);
}

} // verus!
