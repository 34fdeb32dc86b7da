//! The rule engine: an ordered list of scoped find/replace rules folded, in
//! configuration order, over a candidate string (a destination path or a file
//! content), gated by a scope key that never changes during the fold.

use vstd::prelude::*;

use crate::pattern::{regex_ok, regex_replace_all, regex_replaced};
use crate::text::{bytes_eq, contains_sub, contains_substr, copy_bytes, replace_all, replaced};

verus! {

/// One alteration rule: a pattern and a replacement, a flag choosing literal
/// or regular-expression replacement, and the scope substrings that gate it.
pub struct AlterRule {
    pub pattern: Vec<u8>,
    pub replacement: Vec<u8>,
    pub is_regex: bool,
    pub targets: Vec<Vec<u8>>,
}

/// Mathematical image of one rule.
pub ghost struct RuleView {
    pub pattern: Seq<u8>,
    pub replacement: Seq<u8>,
    pub is_regex: bool,
    pub targets: Seq<Seq<u8>>,
}

impl View for AlterRule {
    type V = RuleView;

    open spec fn view(&self) -> RuleView {
        RuleView {
            pattern: self.pattern@,
            replacement: self.replacement@,
            is_regex: self.is_regex,
            targets: self.targets@.map_values(|t: Vec<u8>| t@),
        }
    }
}

pub open spec fn view_rules(rs: Seq<AlterRule>) -> Seq<RuleView> {
    rs.map_values(|r: AlterRule| r@)
}

/// A rule fires when at least one of its scope substrings occurs in the
/// scope key.
pub open spec fn rule_applies(r: RuleView, scope: Seq<u8>) -> bool {
    exists|i: int| 0 <= i < r.targets.len() && #[trigger] contains_sub(scope, r.targets[i])
}

/// A rule is usable when its pattern, if a regular expression, compiles.
pub open spec fn rule_ok(r: RuleView) -> bool {
    r.is_regex ==> regex_ok(r.pattern)
}

/// Every rule that fires against this scope key is usable.
pub open spec fn rules_ok(rules: Seq<RuleView>, scope: Seq<u8>) -> bool {
    forall|i: int|
        0 <= i < rules.len() && rule_applies(#[trigger] rules[i], scope) ==> rule_ok(rules[i])
}

/// The transform one rule performs on the accumulated value.
pub open spec fn rule_transform(r: RuleView, cand: Seq<u8>) -> Seq<u8> {
    if r.is_regex {
        regex_replaced(r.pattern, r.replacement, cand)
    } else {
        replaced(cand, r.pattern, r.replacement)
    }
}

/// One fold step: transform the value when the rule fires, else keep it.
pub open spec fn rule_step(r: RuleView, cand: Seq<u8>, scope: Seq<u8>) -> Seq<u8> {
    if rule_applies(r, scope) {
        rule_transform(r, cand)
    } else {
        cand
    }
}

/// Left fold of the whole rule list over `cand`: each rule that fires sees
/// the output of the rules before it, and no rule is applied twice.
pub open spec fn fold_rules(rules: Seq<RuleView>, cand: Seq<u8>, scope: Seq<u8>) -> Seq<u8>
    decreases rules.len(),
{
    if rules.len() == 0 {
        cand
    } else {
        rule_step(rules.last(), fold_rules(rules.drop_last(), cand, scope), scope)
    }
}

/// An operator-facing notification: the rule at position `rule` changed the
/// accumulated value to `value`.
#[derive(Debug)]
pub struct RewriteNote {
    pub rule: usize,
    pub value: Vec<u8>,
}

/// Mathematical image of one notification.
pub ghost struct NoteView {
    pub rule: int,
    pub value: Seq<u8>,
}

impl View for RewriteNote {
    type V = NoteView;

    open spec fn view(&self) -> NoteView {
        NoteView { rule: self.rule as int, value: self.value@ }
    }
}

pub open spec fn view_notes(ns: Seq<RewriteNote>) -> Seq<NoteView> {
    ns.map_values(|n: RewriteNote| n@)
}

/// The notifications the fold emits, in order: one per rule that fired and
/// changed the value, carrying the value it produced.
pub open spec fn fold_notes(rules: Seq<RuleView>, cand: Seq<u8>, scope: Seq<u8>) -> Seq<NoteView>
    decreases rules.len(),
{
    if rules.len() == 0 {
        Seq::empty()
    } else {
        let prev = fold_rules(rules.drop_last(), cand, scope);
        let next = rule_step(rules.last(), prev, scope);
        fold_notes(rules.drop_last(), cand, scope) + if next != prev {
            seq![NoteView { rule: rules.len() - 1, value: next }]
        } else {
            Seq::empty()
        }
    }
}

/// A fatal configuration error: the rule at position `rule` fires for the
/// scope key at hand, but its regular-expression pattern does not compile.
#[derive(Debug)]
pub struct BadPattern {
    pub rule: usize,
}

/// The error `apply_rules` reports is exact: it names the first rule that
/// fires with a pattern that does not compile.
pub open spec fn bad_pattern_at(rules: Seq<RuleView>, scope: Seq<u8>, k: int) -> bool {
    &&& 0 <= k < rules.len()
    &&& rule_applies(rules[k], scope)
    &&& rules[k].is_regex
    &&& !regex_ok(rules[k].pattern)
    &&& rules_ok(rules.take(k), scope)
}

/// Whether a rule fires: scans the scope substrings for one that occurs in
/// the scope key.
pub fn scope_matches(rule: &AlterRule, scope: &Vec<u8>) -> (b: bool)
    ensures
        b == rule_applies(rule@, scope@),
{
    let n = rule.targets.len();
    let mut i: usize = 0;
    while i < n
        invariant
            n == rule.targets@.len(),
            0 <= i <= n,
            forall|k: int| 0 <= k < i ==> !#[trigger] contains_sub(scope@, rule@.targets[k]),
        decreases n - i,
    {
        let t: &Vec<u8> = &rule.targets[i];
        if contains_substr(scope, t) {
            assert(contains_sub(scope@, rule@.targets[i as int]));
            return true;
        }
        i += 1;
    }
    false
}

/// Applies every rule in order: a rule fires when one of its scope substrings
/// occurs in `scope`, and then rewrites the accumulated value, literally or
/// by regular expression. Returns the final value and one notification per
/// value-changing rule, or the first fatally bad pattern.
pub fn apply_rules(rules: &Vec<AlterRule>, candidate: &Vec<u8>, scope: &Vec<u8>) -> (r: Result<
    (Vec<u8>, Vec<RewriteNote>),
    BadPattern,
>)
    ensures
        r is Ok <==> rules_ok(view_rules(rules@), scope@),
        r is Ok ==> r->Ok_0.0@ == fold_rules(view_rules(rules@), candidate@, scope@),
        r is Ok ==> view_notes(r->Ok_0.1@) == fold_notes(view_rules(rules@), candidate@, scope@),
        r is Err ==> bad_pattern_at(view_rules(rules@), scope@, r->Err_0.rule as int),
{
    let ghost v = view_rules(rules@);
    let n = rules.len();
    let mut acc = copy_bytes(candidate);
    let mut notes: Vec<RewriteNote> = Vec::new();
    let mut i: usize = 0;
    proof {
        assert(v.take(0) =~= Seq::<RuleView>::empty());
        assert(view_notes(notes@) =~= Seq::<NoteView>::empty());
    }
    while i < n
        invariant
            n == rules@.len(),
            v == view_rules(rules@),
            v.len() == n,
            0 <= i <= n,
            acc@ == fold_rules(v.take(i as int), candidate@, scope@),
            view_notes(notes@) == fold_notes(v.take(i as int), candidate@, scope@),
            rules_ok(v.take(i as int), scope@),
        decreases n - i,
    {
        let rule: &AlterRule = &rules[i];
        proof {
            assert(v[i as int] == rule@);
            assert(v.take(i + 1).drop_last() =~= v.take(i as int));
            assert(v.take(i + 1).last() == v[i as int]);
        }
        let ghost prev = acc@;
        if scope_matches(rule, scope) {
            let next: Vec<u8> = if rule.is_regex {
                match regex_replace_all(&rule.pattern, &rule.replacement, &acc) {
                    Some(t) => t,
                    None => {
                        proof {
                            assert(rule_applies(v[i as int], scope@));
                            assert(!rule_ok(v[i as int]));
                            assert(!rules_ok(v, scope@));
                        }
                        return Err(BadPattern { rule: i });
                    },
                }
            } else {
                replace_all(&acc, &rule.pattern, &rule.replacement)
            };
            proof {
                assert(next@ == rule_transform(v[i as int], prev));
                assert(next@ == rule_step(v[i as int], prev, scope@));
            }
            if !bytes_eq(&next, &acc) {
                let value = copy_bytes(&next);
                let ghost notes0 = notes@;
                notes.push(RewriteNote { rule: i, value });
                acc = next;
                proof {
                    assert(view_notes(notes@) =~= view_notes(notes0).push(
                        NoteView { rule: i as int, value: acc@ },
                    ));
                    assert(fold_notes(v.take(i + 1), candidate@, scope@) =~= fold_notes(
                        v.take(i as int),
                        candidate@,
                        scope@,
                    ).push(NoteView { rule: i as int, value: acc@ }));
                }
            } else {
                proof {
                    assert(acc@ == rule_step(v[i as int], prev, scope@));
                    assert(fold_notes(v.take(i + 1), candidate@, scope@) =~= fold_notes(
                        v.take(i as int),
                        candidate@,
                        scope@,
                    ));
                }
            }
        } else {
            proof {
                assert(rule_step(v[i as int], prev, scope@) == prev);
                assert(fold_notes(v.take(i + 1), candidate@, scope@) =~= fold_notes(
                    v.take(i as int),
                    candidate@,
                    scope@,
                ));
            }
        }
        i += 1;
    }
    proof {
        assert(v.take(n as int) =~= v);
    }
    Ok((acc, notes))
}

} // verus!
