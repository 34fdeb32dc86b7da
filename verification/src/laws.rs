//! Laws of the rule fold, stated over the same spec functions the engine's
//! contracts use and proved once for every rule list, value and scope key.

use vstd::prelude::*;

use crate::rules::{
    fold_notes, fold_rules, rule_applies, rule_step, rules_ok, NoteView, RuleView,
};

verus! {

/// Law: when no rule's scope substrings occur in the scope key, the fold
/// returns the candidate unchanged, emits no notification, and cannot hit a
/// bad pattern. A destination path that no rule matches therefore passes
/// through untouched, and so does the content copied under it.
pub proof fn lemma_unmatched_scope_unchanged(rules: Seq<RuleView>, cand: Seq<u8>, scope: Seq<u8>)
    requires
        forall|i: int| 0 <= i < rules.len() ==> !rule_applies(#[trigger] rules[i], scope),
    ensures
        fold_rules(rules, cand, scope) == cand,
        fold_notes(rules, cand, scope) == Seq::<NoteView>::empty(),
        rules_ok(rules, scope),
    decreases rules.len(),
{
    if rules.len() == 0 {
    } else {
        let front = rules.drop_last();
        assert forall|i: int| 0 <= i < front.len() implies !rule_applies(
            #[trigger] front[i],
            scope,
        ) by {
            assert(front[i] == rules[i]);
        }
        lemma_unmatched_scope_unchanged(front, cand, scope);
        assert(!rule_applies(rules.last(), scope));
        assert(rule_step(rules.last(), cand, scope) == cand);
        assert(fold_notes(rules, cand, scope) =~= Seq::<NoteView>::empty());
    }
}

/// Law: a rule whose scope substrings all miss the scope key can be removed
/// from the rule list without changing the fold's value — an irrelevant rule
/// never alters a path or a content, whatever its pattern.
pub proof fn lemma_irrelevant_rule_removed(
    rules: Seq<RuleView>,
    k: int,
    cand: Seq<u8>,
    scope: Seq<u8>,
)
    requires
        0 <= k < rules.len(),
        !rule_applies(rules[k], scope),
    ensures
        fold_rules(rules.remove(k), cand, scope) == fold_rules(rules, cand, scope),
    decreases rules.len(),
{
    if k == rules.len() - 1 {
        assert(rules.remove(k) =~= rules.drop_last());
        assert(rule_step(rules.last(), fold_rules(rules.drop_last(), cand, scope), scope)
            == fold_rules(rules.drop_last(), cand, scope));
    } else {
        let front = rules.drop_last();
        assert(front[k] == rules[k]);
        lemma_irrelevant_rule_removed(front, k, cand, scope);
        assert(rules.remove(k).drop_last() =~= front.remove(k));
        assert(rules.remove(k).last() == rules.last());
    }
}

} // verus!
