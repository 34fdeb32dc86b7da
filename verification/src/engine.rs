//! The copy engine's decisions: destination-path rewriting, content
//! rewriting gated by a binary/text test, and the destination arithmetic of
//! directory expansion. The filesystem work around these decisions is plain
//! input/output and stays outside the library.

use vstd::prelude::*;

use crate::pattern::utf8_ok;
use crate::rules::{
    apply_rules, bad_pattern_at, fold_notes, fold_rules, rules_ok, view_notes, view_rules,
    AlterRule, BadPattern, RewriteNote, RuleView,
};
use crate::text::{append_bytes, copy_bytes};

verus! {

/// One copy entry: a source path and a destination path, either the shift or
/// the patch list holds it. The source may be a file or a directory.
pub struct Item {
    pub from: Vec<u8>,
    pub to: Vec<u8>,
}

/// The whole configuration: the shift entries, the patch entries, and the
/// ordered alteration rules, loaded once and never mutated.
pub struct Config {
    pub shift: Vec<Item>,
    pub patch: Vec<Item>,
    pub alter: Vec<AlterRule>,
}

/// Invocation options: the path of the configuration file.
pub struct Options {
    pub config: String,
}

/// The staging engine: holds the immutable configuration and decides, for
/// each copy, the rewritten destination path and the rewritten content.
pub struct Pitch {
    pub config: Config,
}

/// A POSIX-style path join: `rel` appended to `base` with exactly one
/// separator between them, `rel` alone when `base` is empty.
pub open spec fn joined(base: Seq<u8>, rel: Seq<u8>) -> Seq<u8> {
    if base.len() == 0 {
        rel
    } else if base.last() == 47u8 {
        base + rel
    } else {
        base + seq![47u8] + rel
    }
}

/// Destination path for a file found under a copied directory: the
/// configured destination joined with the file's relative path.
pub fn join_dest(base: &Vec<u8>, rel: &Vec<u8>) -> (r: Vec<u8>)
    ensures
        r@ == joined(base@, rel@),
{
    let mut out = copy_bytes(base);
    if base.len() > 0 && base[base.len() - 1] != 47u8 {
        out.push(47u8);
        proof {
            assert(base@.last() != 47u8);
            assert(out@ =~= base@ + seq![47u8]);
        }
    }
    append_bytes(&mut out, rel);
    proof {
        if base@.len() > 0 && base@.last() != 47u8 {
            assert(out@ =~= base@ + seq![47u8] + rel@);
        }
    }
    out
}

impl Pitch {
    /// A staging engine over a loaded configuration.
    pub fn new(config: Config) -> (p: Pitch)
        ensures
            p.config == config,
    {
        Pitch { config }
    }

    /// The rule list this engine folds, as its mathematical image.
    pub open spec fn rules(&self) -> Seq<RuleView> {
        view_rules(self.config.alter@)
    }

    /// Rewrites a destination path: the rule fold over the path, with the
    /// path itself as the scope key.
    pub fn rewrite_destination(&self, to: &Vec<u8>) -> (r: Result<
        (Vec<u8>, Vec<RewriteNote>),
        BadPattern,
    >)
        ensures
            r is Ok <==> rules_ok(self.rules(), to@),
            r is Ok ==> r->Ok_0.0@ == fold_rules(self.rules(), to@, to@),
            r is Ok ==> view_notes(r->Ok_0.1@) == fold_notes(self.rules(), to@, to@),
            r is Err ==> bad_pattern_at(self.rules(), to@, r->Err_0.rule as int),
    {
        apply_rules(&self.config.alter, to, to)
    }

    /// Rewrites a copied file's content. Binary content (not valid UTF-8) is
    /// left alone and reported as `None`; text content goes through the rule
    /// fold, keyed by the original (pre-rewrite) destination path.
    pub fn rewrite_content(&self, content: &Vec<u8>, to: &Vec<u8>) -> (r: Result<
        Option<(Vec<u8>, Vec<RewriteNote>)>,
        BadPattern,
    >)
        ensures
            (r is Ok && r->Ok_0 is None) <==> !utf8_ok(content@),
            utf8_ok(content@) ==> (r is Ok <==> rules_ok(self.rules(), to@)),
            r is Ok && r->Ok_0 is Some ==> r->Ok_0->Some_0.0@ == fold_rules(
                self.rules(),
                content@,
                to@,
            ),
            r is Ok && r->Ok_0 is Some ==> view_notes(r->Ok_0->Some_0.1@) == fold_notes(
                self.rules(),
                content@,
                to@,
            ),
            r is Err ==> bad_pattern_at(self.rules(), to@, r->Err_0.rule as int),
    {
        if !crate::pattern::is_text(content) {
            return Ok(None);
        }
        match apply_rules(&self.config.alter, content, to) {
            Ok((text, notes)) => Ok(Some((text, notes))),
            Err(e) => Err(e),
        }
    }
}

} // verus!
