use pitch::engine::{Config, Pitch};
use pitch::rules::AlterRule;

fn rule(from: &str, to: &str, is_regex: bool, targets: &[&str]) -> AlterRule {
    AlterRule {
        pattern: from.as_bytes().to_vec(),
        replacement: to.as_bytes().to_vec(),
        is_regex,
        targets: targets.iter().map(|t| t.as_bytes().to_vec()).collect(),
    }
}

fn engine(alter: Vec<AlterRule>) -> Pitch {
    Pitch::new(Config { shift: Vec::new(), patch: Vec::new(), alter })
}

#[test]
fn unmatched_destination_unchanged() {
    let p = engine(vec![
        rule("x", "y", false, &["lib/"]),
        rule("v(\\d+)", "V$1", true, &["bin/"]),
    ]);
    let to = b"out/a.txt".to_vec();
    let (dest, notes) = p.rewrite_destination(&to).unwrap();
    assert_eq!(dest, to);
    assert!(notes.is_empty());
    let content = b"x v1 x".to_vec();
    let (text, notes) = p.rewrite_content(&content, &to).unwrap().unwrap();
    assert_eq!(text, content);
    assert!(notes.is_empty());
}

#[test]
fn order_dependent_fold() {
    let p = engine(vec![
        rule("x", "y", false, &["a"]),
        rule("y", "z", false, &["a"]),
    ]);
    let to = b"a".to_vec();
    let (text, notes) = p.rewrite_content(&b"x".to_vec(), &to).unwrap().unwrap();
    assert_eq!(text, b"z".to_vec());
    assert_eq!(notes.len(), 2);
    assert_eq!(notes[0].rule, 0);
    assert_eq!(notes[0].value, b"y".to_vec());
    assert_eq!(notes[1].rule, 1);
    assert_eq!(notes[1].value, b"z".to_vec());
}

#[test]
fn irrelevant_rule_never_alters() {
    let p = engine(vec![rule("a", "b", false, &["zzz"])]);
    let to = b"out/a.txt".to_vec();
    let (dest, notes) = p.rewrite_destination(&to).unwrap();
    assert_eq!(dest, to);
    assert!(notes.is_empty());
    let (text, notes) = p.rewrite_content(&b"a a a".to_vec(), &to).unwrap().unwrap();
    assert_eq!(text, b"a a a".to_vec());
    assert!(notes.is_empty());
}

#[test]
fn rule_fires_once_even_with_two_matching_targets() {
    let p = engine(vec![rule("a", "ab", false, &["d", "d2"])]);
    let to = b"d2".to_vec();
    let (text, notes) = p.rewrite_content(&b"a".to_vec(), &to).unwrap().unwrap();
    assert_eq!(text, b"ab".to_vec());
    assert_eq!(notes.len(), 1);
}

#[test]
fn shift_scenario_content_rewrite() {
    let p = engine(vec![rule("FOO", "BAR", false, &["out/"])]);
    let to = b"out/a.txt".to_vec();
    let (dest, notes) = p.rewrite_destination(&to).unwrap();
    assert_eq!(dest, b"out/a.txt".to_vec());
    assert!(notes.is_empty());
    let (text, notes) = p.rewrite_content(&b"FOO-1".to_vec(), &to).unwrap().unwrap();
    assert_eq!(text, b"BAR-1".to_vec());
    assert_eq!(notes.len(), 1);
    assert_eq!(notes[0].rule, 0);
    assert_eq!(notes[0].value, b"BAR-1".to_vec());
}

#[test]
fn regex_destination_rewrite() {
    let p = engine(vec![rule("v(\\d+)", "V$1", true, &["out/"])]);
    let to = b"out/v2/file".to_vec();
    let (dest, notes) = p.rewrite_destination(&to).unwrap();
    assert_eq!(dest, b"out/V2/file".to_vec());
    assert_eq!(notes.len(), 1);
    assert_eq!(notes[0].rule, 0);
    assert_eq!(notes[0].value, b"out/V2/file".to_vec());
}

#[test]
fn regex_content_rewrite() {
    let p = engine(vec![rule("v(\\d+)", "V$1", true, &["out/"])]);
    let to = b"out/notes.txt".to_vec();
    let (text, notes) = p.rewrite_content(&b"v10 and v2".to_vec(), &to).unwrap().unwrap();
    assert_eq!(text, b"V10 and V2".to_vec());
    assert_eq!(notes.len(), 1);
}

#[test]
fn content_scope_key_is_original_destination() {
    let p = engine(vec![
        rule("old/", "new/", false, &["old/"]),
        rule("X", "Y", false, &["old/"]),
    ]);
    let to = b"old/f".to_vec();
    let (dest, _) = p.rewrite_destination(&to).unwrap();
    assert_eq!(dest, b"new/f".to_vec());
    // Content rules are still keyed by the original destination path.
    let (text, _) = p.rewrite_content(&b"X".to_vec(), &to).unwrap().unwrap();
    assert_eq!(text, b"Y".to_vec());
}

#[test]
fn binary_content_is_left_alone() {
    let p = engine(vec![rule("a", "b", false, &["out/"])]);
    let to = b"out/blob".to_vec();
    let content = vec![0xffu8, 0xfe, 0x00, b'a'];
    let r = p.rewrite_content(&content, &to).unwrap();
    assert!(r.is_none());
}

#[test]
fn bad_pattern_is_fatal_when_in_scope() {
    let p = engine(vec![
        rule("x", "y", false, &["out/"]),
        rule("(", "y", true, &["out/"]),
    ]);
    let to = b"out/a".to_vec();
    let e = p.rewrite_destination(&to).unwrap_err();
    assert_eq!(e.rule, 1);
    let e = p.rewrite_content(&b"x".to_vec(), &to).unwrap_err();
    assert_eq!(e.rule, 1);
}

#[test]
fn bad_pattern_out_of_scope_is_ignored() {
    let p = engine(vec![rule("(", "y", true, &["lib/"])]);
    let to = b"out/a".to_vec();
    let (dest, notes) = p.rewrite_destination(&to).unwrap();
    assert_eq!(dest, to);
    assert!(notes.is_empty());
}

#[test]
fn empty_scope_substring_always_fires() {
    let p = engine(vec![rule("x", "y", false, &[""])]);
    let to = b"anything".to_vec();
    let (text, _) = p.rewrite_content(&b"x".to_vec(), &to).unwrap().unwrap();
    assert_eq!(text, b"y".to_vec());
}
