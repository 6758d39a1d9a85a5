use prefix_index::address::{component_target, root_marker};
use prefix_index::codec::{decode, encode, ValidationError};
use prefix_index::record::{same_bytes, LinkRecord};
use prefix_index::rules::{evaluate, Outcome, Reason, Rule};
use prefix_index::table::{build, PrefixIndexConfig};
use prefix_index::text::contains_chars;
use prefix_index::validate::{leaf_position, validate_candidate, validate_create_link_within_path};

fn config(depth: u64, length: u64) -> PrefixIndexConfig {
    PrefixIndexConfig { depth, literal: "my_string".to_string(), component_length: length }
}

fn root() -> Vec<u8> {
    root_marker()
}

#[test]
fn root_marker_is_stable() {
    assert_eq!(root_marker(), root_marker());
    assert_eq!(root_marker().len(), 39);
}

fn target(s: &str) -> Vec<u8> {
    component_target(&s.to_string()).unwrap()
}

fn record(base: Vec<u8>, text: &str, seq: u8) -> LinkRecord {
    LinkRecord {
        base_address: base,
        target_address: target(text),
        tag: encode(&text.to_string()),
        prev_action: vec![seq.wrapping_sub(1); 39],
        author: vec![7; 32],
        self_hash: vec![seq; 39],
    }
}

fn root_record() -> LinkRecord {
    record(root(), "my_string", 1)
}

/// Root record, then one interior record per text, each based on the previous target.
fn path(texts: &[&str]) -> Vec<LinkRecord> {
    let mut out = vec![root_record()];
    for (i, t) in texts.iter().enumerate() {
        let base = out.last().unwrap().target_address.clone();
        out.push(record(base, t, i as u8 + 2));
    }
    out
}

#[test]
fn table_length_is_depth_plus_three() {
    for depth in [0u64, 1, 2, 5, 17] {
        let t = build(&config(depth, 3));
        assert_eq!(t.sets.len() as u64, depth + 3);
    }
}

#[test]
fn table_rule_sets_by_position() {
    let t = build(&config(2, 3));
    assert_eq!(
        t.sets[0],
        vec![Rule::BaseIsRoot, Rule::TargetIsComponent, Rule::TagEqualsLiteral("my_string".to_string())]
    );
    for i in 1..=2 {
        assert_eq!(t.sets[i], vec![Rule::BaseIsPrevTarget, Rule::TargetIsComponent, Rule::TagHasLength(3)]);
    }
    assert_eq!(
        t.sets[3],
        vec![Rule::BaseIsPrevTarget, Rule::TargetIsComponent, Rule::TagContainsAncestors(2)]
    );
    assert_eq!(t.sets[4], vec![Rule::RejectAlways]);
}

#[test]
fn codec_round_trip() {
    for s in ["", "abc", "my_string", "a.b.c", "héllo wörld ✓ 🚀"] {
        let bytes = encode(&s.to_string());
        assert_eq!(decode(&bytes).unwrap(), s.to_string());
    }
}

#[test]
fn codec_encoding_is_not_the_text() {
    let bytes = encode(&"abc".to_string());
    assert_ne!(bytes, b"abc".to_vec());
}

#[test]
fn codec_rejects_malformed_bytes() {
    assert_eq!(decode(&vec![0xc1]), Err(ValidationError::Decode));
    assert_eq!(decode(&vec![]), Err(ValidationError::Decode));
    // A component of five bytes is not a whole number of characters.
    let five = vec![0xc4, 5, 1, 0, 0, 0, 2];
    assert_eq!(decode(&five), Err(ValidationError::Decode));
}

#[test]
fn component_targets_differ_by_text() {
    let a = target("abc");
    let b = target("abd");
    assert_eq!(a.len(), 39);
    assert_ne!(a, b);
    assert_eq!(a, target("abc"));
    assert_ne!(a, root());
    assert_eq!(root().len(), 39);
}

#[test]
fn root_position_rejects_non_root_base() {
    let mut r = root_record();
    r.base_address = target("elsewhere");
    let out = validate_candidate(&config(2, 3), &vec![r.clone()], &root(), &None);
    assert_eq!(out, Ok(Outcome::Invalid(Reason::BaseNotRoot)));
    r.tag = encode(&"something else".to_string());
    let out = validate_candidate(&config(2, 3), &vec![r], &root(), &None);
    assert_eq!(out, Ok(Outcome::Invalid(Reason::BaseNotRoot)));
}

#[test]
fn root_record_with_literal_is_valid() {
    let out = validate_candidate(&config(2, 3), &vec![root_record()], &root(), &None);
    assert_eq!(out, Ok(Outcome::Valid));
}

#[test]
fn root_record_with_other_tag_is_invalid() {
    let r = record(root(), "other", 1);
    let out = validate_candidate(&config(2, 3), &vec![r], &root(), &None);
    assert_eq!(out, Ok(Outcome::Invalid(Reason::TagNotLiteral)));
}

#[test]
fn interior_length_is_checked() {
    let good = path(&["abc"]);
    assert_eq!(validate_candidate(&config(2, 3), &good, &root(), &None), Ok(Outcome::Valid));
    let bad = path(&["abcd"]);
    assert_eq!(
        validate_candidate(&config(2, 3), &bad, &root(), &None),
        Ok(Outcome::Invalid(Reason::TagLengthMismatch))
    );
    let short = path(&["ab"]);
    assert_eq!(
        validate_candidate(&config(2, 3), &short, &root(), &None),
        Ok(Outcome::Invalid(Reason::TagLengthMismatch))
    );
}

#[test]
fn interior_base_must_be_previous_target() {
    let mut p = path(&["abc"]);
    p[1].base_address = root();
    assert_eq!(
        validate_candidate(&config(2, 3), &p, &root(), &None),
        Ok(Outcome::Invalid(Reason::BaseNotPrevTarget))
    );
}

#[test]
fn wrong_target_is_invalid_everywhere() {
    let cfg = config(2, 3);
    let mut r = root_record();
    r.target_address = target("not my_string");
    assert_eq!(validate_candidate(&cfg, &vec![r], &root(), &None), Ok(Outcome::Invalid(Reason::TargetNotComponent)));

    let mut p = path(&["abc"]);
    p[1].target_address = target("abd");
    assert_eq!(validate_candidate(&cfg, &p, &root(), &None), Ok(Outcome::Invalid(Reason::TargetNotComponent)));

    let mut p = path(&["abc", "def", "abcdef-key"]);
    p[3].target_address = target("abcdef");
    let window = Some(vec![p[1].clone(), p[2].clone()]);
    assert_eq!(validate_candidate(&cfg, &p, &root(), &window), Ok(Outcome::Invalid(Reason::TargetNotComponent)));
}

#[test]
fn leaf_contains_ancestor_tags() {
    let cfg = config(2, 3);
    let p = path(&["abc", "def", "abcdef-key"]);
    let window = Some(vec![p[1].clone(), p[2].clone()]);
    assert_eq!(validate_candidate(&cfg, &p, &root(), &window), Ok(Outcome::Valid));

    let p = path(&["abc", "def", "xyz"]);
    let window = Some(vec![p[1].clone(), p[2].clone()]);
    assert_eq!(
        validate_candidate(&cfg, &p, &root(), &window),
        Ok(Outcome::Invalid(Reason::AncestorsNotInTag(2, "xyz".to_string())))
    );
}

#[test]
fn leaf_joins_ancestors_in_chain_order() {
    let cfg = config(2, 3);
    let p = path(&["abc", "def", "defabc"]);
    let window = Some(vec![p[1].clone(), p[2].clone()]);
    assert_eq!(
        validate_candidate(&cfg, &p, &root(), &window),
        Ok(Outcome::Invalid(Reason::AncestorsNotInTag(2, "defabc".to_string())))
    );
}

#[test]
fn leaf_uses_only_the_last_records_of_a_longer_window() {
    let cfg = config(2, 3);
    let p = path(&["abc", "def", "abcdef"]);
    let extra = record(root(), "zzz", 9);
    let window = Some(vec![extra, p[1].clone(), p[2].clone()]);
    assert_eq!(validate_candidate(&cfg, &p, &root(), &window), Ok(Outcome::Valid));
}

#[test]
fn leaf_without_window_is_lookup_error() {
    let p = path(&["abc", "def", "abcdef-key"]);
    assert_eq!(validate_candidate(&config(2, 3), &p, &root(), &None), Err(ValidationError::Lookup));
}

#[test]
fn leaf_window_with_bad_tag_is_decode_error() {
    let p = path(&["abc", "def", "abcdef-key"]);
    let mut broken = p[2].clone();
    broken.tag = vec![0xc1];
    let window = Some(vec![p[1].clone(), broken]);
    assert_eq!(validate_candidate(&config(2, 3), &p, &root(), &window), Err(ValidationError::Decode));
}

#[test]
fn undecodable_candidate_tag_is_decode_error() {
    let mut r = root_record();
    r.tag = vec![0xc1, 0x00];
    assert_eq!(validate_candidate(&config(2, 3), &vec![r], &root(), &None), Err(ValidationError::Decode));
}

#[test]
fn overflow_position_is_invalid() {
    let p = path(&["abc", "def", "abcdef", "more"]);
    let window = Some(vec![p[1].clone(), p[2].clone()]);
    assert_eq!(
        validate_candidate(&config(2, 3), &p, &root(), &window),
        Ok(Outcome::Invalid(Reason::TooManyComponents))
    );
    let p = path(&["x", "y"]);
    assert_eq!(
        validate_candidate(&config(0, 1), &p, &root(), &Some(vec![])),
        Ok(Outcome::Invalid(Reason::TooManyComponents))
    );
}

#[test]
fn short_ancestry_is_valid_without_later_positions() {
    let cfg = config(5, 3);
    let p = path(&["abc", "def"]);
    assert_eq!(validate_candidate(&cfg, &p, &root(), &None), Ok(Outcome::Valid));
    assert_eq!(validate_candidate(&cfg, &vec![], &root(), &None), Ok(Outcome::Valid));
}

#[test]
fn empty_table_accepts_anything() {
    let table = prefix_index::table::RuleTable { sets: vec![] };
    let mut r = root_record();
    r.base_address = vec![1, 2, 3];
    assert_eq!(validate_create_link_within_path(&table, &vec![r], &root(), &None), Ok(Outcome::Valid));
}

#[test]
fn evaluate_single_rules() {
    let p = path(&["abc"]);
    let r = root();
    assert_eq!(evaluate(&Rule::RejectAlways, &p, 0, &r, &None), Ok(Outcome::Invalid(Reason::TooManyComponents)));
    assert_eq!(evaluate(&Rule::BaseIsPrevTarget, &p, 0, &r, &None), Ok(Outcome::Invalid(Reason::BaseNotPrevTarget)));
    assert_eq!(evaluate(&Rule::BaseIsPrevTarget, &p, 1, &r, &None), Ok(Outcome::Valid));
    assert_eq!(evaluate(&Rule::TagHasLength(3), &p, 1, &r, &None), Ok(Outcome::Valid));
    assert_eq!(evaluate(&Rule::TagHasLength(4), &p, 1, &r, &None), Ok(Outcome::Invalid(Reason::TagLengthMismatch)));
    assert_eq!(evaluate(&Rule::TagContainsAncestors(1), &p, 1, &r, &None), Err(ValidationError::Lookup));
    assert_eq!(evaluate(&Rule::TagContainsAncestors(0), &p, 1, &r, &Some(vec![])), Ok(Outcome::Valid));
    let window = Some(vec![p[0].clone()]);
    assert_eq!(
        evaluate(&Rule::TagContainsAncestors(1), &p, 1, &r, &window),
        Ok(Outcome::Invalid(Reason::AncestorsNotInTag(1, "abc".to_string())))
    );
}

#[test]
fn multibyte_length_counts_characters() {
    let p = path(&["é✓🚀"]);
    assert_eq!(evaluate(&Rule::TagHasLength(3), &p, 1, &root(), &None), Ok(Outcome::Valid));
}

#[test]
fn reason_messages() {
    assert_eq!(Reason::BaseNotRoot.message(), "base address must be root");
    assert_eq!(Reason::TargetNotComponent.message(), "target must equal tag-as-component");
    assert_eq!(Reason::TagNotLiteral.message(), "tag must equal expected string");
    assert_eq!(Reason::BaseNotPrevTarget.message(), "base must be previous record's target");
    assert_eq!(Reason::TagLengthMismatch.message(), "tag must have expected character count");
    assert_eq!(
        Reason::AncestorsNotInTag(2, "xyz".to_string()).message(),
        "previous 2 records' tags must form a substring of current tag 'xyz'"
    );
    assert_eq!(
        Reason::AncestorsNotInTag(0, "".to_string()).message(),
        "previous 0 records' tags must form a substring of current tag ''"
    );
    assert_eq!(
        Reason::AncestorsNotInTag(1207, "é-key".to_string()).message(),
        "previous 1207 records' tags must form a substring of current tag 'é-key'"
    );
    assert_eq!(Reason::TooManyComponents.message(), "path has too many components");
}

#[test]
fn leaf_position_by_depth() {
    let p = path(&["abc", "def", "abcdef"]);
    assert_eq!(leaf_position(&config(2, 3), &p), Some(3));
    assert_eq!(leaf_position(&config(3, 3), &p), None);
    assert_eq!(leaf_position(&config(0, 3), &p), Some(1));
}

#[test]
fn text_helpers() {
    let hay: Vec<char> = "abcdef-key".chars().collect();
    assert!(contains_chars(&hay, &"abcdef".chars().collect()));
    assert!(contains_chars(&hay, &vec![]));
    assert!(contains_chars(&hay, &"-key".chars().collect()));
    assert!(!contains_chars(&hay, &"xyz".chars().collect()));
    assert!(!contains_chars(&"ab".chars().collect(), &"abc".chars().collect()));
    assert!(same_bytes(&vec![1, 2], &vec![1, 2]));
    assert!(!same_bytes(&vec![1, 2], &vec![1, 3]));
    assert!(!same_bytes(&vec![1], &vec![1, 2]));
}

#[test]
fn config_from_payloads() {
    let lit = holochain_serialized_bytes::encode(&"my_string".to_string()).unwrap();
    let len = holochain_serialized_bytes::encode(&3u64).unwrap();
    let cfg = PrefixIndexConfig::from_payloads(2, &lit, &len).unwrap();
    assert_eq!(cfg, config(2, 3));
    assert_eq!(PrefixIndexConfig::from_payloads(2, &vec![0xc1], &len), Err(ValidationError::ConfigDecode));
    assert_eq!(PrefixIndexConfig::from_payloads(2, &lit, &lit), Err(ValidationError::ConfigDecode));
}
