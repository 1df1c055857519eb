//! The published rulesets, and the manifest that indexes them. The standard ruleset is the
//! built-in default, so the checks below run against `Ruleset::default()`.

use resolution_normalise::ruleset::Ruleset;
use resolution_normalise::Error;

const STANDARD_DIGEST: &str = "83fd376e34bcc1b7bbbcfef9a2a6bc6bfe033cea0ab7a7fdb8c64100182edf0c";

#[test]
fn every_published_ruleset_matches_its_recorded_digest() {
    let rules = Ruleset::default();
    let claimed = Ruleset::standard_digest_for(&rules.version).expect("published");
    let actual = rules.digest().expect("digests");
    assert_eq!(actual, claimed, "the manifest must record the digest the ruleset has");
    assert_eq!(rules.version, "kyvryn-res-1.0");
}

#[test]
fn every_published_ruleset_is_usable() {
    let rules = Ruleset::default();
    rules.validate().unwrap_or_else(|e| panic!("the standard ruleset is not usable: {e:?}"));
}

#[test]
fn the_standard_ruleset_is_the_one_the_code_defaults_to() {
    assert_eq!(
        Ruleset::default().digest().expect("digests"),
        STANDARD_DIGEST,
        "the published standard ruleset has drifted from the built-in default"
    );
}

#[test]
fn an_edited_ruleset_may_not_keep_a_standard_version_string() {
    let mut edited = Ruleset::default();
    assert!(
        edited.version_digest_conflict().expect("digests").is_none(),
        "the unmodified standard ruleset must not conflict with itself"
    );

    edited.staff_domains.push("acme-support.example".to_owned());
    let conflict = edited
        .version_digest_conflict()
        .expect("digests")
        .expect("an edited ruleset under a standard version must be caught");
    assert_eq!(
        conflict,
        Ruleset::standard_digest_for("kyvryn-res-1.0").expect("published"),
        "the conflict reports the digest the manifest actually publishes"
    );

    edited.version = "kyvryn-res-1.0-acme-2026-08".to_owned();
    assert!(edited.version_digest_conflict().expect("digests").is_none());
}

#[test]
fn the_canonical_form_is_compact_json_in_field_order() {
    assert_eq!(
        Ruleset::default().canonical(),
        "{\"version\":\"kyvryn-res-1.0\",\"reopen_window_days\":7,\"repeat_contact_window_days\":7,\
         \"downstream_window_days\":14,\"require_intent_match\":true,\"intent_tag_prefix\":\"intent_\",\
         \"scope_tag_pattern\":\"^intent_[a-z0-9_]+$\",\"staff_domains\":[],\
         \"test_account_markers\":[\"+test@\",\"qa-\"],\"bot_user_ids\":[],\"min_turns\":2,\
         \"max_turns\":200}"
    );
}

#[test]
fn a_negative_window_is_written_with_a_sign() {
    let mut rules = Ruleset::default();
    rules.reopen_window_days = -3;
    assert!(rules.canonical().contains("\"reopen_window_days\":-3,"));
}

#[test]
fn each_invalid_ruleset_is_refused_with_its_reason() {

    let mut negative = Ruleset::default();
    negative.reopen_window_days = -1;
    assert_eq!(negative.validate(), Err(Error::Ruleset("windows cannot be negative".to_owned())));

    let mut inverted = Ruleset::default();
    inverted.min_turns = 5;
    inverted.max_turns = 4;
    assert_eq!(
        inverted.validate(),
        Err(Error::Ruleset("min_turns cannot exceed max_turns".to_owned()))
    );

    let mut bad_pattern = Ruleset::default();
    bad_pattern.scope_tag_pattern = "(".to_owned();
    match bad_pattern.validate() {
        Err(Error::Ruleset(message)) => {
            assert!(message.starts_with("scope_tag_pattern is not a regex: "), "{message}")
        }
        other => panic!("expected a ruleset error, got {other:?}"),
    }
}

#[test]
fn the_longest_window_is_the_largest_of_the_three() {
    let mut rules = Ruleset::default();
    assert_eq!(rules.longest_window_days(), 14);
    rules.repeat_contact_window_days = 30;
    assert_eq!(rules.longest_window_days(), 30);
}

#[test]
fn an_unknown_version_has_no_published_digest() {
    assert_eq!(Ruleset::standard_digest_for("kyvryn-res-9.9"), None);
}
