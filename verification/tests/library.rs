//! Concrete checks of the library's functions, one formula or rule at a time.

use resolution_normalise::canonical::inputs_json;
use resolution_normalise::criteria::{artifact_body, for_claim, schema};
use resolution_normalise::json::write_string;
use resolution_normalise::model::{parse_time, usd, ClaimRecord, Outcome, RequesterClass};
use resolution_normalise::normalise::{classify, failed_reasons, reason_counts, summarise, tally};
use resolution_normalise::ruleset::Ruleset;
use resolution_normalise::source::{BilledClaim, DownstreamEvent, EventKind, Ticket, TicketEvent, User};
use resolution_normalise::time::{Timestamp, EARLIEST_SECS, LATEST_SECS};
use resolution_normalise::{digest_of_text, sha256_hex};
use serde_json::Value;

fn at(text: &str) -> Timestamp {
    parse_time(text).expect("parses")
}

fn record() -> ClaimRecord {
    ClaimRecord {
        claim_id: "c1".to_owned(),
        ticket_id: "t1".to_owned(),
        period: "2026-08".to_owned(),
        resolution_type: "confirmed".to_owned(),
        resolved_at: "2026-08-01T10:00:00+00:00".to_owned(),
        reopened_within_window: false,
        repeat_contact_window: false,
        reached_human: false,
        downstream_reversal: false,
        requester_class: "customer".to_owned(),
        turn_count: 3,
        scope_tag: "intent_billing".to_owned(),
        amount_usd_micros: 990_000,
        inputs_sha256: "a".repeat(64),
        ruleset_version: "kyvryn-res-1.0".to_owned(),
        ruleset_sha256: "b".repeat(64),
    }
}

fn user(id: &str, role: &str, email: Option<&str>) -> User {
    User { id: id.to_owned(), role: role.to_owned(), email: email.map(|e| e.to_owned()) }
}

#[test]
fn sha256_hex_matches_known_vectors() {
    assert_eq!(
        sha256_hex(b"abc"),
        "ba7816bf8f01cfea414140de5dae2223b00361a396177a9cb410ff61f20015ad"
    );
    assert_eq!(
        sha256_hex(b""),
        "e3b0c44298fc1c149afbf4c8996fb92427ae41e4649b934ca495991b7852b855"
    );
    assert_eq!(digest_of_text("abc"), sha256_hex(b"abc"));
    assert_eq!(digest_of_text("é"), sha256_hex("é".as_bytes()));
}

#[test]
fn usd_truncates_to_cents() {
    assert_eq!(usd(0), "0.00");
    assert_eq!(usd(5), "0.00");
    assert_eq!(usd(1_234_567), "1.23");
    assert_eq!(usd(99_999_999), "99.99");
    assert_eq!(usd(10_050_000), "10.05");
    assert_eq!(usd(u64::MAX), "18446744073709.55");
}

#[test]
fn requester_class_tags() {
    assert_eq!(RequesterClass::Customer.as_str(), "customer");
    assert_eq!(RequesterClass::Staff.as_str(), "staff");
    assert_eq!(RequesterClass::Test.as_str(), "test");
    assert_eq!(RequesterClass::Bot.as_str(), "bot");
    assert_eq!(RequesterClass::Unknown.as_str(), "unknown");
}

#[test]
fn failed_reasons_are_sorted_and_agree_with_passes_locally() {
    let clean = record();
    assert!(failed_reasons(&clean, 2, 200, true).is_empty());
    assert!(clean.passes_locally(2, 200, true));

    let mut bad = record();
    bad.reached_human = true;
    bad.downstream_reversal = true;
    bad.requester_class = "staff".to_owned();
    bad.turn_count = 1;
    assert!(!bad.passes_locally(2, 200, false));
    assert_eq!(
        failed_reasons(&bad, 2, 200, false),
        vec![
            "downstream_reversal".to_owned(),
            "reached_human".to_owned(),
            "requester_not_customer".to_owned(),
            "scope_tag_invalid".to_owned(),
            "turn_count_out_of_range".to_owned(),
        ]
    );

    let mut long = record();
    long.turn_count = 201;
    assert_eq!(failed_reasons(&long, 2, 200, true), vec!["turn_count_out_of_range".to_owned()]);
    assert!(!long.passes_locally(2, 200, true));
}

#[test]
fn tally_counts_each_kind_of_outcome() {
    let mut flagged = record();
    flagged.reopened_within_window = true;
    flagged.amount_usd_micros = 500_000;
    let outcomes = vec![
        Outcome::Claim(Box::new(record())),
        Outcome::Claim(Box::new(flagged)),
        Outcome::Deferred {
            claim_id: "c3".to_owned(),
            adjudicable_at: "2026-09-01T00:00:00+00:00".to_owned(),
        },
        Outcome::Unmatched {
            claim_id: "c4".to_owned(),
            ticket_id: "t9".to_owned(),
            reason: "no ticket".to_owned(),
            amount_usd_micros: 250_000,
        },
    ];
    let summary = tally(&outcomes, 2, 200, &vec![true, true, false, false]);
    assert_eq!(summary.billed, 3);
    assert_eq!(summary.verified, 1);
    assert_eq!(summary.exceptions, 1);
    assert_eq!(summary.deferred, 1);
    assert_eq!(summary.unmatched, 1);
    assert_eq!(summary.billed_usd_micros, 990_000 + 500_000 + 250_000);
    assert_eq!(summary.at_stake_usd_micros, 500_000 + 250_000);
    assert_eq!(
        summary.by_reason,
        vec![("reopened_within_window".to_owned(), 1), ("unmatched_ticket".to_owned(), 1)]
    );
    assert_eq!(reason_counts(&summary), summary.by_reason);
}

#[test]
fn amounts_saturate_instead_of_overflowing() {
    let mut big = record();
    big.amount_usd_micros = u64::MAX;
    let outcomes = vec![Outcome::Claim(Box::new(big.clone())), Outcome::Claim(Box::new(big))];
    let summary = tally(&outcomes, 2, 200, &vec![true, true]);
    assert_eq!(summary.billed_usd_micros, u64::MAX);
}

#[test]
fn summarise_applies_the_scope_pattern() {
    let mut out_of_scope = record();
    out_of_scope.scope_tag = "intent_Billing!".to_owned();
    let outcomes =
        vec![Outcome::Claim(Box::new(record())), Outcome::Claim(Box::new(out_of_scope))];
    let summary = summarise(&outcomes, &Ruleset::default());
    assert_eq!(summary.verified, 1);
    assert_eq!(summary.exceptions, 1);
    assert_eq!(summary.by_reason, vec![("scope_tag_invalid".to_owned(), 1)]);

    let mut broken = Ruleset::default();
    broken.scope_tag_pattern = "(".to_owned();
    let summary = summarise(&outcomes, &broken);
    assert_eq!(summary.verified, 0);
    assert_eq!(summary.exceptions, 2);
}

#[test]
fn classify_follows_the_rules_in_order() {
    let mut rules = Ruleset::default();
    rules.staff_domains.push("Acme.Example".to_owned());
    rules.bot_user_ids.push("fin-bot".to_owned());

    let agent = user("a", "agent", Some("a@elsewhere.example"));
    let bot = user("b", "bot", None);
    let no_email = user("c", "end-user", None);
    let tester = user("d", "end-user", Some("Jane+TEST@example.com"));
    let qa = user("e", "end-user", Some("qa-robot@example.com"));
    let staff = user("f", "end-user", Some("Fred@ACME.example"));
    let noreply = user("g", "end-user", Some("NoReply@shop.example"));
    let no_reply = user("h", "end-user", Some("no-reply@shop.example"));
    let customer = user("i", "end-user", Some("ivy@example.com"));

    assert_eq!(classify(Some(&customer), "fin-bot", &rules), RequesterClass::Bot);
    assert_eq!(classify(None, "x", &rules), RequesterClass::Unknown);
    assert_eq!(classify(Some(&agent), "a", &rules), RequesterClass::Staff);
    assert_eq!(classify(Some(&bot), "b", &rules), RequesterClass::Bot);
    assert_eq!(classify(Some(&no_email), "c", &rules), RequesterClass::Customer);
    assert_eq!(classify(Some(&tester), "d", &rules), RequesterClass::Test);
    assert_eq!(classify(Some(&qa), "e", &rules), RequesterClass::Test);
    assert_eq!(classify(Some(&staff), "f", &rules), RequesterClass::Staff);
    assert_eq!(classify(Some(&noreply), "g", &rules), RequesterClass::Bot);
    assert_eq!(classify(Some(&no_reply), "h", &rules), RequesterClass::Bot);
    assert_eq!(classify(Some(&customer), "i", &rules), RequesterClass::Customer);
    assert!(user("j", "admin", None).is_staff_role());
    assert!(!user("k", "end-user", None).is_staff_role());
}

#[test]
fn a_staff_domain_covers_itself_and_its_subdomains_only() {
    let mut rules = Ruleset::default();
    rules.staff_domains.push("acme.example".to_owned());
    let class = |email: &str| classify(Some(&user("u", "end-user", Some(email))), "u", &rules);
    assert_eq!(class("help@acme.example"), RequesterClass::Staff);
    assert_eq!(class("help@eu.ACME.example"), RequesterClass::Staff);
    assert_eq!(class("bob@notacme.example"), RequesterClass::Customer);
    assert_eq!(class("bob@acme.example.org"), RequesterClass::Customer);
    assert_eq!(class("acme.example"), RequesterClass::Customer);
    assert_eq!(class("odd@name@acme.example"), RequesterClass::Staff);

    let mut short = Ruleset::default();
    short.staff_domains.push("2.3".to_owned());
    assert_eq!(classify(Some(&user("u", "end-user", Some("1@12.3"))), "u", &short), RequesterClass::Customer);
    assert_eq!(classify(Some(&user("u", "end-user", Some("1@2.3"))), "u", &short), RequesterClass::Staff);
}

fn criterion(kind: &str, fields: Vec<(&str, Value)>) -> Value {
    let mut inner = serde_json::Map::new();
    for (k, v) in fields {
        inner.insert(k.to_owned(), v);
    }
    let mut outer = serde_json::Map::new();
    outer.insert(kind.to_owned(), Value::Object(inner));
    Value::Object(outer)
}

#[test]
fn the_criteria_are_the_judges_wire_form() {
    let rules = Ruleset::default();
    let rec = record();
    let texts = for_claim(&rec, &rules);
    let parsed: Vec<Value> =
        texts.iter().map(|t| serde_json::from_str(t).expect("valid JSON")).collect();
    let s = |x: &str| Value::String(x.to_owned());
    let expected = vec![
        criterion("field_equals", vec![("pointer", s("/reopened_within_window")), ("value", Value::Bool(false))]),
        criterion("field_equals", vec![("pointer", s("/repeat_contact_window")), ("value", Value::Bool(false))]),
        criterion("field_equals", vec![("pointer", s("/reached_human")), ("value", Value::Bool(false))]),
        criterion("field_equals", vec![("pointer", s("/downstream_reversal")), ("value", Value::Bool(false))]),
        criterion("field_equals", vec![("pointer", s("/requester_class")), ("value", s("customer"))]),
        criterion("field_matches", vec![("pointer", s("/scope_tag")), ("pattern", s("^intent_[a-z0-9_]+$"))]),
        criterion(
            "field_length_between",
            vec![("pointer", s("/turn_marks")), ("min", Value::from(2u64)), ("max", Value::from(200u64))],
        ),
        criterion("field_equals", vec![("pointer", s("/inputs_sha256")), ("value", s(&"a".repeat(64)))]),
        criterion("field_equals", vec![("pointer", s("/ruleset_sha256")), ("value", s(&"b".repeat(64)))]),
    ];
    assert_eq!(parsed, expected);
    for (text, value) in texts.iter().zip(expected.iter()) {
        assert_eq!(text, &serde_json::to_string(value).expect("serialises"));
    }
}

#[test]
fn the_schema_lists_the_required_fields() {
    let text = schema();
    let value: Value = serde_json::from_str(&text).expect("valid JSON");
    assert_eq!(text, serde_json::to_string(&value).expect("serialises"));
    assert_eq!(value["deny_unknown_fields"], Value::Bool(false));
    let required = value["required"].as_array().expect("array");
    assert_eq!(required.len(), 10);
    assert_eq!(required[0]["pointer"], "/claim_id");
    assert_eq!(required[3]["kind"], "bool");
    assert_eq!(required[9]["pointer"], "/ruleset_sha256");
}

#[test]
fn the_artifact_body_is_the_record_plus_turn_marks() {
    let rec = record();
    let text = artifact_body(&rec);
    let value: Value = serde_json::from_str(&text).expect("valid JSON");
    assert_eq!(text, serde_json::to_string(&value).expect("serialises"), "keys ascend, compact");
    assert_eq!(value["turn_marks"], "xxx");
    assert_eq!(value["turn_count"], 3);
    assert_eq!(value["claim_id"], "c1");
    assert_eq!(value["reached_human"], false);
    assert_eq!(value.as_object().expect("object").len(), 17);
}

#[test]
fn strings_are_escaped_as_serde_json_escapes_them() {
    for s in ["plain", "quote \" and \\ backslash", "tab\tnew\nline\r", "\u{1}\u{8}\u{c}\u{1f}\u{7f}", "é ü 漢字 🙂"] {
        let mut out = String::new();
        write_string(&mut out, s);
        assert_eq!(out, serde_json::to_string(&Value::String(s.to_owned())).expect("serialises"));
    }
}

#[test]
fn the_input_text_is_the_canonical_json_of_the_claims_records() {
    let ticket = Ticket {
        id: "t1".to_owned(),
        requester_id: "u1".to_owned(),
        created_at: at("2026-08-01T09:00:00.250Z"),
        tags: vec!["intent_billing".to_owned()],
    };
    let events = vec![
        TicketEvent { ticket_id: "t1".to_owned(), at: at("2026-08-01T10:00:00Z"), kind: EventKind::StatusChanged { to: "solved".to_owned() } },
        TicketEvent { ticket_id: "t2".to_owned(), at: at("2026-08-01T09:30:00Z"), kind: EventKind::PublicComment { author_id: "u2".to_owned() } },
        TicketEvent { ticket_id: "t1".to_owned(), at: at("2026-08-01T09:05:00Z"), kind: EventKind::AssigneeChanged { to_user_id: None } },
    ];
    let claim = BilledClaim {
        claim_id: "c1".to_owned(),
        ticket_id: "t1".to_owned(),
        resolution_type: "assumed".to_owned(),
        resolved_at: at("2026-08-01T10:00:00Z"),
        amount_usd_micros: 990_000,
    };
    let downstream = vec![
        DownstreamEvent { requester_id: "u1".to_owned(), at: at("2026-08-03T00:00:00+02:00"), kind: "refund".to_owned() },
        DownstreamEvent { requester_id: "u2".to_owned(), at: at("2026-08-03T00:00:00Z"), kind: "refund".to_owned() },
    ];
    let users = vec![
        user("u2", "agent", Some("ann@acme.example")),
        user("u1", "end-user", Some("Una@example.com")),
        user("u9", "end-user", None),
    ];
    let text = inputs_json(&claim, &ticket, &events, &vec![2, 0], &downstream, &users);

    let obj = |fields: Vec<(&str, Value)>| {
        let mut m = serde_json::Map::new();
        for (k, v) in fields {
            m.insert(k.to_owned(), v);
        }
        Value::Object(m)
    };
    let s = |x: &str| Value::String(x.to_owned());
    let expected = obj(vec![
        ("ticket", obj(vec![("id", s("t1")), ("requester_id", s("u1")), ("created_at", s("2026-08-01T09:00:00.250Z")), ("tags", Value::Array(vec![s("intent_billing")]))])),
        ("events", Value::Array(vec![
            obj(vec![("ticket_id", s("t1")), ("at", s("2026-08-01T09:05:00Z")), ("kind", obj(vec![("assignee_changed", obj(vec![("to_user_id", Value::Null)]))]))]),
            obj(vec![("ticket_id", s("t1")), ("at", s("2026-08-01T10:00:00Z")), ("kind", obj(vec![("status_changed", obj(vec![("to", s("solved"))]))]))]),
        ])),
        ("claim", obj(vec![("claim_id", s("c1")), ("ticket_id", s("t1")), ("resolution_type", s("assumed")), ("resolved_at", s("2026-08-01T10:00:00Z")), ("amount_usd_micros", Value::from(990_000u64))])),
        ("downstream", Value::Array(vec![obj(vec![("requester_id", s("u1")), ("at", s("2026-08-02T22:00:00Z")), ("kind", s("refund"))])])),
        ("users", Value::Array(vec![obj(vec![("id", s("u1")), ("role", s("end-user")), ("email", s("Una@example.com"))])])),
    ]);
    assert_eq!(text, serde_json::to_string(&expected).expect("serialises"));
}

#[test]
fn instants_parse_and_shift_as_chrono_does() {
    let t = at("2026-08-01T10:00:00+02:00");
    assert_eq!(t, Timestamp { secs: 1_785_571_200, nanos: 0 });
    assert_eq!(parse_time("not a time"), None);
    assert_eq!(parse_time("2026-08-01 10:00:00"), None);

    let shifted = t.plus_days(7);
    assert_eq!(shifted, Timestamp { secs: 1_785_571_200 + 7 * 86_400, nanos: 0 });
    assert!(t.is_before(&shifted));
    assert!(!shifted.is_before(&t));
    assert!(t.is_not_after(&t));

    let leap = at("2016-12-31T23:59:60.5Z");
    assert_eq!(leap, Timestamp { secs: 1_483_228_799, nanos: 1_500_000_000 });
    assert_eq!(leap.plus_days(1), Timestamp { secs: 1_483_228_799 + 86_400, nanos: 500_000_000 });
    assert_eq!(leap.plus_days(0), leap);

    let chrono_leap = chrono::DateTime::parse_from_rfc3339("2016-12-31T23:59:60.5Z").expect("parses")
        + chrono::Duration::days(1);
    assert_eq!(chrono_leap.timestamp(), 1_483_228_799 + 86_400);
    assert_eq!(chrono_leap.timestamp_subsec_nanos(), 500_000_000);
}

#[test]
fn the_representable_range_is_chronos() {
    assert_eq!(chrono::DateTime::<chrono::Utc>::MIN_UTC.timestamp(), EARLIEST_SECS);
    assert_eq!(chrono::DateTime::<chrono::Utc>::MAX_UTC.timestamp(), LATEST_SECS);
}

/// Reads the criteria as the Judge does, against the artifact body.
fn judge(criteria: &[String], artifact: &str) -> bool {
    let body: Value = serde_json::from_str(artifact).expect("artifact parses");
    criteria.iter().all(|text| {
        let c: Value = serde_json::from_str(text).expect("criterion parses");
        if let Some(eq) = c.get("field_equals") {
            body.pointer(eq["pointer"].as_str().expect("pointer")) == Some(&eq["value"])
        } else if let Some(m) = c.get("field_matches") {
            let re = regex::Regex::new(m["pattern"].as_str().expect("pattern")).expect("compiles");
            body.pointer(m["pointer"].as_str().expect("pointer"))
                .and_then(Value::as_str)
                .is_some_and(|s| re.is_match(s))
        } else {
            let l = &c["field_length_between"];
            let n = body.pointer(l["pointer"].as_str().expect("pointer"))
                .and_then(Value::as_str)
                .map(|s| s.chars().count() as u64);
            n.is_some_and(|n| l["min"].as_u64().expect("min") <= n && n <= l["max"].as_u64().expect("max"))
        }
    })
}

#[test]
fn the_criteria_hold_on_the_artifact_exactly_when_the_record_passes() {
    let rules = Ruleset::default();
    let re = regex::Regex::new(&rules.scope_tag_pattern).expect("compiles");
    let mut cases = vec![record()];
    let mut r = record();
    r.reached_human = true;
    cases.push(r);
    let mut r = record();
    r.turn_count = 1;
    cases.push(r);
    let mut r = record();
    r.turn_count = 201;
    cases.push(r);
    let mut r = record();
    r.scope_tag = "billing".to_owned();
    cases.push(r);
    let mut r = record();
    r.requester_class = "test".to_owned();
    cases.push(r);
    for r in &cases {
        let ok = re.is_match(&r.scope_tag);
        let passes = r.passes_locally(rules.min_turns as u64, rules.max_turns as u64, ok);
        assert_eq!(judge(&for_claim(r, &rules), &artifact_body(r)), passes);
    }
    assert!(judge(&for_claim(&cases[0], &rules), &artifact_body(&cases[0])));
}

#[test]
fn the_artifact_carries_every_field_the_schema_requires() {
    let schema: Value = serde_json::from_str(&schema()).expect("schema parses");
    let body: Value = serde_json::from_str(&artifact_body(&record())).expect("artifact parses");
    assert_eq!(schema["deny_unknown_fields"], Value::Bool(false));
    for field in schema["required"].as_array().expect("list") {
        let value = body.pointer(field["pointer"].as_str().expect("pointer")).expect("present");
        match field["kind"].as_str().expect("kind") {
            "string" => assert!(value.is_string()),
            "bool" => assert!(value.is_boolean()),
            other => panic!("unexpected kind {other}"),
        }
    }
}
