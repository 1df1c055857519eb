//! What a vendor does when it disputes a claim made against it: recompute the derivation from a
//! source bundle and a ruleset, and compare.

use resolution_normalise::model::{parse_time, Outcome};
use resolution_normalise::normalise::{normalise, summarise};
use resolution_normalise::ruleset::Ruleset;
use resolution_normalise::source::{
    BilledClaim, DownstreamEvent, EventKind, SourceBundle, Ticket, TicketEvent, User,
};
use resolution_normalise::time::Timestamp;

fn at(text: &str) -> Timestamp {
    parse_time(text).expect("fixed timestamp parses")
}

/// Fixed, because a derivation that depended on the wall clock could not be reproduced tomorrow.
fn evaluated_at() -> Timestamp {
    at("2026-09-16T00:00:00Z")
}

fn ticket(id: &str, requester: &str, created: &str, tags: &[&str]) -> Ticket {
    Ticket {
        id: id.to_owned(),
        requester_id: requester.to_owned(),
        created_at: at(created),
        tags: tags.iter().map(|t| (*t).to_owned()).collect(),
    }
}

fn event(ticket_id: &str, when: &str, kind: EventKind) -> TicketEvent {
    TicketEvent { ticket_id: ticket_id.to_owned(), at: at(when), kind }
}

fn status(to: &str) -> EventKind {
    EventKind::StatusChanged { to: to.to_owned() }
}

fn comment(author: &str) -> EventKind {
    EventKind::PublicComment { author_id: author.to_owned() }
}

fn user(id: &str, role: &str, email: Option<&str>) -> User {
    User { id: id.to_owned(), role: role.to_owned(), email: email.map(|e| e.to_owned()) }
}

fn claim(claim_id: &str, ticket_id: &str, resolved: &str, amount: u64) -> BilledClaim {
    BilledClaim {
        claim_id: claim_id.to_owned(),
        ticket_id: ticket_id.to_owned(),
        resolution_type: "confirmed".to_owned(),
        resolved_at: at(resolved),
        amount_usd_micros: amount,
    }
}

/// A closed period: one clean claim, one reopened, one escalated to a human, one whose
/// requester came back, one refunded, one from staff, and one for a ticket the buyer has no
/// record of.
fn bundle() -> SourceBundle {
    SourceBundle {
        tickets: vec![
            ticket("t1", "u1", "2026-08-01T09:00:00Z", &["vip", "intent_billing"]),
            ticket("t2", "u2", "2026-08-02T09:00:00Z", &["intent_refund"]),
            ticket("t3", "u3", "2026-08-03T09:00:00Z", &["intent_login"]),
            ticket("t4", "u4", "2026-08-04T09:00:00Z", &["intent_shipping"]),
            ticket("t5", "u4", "2026-08-06T09:00:00Z", &["intent_shipping"]),
            ticket("t6", "u5", "2026-08-05T09:00:00Z", &["intent_billing"]),
            ticket("t7", "u6", "2026-08-05T09:00:00Z", &["intent_billing"]),
        ],
        events: vec![
            event("t1", "2026-08-01T09:05:00Z", comment("u1")),
            event("t1", "2026-08-01T09:06:00Z", comment("fin-bot")),
            event("t1", "2026-08-01T10:00:00Z", status("solved")),
            event("t2", "2026-08-02T09:05:00Z", comment("u2")),
            event("t2", "2026-08-02T09:06:00Z", comment("fin-bot")),
            event("t2", "2026-08-02T10:00:00Z", status("solved")),
            event("t2", "2026-08-04T10:00:00Z", status("open")),
            event("t3", "2026-08-03T09:05:00Z", comment("u3")),
            event("t3", "2026-08-03T09:07:00Z", comment("agent-1")),
            event("t4", "2026-08-04T09:05:00Z", comment("u4")),
            event("t4", "2026-08-04T09:06:00Z", comment("fin-bot")),
            event("t6", "2026-08-05T09:05:00Z", comment("u5")),
            event("t6", "2026-08-05T09:06:00Z", comment("fin-bot")),
            event("t7", "2026-08-05T09:05:00Z", comment("u6")),
            event("t7", "2026-08-05T09:06:00Z", comment("fin-bot")),
        ],
        users: vec![
            user("u1", "end-user", Some("alice@example.com")),
            user("u2", "end-user", Some("bob@example.com")),
            user("u3", "end-user", Some("carol@example.com")),
            user("u4", "end-user", Some("dan@example.com")),
            user("u5", "end-user", Some("erin@example.com")),
            user("u6", "end-user", Some("frank@acme-support.example")),
            user("agent-1", "agent", Some("agent@acme-support.example")),
            user("fin-bot", "bot", None),
        ],
        claims: vec![
            claim("c1", "t1", "2026-08-01T10:00:00Z", 990_000),
            claim("c2", "t2", "2026-08-02T10:00:00Z", 990_000),
            claim("c3", "t3", "2026-08-03T10:00:00Z", 990_000),
            claim("c4", "t4", "2026-08-04T10:00:00Z", 990_000),
            claim("c5", "t6", "2026-08-05T10:00:00Z", 990_000),
            claim("c6", "t7", "2026-08-05T10:00:00Z", 990_000),
            claim("c7", "t404", "2026-08-06T10:00:00Z", 1_250_000),
        ],
        downstream: vec![DownstreamEvent {
            requester_id: "u5".to_owned(),
            at: at("2026-08-07T12:00:00Z"),
            kind: "refund".to_owned(),
        }],
    }
}

fn rules() -> Ruleset {
    let mut rules = Ruleset::default();
    rules.staff_domains.push("acme-support.example".to_owned());
    rules.bot_user_ids.push("fin-bot".to_owned());
    rules
}

fn outcomes() -> Vec<Outcome> {
    normalise(&bundle(), &rules(), "2026-08", evaluated_at()).expect("normalise runs")
}

#[test]
fn a_bundle_and_a_ruleset_are_enough_to_reproduce_a_run() {
    let outcomes = outcomes();
    assert!(
        !outcomes.is_empty(),
        "the published crate must derive claim records from exported files alone"
    );
    assert!(
        outcomes.iter().any(|o| matches!(o, Outcome::Claim(_))),
        "at least one claim must be judgeable, or the fixture proves nothing"
    );
}

#[test]
fn the_same_inputs_give_byte_identical_records() {
    let first = format!("{:?}", outcomes());
    let second = format!("{:?}", outcomes());
    assert_eq!(first, second);
}

#[test]
fn the_input_digest_is_stable_across_runs() {
    let digests = |set: &[Outcome]| -> Vec<String> {
        set.iter()
            .filter_map(|o| match o {
                Outcome::Claim(record) => Some(record.inputs_sha256.clone()),
                _ => None,
            })
            .collect()
    };
    let first = digests(&outcomes());
    let second = digests(&outcomes());

    assert!(!first.is_empty(), "no digests to compare");
    assert_eq!(first, second, "inputs_sha256 must not move between runs");
    assert!(first.iter().all(|d| d.len() == 64), "each digest is a hex SHA-256");
}

#[test]
fn a_changed_ruleset_changes_the_ruleset_digest() {
    let mut altered = rules();
    altered.reopen_window_days += 1;

    let first_digest = |set: &[Outcome]| -> Option<String> {
        set.iter().find_map(|o| match o {
            Outcome::Claim(record) => Some(record.ruleset_sha256.clone()),
            _ => None,
        })
    };

    let original = normalise(&bundle(), &rules(), "2026-08", evaluated_at()).expect("runs");
    let changed = normalise(&bundle(), &altered, "2026-08", evaluated_at()).expect("runs");

    let (before, after) = (first_digest(&original), first_digest(&changed));
    assert!(before.is_some() && after.is_some());
    assert_ne!(before, after);
}

#[test]
fn the_summary_counts_what_the_records_say() {
    let outcomes = outcomes();
    let summary = summarise(&outcomes, &rules());

    let claims = outcomes.iter().filter(|o| matches!(o, Outcome::Claim(_))).count() as u64;
    let deferred =
        outcomes.iter().filter(|o| matches!(o, Outcome::Deferred { .. })).count() as u64;
    let unmatched =
        outcomes.iter().filter(|o| matches!(o, Outcome::Unmatched { .. })).count() as u64;

    assert_eq!(summary.billed, outcomes.len() as u64);
    assert_eq!(summary.verified + summary.exceptions, claims);
    assert_eq!(summary.deferred, deferred);
    assert_eq!(summary.unmatched, unmatched);
}

#[test]
fn the_billed_total_is_every_claim_the_vendor_billed() {
    let bundle = bundle();
    let outcomes = outcomes();
    let summary = summarise(&outcomes, &rules());

    let deferred = outcomes.iter().filter(|o| matches!(o, Outcome::Deferred { .. })).count();
    assert_eq!(deferred, 0, "the invariant below holds for a fully closed period");

    let invoiced: u64 = bundle.claims.iter().map(|c| c.amount_usd_micros).sum();
    assert_eq!(
        summary.billed_usd_micros, invoiced,
        "the billed total must equal the sum of every claim the vendor billed"
    );

    let unmatched_amount: u64 = outcomes
        .iter()
        .filter_map(|o| match o {
            Outcome::Unmatched { amount_usd_micros, .. } => Some(*amount_usd_micros),
            _ => None,
        })
        .sum();
    assert!(unmatched_amount > 0, "the fixture carries an unmatched claim");
    assert!(
        summary.at_stake_usd_micros >= unmatched_amount,
        "an unmatched claim's amount is at stake"
    );
}

fn record(outcomes: &[Outcome], claim_id: &str) -> resolution_normalise::model::ClaimRecord {
    outcomes
        .iter()
        .find_map(|o| match o {
            Outcome::Claim(r) if r.claim_id == claim_id => Some((**r).clone()),
            _ => None,
        })
        .expect("claim record present")
}

#[test]
fn each_flag_is_derived_from_its_own_records() {
    let outcomes = outcomes();
    let clean = record(&outcomes, "c1");
    assert!(!clean.reopened_within_window);
    assert!(!clean.repeat_contact_window);
    assert!(!clean.reached_human);
    assert!(!clean.downstream_reversal);
    assert_eq!(clean.requester_class, "customer");
    assert_eq!(clean.turn_count, 2);
    assert_eq!(clean.scope_tag, "intent_billing");
    assert_eq!(clean.resolved_at, "2026-08-01T10:00:00+00:00");
    assert_eq!(clean.period, "2026-08");
    assert_eq!(clean.ruleset_version, "kyvryn-res-1.0");
    assert!(clean.passes_locally(2, 200, true));

    assert!(record(&outcomes, "c2").reopened_within_window);
    assert!(record(&outcomes, "c3").reached_human);
    assert!(record(&outcomes, "c4").repeat_contact_window);
    assert!(record(&outcomes, "c5").downstream_reversal);
    assert_eq!(record(&outcomes, "c6").requester_class, "staff");

    match outcomes.last().expect("seven outcomes") {
        Outcome::Unmatched { claim_id, ticket_id, reason, amount_usd_micros } => {
            assert_eq!(claim_id, "c7");
            assert_eq!(ticket_id, "t404");
            assert_eq!(reason, "no ticket with this id in the buyer's helpdesk export");
            assert_eq!(*amount_usd_micros, 1_250_000);
        }
        other => panic!("expected an unmatched claim, got {other:?}"),
    }
}

#[test]
fn a_claim_whose_windows_are_open_is_deferred() {
    let early = at("2026-08-10T00:00:00Z");
    let outcomes = normalise(&bundle(), &rules(), "2026-08", early).expect("runs");
    match &outcomes[0] {
        Outcome::Deferred { claim_id, adjudicable_at } => {
            assert_eq!(claim_id, "c1");
            assert_eq!(adjudicable_at, "2026-08-15T10:00:00+00:00");
        }
        other => panic!("expected a deferred claim, got {other:?}"),
    }
    let summary = summarise(&outcomes, &rules());
    assert_eq!(summary.billed + summary.deferred, outcomes.len() as u64);
}

#[test]
fn any_evaluation_time_after_every_window_gives_the_same_records() {
    let later = at("2027-01-01T00:00:00Z");
    let first = format!("{:?}", outcomes());
    let second =
        format!("{:?}", normalise(&bundle(), &rules(), "2026-08", later).expect("runs"));
    assert_eq!(first, second);
}

#[test]
fn an_unusable_ruleset_is_refused() {
    let mut negative = rules();
    negative.downstream_window_days = -1;
    let err = normalise(&bundle(), &negative, "2026-08", evaluated_at()).unwrap_err();
    assert_eq!(
        err,
        resolution_normalise::Error::Ruleset("windows cannot be negative".to_owned())
    );
}

#[test]
fn the_input_digest_covers_the_requesters_directory_record() {
    let before = record(&outcomes(), "c1");
    let mut changed = bundle();
    changed.users[0].role = "agent".to_owned();
    let after_run = normalise(&changed, &rules(), "2026-08", evaluated_at()).expect("normalise runs");
    let after = record(&after_run, "c1");
    assert_eq!(before.requester_class, "customer");
    assert_eq!(after.requester_class, "staff");
    assert_ne!(before.inputs_sha256, after.inputs_sha256);
}

#[test]
fn the_input_digest_covers_the_directory_records_of_commenters() {
    let before = record(&outcomes(), "c3");
    let mut changed = bundle();
    changed.users[6].role = "end-user".to_owned();
    let after_run = normalise(&changed, &rules(), "2026-08", evaluated_at()).expect("normalise runs");
    let after = record(&after_run, "c3");
    assert!(before.reached_human);
    assert!(!after.reached_human);
    assert_ne!(before.inputs_sha256, after.inputs_sha256);
}

#[test]
fn unrelated_records_leave_the_input_digest_alone() {
    let before = record(&outcomes(), "c1");
    let mut changed = bundle();
    changed.downstream.push(DownstreamEvent {
        requester_id: "u2".to_owned(),
        at: at("2026-08-01T12:00:00Z"),
        kind: "refund".to_owned(),
    });
    changed.users.push(user("u77", "agent", None));
    let after_run = normalise(&changed, &rules(), "2026-08", evaluated_at()).expect("normalise runs");
    assert_eq!(before.inputs_sha256, record(&after_run, "c1").inputs_sha256);
}

#[test]
fn the_summary_of_a_split_run_adds_up() {
    let all = outcomes();
    let (left, right) = all.split_at(3);
    let whole = summarise(&all, &rules());
    let a = summarise(left, &rules());
    let b = summarise(right, &rules());
    assert_eq!(whole.billed, a.billed + b.billed);
    assert_eq!(whole.verified, a.verified + b.verified);
    assert_eq!(whole.exceptions, a.exceptions + b.exceptions);
    assert_eq!(whole.deferred, a.deferred + b.deferred);
    assert_eq!(whole.unmatched, a.unmatched + b.unmatched);
    assert_eq!(whole.billed_usd_micros, a.billed_usd_micros + b.billed_usd_micros);
    assert_eq!(whole.at_stake_usd_micros, a.at_stake_usd_micros + b.at_stake_usd_micros);
    let count = |t: &[(String, u64)], name: &str| t.iter().find(|e| e.0 == name).map(|e| e.1).unwrap_or(0);
    for (name, n) in &whole.by_reason {
        assert_eq!(*n, count(&a.by_reason, name) + count(&b.by_reason, name));
    }
    for (name, _) in a.by_reason.iter().chain(b.by_reason.iter()) {
        assert!(whole.by_reason.iter().any(|e| &e.0 == name));
    }
    let nothing = summarise(&[], &rules());
    assert_eq!((nothing.billed, nothing.verified, nothing.exceptions, nothing.deferred), (0, 0, 0, 0));
    assert!(nothing.by_reason.is_empty());
}
