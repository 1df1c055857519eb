//! What each outcome and each field of a claim record is, stated over the source records
//! themselves.
use vstd::prelude::*;
use crate::laws::lemma_record_of;
use crate::model::{ClaimView, OutcomeView};
use crate::normalise::{
    email_domain, expected_outcome, expected_record, last_at_in, last_ticket, last_ticket_in,
    last_user_in, public_comments, user_of,
};
use crate::ruleset::Ruleset;
use crate::source::{BilledClaim, DownstreamEvent, EventKind, SourceBundle, Ticket, TicketEvent, User};
use crate::text::{ascii_lower, has_infix, has_prefix, has_suffix};
use crate::time::{rfc3339_text, Timestamp};
use crate::model::Outcome;
use crate::normalise::scope_flags;
use crate::ruleset::{regex_compile_error, regex_is_match};

verus! {

// ---------------------------------------------------------------------------------------------
// Lookups.
// ---------------------------------------------------------------------------------------------

/// A ticket id names the last ticket with that id: the one found has the id and no later
/// ticket has it; when none is found, no ticket has it.
pub proof fn law_ticket_lookup_finds_the_last(tickets: Seq<Ticket>, id: Seq<char>)
    ensures
        match last_ticket(tickets, id) {
            Some(k) => 0 <= k < tickets.len() && tickets[k].id@ == id && forall|j: int|
                k < j < tickets.len() ==> #[trigger] tickets[j].id@ != id,
            None => forall|j: int| 0 <= j < tickets.len() ==> #[trigger] tickets[j].id@ != id,
        },
{
    lemma_last_ticket_in(tickets, id, tickets.len());
}

proof fn lemma_last_ticket_in(tickets: Seq<Ticket>, id: Seq<char>, n: nat)
    requires
        n <= tickets.len(),
    ensures
        match last_ticket_in(tickets, id, n) {
            Some(k) => 0 <= k < n && tickets[k].id@ == id && forall|j: int|
                k < j < n ==> #[trigger] tickets[j].id@ != id,
            None => forall|j: int| 0 <= j < n ==> #[trigger] tickets[j].id@ != id,
        },
    decreases n,
{
    if n > 0 {
        lemma_last_ticket_in(tickets, id, (n - 1) as nat);
    }
}

/// A user id names the last directory entry with that id: the one found has the id and no
/// later entry has it; when none is found, no entry has it.
pub proof fn law_user_lookup_finds_the_last(users: Seq<User>, id: Seq<char>)
    ensures
        match user_of(users, id) {
            Some(u) => exists|k: int|
                0 <= k < users.len() && #[trigger] users[k] == u && u.id@ == id && forall|j: int|
                    k < j < users.len() ==> #[trigger] users[j].id@ != id,
            None => forall|j: int| 0 <= j < users.len() ==> #[trigger] users[j].id@ != id,
        },
{
    lemma_last_user_in(users, id, users.len());
    if let Some(k) = last_user_in(users, id, users.len()) {
        assert(users[k] == users[k]);
    }
}

proof fn lemma_last_user_in(users: Seq<User>, id: Seq<char>, n: nat)
    requires
        n <= users.len(),
    ensures
        match last_user_in(users, id, n) {
            Some(k) => 0 <= k < n && users[k].id@ == id && forall|j: int|
                k < j < n ==> #[trigger] users[j].id@ != id,
            None => forall|j: int| 0 <= j < n ==> #[trigger] users[j].id@ != id,
        },
    decreases n,
{
    if n > 0 {
        lemma_last_user_in(users, id, (n - 1) as nat);
    }
}

/// The domain of an address is what follows its last `@`: the address is some text, an `@`,
/// then the domain, and the domain holds no `@`. An address without `@` has no domain.
pub proof fn law_email_domain_follows_the_last_at(email: Seq<char>)
    ensures
        match email_domain(email) {
            Some(d) => exists|k: int|
                0 <= k < email.len() && email[k] == '@' && #[trigger] email.skip(k + 1) == d
                    && !d.contains('@'),
            None => !email.contains('@'),
        },
{
    lemma_last_at_in(email, email.len());
    if let Some(k) = last_at_in(email, email.len()) {
        let d = email.skip(k + 1);
        assert forall|i: int| 0 <= i < d.len() implies d[i] != '@' by {
            assert(d[i] == email[k + 1 + i]);
        }
    }
}

proof fn lemma_last_at_in(email: Seq<char>, n: nat)
    requires
        n <= email.len(),
    ensures
        match last_at_in(email, n) {
            Some(k) => 0 <= k < n && email[k] == '@' && forall|j: int|
                k < j < n ==> #[trigger] email[j] != '@',
            None => forall|j: int| 0 <= j < n ==> #[trigger] email[j] != '@',
        },
    decreases n,
{
    if n > 0 {
        lemma_last_at_in(email, (n - 1) as nat);
    }
}

// ---------------------------------------------------------------------------------------------
// The outcome of a claim.
// ---------------------------------------------------------------------------------------------

/// A claim is unmatched exactly when no ticket carries its ticket id; it then names the claim,
/// its ticket id and the amount billed.
pub proof fn law_unmatched_means_no_such_ticket(
    b: SourceBundle,
    rules: Ruleset,
    period: Seq<char>,
    evaluated_at: Timestamp,
    claim: BilledClaim,
)
    ensures
        expected_outcome(b, rules, period, evaluated_at, claim) is Unmatched <==> forall|j: int|
            0 <= j < b.tickets@.len() ==> #[trigger] b.tickets@[j].id@ != claim.ticket_id@,
        expected_outcome(b, rules, period, evaluated_at, claim) matches OutcomeView::Unmatched {
            claim_id,
            ticket_id,
            reason,
            amount_usd_micros,
        } ==> claim_id == claim.claim_id@ && ticket_id == claim.ticket_id@ && amount_usd_micros
            == claim.amount_usd_micros && reason
            == "no ticket with this id in the buyer's helpdesk export"@,
{
    law_ticket_lookup_finds_the_last(b.tickets@, claim.ticket_id@);
}

/// A claim with a ticket is deferred exactly when the evaluation time comes before the moment
/// its longest window closes (`longest` days after the resolution, the largest of the three
/// windows), and the deferral names the claim and that moment.
pub proof fn law_deferred_until_the_longest_window_closes(
    b: SourceBundle,
    rules: Ruleset,
    period: Seq<char>,
    evaluated_at: Timestamp,
    claim: BilledClaim,
    longest: int,
)
    requires
        longest >= rules.reopen_window_days,
        longest >= rules.repeat_contact_window_days,
        longest >= rules.downstream_window_days,
        longest == rules.reopen_window_days || longest == rules.repeat_contact_window_days
            || longest == rules.downstream_window_days,
        exists|j: int| 0 <= j < b.tickets@.len() && #[trigger] b.tickets@[j].id@ == claim.ticket_id@,
    ensures
        expected_outcome(b, rules, period, evaluated_at, claim) is Deferred <==> evaluated_at.precedes(
            claim.resolved_at.days_later(longest),
        ),
        expected_outcome(b, rules, period, evaluated_at, claim) matches OutcomeView::Deferred {
            claim_id,
            adjudicable_at,
        } ==> claim_id == claim.claim_id@ && adjudicable_at == rfc3339_text(
            claim.resolved_at.days_later(longest).secs as int,
            claim.resolved_at.days_later(longest).nanos as int,
            false,
        ),
{
    law_ticket_lookup_finds_the_last(b.tickets@, claim.ticket_id@);
    assert(rules.longest_window() == longest);
}

// ---------------------------------------------------------------------------------------------
// The fields of a claim record.
// ---------------------------------------------------------------------------------------------

/// A claim record carries the claim's own id, ticket id, resolution type and amount, the
/// period asked for, the resolution time as RFC 3339 text, the ruleset's version and the
/// ruleset's digest; its scope tag is the ticket's first tag with the intent prefix, or empty.
pub proof fn law_record_copies_its_sources(
    b: SourceBundle,
    rules: Ruleset,
    period: Seq<char>,
    evaluated_at: Timestamp,
    claim: BilledClaim,
    rec: ClaimView,
)
    requires
        expected_outcome(b, rules, period, evaluated_at, claim) == OutcomeView::Claim(rec),
    ensures
        rec.claim_id == claim.claim_id@,
        rec.ticket_id == claim.ticket_id@,
        rec.period == period,
        rec.resolution_type == claim.resolution_type@,
        rec.amount_usd_micros == claim.amount_usd_micros,
        rec.resolved_at == rfc3339_text(claim.resolved_at.secs as int, claim.resolved_at.nanos as int, false),
        rec.ruleset_version == rules.version@,
        rec.ruleset_sha256 == crate::text_digest(rules.canonical_text()),
        exists|k: int|
            0 <= k < b.tickets@.len() && #[trigger] b.tickets@[k].id@ == claim.ticket_id@ && ((exists|i: int|
                0 <= i < b.tickets@[k].tags@.len() && #[trigger] b.tickets@[k].tags@[i]@ == rec.scope_tag
                    && has_prefix(rec.scope_tag, rules.intent_tag_prefix@) && forall|j: int|
                    0 <= j < i ==> !has_prefix(
                        #[trigger] b.tickets@[k].tags@[j]@,
                        rules.intent_tag_prefix@,
                    )) || (rec.scope_tag.len() == 0 && forall|i: int|
                0 <= i < b.tickets@[k].tags@.len() ==> !has_prefix(
                    #[trigger] b.tickets@[k].tags@[i]@,
                    rules.intent_tag_prefix@,
                ))),
{
    let k = lemma_record_of(b, rules, period, evaluated_at, claim, rec);
    let t = b.tickets@[k];
    assert(rec.scope_tag == match crate::normalise::intent(t, rules.intent_tag_prefix@) {
        Some(x) => x,
        None => Seq::<char>::empty(),
    } && rec.claim_id == claim.claim_id@ && rec.ticket_id == claim.ticket_id@ && rec.period
        == period && rec.resolution_type == claim.resolution_type@ && rec.amount_usd_micros
        == claim.amount_usd_micros && rec.resolved_at == rfc3339_text(
        claim.resolved_at.secs as int,
        claim.resolved_at.nanos as int,
        false,
    ) && rec.ruleset_version == rules.version@ && rec.ruleset_sha256 == rules.digest_text()) by {
        reveal(expected_record);
    }
    law_ticket_lookup_finds_the_last(b.tickets@, claim.ticket_id@);
    crate::laws::law_intent_is_the_first_prefixed_tag(t, rules.intent_tag_prefix@);
    assert(t.id@ == claim.ticket_id@);
}

/// A claim record's turn count is the number of the ticket's events that are public comments.
pub proof fn law_turn_count_counts_public_comments(
    b: SourceBundle,
    rules: Ruleset,
    period: Seq<char>,
    evaluated_at: Timestamp,
    claim: BilledClaim,
    rec: ClaimView,
)
    requires
        expected_outcome(b, rules, period, evaluated_at, claim) == OutcomeView::Claim(rec),
    ensures
        rec.turn_count == b.events@.filter(
            |e: TicketEvent| e.ticket_id@ == claim.ticket_id@ && e.kind is PublicComment,
        ).len(),
{
    let k = lemma_record_of(b, rules, period, evaluated_at, claim, rec);
    let id = claim.ticket_id@;
    assert(rec.turn_count == public_comments(b.events@, id, b.events@.len()) as u64) by {
        reveal(expected_record);
    }
    let p = |e: TicketEvent| e.ticket_id@ == claim.ticket_id@ && e.kind is PublicComment;
    lemma_comments_filter(b.events@, id, b.events@.len(), p);
    assert(b.events@.take(b.events@.len() as int) =~= b.events@);
    b.events@.lemma_filter_len(p);
    assert(b.events@.len() <= usize::MAX) by {
        assert(b.events@.len() == b.events.len());
    }
}

proof fn lemma_comments_filter(events: Seq<TicketEvent>, id: Seq<char>, n: nat, p: spec_fn(TicketEvent) -> bool)
    requires
        n <= events.len(),
        forall|e: TicketEvent| #[trigger] p(e) == (e.ticket_id@ == id && e.kind is PublicComment),
    ensures
        public_comments(events, id, n) == events.take(n as int).filter(p).len(),
    decreases n,
{
    reveal(Seq::filter);
    if n > 0 {
        lemma_comments_filter(events, id, (n - 1) as nat, p);
        assert(events.take(n as int).drop_last() =~= events.take(n - 1));
        assert(events.take(n as int).last() == events[n - 1]);
    }
}

/// A claim record's `downstream_reversal` is true exactly when a downstream event of the
/// ticket's requester happened at or after the resolution and no later than the downstream
/// window after it.
pub proof fn law_downstream_reversal_means_a_reversal_in_the_window(
    b: SourceBundle,
    rules: Ruleset,
    period: Seq<char>,
    evaluated_at: Timestamp,
    claim: BilledClaim,
    rec: ClaimView,
    k: int,
)
    requires
        last_ticket(b.tickets@, claim.ticket_id@) == Some(k),
        expected_outcome(b, rules, period, evaluated_at, claim) == OutcomeView::Claim(rec),
    ensures
        rec.downstream_reversal <==> exists|d: int|
            0 <= d < b.downstream@.len() && #[trigger] b.downstream@[d].requester_id@
                == b.tickets@[k].requester_id@ && claim.resolved_at.not_after(b.downstream@[d].at)
                && b.downstream@[d].at.not_after(
                claim.resolved_at.days_later(rules.downstream_window_days as int),
            ),
{
    let k2 = lemma_record_of(b, rules, period, evaluated_at, claim, rec);
    assert(rec.downstream_reversal == crate::normalise::downstream_reversal(
        b.downstream@,
        b.tickets@[k].requester_id@,
        claim.resolved_at,
        rules.downstream_window_days as int,
    )) by {
        reveal(expected_record);
    }
}

/// `id` is one of the agent's own user ids.
pub open spec fn names_an_agent_id(rules: Ruleset, id: Seq<char>) -> bool {
    exists|i: int| 0 <= i < rules.bot_user_ids@.len() && #[trigger] rules.bot_user_ids@[i]@ == id
}

/// The lowercased address `e` contains one of the lowercased test-account markers.
pub open spec fn marks_a_test_account(rules: Ruleset, e: Seq<char>) -> bool {
    exists|m: int|
        0 <= m < rules.test_account_markers@.len() && #[trigger] has_infix(
            e,
            ascii_lower(rules.test_account_markers@[m]@),
        )
}

/// The domain of the lowercased address `e` (after its last `@`) is a lowercased staff domain,
/// or ends with a `.` followed by one.
pub open spec fn at_a_staff_domain(rules: Ruleset, e: Seq<char>) -> bool {
    match email_domain(e) {
        Some(dom) => exists|d: int|
            0 <= d < rules.staff_domains@.len() && (#[trigger] ascii_lower(rules.staff_domains@[d]@)
                == dom || has_suffix(dom, seq!['.'] + ascii_lower(rules.staff_domains@[d]@))),
        None => false,
    }
}

/// A claim record's requester class, from the requester's id and directory entry (the last one
/// with that id): `bot` for one of the agent's own ids; `unknown` without an entry; `staff` for
/// the roles `agent` and `admin`; `bot` for the role `bot`; otherwise, by the lowercased email:
/// `customer` when there is none, `test` when it contains a lowercased test marker, `staff`
/// when its domain (after the last `@`) is a lowercased staff domain or a subdomain of one,
/// `bot` for `noreply@` and `no-reply@` addresses, and `customer` for the rest.
pub proof fn law_requester_class_from_the_directory(
    b: SourceBundle,
    rules: Ruleset,
    period: Seq<char>,
    evaluated_at: Timestamp,
    claim: BilledClaim,
    rec: ClaimView,
    k: int,
)
    requires
        last_ticket(b.tickets@, claim.ticket_id@) == Some(k),
        expected_outcome(b, rules, period, evaluated_at, claim) == OutcomeView::Claim(rec),
    ensures
        ({
            let id = b.tickets@[k].requester_id@;
            rec.requester_class == if names_an_agent_id(rules, id) {
                "bot"@
            } else {
                match user_of(b.users@, id) {
                    None => "unknown"@,
                    Some(u) => if u.role@ == "agent"@ || u.role@ == "admin"@ {
                        "staff"@
                    } else if u.role@ == "bot"@ {
                        "bot"@
                    } else {
                        let e = ascii_lower(
                            match u.email {
                                Some(x) => x@,
                                None => Seq::empty(),
                            },
                        );
                        if e.len() == 0 {
                            "customer"@
                        } else if marks_a_test_account(rules, e) {
                            "test"@
                        } else if at_a_staff_domain(rules, e) {
                            "staff"@
                        } else if has_prefix(e, "noreply@"@) || has_prefix(e, "no-reply@"@) {
                            "bot"@
                        } else {
                            "customer"@
                        }
                    },
                }
            }
        }),
{
    let k2 = lemma_record_of(b, rules, period, evaluated_at, claim, rec);
    let id = b.tickets@[k].requester_id@;
    assert(rec.requester_class == crate::model::class_tag(
        crate::normalise::requester_class(user_of(b.users@, id), id, rules),
    )) by {
        reveal(expected_record);
    }
    assert(crate::normalise::is_bot_id(id, rules) == exists|i: int|
        0 <= i < rules.bot_user_ids@.len() && #[trigger] rules.bot_user_ids@[i]@ == id);
    if let Some(u) = user_of(b.users@, id) {
        let e = crate::normalise::lower_email(u);
        assert(e == ascii_lower(
            match u.email {
                Some(x) => x@,
                None => Seq::empty(),
            },
        ));
        assert(crate::source::is_staff_role_name(u.role@) == (u.role@ == "agent"@ || u.role@ == "admin"@));
        assert(crate::normalise::is_test_email(e, rules) == exists|m: int|
            0 <= m < rules.test_account_markers@.len() && #[trigger] has_infix(
                e,
                ascii_lower(rules.test_account_markers@[m]@),
            ));
        let staff_cond = at_a_staff_domain(rules, e);
        if let Some(dom) = email_domain(e) {
            if crate::normalise::is_staff_domain(dom, rules) {
                let d = choose|d: int|
                    0 <= d < rules.staff_domains@.len() && #[trigger] crate::normalise::within_domain(
                        dom,
                        ascii_lower(rules.staff_domains@[d]@),
                    );
                assert(ascii_lower(rules.staff_domains@[d]@) == ascii_lower(rules.staff_domains@[d]@));
                assert(staff_cond);
            }
            if staff_cond {
                let d = choose|d: int|
                    0 <= d < rules.staff_domains@.len() && (#[trigger] ascii_lower(
                        rules.staff_domains@[d]@,
                    ) == dom || has_suffix(dom, seq!['.'] + ascii_lower(rules.staff_domains@[d]@)));
                assert(crate::normalise::within_domain(dom, ascii_lower(rules.staff_domains@[d]@)));
            }
        }
        assert(crate::normalise::is_staff_email(e, rules) == staff_cond);
        assert(crate::normalise::email_class(e, rules) == if e.len() == 0 {
            crate::model::RequesterClass::Customer
        } else if crate::normalise::is_test_email(e, rules) {
            crate::model::RequesterClass::Test
        } else if staff_cond {
            crate::model::RequesterClass::Staff
        } else if has_prefix(e, "noreply@"@) || has_prefix(e, "no-reply@"@) {
            crate::model::RequesterClass::Bot
        } else {
            crate::model::RequesterClass::Customer
        });
    }
}

// ---------------------------------------------------------------------------------------------
// Scope, and time.
// ---------------------------------------------------------------------------------------------

/// In a summary, a claim record is in contracted scope exactly when the rules' scope pattern
/// compiles and matches its scope tag; other outcomes have no scope tag to judge.
pub proof fn law_scope_is_the_pattern_matching_the_tag(os: Seq<Outcome>, rules: Ruleset, i: int)
    requires
        0 <= i < os.len(),
    ensures
        scope_flags(os, rules)[i] == (os[i]@ matches OutcomeView::Claim(r) && regex_compile_error(
            rules.scope_tag_pattern@,
        ) is None && regex_is_match(rules.scope_tag_pattern@, r.scope_tag)),
{
}

/// Instants are ordered as points on one line: a valid instant's position is its seconds, in
/// units of two seconds' worth of nanoseconds, plus its nanoseconds (a leap second's extra
/// nanoseconds included).
pub proof fn law_precedes_is_the_order_of_time(t: Timestamp, u: Timestamp)
    requires
        t.is_valid(),
        u.is_valid(),
    ensures
        t.precedes(u) <==> t.secs * 2_000_000_000 + t.nanos < u.secs * 2_000_000_000 + u.nanos,
        t.not_after(u) <==> t.secs * 2_000_000_000 + t.nanos <= u.secs * 2_000_000_000 + u.nanos,
{
}

/// Shifting an instant by whole days moves its seconds by that many days; no shift leaves it
/// unchanged, and a positive shift keeps its place within the second, leaving any leap second.
pub proof fn law_days_later_shifts_by_whole_days(t: Timestamp, days: int)
    requires
        t.is_valid(),
        days >= 0,
        t.days_later_fits(days),
    ensures
        t.days_later(days).secs == t.secs + 86_400 * days,
        days == 0 ==> t.days_later(days) == t,
        days > 0 ==> t.days_later(days).nanos == t.nanos % 1_000_000_000,
        t.days_later(days).is_valid(),
{
    assert(86_400 * days == crate::time::SECS_PER_DAY * days);
    if days > 0 {
        assert((t.secs + 86_400 * days) % 60 == t.secs % 60) by (nonlinear_arith)
            requires
                days > 0,
        {
            assert(86_400 * days == 60 * (1440 * days));
        }
    }
}

} // verus!
