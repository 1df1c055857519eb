//! Derivation: raw helpdesk records in, canonical claim records out.
//!
//! Every flag here is arithmetic over timestamps and state transitions. The ruleset digest and
//! an input digest travel with each record, so a third party holding the same exports can
//! recompute it exactly.
use vstd::prelude::*;
use crate::canonical::{insert_pos, inputs_json, inputs_text, time_order};
use crate::model::{class_tag, passes, ClaimRecord, ClaimView, Outcome, OutcomeView, RequesterClass, Summary};
use crate::ruleset::{compile_pattern, pattern_matches, regex_compile_error, regex_is_match, Ruleset};
use crate::source::{is_staff_role_name, EventKind, SourceBundle, Ticket, TicketEvent, User};
use crate::text::{
    any_equal, ascii_lower, chars_of, contains, ends_with, has_infix, has_prefix, has_suffix,
    lower_chars_of, starts_with, str_eq,
};
use crate::time::{format_rfc3339, rfc3339_text, Timestamp};
use crate::Error;

verus! {

broadcast use vstd::string::group_string_axioms;

// ---------------------------------------------------------------------------------------------
// Lookups. A directory keyed by id keeps the last record with that id.
// ---------------------------------------------------------------------------------------------

/// The position of the last of the first `n` tickets with id `id`.
pub open spec fn last_ticket_in(tickets: Seq<Ticket>, id: Seq<char>, n: nat) -> Option<int>
    decreases n,
{
    if n == 0 {
        None
    } else if tickets[n - 1].id@ == id {
        Some(n - 1)
    } else {
        last_ticket_in(tickets, id, (n - 1) as nat)
    }
}

/// The ticket with id `id`: the last one, when several share it.
pub open spec fn last_ticket(tickets: Seq<Ticket>, id: Seq<char>) -> Option<int> {
    last_ticket_in(tickets, id, tickets.len())
}

/// The position of the last of the first `n` users with id `id`.
pub open spec fn last_user_in(users: Seq<User>, id: Seq<char>, n: nat) -> Option<int>
    decreases n,
{
    if n == 0 {
        None
    } else if users[n - 1].id@ == id {
        Some(n - 1)
    } else {
        last_user_in(users, id, (n - 1) as nat)
    }
}

/// The user with id `id`: the last one, when several share it.
pub open spec fn user_of(users: Seq<User>, id: Seq<char>) -> Option<User> {
    match last_user_in(users, id, users.len()) {
        Some(k) => Some(users[k]),
        None => None,
    }
}

/// The position of the first tag at or after `i` that starts with `prefix`.
pub open spec fn first_prefixed_from(tags: Seq<String>, prefix: Seq<char>, i: int) -> Option<int>
    decreases tags.len() - i,
{
    if i < 0 || i >= tags.len() {
        None
    } else if has_prefix(tags[i]@, prefix) {
        Some(i)
    } else {
        first_prefixed_from(tags, prefix, i + 1)
    }
}

/// The ticket's intent tag: its first tag that starts with `prefix`.
pub open spec fn intent(t: Ticket, prefix: Seq<char>) -> Option<Seq<char>> {
    match first_prefixed_from(t.tags@, prefix, 0) {
        Some(k) => Some(t.tags@[k]@),
        None => None,
    }
}

// ---------------------------------------------------------------------------------------------
// The flags.
// ---------------------------------------------------------------------------------------------

/// A status that puts a ticket back in front of someone.
pub open spec fn is_reopen_status(to: Seq<char>) -> bool {
    to == "open"@ || to == "pending"@ || to == "hold"@
}

/// Event `e` reopened the ticket after `resolved` and no later than `days` days after it.
pub open spec fn reopens(e: TicketEvent, resolved: Timestamp, days: int) -> bool {
    &&& e.kind matches EventKind::StatusChanged { to } && is_reopen_status(to@)
    &&& resolved.precedes(e.at)
    &&& e.at.not_after(resolved.days_later(days))
}

/// Some event of ticket `id` reopened it inside the window.
pub open spec fn reopened(events: Seq<TicketEvent>, id: Seq<char>, resolved: Timestamp, days: int) -> bool {
    exists|k: int|
        0 <= k < events.len() && events[k].ticket_id@ == id && #[trigger] reopens(
            events[k],
            resolved,
            days,
        )
}

/// A user id belongs to a human: not one of the agent's own ids, and a staff member in the
/// directory.
pub open spec fn is_human(id: Seq<char>, users: Seq<User>, rules: Ruleset) -> bool {
    &&& !is_bot_id(id, rules)
    &&& user_of(users, id) matches Some(u) && is_staff_role_name(u.role@)
}

/// Event `e` involved a human: a human was assigned, or a human commented publicly.
pub open spec fn involves_human(e: TicketEvent, users: Seq<User>, rules: Ruleset) -> bool {
    match e.kind {
        EventKind::AssigneeChanged { to_user_id } => to_user_id matches Some(u) && is_human(
            u@,
            users,
            rules,
        ),
        EventKind::PublicComment { author_id } => is_human(author_id@, users, rules),
        EventKind::StatusChanged { .. } => false,
    }
}

/// A human took ticket `id` at any time, including after the invoice went out.
pub open spec fn reached_human(events: Seq<TicketEvent>, id: Seq<char>, users: Seq<User>, rules: Ruleset) -> bool {
    exists|k: int|
        0 <= k < events.len() && events[k].ticket_id@ == id && #[trigger] involves_human(
            events[k],
            users,
            rules,
        )
}

/// Ticket `t` is a repeat contact about `original`: another ticket of the same requester,
/// opened after `resolved` and no later than `days` days after it, and, when the rules ask for
/// it, carrying the same intent tag as `original` (which must have one).
pub open spec fn is_repeat_of(t: Ticket, original: Ticket, resolved: Timestamp, days: int, rules: Ruleset) -> bool {
    &&& t.requester_id@ == original.requester_id@
    &&& t.id@ != original.id@
    &&& resolved.precedes(t.created_at)
    &&& t.created_at.not_after(resolved.days_later(days))
    &&& rules.require_intent_match ==> (intent(original, rules.intent_tag_prefix@) is Some
        && intent(t, rules.intent_tag_prefix@) == intent(original, rules.intent_tag_prefix@))
}

/// The requester came back with a new ticket inside the window.
pub open spec fn repeat_contact(tickets: Seq<Ticket>, original: Ticket, resolved: Timestamp, days: int, rules: Ruleset) -> bool {
    exists|j: int| 0 <= j < tickets.len() && #[trigger] is_repeat_of(tickets[j], original, resolved, days, rules)
}

/// A refund, cancellation, chargeback or return for `requester` followed `resolved`, no later
/// than `days` days after it.
pub open spec fn downstream_reversal(ds: Seq<crate::source::DownstreamEvent>, requester: Seq<char>, resolved: Timestamp, days: int) -> bool {
    exists|k: int|
        0 <= k < ds.len() && #[trigger] ds[k].requester_id@ == requester && resolved.not_after(
            ds[k].at,
        ) && ds[k].at.not_after(resolved.days_later(days))
}

/// The number of public comments among the first `n` events of ticket `id`.
pub open spec fn public_comments(events: Seq<TicketEvent>, id: Seq<char>, n: nat) -> nat
    decreases n,
{
    if n == 0 {
        0
    } else {
        public_comments(events, id, (n - 1) as nat) + if events[n - 1].ticket_id@ == id
            && events[n - 1].kind is PublicComment {
            1nat
        } else {
            0nat
        }
    }
}

/// The lowercased email marks a test or QA account.
pub open spec fn is_test_email(email: Seq<char>, rules: Ruleset) -> bool {
    exists|m: int|
        0 <= m < rules.test_account_markers@.len() && #[trigger] has_infix(
            email,
            ascii_lower(rules.test_account_markers@[m]@),
        )
}

/// The position of the last `@` among the first `n` characters of `email`.
pub open spec fn last_at_in(email: Seq<char>, n: nat) -> Option<int>
    decreases n,
{
    if n == 0 {
        None
    } else if email[n - 1] == '@' {
        Some(n - 1)
    } else {
        last_at_in(email, (n - 1) as nat)
    }
}

/// The domain of an address: what follows its last `@`, when it has one.
pub open spec fn email_domain(email: Seq<char>) -> Option<Seq<char>> {
    match last_at_in(email, email.len()) {
        Some(k) => Some(email.skip(k + 1)),
        None => None,
    }
}

/// `domain` is the domain `staff` itself or one of its subdomains.
pub open spec fn within_domain(domain: Seq<char>, staff: Seq<char>) -> bool {
    domain == staff || has_suffix(domain, seq!['.'] + staff)
}

/// The lowercased domain `domain` is one of the buyer's staff domains, or a subdomain of one.
pub open spec fn is_staff_domain(domain: Seq<char>, rules: Ruleset) -> bool {
    exists|d: int|
        0 <= d < rules.staff_domains@.len() && #[trigger] within_domain(
            domain,
            ascii_lower(rules.staff_domains@[d]@),
        )
}

/// The lowercased email is at one of the buyer's staff domains.
pub open spec fn is_staff_email(email: Seq<char>, rules: Ruleset) -> bool {
    match email_domain(email) {
        Some(domain) => is_staff_domain(domain, rules),
        None => false,
    }
}

/// The class of a directory user who is neither staff by role nor a bot by role, from their
/// lowercased email.
pub open spec fn email_class(email: Seq<char>, rules: Ruleset) -> RequesterClass {
    if email.len() == 0 {
        RequesterClass::Customer
    } else if is_test_email(email, rules) {
        RequesterClass::Test
    } else if is_staff_email(email, rules) {
        RequesterClass::Staff
    } else if has_prefix(email, "noreply@"@) || has_prefix(email, "no-reply@"@) {
        RequesterClass::Bot
    } else {
        RequesterClass::Customer
    }
}

/// The lowercased email of a user, empty when there is none.
pub open spec fn lower_email(u: User) -> Seq<char> {
    ascii_lower(
        match u.email {
            Some(e) => e@,
            None => Seq::empty(),
        },
    )
}

/// One of the agent's own user ids.
pub open spec fn is_bot_id(id: Seq<char>, rules: Ruleset) -> bool {
    exists|i: int| 0 <= i < rules.bot_user_ids@.len() && #[trigger] rules.bot_user_ids@[i]@ == id
}

/// Who the requester `id` is, given their directory entry `user` (if any).
pub open spec fn requester_class(user: Option<User>, id: Seq<char>, rules: Ruleset) -> RequesterClass {
    if is_bot_id(id, rules) {
        RequesterClass::Bot
    } else {
        match user {
            None => RequesterClass::Unknown,
            Some(u) => if is_staff_role_name(u.role@) {
                RequesterClass::Staff
            } else if u.role@ == "bot"@ {
                RequesterClass::Bot
            } else {
                email_class(lower_email(u), rules)
            },
        }
    }
}

// ---------------------------------------------------------------------------------------------
// The outcome of one claim.
// ---------------------------------------------------------------------------------------------

/// Why an unmatched claim is unmatched.
pub open spec fn unmatched_reason() -> Seq<char> {
    "no ticket with this id in the buyer's helpdesk export"@
}

/// The claim record derived for `claim`, whose ticket is `ticket`.
#[verifier::opaque]
pub open spec fn expected_record(
    b: SourceBundle,
    rules: Ruleset,
    period: Seq<char>,
    claim: crate::source::BilledClaim,
    ticket: Ticket,
) -> ClaimView {
    ClaimView {
        claim_id: claim.claim_id@,
        ticket_id: claim.ticket_id@,
        period: period,
        resolution_type: claim.resolution_type@,
        resolved_at: rfc3339_text(claim.resolved_at.secs as int, claim.resolved_at.nanos as int, false),
        reopened_within_window: reopened(
            b.events@,
            claim.ticket_id@,
            claim.resolved_at,
            rules.reopen_window_days as int,
        ),
        repeat_contact_window: repeat_contact(
            b.tickets@,
            ticket,
            claim.resolved_at,
            rules.repeat_contact_window_days as int,
            rules,
        ),
        reached_human: reached_human(b.events@, claim.ticket_id@, b.users@, rules),
        downstream_reversal: downstream_reversal(
            b.downstream@,
            ticket.requester_id@,
            claim.resolved_at,
            rules.downstream_window_days as int,
        ),
        requester_class: class_tag(
            requester_class(user_of(b.users@, ticket.requester_id@), ticket.requester_id@, rules),
        ),
        turn_count: public_comments(b.events@, claim.ticket_id@, b.events@.len()) as u64,
        scope_tag: match intent(ticket, rules.intent_tag_prefix@) {
            Some(t) => t,
            None => Seq::empty(),
        },
        amount_usd_micros: claim.amount_usd_micros,
        inputs_sha256: crate::text_digest(
            inputs_text(
                claim,
                ticket,
                b.events@,
                time_order(b.events@, claim.ticket_id@, b.events@.len()),
                b.downstream@,
                b.users@,
            ),
        ),
        ruleset_version: rules.version@,
        ruleset_sha256: rules.digest_text(),
    }
}

/// When `claim` can first be adjudicated: once its longest window has closed.
pub open spec fn adjudicable_at(claim: crate::source::BilledClaim, rules: Ruleset) -> Timestamp {
    claim.resolved_at.days_later(rules.longest_window())
}

/// What normalisation concludes about `claim`.
pub open spec fn expected_outcome(
    b: SourceBundle,
    rules: Ruleset,
    period: Seq<char>,
    evaluated_at: Timestamp,
    claim: crate::source::BilledClaim,
) -> OutcomeView {
    match last_ticket(b.tickets@, claim.ticket_id@) {
        None => OutcomeView::Unmatched {
            claim_id: claim.claim_id@,
            ticket_id: claim.ticket_id@,
            reason: unmatched_reason(),
            amount_usd_micros: claim.amount_usd_micros,
        },
        Some(k) => {
            let adj = adjudicable_at(claim, rules);
            if evaluated_at.precedes(adj) {
                OutcomeView::Deferred {
                    claim_id: claim.claim_id@,
                    adjudicable_at: rfc3339_text(adj.secs as int, adj.nanos as int, false),
                }
            } else {
                OutcomeView::Claim(expected_record(b, rules, period, claim, b.tickets@[k]))
            }
        },
    }
}

/// Every claim with a ticket can be shifted by the ruleset's longest window without leaving
/// the representable range of instants.
pub open spec fn windows_fit(b: SourceBundle, rules: Ruleset) -> bool {
    forall|i: int|
        0 <= i < b.claims@.len() && #[trigger] last_ticket(b.tickets@, b.claims@[i].ticket_id@)
            is Some ==> b.claims@[i].resolved_at.days_later_fits(rules.longest_window())
}

// ---------------------------------------------------------------------------------------------
// Executable derivation.
// ---------------------------------------------------------------------------------------------

fn find_ticket(tickets: &Vec<Ticket>, id: &str) -> (r: Option<usize>)
    ensures
        match r {
            Some(k) => last_ticket(tickets@, id@) == Some(k as int) && k < tickets@.len(),
            None => last_ticket(tickets@, id@) is None,
        },
{
    let mut found: Option<usize> = None;
    let mut i: usize = 0;
    while i < tickets.len()
        invariant
            i <= tickets@.len(),
            match found {
                Some(k) => last_ticket_in(tickets@, id@, i as nat) == Some(k as int) && k < i,
                None => last_ticket_in(tickets@, id@, i as nat) is None,
            },
        decreases tickets.len() - i,
    {
        if str_eq(tickets[i].id.as_str(), id) {
            found = Some(i);
        }
        i = i + 1;
    }
    found
}

fn find_user(users: &Vec<User>, id: &str) -> (r: Option<usize>)
    ensures
        match r {
            Some(k) => k < users@.len() && user_of(users@, id@) == Some(users@[k as int]),
            None => user_of(users@, id@) is None,
        },
{
    let mut found: Option<usize> = None;
    let mut i: usize = 0;
    while i < users.len()
        invariant
            i <= users@.len(),
            match found {
                Some(k) => last_user_in(users@, id@, i as nat) == Some(k as int) && k < i,
                None => last_user_in(users@, id@, i as nat) is None,
            },
        decreases users.len() - i,
    {
        if str_eq(users[i].id.as_str(), id) {
            found = Some(i);
        }
        i = i + 1;
    }
    found
}

/// The position of the ticket's intent tag among its tags.
fn intent_index(t: &Ticket, prefix: &str) -> (r: Option<usize>)
    ensures
        match r {
            Some(k) => k < t.tags@.len() && intent(*t, prefix@) == Some(t.tags@[k as int]@),
            None => intent(*t, prefix@) is None,
        },
{
    let p = chars_of(prefix);
    let mut i: usize = 0;
    while i < t.tags.len()
        invariant
            i <= t.tags@.len(),
            p@ == prefix@,
            first_prefixed_from(t.tags@, prefix@, 0) == first_prefixed_from(t.tags@, prefix@, i as int),
        decreases t.tags.len() - i,
    {
        let tag = chars_of(t.tags[i].as_str());
        if starts_with(&tag, &p) {
            return Some(i);
        }
        i = i + 1;
    }
    None
}

fn is_reopen_status_str(to: &str) -> (b: bool)
    ensures
        b == is_reopen_status(to@),
{
    str_eq(to, "open") || str_eq(to, "pending") || str_eq(to, "hold")
}

fn reopened_in(events: &Vec<TicketEvent>, id: &str, resolved: Timestamp, days: i64) -> (b: bool)
    requires
        resolved.is_valid(),
        days >= 0,
        resolved.days_later_fits(days as int),
    ensures
        b == reopened(events@, id@, resolved, days as int),
{
    let end = resolved.plus_days(days);
    let mut k: usize = 0;
    while k < events.len()
        invariant
            k <= events@.len(),
            end == resolved.days_later(days as int),
            forall|m: int|
                0 <= m < k ==> !(events@[m].ticket_id@ == id@ && #[trigger] reopens(
                    events@[m],
                    resolved,
                    days as int,
                )),
        decreases events.len() - k,
    {
        let e = &events[k];
        if str_eq(e.ticket_id.as_str(), id) {
            let status = match &e.kind {
                EventKind::StatusChanged { to } => is_reopen_status_str(to.as_str()),
                _ => false,
            };
            if status && resolved.is_before(&e.at) && e.at.is_not_after(&end) {
                assert(reopens(events@[k as int], resolved, days as int));
                return true;
            }
        }
        k = k + 1;
    }
    false
}

/// Whether user `id` is a human under the rules.
fn is_human_id(id: &str, users: &Vec<User>, rules: &Ruleset) -> (b: bool)
    ensures
        b == is_human(id@, users@, *rules),
{
    if any_equal(&rules.bot_user_ids, id) {
        return false;
    }
    match find_user(users, id) {
        Some(k) => users[k].is_staff_role(),
        None => false,
    }
}

fn reached_human_in(events: &Vec<TicketEvent>, id: &str, users: &Vec<User>, rules: &Ruleset) -> (b: bool)
    ensures
        b == reached_human(events@, id@, users@, *rules),
{
    let mut k: usize = 0;
    while k < events.len()
        invariant
            k <= events@.len(),
            forall|m: int|
                0 <= m < k ==> !(events@[m].ticket_id@ == id@ && #[trigger] involves_human(
                    events@[m],
                    users@,
                    *rules,
                )),
        decreases events.len() - k,
    {
        let e = &events[k];
        if str_eq(e.ticket_id.as_str(), id) {
            let human = match &e.kind {
                EventKind::AssigneeChanged { to_user_id } => match to_user_id {
                    Some(u) => is_human_id(u.as_str(), users, rules),
                    None => false,
                },
                EventKind::PublicComment { author_id } => is_human_id(author_id.as_str(), users, rules),
                EventKind::StatusChanged { .. } => false,
            };
            if human {
                assert(involves_human(events@[k as int], users@, *rules));
                return true;
            }
        }
        k = k + 1;
    }
    false
}

/// Whether two optional intent tags are both present and equal.
fn same_intent(a: &Ticket, ia: Option<usize>, b: &Ticket, ib: Option<usize>) -> (r: bool)
    requires
        ia matches Some(k) ==> k < a.tags@.len(),
        ib matches Some(k) ==> k < b.tags@.len(),
    ensures
        r == (ia is Some && ib is Some && a.tags@[ia->0 as int]@ == b.tags@[ib->0 as int]@),
{
    match (ia, ib) {
        (Some(x), Some(y)) => str_eq(a.tags[x].as_str(), b.tags[y].as_str()),
        _ => false,
    }
}

fn repeat_contact_in(
    tickets: &Vec<Ticket>,
    original: &Ticket,
    resolved: Timestamp,
    days: i64,
    rules: &Ruleset,
) -> (b: bool)
    requires
        resolved.is_valid(),
        days >= 0,
        resolved.days_later_fits(days as int),
    ensures
        b == repeat_contact(tickets@, *original, resolved, days as int, *rules),
{
    let end = resolved.plus_days(days);
    let original_intent = intent_index(original, rules.intent_tag_prefix.as_str());
    let mut j: usize = 0;
    while j < tickets.len()
        invariant
            j <= tickets@.len(),
            end == resolved.days_later(days as int),
            match original_intent {
                Some(k) => k < original.tags@.len() && intent(*original, rules.intent_tag_prefix@)
                    == Some(original.tags@[k as int]@),
                None => intent(*original, rules.intent_tag_prefix@) is None,
            },
            forall|m: int|
                0 <= m < j ==> !#[trigger] is_repeat_of(
                    tickets@[m],
                    *original,
                    resolved,
                    days as int,
                    *rules,
                ),
        decreases tickets.len() - j,
    {
        let t = &tickets[j];
        if str_eq(t.requester_id.as_str(), original.requester_id.as_str()) && !str_eq(
            t.id.as_str(),
            original.id.as_str(),
        ) && resolved.is_before(&t.created_at) && t.created_at.is_not_after(&end) {
            let agrees = if rules.require_intent_match {
                let ti = intent_index(t, rules.intent_tag_prefix.as_str());
                same_intent(original, original_intent, t, ti)
            } else {
                true
            };
            if agrees {
                assert(is_repeat_of(tickets@[j as int], *original, resolved, days as int, *rules));
                return true;
            }
        }
        j = j + 1;
    }
    false
}

fn downstream_reversal_in(
    ds: &Vec<crate::source::DownstreamEvent>,
    requester: &str,
    resolved: Timestamp,
    days: i64,
) -> (b: bool)
    requires
        resolved.is_valid(),
        days >= 0,
        resolved.days_later_fits(days as int),
    ensures
        b == downstream_reversal(ds@, requester@, resolved, days as int),
{
    let end = resolved.plus_days(days);
    let mut k: usize = 0;
    while k < ds.len()
        invariant
            k <= ds@.len(),
            end == resolved.days_later(days as int),
            forall|m: int|
                0 <= m < k ==> !(#[trigger] ds@[m].requester_id@ == requester@ && resolved.not_after(
                    ds@[m].at,
                ) && ds@[m].at.not_after(end)),
        decreases ds.len() - k,
    {
        let d = &ds[k];
        if str_eq(d.requester_id.as_str(), requester) && resolved.is_not_after(&d.at)
            && d.at.is_not_after(&end) {
            return true;
        }
        k = k + 1;
    }
    false
}

fn count_public_comments(events: &Vec<TicketEvent>, id: &str) -> (n: u64)
    ensures
        n == public_comments(events@, id@, events@.len()),
{
    let mut n: u64 = 0;
    let mut k: usize = 0;
    while k < events.len()
        invariant
            k <= events@.len(),
            n == public_comments(events@, id@, k as nat),
            n <= k,
        decreases events.len() - k,
    {
        let e = &events[k];
        if str_eq(e.ticket_id.as_str(), id) {
            match &e.kind {
                EventKind::PublicComment { .. } => {
                    n = n + 1;
                },
                _ => {},
            }
        }
        k = k + 1;
    }
    n
}

/// The domain of an address: the characters after its last `@`, when it has one.
fn domain_of(email: &Vec<char>) -> (r: Option<Vec<char>>)
    ensures
        match r {
            Some(d) => email_domain(email@) == Some(d@),
            None => email_domain(email@) is None,
        },
{
    let mut i: usize = email.len();
    while i > 0
        invariant
            i <= email@.len(),
            last_at_in(email@, email@.len()) == last_at_in(email@, i as nat),
        decreases i,
    {
        if email[i - 1] == '@' {
            let mut d: Vec<char> = Vec::new();
            let mut j: usize = i;
            while j < email.len()
                invariant
                    i <= j <= email@.len(),
                    d@ == email@.subrange(i as int, j as int),
                decreases email.len() - j,
            {
                d.push(email[j]);
                j = j + 1;
                assert(d@ =~= email@.subrange(i as int, j as int));
            }
            assert(email@.subrange(i as int, email@.len() as int) =~= email@.skip(i as int));
            return Some(d);
        }
        i = i - 1;
    }
    None
}

/// Whether `domain` is the domain `staff` or one of its subdomains.
fn in_domain(domain: &Vec<char>, staff: &Vec<char>) -> (b: bool)
    ensures
        b == within_domain(domain@, staff@),
{
    if domain.len() == staff.len() && starts_with(domain, staff) {
        assert(domain@.take(staff@.len() as int) =~= domain@);
        return true;
    }
    let mut dotted: Vec<char> = Vec::new();
    dotted.push('.');
    let mut k: usize = 0;
    while k < staff.len()
        invariant
            k <= staff@.len(),
            dotted@ == seq!['.'] + staff@.take(k as int),
        decreases staff.len() - k,
    {
        dotted.push(staff[k]);
        k = k + 1;
        assert(dotted@ =~= seq!['.'] + staff@.take(k as int));
    }
    assert(staff@.take(staff@.len() as int) =~= staff@);
    ends_with(domain, &dotted)
}

/// Who the requester `id` is, given their directory entry `user`, if any.
#[verifier::loop_isolation(false)]
pub fn classify(user: Option<&User>, id: &str, rules: &Ruleset) -> (c: RequesterClass)
    ensures
        c == requester_class(
            match user {
                Some(u) => Some(*u),
                None => None,
            },
            id@,
            *rules,
        ),
{
    if any_equal(&rules.bot_user_ids, id) {
        return RequesterClass::Bot;
    }
    let user = match user {
        None => {
            return RequesterClass::Unknown;
        },
        Some(u) => u,
    };
    if user.is_staff_role() {
        return RequesterClass::Staff;
    }
    if str_eq(user.role.as_str(), "bot") {
        return RequesterClass::Bot;
    }
    let email = match &user.email {
        Some(e) => lower_chars_of(e.as_str()),
        None => Vec::new(),
    };
    assert(email@ =~= lower_email(*user));
    if email.len() == 0 {
        return RequesterClass::Customer;
    }
    let mut m: usize = 0;
    while m < rules.test_account_markers.len()
        invariant
            m <= rules.test_account_markers@.len(),
            forall|k: int|
                0 <= k < m ==> !#[trigger] has_infix(
                    email@,
                    ascii_lower(rules.test_account_markers@[k]@),
                ),
        decreases rules.test_account_markers.len() - m,
    {
        let marker = lower_chars_of(rules.test_account_markers[m].as_str());
        if contains(&email, &marker) {
            return RequesterClass::Test;
        }
        m = m + 1;
    }
    if let Some(domain) = domain_of(&email) {
        let mut d: usize = 0;
        while d < rules.staff_domains.len()
            invariant
                d <= rules.staff_domains@.len(),
                email_domain(email@) == Some(domain@),
                forall|k: int|
                    0 <= k < d ==> !#[trigger] within_domain(
                        domain@,
                        ascii_lower(rules.staff_domains@[k]@),
                    ),
            decreases rules.staff_domains.len() - d,
        {
            let staff = lower_chars_of(rules.staff_domains[d].as_str());
            if in_domain(&domain, &staff) {
                assert(within_domain(domain@, ascii_lower(rules.staff_domains@[d as int]@)));
                return RequesterClass::Staff;
            }
            d = d + 1;
        }
    }
    let noreply = chars_of("noreply@");
    let no_reply = chars_of("no-reply@");
    if starts_with(&email, &noreply) || starts_with(&email, &no_reply) {
        return RequesterClass::Bot;
    }
    RequesterClass::Customer
}

/// Where an event at `t` goes among the ordered events `order`, found by scanning.
proof fn lemma_insert_pos(events: Seq<TicketEvent>, order: Seq<usize>, t: Timestamp, j: int)
    requires
        0 <= j <= order.len(),
        forall|m: int| 0 <= m < j ==> !t.precedes(#[trigger] events[order[m] as int].at),
        j < order.len() ==> t.precedes(events[order[j] as int].at),
    ensures
        insert_pos(events, order, t) == j,
    decreases j,
{
    if j > 0 {
        let rest = order.drop_first();
        assert(!t.precedes(events[order[0] as int].at));
        assert forall|m: int| 0 <= m < j - 1 implies !t.precedes(
            #[trigger] events[rest[m] as int].at,
        ) by {
            assert(rest[m] == order[m + 1]);
        }
        if j - 1 < rest.len() {
            assert(rest[j - 1] == order[j]);
        }
        lemma_insert_pos(events, rest, t, j - 1);
    }
}

/// The positions of the events of ticket `id`, ordered by time, ties in bundle order.
fn time_order_of(events: &Vec<TicketEvent>, id: &str) -> (order: Vec<usize>)
    ensures
        order@ == time_order(events@, id@, events@.len()),
        forall|j: int| 0 <= j < order@.len() ==> #[trigger] order@[j] < events@.len(),
{
    let mut order: Vec<usize> = Vec::new();
    let mut k: usize = 0;
    while k < events.len()
        invariant
            k <= events@.len(),
            order@ == time_order(events@, id@, k as nat),
            forall|j: int| 0 <= j < order@.len() ==> #[trigger] order@[j] < k,
        decreases events.len() - k,
    {
        if str_eq(events[k].ticket_id.as_str(), id) {
            let t = events[k].at;
            let mut j: usize = 0;
            while j < order.len() && !t.is_before(&events[order[j]].at)
                invariant
                    k < events@.len(),
                    j <= order@.len(),
                    forall|m: int| 0 <= m < order@.len() ==> #[trigger] order@[m] < k,
                    forall|m: int|
                        0 <= m < j ==> !t.precedes(#[trigger] events@[order@[m] as int].at),
                decreases order.len() - j,
            {
                j = j + 1;
            }
            proof {
                lemma_insert_pos(events@, order@, t, j as int);
            }
            order.insert(j, k);
        }
        k = k + 1;
    }
    order
}

/// Each window of a valid ruleset fits wherever the longest one does.
proof fn lemma_windows_fit(t: Timestamp, rules: Ruleset)
    requires
        t.is_valid(),
        rules.windows_non_negative(),
        t.days_later_fits(rules.longest_window()),
    ensures
        t.days_later_fits(rules.reopen_window_days as int),
        t.days_later_fits(rules.repeat_contact_window_days as int),
        t.days_later_fits(rules.downstream_window_days as int),
{
}

/// The claim record for `claim`, whose ticket is `ticket`.
fn derive_record(
    bundle: &SourceBundle,
    rules: &Ruleset,
    period: &str,
    claim: &crate::source::BilledClaim,
    ticket: &Ticket,
    ruleset_sha256: &String,
) -> (r: ClaimRecord)
    requires
        bundle.times_valid(),
        claim.resolved_at.is_valid(),
        ticket.created_at.is_valid(),
        rules.windows_non_negative(),
        claim.resolved_at.days_later_fits(rules.longest_window()),
        ruleset_sha256@ == rules.digest_text(),
        ruleset_sha256@.len() == 64,
    ensures
        r@ == expected_record(*bundle, *rules, period@, *claim, *ticket),
        r.inputs_sha256@.len() == 64,
        r.ruleset_sha256@.len() == 64,
{
    proof {
        reveal(expected_record);
        lemma_windows_fit(claim.resolved_at, *rules);
    }
    let id = claim.ticket_id.as_str();
    let reopened_within_window = reopened_in(
        &bundle.events,
        id,
        claim.resolved_at,
        rules.reopen_window_days,
    );
    let reached_human = reached_human_in(&bundle.events, id, &bundle.users, rules);
    let repeat_contact_window = repeat_contact_in(
        &bundle.tickets,
        ticket,
        claim.resolved_at,
        rules.repeat_contact_window_days,
        rules,
    );
    let downstream_reversal = downstream_reversal_in(
        &bundle.downstream,
        ticket.requester_id.as_str(),
        claim.resolved_at,
        rules.downstream_window_days,
    );
    let user = match find_user(&bundle.users, ticket.requester_id.as_str()) {
        Some(k) => Some(&bundle.users[k]),
        None => None,
    };
    let requester_class = classify(user, ticket.requester_id.as_str(), rules);
    let turn_count = count_public_comments(&bundle.events, id);
    let scope_tag = match intent_index(ticket, rules.intent_tag_prefix.as_str()) {
        Some(k) => ticket.tags[k].clone(),
        None => String::new(),
    };
    let order = time_order_of(&bundle.events, id);
    let inputs = inputs_json(claim, ticket, &bundle.events, &order, &bundle.downstream, &bundle.users);
    let inputs_sha256 = crate::digest_of_text(inputs.as_str());
    ClaimRecord {
        claim_id: claim.claim_id.clone(),
        ticket_id: claim.ticket_id.clone(),
        period: period.to_owned(),
        resolution_type: claim.resolution_type.clone(),
        resolved_at: format_rfc3339(claim.resolved_at, false),
        reopened_within_window,
        repeat_contact_window,
        reached_human,
        downstream_reversal,
        requester_class: requester_class.as_str().to_owned(),
        turn_count,
        scope_tag,
        amount_usd_micros: claim.amount_usd_micros,
        inputs_sha256,
        ruleset_version: rules.version.clone(),
        ruleset_sha256: ruleset_sha256.clone(),
    }
}

/// What normalisation concludes about one claim.
fn outcome_for(
    bundle: &SourceBundle,
    rules: &Ruleset,
    period: &str,
    evaluated_at: Timestamp,
    claim: &crate::source::BilledClaim,
    ruleset_sha256: &String,
) -> (o: Outcome)
    requires
        bundle.times_valid(),
        claim.resolved_at.is_valid(),
        rules.validation_error() is None,
        last_ticket(bundle.tickets@, claim.ticket_id@) is Some ==> claim.resolved_at.days_later_fits(
            rules.longest_window(),
        ),
        ruleset_sha256@ == rules.digest_text(),
        ruleset_sha256@.len() == 64,
    ensures
        o@ == expected_outcome(*bundle, *rules, period@, evaluated_at, *claim),
        o@ matches OutcomeView::Claim(rec) ==> rec.inputs_sha256.len() == 64
            && rec.ruleset_sha256.len() == 64,
{
    let k = match find_ticket(&bundle.tickets, claim.ticket_id.as_str()) {
        None => {
            return Outcome::Unmatched {
                claim_id: claim.claim_id.clone(),
                ticket_id: claim.ticket_id.clone(),
                reason: "no ticket with this id in the buyer's helpdesk export".to_owned(),
                amount_usd_micros: claim.amount_usd_micros,
            };
        },
        Some(k) => k,
    };
    let ticket = &bundle.tickets[k];
    let adjudicable = claim.resolved_at.plus_days(rules.longest_window_days());
    if evaluated_at.is_before(&adjudicable) {
        return Outcome::Deferred {
            claim_id: claim.claim_id.clone(),
            adjudicable_at: format_rfc3339(adjudicable, false),
        };
    }
    let record = derive_record(bundle, rules, period, claim, ticket, ruleset_sha256);
    Outcome::Claim(Box::new(record))
}

/// Normalise one period's records into claim records, one outcome per billed claim, in order.
///
/// `evaluated_at` is when the attestation is being run: claims whose windows have not yet
/// closed are deferred rather than judged early. An unusable ruleset is an error.
///
/// Each record's `inputs_sha256` is the digest of the canonical text (`inputs_text`) of every
/// source record the claim was derived from: the claim, its ticket, the ticket's events, the
/// requester's downstream events, and the directory records of the requester and of every user
/// the ticket's events name.
pub fn normalise(
    bundle: &SourceBundle,
    rules: &Ruleset,
    period: &str,
    evaluated_at: Timestamp,
) -> (r: Result<Vec<Outcome>, Error>)
    requires
        bundle.times_valid(),
        rules.validation_error() is None ==> windows_fit(*bundle, *rules),
    ensures
        r is Err <==> rules.validation_error() is Some,
        r matches Err(e) ==> e matches Error::Ruleset(m) && Some(m@) == rules.validation_error(),
        r matches Ok(os) ==> {
            &&& os@.len() == bundle.claims@.len()
            &&& forall|i: int|
                0 <= i < os@.len() ==> #[trigger] os@[i]@ == expected_outcome(
                    *bundle,
                    *rules,
                    period@,
                    evaluated_at,
                    bundle.claims@[i],
                )
            &&& forall|i: int|
                0 <= i < os@.len() ==> (#[trigger] os@[i]@ matches OutcomeView::Claim(rec) ==> (
                rec.inputs_sha256.len() == 64 && rec.ruleset_sha256.len() == 64))
        },
{
    match rules.validate() {
        Err(e) => {
            return Err(e);
        },
        Ok(()) => {},
    }
    let ruleset_sha256 = match rules.digest() {
        Ok(d) => d,
        Err(e) => {
            return Err(e);
        },
    };
    let mut outcomes: Vec<Outcome> = Vec::new();
    let mut i: usize = 0;
    while i < bundle.claims.len()
        invariant
            i <= bundle.claims@.len(),
            bundle.times_valid(),
            rules.validation_error() is None,
            windows_fit(*bundle, *rules),
            ruleset_sha256@ == rules.digest_text(),
            ruleset_sha256@.len() == 64,
            outcomes@.len() == i,
            forall|j: int|
                0 <= j < i ==> (#[trigger] outcomes@[j]@ matches OutcomeView::Claim(rec) ==> (
                rec.inputs_sha256.len() == 64 && rec.ruleset_sha256.len() == 64)),
            forall|j: int|
                0 <= j < i ==> #[trigger] outcomes@[j]@ == expected_outcome(
                    *bundle,
                    *rules,
                    period@,
                    evaluated_at,
                    bundle.claims@[j],
                ),
        decreases bundle.claims.len() - i,
    {
        let claim = &bundle.claims[i];
        assert(bundle.claims@[i as int].resolved_at.is_valid());
        assert(last_ticket(bundle.tickets@, bundle.claims@[i as int].ticket_id@) is Some
            ==> bundle.claims@[i as int].resolved_at.days_later_fits(rules.longest_window()));
        let o = outcome_for(bundle, rules, period, evaluated_at, claim, &ruleset_sha256);
        outcomes.push(o);
        i = i + 1;
    }
    Ok(outcomes)
}

// ---------------------------------------------------------------------------------------------
// Criteria and the period summary.
// ---------------------------------------------------------------------------------------------

/// The name of criterion `k`, in ascending order of names; criterion 7 is the unmatched ticket.
pub open spec fn reason_name(k: int) -> Seq<char> {
    if k == 0 {
        "downstream_reversal"@
    } else if k == 1 {
        "reached_human"@
    } else if k == 2 {
        "reopened_within_window"@
    } else if k == 3 {
        "repeat_contact_window"@
    } else if k == 4 {
        "requester_not_customer"@
    } else if k == 5 {
        "scope_tag_invalid"@
    } else if k == 6 {
        "turn_count_out_of_range"@
    } else {
        "unmatched_ticket"@
    }
}

/// Record `r` fails criterion `k` (for `k` from 0 to 6).
pub open spec fn criterion_fails(r: ClaimView, min: u64, max: u64, scope_ok: bool, k: int) -> bool {
    if k == 0 {
        r.downstream_reversal
    } else if k == 1 {
        r.reached_human
    } else if k == 2 {
        r.reopened_within_window
    } else if k == 3 {
        r.repeat_contact_window
    } else if k == 4 {
        r.requester_class != "customer"@
    } else if k == 5 {
        !scope_ok
    } else if k == 6 {
        r.turn_count < min || r.turn_count > max
    } else {
        false
    }
}

/// The name of criterion `k` if `r` fails it, else nothing.
pub open spec fn failed_name(r: ClaimView, min: u64, max: u64, scope_ok: bool, k: int) -> Seq<Seq<char>> {
    if criterion_fails(r, min, max, scope_ok, k) {
        seq![reason_name(k)]
    } else {
        Seq::empty()
    }
}

/// The names of the criteria `r` fails, in ascending order, each once.
pub open spec fn failed_names(r: ClaimView, min: u64, max: u64, scope_ok: bool) -> Seq<Seq<char>> {
    failed_name(r, min, max, scope_ok, 0) + failed_name(r, min, max, scope_ok, 1) + failed_name(
        r,
        min,
        max,
        scope_ok,
        2,
    ) + failed_name(r, min, max, scope_ok, 3) + failed_name(r, min, max, scope_ok, 4)
        + failed_name(r, min, max, scope_ok, 5) + failed_name(r, min, max, scope_ok, 6)
}

/// The views of a sequence of strings.
pub open spec fn string_views(v: Seq<String>) -> Seq<Seq<char>> {
    Seq::new(v.len(), |i: int| v[i]@)
}

fn push_reason(out: &mut Vec<String>, fails: bool, name: &str)
    ensures
        string_views(final(out)@) == string_views(old(out)@) + if fails {
            seq![name@]
        } else {
            Seq::<Seq<char>>::empty()
        },
{
    if fails {
        out.push(name.to_owned());
    }
    assert(string_views(out@) =~= string_views(old(out)@) + if fails {
        seq![name@]
    } else {
        Seq::<Seq<char>>::empty()
    });
}

/// Which criteria a record fails, named the way the dispute file names them: in ascending
/// order of name, each once.
pub fn failed_reasons(record: &ClaimRecord, min: u64, max: u64, scope_ok: bool) -> (names: Vec<String>)
    ensures
        string_views(names@) == failed_names(record@, min, max, scope_ok),
{
    let mut names: Vec<String> = Vec::new();
    assert(string_views(names@) =~= Seq::<Seq<char>>::empty());
    push_reason(&mut names, record.downstream_reversal, "downstream_reversal");
    push_reason(&mut names, record.reached_human, "reached_human");
    push_reason(&mut names, record.reopened_within_window, "reopened_within_window");
    push_reason(&mut names, record.repeat_contact_window, "repeat_contact_window");
    let not_customer = !str_eq(record.requester_class.as_str(), "customer");
    push_reason(&mut names, not_customer, "requester_not_customer");
    push_reason(&mut names, !scope_ok, "scope_tag_invalid");
    push_reason(
        &mut names,
        record.turn_count < min || record.turn_count > max,
        "turn_count_out_of_range",
    );
    assert(Seq::<Seq<char>>::empty() + failed_name(record@, min, max, scope_ok, 0)
        =~= failed_name(record@, min, max, scope_ok, 0));
    names
}

/// The number of positions below `n` where `p` holds.
pub open spec fn count_where(n: nat, p: spec_fn(int) -> bool) -> nat
    decreases n,
{
    if n == 0 {
        0
    } else {
        count_where((n - 1) as nat, p) + if p(n - 1) {
            1nat
        } else {
            0nat
        }
    }
}

/// The sum of `f` over the positions below `n`.
pub open spec fn sum_of(n: nat, f: spec_fn(int) -> nat) -> nat
    decreases n,
{
    if n == 0 {
        0
    } else {
        sum_of((n - 1) as nat, f) + f(n - 1)
    }
}

/// `n`, or the largest `u64` when `n` exceeds it.
pub open spec fn capped(n: nat) -> u64 {
    if n > u64::MAX {
        u64::MAX
    } else {
        n as u64
    }
}

/// Outcomes that count as billed: claim records and unmatched claims.
pub open spec fn billed_pred(os: Seq<Outcome>) -> spec_fn(int) -> bool {
    |i: int| os[i]@ is Claim || os[i]@ is Unmatched
}

/// Claim records that fail no criterion.
pub open spec fn unflagged_pred(os: Seq<Outcome>, min: u64, max: u64, flags: Seq<bool>) -> spec_fn(int) -> bool {
    |i: int| os[i]@ matches OutcomeView::Claim(r) && passes(r, min, max, flags[i])
}

/// Claim records that fail at least one criterion.
pub open spec fn exception_pred(os: Seq<Outcome>, min: u64, max: u64, flags: Seq<bool>) -> spec_fn(int) -> bool {
    |i: int| os[i]@ matches OutcomeView::Claim(r) && !passes(r, min, max, flags[i])
}

pub open spec fn deferred_pred(os: Seq<Outcome>) -> spec_fn(int) -> bool {
    |i: int| os[i]@ is Deferred
}

pub open spec fn unmatched_pred(os: Seq<Outcome>) -> spec_fn(int) -> bool {
    |i: int| os[i]@ is Unmatched
}

/// Outcomes that count toward criterion `k`: claim records failing it, and, for criterion 7,
/// unmatched claims.
pub open spec fn reason_pred(os: Seq<Outcome>, min: u64, max: u64, flags: Seq<bool>, k: int) -> spec_fn(int) -> bool {
    |i: int|
        match os[i]@ {
            OutcomeView::Claim(r) => criterion_fails(r, min, max, flags[i], k),
            OutcomeView::Unmatched { .. } => k == 7,
            OutcomeView::Deferred { .. } => false,
        }
}

/// What an outcome adds to the billed amount.
pub open spec fn billed_amount(os: Seq<Outcome>) -> spec_fn(int) -> nat {
    |i: int|
        match os[i]@ {
            OutcomeView::Claim(r) => r.amount_usd_micros as nat,
            OutcomeView::Unmatched { amount_usd_micros, .. } => amount_usd_micros as nat,
            OutcomeView::Deferred { .. } => 0nat,
        }
}

/// What an outcome adds to the amount at stake: exceptions and unmatched claims.
pub open spec fn at_stake_amount(os: Seq<Outcome>, min: u64, max: u64, flags: Seq<bool>) -> spec_fn(int) -> nat {
    |i: int|
        match os[i]@ {
            OutcomeView::Claim(r) => if passes(r, min, max, flags[i]) {
                0nat
            } else {
                r.amount_usd_micros as nat
            },
            OutcomeView::Unmatched { amount_usd_micros, .. } => amount_usd_micros as nat,
            OutcomeView::Deferred { .. } => 0nat,
        }
}

/// The entry for criterion `k` in the per-criterion counts: present when the count is not zero.
pub open spec fn reason_entry(os: Seq<Outcome>, min: u64, max: u64, flags: Seq<bool>, k: int) -> Seq<(Seq<char>, u64)> {
    let c = count_where(os.len(), reason_pred(os, min, max, flags, k));
    if c > 0 {
        seq![(reason_name(k), c as u64)]
    } else {
        Seq::empty()
    }
}

/// Counts by criterion, in ascending order of criterion name, zero counts left out.
pub open spec fn reason_table(os: Seq<Outcome>, min: u64, max: u64, flags: Seq<bool>) -> Seq<(Seq<char>, u64)> {
    reason_entry(os, min, max, flags, 0) + reason_entry(os, min, max, flags, 1) + reason_entry(
        os,
        min,
        max,
        flags,
        2,
    ) + reason_entry(os, min, max, flags, 3) + reason_entry(os, min, max, flags, 4)
        + reason_entry(os, min, max, flags, 5) + reason_entry(os, min, max, flags, 6)
        + reason_entry(os, min, max, flags, 7)
}

/// The views of the per-criterion counts.
pub open spec fn table_view(t: Seq<(String, u64)>) -> Seq<(Seq<char>, u64)> {
    Seq::new(t.len(), |i: int| (t[i].0@, t[i].1))
}

/// `s` is the summary of `os`, judged with turn bounds `min`..=`max` and with `flags[i]` saying
/// whether the scope tag of outcome `i` is valid.
pub open spec fn summarises(s: Summary, os: Seq<Outcome>, min: u64, max: u64, flags: Seq<bool>) -> bool {
    &&& s.billed == count_where(os.len(), billed_pred(os))
    &&& s.verified == count_where(os.len(), unflagged_pred(os, min, max, flags))
    &&& s.exceptions == count_where(os.len(), exception_pred(os, min, max, flags))
    &&& s.deferred == count_where(os.len(), deferred_pred(os))
    &&& s.unmatched == count_where(os.len(), unmatched_pred(os))
    &&& s.billed_usd_micros == capped(sum_of(os.len(), billed_amount(os)))
    &&& s.at_stake_usd_micros == capped(sum_of(os.len(), at_stake_amount(os, min, max, flags)))
    &&& table_view(s.by_reason@) == reason_table(os, min, max, flags)
}

/// Appends the entry for one criterion when its count is not zero.
fn push_entry(table: &mut Vec<(String, u64)>, name: &str, count: u64)
    ensures
        table_view(final(table)@) == table_view(old(table)@) + if count > 0 {
            seq![(name@, count)]
        } else {
            Seq::<(Seq<char>, u64)>::empty()
        },
{
    if count > 0 {
        table.push((name.to_owned(), count));
    }
    assert(table_view(table@) =~= table_view(old(table)@) + if count > 0 {
        seq![(name@, count)]
    } else {
        Seq::<(Seq<char>, u64)>::empty()
    });
}

/// Count outcomes for the evidence pack, given the turn bounds and, for each outcome, whether
/// its scope tag is valid (ignored for outcomes that are not claim records).
pub fn tally(outcomes: &[Outcome], min: u64, max: u64, scope_ok: &Vec<bool>) -> (s: Summary)
    requires
        scope_ok@.len() == outcomes@.len(),
    ensures
        summarises(s, outcomes@, min, max, scope_ok@),
{
    let ghost os = outcomes@;
    let ghost flags = scope_ok@;
    let mut billed: u64 = 0;
    let mut verified: u64 = 0;
    let mut exceptions: u64 = 0;
    let mut deferred: u64 = 0;
    let mut unmatched: u64 = 0;
    let mut billed_usd: u64 = 0;
    let mut at_stake: u64 = 0;
    let mut c0: u64 = 0;
    let mut c1: u64 = 0;
    let mut c2: u64 = 0;
    let mut c3: u64 = 0;
    let mut c4: u64 = 0;
    let mut c5: u64 = 0;
    let mut c6: u64 = 0;
    let mut c7: u64 = 0;
    let mut i: usize = 0;
    while i < outcomes.len()
        invariant
            os == outcomes@,
            flags == scope_ok@,
            flags.len() == os.len(),
            i <= os.len(),
            billed == count_where(i as nat, billed_pred(os)),
            verified == count_where(i as nat, unflagged_pred(os, min, max, flags)),
            exceptions == count_where(i as nat, exception_pred(os, min, max, flags)),
            deferred == count_where(i as nat, deferred_pred(os)),
            unmatched == count_where(i as nat, unmatched_pred(os)),
            billed_usd == capped(sum_of(i as nat, billed_amount(os))),
            at_stake == capped(sum_of(i as nat, at_stake_amount(os, min, max, flags))),
            c0 == count_where(i as nat, reason_pred(os, min, max, flags, 0)),
            c1 == count_where(i as nat, reason_pred(os, min, max, flags, 1)),
            c2 == count_where(i as nat, reason_pred(os, min, max, flags, 2)),
            c3 == count_where(i as nat, reason_pred(os, min, max, flags, 3)),
            c4 == count_where(i as nat, reason_pred(os, min, max, flags, 4)),
            c5 == count_where(i as nat, reason_pred(os, min, max, flags, 5)),
            c6 == count_where(i as nat, reason_pred(os, min, max, flags, 6)),
            c7 == count_where(i as nat, reason_pred(os, min, max, flags, 7)),
            billed <= i && verified <= i && exceptions <= i && deferred <= i && unmatched <= i,
            c0 <= i && c1 <= i && c2 <= i && c3 <= i && c4 <= i && c5 <= i && c6 <= i && c7 <= i,
        decreases outcomes.len() - i,
    {
        match &outcomes[i] {
            Outcome::Claim(record) => {
                billed = billed + 1;
                billed_usd = billed_usd.saturating_add(record.amount_usd_micros);
                let ok = scope_ok[i];
                if record.passes_locally(min, max, ok) {
                    verified = verified + 1;
                } else {
                    exceptions = exceptions + 1;
                    at_stake = at_stake.saturating_add(record.amount_usd_micros);
                }
                if record.downstream_reversal {
                    c0 = c0 + 1;
                }
                if record.reached_human {
                    c1 = c1 + 1;
                }
                if record.reopened_within_window {
                    c2 = c2 + 1;
                }
                if record.repeat_contact_window {
                    c3 = c3 + 1;
                }
                if !str_eq(record.requester_class.as_str(), "customer") {
                    c4 = c4 + 1;
                }
                if !ok {
                    c5 = c5 + 1;
                }
                if record.turn_count < min || record.turn_count > max {
                    c6 = c6 + 1;
                }
            },
            Outcome::Deferred { .. } => {
                deferred = deferred + 1;
            },
            Outcome::Unmatched { amount_usd_micros, .. } => {
                billed = billed + 1;
                billed_usd = billed_usd.saturating_add(*amount_usd_micros);
                at_stake = at_stake.saturating_add(*amount_usd_micros);
                unmatched = unmatched + 1;
                c7 = c7 + 1;
            },
        }
        i = i + 1;
    }
    let mut by_reason: Vec<(String, u64)> = Vec::new();
    assert(table_view(by_reason@) =~= Seq::<(Seq<char>, u64)>::empty());
    push_entry(&mut by_reason, "downstream_reversal", c0);
    push_entry(&mut by_reason, "reached_human", c1);
    push_entry(&mut by_reason, "reopened_within_window", c2);
    push_entry(&mut by_reason, "repeat_contact_window", c3);
    push_entry(&mut by_reason, "requester_not_customer", c4);
    push_entry(&mut by_reason, "scope_tag_invalid", c5);
    push_entry(&mut by_reason, "turn_count_out_of_range", c6);
    push_entry(&mut by_reason, "unmatched_ticket", c7);
    assert(Seq::<(Seq<char>, u64)>::empty() + reason_entry(os, min, max, flags, 0) =~= reason_entry(
        os,
        min,
        max,
        flags,
        0,
    ));
    Summary {
        billed,
        verified,
        exceptions,
        deferred,
        unmatched,
        billed_usd_micros: billed_usd,
        at_stake_usd_micros: at_stake,
        by_reason,
    }
}

/// Whether the scope tag of each outcome is valid under the rules: a claim record's tag must be
/// matched by the scope pattern, which must compile; other outcomes have none.
pub open spec fn scope_flags(os: Seq<Outcome>, rules: Ruleset) -> Seq<bool> {
    Seq::new(
        os.len(),
        |i: int|
            match os[i]@ {
                OutcomeView::Claim(r) => regex_compile_error(rules.scope_tag_pattern@) is None
                    && regex_is_match(rules.scope_tag_pattern@, r.scope_tag),
                _ => false,
            },
    )
}

/// Count outcomes for the evidence pack, under the rules' turn bounds and scope pattern.
pub fn summarise(outcomes: &[Outcome], rules: &Ruleset) -> (s: Summary)
    ensures
        summarises(
            s,
            outcomes@,
            rules.min_turns as u64,
            rules.max_turns as u64,
            scope_flags(outcomes@, *rules),
        ),
{
    let scope = compile_pattern(rules.scope_tag_pattern.as_str());
    let mut flags: Vec<bool> = Vec::new();
    let mut i: usize = 0;
    while i < outcomes.len()
        invariant
            i <= outcomes@.len(),
            match scope {
                Ok(p) => regex_compile_error(rules.scope_tag_pattern@) is None && p.source()
                    == rules.scope_tag_pattern@,
                Err(_) => regex_compile_error(rules.scope_tag_pattern@) is Some,
            },
            flags@ =~= scope_flags(outcomes@, *rules).take(i as int),
        decreases outcomes.len() - i,
    {
        let ok = match &outcomes[i] {
            Outcome::Claim(record) => match &scope {
                Ok(p) => pattern_matches(p, record.scope_tag.as_str()),
                Err(_) => false,
            },
            _ => false,
        };
        flags.push(ok);
        i = i + 1;
    }
    assert(flags@ =~= scope_flags(outcomes@, *rules));
    tally(outcomes, rules.min_turns as u64, rules.max_turns as u64, &flags)
}

/// Exception counts as a plain table, for callers that want them without the rest of the
/// summary.
pub fn reason_counts(summary: &Summary) -> (t: Vec<(String, u64)>)
    ensures
        table_view(t@) == table_view(summary.by_reason@),
{
    let mut t: Vec<(String, u64)> = Vec::new();
    let mut i: usize = 0;
    while i < summary.by_reason.len()
        invariant
            i <= summary.by_reason@.len(),
            t@.len() == i,
            table_view(t@) =~= table_view(summary.by_reason@).take(i as int),
        decreases summary.by_reason.len() - i,
    {
        let entry = &summary.by_reason[i];
        let name = entry.0.clone();
        let count = entry.1;
        let ghost prev = t@;
        t.push((name, count));
        assert(t@[i as int].0@ == summary.by_reason@[i as int].0@);
        assert(table_view(t@) =~= table_view(prev).push((name@, count)));
        i = i + 1;
        assert(table_view(summary.by_reason@).take(i as int) =~= table_view(summary.by_reason@).take(
            i - 1,
        ).push(table_view(summary.by_reason@)[i - 1]));
    }
    assert(table_view(t@) =~= table_view(summary.by_reason@));
    t
}

} // verus!
