//! The canonical claim record: the only document the Judge ever sees.
use vstd::prelude::*;
use crate::text::{decimal, digit, digit_char, push_decimal};
use crate::time::Timestamp;

verus! {

broadcast use vstd::string::group_string_axioms;

/// Who was actually on the other end of the conversation.
#[derive(Clone, Copy, Debug, PartialEq, Eq, Structural)]
pub enum RequesterClass {
    /// A real customer. The only class a resolution may be billed for.
    Customer,
    /// The buyer's own staff.
    Staff,
    /// A test or QA account.
    Test,
    /// An automated sender.
    Bot,
    /// The requester was not in the supplied directory, so the claim cannot be classified.
    Unknown,
}

/// The tag of a requester class, as the claim record and the criteria write it.
pub open spec fn class_tag(c: RequesterClass) -> Seq<char> {
    match c {
        RequesterClass::Customer => "customer"@,
        RequesterClass::Staff => "staff"@,
        RequesterClass::Test => "test"@,
        RequesterClass::Bot => "bot"@,
        RequesterClass::Unknown => "unknown"@,
    }
}

impl RequesterClass {
    /// The tag used in the claim record and in criteria.
    pub fn as_str(self) -> (s: &'static str)
        ensures
            s@ == class_tag(self),
    {
        match self {
            RequesterClass::Customer => "customer",
            RequesterClass::Staff => "staff",
            RequesterClass::Test => "test",
            RequesterClass::Bot => "bot",
            RequesterClass::Unknown => "unknown",
        }
    }
}

/// One billed resolution, recomputed from the buyer's records. Field order is the
/// serialisation order.
#[derive(Clone, Debug, PartialEq, Eq)]
pub struct ClaimRecord {
    /// The vendor's identifier for the billed resolution.
    pub claim_id: String,
    /// The ticket behind it.
    pub ticket_id: String,
    /// Billing period, `YYYY-MM`.
    pub period: String,
    /// `confirmed` or `assumed`, as the vendor classified it.
    pub resolution_type: String,
    /// When the vendor says it was resolved, RFC 3339.
    pub resolved_at: String,
    /// True when the ticket returned to an open state inside the ruleset's window.
    pub reopened_within_window: bool,
    /// True when the same requester opened another ticket inside the ruleset's window.
    pub repeat_contact_window: bool,
    /// True when a human agent ever took the ticket.
    pub reached_human: bool,
    /// True when a refund, cancellation, chargeback or return followed inside the window.
    pub downstream_reversal: bool,
    /// Who was asking.
    pub requester_class: String,
    /// Public turns in the conversation.
    pub turn_count: u64,
    /// The vendor's own intent tag, or the empty string when it set none.
    pub scope_tag: String,
    /// Amount billed, micros of USD.
    pub amount_usd_micros: u64,
    /// Digest over every source record this claim was derived from.
    pub inputs_sha256: String,
    /// Version of the ruleset applied.
    pub ruleset_version: String,
    /// Digest of the ruleset applied.
    pub ruleset_sha256: String,
}

/// The mathematical content of a claim record.
pub struct ClaimView {
    pub claim_id: Seq<char>,
    pub ticket_id: Seq<char>,
    pub period: Seq<char>,
    pub resolution_type: Seq<char>,
    pub resolved_at: Seq<char>,
    pub reopened_within_window: bool,
    pub repeat_contact_window: bool,
    pub reached_human: bool,
    pub downstream_reversal: bool,
    pub requester_class: Seq<char>,
    pub turn_count: u64,
    pub scope_tag: Seq<char>,
    pub amount_usd_micros: u64,
    pub inputs_sha256: Seq<char>,
    pub ruleset_version: Seq<char>,
    pub ruleset_sha256: Seq<char>,
}

impl View for ClaimRecord {
    type V = ClaimView;

    open spec fn view(&self) -> ClaimView {
        ClaimView {
            claim_id: self.claim_id@,
            ticket_id: self.ticket_id@,
            period: self.period@,
            resolution_type: self.resolution_type@,
            resolved_at: self.resolved_at@,
            reopened_within_window: self.reopened_within_window,
            repeat_contact_window: self.repeat_contact_window,
            reached_human: self.reached_human,
            downstream_reversal: self.downstream_reversal,
            requester_class: self.requester_class@,
            turn_count: self.turn_count,
            scope_tag: self.scope_tag@,
            amount_usd_micros: self.amount_usd_micros,
            inputs_sha256: self.inputs_sha256@,
            ruleset_version: self.ruleset_version@,
            ruleset_sha256: self.ruleset_sha256@,
        }
    }
}

/// No criterion in the ruleset is violated by `r`.
pub open spec fn passes(r: ClaimView, min_turns: u64, max_turns: u64, scope_ok: bool) -> bool {
    &&& !r.reopened_within_window
    &&& !r.repeat_contact_window
    &&& !r.reached_human
    &&& !r.downstream_reversal
    &&& r.requester_class == "customer"@
    &&& r.turn_count >= min_turns
    &&& r.turn_count <= max_turns
    &&& scope_ok
}

impl ClaimRecord {
    /// True when no criterion in the ruleset is violated. Advisory only, for local reporting.
    pub fn passes_locally(&self, min_turns: u64, max_turns: u64, scope_ok: bool) -> (b: bool)
        ensures
            b == passes(self@, min_turns, max_turns, scope_ok),
    {
        !self.reopened_within_window && !self.repeat_contact_window && !self.reached_human
            && !self.downstream_reversal && crate::text::str_eq(
            self.requester_class.as_str(),
            RequesterClass::Customer.as_str(),
        ) && self.turn_count >= min_turns && self.turn_count <= max_turns && scope_ok
    }
}

/// What normalisation concluded about one billed claim.
#[derive(Clone, Debug)]
pub enum Outcome {
    /// A claim record ready for adjudication.
    Claim(Box<ClaimRecord>),
    /// The windows have not closed yet, so the claim cannot be judged without pre-judging it.
    Deferred {
        /// The vendor's claim id.
        claim_id: String,
        /// The earliest time this claim can be adjudicated, RFC 3339.
        adjudicable_at: String,
    },
    /// The billed ticket id is not in the supplied helpdesk export.
    Unmatched {
        /// The vendor's claim id.
        claim_id: String,
        /// The ticket the vendor named.
        ticket_id: String,
        /// Why it could not be matched.
        reason: String,
        /// What the vendor billed for it.
        amount_usd_micros: u64,
    },
}

/// The mathematical content of an outcome.
pub enum OutcomeView {
    Claim(ClaimView),
    Deferred { claim_id: Seq<char>, adjudicable_at: Seq<char> },
    Unmatched { claim_id: Seq<char>, ticket_id: Seq<char>, reason: Seq<char>, amount_usd_micros: u64 },
}

impl View for Outcome {
    type V = OutcomeView;

    open spec fn view(&self) -> OutcomeView {
        match self {
            Outcome::Claim(r) => OutcomeView::Claim(r@),
            Outcome::Deferred { claim_id, adjudicable_at } => OutcomeView::Deferred {
                claim_id: claim_id@,
                adjudicable_at: adjudicable_at@,
            },
            Outcome::Unmatched { claim_id, ticket_id, reason, amount_usd_micros } =>
                OutcomeView::Unmatched {
                claim_id: claim_id@,
                ticket_id: ticket_id@,
                reason: reason@,
                amount_usd_micros: *amount_usd_micros,
            },
        }
    }
}

/// Counts for the period, for the evidence pack's first page.
#[derive(Clone, Debug)]
pub struct Summary {
    /// Claims the vendor billed.
    pub billed: u64,
    /// Claims that failed no criterion locally (serialised as `unflagged`).
    pub verified: u64,
    /// Claims that failed at least one criterion.
    pub exceptions: u64,
    /// Claims whose windows have not closed.
    pub deferred: u64,
    /// Claims with no matching ticket.
    pub unmatched: u64,
    /// Amount billed, micros of USD.
    pub billed_usd_micros: u64,
    /// Amount attached to exceptions and unmatched claims, micros of USD.
    pub at_stake_usd_micros: u64,
    /// Exception counts by criterion, by criterion name in ascending order, each name once.
    pub by_reason: Vec<(String, u64)>,
}

impl Default for Summary {
    fn default() -> (s: Self)
        ensures
            s.billed == 0,
            s.verified == 0,
            s.exceptions == 0,
            s.deferred == 0,
            s.unmatched == 0,
            s.billed_usd_micros == 0,
            s.at_stake_usd_micros == 0,
            s.by_reason@.len() == 0,
    {
        Summary {
            billed: 0,
            verified: 0,
            exceptions: 0,
            deferred: 0,
            unmatched: 0,
            billed_usd_micros: 0,
            at_stake_usd_micros: 0,
            by_reason: Vec::new(),
        }
    }
}

/// Dollars and cents of an amount in micros: whole dollars, a point, and two digits of cents
/// (truncated, not rounded).
pub open spec fn usd_text(micros: u64) -> Seq<char> {
    let dollars = micros / 1_000_000;
    let cents = (micros % 1_000_000) / 10_000;
    decimal(dollars as nat) + seq!['.', digit_char((cents / 10) as int), digit_char(
        (cents % 10) as int,
    )]
}

/// Format micros of USD as a plain decimal string, without floating point.
pub fn usd(micros: u64) -> (s: String)
    ensures
        s@ == usd_text(micros),
{
    let dollars = micros / 1_000_000;
    let cents = (micros % 1_000_000) / 10_000;
    let mut out = String::new();
    push_decimal(&mut out, dollars);
    crate::text::push_char(&mut out, '.');
    crate::text::push_char(&mut out, digit(cents / 10));
    crate::text::push_char(&mut out, digit(cents % 10));
    assert(out@ =~= usd_text(micros));
    out
}

/// The instant an RFC 3339 text denotes, or `None` when chrono does not parse it.
pub uninterp spec fn rfc3339_instant(text: Seq<char>) -> Option<Timestamp>;

/// Parse an RFC 3339 timestamp, returning `None` rather than panicking.
///
/// Trusted: calls chrono's `DateTime::parse_from_rfc3339` and keeps the instant (its UTC
/// timestamp and sub-second nanoseconds). The contract names the result and says that a parsed
/// instant lies in chrono's representable range.
#[verifier::external_body]
pub fn parse_time(value: &str) -> (r: Option<Timestamp>)
    ensures
        r == rfc3339_instant(value@),
        r matches Some(t) ==> t.is_valid(),
{
    match chrono::DateTime::parse_from_rfc3339(value) {
        Ok(t) => Some(Timestamp { secs: t.timestamp(), nanos: t.timestamp_subsec_nanos() }),
        Err(_) => None,
    }
}

} // verus!
