//! Properties of the library as a whole, proved over the specifications its functions meet.
use vstd::prelude::*;
use crate::model::{passes, ClaimView, Outcome, OutcomeView, Summary};
use crate::normalise::{
    adjudicable_at, at_stake_amount, expected_record, first_prefixed_from, intent, last_ticket, user_of, billed_amount, billed_pred, capped, count_where,
    criterion_fails, deferred_pred, exception_pred, expected_outcome, failed_name, failed_names,
    reason_entry, reason_name, reason_pred, reason_table, scope_flags, string_views, sum_of,
    summarises,
    table_view, unflagged_pred, unmatched_pred,
};
use crate::ruleset::{published_manifest, regex_compile_error, regex_is_match};
use crate::criteria::{
    artifact_fields, criteria_of, criterion_holds, field_value, kind_of, required_fields, JsonScalar,
};
use crate::ruleset::Ruleset;
use crate::text::{decimal, digit_char, has_prefix, signed_decimal};
use crate::json::{json_bool, json_string, json_string_array};
use crate::canonical::{
    downstream_texts, inputs_text, insert_pos, time_order, user_relevant, user_text, user_texts,
};
use crate::source::{BilledClaim, DownstreamEvent, EventKind, SourceBundle, Ticket, TicketEvent, User};
use crate::time::Timestamp;
use vstd::seq_lib::lemma_concat_associative;
use crate::readback::{
    lemma_bool_plain, lemma_decimal_plain, lemma_prefix_cancel, lemma_separator_cut,
    lemma_signed_decimal_plain, lemma_string_array_cut, lemma_string_cut,
};

verus! {

/// Claim records among the outcomes.
pub open spec fn claim_pred(os: Seq<Outcome>) -> spec_fn(int) -> bool {
    |i: int| os[i]@ is Claim
}

/// Every position counts.
pub open spec fn every_pred() -> spec_fn(int) -> bool {
    |i: int| true
}

/// What an unmatched claim puts at stake.
pub open spec fn unmatched_amount(os: Seq<Outcome>) -> spec_fn(int) -> nat {
    |i: int|
        match os[i]@ {
            OutcomeView::Unmatched { amount_usd_micros, .. } => amount_usd_micros as nat,
            _ => 0nat,
        }
}

/// The total the vendor billed over the first `n` claims.
pub open spec fn claims_total(claims: Seq<BilledClaim>, n: nat) -> nat
    decreases n,
{
    if n == 0 {
        0
    } else {
        claims_total(claims, (n - 1) as nat) + claims[n - 1].amount_usd_micros as nat
    }
}

/// Counting a disjoint union counts both parts.
proof fn lemma_count_union(n: nat, r: spec_fn(int) -> bool, p: spec_fn(int) -> bool, q: spec_fn(int) -> bool)
    requires
        forall|i: int| #![trigger r(i)] 0 <= i < n ==> (r(i) <==> (p(i) || q(i))) && !(p(i) && q(i)),
    ensures
        count_where(n, r) == count_where(n, p) + count_where(n, q),
    decreases n,
{
    if n > 0 {
        lemma_count_union((n - 1) as nat, r, p, q);
    }
}

/// Counting a predicate that always holds counts every position.
proof fn lemma_count_every(n: nat)
    ensures
        count_where(n, every_pred()) == n,
    decreases n,
{
    if n > 0 {
        lemma_count_every((n - 1) as nat);
    }
}

/// Sums are monotone in the summand.
proof fn lemma_sum_monotone(n: nat, f: spec_fn(int) -> nat, g: spec_fn(int) -> nat)
    requires
        forall|i: int| #![trigger f(i)] 0 <= i < n ==> f(i) <= g(i),
    ensures
        sum_of(n, f) <= sum_of(n, g),
    decreases n,
{
    if n > 0 {
        lemma_sum_monotone((n - 1) as nat, f, g);
    }
}

/// The billed sum of the outcomes is the billed sum of the claims they came from.
proof fn lemma_billed_is_claims_total(
    b: SourceBundle,
    rules: Ruleset,
    period: Seq<char>,
    evaluated_at: Timestamp,
    os: Seq<Outcome>,
    n: nat,
)
    requires
        n <= os.len(),
        os.len() == b.claims@.len(),
        forall|i: int|
            0 <= i < os.len() ==> #[trigger] os[i]@ == expected_outcome(
                b,
                rules,
                period,
                evaluated_at,
                b.claims@[i],
            ),
        forall|i: int| 0 <= i < os.len() ==> !(#[trigger] os[i]@ is Deferred),
    ensures
        sum_of(n, billed_amount(os)) == claims_total(b.claims@, n),
    decreases n,
{
    if n > 0 {
        lemma_billed_is_claims_total(b, rules, period, evaluated_at, os, (n - 1) as nat);
        let k = n - 1;
        assert(os[k]@ == expected_outcome(b, rules, period, evaluated_at, b.claims@[k]));
        assert(!(os[k]@ is Deferred));
        reveal(expected_record);
    }
}

/// The summary agrees with the outcomes it counts: claim records are either unflagged or
/// exceptions, the billed count is the claim records and the unmatched claims, and every
/// outcome is billed or deferred.
pub proof fn law_summary_counts_the_records(
    s: Summary,
    os: Seq<Outcome>,
    min: u64,
    max: u64,
    flags: Seq<bool>,
)
    requires
        summarises(s, os, min, max, flags),
    ensures
        s.verified + s.exceptions == count_where(os.len(), claim_pred(os)),
        s.billed == count_where(os.len(), claim_pred(os)) + s.unmatched,
        s.billed + s.deferred == os.len(),
{
    lemma_count_union(
        os.len(),
        claim_pred(os),
        unflagged_pred(os, min, max, flags),
        exception_pred(os, min, max, flags),
    );
    lemma_count_union(os.len(), billed_pred(os), claim_pred(os), unmatched_pred(os));
    lemma_count_union(os.len(), every_pred(), billed_pred(os), deferred_pred(os));
    lemma_count_every(os.len());
}

/// For a closed period (nothing deferred), the billed total is every claim the vendor billed,
/// unmatched claims included, and every unmatched claim's amount is at stake.
pub proof fn law_billed_total_is_every_billed_claim(
    b: SourceBundle,
    rules: Ruleset,
    period: Seq<char>,
    evaluated_at: Timestamp,
    os: Seq<Outcome>,
    s: Summary,
    min: u64,
    max: u64,
    flags: Seq<bool>,
)
    requires
        os.len() == b.claims@.len(),
        forall|i: int|
            0 <= i < os.len() ==> #[trigger] os[i]@ == expected_outcome(
                b,
                rules,
                period,
                evaluated_at,
                b.claims@[i],
            ),
        forall|i: int| 0 <= i < os.len() ==> !(#[trigger] os[i]@ is Deferred),
        summarises(s, os, min, max, flags),
    ensures
        s.billed_usd_micros == capped(claims_total(b.claims@, b.claims@.len())),
        s.at_stake_usd_micros >= capped(sum_of(os.len(), unmatched_amount(os))),
{
    lemma_billed_is_claims_total(b, rules, period, evaluated_at, os, os.len());
    assert forall|i: int| 0 <= i < os.len() implies #[trigger] unmatched_amount(os)(i)
        <= at_stake_amount(os, min, max, flags)(i) by {}
    lemma_sum_monotone(os.len(), unmatched_amount(os), at_stake_amount(os, min, max, flags));
}

/// The derivation is deterministic: two runs on the same bundle, ruleset, period and evaluation
/// time that each meet `normalise`'s contract give the same outcomes, field for field, so the
/// same records and digests.
pub proof fn law_same_inputs_give_identical_records(
    b: SourceBundle,
    rules: Ruleset,
    period: Seq<char>,
    evaluated_at: Timestamp,
    first: Seq<Outcome>,
    second: Seq<Outcome>,
)
    requires
        first.len() == b.claims@.len(),
        second.len() == b.claims@.len(),
        forall|i: int|
            0 <= i < first.len() ==> #[trigger] first[i]@ == expected_outcome(
                b,
                rules,
                period,
                evaluated_at,
                b.claims@[i],
            ),
        forall|i: int|
            0 <= i < second.len() ==> #[trigger] second[i]@ == expected_outcome(
                b,
                rules,
                period,
                evaluated_at,
                b.claims@[i],
            ),
    ensures
        first.len() == second.len(),
        forall|i: int| 0 <= i < first.len() ==> #[trigger] first[i]@ == second[i]@,
{
    assert forall|i: int| 0 <= i < first.len() implies #[trigger] first[i]@ == second[i]@ by {
        assert(second[i]@ == expected_outcome(b, rules, period, evaluated_at, b.claims@[i]));
    }
}

/// `evaluated_at` decides only which claims are deferred: two evaluation times that both judge
/// a claim give it the same outcome.
pub proof fn law_evaluation_time_only_defers(
    b: SourceBundle,
    rules: Ruleset,
    period: Seq<char>,
    first: Timestamp,
    second: Timestamp,
    claim: BilledClaim,
)
    requires
        !(expected_outcome(b, rules, period, first, claim) is Deferred),
        !(expected_outcome(b, rules, period, second, claim) is Deferred),
    ensures
        expected_outcome(b, rules, period, first, claim) == expected_outcome(
            b,
            rules,
            period,
            second,
            claim,
        ),
{
}

/// Any evaluation time at or after the moment every window of a claim has closed gives that
/// claim the same outcome, and it is not deferred.
pub proof fn law_closed_windows_reproduce(
    b: SourceBundle,
    rules: Ruleset,
    period: Seq<char>,
    first: Timestamp,
    second: Timestamp,
    claim: BilledClaim,
)
    requires
        adjudicable_at(claim, rules).not_after(first),
        adjudicable_at(claim, rules).not_after(second),
    ensures
        !(expected_outcome(b, rules, period, first, claim) is Deferred),
        expected_outcome(b, rules, period, first, claim) == expected_outcome(
            b,
            rules,
            period,
            second,
            claim,
        ),
{
}

/// A record passes locally exactly when it fails no named criterion.
pub proof fn law_passes_iff_no_failed_reason(r: ClaimView, min: u64, max: u64, scope_ok: bool)
    ensures
        passes(r, min, max, scope_ok) <==> failed_names(r, min, max, scope_ok).len() == 0,
{
}

/// Event `x` comes before event `y` in the canonical order: earlier in time, or at the same
/// instant and earlier in the bundle.
pub open spec fn comes_before(events: Seq<TicketEvent>, x: usize, y: usize) -> bool {
    events[x as int].at.precedes(events[y as int].at) || (!events[y as int].at.precedes(
        events[x as int].at,
    ) && x < y)
}

/// Where `insert_pos` puts an event: after every event not later than it, before the first one
/// that is later.
proof fn lemma_insert_pos_bounds(events: Seq<TicketEvent>, order: Seq<usize>, t: Timestamp)
    ensures
        0 <= insert_pos(events, order, t) <= order.len(),
        forall|j: int|
            0 <= j < insert_pos(events, order, t) ==> !t.precedes(
                #[trigger] events[order[j] as int].at,
            ),
        insert_pos(events, order, t) < order.len() ==> t.precedes(
            events[order[insert_pos(events, order, t)] as int].at,
        ),
    decreases order.len(),
{
    if order.len() > 0 && !t.precedes(events[order[0] as int].at) {
        let rest = order.drop_first();
        lemma_insert_pos_bounds(events, rest, t);
        assert forall|j: int| 0 <= j < insert_pos(events, order, t) implies !t.precedes(
            #[trigger] events[order[j] as int].at,
        ) by {
            if j > 0 {
                assert(order[j] == rest[j - 1]);
            }
        }
    }
}

/// The events of a ticket that the input digest covers are exactly that ticket's events, each
/// once, ordered by time with ties in bundle order: a stable sort by time.
pub proof fn law_events_ordered_by_time(events: Seq<TicketEvent>, id: Seq<char>, n: nat)
    requires
        n <= events.len(),
        events.len() <= usize::MAX,
    ensures
        forall|j: int|
            0 <= j < time_order(events, id, n).len() ==> #[trigger] time_order(events, id, n)[j] < n
                && events[time_order(events, id, n)[j] as int].ticket_id@ == id,
        forall|k: int|
            0 <= k < n && events[k].ticket_id@ == id ==> #[trigger] time_order(
                events,
                id,
                n,
            ).contains(k as usize),
        forall|a: int, b: int|
            #![trigger time_order(events, id, n)[a], time_order(events, id, n)[b]]
            0 <= a < b < time_order(events, id, n).len() ==> comes_before(
                events,
                time_order(events, id, n)[a],
                time_order(events, id, n)[b],
            ),
    decreases n,
{
    if n > 0 {
        let m = (n - 1) as nat;
        law_events_ordered_by_time(events, id, m);
        let prev = time_order(events, id, m);
        let k = n - 1;
        if events[k].ticket_id@ == id {
            let t = events[k].at;
            let pos = insert_pos(events, prev, t);
            lemma_insert_pos_bounds(events, prev, t);
            prev.insert_ensures(pos, k as usize);
            let cur = prev.insert(pos, k as usize);
            assert(cur == time_order(events, id, n));
            assert forall|j: int| 0 <= j < cur.len() implies #[trigger] cur[j] < n
                && events[cur[j] as int].ticket_id@ == id by {
                if j < pos {
                    assert(cur[j] == prev[j]);
                } else if j > pos {
                    let i = j - 1;
                    assert(cur[i + 1] == prev[i]);
                    assert(prev[i] < m);
                }
            }
            assert forall|q: int| 0 <= q < n && events[q].ticket_id@ == id implies #[trigger] cur.contains(
                q as usize,
            ) by {
                if q < m {
                    assert(prev.contains(q as usize));
                    let w = choose|w: int| 0 <= w < prev.len() && prev[w] == q as usize;
                    if w < pos {
                        assert(cur[w] == q as usize);
                    } else {
                        assert(cur[w + 1] == prev[w]);
                        assert(cur[w + 1] == q as usize);
                    }
                } else {
                    assert(cur[pos] == q as usize);
                }
            }
            assert forall|a: int, b: int| 0 <= a < b < cur.len() implies comes_before(
                events,
                #[trigger] cur[a],
                #[trigger] cur[b],
            ) by {
                if b < pos {
                    assert(cur[a] == prev[a] && cur[b] == prev[b]);
                } else if b == pos {
                    assert(cur[a] == prev[a]);
                    assert(!t.precedes(events[prev[a] as int].at));
                } else if a < pos {
                    let bi = b - 1;
                    assert(cur[bi + 1] == prev[bi]);
                    assert(cur[a] == prev[a]);
                    assert(comes_before(events, prev[a], prev[bi]));
                } else if a == pos {
                    let bi = b - 1;
                    assert(cur[bi + 1] == prev[bi]);
                    assert(t.precedes(events[prev[pos] as int].at));
                    assert(prev[bi] < m);
                    if bi > pos {
                        assert(comes_before(events, prev[pos], prev[bi]));
                    }
                } else {
                    let ai = a - 1;
                    let bi = b - 1;
                    assert(cur[ai + 1] == prev[ai]);
                    assert(cur[bi + 1] == prev[bi]);
                    assert(comes_before(events, prev[ai], prev[bi]));
                }
            }
        }
    }
}

/// Decimal notation is never empty, starts with a digit, and has one digit for numbers below
/// ten and more than one otherwise.
proof fn lemma_decimal_shape(n: nat)
    ensures
        decimal(n).len() >= 1,
        n < 10 <==> decimal(n).len() == 1,
        48 <= decimal(n)[0] as u32 <= 57,
    decreases n,
{
    if n >= 10 {
        lemma_decimal_shape(n / 10);
        assert(decimal(n)[0] == decimal(n / 10)[0]);
    }
}

/// Distinct natural numbers have distinct decimal notations.
proof fn lemma_decimal_injective(a: nat, b: nat)
    requires
        decimal(a) == decimal(b),
    ensures
        a == b,
    decreases a,
{
    lemma_decimal_shape(a);
    lemma_decimal_shape(b);
    if a < 10 {
        assert(decimal(a)[0] == digit_char(a as int));
        assert(decimal(b)[0] == digit_char(b as int));
        assert(digit_char(a as int) as u32 == 48 + a);
        assert(digit_char(b as int) as u32 == 48 + b);
    } else {
        let da = decimal(a);
        let db = decimal(b);
        assert(da.drop_last() =~= decimal(a / 10));
        assert(db.drop_last() =~= decimal(b / 10));
        lemma_decimal_injective(a / 10, b / 10);
        assert(da.last() == digit_char((a % 10) as int));
        assert(db.last() == digit_char((b % 10) as int));
        assert(digit_char((a % 10) as int) as u32 == 48 + a % 10);
        assert(digit_char((b % 10) as int) as u32 == 48 + b % 10);
    }
}

/// Distinct integers have distinct signed decimal notations.
proof fn lemma_signed_decimal_injective(a: int, b: int)
    requires
        signed_decimal(a) == signed_decimal(b),
    ensures
        a == b,
{
    if a < 0 && b < 0 {
        assert(signed_decimal(a).drop_first() =~= decimal((-a) as nat));
        assert(signed_decimal(b).drop_first() =~= decimal((-b) as nat));
        lemma_decimal_injective((-a) as nat, (-b) as nat);
    } else if a >= 0 && b >= 0 {
        lemma_decimal_injective(a as nat, b as nat);
    } else if a < 0 {
        lemma_decimal_shape(b as nat);
        assert(signed_decimal(a)[0] == '-');
    } else {
        lemma_decimal_shape(a as nat);
        assert(signed_decimal(b)[0] == '-');
    }
}

/// The canonical form of a ruleset, cut around its reopen window.
pub open spec fn before_reopen_window(r: Ruleset) -> Seq<char> {
    "{\"version\":"@ + json_string(r.version@) + ",\"reopen_window_days\":"@
}

/// The part of the canonical form after the reopen window.
pub open spec fn after_reopen_window(r: Ruleset) -> Seq<char> {
    ",\"repeat_contact_window_days\":"@ + signed_decimal(r.repeat_contact_window_days as int)
        + ",\"downstream_window_days\":"@ + signed_decimal(r.downstream_window_days as int)
        + ",\"require_intent_match\":"@ + json_bool(r.require_intent_match)
        + ",\"intent_tag_prefix\":"@ + json_string(r.intent_tag_prefix@)
        + ",\"scope_tag_pattern\":"@ + json_string(r.scope_tag_pattern@)
        + ",\"staff_domains\":"@ + json_string_array(r.staff_domains@)
        + ",\"test_account_markers\":"@ + json_string_array(r.test_account_markers@)
        + ",\"bot_user_ids\":"@ + json_string_array(r.bot_user_ids@) + ",\"min_turns\":"@
        + decimal(r.min_turns as nat) + ",\"max_turns\":"@ + decimal(r.max_turns as nat)
        + "}"@
}

/// The ruleset `r` with its reopen window set to `days`.
pub open spec fn with_reopen_window(r: Ruleset, days: i64) -> Ruleset {
    Ruleset { reopen_window_days: days, ..r }
}

/// Changing a ruleset's reopen window, and nothing else, changes its canonical form, the text
/// that its digest is taken over.
#[verifier::rlimit(100)]
pub proof fn law_reopen_window_changes_canonical_form(r: Ruleset, days: i64)
    requires
        days != r.reopen_window_days,
    ensures
        r.canonical_text() != with_reopen_window(r, days).canonical_text(),
{
    let s = with_reopen_window(r, days);
    let p = before_reopen_window(r);
    let x = signed_decimal(r.reopen_window_days as int);
    let y = signed_decimal(days as int);
    let q = after_reopen_window(r);
    assert(p == before_reopen_window(s));
    assert(q == after_reopen_window(s));
    if r.canonical_text() == s.canonical_text() {
        assert(r.canonical_text().len() == p.len() + x.len() + q.len());
        assert(s.canonical_text().len() == p.len() + y.len() + q.len());
        assert forall|j: int| 0 <= j < x.len() implies x[j] == y[j] by {
            assert(r.canonical_text()[p.len() + j] == x[j]);
            assert(s.canonical_text()[p.len() + j] == y[j]);
        }
        assert(x =~= y);
        lemma_signed_decimal_injective(r.reopen_window_days as int, days as int);
    }
}

/// `a` comes strictly before `b` in lexicographic order of characters.
pub open spec fn lex_less(a: Seq<char>, b: Seq<char>) -> bool
    decreases a.len(),
{
    if a.len() == 0 {
        b.len() > 0
    } else if b.len() == 0 {
        false
    } else if a[0] != b[0] {
        (a[0] as u32) < (b[0] as u32)
    } else {
        lex_less(a.drop_first(), b.drop_first())
    }
}

/// Strictly ascending in lexicographic order, hence without repetitions.
pub open spec fn ascending(s: Seq<Seq<char>>) -> bool {
    forall|i: int, j: int| #![trigger s[i], s[j]] 0 <= i < j < s.len() ==> lex_less(s[i], s[j])
}

/// The criterion names are in strictly ascending order.
proof fn lemma_reason_names_ascending(a: int, b: int)
    requires
        0 <= a < b <= 6,
    ensures
        lex_less(reason_name(a), reason_name(b)),
{
    reveal_strlit("downstream_reversal");
    reveal_strlit("reached_human");
    reveal_strlit("reopened_within_window");
    reveal_strlit("repeat_contact_window");
    reveal_strlit("requester_not_customer");
    reveal_strlit("scope_tag_invalid");
    reveal_strlit("turn_count_out_of_range");
    reveal_with_fuel(lex_less, 4);
    let x = reason_name(a);
    let y = reason_name(b);
    if x[0] != y[0] {
        assert((x[0] as u32) < (y[0] as u32));
    } else {
        assert(x.drop_first()[0] == y.drop_first()[0]);
        assert(x.drop_first().drop_first()[0] != y.drop_first().drop_first()[0]);
    }
}

/// Appending a name that comes after every name so far keeps a sequence ascending.
proof fn lemma_ascending_push(s: Seq<Seq<char>>, x: Seq<char>)
    requires
        ascending(s),
        forall|i: int| 0 <= i < s.len() ==> lex_less(#[trigger] s[i], x),
    ensures
        ascending(s.push(x)),
{
    let t = s.push(x);
    assert forall|i: int, j: int| 0 <= i < j < t.len() implies lex_less(#[trigger] t[i], #[trigger] t[j]) by {
        assert(t[i] == s[i]);
        if j < s.len() {
            assert(t[j] == s[j]);
        }
    }
}

/// The names of the first `k` criteria that `r` fails.
pub open spec fn failed_prefix(r: ClaimView, min: u64, max: u64, scope_ok: bool, k: nat) -> Seq<Seq<char>>
    decreases k,
{
    if k == 0 {
        Seq::empty()
    } else {
        failed_prefix(r, min, max, scope_ok, (k - 1) as nat) + failed_name(
            r,
            min,
            max,
            scope_ok,
            k - 1,
        )
    }
}

/// The names of the first `k` failed criteria ascend, and each comes before the name of every
/// later criterion.
proof fn lemma_failed_prefix_ascending(r: ClaimView, min: u64, max: u64, scope_ok: bool, k: nat)
    requires
        k <= 7,
    ensures
        ascending(failed_prefix(r, min, max, scope_ok, k)),
        forall|i: int, j: int|
            0 <= i < failed_prefix(r, min, max, scope_ok, k).len() && k <= j <= 6 ==> lex_less(
                #[trigger] failed_prefix(r, min, max, scope_ok, k)[i],
                #[trigger] reason_name(j),
            ),
    decreases k,
{
    if k > 0 {
        let m = (k - 1) as nat;
        lemma_failed_prefix_ascending(r, min, max, scope_ok, m);
        let s = failed_prefix(r, min, max, scope_ok, m);
        let t = failed_prefix(r, min, max, scope_ok, k);
        if criterion_fails(r, min, max, scope_ok, m as int) {
            let x = reason_name(m as int);
            assert forall|i: int| 0 <= i < s.len() implies lex_less(#[trigger] s[i], x) by {
                assert(lex_less(failed_prefix(r, min, max, scope_ok, m)[i], reason_name(m as int)));
            }
            lemma_ascending_push(s, x);
            assert(t =~= s.push(x));
            assert forall|i: int, j: int| 0 <= i < t.len() && k <= j <= 6 implies lex_less(
                #[trigger] t[i],
                #[trigger] reason_name(j),
            ) by {
                if i < s.len() {
                    assert(t[i] == s[i]);
                    assert(lex_less(failed_prefix(r, min, max, scope_ok, m)[i], reason_name(j)));
                } else {
                    assert(t[i] == x);
                    lemma_reason_names_ascending(m as int, j);
                }
            }
        } else {
            assert(t =~= s);
            assert forall|i: int, j: int| 0 <= i < t.len() && k <= j <= 6 implies lex_less(
                #[trigger] t[i],
                #[trigger] reason_name(j),
            ) by {
                assert(lex_less(failed_prefix(r, min, max, scope_ok, m)[i], reason_name(j)));
            }
        }
    }
}

/// The criteria a record fails are named in strictly ascending order, each once, as a sorted
/// set would hold them.
pub proof fn law_failed_reasons_ascending(r: ClaimView, min: u64, max: u64, scope_ok: bool)
    ensures
        ascending(failed_names(r, min, max, scope_ok)),
{
    lemma_failed_prefix_ascending(r, min, max, scope_ok, 7);
    reveal_with_fuel(failed_prefix, 8);
    assert(failed_prefix(r, min, max, scope_ok, 7) =~= failed_names(r, min, max, scope_ok));
}

/// A downstream event concerns `requester`.
pub open spec fn of_requester(requester: Seq<char>) -> spec_fn(DownstreamEvent) -> bool {
    |d: DownstreamEvent| d.requester_id@ == requester
}

/// The downstream events of one requester.
pub open spec fn downstream_of(ds: Seq<DownstreamEvent>, requester: Seq<char>) -> Seq<DownstreamEvent> {
    ds.filter(of_requester(requester))
}

/// Dropping the downstream events of other requesters leaves their texts unchanged.
proof fn lemma_downstream_texts_filter(ds: Seq<DownstreamEvent>, requester: Seq<char>)
    ensures
        downstream_texts(ds, requester) == downstream_texts(downstream_of(ds, requester), requester),
    decreases ds.len(),
{
    reveal(Seq::filter);
    if ds.len() > 0 {
        lemma_downstream_texts_filter(ds.drop_last(), requester);
        let rest = downstream_of(ds.drop_last(), requester);
        assert(ds.filter(of_requester(requester)) == if of_requester(requester)(ds.last()) {
            ds.drop_last().filter(of_requester(requester)).push(ds.last())
        } else {
            ds.drop_last().filter(of_requester(requester))
        });
        if ds.last().requester_id@ == requester {
            assert(downstream_of(ds, requester) == rest.push(ds.last()));
            assert(rest.push(ds.last()).drop_last() =~= rest);
        } else {
            assert(downstream_of(ds, requester) == rest);
        }
    }
}

/// The input digest of a claim covers only the downstream events of the ticket's requester:
/// two downstream lists with the same events of that requester, in the same order, give the
/// same canonical inputs text, whatever events of other requesters either holds.
pub proof fn law_inputs_ignore_other_requesters(
    claim: BilledClaim,
    ticket: Ticket,
    events: Seq<TicketEvent>,
    order: Seq<usize>,
    first: Seq<DownstreamEvent>,
    second: Seq<DownstreamEvent>,
    users: Seq<User>,
)
    requires
        downstream_of(first, ticket.requester_id@) == downstream_of(second, ticket.requester_id@),
    ensures
        inputs_text(claim, ticket, events, order, first, users) == inputs_text(
            claim,
            ticket,
            events,
            order,
            second,
            users,
        ),
{
    lemma_downstream_texts_filter(first, ticket.requester_id@);
    lemma_downstream_texts_filter(second, ticket.requester_id@);
}

/// The input digest of a claim covers every directory record its derivation reads: that of the
/// requester, and that of every user an event of the ticket names. Each such record's text is
/// among the users the inputs text lists.
pub proof fn law_inputs_cover_directory_records(
    users: Seq<User>,
    requester: Seq<char>,
    events: Seq<TicketEvent>,
    ticket_id: Seq<char>,
    i: int,
)
    requires
        0 <= i < users.len(),
        user_relevant(users[i], requester, events, ticket_id),
    ensures
        user_texts(users, requester, events, ticket_id).contains(user_text(users[i])),
    decreases users.len(),
{
    let rest = user_texts(users.drop_last(), requester, events, ticket_id);
    if i == users.len() - 1 {
        assert(user_texts(users, requester, events, ticket_id) == rest.push(user_text(users[i])));
        assert(rest.push(user_text(users[i]))[rest.len() as int] == user_text(users[i]));
    } else {
        assert(users.drop_last()[i] == users[i]);
        law_inputs_cover_directory_records(users.drop_last(), requester, events, ticket_id, i);
        let k = choose|k: int| 0 <= k < rest.len() && rest[k] == user_text(users[i]);
        if user_relevant(users.last(), requester, events, ticket_id) {
            assert(rest.push(user_text(users.last()))[k] == user_text(users[i]));
        }
    }
}

// ---------------------------------------------------------------------------------------------
// The summary of a split input.
// ---------------------------------------------------------------------------------------------

/// The count a per-criterion table records for `name`: that of its first entry with the name,
/// zero when it has none.
pub open spec fn reason_count(t: Seq<(Seq<char>, u64)>, name: Seq<char>) -> nat
    decreases t.len(),
{
    if t.len() == 0 {
        0
    } else if t[0].0 == name {
        t[0].1 as nat
    } else {
        reason_count(t.drop_first(), name)
    }
}

/// No entry of `t` is named `name`.
pub open spec fn lacks_name(t: Seq<(Seq<char>, u64)>, name: Seq<char>) -> bool {
    forall|i: int| 0 <= i < t.len() ==> #[trigger] t[i].0 != name
}

/// A table without `name` in front of another does not change what it records for `name`.
proof fn lemma_reason_count_skip(x: Seq<(Seq<char>, u64)>, y: Seq<(Seq<char>, u64)>, name: Seq<char>)
    requires
        lacks_name(x, name),
    ensures
        reason_count(x + y, name) == reason_count(y, name),
    decreases x.len(),
{
    if x.len() > 0 {
        assert((x + y)[0] == x[0]);
        assert((x + y).drop_first() =~= x.drop_first() + y);
        assert(lacks_name(x.drop_first(), name)) by {
            assert forall|i: int| 0 <= i < x.drop_first().len() implies #[trigger] x.drop_first()[i].0
                != name by {
                assert(x.drop_first()[i] == x[i + 1]);
            }
        }
        lemma_reason_count_skip(x.drop_first(), y, name);
    }
}

/// A table without `name` records zero for it.
proof fn lemma_reason_count_absent(t: Seq<(Seq<char>, u64)>, name: Seq<char>)
    requires
        lacks_name(t, name),
    ensures
        reason_count(t, name) == 0,
{
    lemma_reason_count_skip(t, Seq::empty(), name);
    assert(t + Seq::<(Seq<char>, u64)>::empty() =~= t);
}

/// The criterion names are pairwise distinct.
proof fn lemma_reason_names_distinct(a: int, b: int)
    requires
        0 <= a < b <= 7,
    ensures
        reason_name(a) != reason_name(b),
{
    reveal_strlit("downstream_reversal");
    reveal_strlit("reached_human");
    reveal_strlit("reopened_within_window");
    reveal_strlit("repeat_contact_window");
    reveal_strlit("requester_not_customer");
    reveal_strlit("scope_tag_invalid");
    reveal_strlit("turn_count_out_of_range");
    reveal_strlit("unmatched_ticket");
    let x = reason_name(a);
    let y = reason_name(b);
    assert(x.len() != y.len() || x[0] != y[0] || x[2] != y[2]);
}

/// The entries for the criteria `lo` up to (not including) `hi`, in order.
pub open spec fn entries_between(os: Seq<Outcome>, min: u64, max: u64, flags: Seq<bool>, lo: int, hi: int) -> Seq<(Seq<char>, u64)>
    decreases hi - lo,
{
    if hi <= lo {
        Seq::empty()
    } else {
        entries_between(os, min, max, flags, lo, hi - 1) + reason_entry(os, min, max, flags, hi - 1)
    }
}

/// The entries between `lo` and `hi` are those between `lo` and `m`, then those between `m`
/// and `hi`.
proof fn lemma_entries_split(os: Seq<Outcome>, min: u64, max: u64, flags: Seq<bool>, lo: int, m: int, hi: int)
    requires
        lo <= m <= hi,
    ensures
        entries_between(os, min, max, flags, lo, hi) == entries_between(os, min, max, flags, lo, m)
            + entries_between(os, min, max, flags, m, hi),
    decreases hi - m,
{
    if hi == m {
        assert(entries_between(os, min, max, flags, lo, m) + Seq::<(Seq<char>, u64)>::empty()
            =~= entries_between(os, min, max, flags, lo, m));
    } else {
        lemma_entries_split(os, min, max, flags, lo, m, hi - 1);
        assert(entries_between(os, min, max, flags, lo, m) + entries_between(os, min, max, flags, m, hi)
            =~= entries_between(os, min, max, flags, lo, m) + entries_between(
            os,
            min,
            max,
            flags,
            m,
            hi - 1,
        ) + reason_entry(os, min, max, flags, hi - 1));
    }
}

/// The entries between `lo` and `hi` hold no name other than those of their criteria.
proof fn lemma_entries_lack(os: Seq<Outcome>, min: u64, max: u64, flags: Seq<bool>, lo: int, hi: int, name: Seq<char>)
    requires
        forall|j: int| lo <= j < hi ==> #[trigger] reason_name(j) != name,
    ensures
        lacks_name(entries_between(os, min, max, flags, lo, hi), name),
    decreases hi - lo,
{
    if lo < hi {
        lemma_entries_lack(os, min, max, flags, lo, hi - 1, name);
        let x = entries_between(os, min, max, flags, lo, hi - 1);
        let e = reason_entry(os, min, max, flags, hi - 1);
        assert(reason_name(hi - 1) != name);
        assert forall|i: int| 0 <= i < (x + e).len() implies #[trigger] (x + e)[i].0 != name by {
            if i >= x.len() {
                assert((x + e)[i] == e[i - x.len()]);
            }
        }
    }
}

/// The table is the entries of all eight criteria.
proof fn lemma_table_is_entries(os: Seq<Outcome>, min: u64, max: u64, flags: Seq<bool>)
    ensures
        reason_table(os, min, max, flags) == entries_between(os, min, max, flags, 0, 8),
{
    reveal_with_fuel(entries_between, 9);
    assert(Seq::<(Seq<char>, u64)>::empty() + reason_entry(os, min, max, flags, 0) =~= reason_entry(
        os,
        min,
        max,
        flags,
        0,
    ));
}

/// A count never exceeds the number of positions counted.
proof fn lemma_count_bound(n: nat, p: spec_fn(int) -> bool)
    ensures
        count_where(n, p) <= n,
    decreases n,
{
    if n > 0 {
        lemma_count_bound((n - 1) as nat, p);
    }
}

/// The table records, for each criterion, the number of outcomes counted against it, and
/// nothing for any other name.
proof fn lemma_table_counts(os: Seq<Outcome>, min: u64, max: u64, flags: Seq<bool>, name: Seq<char>)
    requires
        os.len() <= u64::MAX,
    ensures
        forall|k: int|
            0 <= k <= 7 && reason_name(k) == name ==> reason_count(reason_table(os, min, max, flags), name)
                == count_where(os.len(), #[trigger] reason_pred(os, min, max, flags, k)),
        (forall|k: int| 0 <= k <= 7 ==> #[trigger] reason_name(k) != name) ==> reason_count(
            reason_table(os, min, max, flags),
            name,
        ) == 0,
{
    lemma_table_is_entries(os, min, max, flags);
    if forall|k: int| 0 <= k <= 7 ==> #[trigger] reason_name(k) != name {
        lemma_entries_lack(os, min, max, flags, 0, 8, name);
        lemma_reason_count_absent(entries_between(os, min, max, flags, 0, 8), name);
    }
    assert forall|k: int|
        0 <= k <= 7 && reason_name(k) == name implies reason_count(reason_table(os, min, max, flags), name)
            == count_where(os.len(), #[trigger] reason_pred(os, min, max, flags, k)) by {
        assert forall|j: int| 0 <= j < k implies #[trigger] reason_name(j) != name by {
            lemma_reason_names_distinct(j, k);
        }
        assert forall|j: int| k + 1 <= j < 8 implies #[trigger] reason_name(j) != name by {
            lemma_reason_names_distinct(k, j);
        }
        lemma_entries_split(os, min, max, flags, 0, k, 8);
        lemma_entries_split(os, min, max, flags, k, k + 1, 8);
        reveal_with_fuel(entries_between, 2);
        let p = entries_between(os, min, max, flags, 0, k);
        let e = reason_entry(os, min, max, flags, k);
        let q = entries_between(os, min, max, flags, k + 1, 8);
        assert(entries_between(os, min, max, flags, k, k + 1) =~= e);
        lemma_entries_lack(os, min, max, flags, 0, k, name);
        lemma_entries_lack(os, min, max, flags, k + 1, 8, name);
        lemma_reason_count_skip(p, e + q, name);
        lemma_count_bound(os.len(), reason_pred(os, min, max, flags, k));
        if count_where(os.len(), reason_pred(os, min, max, flags, k)) > 0 {
            assert((e + q)[0] == e[0]);
        } else {
            assert(e + q =~= q);
            lemma_reason_count_absent(q, name);
        }
    }
}

/// Counting over two ranges laid end to end counts each.
proof fn lemma_count_split(n1: nat, n2: nat, p: spec_fn(int) -> bool, q: spec_fn(int) -> bool, r: spec_fn(int) -> bool)
    requires
        forall|i: int| #![trigger q(i)] 0 <= i < n1 ==> p(i) == q(i),
        forall|i: int| #![trigger r(i)] 0 <= i < n2 ==> p(n1 + i) == r(i),
    ensures
        count_where(n1 + n2, p) == count_where(n1, q) + count_where(n2, r),
    decreases n1 + n2,
{
    if n2 == 0 {
        if n1 > 0 {
            lemma_count_split((n1 - 1) as nat, 0, p, q, r);
        }
    } else {
        lemma_count_split(n1, (n2 - 1) as nat, p, q, r);
        assert(p(n1 + (n2 - 1)) == r(n2 - 1));
    }
}

/// Summing over two ranges laid end to end sums each.
proof fn lemma_sum_split(n1: nat, n2: nat, f: spec_fn(int) -> nat, g: spec_fn(int) -> nat, h: spec_fn(int) -> nat)
    requires
        forall|i: int| #![trigger g(i)] 0 <= i < n1 ==> f(i) == g(i),
        forall|i: int| #![trigger h(i)] 0 <= i < n2 ==> f(n1 + i) == h(i),
    ensures
        sum_of(n1 + n2, f) == sum_of(n1, g) + sum_of(n2, h),
    decreases n1 + n2,
{
    if n2 == 0 {
        if n1 > 0 {
            lemma_sum_split((n1 - 1) as nat, 0, f, g, h);
        }
    } else {
        lemma_sum_split(n1, (n2 - 1) as nat, f, g, h);
        assert(f(n1 + (n2 - 1)) == h(n2 - 1));
    }
}

/// Counting a property of single outcomes over two sequences laid end to end counts each.
proof fn lemma_count_concat(
    a: Seq<Outcome>,
    b: Seq<Outcome>,
    fa: Seq<bool>,
    fb: Seq<bool>,
    f: spec_fn(Outcome, bool) -> bool,
    p: spec_fn(int) -> bool,
    q: spec_fn(int) -> bool,
    r: spec_fn(int) -> bool,
)
    requires
        fa.len() == a.len(),
        fb.len() == b.len(),
        forall|i: int| #![trigger p(i)] 0 <= i < a.len() + b.len() ==> p(i) == f((a + b)[i], (fa + fb)[i]),
        forall|i: int| #![trigger q(i)] 0 <= i < a.len() ==> q(i) == f(a[i], fa[i]),
        forall|i: int| #![trigger r(i)] 0 <= i < b.len() ==> r(i) == f(b[i], fb[i]),
    ensures
        count_where((a + b).len(), p) == count_where(a.len(), q) + count_where(b.len(), r),
{
    assert forall|i: int| 0 <= i < a.len() implies p(i) == #[trigger] q(i) by {
        assert((a + b)[i] == a[i] && (fa + fb)[i] == fa[i]);
    }
    assert forall|i: int| 0 <= i < b.len() implies p(a.len() + i) == #[trigger] r(i) by {
        assert((a + b)[a.len() + i] == b[i] && (fa + fb)[a.len() + i] == fb[i]);
    }
    lemma_count_split(a.len(), b.len(), p, q, r);
}

/// Summing an amount of single outcomes over two sequences laid end to end sums each.
proof fn lemma_sum_concat(
    a: Seq<Outcome>,
    b: Seq<Outcome>,
    fa: Seq<bool>,
    fb: Seq<bool>,
    f: spec_fn(Outcome, bool) -> nat,
    p: spec_fn(int) -> nat,
    q: spec_fn(int) -> nat,
    r: spec_fn(int) -> nat,
)
    requires
        fa.len() == a.len(),
        fb.len() == b.len(),
        forall|i: int| #![trigger p(i)] 0 <= i < a.len() + b.len() ==> p(i) == f((a + b)[i], (fa + fb)[i]),
        forall|i: int| #![trigger q(i)] 0 <= i < a.len() ==> q(i) == f(a[i], fa[i]),
        forall|i: int| #![trigger r(i)] 0 <= i < b.len() ==> r(i) == f(b[i], fb[i]),
    ensures
        sum_of((a + b).len(), p) == sum_of(a.len(), q) + sum_of(b.len(), r),
{
    assert forall|i: int| 0 <= i < a.len() implies p(i) == #[trigger] q(i) by {
        assert((a + b)[i] == a[i] && (fa + fb)[i] == fa[i]);
    }
    assert forall|i: int| 0 <= i < b.len() implies p(a.len() + i) == #[trigger] r(i) by {
        assert((a + b)[a.len() + i] == b[i] && (fa + fb)[a.len() + i] == fb[i]);
    }
    lemma_sum_split(a.len(), b.len(), p, q, r);
}

/// Summarising the outcomes of two runs laid end to end gives, field by field, the sum of
/// their summaries: each count, each amount, and the count recorded for every criterion name.
/// It holds while no count or amount of the whole reaches the largest `u64`.
pub proof fn law_summary_adds_over_a_split(
    a: Seq<Outcome>,
    b: Seq<Outcome>,
    rules: Ruleset,
    s: Summary,
    sa: Summary,
    sb: Summary,
)
    requires
        summarises(s, a + b, rules.min_turns as u64, rules.max_turns as u64, scope_flags(a + b, rules)),
        summarises(sa, a, rules.min_turns as u64, rules.max_turns as u64, scope_flags(a, rules)),
        summarises(sb, b, rules.min_turns as u64, rules.max_turns as u64, scope_flags(b, rules)),
        (a + b).len() <= u64::MAX,
        sum_of((a + b).len(), billed_amount(a + b)) <= u64::MAX,
        sum_of(
            (a + b).len(),
            at_stake_amount(a + b, rules.min_turns as u64, rules.max_turns as u64, scope_flags(a + b, rules)),
        ) <= u64::MAX,
    ensures
        s.billed == sa.billed + sb.billed,
        s.verified == sa.verified + sb.verified,
        s.exceptions == sa.exceptions + sb.exceptions,
        s.deferred == sa.deferred + sb.deferred,
        s.unmatched == sa.unmatched + sb.unmatched,
        s.billed_usd_micros == sa.billed_usd_micros + sb.billed_usd_micros,
        s.at_stake_usd_micros == sa.at_stake_usd_micros + sb.at_stake_usd_micros,
        forall|name: Seq<char>|
            #[trigger] reason_count(table_view(s.by_reason@), name) == reason_count(
                table_view(sa.by_reason@),
                name,
            ) + reason_count(table_view(sb.by_reason@), name),
{
    let min = rules.min_turns as u64;
    let max = rules.max_turns as u64;
    let ab = a + b;
    let fa = scope_flags(a, rules);
    let fb = scope_flags(b, rules);
    assert(scope_flags(ab, rules) =~= fa + fb) by {
        assert forall|i: int| 0 <= i < ab.len() implies #[trigger] scope_flags(ab, rules)[i] == (fa
            + fb)[i] by {
            if i < a.len() {
                assert(ab[i] == a[i]);
            } else {
                assert(ab[i] == b[i - a.len()]);
            }
        }
    }
    let f = fa + fb;
    lemma_count_concat(
        a,
        b,
        fa,
        fb,
        |o: Outcome, ok: bool| o@ is Claim || o@ is Unmatched,
        billed_pred(ab),
        billed_pred(a),
        billed_pred(b),
    );
    lemma_count_concat(
        a,
        b,
        fa,
        fb,
        |o: Outcome, ok: bool| o@ matches OutcomeView::Claim(r) && passes(r, min, max, ok),
        unflagged_pred(ab, min, max, f),
        unflagged_pred(a, min, max, fa),
        unflagged_pred(b, min, max, fb),
    );
    lemma_count_concat(
        a,
        b,
        fa,
        fb,
        |o: Outcome, ok: bool| o@ matches OutcomeView::Claim(r) && !passes(r, min, max, ok),
        exception_pred(ab, min, max, f),
        exception_pred(a, min, max, fa),
        exception_pred(b, min, max, fb),
    );
    lemma_count_concat(
        a,
        b,
        fa,
        fb,
        |o: Outcome, ok: bool| o@ is Deferred,
        deferred_pred(ab),
        deferred_pred(a),
        deferred_pred(b),
    );
    lemma_count_concat(
        a,
        b,
        fa,
        fb,
        |o: Outcome, ok: bool| o@ is Unmatched,
        unmatched_pred(ab),
        unmatched_pred(a),
        unmatched_pred(b),
    );
    lemma_sum_concat(
        a,
        b,
        fa,
        fb,
        |o: Outcome, ok: bool|
            match o@ {
                OutcomeView::Claim(r) => r.amount_usd_micros as nat,
                OutcomeView::Unmatched { amount_usd_micros, .. } => amount_usd_micros as nat,
                OutcomeView::Deferred { .. } => 0nat,
            },
        billed_amount(ab),
        billed_amount(a),
        billed_amount(b),
    );
    lemma_sum_concat(
        a,
        b,
        fa,
        fb,
        |o: Outcome, ok: bool|
            match o@ {
                OutcomeView::Claim(r) => if passes(r, min, max, ok) {
                    0nat
                } else {
                    r.amount_usd_micros as nat
                },
                OutcomeView::Unmatched { amount_usd_micros, .. } => amount_usd_micros as nat,
                OutcomeView::Deferred { .. } => 0nat,
            },
        at_stake_amount(ab, min, max, f),
        at_stake_amount(a, min, max, fa),
        at_stake_amount(b, min, max, fb),
    );
    assert forall|k: int|
        0 <= k <= 7 implies count_where(ab.len(), #[trigger] reason_pred(ab, min, max, f, k))
        == count_where(a.len(), reason_pred(a, min, max, fa, k)) + count_where(
        b.len(),
        reason_pred(b, min, max, fb, k),
    ) by {
        lemma_count_concat(
            a,
            b,
            fa,
            fb,
            |o: Outcome, ok: bool|
                match o@ {
                    OutcomeView::Claim(r) => criterion_fails(r, min, max, ok, k),
                    OutcomeView::Unmatched { .. } => k == 7,
                    OutcomeView::Deferred { .. } => false,
                },
            reason_pred(ab, min, max, f, k),
            reason_pred(a, min, max, fa, k),
            reason_pred(b, min, max, fb, k),
        );
    }
    assert forall|name: Seq<char>|
        #[trigger] reason_count(table_view(s.by_reason@), name) == reason_count(
            table_view(sa.by_reason@),
            name,
        ) + reason_count(table_view(sb.by_reason@), name) by {
        lemma_table_counts(ab, min, max, f, name);
        lemma_table_counts(a, min, max, fa, name);
        lemma_table_counts(b, min, max, fb, name);
        if exists|k: int| 0 <= k <= 7 && #[trigger] reason_name(k) == name {
            let k = choose|k: int| 0 <= k <= 7 && #[trigger] reason_name(k) == name;
            assert(count_where(ab.len(), reason_pred(ab, min, max, f, k)) == count_where(
                a.len(),
                reason_pred(a, min, max, fa, k),
            ) + count_where(b.len(), reason_pred(b, min, max, fb, k)));
        }
    }
}

/// The summary of no outcomes is all zeros, with no per-criterion entries.
pub proof fn law_summary_of_nothing(rules: Ruleset, s: Summary)
    requires
        summarises(
            s,
            Seq::empty(),
            rules.min_turns as u64,
            rules.max_turns as u64,
            scope_flags(Seq::empty(), rules),
        ),
    ensures
        s.billed == 0 && s.verified == 0 && s.exceptions == 0 && s.deferred == 0 && s.unmatched
            == 0,
        s.billed_usd_micros == 0 && s.at_stake_usd_micros == 0,
        s.by_reason@.len() == 0,
{
    assert(table_view(s.by_reason@).len() == s.by_reason@.len());
}

/// The published manifest names each version once and each digest once.
pub proof fn law_published_versions_and_digests_unique()
    ensures
        forall|i: int, j: int|
            0 <= i < j < published_manifest().len() ==> #[trigger] published_manifest()[i].0
                != #[trigger] published_manifest()[j].0 && published_manifest()[i].1
                != published_manifest()[j].1,
{
}

// ---------------------------------------------------------------------------------------------
// The criteria, the schema and the artifact.
// ---------------------------------------------------------------------------------------------

/// The field at position `i` is the one its name finds, when no earlier field shares the name.
proof fn lemma_field_value_at(fields: Seq<(Seq<char>, JsonScalar)>, i: int)
    requires
        0 <= i < fields.len(),
        forall|j: int| 0 <= j < i ==> #[trigger] fields[j].0 != fields[i].0,
    ensures
        field_value(fields, fields[i].0) == Some(fields[i].1),
    decreases i,
{
    if i > 0 {
        let rest = fields.drop_first();
        assert(fields[0].0 != fields[i].0);
        assert(rest[i - 1] == fields[i]);
        assert forall|j: int| 0 <= j < i - 1 implies #[trigger] rest[j].0 != rest[i - 1].0 by {
            assert(rest[j] == fields[j + 1]);
        }
        lemma_field_value_at(rest, i - 1);
    }
}

/// Each field of the artifact is the one its name finds.
proof fn lemma_artifact_field(r: ClaimView, i: int)
    requires
        0 <= i < artifact_fields(r).len(),
    ensures
        field_value(artifact_fields(r), artifact_fields(r)[i].0) == Some(artifact_fields(r)[i].1),
{
    reveal_strlit("amount_usd_micros");
    reveal_strlit("claim_id");
    reveal_strlit("downstream_reversal");
    reveal_strlit("inputs_sha256");
    reveal_strlit("period");
    reveal_strlit("reached_human");
    reveal_strlit("reopened_within_window");
    reveal_strlit("repeat_contact_window");
    reveal_strlit("requester_class");
    reveal_strlit("resolution_type");
    reveal_strlit("resolved_at");
    reveal_strlit("ruleset_sha256");
    reveal_strlit("ruleset_version");
    reveal_strlit("scope_tag");
    reveal_strlit("ticket_id");
    reveal_strlit("turn_count");
    reveal_strlit("turn_marks");
    let fields = artifact_fields(r);
    assert forall|j: int| 0 <= j < i implies #[trigger] fields[j].0 != fields[i].0 by {
        let x = fields[j].0;
        let y = fields[i].0;
        assert(x.len() != y.len() || x[0] != y[0] || x[1] != y[1] || x[2] != y[2] || x[3] != y[3]
            || x[4] != y[4] || x[5] != y[5] || x[6] != y[6] || x[7] != y[7] || x[8] != y[8]
            || x[9] != y[9]);
    }
    lemma_field_value_at(fields, i);
}

/// Every criterion for a record holds on its artifact body, read as the Judge reads it,
/// exactly when the record passes locally under the rules' turn bounds, with its scope tag
/// matched by the rules' pattern (which must compile).
pub proof fn law_criteria_hold_exactly_when_the_record_passes(r: ClaimView, rules: Ruleset)
    ensures
        (forall|i: int|
            0 <= i < criteria_of(r, rules).len() ==> #[trigger] criterion_holds(
                criteria_of(r, rules)[i],
                artifact_fields(r),
            )) <==> passes(
            r,
            rules.min_turns as u64,
            rules.max_turns as u64,
            regex_compile_error(rules.scope_tag_pattern@) is None && regex_is_match(
                rules.scope_tag_pattern@,
                r.scope_tag,
            ),
        ),
{
    let fields = artifact_fields(r);
    let cs = criteria_of(r, rules);
    lemma_artifact_field(r, 2);
    lemma_artifact_field(r, 3);
    lemma_artifact_field(r, 5);
    lemma_artifact_field(r, 6);
    lemma_artifact_field(r, 7);
    lemma_artifact_field(r, 8);
    lemma_artifact_field(r, 11);
    lemma_artifact_field(r, 13);
    lemma_artifact_field(r, 16);
    assert(criterion_holds(cs[0], fields) <==> !r.reopened_within_window);
    assert(criterion_holds(cs[1], fields) <==> !r.repeat_contact_window);
    assert(criterion_holds(cs[2], fields) <==> !r.reached_human);
    assert(criterion_holds(cs[3], fields) <==> !r.downstream_reversal);
    assert(criterion_holds(cs[4], fields) <==> r.requester_class == "customer"@);
    assert(criterion_holds(cs[5], fields) <==> (regex_compile_error(rules.scope_tag_pattern@) is None
        && regex_is_match(rules.scope_tag_pattern@, r.scope_tag)));
    assert(criterion_holds(cs[6], fields) <==> (rules.min_turns <= r.turn_count
        && r.turn_count <= rules.max_turns));
    assert(criterion_holds(cs[7], fields));
    assert(criterion_holds(cs[8], fields));
}

/// The artifact body of every record carries each field the schema requires, with the kind
/// the schema names.
pub proof fn law_artifact_meets_the_schema(r: ClaimView)
    ensures
        forall|i: int|
            0 <= i < required_fields().len() ==> (field_value(
                artifact_fields(r),
                #[trigger] required_fields()[i].0,
            ) matches Some(v) && kind_of(v) == required_fields()[i].1),
{
    let fields = artifact_fields(r);
    assert forall|i: int| 0 <= i < required_fields().len() implies (field_value(
        fields,
        #[trigger] required_fields()[i].0,
    ) matches Some(v) && kind_of(v) == required_fields()[i].1) by {
        let j = if i == 0 {
            1int
        } else if i == 1 {
            4int
        } else if i == 2 {
            9int
        } else if i == 3 {
            6int
        } else if i == 4 {
            7int
        } else if i == 5 {
            5int
        } else if i == 6 {
            2int
        } else if i == 7 {
            8int
        } else if i == 8 {
            3int
        } else {
            11int
        };
        lemma_artifact_field(r, j);
        assert(required_fields()[i].0 == fields[j].0);
    }
}

/// Two rulesets with the same content, field for field, have the same canonical form and so
/// the same digest, however the documents they were read from were laid out.
pub proof fn law_equal_rulesets_have_equal_digests(first: Ruleset, second: Ruleset)
    requires
        first.version@ == second.version@,
        first.reopen_window_days == second.reopen_window_days,
        first.repeat_contact_window_days == second.repeat_contact_window_days,
        first.downstream_window_days == second.downstream_window_days,
        first.require_intent_match == second.require_intent_match,
        first.intent_tag_prefix@ == second.intent_tag_prefix@,
        first.scope_tag_pattern@ == second.scope_tag_pattern@,
        string_views(first.staff_domains@) == string_views(second.staff_domains@),
        string_views(first.test_account_markers@) == string_views(second.test_account_markers@),
        string_views(first.bot_user_ids@) == string_views(second.bot_user_ids@),
        first.min_turns == second.min_turns,
        first.max_turns == second.max_turns,
    ensures
        first.canonical_text() == second.canonical_text(),
        first.digest_text() == second.digest_text(),
{
    lemma_string_array_by_views(first.staff_domains@, second.staff_domains@);
    lemma_string_array_by_views(first.test_account_markers@, second.test_account_markers@);
    lemma_string_array_by_views(first.bot_user_ids@, second.bot_user_ids@);
}

/// A JSON array of strings depends only on the strings' views.
proof fn lemma_string_array_by_views(a: Seq<String>, b: Seq<String>)
    requires
        string_views(a) == string_views(b),
    ensures
        json_string_array(a) == json_string_array(b),
{
    assert(a.len() == string_views(a).len());
    assert(b.len() == string_views(b).len());
    assert forall|i: int| 0 <= i < a.len() implies a[i]@ == b[i]@ by {
        assert(string_views(a)[i] == string_views(b)[i]);
    }
    assert(Seq::new(a.len(), |i: int| json_string(a[i]@)) =~= Seq::new(
        b.len(),
        |i: int| json_string(b[i]@),
    ));
}

// ---------------------------------------------------------------------------------------------
// The flags of a claim record, in terms of the source records.
// ---------------------------------------------------------------------------------------------

/// A ticket's intent tag is its first tag that starts with the prefix: when there is one, it is
/// such a tag and no earlier tag has the prefix; when there is none, no tag has the prefix.
pub proof fn law_intent_is_the_first_prefixed_tag(t: Ticket, prefix: Seq<char>)
    ensures
        match intent(t, prefix) {
            Some(tag) => exists|i: int|
                0 <= i < t.tags@.len() && #[trigger] t.tags@[i]@ == tag && has_prefix(tag, prefix)
                    && forall|j: int| 0 <= j < i ==> !has_prefix(#[trigger] t.tags@[j]@, prefix),
            None => forall|i: int| 0 <= i < t.tags@.len() ==> !has_prefix(#[trigger] t.tags@[i]@, prefix),
        },
{
    lemma_first_prefixed(t.tags@, prefix, 0);
}

proof fn lemma_first_prefixed(tags: Seq<String>, prefix: Seq<char>, i: int)
    requires
        0 <= i <= tags.len(),
    ensures
        match first_prefixed_from(tags, prefix, i) {
            Some(k) => i <= k < tags.len() && has_prefix(tags[k]@, prefix) && forall|j: int|
                i <= j < k ==> !has_prefix(#[trigger] tags[j]@, prefix),
            None => forall|j: int| i <= j < tags.len() ==> !has_prefix(#[trigger] tags[j]@, prefix),
        },
    decreases tags.len() - i,
{
    if i < tags.len() && !has_prefix(tags[i]@, prefix) {
        lemma_first_prefixed(tags, prefix, i + 1);
    }
}

/// The claim record of a claim that is judged is the one derived from its ticket.
pub(crate) proof fn lemma_record_of(
    b: SourceBundle,
    rules: Ruleset,
    period: Seq<char>,
    evaluated_at: Timestamp,
    claim: BilledClaim,
    rec: ClaimView,
) -> (k: int)
    requires
        expected_outcome(b, rules, period, evaluated_at, claim) == OutcomeView::Claim(rec),
    ensures
        last_ticket(b.tickets@, claim.ticket_id@) == Some(k),
        rec == expected_record(b, rules, period, claim, b.tickets@[k]),
{
    last_ticket(b.tickets@, claim.ticket_id@)->0
}

/// A claim record's `reopened_within_window` is true exactly when an event of the claim's
/// ticket moved its status to `open`, `pending` or `hold` strictly after the resolution and no
/// later than the reopen window after it.
pub proof fn law_reopened_means_back_to_open_pending_or_hold(
    b: SourceBundle,
    rules: Ruleset,
    period: Seq<char>,
    evaluated_at: Timestamp,
    claim: BilledClaim,
    rec: ClaimView,
)
    requires
        expected_outcome(b, rules, period, evaluated_at, claim) == OutcomeView::Claim(rec),
    ensures
        rec.reopened_within_window <==> exists|e: int|
            #![trigger b.events@[e]]
            0 <= e < b.events@.len() && b.events@[e].ticket_id@ == claim.ticket_id@ && (
            b.events@[e].kind matches EventKind::StatusChanged { to } && (to@ == "open"@ || to@
                == "pending"@ || to@ == "hold"@)) && claim.resolved_at.precedes(b.events@[e].at)
                && b.events@[e].at.not_after(
                claim.resolved_at.days_later(rules.reopen_window_days as int),
            ),
{
    let k = lemma_record_of(b, rules, period, evaluated_at, claim, rec);
    assert(rec.reopened_within_window == crate::normalise::reopened(
        b.events@,
        claim.ticket_id@,
        claim.resolved_at,
        rules.reopen_window_days as int,
    )) by {
        reveal(expected_record);
    }
    let id = claim.ticket_id@;
    let resolved = claim.resolved_at;
    let days = rules.reopen_window_days as int;
    if rec.reopened_within_window {
        let e = choose|e: int|
            0 <= e < b.events@.len() && b.events@[e].ticket_id@ == id
                && #[trigger] crate::normalise::reopens(b.events@[e], resolved, days);
        assert(b.events@[e].ticket_id@ == id);
    }
    if exists|e: int|
        #![trigger b.events@[e]]
        0 <= e < b.events@.len() && b.events@[e].ticket_id@ == id && (
        b.events@[e].kind matches EventKind::StatusChanged { to } && (to@ == "open"@ || to@
            == "pending"@ || to@ == "hold"@)) && resolved.precedes(b.events@[e].at)
            && b.events@[e].at.not_after(resolved.days_later(days)) {
        let e = choose|e: int|
            #![trigger b.events@[e]]
            0 <= e < b.events@.len() && b.events@[e].ticket_id@ == id && (
            b.events@[e].kind matches EventKind::StatusChanged { to } && (to@ == "open"@ || to@
                == "pending"@ || to@ == "hold"@)) && resolved.precedes(b.events@[e].at)
                && b.events@[e].at.not_after(resolved.days_later(days));
        assert(crate::normalise::reopens(b.events@[e], resolved, days));
    }
}

/// A claim record's `reached_human` is true exactly when, at any time, an event of the claim's
/// ticket assigned it to, or carried a public comment by, a user who is not one of the agent's
/// own ids and whose directory entry has the role `agent` or `admin`.
pub proof fn law_reached_human_means_staff_assigned_or_commented(
    b: SourceBundle,
    rules: Ruleset,
    period: Seq<char>,
    evaluated_at: Timestamp,
    claim: BilledClaim,
    rec: ClaimView,
)
    requires
        expected_outcome(b, rules, period, evaluated_at, claim) == OutcomeView::Claim(rec),
    ensures
        rec.reached_human <==> exists|e: int, id: Seq<char>|
            #![trigger b.events@[e], user_of(b.users@, id)]
            0 <= e < b.events@.len() && b.events@[e].ticket_id@ == claim.ticket_id@ && ((
            b.events@[e].kind matches EventKind::AssigneeChanged { to_user_id } && (to_user_id matches Some(
                u,
            ) && u@ == id)) || (b.events@[e].kind matches EventKind::PublicComment { author_id }
                && author_id@ == id)) && (forall|i: int|
                0 <= i < rules.bot_user_ids@.len() ==> #[trigger] rules.bot_user_ids@[i]@ != id) && (
            user_of(b.users@, id) matches Some(u) && (u.role@ == "agent"@ || u.role@ == "admin"@)),
{
    let k = lemma_record_of(b, rules, period, evaluated_at, claim, rec);
    assert(rec.reached_human == crate::normalise::reached_human(
        b.events@,
        claim.ticket_id@,
        b.users@,
        rules,
    )) by {
        reveal(expected_record);
    }
    let tid = claim.ticket_id@;
    if rec.reached_human {
        let e = choose|e: int|
            0 <= e < b.events@.len() && b.events@[e].ticket_id@ == tid
                && #[trigger] crate::normalise::involves_human(b.events@[e], b.users@, rules);
        let id = match b.events@[e].kind {
            EventKind::AssigneeChanged { to_user_id } => to_user_id->0@,
            EventKind::PublicComment { author_id } => author_id@,
            EventKind::StatusChanged { .. } => Seq::empty(),
        };
        assert(crate::normalise::is_human(id, b.users@, rules));
        assert forall|i: int| 0 <= i < rules.bot_user_ids@.len() implies #[trigger] rules.bot_user_ids@[i]@
            != id by {
            if rules.bot_user_ids@[i]@ == id {
                assert(crate::normalise::is_bot_id(id, rules));
            }
        }
        assert(user_of(b.users@, id) is Some);
        assert(b.events@[e].ticket_id@ == tid);
    }
    if exists|e: int, id: Seq<char>|
        #![trigger b.events@[e], user_of(b.users@, id)]
        0 <= e < b.events@.len() && b.events@[e].ticket_id@ == tid && ((
        b.events@[e].kind matches EventKind::AssigneeChanged { to_user_id } && (to_user_id matches Some(
            u,
        ) && u@ == id)) || (b.events@[e].kind matches EventKind::PublicComment { author_id }
            && author_id@ == id)) && (forall|i: int|
            0 <= i < rules.bot_user_ids@.len() ==> #[trigger] rules.bot_user_ids@[i]@ != id) && (
        user_of(b.users@, id) matches Some(u) && (u.role@ == "agent"@ || u.role@ == "admin"@)) {
        let (e, id) = choose|e: int, id: Seq<char>|
            #![trigger b.events@[e], user_of(b.users@, id)]
            0 <= e < b.events@.len() && b.events@[e].ticket_id@ == tid && ((
            b.events@[e].kind matches EventKind::AssigneeChanged { to_user_id } && (to_user_id matches Some(
                u,
            ) && u@ == id)) || (b.events@[e].kind matches EventKind::PublicComment { author_id }
                && author_id@ == id)) && (forall|i: int|
                0 <= i < rules.bot_user_ids@.len() ==> #[trigger] rules.bot_user_ids@[i]@ != id) && (
            user_of(b.users@, id) matches Some(u) && (u.role@ == "agent"@ || u.role@ == "admin"@));
        assert(!crate::normalise::is_bot_id(id, rules));
        assert(crate::normalise::is_human(id, b.users@, rules));
        assert(crate::normalise::involves_human(b.events@[e], b.users@, rules));
    }
}

/// A claim record's `repeat_contact_window` is true exactly when the requester of the claim's
/// ticket opened another ticket strictly after the resolution and no later than the
/// repeat-contact window after it, and, when the rules require intent match, the original
/// ticket has an intent tag and the other ticket's intent tag is the same.
pub proof fn law_repeat_contact_means_a_new_ticket_about_the_same_intent(
    b: SourceBundle,
    rules: Ruleset,
    period: Seq<char>,
    evaluated_at: Timestamp,
    claim: BilledClaim,
    rec: ClaimView,
    k: int,
)
    requires
        last_ticket(b.tickets@, claim.ticket_id@) == Some(k),
        expected_outcome(b, rules, period, evaluated_at, claim) == OutcomeView::Claim(rec),
    ensures
        rec.repeat_contact_window <==> exists|j: int|
            0 <= j < b.tickets@.len() && #[trigger] b.tickets@[j].requester_id@
                == b.tickets@[k].requester_id@ && b.tickets@[j].id@ != b.tickets@[k].id@
                && claim.resolved_at.precedes(b.tickets@[j].created_at)
                && b.tickets@[j].created_at.not_after(
                claim.resolved_at.days_later(rules.repeat_contact_window_days as int),
            ) && (rules.require_intent_match ==> (intent(b.tickets@[k], rules.intent_tag_prefix@)
                is Some && intent(b.tickets@[j], rules.intent_tag_prefix@) == intent(
                b.tickets@[k],
                rules.intent_tag_prefix@,
            ))),
{
    let k2 = lemma_record_of(b, rules, period, evaluated_at, claim, rec);
    assert(rec.repeat_contact_window == crate::normalise::repeat_contact(
        b.tickets@,
        b.tickets@[k],
        claim.resolved_at,
        rules.repeat_contact_window_days as int,
        rules,
    )) by {
        reveal(expected_record);
    }
    let orig = b.tickets@[k];
    let resolved = claim.resolved_at;
    let days = rules.repeat_contact_window_days as int;
    if rec.repeat_contact_window {
        let j = choose|j: int|
            0 <= j < b.tickets@.len() && #[trigger] crate::normalise::is_repeat_of(
                b.tickets@[j],
                orig,
                resolved,
                days,
                rules,
            );
        assert(b.tickets@[j].requester_id@ == orig.requester_id@);
    }
    if exists|j: int|
        0 <= j < b.tickets@.len() && #[trigger] b.tickets@[j].requester_id@ == orig.requester_id@
            && b.tickets@[j].id@ != orig.id@ && resolved.precedes(b.tickets@[j].created_at)
            && b.tickets@[j].created_at.not_after(resolved.days_later(days)) && (
        rules.require_intent_match ==> (intent(orig, rules.intent_tag_prefix@) is Some && intent(
            b.tickets@[j],
            rules.intent_tag_prefix@,
        ) == intent(orig, rules.intent_tag_prefix@))) {
        let j = choose|j: int|
            0 <= j < b.tickets@.len() && #[trigger] b.tickets@[j].requester_id@ == orig.requester_id@
                && b.tickets@[j].id@ != orig.id@ && resolved.precedes(b.tickets@[j].created_at)
                && b.tickets@[j].created_at.not_after(resolved.days_later(days)) && (
            rules.require_intent_match ==> (intent(orig, rules.intent_tag_prefix@) is Some && intent(
                b.tickets@[j],
                rules.intent_tag_prefix@,
            ) == intent(orig, rules.intent_tag_prefix@)));
        assert(crate::normalise::is_repeat_of(b.tickets@[j], orig, resolved, days, rules));
    }
}

// ---------------------------------------------------------------------------------------------
// The per-criterion counts and the failed reasons.
// ---------------------------------------------------------------------------------------------

/// The claim records among `os` whose failed criteria, as `failed_reasons` names them, include
/// `name`.
pub open spec fn failing_pred(os: Seq<Outcome>, min: u64, max: u64, flags: Seq<bool>, name: Seq<char>) -> spec_fn(int) -> bool {
    |i: int|
        os[i]@ matches OutcomeView::Claim(r) && failed_names(r, min, max, flags[i]).contains(name)
}

/// Counts of predicates that agree everywhere agree.
proof fn lemma_count_ext(n: nat, p: spec_fn(int) -> bool, q: spec_fn(int) -> bool)
    requires
        forall|i: int| #![trigger q(i)] 0 <= i < n ==> p(i) == q(i),
    ensures
        count_where(n, p) == count_where(n, q),
{
    lemma_count_split(n, 0, p, q, q);
}

/// A predicate that holds nowhere counts zero.
proof fn lemma_count_none(n: nat, p: spec_fn(int) -> bool)
    requires
        forall|i: int| #![trigger p(i)] 0 <= i < n ==> !p(i),
    ensures
        count_where(n, p) == 0,
    decreases n,
{
    if n > 0 {
        lemma_count_none((n - 1) as nat, p);
    }
}

/// The first `k` failed criteria's names include `name` exactly when one of those criteria,
/// failed, has that name.
proof fn lemma_failed_prefix_contains(r: ClaimView, min: u64, max: u64, ok: bool, k: nat, name: Seq<char>)
    ensures
        failed_prefix(r, min, max, ok, k).contains(name) <==> exists|j: int|
            0 <= j < k && criterion_fails(r, min, max, ok, j) && #[trigger] reason_name(j) == name,
    decreases k,
{
    if k > 0 {
        let m = (k - 1) as nat;
        lemma_failed_prefix_contains(r, min, max, ok, m, name);
        let s = failed_prefix(r, min, max, ok, m);
        let t = failed_prefix(r, min, max, ok, k);
        if criterion_fails(r, min, max, ok, m as int) {
            assert(t =~= s.push(reason_name(m as int)));
            if t.contains(name) {
                let i = choose|i: int| 0 <= i < t.len() && t[i] == name;
                if i < s.len() {
                    assert(s[i] == name);
                } else {
                    assert(reason_name(m as int) == name);
                }
            }
            if s.contains(name) {
                let i = choose|i: int| 0 <= i < s.len() && s[i] == name;
                assert(t[i] == name);
            }
            if reason_name(m as int) == name {
                assert(t[s.len() as int] == name);
            }
        } else {
            assert(t =~= s);
        }
    }
}

/// `failed_reasons` names `name` exactly when a criterion with that name fails.
proof fn lemma_failed_names_contains(r: ClaimView, min: u64, max: u64, ok: bool, name: Seq<char>)
    ensures
        failed_names(r, min, max, ok).contains(name) <==> exists|j: int|
            0 <= j < 7 && criterion_fails(r, min, max, ok, j) && #[trigger] reason_name(j) == name,
{
    reveal_with_fuel(failed_prefix, 8);
    assert(failed_prefix(r, min, max, ok, 7) =~= failed_names(r, min, max, ok));
    lemma_failed_prefix_contains(r, min, max, ok, 7, name);
}

/// The summary's count for every name is the number of claim records whose failed reasons
/// (as `failed_reasons` gives them) include that name, plus, for `unmatched_ticket`, the
/// number of unmatched claims.
pub proof fn law_reason_counts_are_the_failed_reasons(
    s: Summary,
    os: Seq<Outcome>,
    min: u64,
    max: u64,
    flags: Seq<bool>,
    name: Seq<char>,
)
    requires
        summarises(s, os, min, max, flags),
        os.len() <= u64::MAX,
    ensures
        reason_count(table_view(s.by_reason@), name) == count_where(
            os.len(),
            failing_pred(os, min, max, flags, name),
        ) + if name == "unmatched_ticket"@ {
            count_where(os.len(), unmatched_pred(os))
        } else {
            0
        },
{
    lemma_table_counts(os, min, max, flags, name);
    assert forall|i: int| 0 <= i < os.len() implies #[trigger] failing_pred(os, min, max, flags, name)(i)
        == (os[i]@ matches OutcomeView::Claim(r) && exists|j: int|
        0 <= j < 7 && criterion_fails(r, min, max, flags[i], j) && #[trigger] reason_name(j) == name) by {
        if let OutcomeView::Claim(r) = os[i]@ {
            lemma_failed_names_contains(r, min, max, flags[i], name);
        }
    }
    if exists|k: int| 0 <= k <= 7 && #[trigger] reason_name(k) == name {
        let k = choose|k: int| 0 <= k <= 7 && #[trigger] reason_name(k) == name;
        assert forall|j: int| 0 <= j <= 7 && j != k implies #[trigger] reason_name(j) != name by {
            if j < k {
                lemma_reason_names_distinct(j, k);
            } else {
                lemma_reason_names_distinct(k, j);
            }
        }
        if k < 7 {
            lemma_reason_names_distinct(k, 7);
            assert forall|i: int| 0 <= i < os.len() implies reason_pred(os, min, max, flags, k)(i)
                == #[trigger] failing_pred(os, min, max, flags, name)(i) by {}
            lemma_count_ext(os.len(), reason_pred(os, min, max, flags, k), failing_pred(os, min, max, flags, name));
        } else {
            assert forall|i: int| 0 <= i < os.len() implies reason_pred(os, min, max, flags, k)(i)
                == #[trigger] unmatched_pred(os)(i) by {}
            lemma_count_ext(os.len(), reason_pred(os, min, max, flags, k), unmatched_pred(os));
            lemma_count_none(os.len(), failing_pred(os, min, max, flags, name));
        }
    } else {
        assert(reason_name(7) != name);
        lemma_count_none(os.len(), failing_pred(os, min, max, flags, name));
    }
}

// ---------------------------------------------------------------------------------------------
// The canonical form of a ruleset reads back one way.
// ---------------------------------------------------------------------------------------------

/// The canonical form of a ruleset, grouped from the right.
spec fn canonical_from_right(r: Ruleset) -> Seq<char> {
    "{\"version\":"@ + (json_string(r.version@) + (",\"reopen_window_days\":"@ + (signed_decimal(r.reopen_window_days as int) + (",\"repeat_contact_window_days\":"@ + (signed_decimal(r.repeat_contact_window_days as int) + (",\"downstream_window_days\":"@ + (signed_decimal(r.downstream_window_days as int) + (",\"require_intent_match\":"@ + (json_bool(r.require_intent_match) + (",\"intent_tag_prefix\":"@ + (json_string(r.intent_tag_prefix@) + (",\"scope_tag_pattern\":"@ + (json_string(r.scope_tag_pattern@) + (",\"staff_domains\":"@ + (json_string_array(r.staff_domains@) + (",\"test_account_markers\":"@ + (json_string_array(r.test_account_markers@) + (",\"bot_user_ids\":"@ + (json_string_array(r.bot_user_ids@) + (",\"min_turns\":"@ + (decimal(r.min_turns as nat) + (",\"max_turns\":"@ + (decimal(r.max_turns as nat) + ("}"@))))))))))))))))))))))))
}

proof fn lemma_canonical_from_right(r: Ruleset)
    ensures
        r.canonical_text() == canonical_from_right(r),
{
    let t0 = "{\"version\":"@;
    let t1 = json_string(r.version@);
    let t2 = ",\"reopen_window_days\":"@;
    let t3 = signed_decimal(r.reopen_window_days as int);
    let t4 = ",\"repeat_contact_window_days\":"@;
    let t5 = signed_decimal(r.repeat_contact_window_days as int);
    let t6 = ",\"downstream_window_days\":"@;
    let t7 = signed_decimal(r.downstream_window_days as int);
    let t8 = ",\"require_intent_match\":"@;
    let t9 = json_bool(r.require_intent_match);
    let t10 = ",\"intent_tag_prefix\":"@;
    let t11 = json_string(r.intent_tag_prefix@);
    let t12 = ",\"scope_tag_pattern\":"@;
    let t13 = json_string(r.scope_tag_pattern@);
    let t14 = ",\"staff_domains\":"@;
    let t15 = json_string_array(r.staff_domains@);
    let t16 = ",\"test_account_markers\":"@;
    let t17 = json_string_array(r.test_account_markers@);
    let t18 = ",\"bot_user_ids\":"@;
    let t19 = json_string_array(r.bot_user_ids@);
    let t20 = ",\"min_turns\":"@;
    let t21 = decimal(r.min_turns as nat);
    let t22 = ",\"max_turns\":"@;
    let t23 = decimal(r.max_turns as nat);
    let t24 = "}"@;
    assert(r.canonical_text() == ((((((((((((((((((((((((t0 + t1) + t2) + t3) + t4) + t5) + t6) + t7) + t8) + t9) + t10) + t11) + t12) + t13) + t14) + t15) + t16) + t17) + t18) + t19) + t20) + t21) + t22) + t23) + t24));
    lemma_concat_associative(((((((((((((((((((((((t0 + t1) + t2) + t3) + t4) + t5) + t6) + t7) + t8) + t9) + t10) + t11) + t12) + t13) + t14) + t15) + t16) + t17) + t18) + t19) + t20) + t21) + t22), t23, t24);
    lemma_concat_associative((((((((((((((((((((((t0 + t1) + t2) + t3) + t4) + t5) + t6) + t7) + t8) + t9) + t10) + t11) + t12) + t13) + t14) + t15) + t16) + t17) + t18) + t19) + t20) + t21), t22, (t23 + t24));
    lemma_concat_associative(((((((((((((((((((((t0 + t1) + t2) + t3) + t4) + t5) + t6) + t7) + t8) + t9) + t10) + t11) + t12) + t13) + t14) + t15) + t16) + t17) + t18) + t19) + t20), t21, (t22 + (t23 + t24)));
    lemma_concat_associative((((((((((((((((((((t0 + t1) + t2) + t3) + t4) + t5) + t6) + t7) + t8) + t9) + t10) + t11) + t12) + t13) + t14) + t15) + t16) + t17) + t18) + t19), t20, (t21 + (t22 + (t23 + t24))));
    lemma_concat_associative(((((((((((((((((((t0 + t1) + t2) + t3) + t4) + t5) + t6) + t7) + t8) + t9) + t10) + t11) + t12) + t13) + t14) + t15) + t16) + t17) + t18), t19, (t20 + (t21 + (t22 + (t23 + t24)))));
    lemma_concat_associative((((((((((((((((((t0 + t1) + t2) + t3) + t4) + t5) + t6) + t7) + t8) + t9) + t10) + t11) + t12) + t13) + t14) + t15) + t16) + t17), t18, (t19 + (t20 + (t21 + (t22 + (t23 + t24))))));
    lemma_concat_associative(((((((((((((((((t0 + t1) + t2) + t3) + t4) + t5) + t6) + t7) + t8) + t9) + t10) + t11) + t12) + t13) + t14) + t15) + t16), t17, (t18 + (t19 + (t20 + (t21 + (t22 + (t23 + t24)))))));
    lemma_concat_associative((((((((((((((((t0 + t1) + t2) + t3) + t4) + t5) + t6) + t7) + t8) + t9) + t10) + t11) + t12) + t13) + t14) + t15), t16, (t17 + (t18 + (t19 + (t20 + (t21 + (t22 + (t23 + t24))))))));
    lemma_concat_associative(((((((((((((((t0 + t1) + t2) + t3) + t4) + t5) + t6) + t7) + t8) + t9) + t10) + t11) + t12) + t13) + t14), t15, (t16 + (t17 + (t18 + (t19 + (t20 + (t21 + (t22 + (t23 + t24)))))))));
    lemma_concat_associative((((((((((((((t0 + t1) + t2) + t3) + t4) + t5) + t6) + t7) + t8) + t9) + t10) + t11) + t12) + t13), t14, (t15 + (t16 + (t17 + (t18 + (t19 + (t20 + (t21 + (t22 + (t23 + t24))))))))));
    lemma_concat_associative(((((((((((((t0 + t1) + t2) + t3) + t4) + t5) + t6) + t7) + t8) + t9) + t10) + t11) + t12), t13, (t14 + (t15 + (t16 + (t17 + (t18 + (t19 + (t20 + (t21 + (t22 + (t23 + t24)))))))))));
    lemma_concat_associative((((((((((((t0 + t1) + t2) + t3) + t4) + t5) + t6) + t7) + t8) + t9) + t10) + t11), t12, (t13 + (t14 + (t15 + (t16 + (t17 + (t18 + (t19 + (t20 + (t21 + (t22 + (t23 + t24))))))))))));
    lemma_concat_associative(((((((((((t0 + t1) + t2) + t3) + t4) + t5) + t6) + t7) + t8) + t9) + t10), t11, (t12 + (t13 + (t14 + (t15 + (t16 + (t17 + (t18 + (t19 + (t20 + (t21 + (t22 + (t23 + t24)))))))))))));
    lemma_concat_associative((((((((((t0 + t1) + t2) + t3) + t4) + t5) + t6) + t7) + t8) + t9), t10, (t11 + (t12 + (t13 + (t14 + (t15 + (t16 + (t17 + (t18 + (t19 + (t20 + (t21 + (t22 + (t23 + t24))))))))))))));
    lemma_concat_associative(((((((((t0 + t1) + t2) + t3) + t4) + t5) + t6) + t7) + t8), t9, (t10 + (t11 + (t12 + (t13 + (t14 + (t15 + (t16 + (t17 + (t18 + (t19 + (t20 + (t21 + (t22 + (t23 + t24)))))))))))))));
    lemma_concat_associative((((((((t0 + t1) + t2) + t3) + t4) + t5) + t6) + t7), t8, (t9 + (t10 + (t11 + (t12 + (t13 + (t14 + (t15 + (t16 + (t17 + (t18 + (t19 + (t20 + (t21 + (t22 + (t23 + t24))))))))))))))));
    lemma_concat_associative(((((((t0 + t1) + t2) + t3) + t4) + t5) + t6), t7, (t8 + (t9 + (t10 + (t11 + (t12 + (t13 + (t14 + (t15 + (t16 + (t17 + (t18 + (t19 + (t20 + (t21 + (t22 + (t23 + t24)))))))))))))))));
    lemma_concat_associative((((((t0 + t1) + t2) + t3) + t4) + t5), t6, (t7 + (t8 + (t9 + (t10 + (t11 + (t12 + (t13 + (t14 + (t15 + (t16 + (t17 + (t18 + (t19 + (t20 + (t21 + (t22 + (t23 + t24))))))))))))))))));
    lemma_concat_associative(((((t0 + t1) + t2) + t3) + t4), t5, (t6 + (t7 + (t8 + (t9 + (t10 + (t11 + (t12 + (t13 + (t14 + (t15 + (t16 + (t17 + (t18 + (t19 + (t20 + (t21 + (t22 + (t23 + t24)))))))))))))))))));
    lemma_concat_associative((((t0 + t1) + t2) + t3), t4, (t5 + (t6 + (t7 + (t8 + (t9 + (t10 + (t11 + (t12 + (t13 + (t14 + (t15 + (t16 + (t17 + (t18 + (t19 + (t20 + (t21 + (t22 + (t23 + t24))))))))))))))))))));
    lemma_concat_associative(((t0 + t1) + t2), t3, (t4 + (t5 + (t6 + (t7 + (t8 + (t9 + (t10 + (t11 + (t12 + (t13 + (t14 + (t15 + (t16 + (t17 + (t18 + (t19 + (t20 + (t21 + (t22 + (t23 + t24)))))))))))))))))))));
    lemma_concat_associative((t0 + t1), t2, (t3 + (t4 + (t5 + (t6 + (t7 + (t8 + (t9 + (t10 + (t11 + (t12 + (t13 + (t14 + (t15 + (t16 + (t17 + (t18 + (t19 + (t20 + (t21 + (t22 + (t23 + t24))))))))))))))))))))));
    lemma_concat_associative(t0, t1, (t2 + (t3 + (t4 + (t5 + (t6 + (t7 + (t8 + (t9 + (t10 + (t11 + (t12 + (t13 + (t14 + (t15 + (t16 + (t17 + (t18 + (t19 + (t20 + (t21 + (t22 + (t23 + t24)))))))))))))))))))))));
    assert(canonical_from_right(r) == (t0 + (t1 + (t2 + (t3 + (t4 + (t5 + (t6 + (t7 + (t8 + (t9 + (t10 + (t11 + (t12 + (t13 + (t14 + (t15 + (t16 + (t17 + (t18 + (t19 + (t20 + (t21 + (t22 + (t23 + t24)))))))))))))))))))))))));
}

/// The canonical form of a ruleset determines every field of it: two rulesets with the same
/// canonical text agree on every field (strings and lists of strings by their views). So
/// rulesets that differ in any field, the agent's own user ids among them, have different
/// canonical texts, the texts their digests are taken over.
pub proof fn law_canonical_form_determines_the_ruleset(r1: Ruleset, r2: Ruleset)
    requires
        r1.canonical_text() == r2.canonical_text(),
    ensures
        r1.version@ == r2.version@,
        r1.reopen_window_days == r2.reopen_window_days,
        r1.repeat_contact_window_days == r2.repeat_contact_window_days,
        r1.downstream_window_days == r2.downstream_window_days,
        r1.require_intent_match == r2.require_intent_match,
        r1.intent_tag_prefix@ == r2.intent_tag_prefix@,
        r1.scope_tag_pattern@ == r2.scope_tag_pattern@,
        string_views(r1.staff_domains@) == string_views(r2.staff_domains@),
        string_views(r1.test_account_markers@) == string_views(r2.test_account_markers@),
        string_views(r1.bot_user_ids@) == string_views(r2.bot_user_ids@),
        r1.min_turns == r2.min_turns,
        r1.max_turns == r2.max_turns,
{
    reveal_strlit(",\"reopen_window_days\":");
    reveal_strlit(",\"repeat_contact_window_days\":");
    reveal_strlit(",\"downstream_window_days\":");
    reveal_strlit(",\"require_intent_match\":");
    reveal_strlit(",\"intent_tag_prefix\":");
    reveal_strlit(",\"scope_tag_pattern\":");
    reveal_strlit(",\"staff_domains\":");
    reveal_strlit(",\"test_account_markers\":");
    reveal_strlit(",\"bot_user_ids\":");
    reveal_strlit(",\"min_turns\":");
    reveal_strlit(",\"max_turns\":");
    reveal_strlit("}");
    lemma_canonical_from_right(r1);
    lemma_canonical_from_right(r2);
    lemma_prefix_cancel("{\"version\":"@, json_string(r1.version@) + (",\"reopen_window_days\":"@ + (signed_decimal(r1.reopen_window_days as int) + (",\"repeat_contact_window_days\":"@ + (signed_decimal(r1.repeat_contact_window_days as int) + (",\"downstream_window_days\":"@ + (signed_decimal(r1.downstream_window_days as int) + (",\"require_intent_match\":"@ + (json_bool(r1.require_intent_match) + (",\"intent_tag_prefix\":"@ + (json_string(r1.intent_tag_prefix@) + (",\"scope_tag_pattern\":"@ + (json_string(r1.scope_tag_pattern@) + (",\"staff_domains\":"@ + (json_string_array(r1.staff_domains@) + (",\"test_account_markers\":"@ + (json_string_array(r1.test_account_markers@) + (",\"bot_user_ids\":"@ + (json_string_array(r1.bot_user_ids@) + (",\"min_turns\":"@ + (decimal(r1.min_turns as nat) + (",\"max_turns\":"@ + (decimal(r1.max_turns as nat) + ("}"@))))))))))))))))))))))), json_string(r2.version@) + (",\"reopen_window_days\":"@ + (signed_decimal(r2.reopen_window_days as int) + (",\"repeat_contact_window_days\":"@ + (signed_decimal(r2.repeat_contact_window_days as int) + (",\"downstream_window_days\":"@ + (signed_decimal(r2.downstream_window_days as int) + (",\"require_intent_match\":"@ + (json_bool(r2.require_intent_match) + (",\"intent_tag_prefix\":"@ + (json_string(r2.intent_tag_prefix@) + (",\"scope_tag_pattern\":"@ + (json_string(r2.scope_tag_pattern@) + (",\"staff_domains\":"@ + (json_string_array(r2.staff_domains@) + (",\"test_account_markers\":"@ + (json_string_array(r2.test_account_markers@) + (",\"bot_user_ids\":"@ + (json_string_array(r2.bot_user_ids@) + (",\"min_turns\":"@ + (decimal(r2.min_turns as nat) + (",\"max_turns\":"@ + (decimal(r2.max_turns as nat) + ("}"@))))))))))))))))))))))));
    lemma_string_cut(r1.version@, r2.version@, ",\"reopen_window_days\":"@ + (signed_decimal(r1.reopen_window_days as int) + (",\"repeat_contact_window_days\":"@ + (signed_decimal(r1.repeat_contact_window_days as int) + (",\"downstream_window_days\":"@ + (signed_decimal(r1.downstream_window_days as int) + (",\"require_intent_match\":"@ + (json_bool(r1.require_intent_match) + (",\"intent_tag_prefix\":"@ + (json_string(r1.intent_tag_prefix@) + (",\"scope_tag_pattern\":"@ + (json_string(r1.scope_tag_pattern@) + (",\"staff_domains\":"@ + (json_string_array(r1.staff_domains@) + (",\"test_account_markers\":"@ + (json_string_array(r1.test_account_markers@) + (",\"bot_user_ids\":"@ + (json_string_array(r1.bot_user_ids@) + (",\"min_turns\":"@ + (decimal(r1.min_turns as nat) + (",\"max_turns\":"@ + (decimal(r1.max_turns as nat) + ("}"@)))))))))))))))))))))), ",\"reopen_window_days\":"@ + (signed_decimal(r2.reopen_window_days as int) + (",\"repeat_contact_window_days\":"@ + (signed_decimal(r2.repeat_contact_window_days as int) + (",\"downstream_window_days\":"@ + (signed_decimal(r2.downstream_window_days as int) + (",\"require_intent_match\":"@ + (json_bool(r2.require_intent_match) + (",\"intent_tag_prefix\":"@ + (json_string(r2.intent_tag_prefix@) + (",\"scope_tag_pattern\":"@ + (json_string(r2.scope_tag_pattern@) + (",\"staff_domains\":"@ + (json_string_array(r2.staff_domains@) + (",\"test_account_markers\":"@ + (json_string_array(r2.test_account_markers@) + (",\"bot_user_ids\":"@ + (json_string_array(r2.bot_user_ids@) + (",\"min_turns\":"@ + (decimal(r2.min_turns as nat) + (",\"max_turns\":"@ + (decimal(r2.max_turns as nat) + ("}"@)))))))))))))))))))))));
    lemma_prefix_cancel(",\"reopen_window_days\":"@, signed_decimal(r1.reopen_window_days as int) + (",\"repeat_contact_window_days\":"@ + (signed_decimal(r1.repeat_contact_window_days as int) + (",\"downstream_window_days\":"@ + (signed_decimal(r1.downstream_window_days as int) + (",\"require_intent_match\":"@ + (json_bool(r1.require_intent_match) + (",\"intent_tag_prefix\":"@ + (json_string(r1.intent_tag_prefix@) + (",\"scope_tag_pattern\":"@ + (json_string(r1.scope_tag_pattern@) + (",\"staff_domains\":"@ + (json_string_array(r1.staff_domains@) + (",\"test_account_markers\":"@ + (json_string_array(r1.test_account_markers@) + (",\"bot_user_ids\":"@ + (json_string_array(r1.bot_user_ids@) + (",\"min_turns\":"@ + (decimal(r1.min_turns as nat) + (",\"max_turns\":"@ + (decimal(r1.max_turns as nat) + ("}"@))))))))))))))))))))), signed_decimal(r2.reopen_window_days as int) + (",\"repeat_contact_window_days\":"@ + (signed_decimal(r2.repeat_contact_window_days as int) + (",\"downstream_window_days\":"@ + (signed_decimal(r2.downstream_window_days as int) + (",\"require_intent_match\":"@ + (json_bool(r2.require_intent_match) + (",\"intent_tag_prefix\":"@ + (json_string(r2.intent_tag_prefix@) + (",\"scope_tag_pattern\":"@ + (json_string(r2.scope_tag_pattern@) + (",\"staff_domains\":"@ + (json_string_array(r2.staff_domains@) + (",\"test_account_markers\":"@ + (json_string_array(r2.test_account_markers@) + (",\"bot_user_ids\":"@ + (json_string_array(r2.bot_user_ids@) + (",\"min_turns\":"@ + (decimal(r2.min_turns as nat) + (",\"max_turns\":"@ + (decimal(r2.max_turns as nat) + ("}"@))))))))))))))))))))));
    assert((",\"repeat_contact_window_days\":"@ + (signed_decimal(r1.repeat_contact_window_days as int) + (",\"downstream_window_days\":"@ + (signed_decimal(r1.downstream_window_days as int) + (",\"require_intent_match\":"@ + (json_bool(r1.require_intent_match) + (",\"intent_tag_prefix\":"@ + (json_string(r1.intent_tag_prefix@) + (",\"scope_tag_pattern\":"@ + (json_string(r1.scope_tag_pattern@) + (",\"staff_domains\":"@ + (json_string_array(r1.staff_domains@) + (",\"test_account_markers\":"@ + (json_string_array(r1.test_account_markers@) + (",\"bot_user_ids\":"@ + (json_string_array(r1.bot_user_ids@) + (",\"min_turns\":"@ + (decimal(r1.min_turns as nat) + (",\"max_turns\":"@ + (decimal(r1.max_turns as nat) + ("}"@)))))))))))))))))))))[0] == ',');
    assert((",\"repeat_contact_window_days\":"@ + (signed_decimal(r2.repeat_contact_window_days as int) + (",\"downstream_window_days\":"@ + (signed_decimal(r2.downstream_window_days as int) + (",\"require_intent_match\":"@ + (json_bool(r2.require_intent_match) + (",\"intent_tag_prefix\":"@ + (json_string(r2.intent_tag_prefix@) + (",\"scope_tag_pattern\":"@ + (json_string(r2.scope_tag_pattern@) + (",\"staff_domains\":"@ + (json_string_array(r2.staff_domains@) + (",\"test_account_markers\":"@ + (json_string_array(r2.test_account_markers@) + (",\"bot_user_ids\":"@ + (json_string_array(r2.bot_user_ids@) + (",\"min_turns\":"@ + (decimal(r2.min_turns as nat) + (",\"max_turns\":"@ + (decimal(r2.max_turns as nat) + ("}"@)))))))))))))))))))))[0] == ',');
    lemma_signed_decimal_plain(r1.reopen_window_days as int);
    lemma_signed_decimal_plain(r2.reopen_window_days as int);
    lemma_separator_cut(signed_decimal(r1.reopen_window_days as int), signed_decimal(r2.reopen_window_days as int), ",\"repeat_contact_window_days\":"@ + (signed_decimal(r1.repeat_contact_window_days as int) + (",\"downstream_window_days\":"@ + (signed_decimal(r1.downstream_window_days as int) + (",\"require_intent_match\":"@ + (json_bool(r1.require_intent_match) + (",\"intent_tag_prefix\":"@ + (json_string(r1.intent_tag_prefix@) + (",\"scope_tag_pattern\":"@ + (json_string(r1.scope_tag_pattern@) + (",\"staff_domains\":"@ + (json_string_array(r1.staff_domains@) + (",\"test_account_markers\":"@ + (json_string_array(r1.test_account_markers@) + (",\"bot_user_ids\":"@ + (json_string_array(r1.bot_user_ids@) + (",\"min_turns\":"@ + (decimal(r1.min_turns as nat) + (",\"max_turns\":"@ + (decimal(r1.max_turns as nat) + ("}"@)))))))))))))))))))), ",\"repeat_contact_window_days\":"@ + (signed_decimal(r2.repeat_contact_window_days as int) + (",\"downstream_window_days\":"@ + (signed_decimal(r2.downstream_window_days as int) + (",\"require_intent_match\":"@ + (json_bool(r2.require_intent_match) + (",\"intent_tag_prefix\":"@ + (json_string(r2.intent_tag_prefix@) + (",\"scope_tag_pattern\":"@ + (json_string(r2.scope_tag_pattern@) + (",\"staff_domains\":"@ + (json_string_array(r2.staff_domains@) + (",\"test_account_markers\":"@ + (json_string_array(r2.test_account_markers@) + (",\"bot_user_ids\":"@ + (json_string_array(r2.bot_user_ids@) + (",\"min_turns\":"@ + (decimal(r2.min_turns as nat) + (",\"max_turns\":"@ + (decimal(r2.max_turns as nat) + ("}"@)))))))))))))))))))), ',');
    lemma_signed_decimal_injective(r1.reopen_window_days as int, r2.reopen_window_days as int);
    lemma_prefix_cancel(",\"repeat_contact_window_days\":"@, signed_decimal(r1.repeat_contact_window_days as int) + (",\"downstream_window_days\":"@ + (signed_decimal(r1.downstream_window_days as int) + (",\"require_intent_match\":"@ + (json_bool(r1.require_intent_match) + (",\"intent_tag_prefix\":"@ + (json_string(r1.intent_tag_prefix@) + (",\"scope_tag_pattern\":"@ + (json_string(r1.scope_tag_pattern@) + (",\"staff_domains\":"@ + (json_string_array(r1.staff_domains@) + (",\"test_account_markers\":"@ + (json_string_array(r1.test_account_markers@) + (",\"bot_user_ids\":"@ + (json_string_array(r1.bot_user_ids@) + (",\"min_turns\":"@ + (decimal(r1.min_turns as nat) + (",\"max_turns\":"@ + (decimal(r1.max_turns as nat) + ("}"@))))))))))))))))))), signed_decimal(r2.repeat_contact_window_days as int) + (",\"downstream_window_days\":"@ + (signed_decimal(r2.downstream_window_days as int) + (",\"require_intent_match\":"@ + (json_bool(r2.require_intent_match) + (",\"intent_tag_prefix\":"@ + (json_string(r2.intent_tag_prefix@) + (",\"scope_tag_pattern\":"@ + (json_string(r2.scope_tag_pattern@) + (",\"staff_domains\":"@ + (json_string_array(r2.staff_domains@) + (",\"test_account_markers\":"@ + (json_string_array(r2.test_account_markers@) + (",\"bot_user_ids\":"@ + (json_string_array(r2.bot_user_ids@) + (",\"min_turns\":"@ + (decimal(r2.min_turns as nat) + (",\"max_turns\":"@ + (decimal(r2.max_turns as nat) + ("}"@))))))))))))))))))));
    assert((",\"downstream_window_days\":"@ + (signed_decimal(r1.downstream_window_days as int) + (",\"require_intent_match\":"@ + (json_bool(r1.require_intent_match) + (",\"intent_tag_prefix\":"@ + (json_string(r1.intent_tag_prefix@) + (",\"scope_tag_pattern\":"@ + (json_string(r1.scope_tag_pattern@) + (",\"staff_domains\":"@ + (json_string_array(r1.staff_domains@) + (",\"test_account_markers\":"@ + (json_string_array(r1.test_account_markers@) + (",\"bot_user_ids\":"@ + (json_string_array(r1.bot_user_ids@) + (",\"min_turns\":"@ + (decimal(r1.min_turns as nat) + (",\"max_turns\":"@ + (decimal(r1.max_turns as nat) + ("}"@)))))))))))))))))))[0] == ',');
    assert((",\"downstream_window_days\":"@ + (signed_decimal(r2.downstream_window_days as int) + (",\"require_intent_match\":"@ + (json_bool(r2.require_intent_match) + (",\"intent_tag_prefix\":"@ + (json_string(r2.intent_tag_prefix@) + (",\"scope_tag_pattern\":"@ + (json_string(r2.scope_tag_pattern@) + (",\"staff_domains\":"@ + (json_string_array(r2.staff_domains@) + (",\"test_account_markers\":"@ + (json_string_array(r2.test_account_markers@) + (",\"bot_user_ids\":"@ + (json_string_array(r2.bot_user_ids@) + (",\"min_turns\":"@ + (decimal(r2.min_turns as nat) + (",\"max_turns\":"@ + (decimal(r2.max_turns as nat) + ("}"@)))))))))))))))))))[0] == ',');
    lemma_signed_decimal_plain(r1.repeat_contact_window_days as int);
    lemma_signed_decimal_plain(r2.repeat_contact_window_days as int);
    lemma_separator_cut(signed_decimal(r1.repeat_contact_window_days as int), signed_decimal(r2.repeat_contact_window_days as int), ",\"downstream_window_days\":"@ + (signed_decimal(r1.downstream_window_days as int) + (",\"require_intent_match\":"@ + (json_bool(r1.require_intent_match) + (",\"intent_tag_prefix\":"@ + (json_string(r1.intent_tag_prefix@) + (",\"scope_tag_pattern\":"@ + (json_string(r1.scope_tag_pattern@) + (",\"staff_domains\":"@ + (json_string_array(r1.staff_domains@) + (",\"test_account_markers\":"@ + (json_string_array(r1.test_account_markers@) + (",\"bot_user_ids\":"@ + (json_string_array(r1.bot_user_ids@) + (",\"min_turns\":"@ + (decimal(r1.min_turns as nat) + (",\"max_turns\":"@ + (decimal(r1.max_turns as nat) + ("}"@)))))))))))))))))), ",\"downstream_window_days\":"@ + (signed_decimal(r2.downstream_window_days as int) + (",\"require_intent_match\":"@ + (json_bool(r2.require_intent_match) + (",\"intent_tag_prefix\":"@ + (json_string(r2.intent_tag_prefix@) + (",\"scope_tag_pattern\":"@ + (json_string(r2.scope_tag_pattern@) + (",\"staff_domains\":"@ + (json_string_array(r2.staff_domains@) + (",\"test_account_markers\":"@ + (json_string_array(r2.test_account_markers@) + (",\"bot_user_ids\":"@ + (json_string_array(r2.bot_user_ids@) + (",\"min_turns\":"@ + (decimal(r2.min_turns as nat) + (",\"max_turns\":"@ + (decimal(r2.max_turns as nat) + ("}"@)))))))))))))))))), ',');
    lemma_signed_decimal_injective(r1.repeat_contact_window_days as int, r2.repeat_contact_window_days as int);
    lemma_prefix_cancel(",\"downstream_window_days\":"@, signed_decimal(r1.downstream_window_days as int) + (",\"require_intent_match\":"@ + (json_bool(r1.require_intent_match) + (",\"intent_tag_prefix\":"@ + (json_string(r1.intent_tag_prefix@) + (",\"scope_tag_pattern\":"@ + (json_string(r1.scope_tag_pattern@) + (",\"staff_domains\":"@ + (json_string_array(r1.staff_domains@) + (",\"test_account_markers\":"@ + (json_string_array(r1.test_account_markers@) + (",\"bot_user_ids\":"@ + (json_string_array(r1.bot_user_ids@) + (",\"min_turns\":"@ + (decimal(r1.min_turns as nat) + (",\"max_turns\":"@ + (decimal(r1.max_turns as nat) + ("}"@))))))))))))))))), signed_decimal(r2.downstream_window_days as int) + (",\"require_intent_match\":"@ + (json_bool(r2.require_intent_match) + (",\"intent_tag_prefix\":"@ + (json_string(r2.intent_tag_prefix@) + (",\"scope_tag_pattern\":"@ + (json_string(r2.scope_tag_pattern@) + (",\"staff_domains\":"@ + (json_string_array(r2.staff_domains@) + (",\"test_account_markers\":"@ + (json_string_array(r2.test_account_markers@) + (",\"bot_user_ids\":"@ + (json_string_array(r2.bot_user_ids@) + (",\"min_turns\":"@ + (decimal(r2.min_turns as nat) + (",\"max_turns\":"@ + (decimal(r2.max_turns as nat) + ("}"@))))))))))))))))));
    assert((",\"require_intent_match\":"@ + (json_bool(r1.require_intent_match) + (",\"intent_tag_prefix\":"@ + (json_string(r1.intent_tag_prefix@) + (",\"scope_tag_pattern\":"@ + (json_string(r1.scope_tag_pattern@) + (",\"staff_domains\":"@ + (json_string_array(r1.staff_domains@) + (",\"test_account_markers\":"@ + (json_string_array(r1.test_account_markers@) + (",\"bot_user_ids\":"@ + (json_string_array(r1.bot_user_ids@) + (",\"min_turns\":"@ + (decimal(r1.min_turns as nat) + (",\"max_turns\":"@ + (decimal(r1.max_turns as nat) + ("}"@)))))))))))))))))[0] == ',');
    assert((",\"require_intent_match\":"@ + (json_bool(r2.require_intent_match) + (",\"intent_tag_prefix\":"@ + (json_string(r2.intent_tag_prefix@) + (",\"scope_tag_pattern\":"@ + (json_string(r2.scope_tag_pattern@) + (",\"staff_domains\":"@ + (json_string_array(r2.staff_domains@) + (",\"test_account_markers\":"@ + (json_string_array(r2.test_account_markers@) + (",\"bot_user_ids\":"@ + (json_string_array(r2.bot_user_ids@) + (",\"min_turns\":"@ + (decimal(r2.min_turns as nat) + (",\"max_turns\":"@ + (decimal(r2.max_turns as nat) + ("}"@)))))))))))))))))[0] == ',');
    lemma_signed_decimal_plain(r1.downstream_window_days as int);
    lemma_signed_decimal_plain(r2.downstream_window_days as int);
    lemma_separator_cut(signed_decimal(r1.downstream_window_days as int), signed_decimal(r2.downstream_window_days as int), ",\"require_intent_match\":"@ + (json_bool(r1.require_intent_match) + (",\"intent_tag_prefix\":"@ + (json_string(r1.intent_tag_prefix@) + (",\"scope_tag_pattern\":"@ + (json_string(r1.scope_tag_pattern@) + (",\"staff_domains\":"@ + (json_string_array(r1.staff_domains@) + (",\"test_account_markers\":"@ + (json_string_array(r1.test_account_markers@) + (",\"bot_user_ids\":"@ + (json_string_array(r1.bot_user_ids@) + (",\"min_turns\":"@ + (decimal(r1.min_turns as nat) + (",\"max_turns\":"@ + (decimal(r1.max_turns as nat) + ("}"@)))))))))))))))), ",\"require_intent_match\":"@ + (json_bool(r2.require_intent_match) + (",\"intent_tag_prefix\":"@ + (json_string(r2.intent_tag_prefix@) + (",\"scope_tag_pattern\":"@ + (json_string(r2.scope_tag_pattern@) + (",\"staff_domains\":"@ + (json_string_array(r2.staff_domains@) + (",\"test_account_markers\":"@ + (json_string_array(r2.test_account_markers@) + (",\"bot_user_ids\":"@ + (json_string_array(r2.bot_user_ids@) + (",\"min_turns\":"@ + (decimal(r2.min_turns as nat) + (",\"max_turns\":"@ + (decimal(r2.max_turns as nat) + ("}"@)))))))))))))))), ',');
    lemma_signed_decimal_injective(r1.downstream_window_days as int, r2.downstream_window_days as int);
    lemma_prefix_cancel(",\"require_intent_match\":"@, json_bool(r1.require_intent_match) + (",\"intent_tag_prefix\":"@ + (json_string(r1.intent_tag_prefix@) + (",\"scope_tag_pattern\":"@ + (json_string(r1.scope_tag_pattern@) + (",\"staff_domains\":"@ + (json_string_array(r1.staff_domains@) + (",\"test_account_markers\":"@ + (json_string_array(r1.test_account_markers@) + (",\"bot_user_ids\":"@ + (json_string_array(r1.bot_user_ids@) + (",\"min_turns\":"@ + (decimal(r1.min_turns as nat) + (",\"max_turns\":"@ + (decimal(r1.max_turns as nat) + ("}"@))))))))))))))), json_bool(r2.require_intent_match) + (",\"intent_tag_prefix\":"@ + (json_string(r2.intent_tag_prefix@) + (",\"scope_tag_pattern\":"@ + (json_string(r2.scope_tag_pattern@) + (",\"staff_domains\":"@ + (json_string_array(r2.staff_domains@) + (",\"test_account_markers\":"@ + (json_string_array(r2.test_account_markers@) + (",\"bot_user_ids\":"@ + (json_string_array(r2.bot_user_ids@) + (",\"min_turns\":"@ + (decimal(r2.min_turns as nat) + (",\"max_turns\":"@ + (decimal(r2.max_turns as nat) + ("}"@))))))))))))))));
    assert((",\"intent_tag_prefix\":"@ + (json_string(r1.intent_tag_prefix@) + (",\"scope_tag_pattern\":"@ + (json_string(r1.scope_tag_pattern@) + (",\"staff_domains\":"@ + (json_string_array(r1.staff_domains@) + (",\"test_account_markers\":"@ + (json_string_array(r1.test_account_markers@) + (",\"bot_user_ids\":"@ + (json_string_array(r1.bot_user_ids@) + (",\"min_turns\":"@ + (decimal(r1.min_turns as nat) + (",\"max_turns\":"@ + (decimal(r1.max_turns as nat) + ("}"@)))))))))))))))[0] == ',');
    assert((",\"intent_tag_prefix\":"@ + (json_string(r2.intent_tag_prefix@) + (",\"scope_tag_pattern\":"@ + (json_string(r2.scope_tag_pattern@) + (",\"staff_domains\":"@ + (json_string_array(r2.staff_domains@) + (",\"test_account_markers\":"@ + (json_string_array(r2.test_account_markers@) + (",\"bot_user_ids\":"@ + (json_string_array(r2.bot_user_ids@) + (",\"min_turns\":"@ + (decimal(r2.min_turns as nat) + (",\"max_turns\":"@ + (decimal(r2.max_turns as nat) + ("}"@)))))))))))))))[0] == ',');
    lemma_bool_plain(r1.require_intent_match);
    lemma_bool_plain(r2.require_intent_match);
    lemma_separator_cut(json_bool(r1.require_intent_match), json_bool(r2.require_intent_match), ",\"intent_tag_prefix\":"@ + (json_string(r1.intent_tag_prefix@) + (",\"scope_tag_pattern\":"@ + (json_string(r1.scope_tag_pattern@) + (",\"staff_domains\":"@ + (json_string_array(r1.staff_domains@) + (",\"test_account_markers\":"@ + (json_string_array(r1.test_account_markers@) + (",\"bot_user_ids\":"@ + (json_string_array(r1.bot_user_ids@) + (",\"min_turns\":"@ + (decimal(r1.min_turns as nat) + (",\"max_turns\":"@ + (decimal(r1.max_turns as nat) + ("}"@)))))))))))))), ",\"intent_tag_prefix\":"@ + (json_string(r2.intent_tag_prefix@) + (",\"scope_tag_pattern\":"@ + (json_string(r2.scope_tag_pattern@) + (",\"staff_domains\":"@ + (json_string_array(r2.staff_domains@) + (",\"test_account_markers\":"@ + (json_string_array(r2.test_account_markers@) + (",\"bot_user_ids\":"@ + (json_string_array(r2.bot_user_ids@) + (",\"min_turns\":"@ + (decimal(r2.min_turns as nat) + (",\"max_turns\":"@ + (decimal(r2.max_turns as nat) + ("}"@)))))))))))))), ',');
    lemma_prefix_cancel(",\"intent_tag_prefix\":"@, json_string(r1.intent_tag_prefix@) + (",\"scope_tag_pattern\":"@ + (json_string(r1.scope_tag_pattern@) + (",\"staff_domains\":"@ + (json_string_array(r1.staff_domains@) + (",\"test_account_markers\":"@ + (json_string_array(r1.test_account_markers@) + (",\"bot_user_ids\":"@ + (json_string_array(r1.bot_user_ids@) + (",\"min_turns\":"@ + (decimal(r1.min_turns as nat) + (",\"max_turns\":"@ + (decimal(r1.max_turns as nat) + ("}"@))))))))))))), json_string(r2.intent_tag_prefix@) + (",\"scope_tag_pattern\":"@ + (json_string(r2.scope_tag_pattern@) + (",\"staff_domains\":"@ + (json_string_array(r2.staff_domains@) + (",\"test_account_markers\":"@ + (json_string_array(r2.test_account_markers@) + (",\"bot_user_ids\":"@ + (json_string_array(r2.bot_user_ids@) + (",\"min_turns\":"@ + (decimal(r2.min_turns as nat) + (",\"max_turns\":"@ + (decimal(r2.max_turns as nat) + ("}"@))))))))))))));
    lemma_string_cut(r1.intent_tag_prefix@, r2.intent_tag_prefix@, ",\"scope_tag_pattern\":"@ + (json_string(r1.scope_tag_pattern@) + (",\"staff_domains\":"@ + (json_string_array(r1.staff_domains@) + (",\"test_account_markers\":"@ + (json_string_array(r1.test_account_markers@) + (",\"bot_user_ids\":"@ + (json_string_array(r1.bot_user_ids@) + (",\"min_turns\":"@ + (decimal(r1.min_turns as nat) + (",\"max_turns\":"@ + (decimal(r1.max_turns as nat) + ("}"@)))))))))))), ",\"scope_tag_pattern\":"@ + (json_string(r2.scope_tag_pattern@) + (",\"staff_domains\":"@ + (json_string_array(r2.staff_domains@) + (",\"test_account_markers\":"@ + (json_string_array(r2.test_account_markers@) + (",\"bot_user_ids\":"@ + (json_string_array(r2.bot_user_ids@) + (",\"min_turns\":"@ + (decimal(r2.min_turns as nat) + (",\"max_turns\":"@ + (decimal(r2.max_turns as nat) + ("}"@)))))))))))));
    lemma_prefix_cancel(",\"scope_tag_pattern\":"@, json_string(r1.scope_tag_pattern@) + (",\"staff_domains\":"@ + (json_string_array(r1.staff_domains@) + (",\"test_account_markers\":"@ + (json_string_array(r1.test_account_markers@) + (",\"bot_user_ids\":"@ + (json_string_array(r1.bot_user_ids@) + (",\"min_turns\":"@ + (decimal(r1.min_turns as nat) + (",\"max_turns\":"@ + (decimal(r1.max_turns as nat) + ("}"@))))))))))), json_string(r2.scope_tag_pattern@) + (",\"staff_domains\":"@ + (json_string_array(r2.staff_domains@) + (",\"test_account_markers\":"@ + (json_string_array(r2.test_account_markers@) + (",\"bot_user_ids\":"@ + (json_string_array(r2.bot_user_ids@) + (",\"min_turns\":"@ + (decimal(r2.min_turns as nat) + (",\"max_turns\":"@ + (decimal(r2.max_turns as nat) + ("}"@))))))))))));
    lemma_string_cut(r1.scope_tag_pattern@, r2.scope_tag_pattern@, ",\"staff_domains\":"@ + (json_string_array(r1.staff_domains@) + (",\"test_account_markers\":"@ + (json_string_array(r1.test_account_markers@) + (",\"bot_user_ids\":"@ + (json_string_array(r1.bot_user_ids@) + (",\"min_turns\":"@ + (decimal(r1.min_turns as nat) + (",\"max_turns\":"@ + (decimal(r1.max_turns as nat) + ("}"@)))))))))), ",\"staff_domains\":"@ + (json_string_array(r2.staff_domains@) + (",\"test_account_markers\":"@ + (json_string_array(r2.test_account_markers@) + (",\"bot_user_ids\":"@ + (json_string_array(r2.bot_user_ids@) + (",\"min_turns\":"@ + (decimal(r2.min_turns as nat) + (",\"max_turns\":"@ + (decimal(r2.max_turns as nat) + ("}"@)))))))))));
    lemma_prefix_cancel(",\"staff_domains\":"@, json_string_array(r1.staff_domains@) + (",\"test_account_markers\":"@ + (json_string_array(r1.test_account_markers@) + (",\"bot_user_ids\":"@ + (json_string_array(r1.bot_user_ids@) + (",\"min_turns\":"@ + (decimal(r1.min_turns as nat) + (",\"max_turns\":"@ + (decimal(r1.max_turns as nat) + ("}"@))))))))), json_string_array(r2.staff_domains@) + (",\"test_account_markers\":"@ + (json_string_array(r2.test_account_markers@) + (",\"bot_user_ids\":"@ + (json_string_array(r2.bot_user_ids@) + (",\"min_turns\":"@ + (decimal(r2.min_turns as nat) + (",\"max_turns\":"@ + (decimal(r2.max_turns as nat) + ("}"@))))))))));
    lemma_string_array_cut(r1.staff_domains@, r2.staff_domains@, ",\"test_account_markers\":"@ + (json_string_array(r1.test_account_markers@) + (",\"bot_user_ids\":"@ + (json_string_array(r1.bot_user_ids@) + (",\"min_turns\":"@ + (decimal(r1.min_turns as nat) + (",\"max_turns\":"@ + (decimal(r1.max_turns as nat) + ("}"@)))))))), ",\"test_account_markers\":"@ + (json_string_array(r2.test_account_markers@) + (",\"bot_user_ids\":"@ + (json_string_array(r2.bot_user_ids@) + (",\"min_turns\":"@ + (decimal(r2.min_turns as nat) + (",\"max_turns\":"@ + (decimal(r2.max_turns as nat) + ("}"@)))))))));
    lemma_prefix_cancel(",\"test_account_markers\":"@, json_string_array(r1.test_account_markers@) + (",\"bot_user_ids\":"@ + (json_string_array(r1.bot_user_ids@) + (",\"min_turns\":"@ + (decimal(r1.min_turns as nat) + (",\"max_turns\":"@ + (decimal(r1.max_turns as nat) + ("}"@))))))), json_string_array(r2.test_account_markers@) + (",\"bot_user_ids\":"@ + (json_string_array(r2.bot_user_ids@) + (",\"min_turns\":"@ + (decimal(r2.min_turns as nat) + (",\"max_turns\":"@ + (decimal(r2.max_turns as nat) + ("}"@))))))));
    lemma_string_array_cut(r1.test_account_markers@, r2.test_account_markers@, ",\"bot_user_ids\":"@ + (json_string_array(r1.bot_user_ids@) + (",\"min_turns\":"@ + (decimal(r1.min_turns as nat) + (",\"max_turns\":"@ + (decimal(r1.max_turns as nat) + ("}"@)))))), ",\"bot_user_ids\":"@ + (json_string_array(r2.bot_user_ids@) + (",\"min_turns\":"@ + (decimal(r2.min_turns as nat) + (",\"max_turns\":"@ + (decimal(r2.max_turns as nat) + ("}"@)))))));
    lemma_prefix_cancel(",\"bot_user_ids\":"@, json_string_array(r1.bot_user_ids@) + (",\"min_turns\":"@ + (decimal(r1.min_turns as nat) + (",\"max_turns\":"@ + (decimal(r1.max_turns as nat) + ("}"@))))), json_string_array(r2.bot_user_ids@) + (",\"min_turns\":"@ + (decimal(r2.min_turns as nat) + (",\"max_turns\":"@ + (decimal(r2.max_turns as nat) + ("}"@))))));
    lemma_string_array_cut(r1.bot_user_ids@, r2.bot_user_ids@, ",\"min_turns\":"@ + (decimal(r1.min_turns as nat) + (",\"max_turns\":"@ + (decimal(r1.max_turns as nat) + ("}"@)))), ",\"min_turns\":"@ + (decimal(r2.min_turns as nat) + (",\"max_turns\":"@ + (decimal(r2.max_turns as nat) + ("}"@)))));
    lemma_prefix_cancel(",\"min_turns\":"@, decimal(r1.min_turns as nat) + (",\"max_turns\":"@ + (decimal(r1.max_turns as nat) + ("}"@))), decimal(r2.min_turns as nat) + (",\"max_turns\":"@ + (decimal(r2.max_turns as nat) + ("}"@))));
    assert((",\"max_turns\":"@ + (decimal(r1.max_turns as nat) + ("}"@)))[0] == ',');
    assert((",\"max_turns\":"@ + (decimal(r2.max_turns as nat) + ("}"@)))[0] == ',');
    lemma_decimal_plain(r1.min_turns as nat);
    lemma_decimal_plain(r2.min_turns as nat);
    lemma_separator_cut(decimal(r1.min_turns as nat), decimal(r2.min_turns as nat), ",\"max_turns\":"@ + (decimal(r1.max_turns as nat) + ("}"@)), ",\"max_turns\":"@ + (decimal(r2.max_turns as nat) + ("}"@)), ',');
    lemma_decimal_injective(r1.min_turns as nat, r2.min_turns as nat);
    lemma_prefix_cancel(",\"max_turns\":"@, decimal(r1.max_turns as nat) + ("}"@), decimal(r2.max_turns as nat) + ("}"@));
    assert(("}"@)[0] == '}');
    assert(("}"@)[0] == '}');
    lemma_decimal_plain(r1.max_turns as nat);
    lemma_decimal_plain(r2.max_turns as nat);
    lemma_separator_cut(decimal(r1.max_turns as nat), decimal(r2.max_turns as nat), "}"@, "}"@, '}');
    lemma_decimal_injective(r1.max_turns as nat, r2.max_turns as nat);
}

// ---------------------------------------------------------------------------------------------
// The failed reasons and the summary, in terms of the records.
// ---------------------------------------------------------------------------------------------

/// `failed_reasons` names exactly the criteria a record fails: each name for its own flag or
/// bound, and nothing else.
pub proof fn law_failed_reasons_name_the_failed_criteria(r: ClaimView, min: u64, max: u64, scope_ok: bool)
    ensures
        failed_names(r, min, max, scope_ok).contains("downstream_reversal"@) <==> r.downstream_reversal,
        failed_names(r, min, max, scope_ok).contains("reached_human"@) <==> r.reached_human,
        failed_names(r, min, max, scope_ok).contains("reopened_within_window"@)
            <==> r.reopened_within_window,
        failed_names(r, min, max, scope_ok).contains("repeat_contact_window"@)
            <==> r.repeat_contact_window,
        failed_names(r, min, max, scope_ok).contains("requester_not_customer"@) <==> r.requester_class
            != "customer"@,
        failed_names(r, min, max, scope_ok).contains("scope_tag_invalid"@) <==> !scope_ok,
        failed_names(r, min, max, scope_ok).contains("turn_count_out_of_range"@) <==> (r.turn_count
            < min || r.turn_count > max),
        forall|n: Seq<char>|
            #[trigger] failed_names(r, min, max, scope_ok).contains(n) ==> n == "downstream_reversal"@
                || n == "reached_human"@ || n == "reopened_within_window"@ || n
                == "repeat_contact_window"@ || n == "requester_not_customer"@ || n
                == "scope_tag_invalid"@ || n == "turn_count_out_of_range"@,
{
    assert forall|k: int| 0 <= k < 7 implies (failed_names(r, min, max, scope_ok).contains(
        #[trigger] reason_name(k),
    ) <==> criterion_fails(r, min, max, scope_ok, k)) by {
        lemma_failed_names_contains(r, min, max, scope_ok, reason_name(k));
        assert forall|j: int| 0 <= j < 7 && j != k implies #[trigger] reason_name(j) != reason_name(k) by {
            if j < k {
                lemma_reason_names_distinct(j, k);
            } else {
                lemma_reason_names_distinct(k, j);
            }
        }
    }
    assert(reason_name(0) == "downstream_reversal"@);
    assert(reason_name(1) == "reached_human"@);
    assert(reason_name(2) == "reopened_within_window"@);
    assert(reason_name(3) == "repeat_contact_window"@);
    assert(reason_name(4) == "requester_not_customer"@);
    assert(reason_name(5) == "scope_tag_invalid"@);
    assert(reason_name(6) == "turn_count_out_of_range"@);
    assert forall|n: Seq<char>| #[trigger] failed_names(r, min, max, scope_ok).contains(n) implies n
        == "downstream_reversal"@ || n == "reached_human"@ || n == "reopened_within_window"@ || n
        == "repeat_contact_window"@ || n == "requester_not_customer"@ || n == "scope_tag_invalid"@
        || n == "turn_count_out_of_range"@ by {
        lemma_failed_names_contains(r, min, max, scope_ok, n);
    }
}

/// Sums of summands that agree everywhere agree.
proof fn lemma_sum_ext(n: nat, f: spec_fn(int) -> nat, g: spec_fn(int) -> nat)
    requires
        forall|i: int| #![trigger g(i)] 0 <= i < n ==> f(i) == g(i),
    ensures
        sum_of(n, f) == sum_of(n, g),
{
    lemma_sum_split(n, 0, f, g, g);
}

/// The summary counts and adds up the outcomes as the records read: claim records and
/// unmatched claims are billed; a claim record is unflagged when `failed_reasons` names nothing
/// for it and an exception otherwise; the billed amount is every billed outcome's amount and
/// the amount at stake is that of exceptions and unmatched claims (both saturating).
pub proof fn law_summary_from_the_records(s: Summary, os: Seq<Outcome>, min: u64, max: u64, flags: Seq<bool>)
    requires
        summarises(s, os, min, max, flags),
    ensures
        s.billed == count_where(os.len(), |i: int| os[i]@ is Claim || os[i]@ is Unmatched),
        s.verified == count_where(
            os.len(),
            |i: int|
                os[i]@ matches OutcomeView::Claim(r) && failed_names(r, min, max, flags[i]).len()
                    == 0,
        ),
        s.exceptions == count_where(
            os.len(),
            |i: int|
                os[i]@ matches OutcomeView::Claim(r) && failed_names(r, min, max, flags[i]).len()
                    > 0,
        ),
        s.deferred == count_where(os.len(), |i: int| os[i]@ is Deferred),
        s.unmatched == count_where(os.len(), |i: int| os[i]@ is Unmatched),
        s.billed_usd_micros == capped(
            sum_of(
                os.len(),
                |i: int|
                    match os[i]@ {
                        OutcomeView::Claim(r) => r.amount_usd_micros as nat,
                        OutcomeView::Unmatched { amount_usd_micros, .. } => amount_usd_micros as nat,
                        OutcomeView::Deferred { .. } => 0nat,
                    },
            ),
        ),
        s.at_stake_usd_micros == capped(
            sum_of(
                os.len(),
                |i: int|
                    match os[i]@ {
                        OutcomeView::Claim(r) => if failed_names(r, min, max, flags[i]).len() > 0 {
                            r.amount_usd_micros as nat
                        } else {
                            0nat
                        },
                        OutcomeView::Unmatched { amount_usd_micros, .. } => amount_usd_micros as nat,
                        OutcomeView::Deferred { .. } => 0nat,
                    },
            ),
        ),
{
    let n = os.len();
    assert forall|i: int| 0 <= i < n implies (#[trigger] os[i]@ matches OutcomeView::Claim(r) ==> (passes(
        r,
        min,
        max,
        flags[i],
    ) <==> failed_names(r, min, max, flags[i]).len() == 0)) by {
        if let OutcomeView::Claim(r) = os[i]@ {
            law_passes_iff_no_failed_reason(r, min, max, flags[i]);
        }
    }
    lemma_count_ext(n, billed_pred(os), |i: int| os[i]@ is Claim || os[i]@ is Unmatched);
    lemma_count_ext(
        n,
        unflagged_pred(os, min, max, flags),
        |i: int|
            os[i]@ matches OutcomeView::Claim(r) && failed_names(r, min, max, flags[i]).len() == 0,
    );
    lemma_count_ext(
        n,
        exception_pred(os, min, max, flags),
        |i: int|
            os[i]@ matches OutcomeView::Claim(r) && failed_names(r, min, max, flags[i]).len() > 0,
    );
    lemma_count_ext(n, deferred_pred(os), |i: int| os[i]@ is Deferred);
    lemma_count_ext(n, unmatched_pred(os), |i: int| os[i]@ is Unmatched);
    lemma_sum_ext(
        n,
        billed_amount(os),
        |i: int|
            match os[i]@ {
                OutcomeView::Claim(r) => r.amount_usd_micros as nat,
                OutcomeView::Unmatched { amount_usd_micros, .. } => amount_usd_micros as nat,
                OutcomeView::Deferred { .. } => 0nat,
            },
    );
    lemma_sum_ext(
        n,
        at_stake_amount(os, min, max, flags),
        |i: int|
            match os[i]@ {
                OutcomeView::Claim(r) => if failed_names(r, min, max, flags[i]).len() > 0 {
                    r.amount_usd_micros as nat
                } else {
                    0nat
                },
                OutcomeView::Unmatched { amount_usd_micros, .. } => amount_usd_micros as nat,
                OutcomeView::Deferred { .. } => 0nat,
            },
    );
}

} // verus!
