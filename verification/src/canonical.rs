//! The canonical text of the source records one claim was derived from, whose digest each claim
//! record carries as `inputs_sha256`.
//!
//! The text is one compact JSON object with the keys in ascending order: `claim`, the
//! `downstream` events of the ticket's requester (in bundle order), the `events` of the ticket
//! (ordered by time, ties in bundle order), the `ticket`, and the `users` whose directory
//! records the derivation reads (the requester, and every user an event of the ticket names as
//! assignee or comment author), in bundle order. Every object inside also has its keys
//! in ascending order, and instants are written in RFC 3339 with a `Z` offset.
use vstd::prelude::*;
use crate::json::{join_commas, json_array, json_string, json_string_array, lemma_join_commas_step, write_string, write_string_array};
use crate::source::{BilledClaim, DownstreamEvent, EventKind, Ticket, TicketEvent, User};
use crate::text::{decimal, push_char, push_decimal};
use crate::time::{format_rfc3339, rfc3339_text, Timestamp};

verus! {

broadcast use vstd::string::group_string_axioms;

/// An instant as a JSON string, with a `Z` offset.
pub open spec fn time_text(t: Timestamp) -> Seq<char> {
    json_string(rfc3339_text(t.secs as int, t.nanos as int, true))
}

pub open spec fn ticket_text(t: Ticket) -> Seq<char> {
    "{\"created_at\":"@ + time_text(t.created_at) + ",\"id\":"@ + json_string(t.id@)
        + ",\"requester_id\":"@ + json_string(t.requester_id@) + ",\"tags\":"@
        + json_string_array(t.tags@) + "}"@
}

pub open spec fn kind_text(k: EventKind) -> Seq<char> {
    match k {
        EventKind::StatusChanged { to } => "{\"status_changed\":{\"to\":"@ + json_string(to@)
            + "}}"@,
        EventKind::AssigneeChanged { to_user_id } => "{\"assignee_changed\":{\"to_user_id\":"@
            + match to_user_id {
            Some(u) => json_string(u@),
            None => "null"@,
        } + "}}"@,
        EventKind::PublicComment { author_id } => "{\"public_comment\":{\"author_id\":"@
            + json_string(author_id@) + "}}"@,
    }
}

pub open spec fn event_text(e: TicketEvent) -> Seq<char> {
    "{\"at\":"@ + time_text(e.at) + ",\"kind\":"@ + kind_text(e.kind) + ",\"ticket_id\":"@
        + json_string(e.ticket_id@) + "}"@
}

pub open spec fn claim_text(c: BilledClaim) -> Seq<char> {
    "{\"amount_usd_micros\":"@ + decimal(c.amount_usd_micros as nat) + ",\"claim_id\":"@
        + json_string(c.claim_id@) + ",\"resolution_type\":"@ + json_string(c.resolution_type@)
        + ",\"resolved_at\":"@ + time_text(c.resolved_at) + ",\"ticket_id\":"@ + json_string(
        c.ticket_id@,
    ) + "}"@
}

pub open spec fn downstream_text(d: DownstreamEvent) -> Seq<char> {
    "{\"at\":"@ + time_text(d.at) + ",\"kind\":"@ + json_string(d.kind@) + ",\"requester_id\":"@
        + json_string(d.requester_id@) + "}"@
}

/// The texts of the downstream events concerning `requester`, in order.
pub open spec fn downstream_texts(ds: Seq<DownstreamEvent>, requester: Seq<char>) -> Seq<Seq<char>>
    decreases ds.len(),
{
    if ds.len() == 0 {
        Seq::empty()
    } else {
        let rest = downstream_texts(ds.drop_last(), requester);
        if ds.last().requester_id@ == requester {
            rest.push(downstream_text(ds.last()))
        } else {
            rest
        }
    }
}

/// Where an event at `t` goes among the already ordered events `order`: before the first one
/// that is strictly later, or at the end.
pub open spec fn insert_pos(events: Seq<TicketEvent>, order: Seq<usize>, t: Timestamp) -> int
    decreases order.len(),
{
    if order.len() == 0 {
        0
    } else if t.precedes(events[order[0] as int].at) {
        0
    } else {
        1 + insert_pos(events, order.drop_first(), t)
    }
}

/// The indices of the first `n` events that belong to ticket `id`, ordered by time with ties in
/// index order (a stable sort by time).
pub open spec fn time_order(events: Seq<TicketEvent>, id: Seq<char>, n: nat) -> Seq<usize>
    decreases n,
{
    if n == 0 {
        Seq::empty()
    } else {
        let prev = time_order(events, id, (n - 1) as nat);
        let k = n - 1;
        if events[k].ticket_id@ == id {
            prev.insert(insert_pos(events, prev, events[k].at), k as usize)
        } else {
            prev
        }
    }
}

/// A directory record, with its keys in ascending order.
pub open spec fn user_text(u: User) -> Seq<char> {
    "{\"email\":"@ + match u.email {
        Some(e) => json_string(e@),
        None => "null"@,
    } + ",\"id\":"@ + json_string(u.id@) + ",\"role\":"@ + json_string(u.role@) + "}"@
}

/// Event `e` names the user `id`: as the new assignee, or as the author of a public comment.
pub open spec fn names_user(e: TicketEvent, id: Seq<char>) -> bool {
    match e.kind {
        EventKind::AssigneeChanged { to_user_id } => to_user_id matches Some(u) && u@ == id,
        EventKind::PublicComment { author_id } => author_id@ == id,
        EventKind::StatusChanged { .. } => false,
    }
}

/// The directory record `u` is one the derivation of a claim reads: that of the requester, or
/// of a user that an event of ticket `ticket_id` names.
pub open spec fn user_relevant(u: User, requester: Seq<char>, events: Seq<TicketEvent>, ticket_id: Seq<char>) -> bool {
    u.id@ == requester || exists|k: int|
        0 <= k < events.len() && events[k].ticket_id@ == ticket_id && #[trigger] names_user(
            events[k],
            u.id@,
        )
}

/// The texts of the directory records the derivation reads, in order.
pub open spec fn user_texts(
    users: Seq<User>,
    requester: Seq<char>,
    events: Seq<TicketEvent>,
    ticket_id: Seq<char>,
) -> Seq<Seq<char>>
    decreases users.len(),
{
    if users.len() == 0 {
        Seq::empty()
    } else {
        let rest = user_texts(users.drop_last(), requester, events, ticket_id);
        if user_relevant(users.last(), requester, events, ticket_id) {
            rest.push(user_text(users.last()))
        } else {
            rest
        }
    }
}

/// The canonical text of the inputs of one claim.
pub open spec fn inputs_text(
    claim: BilledClaim,
    ticket: Ticket,
    events: Seq<TicketEvent>,
    order: Seq<usize>,
    downstream: Seq<DownstreamEvent>,
    users: Seq<User>,
) -> Seq<char> {
    "{\"claim\":"@ + claim_text(claim) + ",\"downstream\":"@ + json_array(
        downstream_texts(downstream, ticket.requester_id@),
    ) + ",\"events\":"@ + json_array(
        Seq::new(order.len(), |j: int| event_text(events[order[j] as int])),
    ) + ",\"ticket\":"@ + ticket_text(ticket) + ",\"users\":"@ + json_array(
        user_texts(users, ticket.requester_id@, events, claim.ticket_id@),
    ) + "}"@
}

fn time_json(out: &mut String, t: Timestamp)
    requires
        t.is_valid(),
    ensures
        final(out)@ == old(out)@ + time_text(t),
{
    let s = format_rfc3339(t, true);
    write_string(out, s.as_str());
}

pub fn ticket_json(t: &Ticket) -> (s: String)
    requires
        t.created_at.is_valid(),
    ensures
        s@ == ticket_text(*t),
{
    let mut out = String::new();
    out.append("{\"created_at\":");
    assert(out@ =~= "{\"created_at\":"@);
    time_json(&mut out, t.created_at);
    out.append(",\"id\":");
    write_string(&mut out, t.id.as_str());
    out.append(",\"requester_id\":");
    write_string(&mut out, t.requester_id.as_str());
    out.append(",\"tags\":");
    write_string_array(&mut out, &t.tags);
    out.append("}");
    out
}

fn kind_json(k: &EventKind) -> (s: String)
    ensures
        s@ == kind_text(*k),
{
    let mut out = String::new();
    match k {
        EventKind::StatusChanged { to } => {
            out.append("{\"status_changed\":{\"to\":");
            assert(out@ =~= "{\"status_changed\":{\"to\":"@);
            write_string(&mut out, to.as_str());
        },
        EventKind::AssigneeChanged { to_user_id } => {
            out.append("{\"assignee_changed\":{\"to_user_id\":");
            assert(out@ =~= "{\"assignee_changed\":{\"to_user_id\":"@);
            match to_user_id {
                Some(u) => write_string(&mut out, u.as_str()),
                None => out.append("null"),
            }
        },
        EventKind::PublicComment { author_id } => {
            out.append("{\"public_comment\":{\"author_id\":");
            assert(out@ =~= "{\"public_comment\":{\"author_id\":"@);
            write_string(&mut out, author_id.as_str());
        },
    }
    out.append("}}");
    out
}

pub fn event_json(e: &TicketEvent) -> (s: String)
    requires
        e.at.is_valid(),
    ensures
        s@ == event_text(*e),
{
    let mut out = String::new();
    out.append("{\"at\":");
    assert(out@ =~= "{\"at\":"@);
    time_json(&mut out, e.at);
    out.append(",\"kind\":");
    let k = kind_json(&e.kind);
    out.append(k.as_str());
    out.append(",\"ticket_id\":");
    write_string(&mut out, e.ticket_id.as_str());
    out.append("}");
    out
}

pub fn claim_json(c: &BilledClaim) -> (s: String)
    requires
        c.resolved_at.is_valid(),
    ensures
        s@ == claim_text(*c),
{
    let mut out = String::new();
    out.append("{\"amount_usd_micros\":");
    assert(out@ =~= "{\"amount_usd_micros\":"@);
    push_decimal(&mut out, c.amount_usd_micros);
    out.append(",\"claim_id\":");
    write_string(&mut out, c.claim_id.as_str());
    out.append(",\"resolution_type\":");
    write_string(&mut out, c.resolution_type.as_str());
    out.append(",\"resolved_at\":");
    time_json(&mut out, c.resolved_at);
    out.append(",\"ticket_id\":");
    write_string(&mut out, c.ticket_id.as_str());
    out.append("}");
    out
}

pub fn downstream_json(d: &DownstreamEvent) -> (s: String)
    requires
        d.at.is_valid(),
    ensures
        s@ == downstream_text(*d),
{
    let mut out = String::new();
    out.append("{\"at\":");
    assert(out@ =~= "{\"at\":"@);
    time_json(&mut out, d.at);
    out.append(",\"kind\":");
    write_string(&mut out, d.kind.as_str());
    out.append(",\"requester_id\":");
    write_string(&mut out, d.requester_id.as_str());
    out.append("}");
    out
}

/// Appends the array of the downstream events concerning `requester`.
fn write_downstream_array(out: &mut String, ds: &Vec<DownstreamEvent>, requester: &str)
    requires
        forall|i: int| 0 <= i < ds@.len() ==> #[trigger] ds@[i].at.is_valid(),
    ensures
        final(out)@ == old(out)@ + json_array(downstream_texts(ds@, requester@)),
{
    push_char(out, '[');
    let mut i: usize = 0;
    let mut empty = true;
    while i < ds.len()
        invariant
            i <= ds@.len(),
            empty <==> downstream_texts(ds@.take(i as int), requester@).len() == 0,
            forall|k: int| 0 <= k < ds@.len() ==> #[trigger] ds@[k].at.is_valid(),
            out@ == old(out)@ + seq!['['] + join_commas(
                downstream_texts(ds@.take(i as int), requester@),
            ),
        decreases ds.len() - i,
    {
        let ghost before = downstream_texts(ds@.take(i as int), requester@);
        proof {
            assert(ds@.take(i + 1).drop_last() =~= ds@.take(i as int));
        }
        if crate::text::str_eq(ds[i].requester_id.as_str(), requester) {
            let text = downstream_json(&ds[i]);
            proof {
                let after = before.push(downstream_text(ds@[i as int]));
                assert(after.take(before.len() as int) =~= before);
                assert(after.take(after.len() as int) =~= after);
                lemma_join_commas_step(after, before.len() as int);
            }
            if !empty {
                push_char(out, ',');
            }
            out.append(text.as_str());
            empty = false;
        }
        i = i + 1;
        assert(out@ =~= old(out)@ + seq!['['] + join_commas(
            downstream_texts(ds@.take(i as int), requester@),
        ));
    }
    push_char(out, ']');
    assert(ds@.take(ds@.len() as int) =~= ds@);
    assert(out@ =~= old(out)@ + json_array(downstream_texts(ds@, requester@)));
}

/// Appends the array of the events at the positions `order`, in that order.
fn write_event_array(out: &mut String, events: &Vec<TicketEvent>, order: &Vec<usize>)
    requires
        forall|j: int| 0 <= j < order@.len() ==> #[trigger] order@[j] < events@.len(),
        forall|i: int| 0 <= i < events@.len() ==> #[trigger] events@[i].at.is_valid(),
    ensures
        final(out)@ == old(out)@ + json_array(
            Seq::new(order@.len(), |j: int| event_text(events@[order@[j] as int])),
        ),
{
    let ghost texts = Seq::new(order@.len(), |j: int| event_text(events@[order@[j] as int]));
    push_char(out, '[');
    let mut j: usize = 0;
    while j < order.len()
        invariant
            j <= order@.len(),
            forall|m: int| 0 <= m < order@.len() ==> #[trigger] order@[m] < events@.len(),
            forall|i: int| 0 <= i < events@.len() ==> #[trigger] events@[i].at.is_valid(),
            texts == Seq::new(order@.len(), |m: int| event_text(events@[order@[m] as int])),
            out@ == old(out)@ + seq!['['] + join_commas(texts.take(j as int)),
        decreases order.len() - j,
    {
        proof {
            lemma_join_commas_step(texts, j as int);
        }
        let k = order[j];
        let text = event_json(&events[k]);
        if j > 0 {
            push_char(out, ',');
        }
        out.append(text.as_str());
        j = j + 1;
        assert(out@ =~= old(out)@ + seq!['['] + join_commas(texts.take(j as int)));
    }
    push_char(out, ']');
    assert(texts.take(order@.len() as int) =~= texts);
    assert(out@ =~= old(out)@ + json_array(texts));
}

fn user_json(u: &User) -> (s: String)
    ensures
        s@ == user_text(*u),
{
    let mut out = String::new();
    out.append("{\"email\":");
    assert(out@ =~= "{\"email\":"@);
    match &u.email {
        Some(e) => write_string(&mut out, e.as_str()),
        None => out.append("null"),
    }
    out.append(",\"id\":");
    write_string(&mut out, u.id.as_str());
    out.append(",\"role\":");
    write_string(&mut out, u.role.as_str());
    out.append("}");
    out
}

fn names_user_exec(e: &TicketEvent, id: &str) -> (b: bool)
    ensures
        b == names_user(*e, id@),
{
    match &e.kind {
        EventKind::AssigneeChanged { to_user_id } => match to_user_id {
            Some(u) => crate::text::str_eq(u.as_str(), id),
            None => false,
        },
        EventKind::PublicComment { author_id } => crate::text::str_eq(author_id.as_str(), id),
        EventKind::StatusChanged { .. } => false,
    }
}

fn user_relevant_exec(u: &User, requester: &str, events: &Vec<TicketEvent>, ticket_id: &str) -> (b: bool)
    ensures
        b == user_relevant(*u, requester@, events@, ticket_id@),
{
    if crate::text::str_eq(u.id.as_str(), requester) {
        return true;
    }
    let mut k: usize = 0;
    while k < events.len()
        invariant
            k <= events@.len(),
            forall|m: int|
                0 <= m < k ==> !(events@[m].ticket_id@ == ticket_id@ && #[trigger] names_user(
                    events@[m],
                    u.id@,
                )),
        decreases events.len() - k,
    {
        if crate::text::str_eq(events[k].ticket_id.as_str(), ticket_id) && names_user_exec(
            &events[k],
            u.id.as_str(),
        ) {
            return true;
        }
        k = k + 1;
    }
    false
}

/// Appends the array of the directory records the derivation reads.
fn write_user_array(
    out: &mut String,
    users: &Vec<User>,
    requester: &str,
    events: &Vec<TicketEvent>,
    ticket_id: &str,
)
    ensures
        final(out)@ == old(out)@ + json_array(user_texts(users@, requester@, events@, ticket_id@)),
{
    push_char(out, '[');
    let mut i: usize = 0;
    let mut empty = true;
    while i < users.len()
        invariant
            i <= users@.len(),
            empty <==> user_texts(users@.take(i as int), requester@, events@, ticket_id@).len() == 0,
            out@ == old(out)@ + seq!['['] + join_commas(
                user_texts(users@.take(i as int), requester@, events@, ticket_id@),
            ),
        decreases users.len() - i,
    {
        let ghost before = user_texts(users@.take(i as int), requester@, events@, ticket_id@);
        proof {
            assert(users@.take(i + 1).drop_last() =~= users@.take(i as int));
        }
        if user_relevant_exec(&users[i], requester, events, ticket_id) {
            let text = user_json(&users[i]);
            proof {
                let after = before.push(user_text(users@[i as int]));
                assert(after.take(before.len() as int) =~= before);
                assert(after.take(after.len() as int) =~= after);
                lemma_join_commas_step(after, before.len() as int);
            }
            if !empty {
                push_char(out, ',');
            }
            out.append(text.as_str());
            empty = false;
        }
        i = i + 1;
        assert(out@ =~= old(out)@ + seq!['['] + join_commas(
            user_texts(users@.take(i as int), requester@, events@, ticket_id@),
        ));
    }
    push_char(out, ']');
    assert(users@.take(users@.len() as int) =~= users@);
    assert(out@ =~= old(out)@ + json_array(user_texts(users@, requester@, events@, ticket_id@)));
}

/// The canonical text of the inputs of one claim.
pub fn inputs_json(
    claim: &BilledClaim,
    ticket: &Ticket,
    events: &Vec<TicketEvent>,
    order: &Vec<usize>,
    downstream: &Vec<DownstreamEvent>,
    users: &Vec<User>,
) -> (s: String)
    requires
        claim.resolved_at.is_valid(),
        ticket.created_at.is_valid(),
        forall|j: int| 0 <= j < order@.len() ==> #[trigger] order@[j] < events@.len(),
        forall|i: int| 0 <= i < events@.len() ==> #[trigger] events@[i].at.is_valid(),
        forall|i: int| 0 <= i < downstream@.len() ==> #[trigger] downstream@[i].at.is_valid(),
    ensures
        s@ == inputs_text(*claim, *ticket, events@, order@, downstream@, users@),
{
    let mut out = String::new();
    out.append("{\"claim\":");
    assert(out@ =~= "{\"claim\":"@);
    let c = claim_json(claim);
    out.append(c.as_str());
    out.append(",\"downstream\":");
    write_downstream_array(&mut out, downstream, ticket.requester_id.as_str());
    out.append(",\"events\":");
    write_event_array(&mut out, events, order);
    out.append(",\"ticket\":");
    let t = ticket_json(ticket);
    out.append(t.as_str());
    out.append(",\"users\":");
    write_user_array(&mut out, users, ticket.requester_id.as_str(), events, claim.ticket_id.as_str());
    out.append("}");
    out
}

} // verus!
