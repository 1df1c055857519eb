//! Vendor-neutral source records.
//!
//! Connectors translate a helpdesk's own shapes into these. The derivation sees nothing else.
use vstd::prelude::*;
use crate::time::Timestamp;

verus! {

/// A support ticket, reduced to the fields any resolution claim depends on.
#[derive(Clone, Debug)]
pub struct Ticket {
    /// Helpdesk ticket or conversation id, as that helpdesk writes it.
    pub id: String,
    /// The person who asked.
    pub requester_id: String,
    /// When the ticket was opened.
    pub created_at: Timestamp,
    /// Every tag on the ticket; the intent tag is selected from these by prefix.
    pub tags: Vec<String>,
}

/// Something that happened to a ticket.
#[derive(Clone, Debug)]
pub struct TicketEvent {
    /// Ticket this event belongs to.
    pub ticket_id: String,
    /// When it happened.
    pub at: Timestamp,
    /// What happened.
    pub kind: EventKind,
}

/// The event kinds that bear on whether a resolution was real.
#[derive(Clone, Debug)]
pub enum EventKind {
    /// Ticket status moved to this value, lowercased (`solved`, `open`, `pending`, `closed`).
    StatusChanged {
        /// The new status.
        to: String,
    },
    /// Ticket was assigned to a user.
    AssigneeChanged {
        /// The assignee, or `None` when unassigned.
        to_user_id: Option<String>,
    },
    /// A public comment was added by this author.
    PublicComment {
        /// Author of the comment.
        author_id: String,
    },
}

/// A helpdesk user, enough to classify who was actually asking.
#[derive(Clone, Debug)]
pub struct User {
    /// User id.
    pub id: String,
    /// Helpdesk role: `end-user`, `agent`, `admin` or `bot`.
    pub role: String,
    /// Email address, when the helpdesk exposes one.
    pub email: Option<String>,
}

/// A helpdesk role that belongs to staff rather than to a customer.
pub open spec fn is_staff_role_name(role: Seq<char>) -> bool {
    role == "agent"@ || role == "admin"@
}

impl User {
    /// True when this user is helpdesk staff rather than a customer.
    pub fn is_staff_role(&self) -> (b: bool)
        ensures
            b == is_staff_role_name(self.role@),
    {
        crate::text::str_eq(self.role.as_str(), "agent") || crate::text::str_eq(
            self.role.as_str(),
            "admin",
        )
    }
}

/// One resolution the vendor billed for.
#[derive(Clone, Debug)]
pub struct BilledClaim {
    /// The vendor's identifier for this billed resolution.
    pub claim_id: String,
    /// The ticket it refers to.
    pub ticket_id: String,
    /// `confirmed` or `assumed`, as the vendor classified it.
    pub resolution_type: String,
    /// When the vendor says the resolution occurred.
    pub resolved_at: Timestamp,
    /// Amount billed, in micros of USD.
    pub amount_usd_micros: u64,
}

/// Something in the buyer's own systems that contradicts a resolution.
#[derive(Clone, Debug)]
pub struct DownstreamEvent {
    /// The customer it concerns.
    pub requester_id: String,
    /// When it happened.
    pub at: Timestamp,
    /// `refund`, `cancellation`, `chargeback` or `return`.
    pub kind: String,
}

/// Everything one period's attestation runs on.
#[derive(Clone, Debug)]
pub struct SourceBundle {
    /// Tickets referenced by the billed claims.
    pub tickets: Vec<Ticket>,
    /// Events for those tickets.
    pub events: Vec<TicketEvent>,
    /// Users referenced as requesters or comment authors.
    pub users: Vec<User>,
    /// The vendor's billed resolutions for the period.
    pub claims: Vec<BilledClaim>,
    /// Contradicting events from the buyer's billing or order systems.
    pub downstream: Vec<DownstreamEvent>,
}

impl SourceBundle {
    /// Every instant in the bundle is a valid instant.
    pub open spec fn times_valid(self) -> bool {
        &&& forall|i: int| 0 <= i < self.tickets@.len() ==> #[trigger] self.tickets@[i].created_at.is_valid()
        &&& forall|i: int| 0 <= i < self.events@.len() ==> #[trigger] self.events@[i].at.is_valid()
        &&& forall|i: int| 0 <= i < self.claims@.len() ==> #[trigger] self.claims@[i].resolved_at.is_valid()
        &&& forall|i: int| 0 <= i < self.downstream@.len() ==> #[trigger] self.downstream@[i].at.is_valid()
    }
}

impl Default for SourceBundle {
    fn default() -> (b: Self)
        ensures
            b.tickets@.len() == 0,
            b.events@.len() == 0,
            b.users@.len() == 0,
            b.claims@.len() == 0,
            b.downstream@.len() == 0,
    {
        SourceBundle {
            tickets: Vec::new(),
            events: Vec::new(),
            users: Vec::new(),
            claims: Vec::new(),
            downstream: Vec::new(),
        }
    }
}

} // verus!
