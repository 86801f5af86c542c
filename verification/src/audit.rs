//! Audit trail of vouch operations: every lifecycle event of a vouch
//! (creation, modification, withdrawal, slashing, ...) is logged with its
//! timestamp, actor and details.
//!
//! The event counter and the trail of a vouch are records of contract
//! storage: the functions take what is stored and return what to store.
use vstd::prelude::*;

use crate::common::{AccountId, ContractError};

verus! {

/// Largest number of events returned in one page.
pub const MAX_PAGE_SIZE: u32 = 100;

/// Kind of vouch operation that an audit event records.
#[derive(Clone, Copy, Debug, PartialEq, Eq, Structural)]
pub enum VouchAuditEventType {
    Created,
    Modified,
    Withdrawn,
    Slashed,
    Transferred,
}

/// One logged vouch operation.
#[derive(Debug)]
pub struct VouchAuditEvent {
    pub timestamp: u64,
    pub operation: VouchAuditEventType,
    pub voucher: AccountId,
    pub borrower: AccountId,
    pub amount: i128,
    pub actor: Option<AccountId>,
    pub reason: Option<String>,
    pub token: AccountId,
    pub event_id: u64,
}

/// The audit trail of one vouch (borrower, voucher, token).
#[derive(Debug)]
pub struct VouchAuditTrail {
    pub voucher: AccountId,
    pub borrower: AccountId,
    pub token: AccountId,
    /// Events in the order they were logged
    pub events: Vec<VouchAuditEvent>,
    pub created_at: u64,
    pub last_event_at: u64,
}

fn copy_event(e: &VouchAuditEvent) -> (r: VouchAuditEvent)
    ensures
        r == *e,
{
    let reason = match &e.reason {
        Some(s) => Some(s.clone()),
        None => None,
    };
    VouchAuditEvent {
        timestamp: e.timestamp,
        operation: e.operation,
        voucher: e.voucher,
        borrower: e.borrower,
        amount: e.amount,
        actor: e.actor,
        reason,
        token: e.token,
        event_id: e.event_id,
    }
}

/// Log a vouch audit event: it takes the next event identifier and is
/// appended to the vouch's trail, which is created if there is none yet.
/// Returns the new event identifier (the counter's new value) and the trail.
pub fn log_vouch_audit_event(
    now: u64,
    counter: Option<u64>,
    trail: Option<VouchAuditTrail>,
    voucher: AccountId,
    borrower: AccountId,
    token: AccountId,
    operation: VouchAuditEventType,
    amount: i128,
    actor: Option<AccountId>,
    reason: Option<String>,
) -> (r: Result<(u64, VouchAuditTrail), ContractError>)
    ensures
        ({
            let previous: u64 = match counter {
                Some(c) => c,
                None => 0,
            };
            if previous == u64::MAX {
                r matches Err(e) && e == ContractError::ArithmeticError
            } else {
                let event_id = (previous + 1) as u64;
                let event = VouchAuditEvent {
                    timestamp: now,
                    operation,
                    voucher,
                    borrower,
                    amount,
                    actor,
                    reason,
                    token,
                    event_id,
                };
                r matches Ok((id, t)) && id == event_id && t.last_event_at == now && match trail {
                    Some(old_trail) => {
                        &&& t.voucher == old_trail.voucher
                        &&& t.borrower == old_trail.borrower
                        &&& t.token == old_trail.token
                        &&& t.created_at == old_trail.created_at
                        &&& t.events@ == old_trail.events@.push(event)
                    },
                    None => {
                        &&& t.voucher == voucher
                        &&& t.borrower == borrower
                        &&& t.token == token
                        &&& t.created_at == now
                        &&& t.events@ == seq![event]
                    },
                }
            }
        }),
{
    let previous: u64 = match counter {
        Some(c) => c,
        None => 0,
    };
    let event_id = match previous.checked_add(1) {
        Some(id) => id,
        None => return Err(ContractError::ArithmeticError),
    };

    let event = VouchAuditEvent {
        timestamp: now,
        operation,
        voucher,
        borrower,
        amount,
        actor,
        reason,
        token,
        event_id,
    };

    let mut audit_trail = match trail {
        Some(t) => t,
        None => VouchAuditTrail {
            voucher,
            borrower,
            token,
            events: Vec::new(),
            created_at: now,
            last_event_at: now,
        },
    };

    audit_trail.events.push(event);
    audit_trail.last_event_at = now;

    Ok((event_id, audit_trail))
}

/// The audit trail of a vouch, with all its events in the order they were logged.
pub fn get_vouch_audit_trail(trail: Option<VouchAuditTrail>) -> (r: Result<
    VouchAuditTrail,
    ContractError,
>)
    ensures
        trail is None ==> (r matches Err(e) && e == ContractError::InvalidInput),
        trail is Some ==> r == Ok::<VouchAuditTrail, ContractError>(trail->0),
{
    match trail {
        Some(t) => Ok(t),
        None => Err(ContractError::InvalidInput),
    }
}

/// Bounds `(start, end)` of the page of `len` events that starts at `offset`
/// and holds at most `limit` events (and at most `MAX_PAGE_SIZE`).
pub open spec fn page_bounds(len: nat, offset: u32, limit: u32) -> (int, int) {
    let clamped = if limit < MAX_PAGE_SIZE {
        limit
    } else {
        MAX_PAGE_SIZE
    };
    let end = if offset + clamped < len {
        offset + clamped
    } else {
        len as int
    };
    (offset as int, end)
}

/// A page of the audit events of a vouch: up to `limit` events (at most
/// `MAX_PAGE_SIZE`) starting at index `offset`; empty past the end.
pub fn get_vouch_audit_trail_page(trail: Option<VouchAuditTrail>, offset: u32, limit: u32) -> (r:
    Result<Vec<VouchAuditEvent>, ContractError>)
    requires
        offset as int + MAX_PAGE_SIZE <= usize::MAX,
    ensures
        trail is None ==> (r matches Err(e) && e == ContractError::InvalidInput),
        trail is Some ==> ({
            let events = trail->0.events@;
            let (start, end) = page_bounds(events.len(), offset, limit);
            r matches Ok(page) && if start >= events.len() {
                page@ == Seq::<VouchAuditEvent>::empty()
            } else {
                page@ == events.subrange(start, end)
            }
        }),
{
    let audit_trail = get_vouch_audit_trail(trail)?;

    let clamped_limit: u32 = if limit < MAX_PAGE_SIZE {
        limit
    } else {
        MAX_PAGE_SIZE
    };
    let start = offset as usize;
    let len = audit_trail.events.len();
    let end = if start + (clamped_limit as usize) < len {
        start + clamped_limit as usize
    } else {
        len
    };

    if start >= len {
        return Ok(Vec::new());
    }

    let mut result: Vec<VouchAuditEvent> = Vec::new();
    let mut i = start;
    while i < end
        invariant
            start <= i <= end <= len,
            len == audit_trail.events@.len(),
            result@ == audit_trail.events@.subrange(start as int, i as int),
        decreases end - i,
    {
        result.push(copy_event(&audit_trail.events[i]));
        assert(result@ =~= audit_trail.events@.subrange(start as int, i as int + 1));
        i = i + 1;
    }

    Ok(result)
}

/// Text of a decimal digit.
pub open spec fn digit_text(d: nat) -> Seq<char> {
    if d == 0 {
        "0"@
    } else if d == 1 {
        "1"@
    } else if d == 2 {
        "2"@
    } else if d == 3 {
        "3"@
    } else if d == 4 {
        "4"@
    } else if d == 5 {
        "5"@
    } else if d == 6 {
        "6"@
    } else if d == 7 {
        "7"@
    } else if d == 8 {
        "8"@
    } else {
        "9"@
    }
}

/// Decimal text of a natural number, without leading zeros.
pub open spec fn decimal_text(n: nat) -> Seq<char>
    decreases n,
{
    if n < 10 {
        digit_text(n)
    } else {
        decimal_text(n / 10) + digit_text(n % 10)
    }
}

/// Decimal text of an integer, with a leading minus sign when negative.
pub open spec fn signed_text(x: int) -> Seq<char> {
    if x < 0 {
        "-"@ + decimal_text((-x) as nat)
    } else {
        decimal_text(x as nat)
    }
}

/// Name of an operation in a report.
pub open spec fn operation_text(op: VouchAuditEventType) -> Seq<char> {
    match op {
        VouchAuditEventType::Created => "Created"@,
        VouchAuditEventType::Modified => "Modified"@,
        VouchAuditEventType::Withdrawn => "Withdrawn"@,
        VouchAuditEventType::Slashed => "Slashed"@,
        VouchAuditEventType::Transferred => "Transferred"@,
    }
}

/// The report line of one event: its identifier, operation, amount and time.
pub open spec fn event_text(e: VouchAuditEvent) -> Seq<char> {
    "Event "@ + decimal_text(e.event_id as nat) + ": "@ + operation_text(e.operation)
        + ", amount "@ + signed_text(e.amount as int) + ", at "@ + decimal_text(
        e.timestamp as nat,
    ) + "\n"@
}

/// The report lines of the events, in order.
pub open spec fn events_text(s: Seq<VouchAuditEvent>) -> Seq<char>
    decreases s.len(),
{
    if s.len() == 0 {
        Seq::empty()
    } else {
        events_text(s.drop_last()) + event_text(s.last())
    }
}

/// The report of a trail: a header, the number of events, and one line per
/// event in the order they were logged.
pub open spec fn report_text(events: Seq<VouchAuditEvent>) -> Seq<char> {
    "Vouch Audit Report\n==================\n"@ + "Total Events: "@ + decimal_text(
        events.len(),
    ) + "\n"@ + events_text(events)
}

fn append_digit(s: &mut String, d: u128)
    requires
        d < 10,
    ensures
        final(s)@ == old(s)@ + digit_text(d as nat),
{
    if d == 0 {
        s.append("0");
    } else if d == 1 {
        s.append("1");
    } else if d == 2 {
        s.append("2");
    } else if d == 3 {
        s.append("3");
    } else if d == 4 {
        s.append("4");
    } else if d == 5 {
        s.append("5");
    } else if d == 6 {
        s.append("6");
    } else if d == 7 {
        s.append("7");
    } else if d == 8 {
        s.append("8");
    } else {
        s.append("9");
    }
}

fn append_decimal(s: &mut String, n: u128)
    ensures
        final(s)@ == old(s)@ + decimal_text(n as nat),
    decreases n,
{
    if n < 10 {
        append_digit(s, n);
    } else {
        let ghost start = s@;
        append_decimal(s, n / 10);
        append_digit(s, n % 10);
        assert(s@ =~= start + decimal_text(n as nat));
    }
}

fn append_signed(s: &mut String, x: i128)
    ensures
        final(s)@ == old(s)@ + signed_text(x as int),
{
    if x < 0 {
        let ghost start = s@;
        s.append("-");
        let magnitude: u128 = (-(x + 1)) as u128 + 1;
        append_decimal(s, magnitude);
        assert(s@ =~= start + signed_text(x as int));
    } else {
        append_decimal(s, x as u128);
    }
}

fn append_operation(s: &mut String, op: VouchAuditEventType)
    ensures
        final(s)@ == old(s)@ + operation_text(op),
{
    match op {
        VouchAuditEventType::Created => s.append("Created"),
        VouchAuditEventType::Modified => s.append("Modified"),
        VouchAuditEventType::Withdrawn => s.append("Withdrawn"),
        VouchAuditEventType::Slashed => s.append("Slashed"),
        VouchAuditEventType::Transferred => s.append("Transferred"),
    }
}

fn append_event(s: &mut String, e: &VouchAuditEvent)
    ensures
        final(s)@ == old(s)@ + event_text(*e),
{
    let ghost start = s@;
    s.append("Event ");
    append_decimal(s, e.event_id as u128);
    s.append(": ");
    append_operation(s, e.operation);
    s.append(", amount ");
    append_signed(s, e.amount);
    s.append(", at ");
    append_decimal(s, e.timestamp as u128);
    s.append("\n");
    assert(s@ =~= start + event_text(*e));
}

/// Export the audit trail of a vouch as a human-readable report: a header,
/// the number of events, and one line per event (identifier, operation,
/// amount and time) in the order they were logged.
pub fn export_vouch_audit_report(trail: Option<VouchAuditTrail>) -> (r: Result<
    String,
    ContractError,
>)
    ensures
        trail is None ==> (r matches Err(e) && e == ContractError::InvalidInput),
        trail is Some ==> (r matches Ok(s) && s@ == report_text(trail->0.events@)),
{
    let audit_trail = get_vouch_audit_trail(trail)?;
    let ghost events = audit_trail.events@;

    let mut report = "Vouch Audit Report\n==================\n".to_owned();
    report.append("Total Events: ");
    append_decimal(&mut report, audit_trail.events.len() as u128);
    report.append("\n");
    let ghost header = report@;

    let mut i: usize = 0;
    while i < audit_trail.events.len()
        invariant
            events == audit_trail.events@,
            i <= events.len(),
            report@ == header + events_text(events.take(i as int)),
        decreases events.len() - i,
    {
        assert(events.take(i as int + 1).drop_last() =~= events.take(i as int));
        append_event(&mut report, &audit_trail.events[i]);
        assert(report@ =~= header + events_text(events.take(i as int + 1)));
        i = i + 1;
    }
    assert(events.take(i as int) =~= events);
    assert(report@ =~= report_text(events));
    Ok(report)
}

// ---------------------------------------------------------------------------
// Properties of the audit trail
// ---------------------------------------------------------------------------

/// Event identifiers that strictly increase along the trail, none above `counter`.
pub open spec fn ids_increasing_up_to(events: Seq<VouchAuditEvent>, counter: u64) -> bool {
    &&& forall|i: int, j: int|
        0 <= i < j < events.len() ==> (#[trigger] events[i]).event_id < (#[trigger] events[j]).event_id
    &&& forall|i: int| 0 <= i < events.len() ==> (#[trigger] events[i]).event_id <= counter
}

/// A trail in chronological order: identifiers strictly increasing and none
/// above `counter`, timestamps never decreasing and none after `last_event_at`.
pub open spec fn trail_ordered(events: Seq<VouchAuditEvent>, counter: u64, last_event_at: u64) -> bool {
    &&& ids_increasing_up_to(events, counter)
    &&& forall|i: int, j: int|
        0 <= i < j < events.len() ==> (#[trigger] events[i]).timestamp <= (
        #[trigger] events[j]).timestamp
    &&& forall|i: int| 0 <= i < events.len() ==> (#[trigger] events[i]).timestamp <= last_event_at
}

/// Logging an event at a time no earlier than the trail's last event keeps
/// the trail in chronological order: the new event takes the next identifier,
/// goes last, and the trail holds one event more.
pub proof fn lemma_logging_keeps_trail_ordered(
    events: Seq<VouchAuditEvent>,
    counter: u64,
    last_event_at: u64,
    event: VouchAuditEvent,
)
    requires
        trail_ordered(events, counter, last_event_at),
        counter < u64::MAX,
        event.event_id == counter + 1,
        last_event_at <= event.timestamp,
    ensures
        trail_ordered(events.push(event), (counter + 1) as u64, event.timestamp),
        events.push(event).len() == events.len() + 1,
        events.push(event).last() == event,
{
    let s = events.push(event);
    assert forall|i: int, j: int| 0 <= i < j < s.len() implies (#[trigger] s[i]).event_id < (
    #[trigger] s[j]).event_id && s[i].timestamp <= s[j].timestamp by {
        assert(s[i] == events[i]);
        if j < events.len() {
            assert(s[j] == events[j]);
        }
    }
    assert forall|i: int| 0 <= i < s.len() implies (#[trigger] s[i]).event_id <= counter + 1
        && s[i].timestamp <= event.timestamp by {
        if i < events.len() {
            assert(s[i] == events[i]);
        }
    }
}

/// Events logged for other vouches only advance the shared counter, which
/// keeps a trail in order.
pub proof fn lemma_trail_ordered_as_counter_advances(
    events: Seq<VouchAuditEvent>,
    counter: u64,
    later_counter: u64,
    last_event_at: u64,
)
    requires
        trail_ordered(events, counter, last_event_at),
        counter <= later_counter,
    ensures
        trail_ordered(events, later_counter, last_event_at),
{
}

/// A page from the start with room for the whole trail returns the whole trail.
pub proof fn lemma_first_page_is_whole_trail(len: nat, limit: u32)
    requires
        0 < len <= limit,
        len <= MAX_PAGE_SIZE,
    ensures
        page_bounds(len, 0, limit) == (0int, len as int),
{
}

} // verus!
