use vstd::prelude::*;

use crate::decimal::{decimal_digits, parse_u32, u64_to_decimal};
use crate::state::{
    lemma_slots_map_lookup, lemma_slots_map_update,
    attrs_view, same_address, slot_data, slots_map, Address, AppDataSlot, Attribute,
    EventCollection, Manager, Ticket, TicketError,
};

verus! {

/// What an event is created with.
pub struct CreateEventArgs {
    pub name: String,
    pub uri: String,
    pub city: String,
    pub venue: String,
    pub artist: String,
    pub date: String,
    pub time: String,
    pub capacity: u64,
}

/// What a ticket is minted with.
pub struct CreateTicketArgs {
    pub name: String,
    pub uri: String,
    pub hall: String,
    pub section: String,
    pub row: String,
    pub seat: String,
    pub price: u64,
    pub venue_authority: Address,
}

/// The accounts of the manager's creation; `bump` is the one its address was derived with.
pub struct SetupManager {
    pub signer: Address,
    pub payer: Address,
    pub manager: Manager,
    pub bump: u8,
}

/// The accounts of an event's creation; `event` is the new collection's address.
pub struct CreateEvent {
    pub signer: Address,
    pub payer: Address,
    pub manager: Manager,
    pub manager_key: Address,
    pub event: Address,
}

/// The accounts of a mint; `ticket` is the new ticket's address and `signer` its owner.
pub struct CreateTicket {
    pub signer: Address,
    pub payer: Address,
    pub manager: Manager,
    pub manager_key: Address,
    pub event: EventCollection,
    pub ticket: Address,
}

/// The accounts of a scan; `signer` is the venue authority that scans.
pub struct ScanTicket {
    pub owner: Address,
    pub signer: Address,
    pub payer: Address,
    pub manager: Manager,
    pub manager_key: Address,
    pub ticket: Ticket,
    pub event: EventCollection,
}

impl CreateTicket {
    pub open spec fn constraints_spec(&self) -> bool {
        self.event.update_authority == self.manager_key
    }

    /// Whether the event is under the manager's authority.
    pub fn constraints_hold(&self) -> (r: bool)
        ensures
            r == self.constraints_spec(),
    {
        same_address(&self.event.update_authority, &self.manager_key)
    }
}

impl ScanTicket {
    pub open spec fn constraints_spec(&self) -> bool {
        &&& self.ticket.owner == self.owner
        &&& self.ticket.collection == self.event.key
        &&& self.event.update_authority == self.manager_key
    }

    /// Whether the ticket belongs to `owner` and to the event, and the event to the manager.
    pub fn constraints_hold(&self) -> (r: bool)
        ensures
            r == self.constraints_spec(),
    {
        same_address(&self.ticket.owner, &self.owner) && same_address(
            &self.ticket.collection,
            &self.event.key,
        ) && same_address(&self.event.update_authority, &self.manager_key)
    }
}

/// The attributes an event is created with.
pub open spec fn event_attributes(args: CreateEventArgs) -> Seq<(Seq<char>, Seq<char>)> {
    seq![
        ("City"@, args.city@),
        ("Venue"@, args.venue@),
        ("Artist"@, args.artist@),
        ("Date"@, args.date@),
        ("Time"@, args.time@),
        ("Capacity"@, decimal_digits(args.capacity as nat)),
    ]
}

/// The attributes of the ticket numbered `number`.
pub open spec fn ticket_attributes(number: u32, args: CreateTicketArgs) -> Seq<
    (Seq<char>, Seq<char>),
> {
    seq![
        ("Ticket Number"@, decimal_digits(number as nat)),
        ("Hall"@, args.hall@),
        ("Section"@, args.section@),
        ("Row"@, args.row@),
        ("Seat"@, args.seat@),
        ("Price"@, decimal_digits(args.price as nat)),
    ]
}

/// The value of the first attribute named `key`.
pub open spec fn first_value(attrs: Seq<(Seq<char>, Seq<char>)>, key: Seq<char>) -> Option<
    Seq<char>,
>
    decreases attrs.len(),
{
    if attrs.len() == 0 {
        None
    } else if attrs[0].0 == key {
        Some(attrs[0].1)
    } else {
        first_value(attrs.drop_first(), key)
    }
}

/// What a mint against a collection with these attributes and `minted` tickets
/// gives: the new ticket's number, or the error.
pub open spec fn mint_outcome(attrs: Seq<(Seq<char>, Seq<char>)>, minted: u32) -> Result<
    u32,
    TicketError,
> {
    match first_value(attrs, "Capacity"@) {
        None => Err(TicketError::MissingAttribute),
        Some(text) => match crate::decimal::parsed_u32(text) {
            None => Err(TicketError::NumericalOverflow),
            Some(capacity) => if minted >= capacity {
                Err(TicketError::MaximumTicketsReached)
            } else if minted == u32::MAX {
                Err(TicketError::NumericalOverflow)
            } else {
                Ok((minted + 1) as u32)
            },
        },
    }
}

/// The collection's count of minted tickets after that mint.
pub open spec fn minted_after(attrs: Seq<(Seq<char>, Seq<char>)>, minted: u32) -> u32 {
    match mint_outcome(attrs, minted) {
        Ok(number) => number,
        Err(_) => minted,
    }
}

/// The ticket that a successful mint numbered `number` creates.
pub open spec fn is_issued_ticket(
    t: Ticket,
    ctx: CreateTicket,
    args: CreateTicketArgs,
    number: u32,
) -> bool {
    &&& t.key == ctx.ticket
    &&& t.owner == ctx.signer
    &&& t.collection == ctx.event.key
    &&& t.authority == ctx.manager_key
    &&& t.name@ == args.name@
    &&& t.uri@ == args.uri@
    &&& attrs_view(t.attributes@) == ticket_attributes(number, args)
    &&& !t.frozen
    &&& t.burn_delegate
    &&& t.transfer_delegate
    &&& t.app_data@.len() == 1
    &&& t.app_data@[0].data_authority == args.venue_authority
    &&& t.app_data@[0].data@.len() == 0
}

/// The bytes a scan writes: the text `Scanned`.
pub open spec fn scan_marker() -> Seq<u8> {
    seq![83u8, 99u8, 97u8, 110u8, 110u8, 101u8, 100u8]
}

/// What a scan by `signer` of a ticket with these slots gives: it fails where
/// the ticket has no slot for that authority, and where that slot already
/// holds data.
pub open spec fn scan_outcome(slots: Seq<AppDataSlot>, signer: Address) -> Result<(), TicketError> {
    if !slots_map(slots).contains_key(signer) {
        Err(TicketError::AppDataNotFound)
    } else if slots_map(slots)[signer].len() == 0 {
        Ok(())
    } else {
        Err(TicketError::AlreadyScanned)
    }
}

/// Records the derived bump in the new manager.
pub fn setup_manager(ctx: &mut SetupManager)
    ensures
        final(ctx).manager.bump == old(ctx).bump,
        final(ctx).bump == old(ctx).bump,
        final(ctx).signer == old(ctx).signer,
        final(ctx).payer == old(ctx).payer,
{
    ctx.manager.bump = ctx.bump;
}

fn attribute(key: &str, value: String) -> (r: Attribute)
    ensures
        r@ == (key@, value@),
{
    Attribute { key: key.to_owned(), value }
}

/// The new event: under the manager's authority, with its details and capacity
/// as attributes, and no ticket minted yet.
pub fn create_event(ctx: &CreateEvent, args: CreateEventArgs) -> (r: EventCollection)
    ensures
        r.key == ctx.event,
        r.update_authority == ctx.manager_key,
        r.name@ == args.name@,
        r.uri@ == args.uri@,
        attrs_view(r.attributes@) == event_attributes(args),
        r.num_minted == 0,
{
    let ghost a = args;
    let mut attribute_list: Vec<Attribute> = Vec::new();
    attribute_list.push(attribute("City", args.city));
    attribute_list.push(attribute("Venue", args.venue));
    attribute_list.push(attribute("Artist", args.artist));
    attribute_list.push(attribute("Date", args.date));
    attribute_list.push(attribute("Time", args.time));
    attribute_list.push(attribute("Capacity", u64_to_decimal(args.capacity)));
    assert(attrs_view(attribute_list@) =~= event_attributes(a));
    EventCollection {
        key: ctx.event,
        update_authority: ctx.manager_key,
        name: args.name,
        uri: args.uri,
        attributes: attribute_list,
        num_minted: 0,
    }
}

/// The position of the first attribute named `key`, if any.
pub fn find_attribute(attrs: &Vec<Attribute>, key: &str) -> (r: Option<usize>)
    ensures
        match r {
            Some(i) => {
                &&& i < attrs@.len()
                &&& attrs@[i as int].key@ == key@
                &&& forall|j: int| 0 <= j < i ==> #[trigger] attrs@[j].key@ != key@
                &&& first_value(attrs_view(attrs@), key@) == Some(attrs@[i as int].value@)
            },
            None => first_value(attrs_view(attrs@), key@) == None::<Seq<char>>,
        },
{
    let ghost v = attrs_view(attrs@);
    let key_text: String = key.to_owned();
    let mut i: usize = 0;
    assert(v.subrange(0, v.len() as int) =~= v);
    while i < attrs.len()
        invariant
            i <= attrs@.len(),
            v == attrs_view(attrs@),
            key_text@ == key@,
            forall|j: int| 0 <= j < i ==> #[trigger] attrs@[j].key@ != key@,
            first_value(v, key@) == first_value(v.subrange(i as int, v.len() as int), key@),
        decreases attrs@.len() - i,
    {
        let ghost rest = v.subrange(i as int, v.len() as int);
        assert(rest.drop_first() =~= v.subrange(i + 1, v.len() as int));
        if attrs[i].key == key_text {
            assert(rest[0] == attrs@[i as int]@);
            return Some(i);
        }
        i = i + 1;
    }
    None
}

/// The parts of a mint's accounts that it leaves as they were.
pub open spec fn mint_keeps(new: CreateTicket, old: CreateTicket) -> bool {
    &&& new.signer == old.signer
    &&& new.payer == old.payer
    &&& new.manager == old.manager
    &&& new.manager_key == old.manager_key
    &&& new.ticket == old.ticket
    &&& new.event.key == old.event.key
    &&& new.event.update_authority == old.event.update_authority
    &&& new.event.name == old.event.name
    &&& new.event.uri == old.event.uri
    &&& new.event.attributes == old.event.attributes
}

/// Mints the next ticket of the event, numbered one past the count minted so
/// far, unless the event's capacity is missing, unreadable or reached. The
/// event's count is then raised to the new ticket's number; on an error
/// nothing changes.
pub fn create_ticket(ctx: &mut CreateTicket, args: CreateTicketArgs) -> (r: Result<
    Ticket,
    TicketError,
>)
    requires
        old(ctx).constraints_spec(),
    ensures
        mint_keeps(*final(ctx), *old(ctx)),
        final(ctx).event.num_minted == minted_after(
            attrs_view(old(ctx).event.attributes@),
            old(ctx).event.num_minted,
        ),
        match mint_outcome(attrs_view(old(ctx).event.attributes@), old(ctx).event.num_minted) {
            Ok(number) => r matches Ok(t) && is_issued_ticket(t, *old(ctx), args, number),
            Err(e) => r == Err::<Ticket, TicketError>(e),
        },
{
    let ghost a = args;
    let ghost attrs = attrs_view(ctx.event.attributes@);
    let capacity_attribute = match find_attribute(&ctx.event.attributes, "Capacity") {
        Some(i) => &ctx.event.attributes[i],
        None => return Err(TicketError::MissingAttribute),
    };
    let capacity = match parse_u32(capacity_attribute.value.as_str()) {
        Some(c) => c,
        None => return Err(TicketError::NumericalOverflow),
    };
    if ctx.event.num_minted >= capacity {
        return Err(TicketError::MaximumTicketsReached);
    }
    let number = match ctx.event.num_minted.checked_add(1) {
        Some(n) => n,
        None => return Err(TicketError::NumericalOverflow),
    };

    let mut attribute_list: Vec<Attribute> = Vec::new();
    attribute_list.push(attribute("Ticket Number", u64_to_decimal(number as u64)));
    attribute_list.push(attribute("Hall", args.hall));
    attribute_list.push(attribute("Section", args.section));
    attribute_list.push(attribute("Row", args.row));
    attribute_list.push(attribute("Seat", args.seat));
    attribute_list.push(attribute("Price", u64_to_decimal(args.price)));
    assert(attrs_view(attribute_list@) =~= ticket_attributes(number, a));

    let mut app_data: Vec<AppDataSlot> = Vec::new();
    app_data.push(AppDataSlot { data_authority: args.venue_authority, data: Vec::new() });

    let ticket = Ticket {
        key: ctx.ticket,
        owner: ctx.signer,
        collection: ctx.event.key,
        authority: ctx.manager_key,
        name: args.name,
        uri: args.uri,
        attributes: attribute_list,
        frozen: false,
        burn_delegate: true,
        transfer_delegate: true,
        app_data,
    };
    ctx.event.num_minted = number;
    Ok(ticket)
}

/// The position of the last slot of `authority`, if any.
pub fn find_slot(slots: &Vec<AppDataSlot>, authority: &Address) -> (r: Option<usize>)
    ensures
        match r {
            Some(i) => {
                &&& i < slots@.len()
                &&& slots@[i as int].data_authority == *authority
                &&& forall|j: int|
                    i < j < slots@.len() ==> #[trigger] slots@[j].data_authority != *authority
            },
            None => forall|j: int|
                0 <= j < slots@.len() ==> #[trigger] slots@[j].data_authority != *authority,
        },
{
    let mut i: usize = slots.len();
    while i > 0
        invariant
            i <= slots@.len(),
            forall|j: int| i <= j < slots@.len() ==> #[trigger] slots@[j].data_authority != *authority,
        decreases i,
    {
        i = i - 1;
        if same_address(&slots[i].data_authority, authority) {
            return Some(i);
        }
    }
    None
}

/// The parts of a scan's accounts that it leaves as they were.
pub open spec fn scan_keeps(new: ScanTicket, old: ScanTicket) -> bool {
    &&& new.owner == old.owner
    &&& new.signer == old.signer
    &&& new.payer == old.payer
    &&& new.manager == old.manager
    &&& new.manager_key == old.manager_key
    &&& new.event == old.event
    &&& new.ticket.key == old.ticket.key
    &&& new.ticket.owner == old.ticket.owner
    &&& new.ticket.collection == old.ticket.collection
    &&& new.ticket.authority == old.ticket.authority
    &&& new.ticket.name == old.ticket.name
    &&& new.ticket.uri == old.ticket.uri
    &&& new.ticket.attributes == old.ticket.attributes
    &&& new.ticket.burn_delegate == old.ticket.burn_delegate
    &&& new.ticket.transfer_delegate == old.ticket.transfer_delegate
}

fn scanned_marker() -> (r: Vec<u8>)
    ensures
        r@ == scan_marker(),
{
    let mut v: Vec<u8> = Vec::new();
    v.push(83u8);
    v.push(99u8);
    v.push(97u8);
    v.push(110u8);
    v.push(110u8);
    v.push(101u8);
    v.push(100u8);
    assert(v@ =~= scan_marker());
    v
}

/// Marks the ticket as used by `signer`: where the ticket has a slot for that
/// authority with nothing written in it yet, writes the marker into that slot
/// and freezes the ticket. It fails with `AppDataNotFound` where the ticket has
/// no slot for the authority and with `AlreadyScanned` where the slot already
/// holds data, and then changes nothing. The slots of
/// other authorities are left as they were.
pub fn scan_ticket(ctx: &mut ScanTicket) -> (r: Result<(), TicketError>)
    requires
        old(ctx).constraints_spec(),
    ensures
        r == scan_outcome(old(ctx).ticket.app_data@, old(ctx).signer),
        r is Ok ==> {
            &&& scan_keeps(*final(ctx), *old(ctx))
            &&& final(ctx).ticket.frozen
            &&& slots_map(final(ctx).ticket.app_data@) == slots_map(
                old(ctx).ticket.app_data@,
            ).insert(old(ctx).signer, scan_marker())
        },
        r is Err ==> *final(ctx) == *old(ctx),
{
    let signer = ctx.signer;
    let found = find_slot(&ctx.ticket.app_data, &signer);
    let ghost slots = ctx.ticket.app_data@;
    match found {
        Some(i) => {
            proof {
                lemma_slots_map_lookup(slots, signer, i as int);
            }
            if ctx.ticket.app_data[i].data.len() != 0 {
                return Err(TicketError::AlreadyScanned);
            }
            let slot = AppDataSlot { data_authority: signer, data: scanned_marker() };
            proof {
                lemma_slots_map_update(slots, i as int, slot);
            }
            ctx.ticket.app_data.set(i, slot);
        },
        None => {
            proof {
                lemma_slots_map_lookup(slots, signer, -1);
            }
            return Err(TicketError::AppDataNotFound);
        },
    }
    ctx.ticket.frozen = true;
    Ok(())
}

} // verus!
