use event_tickets::{
    create_event, create_ticket, find_attribute, same_address, scan_ticket, setup_manager,
    Address, AppDataSlot, Attribute, CreateEvent, CreateEventArgs, CreateTicket,
    CreateTicketArgs, EventCollection, Manager, ScanTicket, SetupManager, Ticket, TicketError,
};

fn addr(b: u8) -> Address {
    [b; 32]
}

const MANAGER: u8 = 9;
const OWNER: u8 = 1;
const VENUE: u8 = 7;

fn event_args(capacity: u64) -> CreateEventArgs {
    CreateEventArgs {
        name: "Concert".to_string(),
        uri: "https://example.com/event.json".to_string(),
        city: "Lisbon".to_string(),
        venue: "Altice Arena".to_string(),
        artist: "The Band".to_string(),
        date: "2025-06-01".to_string(),
        time: "20:00".to_string(),
        capacity,
    }
}

fn new_event(capacity: u64) -> EventCollection {
    let ctx = CreateEvent {
        signer: addr(OWNER),
        payer: addr(OWNER),
        manager: Manager { bump: 254 },
        manager_key: addr(MANAGER),
        event: addr(50),
    };
    create_event(&ctx, event_args(capacity))
}

fn ticket_args(venue: Address) -> CreateTicketArgs {
    CreateTicketArgs {
        name: "Ticket".to_string(),
        uri: "https://example.com/ticket.json".to_string(),
        hall: "Main".to_string(),
        section: "B".to_string(),
        row: "12".to_string(),
        seat: "7".to_string(),
        price: 1500,
        venue_authority: venue,
    }
}

fn mint_ctx(event: EventCollection, ticket: u8) -> CreateTicket {
    CreateTicket {
        signer: addr(OWNER),
        payer: addr(OWNER),
        manager: Manager { bump: 254 },
        manager_key: addr(MANAGER),
        event,
        ticket: addr(ticket),
    }
}

fn mint(ctx: &mut CreateTicket) -> Result<Ticket, TicketError> {
    assert!(ctx.constraints_hold());
    create_ticket(ctx, ticket_args(addr(VENUE)))
}

fn attr_value(attrs: &Vec<Attribute>, key: &str) -> Option<String> {
    find_attribute(attrs, key).map(|i| attrs[i].value.clone())
}

fn scan_ctx(ticket: Ticket, event: EventCollection, signer: Address) -> ScanTicket {
    ScanTicket {
        owner: addr(OWNER),
        signer,
        payer: addr(OWNER),
        manager: Manager { bump: 254 },
        manager_key: addr(MANAGER),
        ticket,
        event,
    }
}

fn slot_len(ticket: &Ticket, authority: Address) -> usize {
    let mut len = 0;
    for slot in ticket.app_data.iter() {
        if slot.data_authority == authority {
            len = slot.data.len();
        }
    }
    len
}

fn event_with_attributes(attributes: Vec<Attribute>) -> EventCollection {
    EventCollection {
        key: addr(50),
        update_authority: addr(MANAGER),
        name: "Event".to_string(),
        uri: String::new(),
        attributes,
        num_minted: 0,
    }
}

fn attribute(key: &str, value: &str) -> Attribute {
    Attribute { key: key.to_string(), value: value.to_string() }
}

#[test]
fn setup_manager_records_bump() {
    let mut ctx = SetupManager {
        signer: addr(1),
        payer: addr(2),
        manager: Manager { bump: 0 },
        bump: 253,
    };
    setup_manager(&mut ctx);
    assert_eq!(ctx.manager.bump, 253);
}

#[test]
fn create_event_builds_attributes() {
    let event = new_event(2);
    assert!(event.key == addr(50));
    assert!(event.update_authority == addr(MANAGER));
    assert_eq!(event.name, "Concert");
    assert_eq!(event.num_minted, 0);
    let keys: Vec<&str> = event.attributes.iter().map(|a| a.key.as_str()).collect();
    assert_eq!(keys, vec!["City", "Venue", "Artist", "Date", "Time", "Capacity"]);
    assert_eq!(attr_value(&event.attributes, "City").unwrap(), "Lisbon");
    assert_eq!(attr_value(&event.attributes, "Capacity").unwrap(), "2");
}

#[test]
fn create_event_writes_large_capacity_in_decimal() {
    let event = new_event(18_446_744_073_709_551_615);
    assert_eq!(attr_value(&event.attributes, "Capacity").unwrap(), "18446744073709551615");
}

#[test]
fn exactly_capacity_mints_succeed() {
    for capacity in 0..5u32 {
        let mut ctx = mint_ctx(new_event(capacity as u64), 100);
        for k in 0..capacity {
            let ticket = mint(&mut ctx).unwrap();
            assert_eq!(attr_value(&ticket.attributes, "Ticket Number").unwrap(), (k + 1).to_string());
        }
        assert_eq!(ctx.event.num_minted, capacity);
        assert_eq!(mint(&mut ctx).err(), Some(TicketError::MaximumTicketsReached));
        assert_eq!(ctx.event.num_minted, capacity);
    }
}

#[test]
fn zero_capacity_event_is_full() {
    let mut ctx = mint_ctx(new_event(0), 100);
    assert_eq!(mint(&mut ctx).err(), Some(TicketError::MaximumTicketsReached));
    assert_eq!(ctx.event.num_minted, 0);
}

#[test]
fn ticket_numbers_are_sequential() {
    let mut ctx = mint_ctx(new_event(10), 100);
    let mut numbers = Vec::new();
    for _ in 0..12 {
        if let Ok(t) = mint(&mut ctx) {
            numbers.push(attr_value(&t.attributes, "Ticket Number").unwrap());
        }
    }
    let expected: Vec<String> = (1..=10).map(|n: u32| n.to_string()).collect();
    assert_eq!(numbers, expected);
    assert_eq!(ctx.event.num_minted, 10);
}

#[test]
fn minted_ticket_carries_details() {
    let mut ctx = mint_ctx(new_event(3), 100);
    let t = mint(&mut ctx).unwrap();
    assert!(t.key == addr(100));
    assert!(t.owner == addr(OWNER));
    assert!(t.collection == addr(50));
    assert!(t.authority == addr(MANAGER));
    assert_eq!(t.name, "Ticket");
    let pairs: Vec<(String, String)> =
        t.attributes.iter().map(|a| (a.key.clone(), a.value.clone())).collect();
    let expected: Vec<(String, String)> = vec![
        ("Ticket Number", "1"),
        ("Hall", "Main"),
        ("Section", "B"),
        ("Row", "12"),
        ("Seat", "7"),
        ("Price", "1500"),
    ]
    .into_iter()
    .map(|(k, v)| (k.to_string(), v.to_string()))
    .collect();
    assert_eq!(pairs, expected);
    assert!(!t.frozen);
    assert!(t.burn_delegate);
    assert!(t.transfer_delegate);
    assert_eq!(t.app_data.len(), 1);
    assert!(t.app_data[0].data_authority == addr(VENUE));
    assert!(t.app_data[0].data.is_empty());
}

#[test]
fn missing_capacity_fails_every_mint() {
    let attrs = vec![attribute("City", "Lisbon"), attribute("Venue", "Arena")];
    let mut ctx = mint_ctx(event_with_attributes(attrs), 100);
    for _ in 0..3 {
        assert_eq!(mint(&mut ctx).err(), Some(TicketError::MissingAttribute));
    }
    assert_eq!(ctx.event.num_minted, 0);
    let mut empty = mint_ctx(event_with_attributes(Vec::new()), 100);
    assert_eq!(mint(&mut empty).err(), Some(TicketError::MissingAttribute));
}

#[test]
fn unreadable_capacity_is_numerical_overflow() {
    let attrs = vec![attribute("Capacity", "abc")];
    let mut ctx = mint_ctx(event_with_attributes(attrs), 100);
    assert_eq!(mint(&mut ctx).err(), Some(TicketError::NumericalOverflow));
    assert_eq!(ctx.event.num_minted, 0);
    for bad in ["", "+", "-1", " 3", "3 ", "1.5", "4294967296"] {
        let mut ctx = mint_ctx(event_with_attributes(vec![attribute("Capacity", bad)]), 100);
        assert_eq!(mint(&mut ctx).err(), Some(TicketError::NumericalOverflow), "{bad:?}");
    }
}

#[test]
fn capacity_above_u32_is_numerical_overflow() {
    let mut ctx = mint_ctx(new_event(5_000_000_000), 100);
    assert_eq!(mint(&mut ctx).err(), Some(TicketError::NumericalOverflow));
}

#[test]
fn signed_and_padded_capacity_is_read() {
    let mut ctx = mint_ctx(event_with_attributes(vec![attribute("Capacity", "+02")]), 100);
    assert!(mint(&mut ctx).is_ok());
    assert!(mint(&mut ctx).is_ok());
    assert_eq!(mint(&mut ctx).err(), Some(TicketError::MaximumTicketsReached));
}

#[test]
fn first_capacity_attribute_counts() {
    let attrs = vec![attribute("Capacity", "1"), attribute("Capacity", "5")];
    let mut ctx = mint_ctx(event_with_attributes(attrs), 100);
    assert!(mint(&mut ctx).is_ok());
    assert_eq!(mint(&mut ctx).err(), Some(TicketError::MaximumTicketsReached));
}

#[test]
fn full_u32_capacity_mints_last_number() {
    let mut event = new_event(u32::MAX as u64);
    event.num_minted = u32::MAX - 1;
    let mut ctx = mint_ctx(event, 100);
    let t = mint(&mut ctx).unwrap();
    assert_eq!(attr_value(&t.attributes, "Ticket Number").unwrap(), "4294967295");
    assert_eq!(ctx.event.num_minted, u32::MAX);
    assert_eq!(mint(&mut ctx).err(), Some(TicketError::MaximumTicketsReached));
}

#[test]
fn scan_is_exactly_once() {
    let event = new_event(1);
    let mut mctx = mint_ctx(event, 100);
    let ticket = mint(&mut mctx).unwrap();
    let mut sctx = scan_ctx(ticket, mctx.event, addr(VENUE));
    assert!(sctx.constraints_hold());
    assert_eq!(scan_ticket(&mut sctx), Ok(()));
    assert!(sctx.ticket.frozen);
    assert_eq!(sctx.ticket.app_data.len(), 1);
    assert_eq!(sctx.ticket.app_data[0].data, b"Scanned".to_vec());
    assert_eq!(scan_ticket(&mut sctx), Err(TicketError::AlreadyScanned));
    assert!(sctx.ticket.frozen);
    assert_eq!(sctx.ticket.app_data.len(), 1);
    assert_eq!(sctx.ticket.app_data[0].data, b"Scanned".to_vec());
}

#[test]
fn ticket_lifecycle_scenario() {
    let mut mctx = mint_ctx(new_event(2), 100);
    let a = mint(&mut mctx).unwrap();
    assert_eq!(attr_value(&a.attributes, "Ticket Number").unwrap(), "1");
    mctx.ticket = addr(101);
    let b = mint(&mut mctx).unwrap();
    assert_eq!(attr_value(&b.attributes, "Ticket Number").unwrap(), "2");
    mctx.ticket = addr(102);
    assert_eq!(mint(&mut mctx).err(), Some(TicketError::MaximumTicketsReached));

    let event = mctx.event;
    let mut scan_a = scan_ctx(a, clone_event(&event), addr(VENUE));
    assert_eq!(scan_ticket(&mut scan_a), Ok(()));
    assert!(scan_a.ticket.frozen);
    assert_eq!(scan_ticket(&mut scan_a), Err(TicketError::AlreadyScanned));

    let other = addr(8);
    assert_eq!(slot_len(&b, other), 0);
    let b_before = clone_ticket(&b);
    let mut scan_b = scan_ctx(b, event, other);
    assert!(scan_b.constraints_hold());
    assert_eq!(scan_ticket(&mut scan_b), Err(TicketError::AppDataNotFound));
    assert!(!scan_b.ticket.frozen);
    assert_eq!(scan_b.ticket.app_data.len(), b_before.app_data.len());
    assert!(scan_b.ticket.app_data[0].data_authority == addr(VENUE));
    assert_eq!(slot_len(&scan_b.ticket, addr(VENUE)), 0);
    assert_eq!(slot_len(&scan_b.ticket, other), 0);

    scan_b.signer = addr(VENUE);
    assert_eq!(scan_ticket(&mut scan_b), Ok(()));
    assert!(scan_b.ticket.frozen);
    assert_eq!(slot_len(&scan_b.ticket, addr(VENUE)), 7);
}

fn clone_event(e: &EventCollection) -> EventCollection {
    EventCollection {
        key: e.key,
        update_authority: e.update_authority,
        name: e.name.clone(),
        uri: e.uri.clone(),
        attributes: e
            .attributes
            .iter()
            .map(|a| Attribute { key: a.key.clone(), value: a.value.clone() })
            .collect(),
        num_minted: e.num_minted,
    }
}

#[test]
fn scan_by_other_authority_keeps_existing_slot() {
    let mut mctx = mint_ctx(new_event(1), 100);
    let mut ticket = mint(&mut mctx).unwrap();
    ticket.app_data.push(AppDataSlot { data_authority: addr(3), data: vec![1, 2] });
    let mut sctx = scan_ctx(ticket, mctx.event, addr(VENUE));
    assert_eq!(scan_ticket(&mut sctx), Ok(()));
    assert_eq!(slot_len(&sctx.ticket, addr(VENUE)), 7);
    assert_eq!(sctx.ticket.app_data[1].data, vec![1, 2]);
    let mut again = scan_ctx(clone_ticket(&sctx.ticket), clone_event(&sctx.event), addr(3));
    assert_eq!(scan_ticket(&mut again), Err(TicketError::AlreadyScanned));
}

fn clone_ticket(t: &Ticket) -> Ticket {
    Ticket {
        key: t.key,
        owner: t.owner,
        collection: t.collection,
        authority: t.authority,
        name: t.name.clone(),
        uri: t.uri.clone(),
        attributes: t
            .attributes
            .iter()
            .map(|a| Attribute { key: a.key.clone(), value: a.value.clone() })
            .collect(),
        frozen: t.frozen,
        burn_delegate: t.burn_delegate,
        transfer_delegate: t.transfer_delegate,
        app_data: t
            .app_data
            .iter()
            .map(|s| AppDataSlot { data_authority: s.data_authority, data: s.data.clone() })
            .collect(),
    }
}

#[test]
fn account_constraints_are_checked() {
    let mut event = new_event(1);
    event.update_authority = addr(2);
    let ctx = mint_ctx(event, 100);
    assert!(!ctx.constraints_hold());

    let mut mctx = mint_ctx(new_event(1), 100);
    let ticket = mint(&mut mctx).unwrap();
    let mut sctx = scan_ctx(ticket, mctx.event, addr(VENUE));
    assert!(sctx.constraints_hold());
    sctx.owner = addr(4);
    assert!(!sctx.constraints_hold());
    sctx.owner = addr(OWNER);
    sctx.event.key = addr(51);
    assert!(!sctx.constraints_hold());
}

#[test]
fn address_comparison() {
    let a = addr(5);
    let mut b = addr(5);
    assert!(same_address(&a, &b));
    b[31] = 6;
    assert!(!same_address(&a, &b));
}

#[test]
fn error_messages() {
    assert_eq!(TicketError::MissingAttribute.message(), "The attribute is missing");
    assert_eq!(TicketError::NumericalOverflow.message(), "Numerical Overflow");
    assert_eq!(
        TicketError::MaximumTicketsReached.message(),
        "The maximum number of tickets has been reached"
    );
    assert_eq!(TicketError::AlreadyScanned.message(), "The ticket has already been scanned");
    assert_eq!(
        TicketError::AppDataNotFound.message(),
        "The ticket has no app data slot for this authority"
    );
}

#[test]
fn later_slot_of_an_authority_counts() {
    let mut mctx = mint_ctx(new_event(1), 100);
    let mut ticket = mint(&mut mctx).unwrap();
    ticket.app_data.insert(0, AppDataSlot { data_authority: addr(VENUE), data: vec![5] });
    let mut sctx = scan_ctx(ticket, mctx.event, addr(VENUE));
    assert_eq!(scan_ticket(&mut sctx), Ok(()));
    assert_eq!(sctx.ticket.app_data[0].data, vec![5]);
    assert_eq!(sctx.ticket.app_data[1].data, b"Scanned".to_vec());
    assert_eq!(scan_ticket(&mut sctx), Err(TicketError::AlreadyScanned));
}

#[test]
fn scan_without_slot_fails_and_keeps_ticket() {
    let mut mctx = mint_ctx(new_event(1), 100);
    let mut ticket = mint(&mut mctx).unwrap();
    ticket.app_data.clear();
    let mut sctx = scan_ctx(ticket, mctx.event, addr(VENUE));
    assert_eq!(scan_ticket(&mut sctx), Err(TicketError::AppDataNotFound));
    assert!(!sctx.ticket.frozen);
    assert!(sctx.ticket.app_data.is_empty());
}
