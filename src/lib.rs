//! Event ticketing: capacity-bounded ticket issuance and one-time scanning,
//! stated over plain records of collections and tickets.
//!
//! `decimal` holds the decimal text of the numeric attributes, `state` the
//! records and the per-authority data slots of a ticket, `instructions` the
//! four operations, and `laws` what holds over runs of them.

mod decimal;
mod instructions;
mod laws;
mod state;

pub use decimal::{
    decimal_digits, digit_value, digits_value, is_digit_seq, lemma_decimal_digits,
    lemma_parse_decimal, parsed_u32,
};
pub use instructions::{
    create_event, create_ticket, event_attributes, find_attribute, find_slot, first_value,
    is_issued_ticket, mint_keeps, mint_outcome, minted_after, scan_keeps, scan_marker,
    scan_outcome, scan_ticket, setup_manager, ticket_attributes, CreateEvent, CreateEventArgs,
    CreateTicket, CreateTicketArgs, ScanTicket, SetupManager,
};
pub use laws::{
    frozen_tracks_scan, lemma_capacity_run, lemma_event_capacity, lemma_first_value_skip,
    lemma_minted_ticket_tracks_scan, lemma_missing_capacity, lemma_scan_needs_slot,
    lemma_scan_once, lemma_scan_tracks_scan, lemma_ticket_numbers_sequential, mint_run,
    mint_run_count,
};
pub use state::{
    attrs_view, lemma_slots_map_lookup, lemma_slots_map_update,
    same_address, slot_data, slots_map, Address, AppDataSlot, Attribute, EventCollection,
    Manager, Ticket, TicketError,
};
