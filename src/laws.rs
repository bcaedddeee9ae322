use vstd::prelude::*;

use crate::decimal::lemma_parse_decimal;
use crate::instructions::{
    event_attributes, first_value, is_issued_ticket, mint_outcome, minted_after, scan_marker, scan_outcome,
    CreateEventArgs, CreateTicket, CreateTicketArgs,
};
use crate::state::{slot_data, slots_map, Address, AppDataSlot, Ticket, TicketError};

verus! {

/// The outcomes of `n` mints in a row against a collection with these
/// attributes that starts with `start` tickets minted.
pub open spec fn mint_run(attrs: Seq<(Seq<char>, Seq<char>)>, start: u32, n: nat) -> Seq<
    Result<u32, TicketError>,
>
    decreases n,
{
    if n == 0 {
        Seq::empty()
    } else {
        seq![mint_outcome(attrs, start)] + mint_run(
            attrs,
            minted_after(attrs, start),
            (n - 1) as nat,
        )
    }
}

/// The collection's count of minted tickets after those `n` mints.
pub open spec fn mint_run_count(attrs: Seq<(Seq<char>, Seq<char>)>, start: u32, n: nat) -> u32
    decreases n,
{
    if n == 0 {
        start
    } else {
        mint_run_count(attrs, minted_after(attrs, start), (n - 1) as nat)
    }
}

proof fn lemma_run_after_failure(attrs: Seq<(Seq<char>, Seq<char>)>, start: u32, n: nat)
    requires
        mint_outcome(attrs, start) is Err,
    ensures
        mint_run(attrs, start, n).len() == n,
        mint_run_count(attrs, start, n) == start,
        forall|i: int| 0 <= i < n ==> #[trigger] mint_run(attrs, start, n)[i] == mint_outcome(attrs, start),
    decreases n,
{
    if n > 0 {
        lemma_run_after_failure(attrs, start, (n - 1) as nat);
    }
}

proof fn lemma_run_shape(attrs: Seq<(Seq<char>, Seq<char>)>, start: u32, n: nat)
    ensures
        mint_run(attrs, start, n).len() == n,
        start <= mint_run_count(attrs, start, n) <= start + n,
        forall|i: int|
            0 <= i < n ==> (#[trigger] mint_run(attrs, start, n)[i] is Ok <==> i
                < mint_run_count(attrs, start, n) - start),
        forall|i: int|
            0 <= i < n && #[trigger] mint_run(attrs, start, n)[i] is Ok ==> mint_run(
                attrs,
                start,
                n,
            )[i] == Ok::<u32, TicketError>((start + i + 1) as u32),
    decreases n,
{
    if n > 0 {
        let run = mint_run(attrs, start, n);
        match mint_outcome(attrs, start) {
            Ok(number) => {
                lemma_run_shape(attrs, number, (n - 1) as nat);
                let rest = mint_run(attrs, number, (n - 1) as nat);
                assert forall|i: int| 0 < i < n implies run[i] == rest[i - 1] by {}
            },
            Err(_) => {
                lemma_run_after_failure(attrs, start, n);
            },
        }
    }
}

/// Under sequential minting the tickets of one collection are numbered 1, 2,
/// 3, ... without gaps or repeats: in any run of mints from a fresh
/// collection, the successful ones come first, the i-th of them is numbered
/// i + 1, and the collection's count afterwards is the number of successes.
pub proof fn lemma_ticket_numbers_sequential(attrs: Seq<(Seq<char>, Seq<char>)>, n: nat)
    ensures
        mint_run(attrs, 0, n).len() == n,
        mint_run_count(attrs, 0, n) <= n,
        forall|i: int|
            0 <= i < n ==> (#[trigger] mint_run(attrs, 0, n)[i] is Ok <==> i < mint_run_count(
                attrs,
                0,
                n,
            )),
        forall|i: int|
            0 <= i < n && #[trigger] mint_run(attrs, 0, n)[i] is Ok ==> mint_run(attrs, 0, n)[i]
                == Ok::<u32, TicketError>((i + 1) as u32),
{
    lemma_run_shape(attrs, 0, n);
}

/// Looking a key up passes over leading entries with other names.
pub proof fn lemma_first_value_skip(attrs: Seq<(Seq<char>, Seq<char>)>, key: Seq<char>, k: int)
    requires
        0 <= k <= attrs.len(),
        forall|j: int| 0 <= j < k ==> #[trigger] attrs[j].0 != key,
    ensures
        first_value(attrs, key) == first_value(attrs.subrange(k, attrs.len() as int), key),
    decreases k,
{
    if k == 0 {
        assert(attrs.subrange(0, attrs.len() as int) =~= attrs);
    } else {
        lemma_first_value_skip(attrs, key, k - 1);
        let prev = attrs.subrange(k - 1, attrs.len() as int);
        assert(prev[0] == attrs[k - 1]);
        assert(prev.drop_first() =~= attrs.subrange(k, attrs.len() as int));
    }
}

/// The capacity attribute of a new event is its capacity in decimal.
pub proof fn lemma_event_capacity(args: CreateEventArgs)
    ensures
        first_value(event_attributes(args), "Capacity"@) == Some(
            crate::decimal::decimal_digits(args.capacity as nat),
        ),
{
    reveal_strlit("City");
    reveal_strlit("Venue");
    reveal_strlit("Artist");
    reveal_strlit("Date");
    reveal_strlit("Time");
    reveal_strlit("Capacity");
    let a = event_attributes(args);
    let key = "Capacity"@;
    assert(key.len() == 8);
    assert("City"@.len() == 4 && "Venue"@.len() == 5 && "Artist"@.len() == 6);
    assert("Date"@.len() == 4 && "Time"@.len() == 4);
    assert(a[0].0 == "City"@ && a[1].0 == "Venue"@ && a[2].0 == "Artist"@);
    assert(a[3].0 == "Date"@ && a[4].0 == "Time"@ && a[5].0 == key);
    assert(a[0].0 != key && a[1].0 != key && a[2].0 != key);
    assert(a[3].0 != key && a[4].0 != key);
    assert(forall|j: int| 0 <= j < 5 ==> #[trigger] a[j].0 != key);
    lemma_first_value_skip(a, key, 5);
    assert(first_value(a.subrange(5, 6), key) == Some(a[5].1));
}

proof fn lemma_bounded_run(attrs: Seq<(Seq<char>, Seq<char>)>, capacity: u32, start: u32, n: nat)
    requires
        start <= capacity,
        forall|m: u32| #[trigger]
            mint_outcome(attrs, m) == (if m < capacity {
                Ok::<u32, TicketError>((m + 1) as u32)
            } else {
                Err(TicketError::MaximumTicketsReached)
            }),
    ensures
        mint_run(attrs, start, n).len() == n,
        forall|i: int|
            0 <= i < n ==> #[trigger] mint_run(attrs, start, n)[i] == (if start + i < capacity {
                Ok::<u32, TicketError>((start + i + 1) as u32)
            } else {
                Err(TicketError::MaximumTicketsReached)
            }),
    decreases n,
{
    if n > 0 {
        let next = minted_after(attrs, start);
        assert(mint_outcome(attrs, start) == mint_outcome(attrs, start));
        lemma_bounded_run(attrs, capacity, next, (n - 1) as nat);
        let run = mint_run(attrs, start, n);
        let rest = mint_run(attrs, next, (n - 1) as nat);
        assert forall|i: int| 0 < i < n implies run[i] == rest[i - 1] by {}
    }
}

/// A fresh event holds exactly its capacity: of any run of mints against it,
/// the first `capacity` succeed, numbered 1 up to the capacity, and every later
/// one fails with `MaximumTicketsReached`.
pub proof fn lemma_capacity_run(args: CreateEventArgs, n: nat)
    requires
        args.capacity <= u32::MAX,
    ensures
        mint_run(event_attributes(args), 0, n).len() == n,
        forall|i: int|
            0 <= i < n ==> #[trigger] mint_run(event_attributes(args), 0, n)[i] == (if i
                < args.capacity {
                Ok::<u32, TicketError>((i + 1) as u32)
            } else {
                Err(TicketError::MaximumTicketsReached)
            }),
{
    let attrs = event_attributes(args);
    let c = args.capacity as u32;
    lemma_event_capacity(args);
    lemma_parse_decimal(args.capacity as nat);
    assert forall|m: u32| #[trigger]
        mint_outcome(attrs, m) == (if m < c {
            Ok::<u32, TicketError>((m + 1) as u32)
        } else {
            Err(TicketError::MaximumTicketsReached)
        }) by {}
    lemma_bounded_run(attrs, c, 0, n);
}

/// A collection without a capacity attribute takes no ticket: every mint
/// against it fails with `MissingAttribute`, whatever its count.
pub proof fn lemma_missing_capacity(attrs: Seq<(Seq<char>, Seq<char>)>, minted: u32)
    requires
        forall|i: int| 0 <= i < attrs.len() ==> #[trigger] attrs[i].0 != "Capacity"@,
    ensures
        mint_outcome(attrs, minted) == Err::<u32, TicketError>(TicketError::MissingAttribute),
        minted_after(attrs, minted) == minted,
    decreases attrs.len(),
{
    if attrs.len() > 0 {
        let rest = attrs.drop_first();
        assert forall|i: int| 0 <= i < rest.len() implies #[trigger] rest[i].0 != "Capacity"@ by {
            assert(rest[i] == attrs[i + 1]);
        }
        lemma_missing_capacity(rest, minted);
    }
}

/// A scan takes effect once per ticket and venue authority: on an existing
/// slot with nothing written it succeeds, and on the slots it leaves (the
/// marker written for that authority) any later scan by the same authority
/// fails with `AlreadyScanned`, while a slot of another authority keeps its
/// data.
pub proof fn lemma_scan_once(slots: Seq<AppDataSlot>, after: Seq<AppDataSlot>, signer: Address)
    requires
        slots_map(slots).contains_key(signer),
        slot_data(slots, signer).len() == 0,
        slots_map(after) == slots_map(slots).insert(signer, scan_marker()),
    ensures
        scan_outcome(slots, signer) == Ok::<(), TicketError>(()),
        slot_data(after, signer) == scan_marker(),
        scan_outcome(after, signer) == Err::<(), TicketError>(TicketError::AlreadyScanned),
        forall|other: Address| other != signer ==> #[trigger] slot_data(after, other) == slot_data(slots, other),
        forall|other: Address|
            other != signer ==> #[trigger] scan_outcome(after, other) == scan_outcome(slots, other),
{
}

/// A scan by an authority that has no slot on the ticket never succeeds: it
/// fails, and not as a scan already made.
pub proof fn lemma_scan_needs_slot(slots: Seq<AppDataSlot>, signer: Address)
    requires
        forall|j: int| 0 <= j < slots.len() ==> #[trigger] slots[j].data_authority != signer,
    ensures
        scan_outcome(slots, signer) == Err::<(), TicketError>(TicketError::AppDataNotFound),
        slot_data(slots, signer).len() == 0,
{
    crate::state::lemma_slots_map_lookup(slots, signer, -1);
}

/// The ticket's only data slot belongs to `venue`, and it is frozen exactly
/// when that slot holds data.
pub open spec fn frozen_tracks_scan(t: Ticket, venue: Address) -> bool {
    &&& slots_map(t.app_data@).dom() == set![venue]
    &&& t.frozen <==> slot_data(t.app_data@, venue).len() != 0
}

/// A newly minted ticket is unfrozen, with one empty slot for its venue.
pub proof fn lemma_minted_ticket_tracks_scan(
    t: Ticket,
    ctx: CreateTicket,
    args: CreateTicketArgs,
    number: u32,
)
    requires
        is_issued_ticket(t, ctx, args, number),
    ensures
        frozen_tracks_scan(t, args.venue_authority),
{
    let s = t.app_data@;
    assert(s.drop_last() =~= Seq::<AppDataSlot>::empty());
    assert(slots_map(s.drop_last()) == Map::<Address, Seq<u8>>::empty());
    assert(slots_map(s) == Map::<Address, Seq<u8>>::empty().insert(
        args.venue_authority,
        s[0].data@,
    ));
    assert(slots_map(s).dom() =~= set![args.venue_authority]);
}

/// Scanning keeps a ticket frozen exactly when its venue has scanned it: a
/// scan by the venue freezes it and fills the venue's slot, and any other
/// scan fails and leaves the ticket as it was.
pub proof fn lemma_scan_tracks_scan(
    before: Ticket,
    after: Ticket,
    venue: Address,
    signer: Address,
    r: Result<(), TicketError>,
)
    requires
        frozen_tracks_scan(before, venue),
        r == scan_outcome(before.app_data@, signer),
        r is Ok ==> after.frozen && slots_map(after.app_data@) == slots_map(
            before.app_data@,
        ).insert(signer, scan_marker()),
        r is Err ==> after == before,
    ensures
        frozen_tracks_scan(after, venue),
        r is Ok ==> signer == venue && after.frozen && !before.frozen,
{
    if r is Ok {
        assert(slots_map(before.app_data@).dom().contains(signer));
        assert(slots_map(after.app_data@).dom() =~= set![venue]);
        assert(scan_marker().len() == 7);
    }
}

} // verus!
