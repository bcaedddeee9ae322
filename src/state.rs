use vstd::prelude::*;

verus! {

/// A 32-byte account address.
pub type Address = [u8; 32];

/// One entry of an attribute list: a name and its text value.
pub struct Attribute {
    pub key: String,
    pub value: String,
}

impl View for Attribute {
    type V = (Seq<char>, Seq<char>);

    open spec fn view(&self) -> (Seq<char>, Seq<char>) {
        (self.key@, self.value@)
    }
}

/// The attribute list as a sequence of (name, value) texts.
pub open spec fn attrs_view(v: Seq<Attribute>) -> Seq<(Seq<char>, Seq<char>)> {
    v.map_values(|a: Attribute| a@)
}

/// The singleton authority record; `bump` is the proof of its derived address.
#[derive(Clone, Copy, PartialEq, Eq, Structural)]
pub struct Manager {
    pub bump: u8,
}

/// An event: a capacity-bounded collection of tickets.
pub struct EventCollection {
    pub key: Address,
    pub update_authority: Address,
    pub name: String,
    pub uri: String,
    pub attributes: Vec<Attribute>,
    pub num_minted: u32,
}

/// Data written on a ticket under one data authority.
pub struct AppDataSlot {
    pub data_authority: Address,
    pub data: Vec<u8>,
}

/// One issued ticket.
pub struct Ticket {
    pub key: Address,
    pub owner: Address,
    pub collection: Address,
    pub authority: Address,
    pub name: String,
    pub uri: String,
    pub attributes: Vec<Attribute>,
    pub frozen: bool,
    pub burn_delegate: bool,
    pub transfer_delegate: bool,
    pub app_data: Vec<AppDataSlot>,
}

/// The failures of ticket issuance and scanning.
#[derive(Clone, Copy, Debug, PartialEq, Eq, Structural)]
pub enum TicketError {
    MissingAttribute,
    NumericalOverflow,
    MaximumTicketsReached,
    AlreadyScanned,
    AppDataNotFound,
}

impl TicketError {
    /// The message that goes with the error.
    pub fn message(&self) -> (r: &'static str)
        ensures
            r@ == match *self {
                TicketError::MissingAttribute => "The attribute is missing"@,
                TicketError::NumericalOverflow => "Numerical Overflow"@,
                TicketError::MaximumTicketsReached => "The maximum number of tickets has been reached"@,
                TicketError::AlreadyScanned => "The ticket has already been scanned"@,
                TicketError::AppDataNotFound => "The ticket has no app data slot for this authority"@,
            },
    {
        match self {
            TicketError::MissingAttribute => "The attribute is missing",
            TicketError::NumericalOverflow => "Numerical Overflow",
            TicketError::MaximumTicketsReached => "The maximum number of tickets has been reached",
            TicketError::AlreadyScanned => "The ticket has already been scanned",
            TicketError::AppDataNotFound => "The ticket has no app data slot for this authority",
        }
    }
}

/// The slots of a ticket as a map from data authority to data; where an
/// authority appears more than once, the later slot counts.
pub open spec fn slots_map(s: Seq<AppDataSlot>) -> Map<Address, Seq<u8>>
    decreases s.len(),
{
    if s.len() == 0 {
        Map::empty()
    } else {
        slots_map(s.drop_last()).insert(s.last().data_authority, s.last().data@)
    }
}

/// The data that `authority` has written on the ticket; empty where it has none.
pub open spec fn slot_data(s: Seq<AppDataSlot>, authority: Address) -> Seq<u8> {
    if slots_map(s).contains_key(authority) {
        slots_map(s)[authority]
    } else {
        Seq::empty()
    }
}

/// Whether `a` and `b` are the same address.
pub fn same_address(a: &Address, b: &Address) -> (r: bool)
    ensures
        r == (*a == *b),
{
    broadcast use vstd::array::group_array_axioms;

    let mut i: usize = 0;
    while i < 32
        invariant
            i <= 32,
            forall|j: int| 0 <= j < i ==> a@[j] == b@[j],
        decreases 32 - i,
    {
        if a[i] != b[i] {
            return false;
        }
        i = i + 1;
    }
    assert(*a =~= *b);
    true
}

/// Replacing the last slot of an authority changes its data and nothing else.
pub proof fn lemma_slots_map_update(s: Seq<AppDataSlot>, i: int, x: AppDataSlot)
    requires
        0 <= i < s.len(),
        x.data_authority == s[i].data_authority,
        forall|j: int| i < j < s.len() ==> s[j].data_authority != x.data_authority,
    ensures
        slots_map(s.update(i, x)) == slots_map(s).insert(x.data_authority, x.data@),
    decreases s.len(),
{
    let t = s.update(i, x);
    if i == s.len() - 1 {
        assert(t.drop_last() =~= s.drop_last());
    } else {
        assert(t.drop_last() =~= s.drop_last().update(i, x));
        lemma_slots_map_update(s.drop_last(), i, x);
        assert(slots_map(t) =~= slots_map(s).insert(x.data_authority, x.data@));
    }
}

/// The map holds an authority's data exactly where a slot of that authority
/// stands, and then the data of its last slot.
pub proof fn lemma_slots_map_lookup(s: Seq<AppDataSlot>, a: Address, i: int)
    requires
        -1 <= i < s.len(),
        i >= 0 ==> s[i].data_authority == a,
        forall|j: int| i < j < s.len() ==> s[j].data_authority != a,
    ensures
        slots_map(s).contains_key(a) == (i >= 0),
        i >= 0 ==> slots_map(s)[a] == s[i].data@,
    decreases s.len(),
{
    if s.len() > 0 && i != s.len() - 1 {
        lemma_slots_map_lookup(s.drop_last(), a, i);
    }
}

} // verus!
