use vstd::prelude::*;
use crate::address::Address;

verus! {

/// One positional field of a notification.
#[derive(Clone, Debug, PartialEq, Eq)]
pub enum Field {
    Text(Vec<u8>),
    Account(Address),
    Number(u128),
    Flag(bool),
}

/// The mathematical value of a [`Field`].
pub enum FieldView {
    Text(Seq<u8>),
    Account(Address),
    Number(u128),
    Flag(bool),
}

impl View for Field {
    type V = FieldView;

    open spec fn view(&self) -> FieldView {
        match *self {
            Field::Text(t) => FieldView::Text(t@),
            Field::Account(a) => FieldView::Account(a),
            Field::Number(n) => FieldView::Number(n),
            Field::Flag(b) => FieldView::Flag(b),
        }
    }
}

/// A notification for the host's event sink: a label followed by positional fields.
#[derive(Clone, Debug, PartialEq, Eq)]
pub struct Event {
    pub label: &'static str,
    pub fields: Vec<Field>,
}

/// The mathematical value of an [`Event`].
pub struct EventView {
    pub label: Seq<char>,
    pub fields: Seq<FieldView>,
}

impl View for Event {
    type V = EventView;

    open spec fn view(&self) -> EventView {
        EventView { label: self.label@, fields: self.fields@.map_values(|f: Field| f@) }
    }
}

/// The views of a sequence of events, in order.
pub open spec fn views_of(events: Seq<Event>) -> Seq<EventView> {
    events.map_values(|e: Event| e@)
}

pub open spec fn pending_admin_notice(new_pending_admin: Address) -> EventView {
    EventView { label: "setPendingAdmin"@, fields: seq![FieldView::Account(new_pending_admin)] }
}

pub open spec fn admin_notice(old_admin: Address, new_admin: Address) -> EventView {
    EventView {
        label: "acceptAdmin"@,
        fields: seq![FieldView::Account(old_admin), FieldView::Account(new_admin)],
    }
}

pub open spec fn register_notice(
    token_pair_name: Seq<u8>,
    oep_addr: Address,
    erc_addr: Address,
    is_oep5: bool,
) -> EventView {
    EventView {
        label: "registerTokenPair"@,
        fields: seq![
            FieldView::Text(token_pair_name),
            FieldView::Account(oep_addr),
            FieldView::Account(erc_addr),
            FieldView::Flag(is_oep5),
        ],
    }
}

pub open spec fn owner_notice(old_owner: Address, new_owner: Address) -> EventView {
    EventView {
        label: "transferTokenPairOwner"@,
        fields: seq![FieldView::Account(old_owner), FieldView::Account(new_owner)],
    }
}

pub open spec fn single_id_notice(
    ont_acct: Address,
    eth_acct: Address,
    token_id: u128,
    oep5_addr: Address,
    erc721_addr: Address,
) -> EventView {
    EventView {
        label: "oep5ToOrc721"@,
        fields: seq![
            FieldView::Account(ont_acct),
            FieldView::Account(eth_acct),
            FieldView::Number(token_id),
            FieldView::Account(oep5_addr),
            FieldView::Account(erc721_addr),
        ],
    }
}

pub open spec fn multi_id_notice(
    ont_acct: Address,
    eth_acct: Address,
    token_id: u128,
    amount: u128,
    oep8_addr: Address,
    erc1155_addr: Address,
) -> EventView {
    EventView {
        label: "oep8ToOrc1155"@,
        fields: seq![
            FieldView::Account(ont_acct),
            FieldView::Account(eth_acct),
            FieldView::Number(token_id),
            FieldView::Number(amount),
            FieldView::Account(oep8_addr),
            FieldView::Account(erc1155_addr),
        ],
    }
}

/// The notice that a new admin has been proposed.
pub fn new_pending_admin_event(new_pending_admin: &Address) -> (e: Event)
    ensures
        e@ == pending_admin_notice(*new_pending_admin),
{
    let mut fields: Vec<Field> = Vec::new();
    fields.push(Field::Account(*new_pending_admin));
    let e = Event { label: "setPendingAdmin", fields };
    assert(e@.fields =~= pending_admin_notice(*new_pending_admin).fields);
    e
}

/// The notice that the pending admin has taken over from `old_admin`.
pub fn new_admin_event(old_admin: &Address, new_pending_admin: &Address) -> (e: Event)
    ensures
        e@ == admin_notice(*old_admin, *new_pending_admin),
{
    let mut fields: Vec<Field> = Vec::new();
    fields.push(Field::Account(*old_admin));
    fields.push(Field::Account(*new_pending_admin));
    let e = Event { label: "acceptAdmin", fields };
    assert(e@.fields =~= admin_notice(*old_admin, *new_pending_admin).fields);
    e
}

/// The notice that a pair has been registered.
pub fn register_token_pair_evt(
    token_pair_name: &[u8],
    oep_addr: &Address,
    erc_addr: &Address,
    is_oep5: bool,
) -> (e: Event)
    ensures
        e@ == register_notice(token_pair_name@, *oep_addr, *erc_addr, is_oep5),
{
    let mut fields: Vec<Field> = Vec::new();
    fields.push(Field::Text(vstd::slice::slice_to_vec(token_pair_name)));
    fields.push(Field::Account(*oep_addr));
    fields.push(Field::Account(*erc_addr));
    fields.push(Field::Flag(is_oep5));
    let e = Event { label: "registerTokenPair", fields };
    assert(e@.fields =~= register_notice(token_pair_name@, *oep_addr, *erc_addr, is_oep5).fields);
    e
}

/// The notice that a pair has passed from `old_owner` to `new_owner`.
pub fn transfer_token_pair_owner_evt(old_owner: &Address, new_owner: &Address) -> (e: Event)
    ensures
        e@ == owner_notice(*old_owner, *new_owner),
{
    let mut fields: Vec<Field> = Vec::new();
    fields.push(Field::Account(*old_owner));
    fields.push(Field::Account(*new_owner));
    let e = Event { label: "transferTokenPairOwner", fields };
    assert(e@.fields =~= owner_notice(*old_owner, *new_owner).fields);
    e
}

/// The notice that a single-id token has been mirrored.
pub fn oep5_to_erc721_event(
    ont_acct: &Address,
    eth_acct: &Address,
    token_id: u128,
    oep5_addr: &Address,
    erc721_addr: &Address,
) -> (e: Event)
    ensures
        e@ == single_id_notice(*ont_acct, *eth_acct, token_id, *oep5_addr, *erc721_addr),
{
    let mut fields: Vec<Field> = Vec::new();
    fields.push(Field::Account(*ont_acct));
    fields.push(Field::Account(*eth_acct));
    fields.push(Field::Number(token_id));
    fields.push(Field::Account(*oep5_addr));
    fields.push(Field::Account(*erc721_addr));
    let e = Event { label: "oep5ToOrc721", fields };
    assert(e@.fields =~= single_id_notice(
        *ont_acct,
        *eth_acct,
        token_id,
        *oep5_addr,
        *erc721_addr,
    ).fields);
    e
}

/// The notice that a multi-id transfer has been attempted.
pub fn oep8_to_erc1155_event(
    ont_acct: &Address,
    eth_acct: &Address,
    token_id: u128,
    amount: u128,
    oep8_addr: &Address,
    erc1155_addr: &Address,
) -> (e: Event)
    ensures
        e@ == multi_id_notice(*ont_acct, *eth_acct, token_id, amount, *oep8_addr, *erc1155_addr),
{
    let mut fields: Vec<Field> = Vec::new();
    fields.push(Field::Account(*ont_acct));
    fields.push(Field::Account(*eth_acct));
    fields.push(Field::Number(token_id));
    fields.push(Field::Number(amount));
    fields.push(Field::Account(*oep8_addr));
    fields.push(Field::Account(*erc1155_addr));
    let e = Event { label: "oep8ToOrc1155", fields };
    assert(e@.fields =~= multi_id_notice(
        *ont_acct,
        *eth_acct,
        token_id,
        amount,
        *oep8_addr,
        *erc1155_addr,
    ).fields);
    e
}

} // verus!
