//! What the application sees of the node as a whole.
use crate::base32::{base32_of_identifier, base32_text};
use crate::data::{
    wide_id_round_trip, wideid_to_string, BlobHash, ExchangeId, PublicKey, WideId,
};
use crate::dispatch::exchange::{low_32_bits, truncated};
use crate::identity::{
    is_other, other_is_unique, other_takes_part, Identification, ParticipantList,
};
use crate::text::join;
use vstd::prelude::*;
use vstd::string::StrSliceExecFns;

verus! {

/// What the application hears of the node.
#[derive(Debug)]
pub enum GlobalEvents {
    IdentityNeeded,
    IdentitySelected(Identification),
    ExchangeListChanged(Vec<ExchangeListItem>),
    ExchangeCreated(WideId),
    IdentityPicUpdate(BlobHash),
}

/// What the application asks of the node.
#[derive(Debug)]
pub enum GlobalActions {
    Start,
    CreateIdentity(String),
    CreateExchange,
    DeleteExchange(ExchangeId),
    WakeFromSleep,
    SetIdentityPic(Vec<u8>),
}

/// The application's view of the node.
pub trait GlobalDispatchResponder: Send + Sync {
    fn event(&self, state: GlobalEvents);
}

/// An exchange as it is listed.
#[derive(Debug)]
pub struct ExchangeListItem {
    pub id: WideId,
    pub label: String,
    pub pic: Option<BlobHash>,
    pub connections: u32,
}

/// What the list needs to know of an exchange.
pub struct ExchangeSummary {
    pub id: ExchangeId,
    pub participants: Vec<Identification>,
    /// The picture of the other participant, if there is one.
    pub pic: Option<BlobHash>,
    pub connections: usize,
}

/// What is to be done for the application.
#[derive(Debug)]
pub enum GlobalTask {
    /// Listen to the exchanges from now on.
    WatchExchanges,
    /// Load the assumed identity and start with it.
    Start,
    /// Create an identity.
    CreateIdentity(String),
    /// Create an exchange, register it and send what `exchange_created` makes of its id.
    CreateExchange,
    /// Give up an exchange.
    DeleteExchange(ExchangeId),
    /// Sync all exchanges.
    SyncAll,
    /// Keep a picture as that of the assumed identity.
    SetPic(Vec<u8>),
    /// Share the picture on all exchanges.
    ReloadPics,
    /// Send what `identity_pic_updated` makes of the picture.
    SendPic,
}

/// How the node starts.
#[derive(Debug)]
pub enum StartStep {
    /// There is nobody to start with: send the event.
    Send(GlobalEvents),
    /// Reload the exchanges and load the picture of the identity, then go on with
    /// `started`.
    Reload(Identification),
}

/// How the node starts with an identity, or without one.
pub fn start(identity: Option<Identification>) -> (step: StartStep)
    ensures
        step == (match identity {
            None => StartStep::Send(GlobalEvents::IdentityNeeded),
            Some(identity) => StartStep::Reload(identity),
        }),
        starts_with(step, identity),
{
    match identity {
        None => StartStep::Send(GlobalEvents::IdentityNeeded),
        Some(identity) => StartStep::Reload(identity),
    }
}

/// What the application hears of an identity that the node has started with.
pub open spec fn start_events(identity: Identification, pic: Option<BlobHash>) -> Seq<GlobalEvents> {
    match pic {
        Some(hash) => seq![
            GlobalEvents::IdentityPicUpdate(hash),
            GlobalEvents::IdentitySelected(identity),
        ],
        None => seq![GlobalEvents::IdentitySelected(identity)],
    }
}

/// What the application hears of an identity that the node has started with.
pub fn started(identity: Identification, pic: Option<BlobHash>) -> (events: Vec<GlobalEvents>)
    ensures
        events@ == start_events(identity, pic),
{
    let mut events: Vec<GlobalEvents> = Vec::new();
    if let Some(hash) = pic {
        events.push(GlobalEvents::IdentityPicUpdate(hash));
    }
    events.push(GlobalEvents::IdentitySelected(identity));
    assert(events@ =~= start_events(identity, pic));
    events
}

/// The first participant that is not `me`.
fn other_of(participants: &Vec<Identification>, me: &PublicKey) -> (other: Option<Identification>)
    ensures
        is_other(participants@, *me, other),
{
    let copy = participants.clone();
    assert(copy@ =~= participants@);
    copy.get_other(me)
}

/// Whose picture goes with an exchange: that of the other participant.
pub fn pic_owner(participants: &Vec<Identification>, me: &PublicKey) -> (owner: Option<PublicKey>)
    ensures
        exists|other: Option<Identification>|
            {
                &&& #[trigger] is_other(participants@, *me, other)
                &&& other is Some ==> owner == Some(other->0.public_key)
                &&& other is None ==> owner is None
            },
        owns_shown_pic(owner, participants@, *me),
{
    let other = other_of(participants, me);
    assert(is_other(participants@, *me, other));
    match other {
        Some(other) => Some(other.public_key),
        None => None,
    }
}

/// Whether an item lists an exchange to `me`: by the name and picture of the other
/// participant, or as one that loads, with the beginning of its id.
pub open spec fn lists(item: ExchangeListItem, exchange: ExchangeSummary, me: PublicKey) -> bool {
    &&& item.id == exchange.id
    &&& item.connections == low_32_bits(exchange.connections as int)
    &&& exists|other: Option<Identification>|
        {
            &&& #[trigger] is_other(exchange.participants@, me, other)
            &&& other is Some ==> item.label == other->0.name && item.pic == exchange.pic
            &&& other is None ==> item.label@ == loading_label(exchange.id) && item.pic is None
        }
}

/// The label of an exchange whose other participant is not known yet.
pub open spec fn loading_label(id: ExchangeId) -> Seq<char> {
    "loading... ("@ + base32_text(id@).subrange(0, 6)
}

/// How an exchange is listed.
fn list_item(exchange: &ExchangeSummary, me: &PublicKey) -> (item: ExchangeListItem)
    ensures
        lists(item, *exchange, *me),
{
    let other = other_of(&exchange.participants, me);
    assert(is_other(exchange.participants@, *me, other));
    let connections = truncated(exchange.connections);
    match other {
        Some(other) => ExchangeListItem {
            id: exchange.id,
            label: other.name,
            pic: exchange.pic,
            connections,
        },
        None => {
            let id_text = wideid_to_string(exchange.id);
            proof {
                wide_id_round_trip(exchange.id);
                base32_of_identifier(exchange.id@);
            }
            let id_prefix = id_text.as_str().substring_char(0, 6);
            ExchangeListItem {
                id: exchange.id,
                label: join("loading... (", id_prefix),
                pic: None,
                connections,
            }
        },
    }
}

/// The list of exchanges as the application hears it: one item for each, in their
/// order.
pub fn exchange_list_changed(exchanges: &Vec<ExchangeSummary>, me: &PublicKey) -> (event:
    GlobalEvents)
    ensures
        event is ExchangeListChanged,
        event->ExchangeListChanged_0@.len() == exchanges@.len(),
        forall|i: int|
            0 <= i < exchanges@.len() ==> lists(
                #[trigger] event->ExchangeListChanged_0@[i],
                exchanges@[i],
                *me,
            ),
        event matches GlobalEvents::ExchangeListChanged(items) && lists_all(
            items@,
            exchanges@,
            *me,
        ),
{
    let mut items: Vec<ExchangeListItem> = Vec::new();
    let mut i: usize = 0;
    while i < exchanges.len()
        invariant
            i <= exchanges@.len(),
            items@.len() == i,
            forall|k: int| 0 <= k < i ==> lists(#[trigger] items@[k], exchanges@[k], *me),
        decreases exchanges@.len() - i,
    {
        items.push(list_item(&exchanges[i], me));
        i = i + 1;
    }
    GlobalEvents::ExchangeListChanged(items)
}

/// What the application hears of an exchange that was made for it.
pub fn exchange_created(id: ExchangeId) -> (event: GlobalEvents)
    ensures
        event == GlobalEvents::ExchangeCreated(id),
{
    GlobalEvents::ExchangeCreated(id)
}

/// What the application hears of a picture that was set for the assumed identity.
pub fn identity_pic_updated(hash: BlobHash) -> (event: GlobalEvents)
    ensures
        event == GlobalEvents::IdentityPicUpdate(hash),
{
    GlobalEvents::IdentityPicUpdate(hash)
}

/// The tasks that an action takes, in their order.
pub open spec fn tasks_of(action: GlobalActions) -> Seq<GlobalTask> {
    match action {
        GlobalActions::Start => seq![GlobalTask::WatchExchanges, GlobalTask::Start],
        GlobalActions::CreateIdentity(name) => seq![
            GlobalTask::CreateIdentity(name),
            GlobalTask::Start,
        ],
        GlobalActions::CreateExchange => seq![GlobalTask::CreateExchange],
        GlobalActions::DeleteExchange(id) => seq![GlobalTask::DeleteExchange(id)],
        GlobalActions::WakeFromSleep => seq![GlobalTask::SyncAll],
        GlobalActions::SetIdentityPic(bytes) => seq![
            GlobalTask::SetPic(bytes),
            GlobalTask::ReloadPics,
            GlobalTask::SendPic,
        ],
    }
}

/// The tasks that an action takes, in their order.
pub fn action(asked: GlobalActions) -> (tasks: Vec<GlobalTask>)
    ensures
        tasks@ == tasks_of(asked),
{
    let tasks: Vec<GlobalTask> = match asked {
        GlobalActions::Start => vec![GlobalTask::WatchExchanges, GlobalTask::Start],
        GlobalActions::CreateIdentity(name) => vec![
            GlobalTask::CreateIdentity(name),
            GlobalTask::Start,
        ],
        GlobalActions::CreateExchange => vec![GlobalTask::CreateExchange],
        GlobalActions::DeleteExchange(id) => vec![GlobalTask::DeleteExchange(id)],
        GlobalActions::WakeFromSleep => vec![GlobalTask::SyncAll],
        GlobalActions::SetIdentityPic(bytes) => vec![
            GlobalTask::SetPic(bytes),
            GlobalTask::ReloadPics,
            GlobalTask::SendPic,
        ],
    };
    assert(tasks@ =~= tasks_of(asked));
    tasks
}

/// An exchange is listed by the first participant that is not `me`, however many peers are
/// connected: with the name of that one and the picture that goes with it. Only where
/// nobody else takes part is it listed as one that loads, with the beginning of its id and
/// without a picture.
pub proof fn exchanges_are_listed_by_the_other(
    item: ExchangeListItem,
    exchange: ExchangeSummary,
    me: PublicKey,
    other: Option<Identification>,
)
    requires
        lists(item, exchange, me),
        is_other(exchange.participants@, me, other),
    ensures
        other matches Some(iden) ==> item.label@ == iden.name@ && item.pic == exchange.pic,
        other is None ==> item.label@ == "loading... ("@ + base32_text(exchange.id@).subrange(
            0,
            6,
        ) && item.pic is None,
        item.id == exchange.id,
        exchange.connections < 0x1_0000_0000 ==> item.connections == exchange.connections,
        other is None <==> forall|j: int|
            0 <= j < exchange.participants@.len() ==> (
            #[trigger] exchange.participants@[j]).public_key == me,
{
    let found = choose|found: Option<Identification>|
        {
            &&& #[trigger] is_other(exchange.participants@, me, found)
            &&& found is Some ==> item.label == found->0.name && item.pic == exchange.pic
            &&& found is None ==> item.label@ == loading_label(exchange.id) && item.pic is None
        };
    other_is_unique(exchange.participants@, me, other, found);
    other_takes_part(exchange.participants@, me, other);
}

/// How many peers are connected changes neither the label nor the picture of an exchange.
pub proof fn connections_do_not_change_the_label(
    a: ExchangeListItem,
    b: ExchangeListItem,
    one: ExchangeSummary,
    another: ExchangeSummary,
    me: PublicKey,
)
    requires
        lists(a, one, me),
        lists(b, another, me),
        one.id == another.id,
        one.participants@ == another.participants@,
        one.pic == another.pic,
    ensures
        a.label@ == b.label@,
        a.pic == b.pic,
        a.id == b.id,
{
    let found = choose|found: Option<Identification>|
        {
            &&& #[trigger] is_other(one.participants@, me, found)
            &&& found is Some ==> a.label == found->0.name && a.pic == one.pic
            &&& found is None ==> a.label@ == loading_label(one.id) && a.pic is None
        };
    exchanges_are_listed_by_the_other(a, one, me, found);
    exchanges_are_listed_by_the_other(b, another, me, found);
}

/// The picture is told before the identity that the node has started with, and only where
/// there is one; the identity is always told, and last.
pub proof fn starting_tells_the_identity(identity: Identification, pic: Option<BlobHash>)
    ensures
        start_events(identity, pic).len() == (if pic is Some {
            2int
        } else {
            1
        }),
        start_events(identity, pic).last() == GlobalEvents::IdentitySelected(identity),
        pic matches Some(hash) ==> start_events(identity, pic)[0]
            == GlobalEvents::IdentityPicUpdate(hash),
{
}

/// What the node does for an action: the exchanges are watched only by the start action, an
/// identity is created before the node starts with it, and a picture is kept before it is
/// shared and shared before it is sent. All else is one task.
pub proof fn actions_take_their_tasks(action: GlobalActions)
    ensures
        tasks_of(action).contains(GlobalTask::WatchExchanges) <==> action is Start,
        action is Start ==> tasks_of(action) == seq![GlobalTask::WatchExchanges, GlobalTask::Start],
        action matches GlobalActions::CreateIdentity(name) ==> tasks_of(action).len() == 2
            && tasks_of(action)[0] == GlobalTask::CreateIdentity(name) && tasks_of(action)[1]
            == GlobalTask::Start,
        action is CreateExchange ==> tasks_of(action).len() == 1 && tasks_of(action)[0]
            == GlobalTask::CreateExchange,
        action matches GlobalActions::DeleteExchange(id) ==> tasks_of(action).len() == 1
            && tasks_of(action)[0] == GlobalTask::DeleteExchange(id),
        action is WakeFromSleep ==> tasks_of(action).len() == 1 && tasks_of(action)[0]
            == GlobalTask::SyncAll,
        action matches GlobalActions::SetIdentityPic(bytes) ==> tasks_of(action).len() == 3
            && tasks_of(action)[0] == GlobalTask::SetPic(bytes) && tasks_of(action)[1]
            == GlobalTask::ReloadPics && tasks_of(action)[2] == GlobalTask::SendPic,
{
    let tasks = tasks_of(action);
    if action is Start {
        assert(tasks[0] == GlobalTask::WatchExchanges);
    } else if tasks.contains(GlobalTask::WatchExchanges) {
        let i = choose|i: int| 0 <= i < tasks.len() && tasks[i] == GlobalTask::WatchExchanges;
        assert(tasks[i] is WatchExchanges);
    }
}

/// Whether a key is that of the one whose picture is shown for an exchange.
pub open spec fn owns_shown_pic(
    owner: Option<PublicKey>,
    participants: Seq<Identification>,
    me: PublicKey,
) -> bool {
    exists|other: Option<Identification>|
        {
            &&& #[trigger] is_other(participants, me, other)
            &&& owner is Some <==> other is Some
            &&& other is Some ==> owner == Some(other->0.public_key)
        }
}

/// The picture shown for an exchange is that of the participant whose name it is listed
/// by, and never that of `me`.
pub proof fn pictures_go_with_their_labels(
    owner: Option<PublicKey>,
    item: ExchangeListItem,
    exchange: ExchangeSummary,
    me: PublicKey,
)
    requires
        owns_shown_pic(owner, exchange.participants@, me),
        lists(item, exchange, me),
    ensures
        owner != Some(me),
        owner is None <==> forall|j: int|
            0 <= j < exchange.participants@.len() ==> (
            #[trigger] exchange.participants@[j]).public_key == me,
        owner is None ==> item.pic is None,
        owner is Some ==> exists|j: int|
            0 <= j < exchange.participants@.len() && (
            #[trigger] exchange.participants@[j]).public_key == owner->0
                && exchange.participants@[j].name@ == item.label@,
{
    let other = choose|other: Option<Identification>|
        {
            &&& #[trigger] is_other(exchange.participants@, me, other)
            &&& owner is Some <==> other is Some
            &&& other is Some ==> owner == Some(other->0.public_key)
        };
    exchanges_are_listed_by_the_other(item, exchange, me, other);
}

/// Whether a step is how the node starts with the identity that it found.
pub open spec fn starts_with(step: StartStep, identity: Option<Identification>) -> bool {
    match step {
        StartStep::Send(event) => event is IdentityNeeded && identity is None,
        StartStep::Reload(found) => identity == Some(found),
    }
}

/// An identity is needed only where none was found; any that was found is started with,
/// whatever its name.
pub proof fn identities_are_started_with(step: StartStep, identity: Option<Identification>)
    requires
        starts_with(step, identity),
    ensures
        identity is None <==> (step matches StartStep::Send(event) && event is IdentityNeeded),
        identity matches Some(found) ==> step == StartStep::Reload(found),
{
}

/// Whether all exchanges are listed for `me`, each in its place.
pub open spec fn lists_all(
    items: Seq<ExchangeListItem>,
    exchanges: Seq<ExchangeSummary>,
    me: PublicKey,
) -> bool {
    &&& items.len() == exchanges.len()
    &&& forall|i: int| 0 <= i < exchanges.len() ==> lists(#[trigger] items[i], exchanges[i], me)
}

/// No exchange is left out of the list, also where nobody else takes part in it or is
/// connected, and none is listed out of its place.
pub proof fn no_exchange_is_left_out(
    items: Seq<ExchangeListItem>,
    exchanges: Seq<ExchangeSummary>,
    me: PublicKey,
    i: int,
)
    requires
        lists_all(items, exchanges, me),
        0 <= i < exchanges.len(),
    ensures
        items.len() == exchanges.len(),
        items[i].id == exchanges[i].id,
        exchanges[i].connections < 0x1_0000_0000 ==> items[i].connections
            == exchanges[i].connections,
{
    assert(lists(items[i], exchanges[i], me));
}

} // verus!
