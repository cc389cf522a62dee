//! Exchanges between two participants that carry a manifest. They know participants
//! and messages, and no files.
use crate::data::{
    save_on_doc_as_key, BlobHash, DocQuery, DocWrite, ExchangeId, PublicKey, Record,
};
use crate::error::Error;
use crate::exchange::connections::{peers_after, LiveConnections};
use crate::exchange::context::{kind_of, message_keys_hold_messages, EntryKind};
use crate::exchange::order::{is_sorted_by_date, sort_by_date, sorting_keeps_every_message};
use crate::exchange::setup::SetupAction;
use crate::exchange::{
    make_message_key, message_key_of, Message, IDENTIFICATION_KEY, MANIFEST_KEY, MESSAGE_KEY_PREFIX,
};
use crate::identity::Identification;
use crate::live_doc::{ready_after, waiting_after, ContentReadyProcessor, Entry, LiveEvent};
use crate::text::{encoded_text_is_not_lost, from_utf8_lossy, lossy_text, same_text, starts_with};
use vstd::prelude::*;
use vstd::utf8::encode_utf8;

verus! {

/// What an exchange is for.
#[derive(PartialEq, Eq, Structural, Clone, Copy, Debug)]
pub enum ExchangeManifest {
    /// Two participants who write to each other.
    MutualBinary,
}

/// What the exchanges of a node tell those who listen.
#[derive(PartialEq, Eq, Structural, Clone, Copy, Debug)]
pub enum Events {
    ExchangeListDidUpdate,
}

/// What a running exchange tells those who listen.
#[derive(Debug)]
pub enum ContextEvents {
    Loaded,
    Join(PublicKey),
    MessageReceived(Message),
    LiveConnectionsUpdated(usize),
}

impl Clone for ContextEvents {
    fn clone(&self) -> (copy: Self)
        ensures
            copy == *self,
    {
        match self {
            ContextEvents::Loaded => ContextEvents::Loaded,
            ContextEvents::Join(pk) => ContextEvents::Join(*pk),
            ContextEvents::MessageReceived(msg) => ContextEvents::MessageReceived(msg.clone()),
            ContextEvents::LiveConnectionsUpdated(count) => {
                ContextEvents::LiveConnectionsUpdated(*count)
            },
        }
    }
}

/// What is to be done after an event on the exchange's document.
#[derive(Debug)]
pub enum ContextStep {
    /// Nothing.
    Idle,
    /// Tell those who listen.
    Broadcast(ContextEvents),
    /// Read an identification from a blob, and let the participant join.
    ReadIdentification(BlobHash),
    /// Read a message from a blob, and receive it.
    ReadMessage(BlobHash),
}

/// Data that an exchange had on its document when it was opened, as far as it was read.
pub enum SavedData {
    Participants(Vec<Identification>),
    Messages(Vec<Message>),
}

/// How far the work on an exchange has come.
#[derive(PartialEq, Eq, Structural, Clone, Copy, Debug)]
pub enum Phase {
    /// The participants are read from the document.
    LoadingParticipants,
    /// The messages are read from the document.
    LoadingMessages,
    /// All is loaded, and the document is watched.
    Live,
    /// The data could not be loaded.
    Ended,
}

/// What a running exchange knows.
#[verifier::ext_equal]
pub struct MutualState {
    pub id: ExchangeId,
    pub participants: Seq<Identification>,
    pub messages: Seq<Message>,
    pub connected: Set<PublicKey>,
    pub waiting: Map<BlobHash, Entry>,
    pub phase: Phase,
}

/// A running exchange.
pub struct ExchangeContext {
    id: ExchangeId,
    participants: Vec<Identification>,
    messages: Vec<Message>,
    connected: LiveConnections,
    waiting: ContentReadyProcessor,
    phase: Phase,
}

impl View for ExchangeContext {
    type V = MutualState;

    closed spec fn view(&self) -> MutualState {
        MutualState {
            id: self.id,
            participants: self.participants@,
            messages: self.messages@,
            connected: self.connected@,
            waiting: self.waiting@,
            phase: self.phase,
        }
    }
}

/// Which entries of the document are read in a phase: the identifications, and the
/// messages.
pub open spec fn reads_next(phase: Phase, query: Option<DocQuery>) -> bool {
    match phase {
        Phase::LoadingParticipants => query matches Some(DocQuery::Exact { key }) && key@
            == IDENTIFICATION_KEY@,
        Phase::LoadingMessages => query matches Some(DocQuery::Below { prefix }) && prefix@
            == MESSAGE_KEY_PREFIX@,
        Phase::Live => query is None,
        Phase::Ended => query is None,
    }
}

/// Whether data is the one that is loaded next.
pub open spec fn load_awaits(phase: Phase, saved: SavedData) -> bool {
    match saved {
        SavedData::Participants(_) => phase is LoadingParticipants,
        SavedData::Messages(_) => phase is LoadingMessages,
    }
}

/// How data is taken in that the exchange had on its document, and which event is told.
pub open spec fn data_loaded(
    before: MutualState,
    saved: SavedData,
    after: MutualState,
    told: Option<ContextEvents>,
) -> bool {
    match saved {
        SavedData::Participants(saved) => {
            &&& after == (MutualState {
                participants: before.participants + saved@,
                phase: Phase::LoadingMessages,
                ..before
            })
            &&& told is None
        },
        SavedData::Messages(saved) => {
            &&& is_sorted_by_date(before.messages + saved@, after.messages)
            &&& after == (MutualState { messages: after.messages, phase: Phase::Live, ..before })
            &&& told == Some(ContextEvents::Loaded)
        },
    }
}

/// How data is taken in of which the rest could not be read.
pub open spec fn load_failed(before: MutualState, saved: SavedData, after: MutualState) -> bool {
    after == (match saved {
        SavedData::Participants(saved) => MutualState {
            participants: before.participants + saved@,
            phase: Phase::Ended,
            ..before
        },
        SavedData::Messages(saved) => MutualState {
            messages: before.messages + saved@,
            phase: Phase::Ended,
            ..before
        },
    })
}

/// How an entry is handled whose blob is on this node: what its key says is read, and
/// all else is passed over.
pub open spec fn step_for_entry(entry: Entry) -> ContextStep {
    match kind_of(lossy_text(entry.key@)) {
        EntryKind::Identification => ContextStep::ReadIdentification(entry.content_hash),
        EntryKind::Message => ContextStep::ReadMessage(entry.content_hash),
        _ => ContextStep::Idle,
    }
}

/// How a peer that has joined or left is handled.
pub open spec fn connection_handled(
    before: MutualState,
    pk: PublicKey,
    joined: bool,
    after: MutualState,
    step: ContextStep,
) -> bool {
    &&& after == (MutualState { connected: peers_after(before.connected, pk, joined), ..before })
    &&& after.connected.finite()
    &&& step matches ContextStep::Broadcast(ContextEvents::LiveConnectionsUpdated(count))
    &&& count == after.connected.len()
}

/// How an event on the exchange's document is handled.
pub open spec fn live_event_handled(
    before: MutualState,
    event: LiveEvent,
    after: MutualState,
    step: ContextStep,
) -> bool {
    match event {
        LiveEvent::NeighborUp(pk) => connection_handled(before, pk, true, after, step),
        LiveEvent::NeighborDown(pk) => connection_handled(before, pk, false, after, step),
        _ => {
            &&& after == (MutualState { waiting: waiting_after(before.waiting, event), ..before })
            &&& step == (match ready_after(before.waiting, event) {
                Some(entry) => step_for_entry(entry),
                None => ContextStep::Idle,
            })
        },
    }
}

impl ExchangeContext {
    /// An exchange of which nothing is known yet.
    pub fn new(id: ExchangeId) -> (context: ExchangeContext)
        ensures
            context@ == (MutualState {
                id,
                participants: Seq::empty(),
                messages: Seq::empty(),
                connected: Set::empty(),
                waiting: Map::empty(),
                phase: Phase::LoadingParticipants,
            }),
    {
        ExchangeContext {
            id,
            participants: Vec::new(),
            messages: Vec::new(),
            connected: LiveConnections::new(),
            waiting: ContentReadyProcessor::new(),
            phase: Phase::LoadingParticipants,
        }
    }

    /// How far the work on the exchange has come.
    pub fn phase(&self) -> (phase: Phase)
        ensures
            phase == self@.phase,
    {
        self.phase
    }

    pub fn id(&self) -> (id: ExchangeId)
        ensures
            id == self@.id,
    {
        self.id
    }

    pub fn participants(&self) -> (participants: Vec<Identification>)
        ensures
            participants@ == self@.participants,
    {
        let participants = self.participants.clone();
        assert(participants@ =~= self.participants@);
        participants
    }

    pub fn messages(&self) -> (messages: Vec<Message>)
        ensures
            messages@ == self@.messages,
    {
        let messages = self.messages.clone();
        assert(messages@ =~= self.messages@);
        messages
    }

    /// How many peers are connected.
    pub fn live_connection_count(&self) -> (count: usize)
        ensures
            self@.connected.finite(),
            count == self@.connected.len(),
    {
        self.connected.count()
    }

    /// The write that sends a message.
    pub fn send_message(message: &Message) -> (write: DocWrite)
        ensures
            write.saves(message.pk, message_key_of(message.date), Record::Message(*message)),
    {
        let key = make_message_key(message);
        save_on_doc_as_key(&message.pk, key.as_str(), Record::Message(message.clone()))
    }

    /// The entries of the document that are read next; `None` once all is loaded.
    pub fn next_query(&self) -> (query: Option<DocQuery>)
        ensures
            reads_next(self@.phase, query),
    {
        match self.phase {
            Phase::LoadingParticipants => Some(
                DocQuery::Exact { key: IDENTIFICATION_KEY.to_owned() },
            ),
            Phase::LoadingMessages => Some(
                DocQuery::Below { prefix: MESSAGE_KEY_PREFIX.to_owned() },
            ),
            Phase::Live => None,
            Phase::Ended => None,
        }
    }

    /// Whether data is waited for: the participants come first, then the messages.
    pub fn awaits(&self, saved: &SavedData) -> (waits: bool)
        ensures
            waits == load_awaits(self@.phase, *saved),
    {
        match saved {
            SavedData::Participants(_) => self.phase == Phase::LoadingParticipants,
            SavedData::Messages(_) => self.phase == Phase::LoadingMessages,
        }
    }

    /// Takes in data that the exchange had on its document when it was opened. The
    /// messages are put in the order of their dates once all of them are there. With them
    /// comes the event that the exchange is loaded. Where reading has failed, what was read
    /// before is kept as it came, the work on the exchange ends, and the failure is handed
    /// on.
    pub fn initial_data_load<E>(&mut self, saved: SavedData, ended: Result<(), E>) -> (told: Result<
        Option<ContextEvents>,
        E,
    >)
        requires
            load_awaits(old(self)@.phase, saved),
        ensures
            match ended {
                Ok(_) => told is Ok && data_loaded(old(self)@, saved, final(self)@, told->Ok_0),
                Err(e) => told == Err::<Option<ContextEvents>, E>(e) && load_failed(
                    old(self)@,
                    saved,
                    final(self)@,
                ),
            },
    {
        match saved {
            SavedData::Participants(saved) => {
                let mut saved = saved;
                self.participants.append(&mut saved);
                self.phase = Phase::LoadingMessages;
            },
            SavedData::Messages(saved) => {
                let mut saved = saved;
                self.messages.append(&mut saved);
                self.phase = Phase::Live;
            },
        }
        match ended {
            Ok(_) => {
                if self.phase == Phase::Live {
                    sort_by_date(&mut self.messages);
                    Ok(Some(ContextEvents::Loaded))
                } else {
                    Ok(None)
                }
            },
            Err(e) => {
                self.phase = Phase::Ended;
                Err(e)
            },
        }
    }

    /// Handles an event on the exchange's document.
    pub fn on_live_event(&mut self, event: LiveEvent) -> (step: ContextStep)
        requires
            old(self)@.phase is Live,
        ensures
            live_event_handled(old(self)@, event, final(self)@, step),
    {
        match event {
            LiveEvent::NeighborUp(pk) => {
                self.connected.change(pk, true);
                ContextStep::Broadcast(
                    ContextEvents::LiveConnectionsUpdated(self.connected.count()),
                )
            },
            LiveEvent::NeighborDown(pk) => {
                self.connected.change(pk, false);
                ContextStep::Broadcast(
                    ContextEvents::LiveConnectionsUpdated(self.connected.count()),
                )
            },
            _ => match self.waiting.process_event(event) {
                Some(entry) => ExchangeContext::handle_ready_blob(&entry),
                None => ContextStep::Idle,
            },
        }
    }

    /// How an entry is handled whose blob is on this node.
    fn handle_ready_blob(entry: &Entry) -> (step: ContextStep)
        ensures
            step == step_for_entry(*entry),
    {
        let key = from_utf8_lossy(entry.key.as_slice());
        if same_text(key.as_str(), IDENTIFICATION_KEY) {
            ContextStep::ReadIdentification(entry.content_hash)
        } else if starts_with(key.as_str(), MESSAGE_KEY_PREFIX) {
            ContextStep::ReadMessage(entry.content_hash)
        } else {
            ContextStep::Idle
        }
    }

    /// A participant has joined.
    pub fn new_participant_joined(&mut self, iden: Identification) -> (event: ContextEvents)
        requires
            old(self)@.phase is Live,
        ensures
            event == ContextEvents::Join(iden.public_key),
            final(self)@ == (MutualState {
                participants: old(self)@.participants.push(iden),
                ..old(self)@
            }),
            takes_note(old(self)@, event, final(self)@),
    {
        let pk = *iden.public_key();
        self.participants.push(iden);
        assert(self.participants@.drop_last() =~= old(self).participants@);
        ContextEvents::Join(pk)
    }

    /// A message has come in.
    pub fn new_message_received(&mut self, msg: Message) -> (event: ContextEvents)
        requires
            old(self)@.phase is Live,
        ensures
            event == ContextEvents::MessageReceived(msg),
            final(self)@ == (MutualState {
                messages: old(self)@.messages.push(msg),
                ..old(self)@
            }),
            takes_note(old(self)@, event, final(self)@),
    {
        let send_me = msg.clone();
        self.messages.push(msg);
        ContextEvents::MessageReceived(send_me)
    }
}

/// The work on an exchange whose document is written: it is started, and put on the
/// list and reloaded where it is to be registered.
pub open spec fn brings_up(id: ExchangeId, register: bool) -> Seq<SetupAction> {
    if register {
        seq![
            SetupAction::Start(id),
            SetupAction::SaveId(id),
            SetupAction::Reload(id),
            SetupAction::Finish(id),
        ]
    } else {
        seq![SetupAction::Start(id), SetupAction::Finish(id)]
    }
}

/// Whether an action writes the identification of `myself`.
pub open spec fn introduces(action: SetupAction, myself: Identification) -> bool {
    &&& action is Write
    &&& action->Write_0.saves(
        myself.public_key,
        IDENTIFICATION_KEY@,
        Record::Identification(myself),
    )
}

/// Whether an action writes the manifest.
pub open spec fn declares(action: SetupAction, myself: PublicKey) -> bool {
    &&& action is Write
    &&& action->Write_0.saves(
        myself,
        MANIFEST_KEY@,
        Record::Manifest(ExchangeManifest::MutualBinary),
    )
}

fn bring_up(actions: &mut Vec<SetupAction>, id: ExchangeId, register: bool)
    ensures
        final(actions)@ == old(actions)@ + brings_up(id, register),
{
    let ghost before = actions@;
    actions.push(SetupAction::Start(id));
    if register {
        actions.push(SetupAction::SaveId(id));
        actions.push(SetupAction::Reload(id));
    }
    actions.push(SetupAction::Finish(id));
    assert(actions@ =~= before + brings_up(id, register));
}

/// The work on an exchange whose document was created: the manifest is written, then
/// the identification of the one who made it.
pub fn create_exchange(
    id: ExchangeId,
    myself: Option<Identification>,
    register: bool,
) -> (actions: Result<Vec<SetupAction>, Error>)
    ensures
        actions is Ok <==> myself is Some,
        actions is Ok ==> {
            &&& actions->Ok_0@.len() > 2
            &&& declares(actions->Ok_0@[0], myself->0.public_key)
            &&& introduces(actions->Ok_0@[1], myself->0)
            &&& actions->Ok_0@.skip(2) == brings_up(id, register)
        },
        actions is Err ==> actions->Err_0 == Error::NoIdentityForExchange,
{
    match myself {
        Some(myself) => {
            let pk = myself.public_key;
            let manifest = save_on_doc_as_key(
                &pk,
                MANIFEST_KEY,
                Record::Manifest(ExchangeManifest::MutualBinary),
            );
            let iden = save_on_doc_as_key(&pk, IDENTIFICATION_KEY, Record::Identification(myself));
            let mut actions = vec![SetupAction::Write(manifest), SetupAction::Write(iden)];
            bring_up(&mut actions, id, register);
            assert(actions@.skip(2) =~= brings_up(id, register));
            Ok(actions)
        },
        None => Err(Error::NoIdentityForExchange),
    }
}

/// The work on an exchange whose document was imported: the identification of the one
/// who joins is written.
pub fn join_exchange(
    id: ExchangeId,
    myself: Option<Identification>,
    register: bool,
) -> (actions: Result<Vec<SetupAction>, Error>)
    ensures
        actions is Ok <==> myself is Some,
        actions is Ok ==> {
            &&& actions->Ok_0@.len() > 1
            &&& introduces(actions->Ok_0@[0], myself->0)
            &&& actions->Ok_0@.skip(1) == brings_up(id, register)
        },
        actions is Err ==> actions->Err_0 == Error::NoIdentityForExchange,
{
    match myself {
        Some(myself) => {
            let pk = myself.public_key;
            let iden = save_on_doc_as_key(&pk, IDENTIFICATION_KEY, Record::Identification(myself));
            let mut actions = vec![SetupAction::Write(iden)];
            bring_up(&mut actions, id, register);
            assert(actions@.skip(1) =~= brings_up(id, register));
            Ok(actions)
        },
        None => Err(Error::NoIdentityForExchange),
    }
}

/// What the news of an exchange mean for the list of exchanges: someone who joins may
/// change its name, and the connections are shown.
pub fn watch_context_changes(event: &ContextEvents) -> (news: Option<Events>)
    ensures
        news == (if event is Join || event is LiveConnectionsUpdated {
            Some(Events::ExchangeListDidUpdate)
        } else {
            None
        }),
        is_news_of(news, *event),
{
    match event {
        ContextEvents::Join(_) => Some(Events::ExchangeListDidUpdate),
        ContextEvents::LiveConnectionsUpdated(_) => Some(Events::ExchangeListDidUpdate),
        _ => None,
    }
}

/// A message that is sent comes back as a message, and an identification that is
/// written comes back as one: an entry under the key of the write is read as what was
/// written when its blob is on the node.
pub proof fn what_is_written_is_read(write: DocWrite, entry: Entry)
    requires
        entry.key@ == encode_utf8(write.key()),
    ensures
        forall|message: Message| #[trigger]
            write.saves(message.pk, message_key_of(message.date), Record::Message(message))
                ==> step_for_entry(entry) == ContextStep::ReadMessage(entry.content_hash),
        forall|iden: Identification| #[trigger]
            write.saves(iden.public_key, IDENTIFICATION_KEY@, Record::Identification(iden))
                ==> step_for_entry(entry) == ContextStep::ReadIdentification(entry.content_hash),
{
    encoded_text_is_not_lost(write.key());
    assert forall|message: Message| #[trigger]
        write.saves(
            message.pk,
            message_key_of(message.date),
            Record::Message(message),
        ) implies step_for_entry(entry) == ContextStep::ReadMessage(entry.content_hash) by {
        message_keys_hold_messages(message.date);
    }
}

/// What participants write to an exchange is read when it is opened: an identification
/// with the participants, and a message that was sent with the messages.
pub proof fn what_is_written_is_read_back(write: DocWrite, phase: Phase, query: Option<DocQuery>)
    requires
        reads_next(phase, query),
    ensures
        forall|iden: Identification| #[trigger]
            write.saves(iden.public_key, IDENTIFICATION_KEY@, Record::Identification(iden))
                && phase is LoadingParticipants ==> query->0.asks_for(write.key()),
        forall|message: Message| #[trigger]
            write.saves(message.pk, message_key_of(message.date), Record::Message(message))
                && phase is LoadingMessages ==> query->0.asks_for(write.key()),
{
    assert forall|message: Message| #[trigger]
        write.saves(message.pk, message_key_of(message.date), Record::Message(message))
            && phase is LoadingMessages implies query->0.asks_for(write.key()) by {
        message_keys_hold_messages(message.date);
    }
}

/// The manifest of an exchange is passed over by those who read its entries.
pub proof fn manifest_is_passed_over(entry: Entry)
    requires
        entry.key@ == encode_utf8(MANIFEST_KEY@),
    ensures
        step_for_entry(entry) == ContextStep::Idle,
{
    encoded_text_is_not_lost(MANIFEST_KEY@);
    reveal_strlit("manifest.v1");
    reveal_strlit("messages");
    reveal_strlit("files");
    reveal_strlit("identification");
    assert(MANIFEST_KEY@[1] == 'a');
    assert(MESSAGE_KEY_PREFIX@[1] == 'e');
    assert(IDENTIFICATION_KEY@[1] == 'd');
}

/// When an exchange tells that it is loaded, it holds everything that was stored: the
/// participants, and the messages in the order of their dates. Only then is its document
/// watched, and no event on it tells again that the exchange is loaded.
pub proof fn loaded_means_everything_is_there(
    new: MutualState,
    participants: Vec<Identification>,
    messages: Vec<Message>,
    first: MutualState,
    second: MutualState,
    told: (Option<ContextEvents>, Option<ContextEvents>),
)
    requires
        new.participants == Seq::<Identification>::empty(),
        new.messages == Seq::<Message>::empty(),
        data_loaded(new, SavedData::Participants(participants), first, told.0),
        data_loaded(first, SavedData::Messages(messages), second, told.1),
    ensures
        told == (None::<ContextEvents>, Some(ContextEvents::Loaded)),
        first.phase !is Live,
        second.phase is Live,
        second.participants == participants@,
        is_sorted_by_date(messages@, second.messages),
        forall|event: LiveEvent, after: MutualState, step: ContextStep|
            #[trigger] live_event_handled(second, event, after, step) ==> after.phase is Live
                && step != ContextStep::Broadcast(ContextEvents::Loaded),
{
    assert(Seq::<Identification>::empty() + participants@ =~= participants@);
    assert(Seq::<Message>::empty() + messages@ =~= messages@);
}

/// An entry whose blob is on the node is taken by its key alone: as an identification, as
/// a message, or as nothing.
pub proof fn entries_are_taken_by_key(entry: Entry, key: Seq<char>)
    requires
        entry.key@ == encode_utf8(key),
    ensures
        key == "identification"@ ==> step_for_entry(entry) == ContextStep::ReadIdentification(
            entry.content_hash,
        ),
        "messages"@.is_prefix_of(key) ==> step_for_entry(entry) == ContextStep::ReadMessage(
            entry.content_hash,
        ),
        key != "identification"@ && !"messages"@.is_prefix_of(key) ==> step_for_entry(entry)
            == ContextStep::Idle,
{
    encoded_text_is_not_lost(key);
    reveal_strlit("identification");
    reveal_strlit("messages");
    assert(IDENTIFICATION_KEY@ == "identification"@);
    assert(MESSAGE_KEY_PREFIX@ == "messages"@);
    assert("identification"@[0] == 'i');
    assert("messages"@[0] == 'm');
}

/// An event on the document is handled for what it is: peers that come and go are counted,
/// an entry whose blob is here is taken by its key, and nothing else is heard of. What the
/// exchange holds is never touched.
pub proof fn events_are_handled_for_what_they_are(
    before: MutualState,
    event: LiveEvent,
    after: MutualState,
    step: ContextStep,
)
    requires
        live_event_handled(before, event, after, step),
    ensures
        event matches LiveEvent::NeighborUp(pk) ==> after.connected == before.connected.insert(pk),
        event matches LiveEvent::NeighborDown(pk) ==> after.connected == before.connected.remove(
            pk,
        ),
        event is NeighborUp || event is NeighborDown ==> (step matches ContextStep::Broadcast(
            ContextEvents::LiveConnectionsUpdated(count),
        ) && count == after.connected.len() && after.waiting == before.waiting),
        !(event is NeighborUp) && !(event is NeighborDown) ==> after.connected == before.connected
            && after.waiting == waiting_after(before.waiting, event) && step == (match ready_after(
            before.waiting,
            event,
        ) {
            Some(entry) => step_for_entry(entry),
            None => ContextStep::Idle,
        }),
        event is SyncFinished ==> step == ContextStep::Idle && after == before,
        after.id == before.id,
        after.participants == before.participants,
        after.messages == before.messages,
        after.phase == before.phase,
{
}

/// Loading takes in all that was read and loses nothing that was there, also where the rest
/// could not be read; then nothing is told and the work is over.
pub proof fn loading_loses_nothing(
    before: MutualState,
    saved: SavedData,
    after: MutualState,
    told: Option<ContextEvents>,
    failed: MutualState,
)
    requires
        load_awaits(before.phase, saved),
        data_loaded(before, saved, after, told),
        load_failed(before, saved, failed),
    ensures
        saved matches SavedData::Participants(read) ==> {
            &&& before.phase == Phase::LoadingParticipants
            &&& after.phase == Phase::LoadingMessages
            &&& after.participants == before.participants + read@
            &&& failed.participants == before.participants + read@
            &&& after.messages == before.messages
            &&& failed.messages == before.messages
            &&& told is None
        },
        saved matches SavedData::Messages(read) ==> {
            &&& before.phase == Phase::LoadingMessages
            &&& after.phase == Phase::Live
            &&& after.messages.len() == before.messages.len() + read@.len()
            &&& failed.messages == before.messages + read@
            &&& after.participants == before.participants
            &&& failed.participants == before.participants
            &&& told == Some(ContextEvents::Loaded)
        },
        failed.phase == Phase::Ended,
        after.id == before.id && failed.id == before.id,
        after.connected == before.connected && failed.connected == before.connected,
{
    if let SavedData::Messages(read) = saved {
        sorting_keeps_every_message(before.messages + read@, after.messages);
    }
}

/// An exchange is brought up in order: it is started first and finished last, and in
/// between it is put on the list and then reloaded exactly where it is to be registered.
pub proof fn only_registered_exchanges_are_listed(id: ExchangeId, register: bool)
    ensures
        brings_up(id, register)[0] == SetupAction::Start(id),
        brings_up(id, register).last() == SetupAction::Finish(id),
        register ==> brings_up(id, register).len() == 4 && brings_up(id, register)[1]
            == SetupAction::SaveId(id) && brings_up(id, register)[2] == SetupAction::Reload(id),
        !register ==> brings_up(id, register).len() == 2,
{
}

/// What is written to an exchange that is set up is the identification of the one who sets
/// it up, and the manifest, each for that participant and under its own key.
pub proof fn setup_writes_are_signed(action: SetupAction, myself: Identification)
    ensures
        introduces(action, myself) <==> (action matches SetupAction::Write(DocWrite::Save {
            author,
            key,
            record,
        }) && author == myself.public_key && key@ == "identification"@ && record
            == Record::Identification(myself)),
        declares(action, myself.public_key) <==> (action matches SetupAction::Write(
            DocWrite::Save { author, key, record },
        ) && author == myself.public_key && key@ == "manifest.v1"@ && record == Record::Manifest(
            ExchangeManifest::MutualBinary,
        )),
{
    assert(IDENTIFICATION_KEY@ == "identification"@);
    assert(MANIFEST_KEY@ == "manifest.v1"@);
}

/// Whether an event is noted behind what the exchange holds already.
pub open spec fn takes_note(before: MutualState, event: ContextEvents, after: MutualState) -> bool {
    match event {
        ContextEvents::Join(pk) => {
            &&& after.participants.len() == before.participants.len() + 1
            &&& after.participants.drop_last() == before.participants
            &&& after.participants.last().public_key == pk
            &&& after.messages == before.messages
        },
        ContextEvents::MessageReceived(msg) => {
            &&& after.messages == before.messages.push(msg)
            &&& after.participants == before.participants
        },
        _ => false,
    }
}

/// Two that join are both listed, in the order in which they joined, also where they are
/// the same one; and so are two messages.
pub proof fn notes_are_kept_in_order(
    before: MutualState,
    first: ContextEvents,
    between: MutualState,
    second: ContextEvents,
    after: MutualState,
)
    requires
        takes_note(before, first, between),
        takes_note(between, second, after),
    ensures
        first is Join && second is Join ==> {
            &&& after.participants.len() == before.participants.len() + 2
            &&& after.participants[before.participants.len() as int].public_key == first->Join_0
            &&& after.participants.last().public_key == second->Join_0
            &&& after.messages == before.messages
        },
        first is MessageReceived && second is MessageReceived ==> {
            &&& after.messages.len() == before.messages.len() + 2
            &&& after.messages[before.messages.len() as int] == first->MessageReceived_0
            &&& after.messages.last() == second->MessageReceived_0
            &&& after.participants == before.participants
        },
{
    if first is Join && second is Join {
        assert(after.participants[before.participants.len() as int]
            == after.participants.drop_last()[before.participants.len() as int]);
    }
}

/// Whether this is the news of an event for those who watch the list.
pub open spec fn is_news_of(news: Option<Events>, event: ContextEvents) -> bool {
    match event {
        ContextEvents::Join(_) | ContextEvents::LiveConnectionsUpdated(_) => news == Some(
            Events::ExchangeListDidUpdate,
        ),
        _ => news is None,
    }
}

/// Every join and every count of connections is news of the list, whoever joins and
/// whatever the count; messages, loads and syncs are not.
pub proof fn joins_and_connections_are_news(news: Option<Events>, event: ContextEvents)
    requires
        is_news_of(news, event),
    ensures
        news is Some <==> event is Join || event is LiveConnectionsUpdated,
{
}

} // verus!
