//! How two nodes find each other: over a document of their own they tell each other
//! who they are, and agree on an exchange.
use crate::data::{save_on_doc_as_key, BlobHash, DocWrite, ExchangeId, PublicKey, Record};
use crate::exchange::context::ContextEvents;
use crate::identity::Identification;
use crate::live_doc::{ready_after, waiting_after, ContentReadyProcessor, Entry, LiveEvent};
use crate::text::{encoded_text_is_not_lost, from_utf8_lossy, lossy_text, same_text};
use vstd::prelude::*;
use vstd::utf8::encode_utf8;

verus! {

/// What the application hears of a connection that is being established.
#[derive(Debug)]
pub enum Event {
    Reset,
    JoinTicketGenerated(String),
    AttemptingJoin,
    IdentityLoaded(Identification),
    PicLoaded(BlobHash),
    /// The other one is known, and so is an exchange to meet on.
    ConnectionEstablished,
    ConnectionConfirmed,
    ConnectionFailed(String),
    ConnectionRejected,
}

/// What the application asks for.
#[derive(Debug)]
pub enum Action {
    GenerateJoinTicket,
    ReceivedJoinTicket(String),
    AcceptConnection,
    RejectConnection,
}

/// The application's view of a connection that is being established.
pub trait EstablishConnectionDispatchResponder: Send + Sync {
    fn event(&self, state: Event);
}

/// Where a participant keeps its identification on the document.
pub const IDENTIFICATION: &'static str = "id";

/// Where a participant keeps its picture on the document.
pub const PIC: &'static str = "id_pic";

/// Where the ticket of the exchange is kept on the document.
pub const EXCHANGE_TICKET: &'static str = "exchange_ticket";

/// How the exchange is known that the two are to meet on.
#[derive(Debug)]
pub enum ExchangeLink {
    /// This node has made it.
    Creator(ExchangeId),
    /// The other node has made it, and this one has a ticket.
    Joiner(String),
}

/// The piece of work that is waited for.
#[derive(PartialEq, Eq, Structural, Clone, Copy, Debug)]
pub enum Task {
    /// None: actions and events on the document come in.
    Idle,
    CreatingDoc,
    ImportingDoc,
    /// The own identification is loaded.
    LoadingSelf { create_exchange: bool },
    /// The own identification is written to the document.
    SavingSelf { create_exchange: bool },
    /// The own picture is loaded.
    LoadingPic { create_exchange: bool },
    /// The own picture is written to the document.
    SavingPic { create_exchange: bool },
    CreatingExchange,
    /// A ticket for the exchange is made.
    SharingExchange(ExchangeId),
    /// The ticket is written to the document.
    SavingTicket(ExchangeId),
    /// The document is watched from now on.
    Subscribing { share: bool },
    /// A ticket for the document is made.
    Sharing,
    JoiningExchange,
    /// The other one is awaited on the exchange.
    Meeting(ExchangeId),
    /// The exchange is registered.
    AddingExchange,
    /// The document is left.
    Leaving(ExchangeId),
    /// The document is dropped.
    Dropping,
    /// The identification of the other one is read.
    ReadingIdentity,
    /// The ticket of the exchange is read.
    ReadingTicket,
    /// Nothing: the conversation has ended.
    Stopped,
}

/// What comes of a piece of work.
#[derive(Debug)]
pub enum Reply {
    Doc(ExchangeId),
    Identification(Identification),
    Pic(Option<Entry>),
    Exchange(ExchangeId),
    Ticket(String),
    Bytes(Vec<u8>),
    /// News of the exchange; `None` where there will be no more.
    News(Option<ContextEvents>),
    Done,
    Failed,
}

/// What comes in.
#[derive(Debug)]
pub enum Input {
    Asked(Action),
    Live(LiveEvent),
    Replied(Reply),
    /// Neither actions nor events on the document will come in any more.
    Closed,
}

/// The next piece of work.
#[derive(Debug)]
pub enum Work {
    /// Wait for an action or an event on the document.
    Wait,
    CreateDoc,
    ImportDoc(String),
    LoadIdentification(PublicKey),
    LoadPic(PublicKey),
    /// Write to the document.
    Write(DocWrite),
    /// Make an exchange without registering it.
    CreateExchange,
    /// Make a ticket for an exchange.
    ShareExchange(ExchangeId),
    SubscribeDoc(ExchangeId),
    /// Make a ticket for the document.
    ShareDoc(ExchangeId),
    /// Join an exchange without registering it.
    JoinExchange(String),
    /// Wait for news of an exchange.
    Listen(ExchangeId),
    /// Register an exchange.
    AddContext(ExchangeId),
    LeaveDoc(ExchangeId),
    DropDoc(ExchangeId),
    ReadIdentification(BlobHash),
    ReadBytes(BlobHash),
    /// The conversation is over.
    Stop,
    /// The conversation has failed: a piece of work could not be done.
    Fail,
}

/// What is to be done: tell the application, then go on working.
#[derive(Debug)]
pub struct Step {
    pub events: Vec<Event>,
    pub work: Work,
}

/// What is known of a connection that is being established.
#[verifier::ext_equal]
pub struct EstablishState {
    pub myself: PublicKey,
    pub doc: Option<ExchangeId>,
    pub other: Option<Identification>,
    pub exchange: Option<ExchangeLink>,
    pub found_neighbor: bool,
    pub waiting: Map<BlobHash, Entry>,
    pub task: Task,
}

/// What is known when a conversation of `myself` begins: nothing.
pub open spec fn begun(myself: PublicKey) -> EstablishState {
    EstablishState {
        myself,
        doc: None,
        other: None,
        exchange: None,
        found_neighbor: false,
        waiting: Map::empty(),
        task: Task::Idle,
    }
}

/// Whether the work needs the document.
pub open spec fn needs_doc(task: Task) -> bool {
    match task {
        Task::Idle | Task::CreatingDoc | Task::ImportingDoc | Task::Leaving(_) | Task::Dropping
        | Task::ReadingIdentity | Task::ReadingTicket | Task::Stopped => false,
        _ => true,
    }
}

/// Whether the work makes or gives up the document, so that there is none meanwhile.
pub open spec fn has_no_doc(task: Task) -> bool {
    task is CreatingDoc || task is ImportingDoc || task is Leaving || task is Dropping
}

impl EstablishState {
    /// Whether there is a document where the work needs one, and none where it makes or
    /// gives up the document.
    pub open spec fn is_consistent(self) -> bool {
        &&& needs_doc(self.task) ==> self.doc is Some
        &&& has_no_doc(self.task) ==> self.doc is None
    }
}

/// Whether a state waits for what comes in. A connection can be accepted or rejected
/// only while there is a document.
pub open spec fn establish_awaits(state: EstablishState, input: Input) -> bool {
    match input {
        Input::Asked(action) => state.task is Idle && (action is AcceptConnection
            || action is RejectConnection ==> state.doc is Some),
        Input::Live(_) => state.task is Idle,
        Input::Closed => state.task is Idle,
        Input::Replied(reply) => task_awaits(state.task, reply),
    }
}

/// Whether a piece of work can have the reply.
pub open spec fn task_awaits(task: Task, reply: Reply) -> bool {
    match task {
        Task::Idle | Task::Stopped => false,
        Task::CreatingDoc | Task::ImportingDoc => reply is Doc || reply is Failed,
        Task::LoadingSelf { .. } | Task::ReadingIdentity => reply is Identification
            || reply is Failed,
        Task::LoadingPic { .. } => reply is Pic || reply is Failed,
        Task::CreatingExchange | Task::JoiningExchange => reply is Exchange || reply is Failed,
        Task::SharingExchange(_) | Task::Sharing => reply is Ticket || reply is Failed,
        Task::Meeting(_) => reply is News,
        Task::ReadingTicket => reply is Bytes || reply is Failed,
        _ => reply is Done || reply is Failed,
    }
}

/// The news that both sides are known, once they are.
pub open spec fn established(state: EstablishState) -> Seq<Event> {
    if state.other is Some && state.exchange is Some {
        seq![Event::ConnectionEstablished]
    } else {
        Seq::empty()
    }
}

/// The conversation goes on with a piece of work, and nothing else changes.
pub open spec fn turns_to(before: EstablishState, after: EstablishState, task: Task) -> bool {
    after == (EstablishState { task, ..before })
}

/// The document is given up: it is left first.
pub open spec fn gives_up_doc(before: EstablishState, after: EstablishState, work: Work) -> bool {
    &&& before.doc matches Some(doc)
    &&& after == (EstablishState { doc: None, task: Task::Leaving(doc), ..before })
    &&& work == Work::LeaveDoc(doc)
}

/// What an action leads to.
pub open spec fn asked_step(
    before: EstablishState,
    action: Action,
    after: EstablishState,
    events: Seq<Event>,
    work: Work,
) -> bool {
    &&& events == Seq::<Event>::empty()
    &&& match action {
        Action::GenerateJoinTicket => match before.doc {
            Some(doc) => turns_to(before, after, Task::Sharing) && work == Work::ShareDoc(doc),
            None => turns_to(before, after, Task::CreatingDoc) && work == Work::CreateDoc,
        },
        Action::ReceivedJoinTicket(ticket) => match before.doc {
            Some(_) => turns_to(before, after, Task::Stopped) && work == Work::Stop,
            None => turns_to(before, after, Task::ImportingDoc) && work == Work::ImportDoc(ticket),
        },
        Action::AcceptConnection => match before.exchange {
            Some(ExchangeLink::Creator(id)) => turns_to(before, after, Task::Meeting(id)) && work
                == Work::Listen(id),
            Some(ExchangeLink::Joiner(ticket)) => {
                &&& turns_to(before, after, Task::JoiningExchange)
                &&& work matches Work::JoinExchange(text)
                &&& text == ticket
            },
            None => gives_up_doc(before, after, work),
        },
        Action::RejectConnection => gives_up_doc(before, after, work),
    }
}

/// What an entry of the document leads to whose blob is on this node. The own entries
/// are passed over.
pub open spec fn entry_step(
    before: EstablishState,
    entry: Entry,
    after: EstablishState,
    events: Seq<Event>,
    work: Work,
) -> bool {
    let key = lossy_text(entry.key@);
    if entry.author == before.myself {
        after == before && events == Seq::<Event>::empty() && work == Work::Wait
    } else if key == IDENTIFICATION@ {
        &&& turns_to(before, after, Task::ReadingIdentity)
        &&& events == Seq::<Event>::empty()
        &&& work == Work::ReadIdentification(entry.content_hash)
    } else if key == PIC@ {
        &&& after == before
        &&& events == seq![Event::PicLoaded(entry.content_hash)] + established(after)
        &&& work == Work::Wait
    } else if key == EXCHANGE_TICKET@ {
        &&& turns_to(before, after, Task::ReadingTicket)
        &&& events == Seq::<Event>::empty()
        &&& work == Work::ReadBytes(entry.content_hash)
    } else {
        after == before && events == established(after) && work == Work::Wait
    }
}

/// What an event on the document leads to.
pub open spec fn live_step(
    before: EstablishState,
    event: LiveEvent,
    after: EstablishState,
    events: Seq<Event>,
    work: Work,
) -> bool {
    match event {
        LiveEvent::NeighborUp(_) => {
            &&& after == (EstablishState { found_neighbor: true, ..before })
            &&& events == Seq::<Event>::empty()
            &&& work == Work::Wait
        },
        LiveEvent::NeighborDown(_) => after == before && events == Seq::<Event>::empty() && work
            == Work::Wait,
        LiveEvent::SyncFinished => {
            &&& after == before
            &&& work == Work::Wait
            &&& if before.found_neighbor {
                events == Seq::<Event>::empty()
            } else {
                reports_failure(events, "Timed out waiting for connection"@)
            }
        },
        _ => {
            let held = EstablishState { waiting: waiting_after(before.waiting, event), ..before };
            match ready_after(before.waiting, event) {
                Some(entry) => entry_step(held, entry, after, events, work),
                None => after == held && events == Seq::<Event>::empty() && work == Work::Wait,
            }
        },
    }
}

/// Whether the application hears of a failure, in these words, and of nothing else.
pub open spec fn reports_failure(events: Seq<Event>, words: Seq<char>) -> bool {
    &&& events.len() == 1
    &&& events[0] matches Event::ConnectionFailed(reason)
    &&& reason@ == words
}

/// What follows once the identification and picture are on the document: the exchange
/// is made, or the document is watched.
pub open spec fn introduced(
    before: EstablishState,
    create_exchange: bool,
    after: EstablishState,
    work: Work,
) -> bool {
    if create_exchange {
        turns_to(before, after, Task::CreatingExchange) && work == Work::CreateExchange
    } else {
        &&& turns_to(before, after, Task::Subscribing { share: true })
        &&& before.doc matches Some(doc)
        &&& work == Work::SubscribeDoc(doc)
    }
}

/// What a reply leads to. Some of them tell the application; all others only go on
/// working. Work that could not be done fails the conversation.
pub open spec fn reply_step(
    before: EstablishState,
    reply: Reply,
    after: EstablishState,
    events: Seq<Event>,
    work: Work,
) -> bool {
    let silent = events == Seq::<Event>::empty();
    match (before.task, reply) {
        (Task::CreatingDoc, Reply::Doc(doc)) => {
            &&& silent
            &&& after == (EstablishState {
                doc: Some(doc),
                task: Task::LoadingSelf { create_exchange: false },
                ..before
            })
            &&& work == Work::LoadIdentification(before.myself)
        },
        (Task::ImportingDoc, Reply::Doc(doc)) => {
            &&& silent
            &&& after == (EstablishState {
                doc: Some(doc),
                task: Task::LoadingSelf { create_exchange: true },
                ..before
            })
            &&& work == Work::LoadIdentification(before.myself)
        },
        (Task::LoadingSelf { create_exchange }, Reply::Identification(iden)) => {
            &&& silent
            &&& turns_to(before, after, Task::SavingSelf { create_exchange })
            &&& work is Write
            &&& work->Write_0.saves(before.myself, IDENTIFICATION@, Record::Identification(iden))
        },
        (Task::SavingSelf { create_exchange }, Reply::Done) => {
            &&& silent
            &&& turns_to(before, after, Task::LoadingPic { create_exchange })
            &&& work == Work::LoadPic(before.myself)
        },
        (Task::LoadingPic { create_exchange }, Reply::Pic(Some(pic))) => {
            &&& silent
            &&& turns_to(before, after, Task::SavingPic { create_exchange })
            &&& work is Write
            &&& work->Write_0.points(before.myself, PIC@, pic.content_hash, pic.content_len)
        },
        (Task::LoadingPic { create_exchange }, Reply::Pic(None)) => silent && introduced(
            before,
            create_exchange,
            after,
            work,
        ),
        (Task::SavingPic { create_exchange }, Reply::Done) => silent && introduced(
            before,
            create_exchange,
            after,
            work,
        ),
        (Task::CreatingExchange, Reply::Exchange(id)) => {
            &&& silent
            &&& turns_to(before, after, Task::SharingExchange(id))
            &&& work == Work::ShareExchange(id)
        },
        (Task::SharingExchange(id), Reply::Ticket(ticket)) => {
            &&& silent
            &&& turns_to(before, after, Task::SavingTicket(id))
            &&& work matches Work::Write(DocWrite::SetBytes { author, key, text })
            &&& author == before.myself
            &&& key@ == EXCHANGE_TICKET@
            &&& text == ticket
        },
        (Task::SavingTicket(id), Reply::Done) => {
            &&& silent
            &&& after == (EstablishState {
                exchange: Some(ExchangeLink::Creator(id)),
                task: Task::Subscribing { share: false },
                ..before
            })
            &&& before.doc matches Some(doc)
            &&& work == Work::SubscribeDoc(doc)
        },
        (Task::Subscribing { share }, Reply::Done) => {
            &&& silent
            &&& if share {
                &&& turns_to(before, after, Task::Sharing)
                &&& before.doc matches Some(doc)
                &&& work == Work::ShareDoc(doc)
            } else {
                turns_to(before, after, Task::Idle) && work == Work::Wait
            }
        },
        (Task::Sharing, Reply::Ticket(ticket)) => {
            &&& events == seq![Event::JoinTicketGenerated(ticket)]
            &&& turns_to(before, after, Task::Idle)
            &&& work == Work::Wait
        },
        (Task::JoiningExchange, Reply::Exchange(id)) => {
            &&& silent
            &&& turns_to(before, after, Task::Meeting(id))
            &&& work == Work::Listen(id)
        },
        (Task::Meeting(id), Reply::News(news)) => match news {
            Some(ContextEvents::Join(part)) if part != before.myself => {
                &&& silent
                &&& turns_to(before, after, Task::AddingExchange)
                &&& work == Work::AddContext(id)
            },
            None | Some(ContextEvents::SyncFinished) => {
                &&& reports_failure(events, "Other participant failed to join"@)
                &&& gives_up_doc(before, after, work)
            },
            _ => silent && after == before && work == Work::Listen(id),
        },
        (Task::AddingExchange, Reply::Done) => {
            &&& events == seq![Event::ConnectionConfirmed]
            &&& gives_up_doc(before, after, work)
        },
        (Task::Leaving(doc), Reply::Done) => {
            &&& silent
            &&& turns_to(before, after, Task::Dropping)
            &&& work == Work::DropDoc(doc)
        },
        (Task::Dropping, Reply::Done) => {
            &&& events == seq![Event::Reset]
            &&& turns_to(before, after, Task::Idle)
            &&& work == Work::Wait
        },
        (Task::ReadingIdentity, Reply::Identification(iden)) => {
            &&& after == (EstablishState { other: Some(iden), task: Task::Idle, ..before })
            &&& events == seq![Event::IdentityLoaded(iden)] + established(after)
            &&& work == Work::Wait
        },
        (Task::ReadingTicket, Reply::Bytes(bytes)) => {
            &&& after.exchange matches Some(ExchangeLink::Joiner(ticket))
            &&& ticket@ == lossy_text(bytes@)
            &&& after == (EstablishState { exchange: after.exchange, task: Task::Idle, ..before })
            &&& events == established(after)
            &&& work == Work::Wait
        },
        _ => {
            &&& silent
            &&& turns_to(before, after, Task::Stopped)
            &&& work == Work::Fail
        },
    }
}

/// What comes in leads from one state to another, tells the application of the events,
/// and calls for the work.
pub open spec fn establish_step(
    before: EstablishState,
    input: Input,
    after: EstablishState,
    events: Seq<Event>,
    work: Work,
) -> bool {
    match input {
        Input::Asked(action) => asked_step(before, action, after, events, work),
        Input::Live(event) => live_step(before, event, after, events, work),
        Input::Replied(reply) => reply_step(before, reply, after, events, work),
        Input::Closed => {
            &&& events == Seq::<Event>::empty()
            &&& turns_to(before, after, Task::Stopped)
            &&& work == Work::Stop
        },
    }
}

/// A connection that is being established.
pub struct EstablishConnectionActor {
    myself: PublicKey,
    doc: Option<ExchangeId>,
    other: Option<Identification>,
    exchange: Option<ExchangeLink>,
    found_neighbor: bool,
    waiting: ContentReadyProcessor,
    task: Task,
}

impl View for EstablishConnectionActor {
    type V = EstablishState;

    closed spec fn view(&self) -> EstablishState {
        EstablishState {
            myself: self.myself,
            doc: self.doc,
            other: self.other,
            exchange: self.exchange,
            found_neighbor: self.found_neighbor,
            waiting: self.waiting@,
            task: self.task,
        }
    }
}

fn quietly(work: Work) -> (step: Step)
    ensures
        step.events@ == Seq::<Event>::empty(),
        step.work == work,
{
    Step { events: Vec::new(), work }
}

fn saying(event: Event, work: Work) -> (step: Step)
    ensures
        step.events@ == seq![event],
        step.work == work,
{
    Step { events: vec![event], work }
}

impl EstablishConnectionActor {
    /// Begins the conversation for the participant `myself`.
    pub fn start(myself: PublicKey) -> (started: (EstablishConnectionActor, Step))
        ensures
            started.0@ == begun(myself),
            started.0@.is_consistent(),
            started.1.events@ == seq![Event::Reset],
            started.1.work == Work::Wait,
    {
        let actor = EstablishConnectionActor {
            myself,
            doc: None,
            other: None,
            exchange: None,
            found_neighbor: false,
            waiting: ContentReadyProcessor::new(),
            task: Task::Idle,
        };
        (actor, saying(Event::Reset, Work::Wait))
    }

    /// Whether what comes in is waited for.
    pub fn awaits(&self, input: &Input) -> (waits: bool)
        ensures
            waits == establish_awaits(self@, *input),
    {
        match input {
            Input::Asked(Action::AcceptConnection) => self.task == Task::Idle && self.doc.is_some(),
            Input::Asked(Action::RejectConnection) => self.task == Task::Idle && self.doc.is_some(),
            Input::Asked(_) => self.task == Task::Idle,
            Input::Live(_) => self.task == Task::Idle,
            Input::Closed => self.task == Task::Idle,
            Input::Replied(reply) => match (self.task, reply) {
                (Task::Idle, _) => false,
                (Task::Stopped, _) => false,
                (Task::Meeting(_), Reply::News(_)) => true,
                (Task::Meeting(_), _) => false,
                (_, Reply::Failed) => true,
                (Task::CreatingDoc, Reply::Doc(_)) => true,
                (Task::ImportingDoc, Reply::Doc(_)) => true,
                (Task::LoadingSelf { .. }, Reply::Identification(_)) => true,
                (Task::ReadingIdentity, Reply::Identification(_)) => true,
                (Task::LoadingPic { .. }, Reply::Pic(_)) => true,
                (Task::CreatingExchange, Reply::Exchange(_)) => true,
                (Task::JoiningExchange, Reply::Exchange(_)) => true,
                (Task::SharingExchange(_), Reply::Ticket(_)) => true,
                (Task::Sharing, Reply::Ticket(_)) => true,
                (Task::ReadingTicket, Reply::Bytes(_)) => true,
                (Task::SavingSelf { .. }, Reply::Done) => true,
                (Task::SavingPic { .. }, Reply::Done) => true,
                (Task::SavingTicket(_), Reply::Done) => true,
                (Task::Subscribing { .. }, Reply::Done) => true,
                (Task::AddingExchange, Reply::Done) => true,
                (Task::Leaving(_), Reply::Done) => true,
                (Task::Dropping, Reply::Done) => true,
                _ => false,
            },
        }
    }

    /// Goes on with what has come in.
    pub fn step(&mut self, input: Input) -> (step: Step)
        requires
            old(self)@.is_consistent(),
            establish_awaits(old(self)@, input),
        ensures
            establish_step(old(self)@, input, final(self)@, step.events@, step.work),
            final(self)@.is_consistent(),
    {
        match input {
            Input::Asked(action) => self.on_action(action),
            Input::Live(event) => self.on_live_event(event),
            Input::Replied(reply) => self.on_reply(reply),
            Input::Closed => {
                self.task = Task::Stopped;
                quietly(Work::Stop)
            },
        }
    }

    fn on_action(&mut self, action: Action) -> (step: Step)
        requires
            old(self)@.is_consistent(),
            establish_awaits(old(self)@, Input::Asked(action)),
        ensures
            asked_step(old(self)@, action, final(self)@, step.events@, step.work),
            final(self)@.is_consistent(),
    {
        match action {
            Action::GenerateJoinTicket => match self.doc {
                Some(doc) => {
                    self.task = Task::Sharing;
                    quietly(Work::ShareDoc(doc))
                },
                None => {
                    self.task = Task::CreatingDoc;
                    quietly(Work::CreateDoc)
                },
            },
            Action::ReceivedJoinTicket(ticket) => match self.doc {
                Some(_) => {
                    self.task = Task::Stopped;
                    quietly(Work::Stop)
                },
                None => {
                    self.task = Task::ImportingDoc;
                    quietly(Work::ImportDoc(ticket))
                },
            },
            Action::AcceptConnection => self.accept_connection(),
            Action::RejectConnection => quietly(self.drop_doc()),
        }
    }

    /// Accepts the connection: the two meet on the exchange, where there is one.
    fn accept_connection(&mut self) -> (step: Step)
        requires
            old(self)@.is_consistent(),
            establish_awaits(old(self)@, Input::Asked(Action::AcceptConnection)),
        ensures
            asked_step(
                old(self)@,
                Action::AcceptConnection,
                final(self)@,
                step.events@,
                step.work,
            ),
            final(self)@.is_consistent(),
    {
        match &self.exchange {
            Some(ExchangeLink::Creator(id)) => {
                let id = *id;
                self.task = Task::Meeting(id);
                quietly(Work::Listen(id))
            },
            Some(ExchangeLink::Joiner(ticket)) => {
                let ticket = ticket.clone();
                self.task = Task::JoiningExchange;
                quietly(Work::JoinExchange(ticket))
            },
            None => quietly(self.drop_doc()),
        }
    }

    /// Gives up the document.
    fn drop_doc(&mut self) -> (work: Work)
        requires
            old(self)@.doc is Some,
        ensures
            gives_up_doc(old(self)@, final(self)@, work),
            final(self)@.is_consistent(),
    {
        match self.doc {
            Some(doc) => {
                self.doc = None;
                self.task = Task::Leaving(doc);
                Work::LeaveDoc(doc)
            },
            None => Work::Wait,
        }
    }

    fn on_live_event(&mut self, event: LiveEvent) -> (step: Step)
        requires
            old(self)@.task is Idle,
        ensures
            live_step(old(self)@, event, final(self)@, step.events@, step.work),
            final(self)@.is_consistent(),
    {
        match event {
            LiveEvent::NeighborUp(_) => {
                self.found_neighbor = true;
                quietly(Work::Wait)
            },
            LiveEvent::NeighborDown(_) => quietly(Work::Wait),
            LiveEvent::SyncFinished => {
                if self.found_neighbor {
                    quietly(Work::Wait)
                } else {
                    saying(
                        Event::ConnectionFailed("Timed out waiting for connection".to_owned()),
                        Work::Wait,
                    )
                }
            },
            _ => match self.waiting.process_event(event) {
                Some(entry) => self.handle_doc_entry(entry),
                None => quietly(Work::Wait),
            },
        }
    }

    /// Handles an entry of the document whose blob is on this node.
    fn handle_doc_entry(&mut self, entry: Entry) -> (step: Step)
        requires
            old(self)@.task is Idle,
        ensures
            entry_step(old(self)@, entry, final(self)@, step.events@, step.work),
            final(self)@.is_consistent(),
    {
        if entry.author == self.myself {
            return quietly(Work::Wait);
        }
        let key = from_utf8_lossy(entry.key.as_slice());
        if same_text(key.as_str(), IDENTIFICATION) {
            self.task = Task::ReadingIdentity;
            quietly(Work::ReadIdentification(entry.content_hash))
        } else if same_text(key.as_str(), PIC) {
            let mut step = saying(Event::PicLoaded(entry.content_hash), Work::Wait);
            self.check_established(&mut step);
            step
        } else if same_text(key.as_str(), EXCHANGE_TICKET) {
            self.task = Task::ReadingTicket;
            quietly(Work::ReadBytes(entry.content_hash))
        } else {
            let mut step = quietly(Work::Wait);
            self.check_established(&mut step);
            assert(step.events@ =~= established(self@));
            step
        }
    }

    /// Adds the news that both sides are known, once they are.
    fn check_established(&self, step: &mut Step)
        ensures
            final(step).events@ == old(step).events@ + established(self@),
            final(step).work == old(step).work,
    {
        let ghost before = step.events@;
        if self.other.is_some() && self.exchange.is_some() {
            step.events.push(Event::ConnectionEstablished);
        }
        assert(step.events@ =~= before + established(self@));
    }

    /// Goes on once the identification and picture are on the document.
    fn introduced(&mut self, create_exchange: bool) -> (step: Step)
        requires
            old(self)@.doc is Some,
        ensures
            step.events@ == Seq::<Event>::empty(),
            introduced(old(self)@, create_exchange, final(self)@, step.work),
            final(self)@.is_consistent(),
    {
        if create_exchange {
            self.task = Task::CreatingExchange;
            return quietly(Work::CreateExchange);
        }
        match self.doc {
            Some(doc) => {
                self.task = Task::Subscribing { share: true };
                quietly(Work::SubscribeDoc(doc))
            },
            None => quietly(Work::Wait),
        }
    }

    fn on_reply(&mut self, reply: Reply) -> (step: Step)
        requires
            old(self)@.is_consistent(),
            task_awaits(old(self)@.task, reply),
        ensures
            reply_step(old(self)@, reply, final(self)@, step.events@, step.work),
            final(self)@.is_consistent(),
    {
        match (self.task, reply) {
            (Task::CreatingDoc, Reply::Doc(doc)) => {
                self.doc = Some(doc);
                self.task = Task::LoadingSelf { create_exchange: false };
                quietly(Work::LoadIdentification(self.myself))
            },
            (Task::ImportingDoc, Reply::Doc(doc)) => {
                self.doc = Some(doc);
                self.task = Task::LoadingSelf { create_exchange: true };
                quietly(Work::LoadIdentification(self.myself))
            },
            (Task::LoadingSelf { create_exchange }, Reply::Identification(iden)) => {
                self.task = Task::SavingSelf { create_exchange };
                quietly(
                    Work::Write(
                        save_on_doc_as_key(
                            &self.myself,
                            IDENTIFICATION,
                            Record::Identification(iden),
                        ),
                    ),
                )
            },
            (Task::SavingSelf { create_exchange }, Reply::Done) => {
                self.task = Task::LoadingPic { create_exchange };
                quietly(Work::LoadPic(self.myself))
            },
            (Task::LoadingPic { create_exchange }, Reply::Pic(Some(pic))) => {
                self.task = Task::SavingPic { create_exchange };
                quietly(
                    Work::Write(
                        DocWrite::SetHash {
                            author: self.myself,
                            key: PIC.to_owned(),
                            hash: pic.content_hash,
                            size: pic.content_len,
                        },
                    ),
                )
            },
            (Task::LoadingPic { create_exchange }, Reply::Pic(None)) => self.introduced(
                create_exchange,
            ),
            (Task::SavingPic { create_exchange }, Reply::Done) => self.introduced(create_exchange),
            (Task::CreatingExchange, Reply::Exchange(id)) => {
                self.task = Task::SharingExchange(id);
                quietly(Work::ShareExchange(id))
            },
            (Task::SharingExchange(id), Reply::Ticket(ticket)) => {
                self.task = Task::SavingTicket(id);
                quietly(
                    Work::Write(
                        DocWrite::SetBytes {
                            author: self.myself,
                            key: EXCHANGE_TICKET.to_owned(),
                            text: ticket,
                        },
                    ),
                )
            },
            (Task::SavingTicket(id), Reply::Done) => {
                self.exchange = Some(ExchangeLink::Creator(id));
                match self.doc {
                    Some(doc) => {
                        self.task = Task::Subscribing { share: false };
                        quietly(Work::SubscribeDoc(doc))
                    },
                    None => quietly(Work::Wait),
                }
            },
            (Task::Subscribing { share }, Reply::Done) => match self.doc {
                Some(doc) if share => {
                    self.task = Task::Sharing;
                    quietly(Work::ShareDoc(doc))
                },
                _ => {
                    self.task = Task::Idle;
                    quietly(Work::Wait)
                },
            },
            (Task::Sharing, Reply::Ticket(ticket)) => {
                self.task = Task::Idle;
                saying(Event::JoinTicketGenerated(ticket), Work::Wait)
            },
            (Task::JoiningExchange, Reply::Exchange(id)) => {
                self.task = Task::Meeting(id);
                quietly(Work::Listen(id))
            },
            (Task::Meeting(id), Reply::News(news)) => self.on_news(id, news),
            (Task::AddingExchange, Reply::Done) => {
                let work = self.drop_doc();
                saying(Event::ConnectionConfirmed, work)
            },
            (Task::Leaving(doc), Reply::Done) => {
                self.task = Task::Dropping;
                quietly(Work::DropDoc(doc))
            },
            (Task::Dropping, Reply::Done) => {
                self.task = Task::Idle;
                saying(Event::Reset, Work::Wait)
            },
            (Task::ReadingIdentity, Reply::Identification(iden)) => {
                let mut step = saying(Event::IdentityLoaded(iden.clone()), Work::Wait);
                self.other = Some(iden);
                self.task = Task::Idle;
                self.check_established(&mut step);
                step
            },
            (Task::ReadingTicket, Reply::Bytes(bytes)) => {
                let ticket = from_utf8_lossy(bytes.as_slice());
                self.exchange = Some(ExchangeLink::Joiner(ticket));
                self.task = Task::Idle;
                let mut step = quietly(Work::Wait);
                self.check_established(&mut step);
                assert(step.events@ =~= established(self@));
                step
            },
            _ => {
                self.task = Task::Stopped;
                quietly(Work::Fail)
            },
        }
    }

    /// Goes on with the news of the exchange on which the other one is awaited.
    fn on_news(&mut self, id: ExchangeId, news: Option<ContextEvents>) -> (step: Step)
        requires
            old(self)@.is_consistent(),
            old(self)@.task == Task::Meeting(id),
        ensures
            reply_step(
                old(self)@,
                Reply::News(news),
                final(self)@,
                step.events@,
                step.work,
            ),
            final(self)@.is_consistent(),
    {
        match news {
            Some(ContextEvents::Join(part)) if part != self.myself => {
                self.task = Task::AddingExchange;
                quietly(Work::AddContext(id))
            },
            None | Some(ContextEvents::SyncFinished) => {
                let work = self.drop_doc();
                saying(
                    Event::ConnectionFailed("Other participant failed to join".to_owned()),
                    work,
                )
            },
            _ => quietly(Work::Listen(id)),
        }
    }
}

/// A state that is consistent stays so, whatever comes in that is waited for.
pub proof fn stays_consistent(
    before: EstablishState,
    input: Input,
    after: EstablishState,
    events: Seq<Event>,
    work: Work,
)
    requires
        before.is_consistent(),
        establish_awaits(before, input),
        establish_step(before, input, after, events, work),
    ensures
        after.is_consistent(),
        after.myself == before.myself,
{
}

/// The entries that this participant wrote change nothing but the entries that wait,
/// and nobody hears of them.
pub proof fn own_entries_are_passed_over(
    before: EstablishState,
    event: LiveEvent,
    after: EstablishState,
    events: Seq<Event>,
    work: Work,
)
    requires
        ready_after(before.waiting, event) matches Some(entry) && entry.author == before.myself,
        establish_step(before, Input::Live(event), after, events, work),
    ensures
        after == (EstablishState { waiting: waiting_after(before.waiting, event), ..before }),
        events == Seq::<Event>::empty(),
        work == Work::Wait,
{
}

/// The application hears that a connection is established only while the other
/// participant and the exchange are both known.
pub proof fn established_means_both_are_known(
    before: EstablishState,
    input: Input,
    after: EstablishState,
    events: Seq<Event>,
    work: Work,
)
    requires
        establish_step(before, input, after, events, work),
    ensures
        events.contains(Event::ConnectionEstablished) ==> after.other is Some
            && after.exchange is Some,
{
    if events.contains(Event::ConnectionEstablished) {
        let i = choose|i: int| 0 <= i < events.len() && events[i] == Event::ConnectionEstablished;
        assert(events[i] is ConnectionEstablished);
    }
}

/// A connection is confirmed only once the exchange is registered, and the exchange is
/// registered only once someone else than this participant has joined it.
pub proof fn confirmed_means_they_met(
    before: EstablishState,
    input: Input,
    after: EstablishState,
    events: Seq<Event>,
    work: Work,
)
    requires
        establish_awaits(before, input),
        establish_step(before, input, after, events, work),
    ensures
        events.contains(Event::ConnectionConfirmed) ==> before.task is AddingExchange && input
            == Input::Replied(Reply::Done),
        after.task is AddingExchange ==> (input matches
            Input::Replied(Reply::News(Some(ContextEvents::Join(part)))) && part != before.myself),
        work matches Work::AddContext(id) ==> before.task == Task::Meeting(id),
{
    if events.contains(Event::ConnectionConfirmed) {
        let i = choose|i: int| 0 <= i < events.len() && events[i] == Event::ConnectionConfirmed;
        assert(events[i] is ConnectionConfirmed);
    }
}

/// When the application hears of a reset, there is no document, and a new conversation
/// can begin.
pub proof fn reset_leaves_no_document(
    before: EstablishState,
    input: Input,
    after: EstablishState,
    events: Seq<Event>,
    work: Work,
)
    requires
        before.is_consistent(),
        establish_step(before, input, after, events, work),
        events.contains(Event::Reset),
    ensures
        after.doc is None,
        after.task is Idle,
        work == Work::Wait,
        establish_awaits(after, Input::Asked(Action::GenerateJoinTicket)),
{
    let i = choose|i: int| 0 <= i < events.len() && events[i] == Event::Reset;
    assert(events[i] is Reset);
}

/// Accepting or rejecting a connection gives the document up in the end: it is left,
/// dropped, and the application hears of the reset.
pub proof fn document_is_given_up(
    first: EstablishState,
    second: EstablishState,
    third: EstablishState,
    work: Work,
    events: Seq<Event>,
    left: Seq<Event>,
    drop: Work,
    last: Work,
)
    requires
        first.task matches Task::Leaving(doc) && work == Work::LeaveDoc(doc),
        establish_step(first, Input::Replied(Reply::Done), second, left, drop),
        establish_step(second, Input::Replied(Reply::Done), third, events, last),
    ensures
        drop == (match first.task {
            Task::Leaving(doc) => Work::DropDoc(doc),
            _ => Work::Wait,
        }),
        events == seq![Event::Reset],
        third == (EstablishState { task: Task::Idle, ..first }),
{
}

/// The application hears of a timeout exactly when a sync ends before any neighbor was
/// seen.
pub proof fn timeout_means_nobody_came(
    before: EstablishState,
    after: EstablishState,
    events: Seq<Event>,
    work: Work,
)
    requires
        establish_step(before, Input::Live(LiveEvent::SyncFinished), after, events, work),
    ensures
        reports_failure(events, "Timed out waiting for connection"@) <==> !before.found_neighbor,
        before.found_neighbor ==> events == Seq::<Event>::empty(),
        after == before,
{
}

/// Whether a conversation of `myself` goes through the states, from its beginning: what
/// comes in at each of them is waited for and leads to the next one, telling the
/// application of the events.
pub open spec fn is_conversation(
    myself: PublicKey,
    states: Seq<EstablishState>,
    inputs: Seq<Input>,
    events: Seq<Seq<Event>>,
    works: Seq<Work>,
) -> bool {
    &&& states.len() == inputs.len() + 1
    &&& events.len() == inputs.len()
    &&& works.len() == inputs.len()
    &&& states[0] == begun(myself)
    &&& forall|i: int|
        0 <= i < inputs.len() ==> establish_awaits(states[i], #[trigger] inputs[i])
            && establish_step(states[i], inputs[i], states[i + 1], events[i], works[i])
}

/// Whether a neighbor comes in.
pub open spec fn is_neighbor(input: Input) -> bool {
    input matches Input::Live(LiveEvent::NeighborUp(_))
}

proof fn lemma_neighbor_is_remembered(
    myself: PublicKey,
    states: Seq<EstablishState>,
    inputs: Seq<Input>,
    events: Seq<Seq<Event>>,
    works: Seq<Work>,
    i: int,
)
    requires
        is_conversation(myself, states, inputs, events, works),
        0 <= i < states.len(),
    ensures
        states[i].found_neighbor <==> exists|k: int| 0 <= k < i && is_neighbor(#[trigger] inputs[k]),
    decreases i,
{
    if i > 0 {
        lemma_neighbor_is_remembered(myself, states, inputs, events, works, i - 1);
        let input = inputs[i - 1];
        assert(establish_step(states[i - 1], input, states[i], events[i - 1], works[i - 1]));
        assert(states[i].found_neighbor == (states[i - 1].found_neighbor || is_neighbor(input)));
        if states[i - 1].found_neighbor {
            let k = choose|k: int| 0 <= k < i - 1 && is_neighbor(#[trigger] inputs[k]);
            assert(is_neighbor(inputs[k]));
        }
    }
}

/// When a sync ends, the application hears of a timeout exactly where no neighbor came
/// earlier in the conversation, and else of nothing.
pub proof fn timeout_means_nobody_came_before(
    myself: PublicKey,
    states: Seq<EstablishState>,
    inputs: Seq<Input>,
    events: Seq<Seq<Event>>,
    works: Seq<Work>,
    i: int,
)
    requires
        is_conversation(myself, states, inputs, events, works),
        0 <= i < inputs.len(),
        inputs[i] == Input::Live(LiveEvent::SyncFinished),
    ensures
        (forall|k: int| 0 <= k < i ==> !is_neighbor(#[trigger] inputs[k])) <==> reports_failure(
            events[i],
            "Timed out waiting for connection"@,
        ),
        (exists|k: int| 0 <= k < i && is_neighbor(#[trigger] inputs[k])) ==> events[i] == Seq::<
            Event,
        >::empty(),
{
    lemma_neighbor_is_remembered(myself, states, inputs, events, works, i);
    assert(establish_step(states[i], inputs[i], states[i + 1], events[i], works[i]));
}

/// The ticket that one node writes to the document is the ticket that the other one
/// reads from it.
pub proof fn ticket_reaches_the_other(
    write: DocWrite,
    ticket: String,
    entry: Entry,
    bytes: Vec<u8>,
    before: EstablishState,
    reading: EstablishState,
    after: EstablishState,
    asking: Seq<Event>,
    read: Work,
    events: Seq<Event>,
    work: Work,
)
    requires
        write matches DocWrite::SetBytes { author, key, text } && author == entry.author && key@
            == EXCHANGE_TICKET@ && text == ticket,
        entry.author != before.myself,
        entry.key@ == encode_utf8(write.key()),
        bytes@ == encode_utf8(ticket@),
        entry_step(before, entry, reading, asking, read),
        establish_step(reading, Input::Replied(Reply::Bytes(bytes)), after, events, work),
    ensures
        read == Work::ReadBytes(entry.content_hash),
        after.exchange matches Some(ExchangeLink::Joiner(found)) && found@ == ticket@,
        after.other is Some ==> events == seq![Event::ConnectionEstablished],
{
    encoded_text_is_not_lost(write.key());
    encoded_text_is_not_lost(ticket@);
    keys_are_distinct();
}

/// A conversation fails exactly where a piece of work could not be done, and is over
/// exactly where nothing more comes in or a second invitation does. The application hears
/// nothing of either.
pub proof fn failing_is_not_ending(
    before: EstablishState,
    input: Input,
    after: EstablishState,
    events: Seq<Event>,
    work: Work,
)
    requires
        before.is_consistent(),
        establish_awaits(before, input),
        establish_step(before, input, after, events, work),
    ensures
        work == Work::Fail <==> input == Input::Replied(Reply::Failed),
        work == Work::Stop <==> input is Closed || (before.doc is Some && input matches
            Input::Asked(Action::ReceivedJoinTicket(_))),
        after.task is Stopped <==> work == Work::Fail || work == Work::Stop,
        after.task is Stopped ==> events == Seq::<Event>::empty(),
{
}

/// The keys of the document are told apart.
pub proof fn keys_are_distinct()
    ensures
        IDENTIFICATION@ != PIC@,
        IDENTIFICATION@ != EXCHANGE_TICKET@,
        PIC@ != EXCHANGE_TICKET@,
{
    reveal_strlit("id");
    reveal_strlit("id_pic");
    reveal_strlit("exchange_ticket");
    assert(IDENTIFICATION@.len() == 2);
    assert(PIC@.len() == 6);
    assert(EXCHANGE_TICKET@.len() == 15);
}

/// How many replies a piece of work is away from waiting for actions again, at most,
/// but for the time that the other one is awaited.
pub open spec fn replies_left(task: Task) -> nat {
    match task {
        Task::Idle | Task::Stopped => 0,
        Task::CreatingDoc | Task::ImportingDoc => 9,
        Task::LoadingSelf { .. } => 8,
        Task::SavingSelf { .. } => 7,
        Task::LoadingPic { .. } => 6,
        Task::SavingPic { .. } => 5,
        Task::CreatingExchange => 4,
        Task::SharingExchange(_) => 3,
        Task::SavingTicket(_) => 2,
        Task::Subscribing { share } => if share {
            2
        } else {
            1
        },
        Task::Sharing => 1,
        Task::JoiningExchange => 5,
        Task::Meeting(_) => 4,
        Task::AddingExchange => 3,
        Task::Leaving(_) => 2,
        Task::Dropping => 1,
        Task::ReadingIdentity | Task::ReadingTicket => 1,
    }
}

/// Every reply brings the conversation closer to waiting for actions again, but for
/// news of the exchange that do not say whether the other one will come.
pub proof fn replies_bring_it_on(
    before: EstablishState,
    reply: Reply,
    after: EstablishState,
    events: Seq<Event>,
    work: Work,
)
    requires
        task_awaits(before.task, reply),
        establish_step(before, Input::Replied(reply), after, events, work),
    ensures
        replies_left(after.task) < replies_left(before.task) || before.task is Meeting && after
            == before && work == Work::Listen(before.task->Meeting_0),
{
}

/// While the other one is awaited on the exchange, the news decide: only the end of a sync
/// or of the news fails the connection and gives the document up, and only the joining of
/// someone else than this participant registers the exchange. All other news are passed
/// over, and the waiting goes on as it was.
pub proof fn news_decide_the_meeting(
    before: EstablishState,
    id: ExchangeId,
    news: Option<ContextEvents>,
    after: EstablishState,
    events: Seq<Event>,
    work: Work,
)
    requires
        before.task == Task::Meeting(id),
        establish_step(before, Input::Replied(Reply::News(news)), after, events, work),
    ensures
        (exists|i: int| 0 <= i < events.len() && (#[trigger] events[i]) is ConnectionFailed)
            <==> news is None || news == Some(ContextEvents::SyncFinished),
        work is LeaveDoc <==> news is None || news == Some(ContextEvents::SyncFinished),
        after.doc != before.doc ==> news is None || news == Some(ContextEvents::SyncFinished),
        news is None || news == Some(ContextEvents::SyncFinished) ==> {
            &&& events.len() == 1
            &&& events[0]->ConnectionFailed_0@ == "Other participant failed to join"@
            &&& before.doc == Some(work->LeaveDoc_0)
            &&& after.doc is None
            &&& after.task == Task::Leaving(work->LeaveDoc_0)
        },
        work is AddContext <==> (news matches Some(ContextEvents::Join(part)) && part
            != before.myself),
        work is AddContext ==> work == Work::AddContext(id) && after.task == Task::AddingExchange
            && events.len() == 0,
        !(work is LeaveDoc) && !(work is AddContext) ==> after == before && events.len() == 0
            && work == Work::Listen(id),
        after.other == before.other,
        after.exchange == before.exchange,
{
    if news is None || news == Some(ContextEvents::SyncFinished) {
        assert(events[0] is ConnectionFailed);
    }
}

/// What an action leads to: an invitation opens a document where there is none, and is
/// otherwise one to the document that is there; a ticket is imported where there is no
/// document; accepting goes to the exchange that is known, or gives the document up where
/// none is; rejecting gives it up. Nothing is told yet.
pub proof fn actions_lead_to_work(
    before: EstablishState,
    action: Action,
    after: EstablishState,
    events: Seq<Event>,
    work: Work,
)
    requires
        establish_awaits(before, Input::Asked(action)),
        establish_step(before, Input::Asked(action), after, events, work),
    ensures
        events.len() == 0,
        action is GenerateJoinTicket && before.doc is None ==> work == Work::CreateDoc
            && after.task == Task::CreatingDoc,
        action is GenerateJoinTicket && before.doc is Some ==> work == Work::ShareDoc(before.doc->0)
            && after.task == Task::Sharing,
        (action matches Action::ReceivedJoinTicket(ticket) && before.doc is None) ==> work
            == Work::ImportDoc(action->ReceivedJoinTicket_0) && after.task == Task::ImportingDoc,
        action is AcceptConnection ==> match before.exchange {
            Some(ExchangeLink::Creator(id)) => work == Work::Listen(id) && after.task
                == Task::Meeting(id),
            Some(ExchangeLink::Joiner(ticket)) => work == Work::JoinExchange(ticket) && after.task
                == Task::JoiningExchange,
            None => work == Work::LeaveDoc(before.doc->0) && after.doc is None,
        },
        action is RejectConnection ==> work == Work::LeaveDoc(before.doc->0) && after.doc is None,
        !(work is LeaveDoc) ==> after.doc == before.doc,
        after.other == before.other,
        after.exchange == before.exchange,
        after.found_neighbor == before.found_neighbor,
{
}

/// An entry of someone else is taken by its key: an identification and a ticket are read, a
/// picture is told at once, and any other is passed over.
pub proof fn entries_of_others_are_taken_by_key(
    before: EstablishState,
    event: LiveEvent,
    entry: Entry,
    key: Seq<char>,
    after: EstablishState,
    events: Seq<Event>,
    work: Work,
)
    requires
        establish_step(before, Input::Live(event), after, events, work),
        ready_after(before.waiting, event) == Some(entry),
        entry.author != before.myself,
        entry.key@ == encode_utf8(key),
    ensures
        key == "id"@ <==> work is ReadIdentification,
        key == "exchange_ticket"@ <==> work is ReadBytes,
        key == "id"@ ==> work == Work::ReadIdentification(entry.content_hash) && after.task
            == Task::ReadingIdentity && events.len() == 0,
        key == "exchange_ticket"@ ==> work == Work::ReadBytes(entry.content_hash) && after.task
            == Task::ReadingTicket && events.len() == 0,
        key == "id_pic"@ ==> work == Work::Wait && events.len() >= 1 && events[0]
            == Event::PicLoaded(entry.content_hash),
        key != "id_pic"@ ==> forall|i: int|
            0 <= i < events.len() ==> (#[trigger] events[i]) is ConnectionEstablished,
        key != "id"@ && key != "exchange_ticket"@ ==> (events.contains(
            Event::ConnectionEstablished,
        ) <==> before.other is Some && before.exchange is Some),
        after.other == before.other,
        after.exchange == before.exchange,
        after.doc == before.doc,
        after.found_neighbor == before.found_neighbor,
{
    encoded_text_is_not_lost(key);
    keys_are_distinct();
    assert(IDENTIFICATION@ == "id"@);
    assert(PIC@ == "id_pic"@);
    assert(EXCHANGE_TICKET@ == "exchange_ticket"@);
    if key != "id"@ && key != "exchange_ticket"@ && before.other is Some && before.exchange is Some {
        if key == "id_pic"@ {
            assert(events[1] == Event::ConnectionEstablished);
        } else {
            assert(events[0] == Event::ConnectionEstablished);
        }
    }
}

/// A participant introduces itself on a document in order: its own identification is
/// loaded and written as its own, then its picture, if any. The one who was invited then
/// makes an exchange and writes its ticket; the one who invites does not. Then the document
/// is watched, and only the one who invites makes a ticket for it.
pub proof fn introduction_goes_in_order(
    before: EstablishState,
    reply: Reply,
    after: EstablishState,
    events: Seq<Event>,
    work: Work,
)
    requires
        before.is_consistent(),
        task_awaits(before.task, reply),
        reply != Reply::Failed,
        establish_step(before, Input::Replied(reply), after, events, work),
    ensures
        (before.task is CreatingDoc || before.task is ImportingDoc) ==> {
            &&& work == Work::LoadIdentification(before.myself)
            &&& after.doc == Some(reply->Doc_0)
            &&& after.task == (Task::LoadingSelf { create_exchange: before.task is ImportingDoc })
        },
        before.task is LoadingSelf ==> {
            &&& work matches Work::Write(DocWrite::Save { author, key, record })
            &&& author == before.myself
            &&& key@ == "id"@
            &&& record == Record::Identification(reply->Identification_0)
            &&& after.task == (Task::SavingSelf { create_exchange: before.task->LoadingSelf_create_exchange })
        },
        before.task is SavingSelf ==> work == Work::LoadPic(before.myself) && after.task
            == (Task::LoadingPic { create_exchange: before.task->SavingSelf_create_exchange }),
        before.task is LoadingPic ==> match reply {
            Reply::Pic(Some(pic)) => {
                &&& work matches Work::Write(DocWrite::SetHash { author, key, hash, size })
                &&& author == before.myself
                &&& key@ == "id_pic"@
                &&& hash == pic.content_hash
                &&& size == pic.content_len
                &&& after.task == (Task::SavingPic { create_exchange: before.task->LoadingPic_create_exchange })
            },
            _ => if before.task->LoadingPic_create_exchange {
                work == Work::CreateExchange && after.task == Task::CreatingExchange
            } else {
                work == Work::SubscribeDoc(before.doc->0) && after.task == (Task::Subscribing { share: true })
            },
        },
        before.task is SavingPic ==> if before.task->SavingPic_create_exchange {
            work == Work::CreateExchange && after.task == Task::CreatingExchange
        } else {
            work == Work::SubscribeDoc(before.doc->0) && after.task == (Task::Subscribing { share: true })
        },
        before.task is CreatingExchange ==> work == Work::ShareExchange(reply->Exchange_0)
            && after.task == Task::SharingExchange(reply->Exchange_0),
        before.task is SharingExchange ==> {
            &&& work matches Work::Write(DocWrite::SetBytes { author, key, text })
            &&& author == before.myself
            &&& key@ == "exchange_ticket"@
            &&& text == reply->Ticket_0
            &&& after.task == Task::SavingTicket(before.task->SharingExchange_0)
        },
        before.task is SavingTicket ==> {
            &&& after.exchange == Some(ExchangeLink::Creator(before.task->SavingTicket_0))
            &&& work == Work::SubscribeDoc(before.doc->0)
            &&& after.task == (Task::Subscribing { share: false })
        },
        before.task is Subscribing ==> if before.task->Subscribing_share {
            work == Work::ShareDoc(before.doc->0) && after.task == Task::Sharing
        } else {
            work == Work::Wait && after.task == Task::Idle
        },
        before.task is Sharing ==> work == Work::Wait && after.task == Task::Idle && events == seq![
            Event::JoinTicketGenerated(reply->Ticket_0),
        ],
        before.task is JoiningExchange ==> work == Work::Listen(reply->Exchange_0) && after.task
            == Task::Meeting(reply->Exchange_0),
{
    assert(IDENTIFICATION@ == "id"@);
    assert(PIC@ == "id_pic"@);
    assert(EXCHANGE_TICKET@ == "exchange_ticket"@);
}

/// What is read of the other one is known from then on and told: its identification as the
/// other one, its ticket as the way to the exchange. Once both are known, the application
/// hears that the connection is established.
pub proof fn what_is_read_is_known(
    before: EstablishState,
    reply: Reply,
    after: EstablishState,
    events: Seq<Event>,
    work: Work,
)
    requires
        task_awaits(before.task, reply),
        reply != Reply::Failed,
        establish_step(before, Input::Replied(reply), after, events, work),
        before.task is ReadingIdentity || before.task is ReadingTicket,
    ensures
        before.task is ReadingIdentity ==> after.other == Some(reply->Identification_0)
            && after.exchange == before.exchange && events.len() >= 1 && events[0]
            == Event::IdentityLoaded(reply->Identification_0),
        before.task is ReadingTicket ==> (after.exchange matches Some(ExchangeLink::Joiner(ticket))
            && ticket@ == lossy_text(reply->Bytes_0@)) && after.other == before.other,
        (after.other is Some && after.exchange is Some) <==> events.len() > 0 && events.last()
            == Event::ConnectionEstablished,
        events.len() == (if before.task is ReadingIdentity {
            1int
        } else {
            0
        }) + (if after.other is Some && after.exchange is Some {
            1int
        } else {
            0
        }),
        work == Work::Wait,
        after.task == Task::Idle,
        after.doc == before.doc,
{
}

/// Every event has one cause: a ticket that was made, an identification that was read, a
/// document that was dropped, an exchange that was registered. Nobody hears that a join is
/// attempted or that a connection was rejected.
pub proof fn events_have_their_causes(
    before: EstablishState,
    input: Input,
    after: EstablishState,
    events: Seq<Event>,
    work: Work,
    i: int,
)
    requires
        establish_awaits(before, input),
        establish_step(before, input, after, events, work),
        0 <= i < events.len(),
    ensures
        events[i] is JoinTicketGenerated ==> before.task is Sharing,
        events[i] is IdentityLoaded ==> before.task is ReadingIdentity,
        events[i] is Reset ==> before.task is Dropping && input == Input::Replied(Reply::Done),
        events[i] is ConnectionConfirmed ==> before.task is AddingExchange && input
            == Input::Replied(Reply::Done),
        events[i] is PicLoaded ==> input is Live,
        events[i] is ConnectionFailed ==> before.task is Meeting || input == Input::Live(
            LiveEvent::SyncFinished,
        ),
        !(events[i] is AttemptingJoin),
        !(events[i] is ConnectionRejected),
{
}

/// A registered exchange is confirmed, its document is left and dropped, and the reset is
/// told: none of these comes without the one before.
pub proof fn ending_goes_in_order(
    before: EstablishState,
    after: EstablishState,
    events: Seq<Event>,
    work: Work,
)
    requires
        before.is_consistent(),
        establish_step(before, Input::Replied(Reply::Done), after, events, work),
    ensures
        before.task is AddingExchange ==> events == seq![Event::ConnectionConfirmed] && work
            == Work::LeaveDoc(before.doc->0) && after.doc is None && after.task == Task::Leaving(
            before.doc->0,
        ),
        before.task matches Task::Leaving(doc) ==> events.len() == 0 && work == Work::DropDoc(doc)
            && after.task == Task::Dropping,
        before.task is Dropping ==> events == seq![Event::Reset] && work == Work::Wait
            && after.task == Task::Idle,
        after.other == before.other,
        after.found_neighbor == before.found_neighbor,
{
}

/// What is known is kept: no reply makes this participant forget a neighbor that it found
/// or an entry that waits. The other one changes only where its identification is read, the
/// exchange only where a ticket is written or read, and the document only where one is
/// opened or left.
pub proof fn what_is_known_is_kept(
    before: EstablishState,
    input: Input,
    after: EstablishState,
    events: Seq<Event>,
    work: Work,
)
    requires
        establish_awaits(before, input),
        establish_step(before, input, after, events, work),
    ensures
        before.found_neighbor ==> after.found_neighbor,
        !before.found_neighbor && after.found_neighbor <==> !before.found_neighbor && (input matches
            Input::Live(LiveEvent::NeighborUp(_))),
        !(input is Live) ==> after.waiting == before.waiting,
        after.other != before.other ==> before.task is ReadingIdentity && input is Replied,
        after.exchange != before.exchange ==> (before.task is SavingTicket || before.task
            is ReadingTicket) && input is Replied,
        after.doc != before.doc ==> before.task is CreatingDoc || before.task is ImportingDoc || work
            is LeaveDoc,
        work is LeaveDoc ==> before.doc == Some(work->LeaveDoc_0) && after.doc is None,
        after.myself == before.myself,
{
}

/// A neighbor that comes or goes is not told to the application. A sync that ends is told
/// only where no neighbor was found, as a timeout. None of these calls for work.
pub proof fn neighbors_are_not_told(
    before: EstablishState,
    event: LiveEvent,
    after: EstablishState,
    events: Seq<Event>,
    work: Work,
)
    requires
        establish_step(before, Input::Live(event), after, events, work),
        event is NeighborUp || event is NeighborDown || event is SyncFinished,
    ensures
        work == Work::Wait,
        after.task == before.task,
        after.doc == before.doc,
        after.found_neighbor == (before.found_neighbor || event is NeighborUp),
        event is NeighborUp || event is NeighborDown ==> events.len() == 0,
        event is SyncFinished && before.found_neighbor ==> events.len() == 0,
        event is SyncFinished && !before.found_neighbor ==> events.len() == 1 && (
        events[0] matches Event::ConnectionFailed(reason) && reason@
            == "Timed out waiting for connection"@),
{
}

/// The application hears nothing while a participant introduces itself, joins an exchange
/// or leaves a document.
pub proof fn introductions_are_silent(
    before: EstablishState,
    reply: Reply,
    after: EstablishState,
    events: Seq<Event>,
    work: Work,
)
    requires
        establish_awaits(before, Input::Replied(reply)),
        establish_step(before, Input::Replied(reply), after, events, work),
        events.len() > 0,
    ensures
        before.task is Sharing || before.task is Meeting || before.task is AddingExchange
            || before.task is Dropping || before.task is ReadingIdentity || before.task
            is ReadingTicket,
        reply != Reply::Failed,
{
}

} // verus!
