//! How two nodes find each other on an exchange itself: one makes it and hands out a
//! ticket, the other one joins it.
use crate::data::PublicKey;
use crate::exchange::context::ContextEvents;
use crate::identity::{
    first_stranger_is_the_other, is_other, other_takes_part, Identification, ParticipantList,
};
use vstd::prelude::*;

verus! {

/// What the application hears of a connection that is being established.
#[derive(Debug)]
pub enum EstablishConnectionEvents {
    JoinTicketGenerated(String),
    AttemptingJoin,
    ConnectionEstablished(Identification),
    ConnectionConfirmed,
    ConnectionRejected,
}

/// What the application asks for.
#[derive(Debug)]
pub enum EstablishConnectionActions {
    Start,
    GenerateJoinTicket,
    ReceivedJoinTicket(String),
    AcceptConnection,
    RejectConnection,
}

/// The application's view of a connection that is being established.
pub trait EstablishConnectionDispatchResponder: Send + Sync {
    fn event(&self, state: EstablishConnectionEvents);
}

/// What is to be done for the application.
#[derive(Debug)]
pub enum ConnectTask<C> {
    /// Nothing.
    Nothing,
    /// Make an exchange without registering it, and a ticket for it; then go on with
    /// `exchange_created`.
    CreateExchange,
    /// Join an exchange without registering it; then go on with `exchange_joined`.
    JoinExchange(String),
    /// Register the exchange, then send the event.
    AddContext(C, EstablishConnectionEvents),
    /// Shut down the exchanges, then send the event. The exchange is let go.
    ShutDown(C, EstablishConnectionEvents),
    /// Listen to the exchange for the other participant.
    Watch,
    /// Send an event.
    Send(EstablishConnectionEvents),
}

/// A connection that is being established: the exchange to meet on, with the handle
/// through which it is reached.
pub struct Connecting<C> {
    ex_ctx: Option<C>,
}

impl<C> View for Connecting<C> {
    type V = Option<C>;

    /// The exchange to meet on.
    closed spec fn view(&self) -> Option<C> {
        self.ex_ctx
    }
}

impl<C> Connecting<C> {
    /// There is no exchange yet.
    pub fn new() -> (connecting: Connecting<C>)
        ensures
            connecting@ is None,
    {
        Connecting { ex_ctx: None }
    }

    /// Whether there is an exchange to accept or reject.
    pub fn has_exchange(&self) -> (has: bool)
        ensures
            has == (self@ is Some),
    {
        self.ex_ctx.is_some()
    }

    /// What an action asks for. A connection can be accepted or rejected once there is
    /// an exchange, and only once.
    pub fn action(&mut self, asked: EstablishConnectionActions) -> (task: ConnectTask<C>)
        requires
            asked is AcceptConnection || asked is RejectConnection ==> old(self)@ is Some,
        ensures
            match asked {
                EstablishConnectionActions::Start => task == ConnectTask::<C>::Nothing
                    && final(self)@ == old(self)@,
                EstablishConnectionActions::GenerateJoinTicket => task == ConnectTask::<
                    C,
                >::CreateExchange && final(self)@ == old(self)@,
                EstablishConnectionActions::ReceivedJoinTicket(ticket) => task == ConnectTask::<
                    C,
                >::JoinExchange(ticket) && final(self)@ == old(self)@,
                EstablishConnectionActions::AcceptConnection => task == ConnectTask::AddContext(
                    old(self)@->0,
                    EstablishConnectionEvents::ConnectionConfirmed,
                ) && final(self)@ is None,
                EstablishConnectionActions::RejectConnection => task == ConnectTask::ShutDown(
                    old(self)@->0,
                    EstablishConnectionEvents::ConnectionRejected,
                ) && final(self)@ is None,
            },
            connect_asked(old(self)@, asked, task, final(self)@),
    {
        match asked {
            EstablishConnectionActions::Start => ConnectTask::Nothing,
            EstablishConnectionActions::GenerateJoinTicket => ConnectTask::CreateExchange,
            EstablishConnectionActions::ReceivedJoinTicket(ticket) => ConnectTask::JoinExchange(
                ticket,
            ),
            EstablishConnectionActions::AcceptConnection => match self.ex_ctx.take() {
                Some(ex_ctx) => ConnectTask::AddContext(
                    ex_ctx,
                    EstablishConnectionEvents::ConnectionConfirmed,
                ),
                None => ConnectTask::Nothing,
            },
            EstablishConnectionActions::RejectConnection => match self.ex_ctx.take() {
                Some(ex_ctx) => ConnectTask::ShutDown(
                    ex_ctx,
                    EstablishConnectionEvents::ConnectionRejected,
                ),
                None => ConnectTask::Nothing,
            },
        }
    }

    /// An exchange was made, with a ticket: the other participant is awaited, and the
    /// application hears of the ticket.
    pub fn exchange_created(&mut self, ex_ctx: C, ticket: String) -> (tasks: Vec<ConnectTask<C>>)
        ensures
            final(self)@ == Some(ex_ctx),
            tasks@ == seq![
                ConnectTask::<C>::Watch,
                ConnectTask::<C>::Send(EstablishConnectionEvents::JoinTicketGenerated(ticket)),
            ],
    {
        self.ex_ctx = Some(ex_ctx);
        vec![
            ConnectTask::Watch,
            ConnectTask::Send(EstablishConnectionEvents::JoinTicketGenerated(ticket)),
        ]
    }

    /// An exchange was joined. Where another participant is there already, the
    /// connection is established; else it is awaited.
    pub fn exchange_joined(
        &mut self,
        ex_ctx: C,
        participants: Vec<Identification>,
        myself: &PublicKey,
    ) -> (tasks: Vec<ConnectTask<C>>)
        ensures
            final(self)@ == Some(ex_ctx),
            exists|other: Option<Identification>|
                {
                    &&& #[trigger] is_other(participants@, *myself, other)
                    &&& tasks@ == joined_tasks::<C>(other)
                },
            goes_on_joined(tasks@, participants@, *myself),
    {
        self.ex_ctx = Some(ex_ctx);
        let other = participants.get_other(myself);
        assert(is_other(participants@, *myself, other));
        let tasks = match other {
            Some(iden) => vec![
                ConnectTask::Send(EstablishConnectionEvents::ConnectionEstablished(iden)),
            ],
            None => vec![
                ConnectTask::Send(EstablishConnectionEvents::AttemptingJoin),
                ConnectTask::Watch,
            ],
        };
        assert(tasks@ =~= joined_tasks::<C>(other));
        tasks
    }
}

/// What is done on an exchange that was joined, on which `other` was found.
pub open spec fn joined_tasks<C>(other: Option<Identification>) -> Seq<ConnectTask<C>> {
    match other {
        Some(iden) => seq![
            ConnectTask::Send(EstablishConnectionEvents::ConnectionEstablished(iden)),
        ],
        None => seq![
            ConnectTask::Send(EstablishConnectionEvents::AttemptingJoin),
            ConnectTask::Watch,
        ],
    }
}

/// Whether an event of the exchange says that someone else than `myself` has joined.
pub open spec fn says_other_joined(event: ContextEvents, myself: PublicKey) -> bool {
    event matches ContextEvents::Join(pk) && pk != myself
}

/// What an event means for one who awaits the other participant: `None` as long as
/// nobody else has joined. The waiting ends with the first event that is sent. Whoever
/// has joined is among the participants.
pub fn wait_for_other_participants(
    event: &ContextEvents,
    participants: Vec<Identification>,
    myself: &PublicKey,
) -> (sent: Option<EstablishConnectionEvents>)
    requires
        says_other_joined(*event, *myself) ==> !is_other(participants@, *myself, None),
    ensures
        sent is Some <==> says_other_joined(*event, *myself),
        sent is Some ==> {
            &&& sent->0 is ConnectionEstablished
            &&& is_other(participants@, *myself, Some(sent->0->ConnectionEstablished_0))
        },
        is_told_to_have_joined(sent, *event, participants@, *myself),
{
    match event {
        ContextEvents::Join(pk) if *pk != *myself => match participants.get_other(myself) {
            Some(other) => Some(EstablishConnectionEvents::ConnectionEstablished(other)),
            None => None,
        },
        _ => None,
    }
}

/// A participant who has joined an exchange can be awaited: it is among the
/// participants, and nobody else than `myself` is needed to find it.
pub proof fn joined_participant_is_found(
    participants: Seq<Identification>,
    iden: Identification,
    myself: PublicKey,
)
    requires
        iden.public_key != myself,
    ensures
        !is_other(participants.push(iden), myself, None),
{
    let after = participants.push(iden);
    assert(after[participants.len() as int] == iden);
}

/// Where another participant is on an exchange that was joined, the connection is
/// established with that one and nothing is awaited; where none is, the attempt is told
/// before the waiting begins.
pub proof fn joining_finds_or_awaits<C>(other: Option<Identification>)
    ensures
        other matches Some(iden) ==> joined_tasks::<C>(other).len() == 1 && joined_tasks::<C>(
            other,
        )[0] == ConnectTask::<C>::Send(EstablishConnectionEvents::ConnectionEstablished(iden)),
        other is None ==> joined_tasks::<C>(other).len() == 2 && joined_tasks::<C>(other)[0]
            == ConnectTask::<C>::Send(EstablishConnectionEvents::AttemptingJoin)
            && joined_tasks::<C>(other)[1] == ConnectTask::<C>::Watch,
{
}

/// Only a join says that the other one has joined, and only that of someone else.
pub proof fn only_joins_of_others_count(event: ContextEvents, myself: PublicKey)
    ensures
        event matches ContextEvents::Join(pk) ==> (says_other_joined(event, myself) <==> pk
            != myself),
        !(event is Join) ==> !says_other_joined(event, myself),
{
}

/// Whether a task is what an action asks for, and the exchange that is held afterwards is
/// the one that is to be.
pub open spec fn connect_asked<C>(
    before: Option<C>,
    asked: EstablishConnectionActions,
    task: ConnectTask<C>,
    after: Option<C>,
) -> bool {
    match task {
        ConnectTask::Nothing => asked is Start && after == before,
        ConnectTask::CreateExchange => asked is GenerateJoinTicket && after == before,
        ConnectTask::JoinExchange(ticket) => asked
            == EstablishConnectionActions::ReceivedJoinTicket(ticket) && after == before,
        ConnectTask::AddContext(held, event) => asked is AcceptConnection && before == Some(held)
            && after is None && event is ConnectionConfirmed,
        ConnectTask::ShutDown(held, event) => asked is RejectConnection && before == Some(held)
            && after is None && event is ConnectionRejected,
        _ => false,
    }
}

/// The exchange that is held is handed over exactly once: by accepting, to be registered,
/// or by rejecting, to be shut down. No other action touches it, and a ticket is joined as
/// it was received.
pub proof fn exchange_is_handed_over_once<C>(
    before: Option<C>,
    asked: EstablishConnectionActions,
    task: ConnectTask<C>,
    after: Option<C>,
)
    requires
        connect_asked(before, asked, task, after),
    ensures
        asked is AcceptConnection ==> (task matches ConnectTask::AddContext(held, event) && Some(held)
            == before && event is ConnectionConfirmed) && after is None,
        asked is RejectConnection ==> (task matches ConnectTask::ShutDown(held, event) && Some(held)
            == before && event is ConnectionRejected) && after is None,
        asked is Start || asked is GenerateJoinTicket || asked is ReceivedJoinTicket ==> after
            == before,
        asked is Start ==> task is Nothing,
        asked is GenerateJoinTicket ==> task is CreateExchange,
        asked matches EstablishConnectionActions::ReceivedJoinTicket(ticket) ==> task
            == ConnectTask::<C>::JoinExchange(ticket),
{
}

/// Whether the tasks are those that follow on joining an exchange of these participants.
pub open spec fn goes_on_joined<C>(
    tasks: Seq<ConnectTask<C>>,
    participants: Seq<Identification>,
    me: PublicKey,
) -> bool {
    exists|other: Option<Identification>|
        #[trigger] is_other(participants, me, other) && tasks == joined_tasks::<C>(other)
}

/// On an exchange that was joined, the connection is established with the first
/// participant that is not `me`, and at once, whoever else takes part.
pub proof fn joining_meets_the_other<C>(
    tasks: Seq<ConnectTask<C>>,
    front: Seq<Identification>,
    stranger: Identification,
    back: Seq<Identification>,
    me: PublicKey,
)
    requires
        forall|j: int| 0 <= j < front.len() ==> (#[trigger] front[j]).public_key == me,
        stranger.public_key != me,
        goes_on_joined(tasks, front.push(stranger) + back, me),
    ensures
        tasks.len() == 1,
        tasks[0] == ConnectTask::<C>::Send(
            EstablishConnectionEvents::ConnectionEstablished(stranger),
        ),
{
    let other = choose|other: Option<Identification>|
        #[trigger] is_other(front.push(stranger) + back, me, other) && tasks == joined_tasks::<C>(
            other,
        );
    first_stranger_is_the_other(front, stranger, back, me, other);
}

/// Joining an exchange on which nobody else takes part is an attempt, and the other one is
/// waited for.
pub proof fn joining_alone_is_an_attempt<C>(
    tasks: Seq<ConnectTask<C>>,
    participants: Seq<Identification>,
    me: PublicKey,
)
    requires
        forall|j: int|
            0 <= j < participants.len() ==> (#[trigger] participants[j]).public_key == me,
        goes_on_joined(tasks, participants, me),
    ensures
        tasks.len() == 2,
        tasks[0] == ConnectTask::<C>::Send(EstablishConnectionEvents::AttemptingJoin),
        tasks[1] == ConnectTask::<C>::Watch,
{
    let other = choose|other: Option<Identification>|
        #[trigger] is_other(participants, me, other) && tasks == joined_tasks::<C>(other);
    other_takes_part(participants, me, other);
}

/// Whether an event that is sent tells of the other one having joined, and of nothing else.
pub open spec fn is_told_to_have_joined(
    sent: Option<EstablishConnectionEvents>,
    event: ContextEvents,
    participants: Seq<Identification>,
    me: PublicKey,
) -> bool {
    match sent {
        None => !says_other_joined(event, me),
        Some(EstablishConnectionEvents::ConnectionEstablished(iden)) => says_other_joined(event, me)
            && is_other(participants, me, Some(iden)),
        Some(_) => false,
    }
}

/// The join of another is told with the identification of one who takes part and is not
/// `me`, and nothing else that happens on the exchange is told.
pub proof fn joins_of_others_are_told(
    sent: Option<EstablishConnectionEvents>,
    event: ContextEvents,
    participants: Seq<Identification>,
    me: PublicKey,
)
    requires
        is_told_to_have_joined(sent, event, participants, me),
    ensures
        sent is Some <==> (event matches ContextEvents::Join(pk) && pk != me),
        sent is Some ==> (sent->0 matches EstablishConnectionEvents::ConnectionEstablished(iden)
            && iden.public_key != me && participants.contains(iden)),
{
    if sent is Some {
        let iden = sent->0->ConnectionEstablished_0;
        other_takes_part(participants, me, Some(iden));
    }
}

} // verus!
