//! What the application sees of one exchange.
use crate::data::{DocWrite, PublicKey, Record};
use crate::exchange::context::{ContextEvents, ExchangeContext};
use crate::exchange::{clock_utc, message_key_of, Message, Timestamp, ID_PIC};
use crate::identity::{
    first_stranger_is_the_other, is_other, other_takes_part, Identification, ParticipantList,
};
use crate::live_doc::File;
use crate::text::same_text;
use vstd::prelude::*;

verus! {

/// What the application hears of an exchange.
#[derive(Debug)]
pub enum ExchangeEvents {
    NameChanged(String),
    OthersPicUpdated(File),
    MessagesReloaded { messages: Vec<DisplayMessage> },
    MessageReceived { message: DisplayMessage },
    LiveConnectionsUpdated { count: u32 },
}

/// What the application asks of an exchange.
#[derive(Debug)]
pub enum ExchangeActions {
    Start,
    SendMessage { text: String },
}

/// A message as it is shown.
#[derive(Debug)]
pub struct DisplayMessage {
    pub id: u32,
    pub text: String,
    pub is_self: bool,
}

/// The application's view of an exchange.
pub trait ExchangeDispatchResponder: Send + Sync {
    fn event(&self, state: ExchangeEvents);
}

/// What is to be done for the application.
#[derive(Debug)]
pub enum ExchangeTask {
    /// Listen to the exchange from now on.
    Watch,
    /// Send the name of the other participant.
    UpdateName,
    /// Send all messages.
    ReloadMessages,
    /// Send how many peers are connected.
    CountConnections,
    /// Write a message.
    SendMessage(String),
    /// Send a file's news, if they concern the other participant.
    FileUpdated(File),
    /// Send an event.
    Send(ExchangeEvents),
}

/// A number as far as 32 bits hold it.
pub open spec fn low_32_bits(n: int) -> int {
    n % 0x1_0000_0000
}

/// A number as far as 32 bits hold it.
pub(crate) fn truncated(n: usize) -> (low: u32)
    ensures
        low == low_32_bits(n as int),
{
    let wide: u64 = n as u64;
    assert(wide as u32 == wide % 0x1_0000_0000) by (bit_vector);
    #[verifier::truncate]
    let low: u32 = wide as u32;
    low
}

/// How a message is shown that stands at `at` among the messages of an exchange.
pub open spec fn shows(shown: DisplayMessage, message: Message, at: int, myself: PublicKey) -> bool {
    &&& shown.id == low_32_bits(at)
    &&& shown.text == message.text
    &&& shown.is_self == (message.pk == myself)
}

/// All messages as they are shown to `myself`.
pub fn reload_messages(messages: &Vec<Message>, myself: &PublicKey) -> (event: ExchangeEvents)
    ensures
        event is MessagesReloaded,
        event->messages@.len() == messages@.len(),
        forall|i: int|
            0 <= i < messages@.len() ==> shows(
                #[trigger] event->messages@[i],
                messages@[i],
                i,
                *myself,
            ),
        event matches ExchangeEvents::MessagesReloaded { messages: shown } && shows_all(
            shown@,
            messages@,
            *myself,
        ),
{
    let mut shown: Vec<DisplayMessage> = Vec::new();
    let mut i: usize = 0;
    while i < messages.len()
        invariant
            i <= messages@.len(),
            shown@.len() == i,
            forall|k: int|
                0 <= k < i ==> shows(#[trigger] shown@[k], messages@[k], k, *myself),
        decreases messages@.len() - i,
    {
        shown.push(
            DisplayMessage {
                id: truncated(i),
                text: messages[i].text.clone(),
                is_self: *myself == messages[i].pk,
            },
        );
        i = i + 1;
    }
    ExchangeEvents::MessagesReloaded { messages: shown }
}

/// The write that sends a text of `myself` now.
pub fn send_message(text: &str, myself: &PublicKey) -> (write: DocWrite)
    ensures
        exists|message: Message|
            {
                &&& message.pk == *myself
                &&& message.text@ == text@
                &&& clock_utc(message.date.seconds(), message.date.nanoseconds())
                &&& #[trigger] write.saves(
                    *myself,
                    message_key_of(message.date),
                    Record::Message(message),
                )
            },
{
    let message = Message::new(myself, text);
    ExchangeContext::send_message(&message)
}

/// The name that an exchange goes by: that of the other participant, once known.
pub fn update_name(participants: Vec<Identification>, myself: &PublicKey) -> (event: ExchangeEvents)
    ensures
        event is NameChanged,
        exists|other: Option<Identification>|
            {
                &&& #[trigger] is_other(participants@, *myself, other)
                &&& other is Some ==> event->NameChanged_0 == other->0.name
                &&& other is None ==> event->NameChanged_0@ == "loading"@
            },
        event matches ExchangeEvents::NameChanged(name) && is_named(name@, participants@, *myself),
{
    let ghost list = participants@;
    let other = participants.get_other(myself);
    assert(is_other(list, *myself, other));
    match other {
        Some(other) => ExchangeEvents::NameChanged(other.name),
        None => ExchangeEvents::NameChanged("loading".to_owned()),
    }
}

/// The news of a file, where it is the picture of someone else than `myself`.
pub fn file_updated(file: File, myself: &PublicKey) -> (event: Option<ExchangeEvents>)
    ensures
        event == (if file.owner != *myself && file.name@ == ID_PIC@ {
            Some(ExchangeEvents::OthersPicUpdated(file))
        } else {
            None
        }),
        tells_of_picture(file, *myself, event),
{
    if file.owner != *myself && same_text(file.name.as_str(), ID_PIC) {
        Some(ExchangeEvents::OthersPicUpdated(file))
    } else {
        None
    }
}

/// How many peers are connected, as the application hears it.
pub fn connections_updated(count: usize) -> (event: ExchangeEvents)
    ensures
        event is LiveConnectionsUpdated,
        event->count == low_32_bits(count as int),
{
    ExchangeEvents::LiveConnectionsUpdated { count: truncated(count) }
}

/// What an event of the exchange asks for.
pub fn watch_exchange_context(event: ContextEvents) -> (task: Option<ExchangeTask>)
    ensures
        match event {
            ContextEvents::MessageReceived(_) => task == Some(ExchangeTask::ReloadMessages),
            ContextEvents::LiveConnectionsUpdated(count) => {
                &&& task matches Some(ExchangeTask::Send(event))
                &&& event is LiveConnectionsUpdated
                &&& event->count == low_32_bits(count as int)
            },
            ContextEvents::FileUpdated(file) => task == Some(ExchangeTask::FileUpdated(file)),
            _ => task is None,
        },
        asks_for_task(event, task),
{
    match event {
        ContextEvents::MessageReceived(_) => Some(ExchangeTask::ReloadMessages),
        ContextEvents::LiveConnectionsUpdated(count) => Some(
            ExchangeTask::Send(connections_updated(count)),
        ),
        ContextEvents::FileUpdated(file) => Some(ExchangeTask::FileUpdated(file)),
        _ => None,
    }
}

/// The tasks that an action takes, in their order.
pub open spec fn tasks_of(action: ExchangeActions) -> Seq<ExchangeTask> {
    match action {
        ExchangeActions::SendMessage { text } => seq![ExchangeTask::SendMessage(text)],
        ExchangeActions::Start => seq![
            ExchangeTask::Watch,
            ExchangeTask::UpdateName,
            ExchangeTask::ReloadMessages,
            ExchangeTask::CountConnections,
        ],
    }
}

/// The tasks that an action takes, in their order.
pub fn action(asked: ExchangeActions) -> (tasks: Vec<ExchangeTask>)
    ensures
        tasks@ == tasks_of(asked),
{
    let tasks: Vec<ExchangeTask> = match asked {
        ExchangeActions::SendMessage { text } => vec![ExchangeTask::SendMessage(text)],
        ExchangeActions::Start => vec![
            ExchangeTask::Watch,
            ExchangeTask::UpdateName,
            ExchangeTask::ReloadMessages,
            ExchangeTask::CountConnections,
        ],
    };
    assert(tasks@ =~= tasks_of(asked));
    tasks
}

/// Whether a message is marked as one's own depends on its author alone, and its text is
/// shown as it is: for every place in the list, the mark is there exactly where `myself`
/// wrote the message.
pub proof fn own_messages_are_marked(
    shown: DisplayMessage,
    message: Message,
    at: int,
    myself: PublicKey,
)
    requires
        shows(shown, message, at, myself),
    ensures
        shown.is_self <==> message.pk == myself,
        shown.text@ == message.text@,
        0 <= at < 0x1_0000_0000 ==> shown.id == at,
{
}

/// Messages of one author are all marked the same, wherever they stand and whatever they
/// say.
pub proof fn messages_of_one_author_look_alike(
    a: DisplayMessage,
    b: DisplayMessage,
    one: Message,
    another: Message,
    i: int,
    j: int,
    myself: PublicKey,
)
    requires
        shows(a, one, i, myself),
        shows(b, another, j, myself),
        one.pk == another.pk,
    ensures
        a.is_self == b.is_self,
{
}

/// Messages that stand at different places are shown with different ids, and in their
/// order, as long as 32 bits can count them.
pub proof fn shown_messages_are_numbered(
    a: DisplayMessage,
    b: DisplayMessage,
    one: Message,
    another: Message,
    i: int,
    j: int,
    myself: PublicKey,
)
    requires
        shows(a, one, i, myself),
        shows(b, another, j, myself),
        0 <= i < j < 0x1_0000_0000,
    ensures
        a.id < b.id,
{
}

/// A number that 32 bits can hold is kept as it is.
pub proof fn small_numbers_are_kept(n: int)
    ensures
        0 <= n < 0x1_0000_0000 ==> low_32_bits(n) == n,
        0 <= low_32_bits(n) < 0x1_0000_0000,
        low_32_bits(n + 0x1_0000_0000) == low_32_bits(n),
{
}

/// Whether a task is the one that an event of the exchange asks for.
pub open spec fn asks_for_task(event: ContextEvents, task: Option<ExchangeTask>) -> bool {
    match task {
        None => event is Loaded || event is Join || event is SyncFinished,
        Some(ExchangeTask::ReloadMessages) => event is MessageReceived,
        Some(ExchangeTask::Send(ExchangeEvents::LiveConnectionsUpdated { count })) => {
            &&& event is LiveConnectionsUpdated
            &&& count == low_32_bits(event->LiveConnectionsUpdated_0 as int)
        },
        Some(ExchangeTask::FileUpdated(file)) => event == ContextEvents::FileUpdated(file),
        _ => false,
    }
}

/// A message that came in is shown, a count of connections is sent, and a file is looked
/// at; a load, a join and the end of a sync ask for nothing.
pub proof fn events_ask_for_their_tasks(event: ContextEvents, task: Option<ExchangeTask>)
    requires
        asks_for_task(event, task),
    ensures
        event is MessageReceived ==> task == Some(ExchangeTask::ReloadMessages),
        event matches ContextEvents::FileUpdated(file) ==> task == Some(
            ExchangeTask::FileUpdated(file),
        ),
        event is LiveConnectionsUpdated ==> (task matches Some(ExchangeTask::Send(
            ExchangeEvents::LiveConnectionsUpdated { count },
        )) && (event->LiveConnectionsUpdated_0 < 0x1_0000_0000 ==> count
            == event->LiveConnectionsUpdated_0)),
        event is Loaded || event is Join || event is SyncFinished ==> task is None,
{
}

/// Whether an event is what is told of a file: of the picture of someone else, and of no
/// other file.
pub open spec fn tells_of_picture(
    file: File,
    myself: PublicKey,
    event: Option<ExchangeEvents>,
) -> bool {
    match event {
        Some(ExchangeEvents::OthersPicUpdated(told)) => told == file && file.owner != myself
            && file.name@ == ID_PIC@,
        None => file.owner == myself || file.name@ != ID_PIC@,
        _ => false,
    }
}

/// The picture of someone else is told whatever its blob and size are and whether it was
/// downloaded; one's own picture and all other files are not told.
pub proof fn pictures_of_others_are_told(
    file: File,
    myself: PublicKey,
    event: Option<ExchangeEvents>,
)
    requires
        tells_of_picture(file, myself, event),
    ensures
        file.owner != myself && file.name@ == "files/id_pic"@ ==> event == Some(
            ExchangeEvents::OthersPicUpdated(file),
        ),
        file.owner == myself ==> event is None,
        file.name@ != "files/id_pic"@ ==> event is None,
{
    assert(ID_PIC@ == "files/id_pic"@);
}

/// Sending a text is that alone, with the text as it is. Starting watches the exchange
/// before it shows the name, the messages and the connections.
pub proof fn actions_take_their_tasks(action: ExchangeActions)
    ensures
        action matches ExchangeActions::SendMessage { text } ==> tasks_of(action).len() == 1
            && tasks_of(action)[0] == ExchangeTask::SendMessage(text),
        action is Start ==> {
            &&& tasks_of(action).len() == 4
            &&& tasks_of(action)[0] == ExchangeTask::Watch
            &&& tasks_of(action).contains(ExchangeTask::UpdateName)
            &&& tasks_of(action).contains(ExchangeTask::ReloadMessages)
            &&& tasks_of(action).contains(ExchangeTask::CountConnections)
        },
{
    if action is Start {
        assert(tasks_of(action)[1] == ExchangeTask::UpdateName);
        assert(tasks_of(action)[2] == ExchangeTask::ReloadMessages);
        assert(tasks_of(action)[3] == ExchangeTask::CountConnections);
    }
}

/// Whether an exchange goes by a name for `me`: that of the other participant.
pub open spec fn is_named(name: Seq<char>, participants: Seq<Identification>, me: PublicKey) -> bool {
    exists|other: Option<Identification>|
        {
            &&& #[trigger] is_other(participants, me, other)
            &&& other is Some ==> name == other->0.name@
            &&& other is None ==> name == "loading"@
        }
}

/// An exchange goes by the name of the first participant that is not `me`, whatever that
/// name is and whoever else takes part.
pub proof fn exchanges_go_by_the_other(
    name: Seq<char>,
    front: Seq<Identification>,
    stranger: Identification,
    back: Seq<Identification>,
    me: PublicKey,
)
    requires
        forall|j: int| 0 <= j < front.len() ==> (#[trigger] front[j]).public_key == me,
        stranger.public_key != me,
        is_named(name, front.push(stranger) + back, me),
    ensures
        name == stranger.name@,
{
    let other = choose|other: Option<Identification>|
        {
            &&& #[trigger] is_other(front.push(stranger) + back, me, other)
            &&& other is Some ==> name == other->0.name@
            &&& other is None ==> name == "loading"@
        };
    first_stranger_is_the_other(front, stranger, back, me, other);
}

/// An exchange on which nobody but `me` takes part is loading.
pub proof fn lonely_exchanges_are_loading(
    name: Seq<char>,
    participants: Seq<Identification>,
    me: PublicKey,
)
    requires
        forall|j: int|
            0 <= j < participants.len() ==> (#[trigger] participants[j]).public_key == me,
        is_named(name, participants, me),
    ensures
        name == "loading"@,
{
    let other = choose|other: Option<Identification>|
        {
            &&& #[trigger] is_other(participants, me, other)
            &&& other is Some ==> name == other->0.name@
            &&& other is None ==> name == "loading"@
        };
    other_takes_part(participants, me, other);
}

/// Whether all messages are shown to `myself`, each in its place.
pub open spec fn shows_all(
    shown: Seq<DisplayMessage>,
    messages: Seq<Message>,
    myself: PublicKey,
) -> bool {
    &&& shown.len() == messages.len()
    &&& forall|i: int|
        0 <= i < messages.len() ==> shows(#[trigger] shown[i], messages[i], i, myself)
}

/// A message that comes in is shown behind the others, which are shown as before: a list
/// of one more message begins as the shorter one does.
pub proof fn new_messages_are_shown_last(
    shorter: Seq<DisplayMessage>,
    longer: Seq<DisplayMessage>,
    messages: Seq<Message>,
    new: Message,
    myself: PublicKey,
)
    requires
        shows_all(shorter, messages, myself),
        shows_all(longer, messages.push(new), myself),
    ensures
        longer.len() == messages.len() + 1,
        longer.last().text@ == new.text@,
        longer.last().is_self <==> new.pk == myself,
        forall|i: int|
            0 <= i < messages.len() ==> (#[trigger] longer[i]).text@ == shorter[i].text@
                && longer[i].is_self == shorter[i].is_self && longer[i].id == shorter[i].id,
{
    assert forall|i: int| 0 <= i < messages.len() implies (#[trigger] longer[i]).text@
        == shorter[i].text@ && longer[i].is_self == shorter[i].is_self && longer[i].id
        == shorter[i].id by {
        assert(shows(longer[i], messages.push(new)[i], i, myself));
        assert(shows(shorter[i], messages[i], i, myself));
    }
    assert(shows(longer.last(), new, messages.len() as int, myself));
}

} // verus!
