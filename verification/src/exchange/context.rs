//! A running exchange: who takes part, what was said, which files are shared, and
//! which peers are connected.
use crate::data::{
    finds, load_from_doc_at_key, save_on_doc_as_key, BlobHash, DocLookup, DocQuery, DocWrite, ExchangeId, PublicKey,
    Record,
};
use crate::error::Error;
use crate::exchange::connections::{peers_after, LiveConnections};
use crate::exchange::order::{is_sorted_by_date, sort_by_date, sorting_keeps_every_message};
use crate::exchange::{
    make_message_key, message_key_of, Message, Timestamp, FILE_KEY_PREFIX, IDENTIFICATION_KEY, ID_PIC,
    MESSAGE_KEY_PREFIX,
};
use crate::identity::Identification;
use crate::live_doc::{
    ready_after, waiting_after, ContentReadyProcessor, Entry, File, FileReadWriter,
    IdentificationReadWriter, LiveEvent, MessagesReadWriter,
};
use crate::text::{join, utf8_complaint, utf8_error_text};
use vstd::prelude::*;
use vstd::utf8::{
    decode_utf8, encode_utf8, encode_utf8_decode_utf8, encode_utf8_valid_utf8, valid_utf8,
};

verus! {

/// What a running exchange tells those who listen.
#[derive(Debug)]
pub enum ContextEvents {
    Loaded,
    Join(PublicKey),
    MessageReceived(Message),
    LiveConnectionsUpdated(usize),
    FileUpdated(File),
    SyncFinished,
}

impl Clone for ContextEvents {
    fn clone(&self) -> (copy: Self)
        ensures
            copy == *self,
    {
        match self {
            ContextEvents::Loaded => ContextEvents::Loaded,
            ContextEvents::Join(pk) => ContextEvents::Join(*pk),
            ContextEvents::MessageReceived(msg) => ContextEvents::MessageReceived(msg.clone()),
            ContextEvents::LiveConnectionsUpdated(count) => {
                ContextEvents::LiveConnectionsUpdated(*count)
            },
            ContextEvents::FileUpdated(file) => ContextEvents::FileUpdated(file.clone()),
            ContextEvents::SyncFinished => ContextEvents::SyncFinished,
        }
    }
}

/// What is to be done after an event on the exchange's document.
#[derive(Debug)]
pub enum ContextStep {
    /// Nothing.
    Idle,
    /// Tell those who listen.
    Broadcast(ContextEvents),
    /// Read an identification from a blob, and let the participant join.
    ReadIdentification(BlobHash),
    /// Read a message from a blob, and receive it.
    ReadMessage(BlobHash),
    /// Nothing: the entry belongs to nothing that is known.
    Unhandled,
    /// End the work on the exchange.
    Fail(Error),
}

/// Data that an exchange had on its document when it was opened.
pub enum SavedData {
    Participants(Vec<Identification>),
    Messages(Vec<Message>),
    Files(Vec<File>),
}

/// How far the work on an exchange has come.
#[derive(PartialEq, Eq, Structural, Clone, Copy, Debug)]
pub enum Phase {
    /// The participants are read from the document.
    LoadingParticipants,
    /// The messages are read from the document.
    LoadingMessages,
    /// The files are read from the document.
    LoadingFiles,
    /// All is loaded, and the document is watched.
    Live,
    /// The work has failed.
    Ended,
}

/// What the key of an entry says about its content.
pub enum EntryKind {
    Identification,
    Message,
    File,
    Unknown,
}

/// What the key of an entry says about its content.
pub open spec fn kind_of(key: Seq<char>) -> EntryKind {
    if key == IDENTIFICATION_KEY@ {
        EntryKind::Identification
    } else if MESSAGE_KEY_PREFIX@.is_prefix_of(key) {
        EntryKind::Message
    } else if FILE_KEY_PREFIX@.is_prefix_of(key) {
        EntryKind::File
    } else {
        EntryKind::Unknown
    }
}

/// Whether two records are of the same file: one owner, one name.
pub open spec fn same_file(a: File, b: File) -> bool {
    a.name@ == b.name@ && a.owner == b.owner
}

/// Whether the files hold the given one.
pub open spec fn has_file(files: Seq<File>, file: File) -> bool {
    exists|i: int| 0 <= i < files.len() && same_file(file, #[trigger] files[i])
}

/// The files after one was updated: it takes the place of its former record, or comes
/// last if it is new.
pub open spec fn files_after(files: Seq<File>, file: File) -> Seq<File> {
    if has_file(files, file) {
        files.map_values(
            |f: File|
                if same_file(file, f) {
                    file
                } else {
                    f
                },
        )
    } else {
        files.push(file)
    }
}

/// What a running exchange knows.
#[verifier::ext_equal]
pub struct ContextState {
    pub id: ExchangeId,
    pub participants: Seq<Identification>,
    pub messages: Seq<Message>,
    pub connected: Set<PublicKey>,
    pub files: Seq<File>,
    pub waiting: Map<BlobHash, Entry>,
    pub phase: Phase,
}

/// A running exchange.
pub struct ExchangeContext {
    id: ExchangeId,
    participants: Vec<Identification>,
    messages: Vec<Message>,
    connected: LiveConnections,
    files: Vec<File>,
    waiting: ContentReadyProcessor,
    phase: Phase,
}

impl View for ExchangeContext {
    type V = ContextState;

    closed spec fn view(&self) -> ContextState {
        ContextState {
            id: self.id,
            participants: self.participants@,
            messages: self.messages@,
            connected: self.connected@,
            files: self.files@,
            waiting: self.waiting@,
            phase: self.phase,
        }
    }
}

/// Passes an event on to `receivers` listeners; where nobody listens there is nothing
/// to send.
pub fn broadcast<E>(event: E, receivers: usize) -> (sent: Option<E>)
    ensures
        sent == (if receivers > 0 {
            Some(event)
        } else {
            None
        }),
{
    if receivers > 0 {
        Some(event)
    } else {
        None
    }
}

/// The key of a file of an exchange.
pub open spec fn file_key_of(name: Seq<char>) -> Seq<char> {
    FILE_KEY_PREFIX@ + "/"@ + name
}

/// The key of a file of an exchange.
pub fn file_key(name: &str) -> (key: String)
    ensures
        key@ == file_key_of(name@),
{
    let folder = join(FILE_KEY_PREFIX, "/");
    join(folder.as_str(), name)
}

impl ExchangeContext {
    /// An exchange of which nothing is known yet.
    pub fn new(id: ExchangeId) -> (context: ExchangeContext)
        ensures
            context@ == (ContextState {
                id,
                participants: Seq::empty(),
                messages: Seq::empty(),
                connected: Set::empty(),
                files: Seq::empty(),
                waiting: Map::empty(),
                phase: Phase::LoadingParticipants,
            }),
    {
        ExchangeContext {
            id,
            participants: Vec::new(),
            messages: Vec::new(),
            connected: LiveConnections::new(),
            files: Vec::new(),
            waiting: ContentReadyProcessor::new(),
            phase: Phase::LoadingParticipants,
        }
    }

    /// How far the work on the exchange has come.
    pub fn phase(&self) -> (phase: Phase)
        ensures
            phase == self@.phase,
    {
        self.phase
    }

    pub fn id(&self) -> (id: ExchangeId)
        ensures
            id == self@.id,
    {
        self.id
    }

    pub fn participants(&self) -> (participants: Vec<Identification>)
        ensures
            participants@ == self@.participants,
    {
        let participants = self.participants.clone();
        assert(participants@ =~= self.participants@);
        participants
    }

    pub fn messages(&self) -> (messages: Vec<Message>)
        ensures
            messages@ == self@.messages,
    {
        let messages = self.messages.clone();
        assert(messages@ =~= self.messages@);
        messages
    }

    /// How many peers are connected.
    pub fn live_connection_count(&self) -> (count: usize)
        ensures
            self@.connected.finite(),
            count == self@.connected.len(),
    {
        self.connected.count()
    }

    /// The write that sends a message.
    pub fn send_message(message: &Message) -> (write: DocWrite)
        ensures
            write.saves(message.pk, message_key_of(message.date), Record::Message(*message)),
    {
        let key = make_message_key(message);
        save_on_doc_as_key(&message.pk, key.as_str(), Record::Message(message.clone()))
    }

    /// Where a file of an owner is looked up.
    pub fn get_file(owner: &PublicKey, key: &str) -> (lookup: DocLookup)
        ensures
            lookup.key() == key@,
            lookup.author() == Some(*owner),
    {
        load_from_doc_at_key(Some(owner), key)
    }

    /// The write that shares the blob of `entry` as a file.
    pub fn file_write(owner: PublicKey, name: &str, entry: &Entry) -> (write: DocWrite)
        ensures
            write.points(owner, file_key_of(name@), entry.content_hash, entry.content_len),
    {
        DocWrite::SetHash {
            author: owner,
            key: file_key(name),
            hash: entry.content_hash,
            size: entry.content_len,
        }
    }

    /// Takes note of a file once it was shared.
    pub fn add_file(&mut self, owner: PublicKey, name: &str, entry: &Entry) -> (event:
        ContextEvents)
        ensures
            event is FileUpdated,
            event->FileUpdated_0.owner == owner,
            event->FileUpdated_0.blob == entry.content_hash,
            event->FileUpdated_0.name@ == file_key_of(name@),
            event->FileUpdated_0.size == entry.content_len,
            event->FileUpdated_0.downloaded,
            final(self)@ == (ContextState {
                files: files_after(old(self)@.files, event->FileUpdated_0),
                ..old(self)@
            }),
    {
        self.file_updated(
            File {
                owner,
                blob: entry.content_hash,
                name: file_key(name),
                size: entry.content_len,
                downloaded: true,
            },
        )
    }

    /// A file has changed.
    pub fn file_updated(&mut self, ob: File) -> (event: ContextEvents)
        ensures
            event == ContextEvents::FileUpdated(ob),
            final(self)@ == (ContextState {
                files: files_after(old(self)@.files, ob),
                ..old(self)@
            }),
    {
        let ghost before = self.files@;
        let ghost changed = |f: File|
            if same_file(ob, f) {
                ob
            } else {
                f
            };
        let mut replaced: bool = false;
        let mut i: usize = 0;
        while i < self.files.len()
            invariant
                i <= self.files@.len(),
                self.files@.len() == before.len(),
                forall|k: int| 0 <= k < i ==> self.files@[k] == changed(#[trigger] before[k]),
                forall|k: int| i <= k < before.len() ==> self.files@[k] == #[trigger] before[k],
                replaced <==> exists|k: int| 0 <= k < i && same_file(ob, #[trigger] before[k]),
                changed == (|f: File|
                    if same_file(ob, f) {
                        ob
                    } else {
                        f
                    }),
                self@ == (ContextState { files: self.files@, ..old(self)@ }),
            decreases self.files@.len() - i,
        {
            assert(self.files@[i as int] == before[i as int]);
            if ob.name == self.files[i].name && ob.owner == self.files[i].owner {
                self.files[i] = ob.clone();
                replaced = true;
                assert(same_file(ob, before[i as int]));
            }
            i = i + 1;
        }
        if !replaced {
            self.files.push(ob.clone());
            proof {
                assert forall|k: int| 0 <= k < before.len() implies !same_file(
                    ob,
                    #[trigger] before[k],
                ) by {}
                assert(self.files@ =~= before.push(ob));
            }
        } else {
            assert(self.files@ =~= before.map_values(changed));
        }
        ContextEvents::FileUpdated(ob)
    }

    /// A participant has joined.
    pub fn new_participant_joined(&mut self, iden: Identification) -> (event: ContextEvents)
        requires
            old(self)@.phase is Live,
        ensures
            event == ContextEvents::Join(iden.public_key),
            final(self)@ == (ContextState {
                participants: old(self)@.participants.push(iden),
                ..old(self)@
            }),
            work_done(old(self)@, Some(event), final(self)@),
    {
        let pk = *iden.public_key();
        self.participants.push(iden);
        ContextEvents::Join(pk)
    }

    /// A message has come in.
    pub fn new_message_received(&mut self, msg: Message) -> (event: ContextEvents)
        requires
            old(self)@.phase is Live,
        ensures
            event == ContextEvents::MessageReceived(msg),
            final(self)@ == (ContextState {
                messages: old(self)@.messages.push(msg),
                ..old(self)@
            }),
            work_done(old(self)@, Some(event), final(self)@),
    {
        let send_me = msg.clone();
        self.messages.push(msg);
        ContextEvents::MessageReceived(send_me)
    }

    /// A peer has joined or left.
    fn neighbor_changed(&mut self, pk: PublicKey, joined: bool) -> (event: ContextEvents)
        ensures
            final(self)@ == (ContextState {
                connected: peers_after(old(self)@.connected, pk, joined),
                ..old(self)@
            }),
            event is LiveConnectionsUpdated,
            final(self)@.connected.finite(),
            event->LiveConnectionsUpdated_0 == final(self)@.connected.len(),
    {
        self.connected.change(pk, joined);
        ContextEvents::LiveConnectionsUpdated(self.connected.count())
    }

    /// The entries of the document that are read next; `None` once all is loaded.
    pub fn next_query(&self) -> (query: Option<DocQuery>)
        ensures
            reads_next(self@.phase, query),
    {
        match self.phase {
            Phase::LoadingParticipants => Some(
                IdentificationReadWriter { key_path: IDENTIFICATION_KEY }.query(),
            ),
            Phase::LoadingMessages => Some(
                MessagesReadWriter { key_prefix: MESSAGE_KEY_PREFIX }.query(),
            ),
            Phase::LoadingFiles => Some(FileReadWriter { key_prefix: FILE_KEY_PREFIX }.query()),
            Phase::Live => None,
            Phase::Ended => None,
        }
    }

    /// Whether data is waited for: the participants come first, then the messages, then
    /// the files.
    pub fn awaits(&self, saved: &SavedData) -> (waits: bool)
        ensures
            waits == load_awaits(self@.phase, *saved),
    {
        match saved {
            SavedData::Participants(_) => self.phase == Phase::LoadingParticipants,
            SavedData::Messages(_) => self.phase == Phase::LoadingMessages,
            SavedData::Files(_) => self.phase == Phase::LoadingFiles,
        }
    }

    /// Takes in data that the exchange had on its document when it was opened. Messages
    /// are put in the order of their dates. With the last of the data comes the event that
    /// the exchange is loaded. Data that could not be read ends the work on the exchange,
    /// and the failure is handed on.
    pub fn initial_data_load<E>(&mut self, read: Result<SavedData, E>) -> (told: Result<
        Option<ContextEvents>,
        E,
    >)
        requires
            is_loading(old(self)@.phase),
            read is Ok ==> load_awaits(old(self)@.phase, read->Ok_0),
        ensures
            match read {
                Ok(saved) => told is Ok && data_loaded(
                    old(self)@,
                    saved,
                    final(self)@,
                    told->Ok_0,
                ),
                Err(e) => told == Err::<Option<ContextEvents>, E>(e) && work_ended(
                    old(self)@,
                    final(self)@,
                ),
            },
            work_done(
                old(self)@,
                if told is Ok {
                    told->Ok_0
                } else {
                    None
                },
                final(self)@,
            ),
    {
        match read {
            Ok(SavedData::Participants(saved)) => {
                let mut saved = saved;
                self.participants.append(&mut saved);
                self.phase = Phase::LoadingMessages;
                Ok(None)
            },
            Ok(SavedData::Messages(saved)) => {
                let mut saved = saved;
                self.messages.append(&mut saved);
                sort_by_date(&mut self.messages);
                self.phase = Phase::LoadingFiles;
                Ok(None)
            },
            Ok(SavedData::Files(saved)) => {
                let mut saved = saved;
                self.files.append(&mut saved);
                self.phase = Phase::Live;
                Ok(Some(ContextEvents::Loaded))
            },
            Err(e) => {
                self.phase = Phase::Ended;
                Err(e)
            },
        }
    }

    /// A blob could not be read: the work on the exchange ends.
    pub fn read_failed(&mut self)
        requires
            old(self)@.phase is Live,
        ensures
            work_ended(old(self)@, final(self)@),
            work_done(old(self)@, None, final(self)@),
    {
        self.phase = Phase::Ended;
    }

    /// Handles an event on the exchange's document.
    pub fn on_live_event(&mut self, event: LiveEvent) -> (step: ContextStep)
        requires
            old(self)@.phase is Live,
        ensures
            live_event_handled(old(self)@, event, final(self)@, step),
            work_done(old(self)@, told_by(step), final(self)@),
    {
        let step = match event {
            LiveEvent::NeighborUp(pk) => ContextStep::Broadcast(self.neighbor_changed(pk, true)),
            LiveEvent::NeighborDown(pk) => ContextStep::Broadcast(self.neighbor_changed(pk, false)),
            LiveEvent::SyncFinished => ContextStep::Broadcast(ContextEvents::SyncFinished),
            _ => match self.waiting.process_event(event) {
                Some(entry) => self.on_ready_entry(entry),
                None => ContextStep::Idle,
            },
        };
        assert(live_event_told(old(self)@, event, self@, told_by(step), step));
        step
    }

    /// Handles an entry whose blob is on this node.
    fn on_ready_entry(&mut self, entry: Entry) -> (step: ContextStep)
        ensures
            ready_entry_handled(old(self)@, entry, final(self)@, step),
    {
        let key = match std::str::from_utf8(entry.key.as_slice()) {
            Ok(key) => key,
            Err(_) => {
                self.phase = Phase::Ended;
                return ContextStep::Fail(Error::BadKey(utf8_complaint(entry.key.as_slice())));
            },
        };
        let identification_rw = IdentificationReadWriter { key_path: IDENTIFICATION_KEY };
        let messages_rw = MessagesReadWriter { key_prefix: MESSAGE_KEY_PREFIX };
        let file_rw = FileReadWriter { key_prefix: FILE_KEY_PREFIX };
        if let Some(hash) = identification_rw.content_ready(key, &entry) {
            ContextStep::ReadIdentification(hash)
        } else if let Some(hash) = messages_rw.content_ready(key, &entry) {
            ContextStep::ReadMessage(hash)
        } else if let Some(file) = file_rw.content_ready(key, &entry) {
            ContextStep::Broadcast(self.file_updated(file))
        } else {
            ContextStep::Unhandled
        }
    }
}

/// Whether the data of the document is still being loaded.
pub open spec fn is_loading(phase: Phase) -> bool {
    phase is LoadingParticipants || phase is LoadingMessages || phase is LoadingFiles
}

/// Which entries of the document are read in a phase: the identifications, the messages
/// in the order of their keys, and the files.
pub open spec fn reads_next(phase: Phase, query: Option<DocQuery>) -> bool {
    match phase {
        Phase::LoadingParticipants => query matches Some(DocQuery::Exact { key }) && key@
            == IDENTIFICATION_KEY@,
        Phase::LoadingMessages => query matches Some(DocQuery::BelowByKey { prefix }) && prefix@
            == MESSAGE_KEY_PREFIX@,
        Phase::LoadingFiles => query matches Some(DocQuery::Below { prefix }) && prefix@
            == FILE_KEY_PREFIX@,
        Phase::Live => query is None,
        Phase::Ended => query is None,
    }
}

/// Whether data is the one that is loaded next.
pub open spec fn load_awaits(phase: Phase, saved: SavedData) -> bool {
    match saved {
        SavedData::Participants(_) => phase is LoadingParticipants,
        SavedData::Messages(_) => phase is LoadingMessages,
        SavedData::Files(_) => phase is LoadingFiles,
    }
}

/// How data is taken in that the exchange had on its document, and which event is told.
pub open spec fn data_loaded(
    before: ContextState,
    saved: SavedData,
    after: ContextState,
    told: Option<ContextEvents>,
) -> bool {
    match saved {
        SavedData::Participants(saved) => {
            &&& after == (ContextState {
                participants: before.participants + saved@,
                phase: Phase::LoadingMessages,
                ..before
            })
            &&& told is None
        },
        SavedData::Messages(saved) => {
            &&& is_sorted_by_date(before.messages + saved@, after.messages)
            &&& after == (ContextState {
                messages: after.messages,
                phase: Phase::LoadingFiles,
                ..before
            })
            &&& told is None
        },
        SavedData::Files(saved) => {
            &&& after == (ContextState {
                files: before.files + saved@,
                phase: Phase::Live,
                ..before
            })
            &&& told == Some(ContextEvents::Loaded)
        },
    }
}

/// The work on an exchange ends, and nothing else changes.
pub open spec fn work_ended(before: ContextState, after: ContextState) -> bool {
    after == (ContextState { phase: Phase::Ended, ..before })
}

/// How an entry whose blob is on this node is handled: by what its key says. Only a
/// file changes what the exchange knows. A key that is no text ends the work.
pub open spec fn ready_entry_handled(
    before: ContextState,
    entry: Entry,
    after: ContextState,
    step: ContextStep,
) -> bool {
    if !valid_utf8(entry.key@) {
        &&& work_ended(before, after)
        &&& step matches ContextStep::Fail(Error::BadKey(reason))
        &&& reason@ == utf8_error_text(entry.key@)
    } else {
        let key = decode_utf8(entry.key@);
        match kind_of(key) {
            EntryKind::Identification => {
                &&& after == before
                &&& step == ContextStep::ReadIdentification(entry.content_hash)
            },
            EntryKind::Message => {
                &&& after == before
                &&& step == ContextStep::ReadMessage(entry.content_hash)
            },
            EntryKind::File => {
                &&& step matches ContextStep::Broadcast(ContextEvents::FileUpdated(file))
                &&& file.describes(entry, key, true)
                &&& after == (ContextState { files: files_after(before.files, file), ..before })
            },
            EntryKind::Unknown => after == before && step == ContextStep::Unhandled,
        }
    }
}

/// How an event on the exchange's document is handled.
pub open spec fn live_event_handled(
    before: ContextState,
    event: LiveEvent,
    after: ContextState,
    step: ContextStep,
) -> bool {
    match event {
        LiveEvent::NeighborUp(pk) => connection_handled(before, pk, true, after, step),
        LiveEvent::NeighborDown(pk) => connection_handled(before, pk, false, after, step),
        LiveEvent::SyncFinished => {
            &&& after == before
            &&& step == ContextStep::Broadcast(ContextEvents::SyncFinished)
        },
        _ => {
            let held = ContextState { waiting: waiting_after(before.waiting, event), ..before };
            match ready_after(before.waiting, event) {
                Some(entry) => ready_entry_handled(held, entry, after, step),
                None => after == held && step == ContextStep::Idle,
            }
        },
    }
}

/// How a peer that has joined or left is handled.
pub open spec fn connection_handled(
    before: ContextState,
    pk: PublicKey,
    joined: bool,
    after: ContextState,
    step: ContextStep,
) -> bool {
    &&& after == (ContextState { connected: peers_after(before.connected, pk, joined), ..before })
    &&& after.connected.finite()
    &&& step matches ContextStep::Broadcast(ContextEvents::LiveConnectionsUpdated(count))
    &&& count == after.connected.len()
}

/// A message that is sent comes back as a message: an entry under the key of the
/// write is read as one when its blob is on the node.
pub proof fn sent_message_is_received(
    write: DocWrite,
    message: Message,
    before: ContextState,
    entry: Entry,
    after: ContextState,
    step: ContextStep,
)
    requires
        write.saves(message.pk, message_key_of(message.date), Record::Message(message)),
        entry.key@ == encode_utf8(write.key()),
        ready_entry_handled(before, entry, after, step),
    ensures
        step == ContextStep::ReadMessage(entry.content_hash),
        after == before,
{
    broadcast use {encode_utf8_valid_utf8, encode_utf8_decode_utf8};

    message_keys_hold_messages(message.date);
}

/// An identification that is written to an exchange lets its participant join: an entry
/// under the key of the write is read as an identification when its blob is on the node.
pub proof fn written_identification_is_read(
    write: DocWrite,
    iden: Identification,
    before: ContextState,
    entry: Entry,
    after: ContextState,
    step: ContextStep,
)
    requires
        write.saves(iden.public_key, IDENTIFICATION_KEY@, Record::Identification(iden)),
        entry.key@ == encode_utf8(write.key()),
        ready_entry_handled(before, entry, after, step),
    ensures
        step == ContextStep::ReadIdentification(entry.content_hash),
        after == before,
{
    broadcast use {encode_utf8_valid_utf8, encode_utf8_decode_utf8};

}

/// A file that is shared on an exchange is held by it: an entry under the key of the
/// write is taken as the file of its author when its blob is on the node.
pub proof fn shared_file_is_held(
    write: DocWrite,
    owner: PublicKey,
    name: Seq<char>,
    before: ContextState,
    entry: Entry,
    after: ContextState,
    step: ContextStep,
)
    requires
        write.points(owner, file_key_of(name), entry.content_hash, entry.content_len),
        entry.key@ == encode_utf8(write.key()),
        entry.author == owner,
        ready_entry_handled(before, entry, after, step),
    ensures
        step matches ContextStep::Broadcast(ContextEvents::FileUpdated(file)) && {
            &&& file.owner == owner
            &&& file.blob == entry.content_hash
            &&& file.name@ == file_key_of(name)
            &&& after.files.contains(file)
        },
{
    broadcast use {encode_utf8_valid_utf8, encode_utf8_decode_utf8};

    file_keys_hold_files(name);
    if let ContextStep::Broadcast(ContextEvents::FileUpdated(file)) = step {
        updated_file_is_held(before.files, file);
    }
}

/// What is read from the document when an exchange is opened is what its keys say: the
/// entries that hold identifications, messages and files, each in its phase, all of them
/// and no others.
pub proof fn entries_are_read_by_kind(phase: Phase, query: Option<DocQuery>, key: Seq<char>)
    requires
        reads_next(phase, query),
    ensures
        phase is LoadingParticipants ==> (query->0.asks_for(key) <==> kind_of(
            key,
        ) is Identification),
        phase is LoadingMessages ==> (query->0.asks_for(key) <==> kind_of(key) is Message),
        phase is LoadingFiles ==> (query->0.asks_for(key) <==> kind_of(key) is File),
{
    reveal_strlit("files");
    reveal_strlit("messages");
    reveal_strlit("identification");
    assert(FILE_KEY_PREFIX@[0] == 'f');
    assert(MESSAGE_KEY_PREFIX@[0] == 'm');
    assert(IDENTIFICATION_KEY@[0] == 'i');
}

/// What participants write to an exchange is read when it is opened: an identification
/// with the participants, a message that was sent with the messages, and a file that was
/// shared with the files.
pub proof fn what_is_written_is_read_back(write: DocWrite, phase: Phase, query: Option<DocQuery>)
    requires
        reads_next(phase, query),
    ensures
        forall|iden: Identification| #[trigger]
            write.saves(iden.public_key, IDENTIFICATION_KEY@, Record::Identification(iden))
                && phase is LoadingParticipants ==> query->0.asks_for(write.key()),
        forall|message: Message| #[trigger]
            write.saves(message.pk, message_key_of(message.date), Record::Message(message))
                && phase is LoadingMessages ==> query->0.asks_for(write.key()),
        forall|owner: PublicKey, name: Seq<char>, hash: BlobHash, size: u64|
            #![trigger write.points(owner, file_key_of(name), hash, size)]
            write.points(owner, file_key_of(name), hash, size) && phase is LoadingFiles
                ==> query->0.asks_for(write.key()),
{
    entries_are_read_by_kind(phase, query, write.key());
    assert forall|message: Message| #[trigger]
        write.saves(message.pk, message_key_of(message.date), Record::Message(message))
            && phase is LoadingMessages implies query->0.asks_for(write.key()) by {
        message_keys_hold_messages(message.date);
    }
    assert forall|owner: PublicKey, name: Seq<char>, hash: BlobHash, size: u64|
        #![trigger write.points(owner, file_key_of(name), hash, size)]
        write.points(owner, file_key_of(name), hash, size)
            && phase is LoadingFiles implies query->0.asks_for(write.key()) by {
        file_keys_hold_files(name);
    }
}

/// The key of every message says that it holds a message.
pub proof fn message_keys_hold_messages(date: Timestamp)
    ensures
        kind_of(message_key_of(date)) is Message,
{
    reveal_strlit("messages");
    reveal_strlit("/");
    reveal_strlit("identification");
    let key = message_key_of(date);
    assert(key[0] == 'm');
    assert(IDENTIFICATION_KEY@[0] == 'i');
}

/// The key of every file says that it holds a file.
pub proof fn file_keys_hold_files(name: Seq<char>)
    ensures
        kind_of(file_key_of(name)) is File,
{
    reveal_strlit("files");
    reveal_strlit("messages");
    reveal_strlit("/");
    reveal_strlit("identification");
    let key = file_key_of(name);
    assert(key[0] == 'f');
    assert(IDENTIFICATION_KEY@[0] == 'i');
    assert(MESSAGE_KEY_PREFIX@[0] == 'm');
}

/// The file `id_pic` of a participant is its picture.
pub proof fn id_pic_is_a_file()
    ensures
        file_key_of("id_pic"@) == ID_PIC@,
        kind_of(ID_PIC@) is File,
{
    reveal_strlit("files");
    reveal_strlit("/");
    reveal_strlit("id_pic");
    reveal_strlit("files/id_pic");
    assert(file_key_of("id_pic"@) =~= ID_PIC@);
    file_keys_hold_files("id_pic"@);
}

/// A file that was shared is found where its owner's files are looked up.
pub proof fn shared_file_is_found(
    write: DocWrite,
    owner: PublicKey,
    name: Seq<char>,
    entry: Entry,
    lookup: DocLookup,
)
    requires
        write.points(owner, file_key_of(name), entry.content_hash, entry.content_len),
        lookup.key() == file_key_of(name),
        lookup.author() == Some(owner),
    ensures
        finds(lookup, write),
{
}

/// Whether no two records are of the same file.
pub open spec fn files_are_distinct(files: Seq<File>) -> bool {
    forall|i: int, j: int|
        0 <= i < j < files.len() ==> !same_file(#[trigger] files[i], #[trigger] files[j])
}

/// A file that was updated is held as it was updated, in the place of its former record
/// or else at the end. Every other file stays as it was, in its place, and no file is
/// held twice. The count grows by one exactly where the file was not there.
pub proof fn updated_file_is_held(files: Seq<File>, file: File)
    ensures
        files_after(files, file).len() == if has_file(files, file) {
            files.len()
        } else {
            files.len() + 1
        },
        forall|i: int|
            0 <= i < files.len() ==> #[trigger] files_after(files, file)[i] == (if same_file(
                file,
                files[i],
            ) {
                file
            } else {
                files[i]
            }),
        !has_file(files, file) ==> files_after(files, file).last() == file,
        files_after(files, file).contains(file),
        forall|f: File|
            !same_file(file, f) ==> (files.contains(f) <==> #[trigger] files_after(
                files,
                file,
            ).contains(f)),
        forall|f: File|
            same_file(file, f) && #[trigger] files_after(files, file).contains(f) ==> f == file,
        files_are_distinct(files) ==> files_are_distinct(files_after(files, file)),
{
    let after = files_after(files, file);
    assert forall|i: int| 0 <= i < files.len() implies #[trigger] after[i] == (if same_file(
        file,
        files[i],
    ) {
        file
    } else {
        files[i]
    }) by {
        if !has_file(files, file) {
            assert(!same_file(file, files[i]));
        }
    }
    if has_file(files, file) {
        let i = choose|i: int| 0 <= i < files.len() && same_file(file, #[trigger] files[i]);
        assert(after[i] == file);
    } else {
        assert(after[files.len() as int] == file);
    }
    assert forall|f: File| !same_file(file, f) implies (files.contains(f)
        <==> #[trigger] after.contains(f)) by {
        if files.contains(f) {
            let k = choose|k: int| 0 <= k < files.len() && files[k] == f;
            assert(after[k] == f);
        }
        if after.contains(f) {
            let k = choose|k: int| 0 <= k < after.len() && after[k] == f;
            if k < files.len() {
                assert(files[k] == f);
            }
        }
    }
    assert forall|f: File| same_file(file, f) && #[trigger] after.contains(f) implies f == file by {
        let k = choose|k: int| 0 <= k < after.len() && after[k] == f;
        if k < files.len() && !has_file(files, file) {
            assert(files[k] == f);
        }
    }
    if files_are_distinct(files) {
        assert forall|i: int, j: int| 0 <= i < j < after.len() implies !same_file(
            #[trigger] after[i],
            #[trigger] after[j],
        ) by {
            if j < files.len() {
                assert(!same_file(files[i], files[j]));
            } else {
                assert(!same_file(file, files[i]));
            }
        }
    }
}

/// Updating a file twice is updating it once, with what came last.
pub proof fn last_update_wins(files: Seq<File>, first: File, last: File)
    requires
        same_file(first, last),
    ensures
        files_after(files_after(files, first), last) == files_after(files, last),
{
    let once = files_after(files, first);
    let twice = files_after(once, last);
    let direct = files_after(files, last);
    updated_file_is_held(files, first);
    let at = choose|k: int| 0 <= k < once.len() && once[k] == first;
    assert(same_file(last, once[at]));
    assert(has_file(once, last));
    if has_file(files, first) {
        let i = choose|i: int| 0 <= i < files.len() && same_file(first, #[trigger] files[i]);
        assert(same_file(last, files[i]));
        assert(has_file(files, last));
    } else {
        assert(!has_file(files, last)) by {
            if has_file(files, last) {
                let i = choose|i: int| 0 <= i < files.len() && same_file(last, #[trigger] files[i]);
                assert(same_file(first, files[i]));
            }
        }
        assert forall|k: int| 0 <= k < files.len() implies !same_file(
            last,
            #[trigger] files[k],
        ) by {}
    }
    assert(twice =~= direct);
}

/// What a step tells those who listen.
pub open spec fn told_by(step: ContextStep) -> Option<ContextEvents> {
    match step {
        ContextStep::Broadcast(event) => Some(event),
        _ => None,
    }
}

/// Whether an event on the document leads from one state to another and is told.
pub open spec fn live_event_told(
    before: ContextState,
    event: LiveEvent,
    after: ContextState,
    told: Option<ContextEvents>,
    step: ContextStep,
) -> bool {
    before.phase is Live && live_event_handled(before, event, after, step) && told == told_by(step)
}

/// Whether the work on an exchange leads from one state to another and tells those who
/// listen of an event, or of none: data is loaded, the work ends, an event on the
/// document is handled, or what was read from a blob is taken in.
pub open spec fn work_done(
    before: ContextState,
    told: Option<ContextEvents>,
    after: ContextState,
) -> bool {
    ||| exists|saved: SavedData|
        load_awaits(before.phase, saved) && #[trigger] data_loaded(before, saved, after, told)
    ||| work_ended(before, after) && told is None
    ||| exists|event: LiveEvent, step: ContextStep|
        #[trigger] live_event_told(before, event, after, told, step)
    ||| {
        &&& before.phase is Live
        &&& after == (ContextState {
            participants: before.participants.push(after.participants.last()),
            ..before
        })
        &&& told == Some(ContextEvents::Join(after.participants.last().public_key))
    }
    ||| {
        &&& before.phase is Live
        &&& told matches Some(ContextEvents::MessageReceived(msg))
        &&& after == (ContextState { messages: before.messages.push(msg), ..before })
    }
}

/// Whether the work on an exchange goes through the states and tells of the events, one
/// after the other.
pub open spec fn is_work(states: Seq<ContextState>, told: Seq<Option<ContextEvents>>) -> bool {
    &&& states.len() == told.len() + 1
    &&& forall|i: int|
        0 <= i < told.len() ==> work_done(states[i], #[trigger] told[i], states[i + 1])
}

proof fn lemma_work_goes_on(
    before: ContextState,
    told: Option<ContextEvents>,
    after: ContextState,
)
    requires
        work_done(before, told, after),
    ensures
        told == Some(ContextEvents::Loaded) ==> before.phase is LoadingFiles && after.phase is Live,
        told is Some && told != Some(ContextEvents::Loaded) ==> before.phase is Live,
        is_loading(after.phase) ==> is_loading(before.phase),
        after.phase is Live ==> before.phase is Live || told == Some(ContextEvents::Loaded),
{
    if exists|event: LiveEvent, step: ContextStep|
        #[trigger] live_event_told(before, event, after, told, step) {
        let (event, step) = choose|event: LiveEvent, step: ContextStep|
            #[trigger] live_event_told(before, event, after, told, step);
        assert(live_event_told(before, event, after, told, step));
    }
}

proof fn lemma_live_after_loading(
    states: Seq<ContextState>,
    told: Seq<Option<ContextEvents>>,
    i: int,
)
    requires
        is_work(states, told),
        is_loading(states[0].phase),
        0 <= i < states.len(),
        states[i].phase is Live,
    ensures
        exists|k: int| 0 <= k < i && #[trigger] told[k] == Some(ContextEvents::Loaded),
    decreases i,
{
    if i > 0 {
        assert(work_done(states[i - 1], told[i - 1], states[i]));
        lemma_work_goes_on(states[i - 1], told[i - 1], states[i]);
        if told[i - 1] != Some(ContextEvents::Loaded) {
            lemma_live_after_loading(states, told, i - 1);
        }
    }
}

proof fn lemma_loading_is_over(
    states: Seq<ContextState>,
    told: Seq<Option<ContextEvents>>,
    i: int,
    j: int,
)
    requires
        is_work(states, told),
        0 <= i <= j < states.len(),
        !is_loading(states[i].phase),
    ensures
        !is_loading(states[j].phase),
    decreases j - i,
{
    if i < j {
        lemma_loading_is_over(states, told, i, j - 1);
        assert(work_done(states[j - 1], told[j - 1], states[j]));
        lemma_work_goes_on(states[j - 1], told[j - 1], states[j]);
    }
}

/// That an exchange is loaded is told once at most, and before every other event of its
/// work.
pub proof fn loaded_is_told_once_and_first(
    states: Seq<ContextState>,
    told: Seq<Option<ContextEvents>>,
)
    requires
        is_work(states, told),
        is_loading(states[0].phase),
    ensures
        forall|i: int, j: int|
            0 <= i < j < told.len() && #[trigger] told[i] == Some(ContextEvents::Loaded)
                ==> #[trigger] told[j] != Some(ContextEvents::Loaded),
        forall|j: int|
            0 <= j < told.len() && (#[trigger] told[j]) is Some && told[j] != Some(
                ContextEvents::Loaded,
            ) ==> exists|i: int| 0 <= i < j && #[trigger] told[i] == Some(ContextEvents::Loaded),
{
    assert forall|i: int, j: int|
        0 <= i < j < told.len() && #[trigger] told[i] == Some(
            ContextEvents::Loaded,
        ) implies #[trigger] told[j] != Some(ContextEvents::Loaded) by {
        assert(work_done(states[i], told[i], states[i + 1]));
        lemma_work_goes_on(states[i], told[i], states[i + 1]);
        lemma_loading_is_over(states, told, i + 1, j);
        assert(work_done(states[j], told[j], states[j + 1]));
        lemma_work_goes_on(states[j], told[j], states[j + 1]);
    }
    assert forall|j: int|
        0 <= j < told.len() && (#[trigger] told[j]) is Some && told[j] != Some(
            ContextEvents::Loaded,
        ) implies exists|i: int|
        0 <= i < j && #[trigger] told[i] == Some(ContextEvents::Loaded) by {
        assert(work_done(states[j], told[j], states[j + 1]));
        lemma_work_goes_on(states[j], told[j], states[j + 1]);
        lemma_live_after_loading(states, told, j);
    }
}

/// When an exchange tells that it is loaded, it holds everything that was stored: the
/// participants, the messages in the order of their dates, and the files.
pub proof fn everything_stored_is_loaded(
    new: ContextState,
    participants: Vec<Identification>,
    messages: Vec<Message>,
    files: Vec<File>,
    first: ContextState,
    second: ContextState,
    third: ContextState,
    told: (Option<ContextEvents>, Option<ContextEvents>, Option<ContextEvents>),
)
    requires
        new.participants == Seq::<Identification>::empty(),
        new.messages == Seq::<Message>::empty(),
        new.files == Seq::<File>::empty(),
        data_loaded(new, SavedData::Participants(participants), first, told.0),
        data_loaded(first, SavedData::Messages(messages), second, told.1),
        data_loaded(second, SavedData::Files(files), third, told.2),
    ensures
        told == (
            None::<ContextEvents>,
            None::<ContextEvents>,
            Some(ContextEvents::Loaded),
        ),
        third.participants == participants@,
        is_sorted_by_date(messages@, third.messages),
        third.files == files@,
        third.phase is Live,
{
    assert(Seq::<Identification>::empty() + participants@ =~= participants@);
    assert(Seq::<Message>::empty() + messages@ =~= messages@);
    assert(Seq::<File>::empty() + files@ =~= files@);
}

/// A load that fails tells nothing, and nothing is told ever after: the work has ended.
pub proof fn failed_load_tells_nothing(
    states: Seq<ContextState>,
    told: Seq<Option<ContextEvents>>,
    i: int,
)
    requires
        is_work(states, told),
        is_loading(states[0].phase),
        0 <= i < states.len(),
        states[i].phase is Ended,
        forall|k: int| 0 <= k < i ==> #[trigger] told[k] != Some(ContextEvents::Loaded),
    ensures
        forall|k: int| 0 <= k < told.len() ==> (#[trigger] told[k]) is None,
{
    assert forall|k: int| 0 <= k < told.len() implies (#[trigger] told[k]) is None by {
        assert(work_done(states[k], told[k], states[k + 1]));
        lemma_work_goes_on(states[k], told[k], states[k + 1]);
        if k >= i {
            lemma_ended_stays(states, told, i, k);
        } else if told[k] is Some {
            lemma_live_after_loading(states, told, k);
        }
    }
}

proof fn lemma_ended_stays(
    states: Seq<ContextState>,
    told: Seq<Option<ContextEvents>>,
    i: int,
    j: int,
)
    requires
        is_work(states, told),
        0 <= i <= j < states.len(),
        states[i].phase is Ended,
    ensures
        states[j].phase is Ended,
    decreases j - i,
{
    if i < j {
        lemma_ended_stays(states, told, i, j - 1);
        lemma_loading_is_over(states, told, i, j);
        assert(work_done(states[j - 1], told[j - 1], states[j]));
        lemma_work_goes_on(states[j - 1], told[j - 1], states[j]);
    }
}

/// An entry whose blob is on the node is taken by its key alone, whoever wrote it and
/// however it came: as an identification, as a message, as the file of its author, or as
/// nothing. Only a file changes what the exchange holds.
pub proof fn ready_entries_are_taken_by_key(
    before: ContextState,
    event: LiveEvent,
    entry: Entry,
    key: Seq<char>,
    after: ContextState,
    step: ContextStep,
)
    requires
        live_event_handled(before, event, after, step),
        ready_after(before.waiting, event) == Some(entry),
        entry.key@ == encode_utf8(key),
    ensures
        key == "identification"@ ==> step == ContextStep::ReadIdentification(entry.content_hash),
        "messages"@.is_prefix_of(key) ==> step == ContextStep::ReadMessage(entry.content_hash),
        "files"@.is_prefix_of(key) ==> (step matches ContextStep::Broadcast(
            ContextEvents::FileUpdated(file),
        ) && file.owner == entry.author && file.blob == entry.content_hash && file.name@ == key
            && file.size == entry.content_len && file.downloaded && after.files.contains(file)),
        key != "identification"@ && !"messages"@.is_prefix_of(key) && !"files"@.is_prefix_of(key)
            ==> step == ContextStep::Unhandled,
        !"files"@.is_prefix_of(key) ==> after.files == before.files,
        after.id == before.id,
        after.participants == before.participants,
        after.messages == before.messages,
        after.connected == before.connected,
        after.phase == before.phase,
{
    broadcast use {encode_utf8_valid_utf8, encode_utf8_decode_utf8};

    reveal_strlit("identification");
    reveal_strlit("messages");
    reveal_strlit("files");
    assert(IDENTIFICATION_KEY@ == "identification"@);
    assert(MESSAGE_KEY_PREFIX@ == "messages"@);
    assert(FILE_KEY_PREFIX@ == "files"@);
    assert("identification"@[0] == 'i');
    assert("messages"@[0] == 'm');
    assert("files"@[0] == 'f');
    if let ContextStep::Broadcast(ContextEvents::FileUpdated(file)) = step {
        updated_file_is_held(before.files, file);
    }
}

/// An entry whose key is no text ends the work with an error that gives the reason, and
/// nobody hears of it.
pub proof fn bad_keys_end_the_work(
    before: ContextState,
    event: LiveEvent,
    entry: Entry,
    after: ContextState,
    step: ContextStep,
)
    requires
        live_event_handled(before, event, after, step),
        ready_after(before.waiting, event) == Some(entry),
        !valid_utf8(entry.key@),
    ensures
        step matches ContextStep::Fail(Error::BadKey(reason)) && reason@ == utf8_error_text(
            entry.key@,
        ),
        after.phase == Phase::Ended,
        after.files == before.files,
        after.participants == before.participants,
        after.messages == before.messages,
        after.connected == before.connected,
{
}

/// What is told of the peers and of a sync: how many peers are connected after the change,
/// and that a sync has ended. Nothing else changes, and an entry whose blob is not here
/// yet is not heard of.
pub proof fn peers_and_syncs_are_told(
    before: ContextState,
    event: LiveEvent,
    after: ContextState,
    step: ContextStep,
)
    requires
        live_event_handled(before, event, after, step),
    ensures
        event matches LiveEvent::NeighborUp(pk) ==> after.connected == before.connected.insert(pk),
        event matches LiveEvent::NeighborDown(pk) ==> after.connected == before.connected.remove(
            pk,
        ),
        event is NeighborUp || event is NeighborDown ==> (step matches ContextStep::Broadcast(
            ContextEvents::LiveConnectionsUpdated(count),
        ) && count == after.connected.len() && after.files == before.files && after.waiting
            == before.waiting && after.phase == before.phase),
        !(event is NeighborUp) && !(event is NeighborDown) ==> after.connected == before.connected,
        event is SyncFinished ==> step == ContextStep::Broadcast(ContextEvents::SyncFinished)
            && after == before,
        step == ContextStep::Broadcast(ContextEvents::SyncFinished) ==> event is SyncFinished,
        !(event is NeighborUp) && !(event is NeighborDown) && !(event is SyncFinished)
            && ready_after(before.waiting, event) is None ==> step == ContextStep::Idle
            && after.files == before.files && after.phase == before.phase,
        after.id == before.id,
        after.participants == before.participants,
        after.messages == before.messages,
        after.waiting == waiting_after(before.waiting, event),
{
}

/// Updating a file touches the record of the same owner and name, and no other: a file of
/// the same name of another owner stays, and so does another file of the same owner. Where
/// there was no such record, one is put at the end.
pub proof fn files_of_others_stay(files: Seq<File>, file: File)
    ensures
        forall|i: int|
            0 <= i < files.len() && ((#[trigger] files[i]).owner != file.owner || files[i].name@
                != file.name@) ==> files_after(files, file)[i] == files[i],
        forall|i: int|
            0 <= i < files.len() && (#[trigger] files[i]).owner == file.owner && files[i].name@
                == file.name@ ==> files_after(files, file)[i] == file,
        (forall|i: int|
            0 <= i < files.len() ==> (#[trigger] files[i]).owner != file.owner || files[i].name@
                != file.name@) ==> files_after(files, file) == files.push(file),
        (exists|i: int|
            0 <= i < files.len() && (#[trigger] files[i]).owner == file.owner && files[i].name@
                == file.name@) ==> files_after(files, file).len() == files.len(),
{
    updated_file_is_held(files, file);
    let after = files_after(files, file);
    assert forall|i: int|
        0 <= i < files.len() && ((#[trigger] files[i]).owner != file.owner || files[i].name@
            != file.name@) implies after[i] == files[i] by {}
    assert forall|i: int|
        0 <= i < files.len() && (#[trigger] files[i]).owner == file.owner && files[i].name@
            == file.name@ implies after[i] == file by {
        assert(same_file(file, files[i]));
    }
    if exists|i: int|
        0 <= i < files.len() && (#[trigger] files[i]).owner == file.owner && files[i].name@
            == file.name@ {
        let i = choose|i: int|
            0 <= i < files.len() && (#[trigger] files[i]).owner == file.owner && files[i].name@
                == file.name@;
        assert(same_file(file, files[i]));
        assert(has_file(files, file));
    }
    if forall|i: int|
        0 <= i < files.len() ==> (#[trigger] files[i]).owner != file.owner || files[i].name@
            != file.name@ {
        assert(!has_file(files, file));
    }
}

/// Loading takes in all that was read and loses nothing that was there: participants and
/// files come behind those that are there, and messages come among them by their dates.
/// Participants come first, then messages, then files, and the last of them alone tells
/// that all is loaded.
pub proof fn loading_loses_nothing(
    before: ContextState,
    saved: SavedData,
    after: ContextState,
    told: Option<ContextEvents>,
)
    requires
        load_awaits(before.phase, saved),
        data_loaded(before, saved, after, told),
    ensures
        saved matches SavedData::Participants(read) ==> {
            &&& after.participants == before.participants + read@
            &&& before.phase == Phase::LoadingParticipants
            &&& after.phase == Phase::LoadingMessages
        },
        saved matches SavedData::Messages(read) ==> {
            &&& after.messages.len() == before.messages.len() + read@.len()
            &&& forall|m: Message| #[trigger]
                after.messages.contains(m) <==> before.messages.contains(m) || read@.contains(m)
            &&& before.phase == Phase::LoadingMessages
            &&& after.phase == Phase::LoadingFiles
        },
        saved matches SavedData::Files(read) ==> {
            &&& after.files == before.files + read@
            &&& before.phase == Phase::LoadingFiles
            &&& after.phase == Phase::Live
        },
        told == (if saved is Files {
            Some(ContextEvents::Loaded)
        } else {
            None
        }),
        !(saved is Participants) ==> after.participants == before.participants,
        !(saved is Messages) ==> after.messages == before.messages,
        !(saved is Files) ==> after.files == before.files,
        after.id == before.id,
        after.connected == before.connected,
{
    if let SavedData::Messages(read) = saved {
        let all = before.messages + read@;
        sorting_keeps_every_message(all, after.messages);
        assert forall|m: Message| #[trigger]
            after.messages.contains(m) <==> before.messages.contains(m) || read@.contains(m) by {
            assert(after.messages.contains(m) <==> all.contains(m));
            if before.messages.contains(m) {
                let k = choose|k: int| 0 <= k < before.messages.len() && before.messages[k] == m;
                assert(all[k] == m);
            }
            if read@.contains(m) {
                let k = choose|k: int| 0 <= k < read@.len() && read@[k] == m;
                assert(all[before.messages.len() + k] == m);
            }
            if all.contains(m) {
                let k = choose|k: int| 0 <= k < all.len() && all[k] == m;
                if k < before.messages.len() {
                    assert(before.messages[k] == m);
                } else {
                    assert(read@[k - before.messages.len()] == m);
                }
            }
        }
    }
}

/// A file of an exchange is kept below the folder of files under its name, so that files
/// of different names never share a key.
pub proof fn files_are_kept_by_name(a: Seq<char>, b: Seq<char>)
    ensures
        file_key_of(a) == "files/"@ + a,
        file_key_of(a) == file_key_of(b) <==> a == b,
{
    reveal_strlit("files");
    reveal_strlit("files/");
    reveal_strlit("/");
    assert(file_key_of(a) =~= "files/"@ + a);
    assert(file_key_of(a).skip(6) =~= a);
    assert(file_key_of(b).skip(6) =~= b);
}

/// Whoever is told to have joined is put behind the participants, also where it is there
/// already, and every message that is told is put behind the messages.
pub proof fn joins_and_messages_are_noted(
    before: ContextState,
    told: Option<ContextEvents>,
    after: ContextState,
)
    requires
        work_done(before, told, after),
    ensures
        told matches Some(ContextEvents::Join(pk)) ==> {
            &&& after.participants.len() == before.participants.len() + 1
            &&& after.participants.drop_last() == before.participants
            &&& after.participants.last().public_key == pk
            &&& after.messages == before.messages
        },
        told matches Some(ContextEvents::MessageReceived(msg)) ==> {
            &&& after.messages.len() == before.messages.len() + 1
            &&& after.messages.drop_last() == before.messages
            &&& after.messages.last() == msg
            &&& after.participants == before.participants
        },
{
    if exists|event: LiveEvent, step: ContextStep|
        #[trigger] live_event_told(before, event, after, told, step) {
        let (event, step) = choose|event: LiveEvent, step: ContextStep|
            #[trigger] live_event_told(before, event, after, told, step);
        assert(live_event_told(before, event, after, told, step));
    }
    if told matches Some(ContextEvents::Join(_)) {
        assert(after.participants.drop_last() =~= before.participants);
    }
    if told matches Some(ContextEvents::MessageReceived(_)) {
        assert(after.messages.drop_last() =~= before.messages);
    }
}

} // verus!
