//! Whole nodes, with documents and blobs held in memory.
use ghostlib::data::{
    found_content, BlobHash, DocLookup, DocQuery, DocWrite, ExchangeId, PublicKey, Record, WideId,
};
use ghostlib::error::Error;
use ghostlib::exchange::context::{
    broadcast, ContextEvents, ContextStep, ExchangeContext, Phase, SavedData,
};
use ghostlib::exchange::service::{
    delete_exchange_id, exchange_list_lookup, list_exchange_ids, load_exchange_context,
    save_exchange_id, DeleteStep, Events, Running,
};
use ghostlib::exchange::setup::{SetupAction, SetupEvent};
use ghostlib::exchange::{ExchangeService, Message};
use ghostlib::host::{AppConfig, AppHost, ShutdownStep};
use ghostlib::identity::{Identification, Service as IdentityService};
use ghostlib::live_doc::{ContentStatus, Entry, LiveEvent};
use ghostlib::settings::{Service as SettingsService, SettingsAction, SettingsEvent};
use std::cell::RefCell;
use std::collections::HashMap;
use std::rc::Rc;

const TEST_DIR: &str = "./testtmp";

/// What outlives a node.
struct Disk {
    settings_file: Option<Vec<u8>>,
    docs: HashMap<WideId, Vec<Entry>>,
    blobs: HashMap<WideId, Record>,
    next_id: u8,
}

impl Disk {
    fn fresh_id(&mut self) -> WideId {
        self.next_id += 1;
        WideId::from([self.next_id; 32])
    }
}

fn new_disk() -> Rc<RefCell<Option<Disk>>> {
    Rc::new(RefCell::new(Some(Disk {
        settings_file: None,
        docs: HashMap::new(),
        blobs: HashMap::new(),
        next_id: 0,
    })))
}

fn copy_entry(entry: &Entry) -> Entry {
    Entry {
        author: entry.author,
        key: entry.key.clone(),
        content_hash: entry.content_hash,
        content_len: entry.content_len,
    }
}

/// A running exchange with what it told those who listen.
struct Context {
    state: ExchangeContext,
    heard: Vec<ContextEvents>,
}

type Handle = Rc<RefCell<Context>>;

struct Host {
    app: AppHost,
    settings: SettingsService,
    identity: IdentityService,
    exchange: ExchangeService<Handle>,
    disk: Rc<RefCell<Option<Disk>>>,
}

impl Host {
    fn new(disk: &Rc<RefCell<Option<Disk>>>) -> Host {
        Host {
            app: AppHost::new(AppConfig { data_path: TEST_DIR.to_string() }),
            settings: SettingsService::new(),
            identity: IdentityService::new(),
            exchange: ExchangeService::new(),
            disk: disk.clone(),
        }
    }

    fn on_disk<R>(&self, work: impl FnOnce(&mut Disk) -> R) -> R {
        work(self.disk.borrow_mut().as_mut().unwrap())
    }

    fn settings_doc(&mut self) -> WideId {
        let mut event = SettingsEvent::Asked;
        loop {
            assert!(self.settings.waits_for(&event));
            event = match self.settings.settings_doc(event) {
                SettingsAction::CheckFile => {
                    SettingsEvent::Checked(self.on_disk(|d| d.settings_file.is_some()))
                }
                SettingsAction::ReadFile => {
                    SettingsEvent::Read(self.on_disk(|d| d.settings_file.clone()))
                }
                SettingsAction::Open(id) => {
                    SettingsEvent::Opened(self.on_disk(|d| d.docs.contains_key(&id)))
                }
                SettingsAction::Create => SettingsEvent::Created(self.create_doc()),
                SettingsAction::WriteFile(bytes) => {
                    self.on_disk(|d| d.settings_file = Some(bytes.to_vec()));
                    SettingsEvent::Saved
                }
                SettingsAction::Use(id) => {
                    assert_eq!(self.settings.namespace(), Some(id));
                    return id;
                }
                SettingsAction::Fail => panic!("no settings document"),
            };
        }
    }

    fn create_doc(&self) -> WideId {
        self.on_disk(|d| {
            let id = d.fresh_id();
            d.docs.insert(id, vec![]);
            id
        })
    }

    /// Writes to a document. An exchange that runs on it sees the entry.
    fn write(&mut self, doc: WideId, write: DocWrite) {
        let entry = self.on_disk(|d| {
            let (author, key, hash, size) = match write {
                DocWrite::Save { author, key, record } => {
                    let hash = d.fresh_id();
                    d.blobs.insert(hash, record);
                    (author, key, hash, 1)
                }
                DocWrite::SetHash { author, key, hash, size } => (author, key, hash, size),
                DocWrite::SetBytes { .. } => panic!("no text is written here"),
            };
            let entry = Entry {
                author,
                key: key.into_bytes(),
                content_hash: hash,
                content_len: size,
            };
            let entries = d.docs.get_mut(&doc).unwrap();
            entries.retain(|e| e.author != entry.author || e.key != entry.key);
            entries.push(copy_entry(&entry));
            entry
        });
        if let Some(context) = self.exchange.context_by_id(&doc) {
            let context = context.clone();
            self.deliver(&context, LiveEvent::InsertLocal { entry });
        }
    }

    fn read<R>(&self, hash: BlobHash, pick: impl FnOnce(&Record) -> Option<R>) -> R {
        self.on_disk(|d| pick(&d.blobs[&hash]).unwrap())
    }

    fn read_identification(&self, hash: BlobHash) -> Identification {
        self.read(hash, |r| match r {
            Record::Identification(iden) => Some(iden.clone()),
            _ => None,
        })
    }

    fn read_message(&self, hash: BlobHash) -> Message {
        self.read(hash, |r| match r {
            Record::Message(message) => Some(message.clone()),
            _ => None,
        })
    }

    fn look_up(&mut self, lookup: DocLookup) -> Result<BlobHash, String> {
        let doc = self.settings_doc();
        self.on_disk(|d| {
            let found = d.docs[&doc].iter().find(|e| match &lookup {
                DocLookup::Exact { author, key } => {
                    e.author == *author && e.key == key.as_bytes()
                }
                DocLookup::Any { key } => e.key == key.as_bytes(),
            });
            found_content(found).map_err(|e| e.message())
        })
    }

    fn create_identification(&mut self, name: &str) -> Identification {
        let author = self.on_disk(|d| d.fresh_id());
        let doc = self.settings_doc();
        let creation = self.identity.create_identification(author, name);
        if let Some(write) = creation.assume_write {
            self.write(doc, write);
            self.identity.set_assumed_identity_pk::<String>(author, Ok(())).unwrap();
        }
        self.write(doc, creation.record_write);
        creation.identification
    }

    fn load_assumed_identity(&mut self) {
        let found = self.look_up(IdentityService::assumed_identity_lookup());
        let loaded = found.map(|hash| {
            self.read(hash, |r| match r {
                Record::PublicKey(pk) => Some(*pk),
                _ => None,
            })
        });
        self.identity.load_assumed_identity(loaded);
    }

    fn assumed_identity(&mut self) -> Option<Identification> {
        let lookup = self.identity.assumed_identity()?;
        let hash = self.look_up(lookup).ok()?;
        Some(self.read_identification(hash))
    }

    fn listed(&mut self) -> Vec<ExchangeId> {
        let found = self.look_up(exchange_list_lookup());
        list_exchange_ids(found.map(|hash| {
            self.read(hash, |r| match r {
                Record::ExchangeIds(ids) => Some(ids.clone()),
                _ => None,
            })
        }))
    }

    /// Starts the work on an exchange: what is on its document is taken in.
    fn start(&self, id: ExchangeId) -> Handle {
        let state = ExchangeContext::new(id);
        let entries: Vec<Entry> = self.on_disk(|d| d.docs[&id].iter().map(copy_entry).collect());
        let mut context = Context { state, heard: vec![] };
        while let Some(query) = context.state.next_query() {
            let asked: Vec<&Entry> = entries
                .iter()
                .filter(|e| match &query {
                    DocQuery::Exact { key } => e.key == key.as_bytes(),
                    DocQuery::Below { prefix } | DocQuery::BelowByKey { prefix } => {
                        e.key.starts_with(prefix.as_bytes())
                    }
                })
                .collect();
            let hashes = asked.iter().map(|e| e.content_hash);
            let saved = match context.state.phase() {
                Phase::LoadingParticipants => SavedData::Participants(
                    hashes.map(|h| self.read_identification(h)).collect(),
                ),
                Phase::LoadingMessages => {
                    SavedData::Messages(hashes.rev().map(|h| self.read_message(h)).collect())
                }
                _ => SavedData::Files(vec![]),
            };
            assert!(context.heard.is_empty() && context.state.awaits(&saved));
            let told = context.state.initial_data_load::<String>(Ok(saved)).unwrap();
            context.heard.extend(told.and_then(|event| broadcast(event, 1)));
        }
        Rc::new(RefCell::new(context))
    }

    fn deliver(&self, context: &Handle, event: LiveEvent) {
        let mut context = context.borrow_mut();
        assert_eq!(context.state.phase(), Phase::Live);
        let told = match context.state.on_live_event(event) {
            ContextStep::Broadcast(event) => Some(event),
            ContextStep::ReadIdentification(hash) => {
                let iden = self.read_identification(hash);
                Some(context.state.new_participant_joined(iden))
            }
            ContextStep::ReadMessage(hash) => {
                let message = self.read_message(hash);
                Some(context.state.new_message_received(message))
            }
            ContextStep::Idle | ContextStep::Unhandled => None,
            ContextStep::Fail(e) => panic!("{}", e.message()),
        };
        context.heard.extend(told);
    }

    fn set_up(&mut self, ticket: Option<(ExchangeId, String)>, register: bool) -> Handle {
        let (mut setup, mut action) = match &ticket {
            None => self.exchange.create_exchange(register),
            Some((_, text)) => self.exchange.join_exchange(text.clone(), register),
        };
        let mut doc: Option<ExchangeId> = None;
        let mut context: Option<Handle> = None;
        loop {
            let event = match action {
                SetupAction::CreateDoc => {
                    doc = Some(self.create_doc());
                    SetupEvent::Opened(doc.unwrap())
                }
                SetupAction::ImportDoc(text) => {
                    let (id, expected) = ticket.as_ref().unwrap();
                    assert_eq!(&text, expected);
                    self.on_disk(|d| d.docs.insert(*id, vec![]));
                    doc = Some(*id);
                    SetupEvent::Opened(*id)
                }
                SetupAction::LoadIdentity => SetupEvent::Identity(self.assumed_identity()),
                SetupAction::Write(write) => {
                    self.write(doc.unwrap(), write);
                    SetupEvent::Done
                }
                SetupAction::FetchPic(_) => SetupEvent::Pic(None),
                SetupAction::Start(id) => {
                    context = Some(self.start(id));
                    SetupEvent::Done
                }
                SetupAction::SaveId(id) => {
                    let settings = self.settings_doc();
                    let ids = self.listed();
                    let myself = self.identity.assumed_identity_pk();
                    let write = save_exchange_id(myself, ids, id).unwrap();
                    self.write(settings, write);
                    SetupEvent::Done
                }
                SetupAction::Reload(id) => {
                    let context = context.clone().unwrap();
                    self.reload_contexts(Some(Running { id, context }), None);
                    SetupEvent::Done
                }
                SetupAction::Finish(id) => {
                    let context = context.unwrap();
                    assert_eq!(context.borrow().state.id(), id);
                    return context;
                }
                SetupAction::Fail(e) => panic!("{}", e.message()),
            };
            assert!(setup.waits_for(&event));
            let (next, then) = setup.step(event);
            setup = next;
            action = then;
        }
    }

    fn create_exchange(&mut self, register: bool) -> Handle {
        self.set_up(None, register)
    }

    fn join_exchange(&mut self, id: ExchangeId, ticket: &str, register: bool) -> Handle {
        self.set_up(Some((id, ticket.to_string())), register)
    }

    fn reload_contexts(&mut self, new: Option<Running<Handle>>, del: Option<ExchangeId>) {
        let listed = self.listed();
        let new_id = new.as_ref().map(|n| n.id);
        assert!(self.exchange.adopts_once(&listed, new_id));
        self.try_reload_contexts(&listed, new, del).unwrap();
    }

    fn try_reload_contexts(
        &mut self,
        listed: &Vec<ExchangeId>,
        new: Option<Running<Handle>>,
        del: Option<ExchangeId>,
    ) -> Result<Events, Error> {
        let missing = self.exchange.missing_contexts(listed, new.as_ref().map(|n| n.id));
        let loaded = missing.into_iter().map(|id| {
            let opened = self.on_disk(|d| d.docs.get(&id).map(|_| id));
            let id = load_exchange_context(opened)?;
            Ok(Running { id, context: self.start(id) })
        });
        let loaded = loaded.collect();
        self.exchange.reload_or_fail(listed, new, loaded, del)
    }

    fn delete_exchange(&mut self, id: ExchangeId) {
        for step in self.exchange.delete_exchange(id).unwrap() {
            match step {
                DeleteStep::ShutDown(_) => {}
                DeleteStep::DropDoc(id) => {
                    self.on_disk(|d| d.docs.remove(&id));
                }
                DeleteStep::Forget(id) => {
                    let settings = self.settings_doc();
                    let ids = self.listed();
                    let myself = self.identity.assumed_identity_pk();
                    let write = delete_exchange_id(myself, ids, id).unwrap();
                    self.write(settings, write);
                }
                DeleteStep::Reload(id) => self.reload_contexts(None, Some(id)),
            }
        }
    }

    fn send_message(&mut self, context: &Handle, message: &Message) {
        let id = context.borrow().state.id();
        self.write(id, ExchangeContext::send_message(message));
    }

    fn shutdown(mut self) {
        assert!(self.app.node_is_up());
        for step in self.app.shutdown() {
            if let ShutdownStep::RemoveData(path) = step {
                assert_eq!(path, TEST_DIR);
                *self.disk.borrow_mut() = None;
            }
        }
        assert!(!self.app.node_is_up());
    }
}

/// The identification of a participant on another node, as it arrives on a document:
/// first the entry, then its blob.
fn arrive(host: &Host, context: &Handle, name: &str) -> PublicKey {
    let (pk, entry) = host.on_disk(|d| {
        let pk: PublicKey = d.fresh_id();
        let hash = d.fresh_id();
        let iden = Identification { public_key: pk, name: String::from(name) };
        d.blobs.insert(hash, Record::Identification(iden));
        let entry = Entry {
            author: pk,
            key: b"identification".to_vec(),
            content_hash: hash,
            content_len: 1,
        };
        let id = context.borrow().state.id();
        d.docs.get_mut(&id).unwrap().push(copy_entry(&entry));
        (pk, entry)
    });
    let hash = entry.content_hash;
    host.deliver(
        context,
        LiveEvent::InsertRemote { from: pk, entry, content_status: ContentStatus::Missing },
    );
    assert!(joined(context).is_none());
    host.deliver(context, LiveEvent::ContentReady { hash });
    pk
}

/// The first participant that was heard to join.
fn joined(context: &Handle) -> Option<Identification> {
    let context = context.borrow();
    context.heard.iter().find_map(|e| match e {
        ContextEvents::Join(pk) => {
            context.state.participants().into_iter().find(|p| p.public_key() == pk)
        }
        _ => None,
    })
}

#[test]
fn will_delete_all_data() {
    let disk = new_disk();
    let mut ah = Host::new(&disk);
    ah.settings_doc();
    ah.app.set_reset_flag();
    ah.shutdown();

    assert!(disk.borrow().is_none());
}

#[test]
fn data_stays_without_reset_flag() {
    let disk = new_disk();
    let mut ah = Host::new(&disk);
    ah.settings_doc();
    ah.shutdown();

    assert!(disk.borrow().is_some());
}

#[test]
fn can_create_and_reload_data() {
    let disk = new_disk();
    let mut ah = Host::new(&disk);
    ah.create_identification("kevin");
    ah.load_assumed_identity();
    let first = ah.assumed_identity().unwrap().name;
    assert_eq!("kevin", first);
    ah.shutdown();

    let mut ah2 = Host::new(&disk);
    assert!(ah2.assumed_identity().is_none());
    ah2.load_assumed_identity();
    let created_name = ah2.assumed_identity().unwrap().name;
    assert_eq!("kevin", created_name);
    ah2.shutdown();
}

#[test]
fn second_identification_is_not_assumed() {
    let disk = new_disk();
    let mut ah = Host::new(&disk);
    ah.create_identification("kevin");
    let second = ah.create_identification("hurshal");
    assert_eq!("kevin", ah.assumed_identity().unwrap().name());
    let lookup = IdentityService::get_identification(second.public_key());
    let hash = ah.look_up(lookup).unwrap();
    assert_eq!("hurshal", ah.read_identification(hash).name());
}

#[test]
fn create_exchange() {
    let disk = new_disk();
    let mut ah = Host::new(&disk);
    ah.create_identification("kevin");
    let ex = ah.create_exchange(true);
    assert_eq!(ah.exchange.contexts()[0].id, ex.borrow().state.id());

    ah.create_exchange(true);
    let killme = ah.create_exchange(true);
    assert_eq!(3, ah.exchange.contexts().len());

    let killme = killme.borrow().state.id();
    ah.delete_exchange(killme);
    assert_eq!(2, ah.exchange.contexts().len());
    assert!(ah.exchange.context_by_id(&killme).is_none());
    ah.shutdown();
}

#[test]
fn exchange_persists() {
    let disk = new_disk();
    let mut ah = Host::new(&disk);
    ah.create_identification("kevin");
    ah.create_exchange(true);
    let first_exchange: ExchangeId = ah.exchange.contexts()[0].id;
    ah.shutdown();

    let mut ah = Host::new(&disk);
    ah.reload_contexts(None, None);
    let second_exchange: ExchangeId = ah.exchange.contexts()[0].id;
    ah.shutdown();
    assert_eq!(first_exchange, second_exchange);
}

#[test]
fn missing_document_changes_nothing() {
    let disk = new_disk();
    let mut ah = Host::new(&disk);
    ah.create_identification("kevin");
    let ex = ah.create_exchange(true).borrow().state.id();
    let gone = ah.on_disk(|d| d.fresh_id());
    let listed = vec![ex, gone];
    let failed = ah.try_reload_contexts(&listed, None, Some(ex)).unwrap_err();
    assert_eq!(failed.message(), "No exchange document to load");
    assert_eq!(1, ah.exchange.contexts().len());
    assert_eq!(ah.exchange.contexts()[0].id, ex);
}

#[test]
fn unregistered_exchange_is_not_listed() {
    let disk = new_disk();
    let mut ah = Host::new(&disk);
    ah.create_identification("kevin");
    ah.create_exchange(false);
    assert_eq!(0, ah.exchange.contexts().len());
    assert!(ah.listed().is_empty());
}

#[test]
fn creator() {
    let disk = new_disk();
    let mut ah = Host::new(&disk);
    ah.create_identification("kevin");
    let ex = ah.create_exchange(true);

    arrive(&ah, &ex, "hurshal");

    let iden = joined(&ex);
    ah.shutdown();
    assert_eq!(iden.unwrap().name, "hurshal");
}

#[test]
fn joiner() {
    let disk = new_disk();
    let mut ah = Host::new(&disk);
    let id = ah.on_disk(|d| d.fresh_id());
    ah.create_identification("kevin");
    let ex = ah.join_exchange(id, "ticket", true);

    arrive(&ah, &ex, "hurshal");

    let res = joined(&ex);
    ah.shutdown();
    assert_eq!(res.unwrap().name, "hurshal");

    let mut ah = Host::new(&disk);
    ah.reload_contexts(None, None);
    let ex = ah.exchange.contexts()[0].context.clone();
    assert!(matches!(ex.borrow().heard[0], ContextEvents::Loaded));
    let mut names: Vec<String> =
        ex.borrow().state.participants().into_iter().map(|p| p.name).collect();
    names.sort();
    assert_eq!(names[0], "hurshal");
    assert_eq!(names[1], "kevin");
}

/// The texts of the messages that were heard.
fn texts(context: &Handle) -> Vec<String> {
    let context = context.borrow();
    let received = context.heard.iter().filter_map(|e| match e {
        ContextEvents::MessageReceived(m) => Some(m.text.clone()),
        _ => None,
    });
    received.collect()
}

#[test]
fn sends_messages() {
    let disk = new_disk();
    let mut ah = Host::new(&disk);
    let id = ah.create_identification("kevin");
    let ex = ah.create_exchange(true);
    let ex_id = ex.borrow().state.id();

    ah.send_message(&ex, &Message::new(id.public_key(), "first"));
    ah.send_message(&ex, &Message::new(id.public_key(), "second"));
    let rx = texts(&ex);
    assert_eq!("first", rx[0]);
    assert_eq!("second", rx[1]);
    ah.shutdown();

    let mut ah = Host::new(&disk);
    ah.load_assumed_identity();
    ah.reload_contexts(None, None);
    let ex = ah.exchange.context_by_id(&ex_id).unwrap().clone();
    ah.send_message(&ex, &Message::new(id.public_key(), "third"));
    assert_eq!("third", texts(&ex)[0]);
    let z: Vec<String> = ex.borrow().state.messages().into_iter().map(|m| m.text).collect();
    assert_eq!("firstsecondthird", z.join(""));
    ah.shutdown();
}
