//! Exchanges on given values.
use ghostlib::data::{DocQuery, DocWrite, Record, WideId};
use ghostlib::error::Error;
use ghostlib::exchange::connections::LiveConnections;
use ghostlib::exchange::context::{
    broadcast, ContextEvents, ContextStep, ExchangeContext, Phase, SavedData,
};
use ghostlib::exchange::mutual;
use ghostlib::exchange::service::{
    delete_exchange_id, list_exchange_ids, load_exchange_context, save_exchange_id,
    watch_context_changes, DeleteStep, Events, Running,
};
use ghostlib::exchange::setup::{SetupAction, SetupEvent};
use ghostlib::exchange::{ExchangeService, Message, Timestamp};
use ghostlib::identity::Identification;
use ghostlib::live_doc::{ContentStatus, Entry, File, LiveEvent};

fn id(n: u8) -> WideId {
    WideId::from([n; 32])
}

fn entry(author: u8, key: &[u8], hash: u8) -> Entry {
    Entry { author: id(author), key: key.to_vec(), content_hash: id(hash), content_len: 7 }
}

fn local(key: &[u8], hash: u8) -> LiveEvent {
    LiveEvent::InsertLocal { entry: entry(1, key, hash) }
}

fn named(n: u8, name: &str) -> Identification {
    Identification { public_key: id(n), name: name.to_string() }
}

fn file(owner: u8, name: &str, blob: u8) -> File {
    File { owner: id(owner), blob: id(blob), name: name.to_string(), size: 1, downloaded: true }
}

fn message(secs: i64, text: &str) -> Message {
    Message::dated(&id(1), Timestamp::new(secs, 0).unwrap(), text)
}

/// An exchange that had nothing on its document.
fn live(n: u8) -> ExchangeContext {
    let mut context = ExchangeContext::new(id(n));
    load(&mut context, SavedData::Participants(vec![]));
    load(&mut context, SavedData::Messages(vec![]));
    load(&mut context, SavedData::Files(vec![]));
    context
}

fn load(context: &mut ExchangeContext, saved: SavedData) -> Option<ContextEvents> {
    assert!(context.awaits(&saved));
    context.initial_data_load::<Error>(Ok(saved)).unwrap()
}

#[test]
fn peers_are_counted_once() {
    let mut peers = LiveConnections::new();
    peers.change(id(1), true);
    peers.change(id(1), true);
    peers.change(id(2), true);
    assert_eq!(peers.count(), 2);
    peers.change(id(3), false);
    assert_eq!(peers.count(), 2);
    peers.change(id(1), false);
    assert_eq!(peers.count(), 1);
}

#[test]
fn last_change_of_a_peer_decides() {
    let mut peers = LiveConnections::new();
    for (n, joined) in [(1, true), (2, true), (1, false), (3, false), (1, true), (2, false)] {
        peers.change(id(n), joined);
    }
    assert_eq!(peers.count(), 1);
    peers.change(id(1), false);
    assert_eq!(peers.count(), 0);
}

#[test]
fn entries_of_an_exchange_are_handled_by_key() {
    let mut context = live(9);
    assert!(matches!(
        context.on_live_event(local(b"identification", 1)),
        ContextStep::ReadIdentification(h) if h == id(1)
    ));
    assert!(matches!(
        context.on_live_event(local(b"messages/2015", 2)),
        ContextStep::ReadMessage(h) if h == id(2)
    ));
    match context.on_live_event(local(b"files/id_pic", 3)) {
        ContextStep::Broadcast(ContextEvents::FileUpdated(f)) => {
            assert!(f.name == "files/id_pic" && f.blob == id(3) && f.downloaded)
        }
        other => panic!("{:?}", other),
    }
    assert!(matches!(context.on_live_event(local(b"manifest.v1", 4)), ContextStep::Unhandled));
    match context.on_live_event(local(b"files/\xff", 5)) {
        ContextStep::Fail(e) => {
            assert_eq!(e.message(), "invalid utf-8 sequence of 1 bytes from index 6")
        }
        other => panic!("{:?}", other),
    }
    assert_eq!(context.phase(), Phase::Ended);
}

#[test]
fn exchange_follows_its_peers() {
    let mut context = live(9);
    let mut count = |event| match context.on_live_event(event) {
        ContextStep::Broadcast(ContextEvents::LiveConnectionsUpdated(count)) => count,
        other => panic!("{:?}", other),
    };
    assert_eq!(count(LiveEvent::NeighborUp(id(1))), 1);
    assert_eq!(count(LiveEvent::NeighborUp(id(2))), 2);
    assert_eq!(count(LiveEvent::NeighborUp(id(2))), 2);
    assert_eq!(count(LiveEvent::NeighborDown(id(1))), 1);
    assert_eq!(context.live_connection_count(), 1);
    assert!(matches!(
        context.on_live_event(LiveEvent::SyncFinished),
        ContextStep::Broadcast(ContextEvents::SyncFinished)
    ));
}

#[test]
fn saved_data_is_asked_for() {
    let mut context = ExchangeContext::new(id(9));
    assert!(matches!(
        context.next_query(),
        Some(DocQuery::Exact { key }) if key == "identification"
    ));
    load(&mut context, SavedData::Participants(vec![]));
    assert!(matches!(
        context.next_query(),
        Some(DocQuery::BelowByKey { prefix }) if prefix == "messages"
    ));
    load(&mut context, SavedData::Messages(vec![]));
    assert!(matches!(
        context.next_query(),
        Some(DocQuery::Below { prefix }) if prefix == "files"
    ));
    load(&mut context, SavedData::Files(vec![]));
    assert!(context.next_query().is_none());

    let mut context = mutual::ExchangeContext::new(id(9));
    assert!(matches!(
        context.next_query(),
        Some(DocQuery::Exact { key }) if key == "identification"
    ));
    let participants = mutual::SavedData::Participants(vec![]);
    context.initial_data_load::<Error>(participants, Ok(())).unwrap();
    assert!(matches!(
        context.next_query(),
        Some(DocQuery::Below { prefix }) if prefix == "messages"
    ));
}

#[test]
fn saved_data_is_taken_in() {
    let mut context = ExchangeContext::new(id(9));
    assert_eq!(context.phase(), Phase::LoadingParticipants);
    assert!(!context.awaits(&SavedData::Messages(vec![])));
    assert!(load(&mut context, SavedData::Participants(vec![named(2, "you")])).is_none());
    let messages = vec![message(30, "c"), message(10, "a")];
    assert!(load(&mut context, SavedData::Messages(messages)).is_none());
    let files = SavedData::Files(vec![file(1, "files/a", 1)]);
    assert!(matches!(load(&mut context, files), Some(ContextEvents::Loaded)));
    assert_eq!(context.phase(), Phase::Live);
    assert!(!context.awaits(&SavedData::Files(vec![])));
    context.new_participant_joined(named(1, "me"));
    context.new_message_received(message(20, "b"));
    let names: Vec<String> = context.participants().into_iter().map(|p| p.name).collect();
    assert_eq!(names, ["you", "me"]);
    let texts: Vec<String> = context.messages().into_iter().map(|m| m.text).collect();
    assert_eq!(texts, ["a", "c", "b"]);
    assert_eq!(context.id(), id(9));
}

#[test]
fn failed_load_ends_the_work() {
    let mut context = ExchangeContext::new(id(9));
    load(&mut context, SavedData::Participants(vec![named(2, "you")]));
    assert_eq!(context.initial_data_load(Err("gone")).unwrap_err(), "gone");
    assert_eq!(context.phase(), Phase::Ended);
    assert_eq!(context.participants().len(), 1);
    assert!(!context.awaits(&SavedData::Messages(vec![])));
}

#[test]
fn unreadable_blob_ends_the_work() {
    let mut context = live(9);
    context.on_live_event(local(b"messages/2015", 2));
    context.read_failed();
    assert_eq!(context.phase(), Phase::Ended);
}

#[test]
fn files_are_updated() {
    let mut context = ExchangeContext::new(id(9));
    match context.add_file(id(1), "id_pic", &entry(1, b"x", 5)) {
        ContextEvents::FileUpdated(f) => {
            assert!(f.owner == id(1) && f.name == "files/id_pic" && f.blob == id(5));
            assert!(f.size == 7 && f.downloaded);
        }
        other => panic!("{:?}", other),
    }
    match context.file_updated(file(1, "files/id_pic", 6)) {
        ContextEvents::FileUpdated(f) => assert!(f.blob == id(6) && f.size == 1),
        other => panic!("{:?}", other),
    }
}

#[test]
fn nobody_hears_where_nobody_listens() {
    assert!(broadcast(ContextEvents::Loaded, 0).is_none());
    assert!(matches!(broadcast(ContextEvents::Loaded, 2), Some(ContextEvents::Loaded)));
}

#[test]
fn news_change_the_list() {
    let changes = |event: ContextEvents| watch_context_changes(&event);
    assert_eq!(changes(ContextEvents::Join(id(1))), Some(Events::ListDidUpdate));
    assert_eq!(changes(ContextEvents::LiveConnectionsUpdated(1)), Some(Events::ListDidUpdate));
    let pic = file(1, "files/id_pic", 1);
    assert_eq!(changes(ContextEvents::FileUpdated(pic)), Some(Events::ListDidUpdate));
    assert_eq!(changes(ContextEvents::FileUpdated(file(1, "files/x", 1))), None);
    assert_eq!(changes(ContextEvents::Loaded), None);
    assert_eq!(changes(ContextEvents::MessageReceived(message(1, "x"))), None);
    assert_eq!(changes(ContextEvents::SyncFinished), None);
}

fn running(n: u8, context: &'static str) -> Running<&'static str> {
    Running { id: id(n), context }
}

fn handles(service: &ExchangeService<&'static str>) -> Vec<&'static str> {
    service.contexts().iter().map(|r| r.context).collect()
}

#[test]
fn exchanges_are_reloaded_in_the_order_of_the_list() {
    let mut service = ExchangeService::new();
    let listed = vec![id(1), id(2), id(3)];
    assert_eq!(service.missing_contexts(&listed, Some(id(2))), vec![id(1), id(3)]);
    assert!(service.adopts_once(&listed, Some(id(2))));
    let loaded = vec![running(1, "one"), running(3, "three")];
    let event = service.reload_contexts(&listed, Some(running(2, "new")), loaded, None);
    assert_eq!(event, Events::ListDidUpdate);
    assert_eq!(handles(&service), ["one", "new", "three"]);

    assert_eq!(service.missing_contexts(&listed, None), vec![]);
    service.reload_contexts(&listed, None, vec![], None);
    assert_eq!(handles(&service), ["one", "new", "three"]);
    assert_eq!(service.context_by_id(&id(2)), Some(&"new"));
    assert_eq!(service.context_by_id(&id(7)), None);
}

#[test]
fn failed_load_leaves_the_exchanges_alone() {
    let mut service = ExchangeService::new();
    let listed = vec![id(1)];
    let loaded: Result<_, &str> = Ok(vec![running(1, "one")]);
    assert_eq!(service.reload_or_fail(&listed, None, loaded, None), Ok(Events::ListDidUpdate));
    let more = vec![id(1), id(2), id(3)];
    let new = Some(running(3, "new"));
    assert_eq!(service.reload_or_fail(&more, new, Err("gone"), Some(id(1))), Err("gone"));
    assert_eq!(handles(&service), ["one"]);
}

#[test]
fn exchange_is_given_up() {
    let mut service = ExchangeService::new();
    let listed = vec![id(1), id(2)];
    let loaded = vec![running(1, "one"), running(2, "two")];
    service.reload_contexts(&listed, None, loaded, None);
    assert_eq!(
        service.delete_exchange(id(1)).unwrap(),
        [
            DeleteStep::ShutDown(id(1)),
            DeleteStep::DropDoc(id(1)),
            DeleteStep::Forget(id(1)),
            DeleteStep::Reload(id(1)),
        ]
    );
    assert_eq!(service.delete_exchange(id(7)).unwrap_err(), Error::ExchangeNotFound);
    service.reload_contexts(&vec![id(2)], None, vec![], Some(id(1)));
    assert_eq!(handles(&service), ["two"]);
    service.reload_contexts(&vec![id(2)], None, vec![], Some(id(1)));
    assert_eq!(handles(&service), ["two"]);
}

#[test]
fn new_exchange_is_adopted_once() {
    let mut service = ExchangeService::new();
    let twice = vec![id(1), id(1)];
    assert!(!service.adopts_once(&twice, Some(id(1))));
    assert!(service.adopts_once(&twice, Some(id(2))));
    assert!(service.adopts_once(&twice, None));
    service.reload_contexts(&vec![id(1)], Some(running(1, "new")), vec![], None);
    assert!(service.adopts_once(&twice, Some(id(1))));
    service.reload_contexts(&twice, Some(running(1, "again")), vec![], None);
    assert_eq!(handles(&service), ["new"]);
}

#[test]
fn pictures_are_shared_on_all_exchanges() {
    let mut service = ExchangeService::new();
    let listed = vec![id(1), id(2)];
    service.reload_contexts(&listed, None, vec![running(1, "one"), running(2, "two")], None);
    assert!(service.reload_pic_for_all(id(7), None).is_empty());
    let shares = service.reload_pic_for_all(id(7), Some(&entry(7, b"x", 5)));
    assert_eq!(shares.len(), 2);
    assert_eq!(shares[1].id, id(2));
    match &shares[0].write {
        DocWrite::SetHash { author, key, hash, size } => {
            assert!(*author == id(7) && key == "files/id_pic" && *hash == id(5) && *size == 7)
        }
        other => panic!("{:?}", other),
    }
}

fn list_of(write: DocWrite) -> Vec<WideId> {
    match write {
        DocWrite::Save { key, record: Record::ExchangeIds(ids), .. } => {
            assert_eq!(key, "exchange/tracked_exchanges");
            ids
        }
        other => panic!("{:?}", other),
    }
}

#[test]
fn exchanges_are_listed_and_unlisted() {
    let saved = save_exchange_id(Some(id(9)), vec![id(1)], id(2)).unwrap();
    let ids = list_of(saved);
    assert_eq!(ids, [id(1), id(2)]);
    let kept = delete_exchange_id(Some(id(9)), ids, id(2)).unwrap();
    assert_eq!(list_of(kept), [id(1)]);
    let kept = delete_exchange_id(Some(id(9)), vec![id(2), id(1), id(2)], id(2)).unwrap();
    assert_eq!(list_of(kept), [id(1)]);
    assert_eq!(save_exchange_id(None, vec![], id(1)).unwrap_err(), Error::NoIdentityToTrack);
    assert_eq!(delete_exchange_id(None, vec![], id(1)).unwrap_err(), Error::NoIdentity);
    assert_eq!(list_exchange_ids::<Error>(Ok(vec![id(1)])), [id(1)]);
    assert_eq!(list_exchange_ids(Err(Error::NotHere)), []);
    assert_eq!(load_exchange_context(Some(5)), Ok(5));
    assert_eq!(load_exchange_context::<u8>(None), Err(Error::NoExchangeDocument));
}

#[test]
fn registering_lists_and_reloads() {
    let service: ExchangeService<u8> = ExchangeService::new();
    let steps = service.add_context(id(3));
    assert!(matches!(steps[0], SetupAction::SaveId(i) if i == id(3)));
    assert!(matches!(steps[1], SetupAction::Reload(i) if i == id(3)));
    assert_eq!(steps.len(), 2);
}

#[test]
fn exchange_needs_an_identity() {
    let service: ExchangeService<u8> = ExchangeService::new();
    let (setup, action) = service.create_exchange(true);
    assert!(matches!(action, SetupAction::CreateDoc));
    assert!(!setup.waits_for(&SetupEvent::Done));
    let (setup, action) = setup.step(SetupEvent::Opened(id(1)));
    assert!(matches!(action, SetupAction::LoadIdentity));
    let (setup, action) = setup.step(SetupEvent::Identity(None));
    assert!(matches!(action, SetupAction::Fail(Error::NoIdentityForExchange)));
    assert!(!setup.waits_for(&SetupEvent::Done));
}

#[test]
fn picture_is_written_when_there_is_one() {
    let service: ExchangeService<u8> = ExchangeService::new();
    let (setup, action) = service.join_exchange("ticket".to_string(), false);
    assert!(matches!(action, SetupAction::ImportDoc(t) if t == "ticket"));
    let (setup, _) = setup.step(SetupEvent::Opened(id(1)));
    let (setup, action) = setup.step(SetupEvent::Identity(Some(named(7, "me"))));
    match action {
        SetupAction::Write(DocWrite::Save { author, key, record: Record::Identification(i) }) => {
            assert!(author == id(7) && key == "identification" && i.name == "me")
        }
        other => panic!("{:?}", other),
    }
    let (setup, action) = setup.step(SetupEvent::Done);
    assert!(matches!(action, SetupAction::FetchPic(pk) if pk == id(7)));
    let (setup, action) = setup.step(SetupEvent::Pic(Some(entry(7, b"x", 5))));
    match action {
        SetupAction::Write(DocWrite::SetHash { author, key, hash, .. }) => {
            assert!(author == id(7) && key == "files/id_pic" && hash == id(5))
        }
        other => panic!("{:?}", other),
    }
    let (setup, action) = setup.step(SetupEvent::Done);
    assert!(matches!(action, SetupAction::Start(i) if i == id(1)));
    let (_, action) = setup.step(SetupEvent::Done);
    assert!(matches!(action, SetupAction::Finish(i) if i == id(1)));
}

#[test]
fn mutual_exchange_carries_a_manifest() {
    let actions = mutual::create_exchange(id(1), Some(named(7, "me")), true).unwrap();
    assert_eq!(actions.len(), 6);
    match &actions[0] {
        SetupAction::Write(DocWrite::Save { key, record: Record::Manifest(m), .. }) => {
            assert!(key == "manifest.v1" && *m == mutual::ExchangeManifest::MutualBinary)
        }
        other => panic!("{:?}", other),
    }
    match &actions[1] {
        SetupAction::Write(DocWrite::Save { key, record: Record::Identification(i), .. }) => {
            assert!(key == "identification" && i.name == "me")
        }
        other => panic!("{:?}", other),
    }
    assert!(matches!(actions[2], SetupAction::Start(_)));
    assert!(matches!(actions[3], SetupAction::SaveId(_)));
    assert!(matches!(actions[4], SetupAction::Reload(_)));
    assert!(matches!(actions[5], SetupAction::Finish(_)));

    let joined = mutual::join_exchange(id(1), Some(named(7, "me")), false).unwrap();
    assert_eq!(joined.len(), 3);
    assert!(matches!(joined[0], SetupAction::Write(_)));
    let refused = mutual::create_exchange(id(1), None, true).unwrap_err();
    assert_eq!(refused, Error::NoIdentityForExchange);
    assert!(mutual::join_exchange(id(1), None, true).is_err());
}

#[test]
fn mutual_exchange_handles_its_document() {
    let mut context = mutual::ExchangeContext::new(id(9));
    let participants = mutual::SavedData::Participants(vec![named(1, "me")]);
    let messages = mutual::SavedData::Messages(vec![message(2, "b"), message(1, "a")]);
    assert!(context.awaits(&participants) && !context.awaits(&messages));
    assert!(context.initial_data_load::<Error>(participants, Ok(())).unwrap().is_none());
    assert!(matches!(
        context.initial_data_load::<Error>(messages, Ok(())),
        Ok(Some(mutual::ContextEvents::Loaded))
    ));
    assert_eq!(context.phase(), mutual::Phase::Live);
    assert!(matches!(
        context.on_live_event(local(b"identification", 1)),
        mutual::ContextStep::ReadIdentification(h) if h == id(1)
    ));
    assert!(matches!(
        context.on_live_event(local(b"messages/2015", 2)),
        mutual::ContextStep::ReadMessage(h) if h == id(2)
    ));
    for key in [&b"manifest.v1"[..], b"files/x", b"\xff"] {
        assert!(matches!(context.on_live_event(local(key, 3)), mutual::ContextStep::Idle));
    }
    let status = ContentStatus::Incomplete;
    let held = entry(2, b"messages/x", 4);
    let insert = LiveEvent::InsertRemote { from: id(2), entry: held, content_status: status };
    assert!(matches!(context.on_live_event(insert), mutual::ContextStep::Idle));
    let ready = LiveEvent::ContentReady { hash: id(4) };
    assert!(matches!(context.on_live_event(ready), mutual::ContextStep::ReadMessage(_)));
    assert!(matches!(
        context.on_live_event(LiveEvent::SyncFinished),
        mutual::ContextStep::Idle
    ));
    assert!(matches!(
        context.on_live_event(LiveEvent::NeighborUp(id(3))),
        mutual::ContextStep::Broadcast(mutual::ContextEvents::LiveConnectionsUpdated(1))
    ));
    assert!(matches!(
        context.on_live_event(LiveEvent::NeighborDown(id(3))),
        mutual::ContextStep::Broadcast(mutual::ContextEvents::LiveConnectionsUpdated(0))
    ));
    assert!(matches!(
        context.new_participant_joined(named(2, "you")),
        mutual::ContextEvents::Join(pk) if pk == id(2)
    ));
    assert!(matches!(
        context.new_message_received(message(3, "c")),
        mutual::ContextEvents::MessageReceived(m) if m.text == "c"
    ));
    let texts: Vec<String> = context.messages().into_iter().map(|m| m.text).collect();
    assert_eq!(texts, ["a", "b", "c"]);
    assert_eq!(context.participants().len(), 2);
    assert_eq!(context.live_connection_count(), 0);
    assert_eq!(context.id(), id(9));
    match mutual::ExchangeContext::send_message(&message(1431648000, "x")) {
        DocWrite::Save { key, .. } => assert_eq!(key, "messages/2015-05-15 00:00:00 UTC"),
        other => panic!("{:?}", other),
    }
}

#[test]
fn mutual_exchange_keeps_what_was_read_before_a_failure() {
    let mut context = mutual::ExchangeContext::new(id(9));
    let participants = mutual::SavedData::Participants(vec![named(1, "me")]);
    context.initial_data_load::<&str>(participants, Ok(())).unwrap();
    let messages = mutual::SavedData::Messages(vec![message(2, "b"), message(1, "a")]);
    assert_eq!(context.initial_data_load(messages, Err("gone")).unwrap_err(), "gone");
    assert_eq!(context.phase(), mutual::Phase::Ended);
    let texts: Vec<String> = context.messages().into_iter().map(|m| m.text).collect();
    assert_eq!(texts, ["b", "a"]);
    assert_eq!(context.participants().len(), 1);
}

#[test]
fn mutual_news_change_the_list() {
    let update = Some(mutual::Events::ExchangeListDidUpdate);
    let changes = |event: mutual::ContextEvents| mutual::watch_context_changes(&event);
    assert_eq!(changes(mutual::ContextEvents::Join(id(1))), update);
    assert_eq!(changes(mutual::ContextEvents::LiveConnectionsUpdated(2)), update);
    assert_eq!(changes(mutual::ContextEvents::Loaded), None);
    assert_eq!(changes(mutual::ContextEvents::MessageReceived(message(1, "x"))), None);
}
