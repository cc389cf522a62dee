//! The conversations with the application on given values.
use ghostlib::data::{DocWrite, Record, WideId};
use ghostlib::dispatch::blob::{hydrate, hydrate_end, hydrate_start, BlobDataState};
use ghostlib::dispatch::establish::{
    Action, EstablishConnectionActor, Event, Input, Reply, Step, Work,
};
use ghostlib::dispatch::establish_connection::{
    wait_for_other_participants, ConnectTask, Connecting, EstablishConnectionActions,
    EstablishConnectionEvents,
};
use ghostlib::dispatch::exchange::{
    action as exchange_action, connections_updated, file_updated, reload_messages, send_message,
    update_name, watch_exchange_context, ExchangeActions, ExchangeEvents, ExchangeTask,
};
use ghostlib::dispatch::global::{
    action as global_action, exchange_created, exchange_list_changed, identity_pic_updated,
    pic_owner, start, started, ExchangeSummary, GlobalActions, GlobalEvents, GlobalTask, StartStep,
};
use ghostlib::dispatch::{after_action, respond, EventWrapper, ResponderStep};
use ghostlib::exchange::context::ContextEvents;
use ghostlib::exchange::{Message, Timestamp};
use ghostlib::identity::Identification;
use ghostlib::live_doc::{Entry, File, LiveEvent};

fn id(n: u8) -> WideId {
    WideId::from([n; 32])
}

fn named(n: u8, name: &str) -> Identification {
    Identification { public_key: id(n), name: name.to_string() }
}

fn entry(author: u8, key: &str, hash: u8) -> Entry {
    Entry {
        author: id(author),
        key: key.as_bytes().to_vec(),
        content_hash: id(hash),
        content_len: 7,
    }
}

fn file(owner: u8, name: &str) -> File {
    File { owner: id(owner), blob: id(5), name: name.to_string(), size: 1, downloaded: true }
}

#[test]
fn responder_hears_until_it_is_let_go() {
    let queue = vec![
        EventWrapper::Event(1),
        EventWrapper::Error,
        EventWrapper::Event(2),
        EventWrapper::Unregister,
        EventWrapper::Event(3),
    ];
    let mut heard = vec![];
    for wrapped in queue {
        match respond(wrapped) {
            ResponderStep::Respond(event) => heard.push(event),
            ResponderStep::Report => {}
            ResponderStep::Stop => break,
        }
    }
    assert_eq!(heard, [1, 2]);
}

#[test]
fn failed_actions_are_reported() {
    assert!(matches!(after_action::<u8, _>(Err("x")), Some(EventWrapper::Error)));
    assert!(after_action::<u8, &str>(Ok(())).is_none());
}

#[test]
fn blobs_are_loaded() {
    assert!(hydrate(&Some(id(1))) && !hydrate(&None));
    assert!(matches!(hydrate_start(&Some(id(1))), Some(BlobDataState::Loading)));
    assert!(hydrate_start(&None).is_none());
    assert!(matches!(
        hydrate_end(id(1), Ok(vec![1, 2])),
        BlobDataState::Loaded(h, b) if h == id(1) && b == [1, 2]
    ));
    assert!(matches!(
        hydrate_end(id(1), Err("gone".to_string())),
        BlobDataState::Failed(r) if r == "gone"
    ));
}

#[test]
fn messages_are_shown() {
    let at = Timestamp::new(1, 0).unwrap();
    let messages = vec![Message::dated(&id(1), at, "mine"), Message::dated(&id(2), at, "yours")];
    match reload_messages(&messages, &id(1)) {
        ExchangeEvents::MessagesReloaded { messages } => {
            assert_eq!(messages.len(), 2);
            assert!(messages[0].id == 0 && messages[0].text == "mine" && messages[0].is_self);
            assert!(messages[1].id == 1 && messages[1].text == "yours" && !messages[1].is_self);
        }
        other => panic!("{:?}", other),
    }
}

#[test]
fn text_is_sent_as_a_message() {
    match send_message("hello", &id(1)) {
        DocWrite::Save { author, key, record: Record::Message(m) } => {
            assert!(author == id(1) && m.pk == id(1) && m.text == "hello");
            assert_eq!(key, format!("messages/{}", m.date.to_text()));
            assert!(m.date.parts().0 > 1_700_000_000);
        }
        other => panic!("{:?}", other),
    }
}

#[test]
fn exchange_goes_by_the_name_of_the_other() {
    assert!(matches!(
        update_name(vec![named(1, "me"), named(2, "you")], &id(1)),
        ExchangeEvents::NameChanged(n) if n == "you"
    ));
    assert!(matches!(
        update_name(vec![named(1, "me")], &id(1)),
        ExchangeEvents::NameChanged(n) if n == "loading"
    ));
}

#[test]
fn only_the_picture_of_the_other_is_news() {
    assert!(file_updated(file(2, "files/id_pic"), &id(1)).is_some());
    assert!(file_updated(file(1, "files/id_pic"), &id(1)).is_none());
    assert!(file_updated(file(2, "files/x"), &id(1)).is_none());
}

#[test]
fn exchange_is_watched() {
    assert!(matches!(
        watch_exchange_context(ContextEvents::LiveConnectionsUpdated(0x1_0000_0002)),
        Some(ExchangeTask::Send(ExchangeEvents::LiveConnectionsUpdated { count: 2 }))
    ));
    assert!(matches!(
        watch_exchange_context(ContextEvents::FileUpdated(file(1, "x"))),
        Some(ExchangeTask::FileUpdated(_))
    ));
    let message = Message::new(&id(1), "x");
    assert!(matches!(
        watch_exchange_context(ContextEvents::MessageReceived(message)),
        Some(ExchangeTask::ReloadMessages)
    ));
    assert!(watch_exchange_context(ContextEvents::Join(id(1))).is_none());
    assert!(matches!(
        connections_updated(3),
        ExchangeEvents::LiveConnectionsUpdated { count: 3 }
    ));
    let tasks = exchange_action(ExchangeActions::Start);
    assert!(matches!(
        tasks[..],
        [
            ExchangeTask::Watch,
            ExchangeTask::UpdateName,
            ExchangeTask::ReloadMessages,
            ExchangeTask::CountConnections
        ]
    ));
    let tasks = exchange_action(ExchangeActions::SendMessage { text: "hi".to_string() });
    assert!(matches!(&tasks[..], [ExchangeTask::SendMessage(t)] if t == "hi"));
}

#[test]
fn node_starts_with_an_identity() {
    assert!(matches!(start(None), StartStep::Send(GlobalEvents::IdentityNeeded)));
    assert!(matches!(start(Some(named(1, "me"))), StartStep::Reload(i) if i.name == "me"));
    let events = started(named(1, "me"), Some(id(5)));
    assert!(matches!(
        events[..],
        [GlobalEvents::IdentityPicUpdate(_), GlobalEvents::IdentitySelected(_)]
    ));
    let events = started(named(1, "me"), None);
    assert!(matches!(events[..], [GlobalEvents::IdentitySelected(_)]));
}

#[test]
fn exchanges_are_listed_for_the_application() {
    let known = ExchangeSummary {
        id: id(1),
        participants: vec![named(7, "me"), named(8, "you")],
        pic: Some(id(5)),
        connections: 2,
    };
    let unknown = ExchangeSummary {
        id: id(255),
        participants: vec![named(7, "me")],
        pic: None,
        connections: 0x1_0000_0001,
    };
    assert_eq!(pic_owner(&known.participants, &id(7)), Some(id(8)));
    assert_eq!(pic_owner(&unknown.participants, &id(7)), None);
    match exchange_list_changed(&vec![known, unknown], &id(7)) {
        GlobalEvents::ExchangeListChanged(items) => {
            assert_eq!(items.len(), 2);
            assert!(items[0].id == id(1) && items[0].label == "you");
            assert!(items[0].pic == Some(id(5)) && items[0].connections == 2);
            assert_eq!(items[1].label, "loading... (777777");
            assert!(items[1].pic.is_none() && items[1].connections == 1);
        }
        other => panic!("{:?}", other),
    }
}

#[test]
fn node_does_what_is_asked() {
    assert!(matches!(
        global_action(GlobalActions::Start)[..],
        [GlobalTask::WatchExchanges, GlobalTask::Start]
    ));
    assert!(matches!(
        &global_action(GlobalActions::CreateIdentity("me".to_string()))[..],
        [GlobalTask::CreateIdentity(n), GlobalTask::Start] if n == "me"
    ));
    assert!(matches!(
        global_action(GlobalActions::CreateExchange)[..],
        [GlobalTask::CreateExchange]
    ));
    assert!(matches!(
        global_action(GlobalActions::DeleteExchange(id(1)))[..],
        [GlobalTask::DeleteExchange(i)] if i == id(1)
    ));
    assert!(matches!(global_action(GlobalActions::WakeFromSleep)[..], [GlobalTask::SyncAll]));
    assert!(matches!(
        &global_action(GlobalActions::SetIdentityPic(vec![1]))[..],
        [GlobalTask::SetPic(b), GlobalTask::ReloadPics, GlobalTask::SendPic] if b[..] == [1]
    ));
}

#[test]
fn node_tells_what_was_made() {
    assert!(matches!(exchange_created(id(4)), GlobalEvents::ExchangeCreated(i) if i == id(4)));
    assert!(matches!(
        identity_pic_updated(id(5)),
        GlobalEvents::IdentityPicUpdate(h) if h == id(5)
    ));
}

#[test]
fn ticket_is_handed_out() {
    let mut connecting: Connecting<&str> = Connecting::new();
    assert!(!connecting.has_exchange());
    assert!(matches!(
        connecting.action(EstablishConnectionActions::Start),
        ConnectTask::Nothing
    ));
    assert!(matches!(
        connecting.action(EstablishConnectionActions::GenerateJoinTicket),
        ConnectTask::CreateExchange
    ));
    let tasks = connecting.exchange_created("handle", "ticket".to_string());
    assert!(matches!(
        &tasks[..],
        [
            ConnectTask::Watch,
            ConnectTask::Send(EstablishConnectionEvents::JoinTicketGenerated(t))
        ] if t == "ticket"
    ));
    assert!(connecting.has_exchange());
    assert!(matches!(
        connecting.action(EstablishConnectionActions::AcceptConnection),
        ConnectTask::AddContext("handle", EstablishConnectionEvents::ConnectionConfirmed)
    ));
    assert!(!connecting.has_exchange());
}

#[test]
fn ticket_is_taken() {
    let mut connecting: Connecting<u8> = Connecting::new();
    let asked = EstablishConnectionActions::ReceivedJoinTicket("ticket".to_string());
    assert!(matches!(connecting.action(asked), ConnectTask::JoinExchange(t) if t == "ticket"));
    let tasks = connecting.exchange_joined(1, vec![named(7, "me"), named(8, "you")], &id(7));
    assert!(matches!(
        &tasks[..],
        [ConnectTask::Send(EstablishConnectionEvents::ConnectionEstablished(i))]
            if i.name == "you"
    ));
    let tasks = connecting.exchange_joined(2, vec![named(7, "me")], &id(7));
    assert!(matches!(
        tasks[..],
        [ConnectTask::Send(EstablishConnectionEvents::AttemptingJoin), ConnectTask::Watch]
    ));
    assert!(matches!(
        connecting.action(EstablishConnectionActions::RejectConnection),
        ConnectTask::ShutDown(2, EstablishConnectionEvents::ConnectionRejected)
    ));
    assert!(!connecting.has_exchange());
}

#[test]
fn other_participant_is_awaited() {
    let list = || vec![named(7, "me"), named(8, "you")];
    let me = ContextEvents::Join(id(7));
    assert!(wait_for_other_participants(&me, list(), &id(7)).is_none());
    assert!(wait_for_other_participants(&ContextEvents::Loaded, list(), &id(7)).is_none());
    let you = ContextEvents::Join(id(8));
    assert!(matches!(
        wait_for_other_participants(&you, list(), &id(7)),
        Some(EstablishConnectionEvents::ConnectionEstablished(i)) if i.name == "you"
    ));
}

fn go(actor: &mut EstablishConnectionActor, input: Input) -> Step {
    assert!(actor.awaits(&input));
    actor.step(input)
}

fn reply(actor: &mut EstablishConnectionActor, reply: Reply) -> Step {
    go(actor, Input::Replied(reply))
}

fn live(actor: &mut EstablishConnectionActor, entry: Entry) -> Step {
    go(actor, Input::Live(LiveEvent::InsertLocal { entry }))
}

/// Lets `actor` introduce itself on the document `doc`.
fn introduce(actor: &mut EstablishConnectionActor, pic: Option<Entry>) -> Step {
    let has_pic = pic.is_some();
    let step = reply(actor, Reply::Doc(id(9)));
    assert!(matches!(step.work, Work::LoadIdentification(pk) if pk == id(7)));
    let step = reply(actor, Reply::Identification(named(7, "me")));
    match step.work {
        Work::Write(DocWrite::Save { author, key, record: Record::Identification(i) }) => {
            assert!(author == id(7) && key == "id" && i.name == "me")
        }
        other => panic!("{:?}", other),
    }
    let step = reply(actor, Reply::Done);
    assert!(matches!(step.work, Work::LoadPic(pk) if pk == id(7)));
    let step = reply(actor, Reply::Pic(pic));
    if !has_pic {
        return step;
    }
    match step.work {
        Work::Write(DocWrite::SetHash { author, key, hash, .. }) => {
            assert!(author == id(7) && key == "id_pic" && hash == id(5))
        }
        other => panic!("{:?}", other),
    }
    reply(actor, Reply::Done)
}

#[test]
fn the_one_who_invites_meets_the_other() {
    let (mut actor, step) = EstablishConnectionActor::start(id(7));
    assert!(matches!(step.events[..], [Event::Reset]));
    assert!(matches!(step.work, Work::Wait));
    assert!(!actor.awaits(&Input::Asked(Action::AcceptConnection)));
    assert!(!actor.awaits(&Input::Asked(Action::RejectConnection)));

    let step = go(&mut actor, Input::Asked(Action::GenerateJoinTicket));
    assert!(matches!(step.work, Work::CreateDoc));
    let step = introduce(&mut actor, Some(entry(7, "x", 5)));
    assert!(matches!(step.work, Work::SubscribeDoc(d) if d == id(9)));
    let step = reply(&mut actor, Reply::Done);
    assert!(matches!(step.work, Work::ShareDoc(d) if d == id(9)));
    let step = reply(&mut actor, Reply::Ticket("doc".to_string()));
    assert!(matches!(&step.events[..], [Event::JoinTicketGenerated(t)] if t == "doc"));

    let step = go(&mut actor, Input::Asked(Action::GenerateJoinTicket));
    assert!(matches!(step.work, Work::ShareDoc(_)));
    reply(&mut actor, Reply::Ticket("doc".to_string()));

    let step = live(&mut actor, entry(7, "id", 1));
    assert!(step.events.is_empty() && matches!(step.work, Work::Wait));
    let step = live(&mut actor, entry(8, "id_pic", 5));
    assert!(matches!(step.events[..], [Event::PicLoaded(h)] if h == id(5)));
    let step = live(&mut actor, entry(8, "id", 1));
    assert!(matches!(step.work, Work::ReadIdentification(h) if h == id(1)));
    let step = reply(&mut actor, Reply::Identification(named(8, "you")));
    assert!(matches!(&step.events[..], [Event::IdentityLoaded(i)] if i.name == "you"));
    let step = live(&mut actor, entry(8, "exchange_ticket", 2));
    assert!(matches!(step.work, Work::ReadBytes(h) if h == id(2)));
    let step = reply(&mut actor, Reply::Bytes(b"exchange".to_vec()));
    assert!(matches!(step.events[..], [Event::ConnectionEstablished]));
    let step = live(&mut actor, entry(8, "other", 3));
    assert!(matches!(step.events[..], [Event::ConnectionEstablished]));

    let step = go(&mut actor, Input::Asked(Action::AcceptConnection));
    assert!(matches!(step.work, Work::JoinExchange(t) if t == "exchange"));
    let step = reply(&mut actor, Reply::Exchange(id(4)));
    assert!(matches!(step.work, Work::Listen(e) if e == id(4)));
    let step = reply(&mut actor, Reply::News(Some(ContextEvents::Join(id(7)))));
    assert!(matches!(step.work, Work::Listen(_)));
    let step = reply(&mut actor, Reply::News(Some(ContextEvents::Loaded)));
    assert!(matches!(step.work, Work::Listen(_)));
    let step = reply(&mut actor, Reply::News(Some(ContextEvents::Join(id(8)))));
    assert!(matches!(step.work, Work::AddContext(e) if e == id(4)));
    let step = reply(&mut actor, Reply::Done);
    assert!(matches!(step.events[..], [Event::ConnectionConfirmed]));
    assert!(matches!(step.work, Work::LeaveDoc(d) if d == id(9)));
    let step = reply(&mut actor, Reply::Done);
    assert!(matches!(step.work, Work::DropDoc(d) if d == id(9)));
    let step = reply(&mut actor, Reply::Done);
    assert!(matches!(step.events[..], [Event::Reset]));
    assert!(matches!(step.work, Work::Wait));
    assert!(!actor.awaits(&Input::Asked(Action::AcceptConnection)));
}

/// The one who was invited, with its exchange on the document.
fn invited() -> EstablishConnectionActor {
    let (mut actor, _) = EstablishConnectionActor::start(id(7));
    let asked = Action::ReceivedJoinTicket("doc".to_string());
    let step = go(&mut actor, Input::Asked(asked));
    assert!(matches!(step.work, Work::ImportDoc(t) if t == "doc"));
    let step = introduce(&mut actor, None);
    assert!(matches!(step.work, Work::CreateExchange));
    let step = reply(&mut actor, Reply::Exchange(id(4)));
    assert!(matches!(step.work, Work::ShareExchange(e) if e == id(4)));
    let step = reply(&mut actor, Reply::Ticket("exchange".to_string()));
    match step.work {
        Work::Write(DocWrite::SetBytes { author, key, text }) => {
            assert!(author == id(7) && key == "exchange_ticket" && text == "exchange")
        }
        other => panic!("{:?}", other),
    }
    let step = reply(&mut actor, Reply::Done);
    assert!(matches!(step.work, Work::SubscribeDoc(d) if d == id(9)));
    let step = reply(&mut actor, Reply::Done);
    assert!(matches!(step.work, Work::Wait));
    actor
}

#[test]
fn the_one_who_was_invited_waits_on_its_exchange() {
    let mut actor = invited();
    live(&mut actor, entry(8, "id", 1));
    let step = reply(&mut actor, Reply::Identification(named(8, "you")));
    assert!(matches!(
        &step.events[..],
        [Event::IdentityLoaded(_), Event::ConnectionEstablished]
    ));
    let step = go(&mut actor, Input::Asked(Action::AcceptConnection));
    assert!(matches!(step.work, Work::Listen(e) if e == id(4)));
    let step = reply(&mut actor, Reply::News(Some(ContextEvents::SyncFinished)));
    assert!(matches!(
        &step.events[..],
        [Event::ConnectionFailed(r)] if r == "Other participant failed to join"
    ));
    assert!(matches!(step.work, Work::LeaveDoc(_)));
}

#[test]
fn exchange_that_falls_silent_fails() {
    let mut actor = invited();
    go(&mut actor, Input::Asked(Action::AcceptConnection));
    let step = reply(&mut actor, Reply::News(None));
    assert!(matches!(&step.events[..], [Event::ConnectionFailed(_)]));
}

#[test]
fn connection_is_rejected() {
    let mut actor = invited();
    let step = go(&mut actor, Input::Asked(Action::RejectConnection));
    assert!(matches!(step.work, Work::LeaveDoc(d) if d == id(9)));
    reply(&mut actor, Reply::Done);
    let step = reply(&mut actor, Reply::Done);
    assert!(matches!(step.events[..], [Event::Reset]));
}

#[test]
fn second_invitation_ends_the_conversation() {
    let mut actor = invited();
    let asked = Action::ReceivedJoinTicket("other".to_string());
    let step = go(&mut actor, Input::Asked(asked));
    assert!(matches!(step.work, Work::Stop));
    assert!(!actor.awaits(&Input::Closed));
}

#[test]
fn sync_without_neighbors_times_out() {
    let mut actor = invited();
    let step = go(&mut actor, Input::Live(LiveEvent::SyncFinished));
    assert!(matches!(
        &step.events[..],
        [Event::ConnectionFailed(r)] if r == "Timed out waiting for connection"
    ));
    go(&mut actor, Input::Live(LiveEvent::NeighborUp(id(8))));
    go(&mut actor, Input::Live(LiveEvent::NeighborDown(id(8))));
    let step = go(&mut actor, Input::Live(LiveEvent::SyncFinished));
    assert!(step.events.is_empty());
}

#[test]
fn failures_end_the_conversation() {
    let (mut actor, _) = EstablishConnectionActor::start(id(7));
    go(&mut actor, Input::Asked(Action::GenerateJoinTicket));
    assert!(!actor.awaits(&Input::Replied(Reply::Done)));
    assert!(!actor.awaits(&Input::Asked(Action::GenerateJoinTicket)));
    let step = reply(&mut actor, Reply::Failed);
    assert!(step.events.is_empty() && matches!(step.work, Work::Fail));
    assert!(!actor.awaits(&Input::Closed));

    let (mut actor, _) = EstablishConnectionActor::start(id(7));
    assert!(matches!(go(&mut actor, Input::Closed).work, Work::Stop));
}

#[test]
fn unknown_entries_before_anyone_is_known_say_nothing() {
    let (mut actor, _) = EstablishConnectionActor::start(id(7));
    let step = live(&mut actor, entry(8, "other", 3));
    assert!(step.events.is_empty() && matches!(step.work, Work::Wait));
}
