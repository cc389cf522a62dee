//! Identifiers, dates, keys, entries and errors on given values.
use ghostlib::data::{
    found_content, load_from_doc_at_key, save_on_doc_as_key, wideid_to_string, DocLookup, DocWrite,
    Record, WideId,
};
use ghostlib::error::Error;
use ghostlib::exchange::context::{file_key, ExchangeContext};
use ghostlib::exchange::order::sort_by_date;
use ghostlib::exchange::{make_message_key, Message, Timestamp, ID_PIC};
use ghostlib::identity::{
    identification_key, Identification, ParticipantList, Service as IdentityService,
    ASSUMED_IDENTITY_KEY,
};
use ghostlib::live_doc::{
    BlobStatus, ContentReadyProcessor, ContentStatus, Entry, FileReadWriter,
    IdentificationReadWriter, LiveEvent, MessagesReadWriter,
};
use ghostlib::settings::{Service as SettingsService, SettingsAction, SettingsEvent};
use ghostlib::text::{join, same_text, starts_with};

fn id(n: u8) -> WideId {
    WideId::from([n; 32])
}

fn counting() -> [u8; 32] {
    let mut bytes = [0u8; 32];
    for i in 0..32 {
        bytes[i] = i as u8;
    }
    bytes
}

fn entry(author: u8, key: &[u8], hash: u8) -> Entry {
    Entry { author: id(author), key: key.to_vec(), content_hash: id(hash), content_len: 7 }
}

fn message(secs: i64, text: &str) -> Message {
    Message::dated(&id(1), Timestamp::new(secs, 0).unwrap(), text)
}

#[test]
fn bytes_come_back() {
    let wide = WideId::from(counting());
    assert_eq!(wide.to_bytes(), counting());
    assert_eq!(wide.as_bytes(), counting());
    let owned: [u8; 32] = wide.into();
    let borrowed: [u8; 32] = (&wide).into();
    assert_eq!(owned, counting());
    assert_eq!(borrowed, counting());
    assert_eq!(WideId::from_bytes(&counting()), wide);
    assert_ne!(id(1), id(2));
}

#[test]
fn identifiers_are_written_in_base32() {
    assert_eq!(
        wideid_to_string(WideId::from(counting())),
        "aaaqeayeaudaocajbifqydiob4ibceqtcqkrmfyydenbwha5dypq"
    );
    assert_eq!(
        wideid_to_string(id(0)),
        "aaaaaaaaaaaaaaaaaaaaaaaaaaaaaaaaaaaaaaaaaaaaaaaaaaaa"
    );
    assert_eq!(
        wideid_to_string(id(255)),
        "777777777777777777777777777777777777777777777777777q"
    );
}

#[test]
fn identifiers_are_shown_as_their_text() {
    for wide in [WideId::from(counting()), id(0), id(255)] {
        assert_eq!(format!("{wide}"), wideid_to_string(wide));
        assert_eq!(format!("{wide:?}"), wideid_to_string(wide));
        assert_eq!(wide.to_string(), wideid_to_string(wide));
    }
}

#[test]
fn participants_and_messages_are_compared() {
    let iden = |name: &str| Identification { public_key: id(1), name: name.to_string() };
    assert_eq!(iden("me"), iden("me"));
    assert_ne!(iden("me"), iden("you"));
    assert_eq!(message(1, "a"), message(1, "a"));
    assert_ne!(message(1, "a"), message(2, "a"));
}

#[test]
fn dates_are_written_out() {
    assert_eq!(Timestamp::new(1431648000, 0).unwrap().to_text(), "2015-05-15 00:00:00 UTC");
    assert_eq!(
        Timestamp::new(1431648000, 10_000_000).unwrap().to_text(),
        "2015-05-15 00:00:00.010 UTC"
    );
    assert_eq!(Timestamp::new(-1, 0).unwrap().to_text(), "1969-12-31 23:59:59 UTC");
    assert_eq!(
        Timestamp::new(1435708799, 1_000_000_000).unwrap().to_text(),
        "2015-06-30 23:59:60 UTC"
    );
}

#[test]
fn dates_have_bounds() {
    let first = Timestamp::new(-8_334_601_228_800, 0).unwrap();
    let last = Timestamp::new(8_210_266_876_799, 1_999_999_999).unwrap();
    assert_eq!(first.to_text(), "-262143-01-01 00:00:00 UTC");
    assert_eq!(last.to_text(), "+262142-12-31 23:59:60.999999999 UTC");
    assert!(Timestamp::new(-8_334_601_228_801, 0).is_none());
    assert!(Timestamp::new(8_210_266_876_800, 0).is_none());
    assert!(Timestamp::new(0, 1_000_000_000).is_none());
    assert!(Timestamp::new(59, 2_000_000_000).is_none());
    assert!(Timestamp::new(-1, 1_000_000_000).is_some());
    assert!(Timestamp::new(-2, 1_000_000_000).is_none());
}

#[test]
fn dates_are_ordered() {
    let a = Timestamp::new(5, 7).unwrap();
    let b = Timestamp::new(5, 8).unwrap();
    let c = Timestamp::new(6, 0).unwrap();
    assert!(a.is_before(&b) && b.is_before(&c) && a.is_before(&c));
    assert!(!b.is_before(&a) && !a.is_before(&a));
    assert_eq!(a.parts(), (5, 7));
}

#[test]
fn new_messages_are_of_this_moment() {
    let first = Message::new(&id(1), "hello");
    let second = Message::new(&id(1), "hello");
    assert_eq!(first.text, "hello");
    assert_eq!(first.pk, id(1));
    assert!(first.date.parts().0 > 1_700_000_000);
    assert!(!second.date.is_before(&first.date));
}

#[test]
fn keys_are_built() {
    assert_eq!(make_message_key(&message(1431648000, "x")), "messages/2015-05-15 00:00:00 UTC");
    assert_eq!(
        identification_key(&id(0)),
        "identity/identification//aaaaaaaaaaaaaaaaaaaaaaaaaaaaaaaaaaaaaaaaaaaaaaaaaaaa"
    );
    assert_eq!(file_key("notes.txt"), "files/notes.txt");
    assert_eq!(file_key("id_pic"), ID_PIC);
}

#[test]
fn keys_tell_identities_apart() {
    assert_ne!(identification_key(&id(1)), identification_key(&id(2)));
    assert_ne!(identification_key(&id(1)), ASSUMED_IDENTITY_KEY);
}

#[test]
fn text_is_compared() {
    assert!(same_text("a", "a") && !same_text("a", "ab"));
    assert!(starts_with("messages/x", "messages") && starts_with("a", ""));
    assert!(!starts_with("mess", "messages") && !starts_with("files", "messages"));
    assert_eq!(join("a", "b"), "ab");
}

#[test]
fn messages_are_sorted_by_date() {
    let mut messages = vec![
        message(30, "d"),
        message(10, "a"),
        message(20, "b"),
        message(20, "c"),
        message(10, "a2"),
    ];
    sort_by_date(&mut messages);
    let texts: Vec<&str> = messages.iter().map(|m| m.text.as_str()).collect();
    assert_eq!(texts, ["a", "a2", "b", "c", "d"]);
}

#[test]
fn later_messages_stay_behind() {
    let mut messages = vec![message(10, "a"), message(20, "b")];
    messages.push(message(20, "c"));
    sort_by_date(&mut messages);
    let texts: Vec<&str> = messages.iter().map(|m| m.text.as_str()).collect();
    assert_eq!(texts, ["a", "b", "c"]);
}

#[test]
fn lookups_name_key_and_author() {
    match load_from_doc_at_key(Some(&id(1)), "k") {
        DocLookup::Exact { author, key } => assert!(author == id(1) && key == "k"),
        other => panic!("{:?}", other),
    }
    match load_from_doc_at_key(None, "k") {
        DocLookup::Any { key } => assert_eq!(key, "k"),
        other => panic!("{:?}", other),
    }
    match save_on_doc_as_key(&id(1), "k", Record::PublicKey(id(2))) {
        DocWrite::Save { author, key, record: Record::PublicKey(pk) } => {
            assert!(author == id(1) && key == "k" && pk == id(2))
        }
        other => panic!("{:?}", other),
    }
    assert_eq!(found_content(Some(&entry(1, b"k", 9))), Ok(id(9)));
    assert_eq!(found_content(None), Err(Error::NotHere));
}

#[test]
fn shared_file_is_looked_up() {
    let write = ExchangeContext::file_write(id(1), "id_pic", &entry(1, b"x", 9));
    let lookup = ExchangeContext::get_file(&id(1), ID_PIC);
    match (write, lookup) {
        (
            DocWrite::SetHash { author, key, hash, size },
            DocLookup::Exact { author: owner, key: asked },
        ) => {
            assert!(author == owner && key == asked);
            assert!(hash == id(9) && size == 7);
        }
        other => panic!("{:?}", other),
    }
}

#[test]
fn errors_have_words() {
    let words = [
        (Error::NotHere, "not here"),
        (Error::NoIdentityForExchange, "cant create exchange with no assumed identity"),
        (Error::NoIdentityToTrack, "no assumed identity, cant save exchange"),
        (Error::NoIdentity, "no assumed identity"),
        (Error::ExchangeNotFound, "exchange not found"),
        (Error::NoExchangeDocument, "No exchange document to load"),
        (Error::BadKey("bad".to_string()), "bad"),
    ];
    for (error, text) in words {
        assert_eq!(error.message(), text);
    }
}

#[test]
fn other_participant_is_the_first_who_is_not_me() {
    let named = |n: u8, name: &str| Identification { public_key: id(n), name: name.to_string() };
    let list = vec![named(1, "me"), named(2, "you"), named(3, "them")];
    assert_eq!(list.clone().get_other(&id(1)).unwrap().name(), "you");
    assert_eq!(list.get_other(&id(2)).unwrap().name(), "me");
    assert!(vec![named(1, "me")].get_other(&id(1)).is_none());
    assert!(Vec::<Identification>::new().get_other(&id(1)).is_none());
}

#[test]
fn other_participant_of_joined_lists() {
    let named = |n: u8, name: &str| Identification { public_key: id(n), name: name.to_string() };
    let join = |a: &[Identification], b: &[Identification]| [a, b].concat().get_other(&id(1));
    let (me, you, them) = (named(1, "me"), named(2, "you"), named(3, "them"));
    let found = join(&[me.clone(), you.clone()], &[them.clone()]);
    assert_eq!(found, Some(you));
    assert_eq!(join(&[me.clone()], &[me.clone(), them.clone()]), Some(them));
    assert_eq!(join(&[me.clone()], &[me]), None);
}

#[test]
fn failed_loads_and_saves_change_nothing() {
    let mut identity = IdentityService::new();
    assert!(identity.assumed_identity().is_none());
    identity.load_assumed_identity(Err(Error::NotHere));
    assert_eq!(identity.assumed_identity_pk(), None);
    assert_eq!(identity.set_assumed_identity_pk(id(1), Err("full")), Err("full"));
    assert_eq!(identity.assumed_identity_pk(), None);
    assert_eq!(identity.set_assumed_identity_pk::<&str>(id(1), Ok(())), Ok(()));
    assert_eq!(identity.assumed_identity_pk(), Some(id(1)));
    identity.load_assumed_identity(Err(Error::NotHere));
    assert_eq!(identity.assumed_identity_pk(), Some(id(1)));
    identity.load_assumed_identity::<Error>(Ok(id(2)));
    assert_eq!(identity.assumed_identity_pk(), Some(id(2)));
}

fn remote(entry: Entry, content_status: ContentStatus) -> LiveEvent {
    LiveEvent::InsertRemote { from: id(8), entry, content_status }
}

#[test]
fn entries_wait_for_their_blobs() {
    let mut waiting = ContentReadyProcessor::new();
    let arrive = |hash: u8| LiveEvent::ContentReady { hash: id(hash) };
    assert!(waiting.process_event(LiveEvent::InsertLocal { entry: entry(1, b"a", 1) }).is_some());
    assert!(waiting.process_event(remote(entry(1, b"b", 2), ContentStatus::Complete)).is_some());
    assert!(waiting.process_event(remote(entry(1, b"c", 3), ContentStatus::Missing)).is_none());
    assert!(waiting.process_event(remote(entry(1, b"d", 4), ContentStatus::Incomplete)).is_none());
    assert!(waiting.process_event(arrive(9)).is_none());
    assert!(waiting.process_event(LiveEvent::NeighborUp(id(1))).is_none());
    assert!(waiting.process_event(LiveEvent::SyncFinished).is_none());
    assert_eq!(waiting.process_event(arrive(3)).unwrap().key, b"c");
    assert!(waiting.process_event(arrive(3)).is_none());
    assert_eq!(waiting.process_event(arrive(4)).unwrap().key, b"d");
}

#[test]
fn entry_that_waits_gives_way() {
    let mut waiting = ContentReadyProcessor::new();
    waiting.register_incomplete(entry(1, b"first", 3));
    waiting.register_incomplete(entry(1, b"second", 3));
    let ready = waiting.process_event(LiveEvent::ContentReady { hash: id(3) });
    assert_eq!(ready.unwrap().key, b"second");
    assert!(waiting.process_event(LiveEvent::ContentReady { hash: id(3) }).is_none());
}

#[test]
fn entries_are_recognised_by_their_keys() {
    let iden = IdentificationReadWriter { key_path: "identification" };
    let messages = MessagesReadWriter { key_prefix: "messages" };
    let files = FileReadWriter { key_prefix: "files" };
    let e = entry(1, b"", 9);
    assert_eq!(iden.content_ready("identification", &e), Some(id(9)));
    assert_eq!(iden.content_ready("identification2", &e), None);
    assert_eq!(messages.content_ready("messages/now", &e), Some(id(9)));
    assert_eq!(messages.content_ready("message", &e), None);
    let file = files.content_ready("files/a", &e).unwrap();
    assert!(file.owner == id(1) && file.blob == id(9) && file.name == "files/a");
    assert!(file.size == 7 && file.downloaded);
    assert!(files.content_ready("other/a", &e).is_none());
}

#[test]
fn files_are_listed_with_their_status() {
    let files = FileReadWriter { key_prefix: "files" };
    let all = files.get_all(&vec![
        (entry(1, b"files/a", 1), BlobStatus::Complete),
        (entry(2, b"files/\xffb", 2), BlobStatus::Partial),
        (entry(3, b"files/c", 3), BlobStatus::NotFound),
    ]);
    let names: Vec<&str> = all.iter().map(|f| f.name.as_str()).collect();
    assert_eq!(names, ["files/a", "files/\u{FFFD}b", "files/c"]);
    let downloaded: Vec<bool> = all.iter().map(|f| f.downloaded).collect();
    assert_eq!(downloaded, [true, false, false]);
    assert_eq!(all[1].owner, id(2));
}

#[test]
fn short_settings_file_is_filled_up() {
    let mut settings = SettingsService::new();
    settings.settings_doc(SettingsEvent::Asked);
    assert!(matches!(
        settings.settings_doc(SettingsEvent::Checked(true)),
        SettingsAction::ReadFile
    ));
    assert!(!settings.waits_for(&SettingsEvent::Read(Some(vec![0; 33]))));
    let mut expected = [0u8; 32];
    expected[0] = 5;
    expected[1] = 6;
    match settings.settings_doc(SettingsEvent::Read(Some(vec![5, 6]))) {
        SettingsAction::Open(id) => assert_eq!(id.to_bytes(), expected),
        other => panic!("{:?}", other),
    }
    assert!(matches!(settings.settings_doc(SettingsEvent::Opened(false)), SettingsAction::Fail));
    assert_eq!(settings.namespace(), None);
    assert!(matches!(settings.settings_doc(SettingsEvent::Asked), SettingsAction::CheckFile));
}

#[test]
fn unreadable_settings_file_fails() {
    let mut settings = SettingsService::new();
    settings.identity_doc(SettingsEvent::Asked);
    settings.identity_doc(SettingsEvent::Checked(true));
    assert!(matches!(settings.identity_doc(SettingsEvent::Read(None)), SettingsAction::Fail));
}

#[test]
fn settings_document_is_remembered() {
    let mut settings = SettingsService::new();
    settings.settings_doc(SettingsEvent::Asked);
    settings.settings_doc(SettingsEvent::Checked(false));
    let wide = WideId::from(counting());
    let file = match settings.settings_doc(SettingsEvent::Created(wide)) {
        SettingsAction::WriteFile(bytes) => bytes.to_vec(),
        other => panic!("{:?}", other),
    };
    settings.settings_doc(SettingsEvent::Saved);
    assert_eq!(settings.namespace(), Some(wide));

    let mut again = SettingsService::new();
    again.settings_doc(SettingsEvent::Asked);
    again.settings_doc(SettingsEvent::Checked(true));
    match again.settings_doc(SettingsEvent::Read(Some(file))) {
        SettingsAction::Open(id) => assert_eq!(id, wide),
        other => panic!("{:?}", other),
    }
    assert!(matches!(again.settings_doc(SettingsEvent::Opened(true)), SettingsAction::Use(_)));
    assert!(matches!(again.settings_doc(SettingsEvent::Asked), SettingsAction::Use(_)));
}
