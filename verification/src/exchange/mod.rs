//! Exchanges: documents that participants share, and what they write on them.
use crate::data::PublicKey;
use crate::text::join;
use vstd::prelude::*;

pub mod connections;
pub mod context;
pub mod mutual;
pub mod order;
pub mod service;
pub mod setup;

pub use service::Events as ExchangeServiceEvent;
pub use service::Service as ExchangeService;

verus! {

/// Where an exchange keeps its manifest.
pub const MANIFEST_KEY: &'static str = "manifest.v1";

/// Where each participant of an exchange keeps its identification.
pub const IDENTIFICATION_KEY: &'static str = "identification";

/// Where the files of an exchange are kept.
pub const FILE_KEY_PREFIX: &'static str = "files";

/// Where each participant of an exchange keeps its picture.
pub const ID_PIC: &'static str = "files/id_pic";

/// Where the messages of an exchange are kept.
pub const MESSAGE_KEY_PREFIX: &'static str = "messages";

/// Where a node keeps the list of its exchanges, on its settings document.
pub const SETTINGS_EXCHANGES_LIST_KEY: &'static str = "exchange/tracked_exchanges";

/// Whether there is a UTC date of `secs` seconds and `nanos` nanoseconds since the
/// Unix epoch: the years -262143 to 262142, with nanoseconds beyond a second only
/// in the last second of a minute, for leap seconds.
pub open spec fn valid_utc(secs: i64, nanos: u32) -> bool {
    &&& -8_334_601_228_800 <= secs <= 8_210_266_876_799
    &&& nanos < 2_000_000_000
    &&& nanos < 1_000_000_000 || secs as int % 60 == 59
}

/// How a UTC date is written out.
pub uninterp spec fn utc_text(secs: i64, nanos: u32) -> Seq<char>;

/// `chrono::DateTime::from_timestamp` and the date's `Display`: the text depends on
/// the date alone. There is such a date for all seconds and nanoseconds that are
/// asked for here.
#[verifier::external_body]
fn format_utc(secs: i64, nanos: u32) -> (text: String)
    requires
        valid_utc(secs, nanos),
    ensures
        text@ == utc_text(secs, nanos),
{
    chrono::DateTime::from_timestamp(secs, nanos).unwrap().to_string()
}

/// Whether a clock can show the UTC date of `secs` seconds and `nanos` nanoseconds since
/// the Unix epoch: a valid date, no earlier than the epoch, and never within a leap
/// second.
pub open spec fn clock_utc(secs: i64, nanos: u32) -> bool {
    valid_utc(secs, nanos) && 0 <= secs && nanos < 1_000_000_000
}

/// `chrono::Utc::now`: the date is one that a clock can show. Which date it is depends on
/// the clock, and so it is left unsaid; a clock that is set before the Unix epoch gives
/// none.
#[verifier::external_body]
fn utc_now() -> (now: (i64, u32))
    ensures
        clock_utc(now.0, now.1),
{
    let now = chrono::Utc::now();
    (now.timestamp(), now.timestamp_subsec_nanos())
}

/// A date in UTC.
#[derive(PartialEq, Eq, Structural, Clone, Copy, Debug)]
pub struct Timestamp {
    secs: i64,
    nanos: u32,
}

impl Timestamp {
    #[verifier::type_invariant]
    spec fn valid(self) -> bool {
        valid_utc(self.secs, self.nanos)
    }

    /// Whole seconds since the Unix epoch.
    pub closed spec fn seconds(self) -> i64 {
        self.secs
    }

    /// Nanoseconds beyond the whole seconds.
    pub closed spec fn nanoseconds(self) -> u32 {
        self.nanos
    }

    /// Whether this date comes before another.
    pub open spec fn before(self, other: Timestamp) -> bool {
        self.seconds() < other.seconds() || (self.seconds() == other.seconds()
            && self.nanoseconds() < other.nanoseconds())
    }

    /// The date of `secs` seconds and `nanos` nanoseconds since the Unix epoch, where
    /// there is one.
    pub fn new(secs: i64, nanos: u32) -> (date: Option<Timestamp>)
        ensures
            date is Some <==> valid_utc(secs, nanos),
            date is Some ==> date->0.seconds() == secs && date->0.nanoseconds() == nanos,
    {
        if secs < -8_334_601_228_800 || secs > 8_210_266_876_799 || nanos >= 2_000_000_000 {
            return None;
        }
        if nanos >= 1_000_000_000 {
            let beyond: i64 = if secs >= 0 {
                secs % 60
            } else {
                59 - (-1 - secs) % 60
            };
            if beyond != 59 {
                return None;
            }
        }
        Some(Timestamp { secs, nanos })
    }

    /// The date as seconds and nanoseconds since the Unix epoch.
    pub fn parts(&self) -> (parts: (i64, u32))
        ensures
            parts == (self.seconds(), self.nanoseconds()),
            valid_utc(parts.0, parts.1),
    {
        proof {
            use_type_invariant(&self);
        }
        (self.secs, self.nanos)
    }

    /// Whether this date comes before another.
    pub fn is_before(&self, other: &Timestamp) -> (earlier: bool)
        ensures
            earlier == self.before(*other),
    {
        self.secs < other.secs || (self.secs == other.secs && self.nanos < other.nanos)
    }

    /// The date written out.
    pub fn to_text(&self) -> (text: String)
        ensures
            text@ == utc_text(self.seconds(), self.nanoseconds()),
    {
        proof {
            use_type_invariant(&self);
        }
        format_utc(self.secs, self.nanos)
    }

    /// The date that the clock shows.
    pub fn now() -> (date: Timestamp)
        ensures
            clock_utc(date.seconds(), date.nanoseconds()),
    {
        let (secs, nanos) = utc_now();
        Timestamp { secs, nanos }
    }
}

/// A message of a participant.
#[derive(PartialEq, Debug)]
pub struct Message {
    pub pk: PublicKey,
    pub date: Timestamp,
    pub text: String,
}

impl Clone for Message {
    fn clone(&self) -> (copy: Self)
        ensures
            copy == *self,
    {
        Message { pk: self.pk, date: self.date, text: self.text.clone() }
    }
}

impl Message {
    /// A message of this moment.
    pub fn new(pk: &PublicKey, text: &str) -> (message: Message)
        ensures
            message.pk == *pk,
            clock_utc(message.date.seconds(), message.date.nanoseconds()),
            message.text@ == text@,
    {
        let date = Timestamp::now();
        Message::dated(pk, date, text)
    }

    /// A message of a given date.
    pub fn dated(pk: &PublicKey, date: Timestamp, text: &str) -> (message: Message)
        ensures
            message.pk == *pk,
            message.date == date,
            message.text@ == text@,
    {
        Message { pk: *pk, date, text: text.to_owned() }
    }
}

/// The key under which a message of a given date is kept.
pub open spec fn message_key_of(date: Timestamp) -> Seq<char> {
    MESSAGE_KEY_PREFIX@ + "/"@ + utc_text(date.seconds(), date.nanoseconds())
}

/// The key under which a message is kept.
pub fn make_message_key(message: &Message) -> (key: String)
    ensures
        key@ == message_key_of(message.date),
{
    let folder = join(MESSAGE_KEY_PREFIX, "/");
    let date = message.date.to_text();
    join(folder.as_str(), date.as_str())
}

/// Dates are in one order: of two different dates exactly one comes first, no date comes
/// before itself, and what comes before a date comes before all that follow it. Seconds
/// count before nanoseconds.
pub proof fn dates_are_in_one_order(a: Timestamp, b: Timestamp, c: Timestamp)
    ensures
        !a.before(a),
        a.before(b) ==> !b.before(a),
        a.before(b) && b.before(c) ==> a.before(c),
        a.seconds() < b.seconds() ==> a.before(b),
        a.seconds() == b.seconds() && a.nanoseconds() < b.nanoseconds() ==> a.before(b),
        a.before(b) || b.before(a) || (a.seconds() == b.seconds() && a.nanoseconds()
            == b.nanoseconds()),
{
}

/// A message is kept below the folder of messages, under the text of its date, so that
/// messages share a key exactly where their dates are written alike.
pub proof fn messages_are_kept_by_date(a: Timestamp, b: Timestamp)
    ensures
        message_key_of(a).len() == 9 + utc_text(a.seconds(), a.nanoseconds()).len(),
        message_key_of(a).subrange(0, 9) == "messages/"@,
        message_key_of(a).skip(9) == utc_text(a.seconds(), a.nanoseconds()),
        message_key_of(a) == message_key_of(b) <==> utc_text(a.seconds(), a.nanoseconds())
            == utc_text(b.seconds(), b.nanoseconds()),
{
    reveal_strlit("messages");
    reveal_strlit("messages/");
    reveal_strlit("/");
    assert(message_key_of(a).subrange(0, 9) =~= "messages/"@);
    assert(message_key_of(a).skip(9) =~= utc_text(a.seconds(), a.nanoseconds()));
    assert(message_key_of(b).skip(9) =~= utc_text(b.seconds(), b.nanoseconds()));
}

} // verus!
