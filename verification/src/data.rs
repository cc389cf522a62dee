//! Identifiers, and what is read from and written to documents.
use crate::base32::{base32_is_injective, base32_text};
use crate::error::Error;
use crate::exchange::mutual::ExchangeManifest;
use crate::exchange::Message;
use crate::identity::Identification;
use crate::live_doc::Entry;
use vstd::bytes::{lemma_auto_spec_u64_to_from_le_bytes, spec_u64_from_le_bytes, spec_u64_to_le_bytes};
use vstd::prelude::*;

verus! {

/// A 32-byte identifier, held as four little-endian words so that it is a plain
/// sized record.
#[derive(PartialEq, Eq, Structural, Hash, Clone, Copy)]
pub struct WideId {
    p1: u64,
    p2: u64,
    p3: u64,
    p4: u64,
}

/// `std::fmt::Formatter`, which text is written to.
#[verifier::external_type_specification]
#[verifier::external_body]
pub struct ExFormatter<'a>(std::fmt::Formatter<'a>);

/// `std::fmt::Error`, the reason why text could not be written.
#[verifier::external_type_specification]
#[verifier::external_body]
pub struct ExFmtError(std::fmt::Error);

/// `std::fmt::Formatter::write_str`: hands the text to what the formatter writes to.
/// What that makes of it, and whether it takes it, is left unsaid: a formatter can be
/// anyone's.
#[verifier::external_body]
fn write_text(f: &mut std::fmt::Formatter<'_>, text: &str) -> Result<(), std::fmt::Error> {
    f.write_str(text)
}

impl std::fmt::Display for WideId {
    fn fmt(&self, f: &mut std::fmt::Formatter<'_>) -> Result<(), std::fmt::Error> {
        let text = wideid_to_string(*self);
        write_text(f, text.as_str())
    }
}

impl std::fmt::Debug for WideId {
    fn fmt(&self, f: &mut std::fmt::Formatter<'_>) -> Result<(), std::fmt::Error> {
        let text = wideid_to_string(*self);
        write_text(f, text.as_str())
    }
}

/// Identifies a participant.
pub type PublicKey = WideId;

/// Identifies an exchange and the document that it lives on.
pub type ExchangeId = WideId;

/// Identifies a blob by its content.
pub type BlobHash = WideId;

impl View for WideId {
    type V = Seq<u8>;

    /// The 32 bytes of the identifier.
    closed spec fn view(&self) -> Seq<u8> {
        spec_u64_to_le_bytes(self.p1) + spec_u64_to_le_bytes(self.p2) + spec_u64_to_le_bytes(
            self.p3,
        ) + spec_u64_to_le_bytes(self.p4)
    }
}

/// The identifier that 32 bytes stand for.
pub closed spec fn wide_id_of(bytes: Seq<u8>) -> WideId {
    WideId {
        p1: spec_u64_from_le_bytes(bytes.subrange(0, 8)),
        p2: spec_u64_from_le_bytes(bytes.subrange(8, 16)),
        p3: spec_u64_from_le_bytes(bytes.subrange(16, 24)),
        p4: spec_u64_from_le_bytes(bytes.subrange(24, 32)),
    }
}

/// An identifier has 32 bytes, and they stand for it: reading back the bytes of an
/// identifier gives the identifier.
pub proof fn wide_id_round_trip(id: WideId)
    ensures
        id@.len() == 32,
        wide_id_of(id@) == id,
{
    lemma_auto_spec_u64_to_from_le_bytes();
    assert(id@.subrange(0, 8) =~= spec_u64_to_le_bytes(id.p1));
    assert(id@.subrange(8, 16) =~= spec_u64_to_le_bytes(id.p2));
    assert(id@.subrange(16, 24) =~= spec_u64_to_le_bytes(id.p3));
    assert(id@.subrange(24, 32) =~= spec_u64_to_le_bytes(id.p4));
}

/// Any 32 bytes are the bytes of the identifier that they stand for.
pub proof fn bytes_round_trip(bytes: Seq<u8>)
    requires
        bytes.len() == 32,
    ensures
        wide_id_of(bytes)@ == bytes,
{
    lemma_auto_spec_u64_to_from_le_bytes();
    let id = wide_id_of(bytes);
    assert(spec_u64_to_le_bytes(id.p1) == bytes.subrange(0, 8));
    assert(spec_u64_to_le_bytes(id.p2) == bytes.subrange(8, 16));
    assert(spec_u64_to_le_bytes(id.p3) == bytes.subrange(16, 24));
    assert(spec_u64_to_le_bytes(id.p4) == bytes.subrange(24, 32));
    assert(id@ =~= bytes);
}

/// Identifiers are told apart by their bytes.
pub proof fn wide_id_is_its_bytes(a: WideId, b: WideId)
    ensures
        a@ == b@ <==> a == b,
{
    wide_id_round_trip(a);
    wide_id_round_trip(b);
}

/// Identifiers are told apart by their text.
pub proof fn wide_id_is_its_text(a: WideId, b: WideId)
    ensures
        base32_text(a@) == base32_text(b@) <==> a == b,
{
    wide_id_round_trip(a);
    wide_id_round_trip(b);
    if base32_text(a@) == base32_text(b@) {
        base32_is_injective(a@, b@);
    }
}

impl WideId {
    /// The 32 bytes of the identifier.
    pub fn to_bytes(self) -> (bytes: [u8; 32])
        ensures
            bytes@ == self@,
    {
        let mut bytes: [u8; 32] = [0u8;32];
        proof {
            wide_id_round_trip(self);
        }
        let words: [u64; 4] = [self.p1, self.p2, self.p3, self.p4];
        let mut at: usize = 0;
        while at < 4
            invariant
                at <= 4,
                words@ == seq![self.p1, self.p2, self.p3, self.p4],
                self@.len() == 32,
                forall|k: int| 0 <= k < 8 * at ==> bytes@[k] == self@[k],
            decreases 4 - at,
        {
            let part: Vec<u8> = vstd::bytes::u64_to_le_bytes(words[at]);
            proof {
                lemma_auto_spec_u64_to_from_le_bytes();
                assert(forall|j: int| 0 <= j < 8 ==> part@[j] == self@[8 * at + j]);
            }
            let mut j: usize = 0;
            while j < 8
                invariant
                    j <= 8,
                    at < 4,
                    part@.len() == 8,
                    self@.len() == 32,
                    forall|j: int| 0 <= j < 8 ==> part@[j] == self@[8 * at + j],
                    forall|k: int| 0 <= k < 8 * at + j ==> bytes@[k] == self@[k],
                decreases 8 - j,
            {
                bytes[8 * at + j] = part[j];
                j = j + 1;
            }
            at = at + 1;
        }
        assert(bytes@ =~= self@);
        bytes
    }

    /// The 32 bytes of the identifier.
    pub fn as_bytes(&self) -> (bytes: [u8; 32])
        ensures
            bytes@ == self@,
    {
        self.to_bytes()
    }

    /// The identifier that 32 bytes stand for.
    pub fn from_bytes(bytes: &[u8]) -> (id: WideId)
        requires
            bytes@.len() == 32,
        ensures
            id@ == bytes@,
            id == wide_id_of(bytes@),
    {
        let id = WideId {
            p1: vstd::bytes::u64_from_le_bytes(vstd::slice::slice_subrange(bytes, 0, 8)),
            p2: vstd::bytes::u64_from_le_bytes(vstd::slice::slice_subrange(bytes, 8, 16)),
            p3: vstd::bytes::u64_from_le_bytes(vstd::slice::slice_subrange(bytes, 16, 24)),
            p4: vstd::bytes::u64_from_le_bytes(vstd::slice::slice_subrange(bytes, 24, 32)),
        };
        proof {
            bytes_round_trip(bytes@);
        }
        id
    }
}

impl From<[u8; 32]> for WideId {
    fn from(value: [u8; 32]) -> (id: Self) {
        WideId::from_bytes(vstd::array::array_as_slice(&value))
    }
}

impl vstd::std_specs::convert::FromSpecImpl<[u8; 32]> for WideId {
    open spec fn obeys_from_spec() -> bool {
        true
    }

    open spec fn from_spec(value: [u8; 32]) -> Self {
        wide_id_of(value@)
    }
}

/// The array that holds the 32 bytes of an identifier.
pub open spec fn byte_array_of(id: WideId) -> [u8; 32] {
    choose|bytes: [u8; 32]| bytes@ == id@
}

impl From<WideId> for [u8; 32] {
    fn from(value: WideId) -> (bytes: Self)
        ensures
            bytes@ == value@,
    {
        let bytes = value.to_bytes();
        assert(bytes =~= byte_array_of(value));
        bytes
    }
}

impl vstd::std_specs::convert::FromSpecImpl<WideId> for [u8; 32] {
    open spec fn obeys_from_spec() -> bool {
        true
    }

    open spec fn from_spec(value: WideId) -> Self {
        byte_array_of(value)
    }
}

impl From<&WideId> for [u8; 32] {
    fn from(value: &WideId) -> (bytes: Self)
        ensures
            bytes@ == value@,
    {
        let bytes = value.to_bytes();
        assert(bytes =~= byte_array_of(*value));
        bytes
    }
}

impl vstd::std_specs::convert::FromSpecImpl<&WideId> for [u8; 32] {
    open spec fn obeys_from_spec() -> bool {
        true
    }

    open spec fn from_spec(value: &WideId) -> Self {
        byte_array_of(*value)
    }
}

/// The text form of an identifier.
pub fn wideid_to_string(wide_id: WideId) -> (text: String)
    ensures
        text@ == base32_text(wide_id@),
{
    let bytes = wide_id.to_bytes();
    crate::base32::fmt(vstd::array::array_as_slice(&bytes))
}

/// How an entry is looked up on a document.
#[derive(Debug)]
pub enum DocLookup {
    /// The entry of one author under one key.
    Exact { author: PublicKey, key: String },
    /// The entry of any author under one key.
    Any { key: String },
}

impl DocLookup {
    /// The key that is looked up.
    pub open spec fn key(self) -> Seq<char> {
        match self {
            DocLookup::Exact { key, .. } => key@,
            DocLookup::Any { key } => key@,
        }
    }

    /// The author whose entry is looked up; `None` for that of any author.
    pub open spec fn author(self) -> Option<PublicKey> {
        match self {
            DocLookup::Exact { author, .. } => Some(author),
            DocLookup::Any { .. } => None,
        }
    }
}

/// Which entries of a document are read.
#[derive(Debug)]
pub enum DocQuery {
    /// Those of all authors under one key.
    Exact { key: String },
    /// Those of all authors whose keys begin with a prefix.
    Below { prefix: String },
    /// Those of all authors whose keys begin with a prefix, in ascending order of their
    /// keys and, below one key, of their authors.
    BelowByKey { prefix: String },
}

impl DocQuery {
    /// Whether entries under a key are among those that are read.
    pub open spec fn asks_for(self, key: Seq<char>) -> bool {
        match self {
            DocQuery::Exact { key: asked } => asked@ == key,
            DocQuery::Below { prefix } => prefix@.is_prefix_of(key),
            DocQuery::BelowByKey { prefix } => prefix@.is_prefix_of(key),
        }
    }
}

/// A value that is stored on a document in serialized form.
#[derive(Debug)]
pub enum Record {
    PublicKey(PublicKey),
    Identification(Identification),
    ExchangeIds(Vec<ExchangeId>),
    Message(Message),
    Manifest(ExchangeManifest),
}

/// A write of one entry to a document.
#[derive(Debug)]
pub enum DocWrite {
    /// Serialize the record into a blob and point the key at it.
    Save { author: PublicKey, key: String, record: Record },
    /// Point the key at a blob that exists.
    SetHash { author: PublicKey, key: String, hash: BlobHash, size: u64 },
    /// Store the text itself under the key.
    SetBytes { author: PublicKey, key: String, text: String },
}

impl DocWrite {
    /// The key that is written.
    pub open spec fn key(self) -> Seq<char> {
        match self {
            DocWrite::Save { key, .. } => key@,
            DocWrite::SetHash { key, .. } => key@,
            DocWrite::SetBytes { key, .. } => key@,
        }
    }

    /// The author that signs the entry.
    pub open spec fn author(self) -> PublicKey {
        match self {
            DocWrite::Save { author, .. } => author,
            DocWrite::SetHash { author, .. } => author,
            DocWrite::SetBytes { author, .. } => author,
        }
    }

    /// Whether this saves `record` for `author` under `key`.
    pub open spec fn saves(self, author: PublicKey, key: Seq<char>, record: Record) -> bool {
        &&& self is Save
        &&& self.author() == author
        &&& self.key() == key
        &&& self->record == record
    }

    /// Whether this points `key` at a blob for `author`.
    pub open spec fn points(
        self,
        author: PublicKey,
        key: Seq<char>,
        hash: BlobHash,
        size: u64,
    ) -> bool {
        &&& self is SetHash
        &&& self.author() == author
        &&& self.key() == key
        &&& self->hash == hash
        &&& self->size == size
    }
}

/// Whether a lookup finds the entry of a write: it asks for the same key, and for the
/// author of the write or for any author.
pub open spec fn finds(lookup: DocLookup, write: DocWrite) -> bool {
    &&& lookup.key() == write.key()
    &&& lookup.author() matches Some(author) ==> author == write.author()
}

/// The lookup that loads a record: the entry of `pk` where one is given, else that
/// of any author.
pub fn load_from_doc_at_key(pk: Option<&PublicKey>, key: &str) -> (lookup: DocLookup)
    ensures
        lookup.key() == key@,
        pk is Some ==> lookup.author() == Some(*pk->0),
        pk is None ==> lookup.author() is None,
{
    match pk {
        Some(pk) => DocLookup::Exact { author: *pk, key: key.to_owned() },
        None => DocLookup::Any { key: key.to_owned() },
    }
}

/// What is saved under a key is found where it is loaded from, by its author and by
/// anyone.
pub proof fn saved_record_is_found(
    write: DocWrite,
    lookup: DocLookup,
    pk: PublicKey,
    key: Seq<char>,
    record: Record,
)
    requires
        write.saves(pk, key, record),
        lookup.key() == key,
        lookup.author() is None || lookup.author() == Some(pk),
    ensures
        finds(lookup, write),
{
}

/// The blob that a lookup found, or the error that there is no such entry.
pub fn found_content(entry: Option<&Entry>) -> (hash: Result<BlobHash, Error>)
    ensures
        hash == (match entry {
            Some(entry) => Ok::<BlobHash, Error>(entry.content_hash),
            None => Err::<BlobHash, Error>(Error::NotHere),
        }),
        is_content_of(hash, entry),
{
    match entry {
        Some(entry) => Ok(entry.content_hash),
        None => Err(Error::NotHere),
    }
}

/// The write that saves a record under a key.
pub fn save_on_doc_as_key(pk: &PublicKey, key: &str, record: Record) -> (write: DocWrite)
    ensures
        write.saves(*pk, key@, record),
{
    DocWrite::Save { author: *pk, key: key.to_owned(), record }
}

/// A write that saves a record is an entry of its author, under its key, with that record
/// and no other; and a write that points at a blob names its author, its key, the blob and
/// its size.
pub proof fn writes_are_what_they_say(
    write: DocWrite,
    pk: PublicKey,
    at: Seq<char>,
    saved: Record,
    blob: BlobHash,
    len: u64,
)
    ensures
        write.saves(pk, at, saved) <==> (write matches DocWrite::Save { author, key, record }
            && author == pk && key@ == at && record == saved),
        write.points(pk, at, blob, len) <==> (write matches DocWrite::SetHash {
            author,
            key,
            hash,
            size,
        } && author == pk && key@ == at && hash == blob && size == len),
{
}

/// A lookup for one author never finds the entry of another, a lookup for any author finds
/// that of everyone, and none finds an entry of another key.
pub proof fn lookups_find_their_author(lookup: DocLookup, write: DocWrite)
    ensures
        lookup matches DocLookup::Exact { author, key } ==> (finds(lookup, write) <==> key@
            == write.key() && author == write.author()),
        lookup matches DocLookup::Any { key } ==> (finds(lookup, write) <==> key@ == write.key()),
        write matches DocWrite::Save { author, key, .. } ==> write.author() == author
            && write.key() == key@,
        write matches DocWrite::SetHash { author, key, .. } ==> write.author() == author
            && write.key() == key@,
        write matches DocWrite::SetBytes { author, key, .. } ==> write.author() == author
            && write.key() == key@,
{
}

/// A query for a key asks for that key alone. A query below a prefix asks for the prefix
/// with anything behind it and for nothing else, whether it orders what it reads or not.
pub proof fn queries_ask_by_key(query: DocQuery, rest: Seq<char>, other: Seq<char>)
    ensures
        query matches DocQuery::Exact { key } ==> (query.asks_for(other) <==> other == key@),
        query matches DocQuery::Below { prefix } ==> query.asks_for(prefix@ + rest)
            && (query.asks_for(other) ==> other.len() >= prefix@.len() && other.subrange(
            0,
            prefix@.len() as int,
        ) == prefix@),
        query matches DocQuery::BelowByKey { prefix } ==> query.asks_for(prefix@ + rest)
            && (query.asks_for(other) ==> other.len() >= prefix@.len() && other.subrange(
            0,
            prefix@.len() as int,
        ) == prefix@),
{
    if let DocQuery::Below { prefix } = query {
        assert((prefix@ + rest).subrange(0, prefix@.len() as int) =~= prefix@);
    }
    if let DocQuery::BelowByKey { prefix } = query {
        assert((prefix@ + rest).subrange(0, prefix@.len() as int) =~= prefix@);
    }
}

/// Whether this is the content of an entry that was looked for.
pub open spec fn is_content_of(hash: Result<BlobHash, Error>, entry: Option<&Entry>) -> bool {
    match hash {
        Ok(hash) => entry is Some && entry->0.content_hash == hash,
        Err(error) => entry is None && error is NotHere,
    }
}

/// An entry that is there is found, whoever wrote it, under whatever key, and also where
/// its content is empty.
pub proof fn entries_that_are_there_are_found(hash: Result<BlobHash, Error>, entry: Option<&Entry>)
    requires
        is_content_of(hash, entry),
    ensures
        entry matches Some(entry) ==> hash == Ok::<BlobHash, Error>(entry.content_hash),
        entry is None ==> hash == Err::<BlobHash, Error>(Error::NotHere),
{
}

} // verus!
