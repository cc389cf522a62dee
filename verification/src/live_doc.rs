//! What happens on a document while it is watched, and what its entries mean.
use crate::data::{BlobHash, DocQuery, PublicKey};
use crate::text::{from_utf8_lossy, lossy_text, same_text, starts_with};
use vstd::prelude::*;

verus! {

/// An entry of a document: who wrote it, under which key, and the blob it points at.
#[derive(Debug)]
pub struct Entry {
    pub author: PublicKey,
    pub key: Vec<u8>,
    pub content_hash: BlobHash,
    pub content_len: u64,
}

/// How much of an entry's blob is on this node.
#[derive(PartialEq, Eq, Structural, Clone, Copy, Debug)]
pub enum ContentStatus {
    Complete,
    Incomplete,
    Missing,
}

/// How much of a blob is on this node.
#[derive(PartialEq, Eq, Structural, Clone, Copy, Debug)]
pub enum BlobStatus {
    NotFound,
    Partial,
    Complete,
}

/// What happens on a document that is watched.
#[derive(Debug)]
pub enum LiveEvent {
    /// This node wrote an entry.
    InsertLocal { entry: Entry },
    /// A peer wrote an entry.
    InsertRemote { from: PublicKey, entry: Entry, content_status: ContentStatus },
    /// A blob has arrived.
    ContentReady { hash: BlobHash },
    /// A peer has joined the document's swarm.
    NeighborUp(PublicKey),
    /// A peer has left the document's swarm.
    NeighborDown(PublicKey),
    /// A sync with a peer has ended.
    SyncFinished,
}

/// What an actor hears of a document.
#[derive(Debug)]
pub enum LiveActorEvent {
    ContentReady(Entry),
    NeighborUp(PublicKey),
    NeighborDown(PublicKey),
}

/// A file that a participant shares.
#[derive(Debug)]
pub struct File {
    pub owner: PublicKey,
    pub blob: BlobHash,
    pub name: String,
    pub size: u64,
    pub downloaded: bool,
}

impl Clone for File {
    fn clone(&self) -> (copy: Self)
        ensures
            copy == *self,
    {
        File {
            owner: self.owner,
            blob: self.blob,
            name: self.name.clone(),
            size: self.size,
            downloaded: self.downloaded,
        }
    }
}

impl File {
    /// Whether this is the file that an entry describes.
    pub open spec fn describes(self, entry: Entry, name: Seq<char>, downloaded: bool) -> bool {
        &&& self.owner == entry.author
        &&& self.blob == entry.content_hash
        &&& self.name@ == name
        &&& self.size == entry.content_len
        &&& self.downloaded == downloaded
    }
}

/// Recognises the entries that hold identifications: those of one key.
pub struct IdentificationReadWriter {
    pub key_path: &'static str,
}

/// Recognises the entries that hold messages: those below one prefix.
pub struct MessagesReadWriter {
    pub key_prefix: &'static str,
}

/// Recognises the entries that hold files: those below one prefix.
pub struct FileReadWriter {
    pub key_prefix: &'static str,
}

impl IdentificationReadWriter {
    /// The entries that hold identifications.
    pub fn query(&self) -> (query: DocQuery)
        ensures
            query matches DocQuery::Exact { key } && key@ == self.key_path@,
    {
        DocQuery::Exact { key: self.key_path.to_owned() }
    }

    /// The blob to read an identification from; `None` where the entry holds none.
    pub fn content_ready(&self, key: &str, entry: &Entry) -> (hash: Option<BlobHash>)
        ensures
            hash == (if key@ == self.key_path@ {
                Some(entry.content_hash)
            } else {
                None
            }),
    {
        if same_text(key, self.key_path) {
            Some(entry.content_hash)
        } else {
            None
        }
    }
}

impl MessagesReadWriter {
    /// The entries that hold messages, in the order of their keys.
    pub fn query(&self) -> (query: DocQuery)
        ensures
            query matches DocQuery::BelowByKey { prefix } && prefix@ == self.key_prefix@,
    {
        DocQuery::BelowByKey { prefix: self.key_prefix.to_owned() }
    }

    /// The blob to read a message from; `None` where the entry holds none.
    pub fn content_ready(&self, key: &str, entry: &Entry) -> (hash: Option<BlobHash>)
        ensures
            hash == (if self.key_prefix@.is_prefix_of(key@) {
                Some(entry.content_hash)
            } else {
                None
            }),
    {
        if starts_with(key, self.key_prefix) {
            Some(entry.content_hash)
        } else {
            None
        }
    }
}

impl FileReadWriter {
    /// The entries that hold files.
    pub fn query(&self) -> (query: DocQuery)
        ensures
            query matches DocQuery::Below { prefix } && prefix@ == self.key_prefix@,
    {
        DocQuery::Below { prefix: self.key_prefix.to_owned() }
    }

    /// The files that the entries describe, in their order. Each entry comes with the
    /// status of its blob: a complete one has been downloaded.
    pub fn get_all(&self, entries: &Vec<(Entry, BlobStatus)>) -> (files: Vec<File>)
        ensures
            files@.len() == entries@.len(),
            forall|i: int|
                0 <= i < entries@.len() ==> (#[trigger] files@[i]).describes(
                    entries@[i].0,
                    lossy_text(entries@[i].0.key@),
                    entries@[i].1 == BlobStatus::Complete,
                ),
            files_of(files@, entries@),
    {
        let mut files: Vec<File> = Vec::new();
        let mut i: usize = 0;
        while i < entries.len()
            invariant
                i <= entries@.len(),
                files@.len() == i,
                forall|k: int|
                    0 <= k < i ==> (#[trigger] files@[k]).describes(
                        entries@[k].0,
                        lossy_text(entries@[k].0.key@),
                        entries@[k].1 == BlobStatus::Complete,
                    ),
            decreases entries@.len() - i,
        {
            let entry = &entries[i].0;
            files.push(
                File {
                    owner: entry.author,
                    blob: entry.content_hash,
                    name: from_utf8_lossy(entry.key.as_slice()),
                    size: entry.content_len,
                    downloaded: entries[i].1 == BlobStatus::Complete,
                },
            );
            i = i + 1;
        }
        files
    }

    /// The file that an entry describes whose blob has arrived; `None` where the entry
    /// holds no file.
    pub fn content_ready(&self, key: &str, entry: &Entry) -> (file: Option<File>)
        ensures
            file is Some <==> self.key_prefix@.is_prefix_of(key@),
            file is Some ==> file->0.describes(*entry, key@, true),
    {
        if !starts_with(key, self.key_prefix) {
            return None;
        }
        Some(
            File {
                owner: entry.author,
                blob: entry.content_hash,
                name: key.to_owned(),
                size: entry.content_len,
                downloaded: true,
            },
        )
    }
}

/// Whether the `i`-th entry waits for the blob.
pub open spec fn waits_at(waiting: Seq<Entry>, hash: BlobHash, i: int) -> bool {
    0 <= i < waiting.len() && waiting[i].content_hash == hash
}

/// The entries that wait, each under the hash of its blob.
pub open spec fn by_hash(waiting: Seq<Entry>) -> Map<BlobHash, Entry> {
    Map::new(
        |hash: BlobHash| exists|i: int| #[trigger] waits_at(waiting, hash, i),
        |hash: BlobHash| waiting[choose|i: int| #[trigger] waits_at(waiting, hash, i)],
    )
}

/// Whether no two entries wait for the same blob.
pub open spec fn hashes_are_distinct(waiting: Seq<Entry>) -> bool {
    forall|hash: BlobHash, i: int, j: int|
        #[trigger] waits_at(waiting, hash, i) && #[trigger] waits_at(waiting, hash, j) ==> i == j
}

/// What an event does to the entries that wait.
pub open spec fn waiting_after(
    waiting: Map<BlobHash, Entry>,
    event: LiveEvent,
) -> Map<BlobHash, Entry> {
    match event {
        LiveEvent::InsertRemote { entry, content_status, .. } if content_status
            != ContentStatus::Complete => waiting.insert(entry.content_hash, entry),
        LiveEvent::ContentReady { hash } => waiting.remove(hash),
        _ => waiting,
    }
}

/// The entry whose blob is on this node once an event has happened.
pub open spec fn ready_after(waiting: Map<BlobHash, Entry>, event: LiveEvent) -> Option<Entry> {
    match event {
        LiveEvent::InsertLocal { entry } => Some(entry),
        LiveEvent::InsertRemote { entry, content_status, .. } => if content_status
            == ContentStatus::Complete {
            Some(entry)
        } else {
            None
        },
        LiveEvent::ContentReady { hash } => if waiting.contains_key(hash) {
            Some(waiting[hash])
        } else {
            None
        },
        _ => None,
    }
}

/// Holds entries back until their blobs are on this node.
pub struct ContentReadyProcessor {
    waiting: Vec<Entry>,
}

impl View for ContentReadyProcessor {
    type V = Map<BlobHash, Entry>;

    /// The entries held back, each under the hash of its blob.
    closed spec fn view(&self) -> Map<BlobHash, Entry> {
        by_hash(self.waiting@)
    }
}

impl ContentReadyProcessor {
    #[verifier::type_invariant]
    spec fn distinct(self) -> bool {
        hashes_are_distinct(self.waiting@)
    }

    /// Nothing waits.
    pub fn new() -> (processor: ContentReadyProcessor)
        ensures
            processor@ == Map::<BlobHash, Entry>::empty(),
    {
        let processor = ContentReadyProcessor { waiting: Vec::new() };
        assert(processor@ =~= Map::<BlobHash, Entry>::empty());
        processor
    }

    /// Where the entry that waits for a blob is held.
    fn position(&self, hash: &BlobHash) -> (at: Option<usize>)
        ensures
            at is Some ==> waits_at(self.waiting@, *hash, at->0 as int),
            at is None ==> forall|i: int| !#[trigger] waits_at(self.waiting@, *hash, i),
    {
        let mut i: usize = 0;
        while i < self.waiting.len()
            invariant
                i <= self.waiting@.len(),
                forall|k: int| k < i ==> !#[trigger] waits_at(self.waiting@, *hash, k),
            decreases self.waiting@.len() - i,
        {
            if self.waiting[i].content_hash == *hash {
                return Some(i);
            }
            i = i + 1;
        }
        None
    }

    /// Holds an entry back until its blob has arrived. An entry that waits for the same
    /// blob gives way.
    pub fn register_incomplete(&mut self, entry: Entry)
        ensures
            final(self)@ == old(self)@.insert(entry.content_hash, entry),
    {
        proof {
            use_type_invariant(&*self);
        }
        let ghost held = self.waiting@;
        let at = self.position(&entry.content_hash);
        let mut waiting: Vec<Entry> = Vec::new();
        std::mem::swap(&mut waiting, &mut self.waiting);
        match at {
            Some(i) => {
                waiting[i] = entry;
                proof {
                    lemma_replace(held, i as int, entry);
                }
            },
            None => {
                waiting.push(entry);
                proof {
                    lemma_push(held, entry);
                }
            },
        }
        self.waiting = waiting;
    }

    /// The entry that an event makes ready, if any.
    pub fn process_event(&mut self, le: LiveEvent) -> (ready: Option<Entry>)
        ensures
            ready == ready_after(old(self)@, le),
            final(self)@ == waiting_after(old(self)@, le),
    {
        match le {
            LiveEvent::InsertLocal { entry } => Some(entry),
            LiveEvent::InsertRemote { entry, content_status, .. } => match content_status {
                ContentStatus::Complete => Some(entry),
                _ => {
                    self.register_incomplete(entry);
                    None
                },
            },
            LiveEvent::ContentReady { hash } => self.release(&hash),
            _ => None,
        }
    }

    /// Hands out the entry that waits for a blob.
    fn release(&mut self, hash: &BlobHash) -> (ready: Option<Entry>)
        ensures
            final(self)@ == old(self)@.remove(*hash),
            ready == (if old(self)@.contains_key(*hash) {
                Some(old(self)@[*hash])
            } else {
                None
            }),
    {
        proof {
            use_type_invariant(&*self);
        }
        let ghost held = self.waiting@;
        match self.position(hash) {
            Some(i) => {
                let mut waiting: Vec<Entry> = Vec::new();
                std::mem::swap(&mut waiting, &mut self.waiting);
                let entry = waiting.remove(i);
                proof {
                    lemma_remove(held, i as int);
                }
                self.waiting = waiting;
                Some(entry)
            },
            None => {
                assert(self@.remove(*hash) =~= self@);
                None
            },
        }
    }
}

proof fn lemma_lookup(waiting: Seq<Entry>, hash: BlobHash, i: int)
    requires
        hashes_are_distinct(waiting),
        waits_at(waiting, hash, i),
    ensures
        by_hash(waiting).contains_key(hash),
        by_hash(waiting)[hash] == waiting[i],
{
    let k = choose|k: int| #[trigger] waits_at(waiting, hash, k);
    assert(waits_at(waiting, hash, k));
    assert(k == i);
}

proof fn lemma_replace(waiting: Seq<Entry>, i: int, entry: Entry)
    requires
        hashes_are_distinct(waiting),
        waits_at(waiting, entry.content_hash, i),
    ensures
        hashes_are_distinct(waiting.update(i, entry)),
        by_hash(waiting.update(i, entry)) == by_hash(waiting).insert(entry.content_hash, entry),
{
    let now = waiting.update(i, entry);
    assert forall|h: BlobHash, k: int| #[trigger] waits_at(now, h, k) <==> waits_at(
        waiting,
        h,
        k,
    ) by {}
    assert forall|h: BlobHash| #[trigger]
        by_hash(waiting).insert(entry.content_hash, entry).contains_key(h) <==> by_hash(
            now,
        ).contains_key(h) by {
        if by_hash(now).contains_key(h) {
            let k = choose|k: int| #[trigger] waits_at(now, h, k);
            assert(waits_at(waiting, h, k));
        }
        if by_hash(waiting).contains_key(h) {
            let k = choose|k: int| #[trigger] waits_at(waiting, h, k);
            assert(waits_at(now, h, k));
        }
        if h == entry.content_hash {
            assert(waits_at(now, h, i));
        }
    }
    assert forall|h: BlobHash| #[trigger] by_hash(now).contains_key(h) implies by_hash(now)[h]
        == by_hash(waiting).insert(entry.content_hash, entry)[h] by {
        let k = choose|k: int| #[trigger] waits_at(now, h, k);
        assert(waits_at(waiting, h, k));
        lemma_lookup(now, h, k);
        lemma_lookup(waiting, h, k);
        if h == entry.content_hash {
            assert(waits_at(waiting, h, i));
            assert(k == i);
        }
    }
    assert(by_hash(now) =~= by_hash(waiting).insert(entry.content_hash, entry));
}

proof fn lemma_push(waiting: Seq<Entry>, entry: Entry)
    requires
        hashes_are_distinct(waiting),
        forall|i: int| !#[trigger] waits_at(waiting, entry.content_hash, i),
    ensures
        hashes_are_distinct(waiting.push(entry)),
        by_hash(waiting.push(entry)) == by_hash(waiting).insert(entry.content_hash, entry),
{
    let now = waiting.push(entry);
    let n = waiting.len() as int;
    assert forall|h: BlobHash, k: int| #[trigger] waits_at(now, h, k) <==> (waits_at(waiting, h, k)
        || (h == entry.content_hash && k == n)) by {}
    assert forall|h: BlobHash| #[trigger]
        by_hash(waiting).insert(entry.content_hash, entry).contains_key(h) <==> by_hash(
            now,
        ).contains_key(h) by {
        if by_hash(now).contains_key(h) {
            let k = choose|k: int| #[trigger] waits_at(now, h, k);
            assert(waits_at(waiting, h, k) || h == entry.content_hash);
        }
        if by_hash(waiting).contains_key(h) {
            let k = choose|k: int| #[trigger] waits_at(waiting, h, k);
            assert(waits_at(now, h, k));
        }
        if h == entry.content_hash {
            assert(waits_at(now, h, n));
        }
    }
    assert forall|h: BlobHash| #[trigger] by_hash(now).contains_key(h) implies by_hash(now)[h]
        == by_hash(waiting).insert(entry.content_hash, entry)[h] by {
        let k = choose|k: int| #[trigger] waits_at(now, h, k);
        lemma_lookup(now, h, k);
        if h != entry.content_hash {
            lemma_lookup(waiting, h, k);
        }
    }
    assert(by_hash(now) =~= by_hash(waiting).insert(entry.content_hash, entry));
}

proof fn lemma_remove(waiting: Seq<Entry>, i: int)
    requires
        hashes_are_distinct(waiting),
        0 <= i < waiting.len(),
    ensures
        hashes_are_distinct(waiting.remove(i)),
        by_hash(waiting).contains_key(waiting[i].content_hash),
        by_hash(waiting)[waiting[i].content_hash] == waiting[i],
        by_hash(waiting.remove(i)) == by_hash(waiting).remove(waiting[i].content_hash),
{
    let now = waiting.remove(i);
    let hash = waiting[i].content_hash;
    assert(waits_at(waiting, hash, i));
    lemma_lookup(waiting, hash, i);
    let back = |k: int|
        if k < i {
            k
        } else {
            k + 1
        };
    assert forall|h: BlobHash, k: int| #[trigger] waits_at(now, h, k) implies waits_at(
        waiting,
        h,
        back(k),
    ) && h != hash by {
        if h == hash {
            assert(waits_at(waiting, hash, back(k)));
        }
    }
    assert forall|h: BlobHash, k: int| #[trigger] waits_at(waiting, h, k) && h != hash implies (if k
        < i {
        waits_at(now, h, k)
    } else {
        waits_at(now, h, k - 1)
    }) by {}
    assert(hashes_are_distinct(now)) by {
        assert forall|h: BlobHash, a: int, b: int| #[trigger]
            waits_at(now, h, a) && #[trigger] waits_at(now, h, b) implies a == b by {
            assert(waits_at(waiting, h, back(a)));
            assert(waits_at(waiting, h, back(b)));
        }
    }
    assert forall|h: BlobHash| #[trigger] by_hash(waiting).remove(hash).contains_key(h)
        <==> by_hash(now).contains_key(h) by {
        if by_hash(now).contains_key(h) {
            let k = choose|k: int| #[trigger] waits_at(now, h, k);
            assert(waits_at(waiting, h, back(k)));
        }
        if by_hash(waiting).contains_key(h) && h != hash {
            let k = choose|k: int| #[trigger] waits_at(waiting, h, k);
            assert(waits_at(now, h, k) || waits_at(now, h, k - 1));
        }
    }
    assert forall|h: BlobHash| #[trigger] by_hash(now).contains_key(h) implies by_hash(now)[h]
        == by_hash(waiting).remove(hash)[h] by {
        let k = choose|k: int| #[trigger] waits_at(now, h, k);
        assert(waits_at(waiting, h, back(k)));
        lemma_lookup(now, h, k);
        lemma_lookup(waiting, h, back(k));
    }
    assert(by_hash(now) =~= by_hash(waiting).remove(hash));
}

/// An entry that arrives before its blob is handed out when the blob arrives, and
/// only once.
pub proof fn entry_is_released_once(
    waiting: Map<BlobHash, Entry>,
    from: PublicKey,
    entry: Entry,
    status: ContentStatus,
)
    requires
        status != ContentStatus::Complete,
    ensures
        ({
            let insert = LiveEvent::InsertRemote { from, entry, content_status: status };
            let arrive = LiveEvent::ContentReady { hash: entry.content_hash };
            let held = waiting_after(waiting, insert);
            let released = waiting_after(held, arrive);
            &&& ready_after(waiting, insert) is None
            &&& ready_after(held, arrive) == Some(entry)
            &&& ready_after(released, arrive) is None
            &&& released == waiting.remove(entry.content_hash)
        }),
{
    assert(waiting.insert(entry.content_hash, entry).remove(entry.content_hash) =~= waiting.remove(
        entry.content_hash,
    ));
}

/// An entry that waits stays until its own blob arrives or another entry waits for
/// that blob: no other event touches it.
pub proof fn waiting_entry_stays(
    waiting: Map<BlobHash, Entry>,
    hash: BlobHash,
    event: LiveEvent,
)
    requires
        waiting.contains_key(hash),
        event matches LiveEvent::ContentReady { hash: other } ==> other != hash,
        event matches LiveEvent::InsertRemote { entry, content_status, .. } ==> content_status
            == ContentStatus::Complete || entry.content_hash != hash,
    ensures
        waiting_after(waiting, event).contains_key(hash),
        waiting_after(waiting, event)[hash] == waiting[hash],
{
}

/// An entry that is handed out is one that came in, as it came in: whose blob is here at
/// once, the one of the event; whose blob has arrived, the one that was held back for it.
/// What is held back is the entry of the event as well, and nothing else is touched.
pub proof fn entries_are_handed_out_unchanged(waiting: Map<BlobHash, Entry>, event: LiveEvent)
    ensures
        event matches LiveEvent::InsertLocal { entry } ==> ready_after(waiting, event) == Some(
            entry,
        ) && waiting_after(waiting, event) == waiting,
        event matches LiveEvent::InsertRemote { from, entry, content_status } ==> {
            if content_status == ContentStatus::Complete {
                ready_after(waiting, event) == Some(entry) && waiting_after(waiting, event)
                    == waiting
            } else {
                &&& ready_after(waiting, event) is None
                &&& waiting_after(waiting, event).contains_key(entry.content_hash)
                &&& waiting_after(waiting, event)[entry.content_hash] == entry
                &&& forall|hash: BlobHash|
                    hash != entry.content_hash ==> (#[trigger] waiting_after(
                        waiting,
                        event,
                    ).contains_key(hash) <==> waiting.contains_key(hash))
                        && waiting_after(waiting, event)[hash] == waiting[hash]
            }
        },
        event matches LiveEvent::ContentReady { hash } ==> {
            &&& ready_after(waiting, event) is Some <==> waiting.contains_key(hash)
            &&& waiting.contains_key(hash) ==> ready_after(waiting, event) == Some(waiting[hash])
            &&& !waiting_after(waiting, event).contains_key(hash)
            &&& forall|other: BlobHash|
                other != hash ==> (#[trigger] waiting_after(waiting, event).contains_key(other)
                    <==> waiting.contains_key(other)) && waiting_after(waiting, event)[other]
                    == waiting[other]
        },
        event is NeighborUp || event is NeighborDown || event is SyncFinished ==> ready_after(
            waiting,
            event,
        ) is None && waiting_after(waiting, event) == waiting,
{
}

/// Who relays an entry makes no difference to what is handed out and what is held back.
pub proof fn relaying_peer_does_not_matter(
    waiting: Map<BlobHash, Entry>,
    one: PublicKey,
    another: PublicKey,
    entry: Entry,
    content_status: ContentStatus,
)
    ensures
        ({
            let a = LiveEvent::InsertRemote { from: one, entry, content_status };
            let b = LiveEvent::InsertRemote { from: another, entry, content_status };
            &&& ready_after(waiting, a) == ready_after(waiting, b)
            &&& waiting_after(waiting, a) == waiting_after(waiting, b)
        }),
{
}

/// Every entry waits under the hash of its own blob.
pub proof fn entries_wait_under_their_hash(waiting: Seq<Entry>, hash: BlobHash)
    requires
        by_hash(waiting).contains_key(hash),
    ensures
        by_hash(waiting)[hash].content_hash == hash,
        waiting.contains(by_hash(waiting)[hash]),
{
    let i = choose|i: int| #[trigger] waits_at(waiting, hash, i);
    assert(waits_at(waiting, hash, i));
}

/// The file of an entry belongs to the author of the entry, and is the blob that the entry
/// points at, with its length.
pub proof fn files_belong_to_their_authors(
    file: File,
    entry: Entry,
    name: Seq<char>,
    downloaded: bool,
)
    requires
        file.describes(entry, name, downloaded),
    ensures
        file.owner == entry.author,
        file.blob == entry.content_hash,
        file.size == entry.content_len,
        file.name@ == name,
        file.downloaded <==> downloaded,
{
}

/// Whether these are the files that the entries of a document describe.
pub open spec fn files_of(files: Seq<File>, entries: Seq<(Entry, BlobStatus)>) -> bool {
    &&& files.len() == entries.len()
    &&& forall|i: int|
        0 <= i < entries.len() ==> (#[trigger] files[i]).describes(
            entries[i].0,
            lossy_text(entries[i].0.key@),
            entries[i].1 == BlobStatus::Complete,
        )
}

/// Every entry is listed as a file of its author, in its place, also where its blob is
/// missing; it counts as downloaded only where the whole blob is here.
pub proof fn every_entry_is_a_file(
    files: Seq<File>,
    entries: Seq<(Entry, BlobStatus)>,
    i: int,
)
    requires
        files_of(files, entries),
        0 <= i < entries.len(),
    ensures
        files.len() == entries.len(),
        files[i].owner == entries[i].0.author,
        files[i].blob == entries[i].0.content_hash,
        files[i].size == entries[i].0.content_len,
        files[i].name@ == lossy_text(entries[i].0.key@),
        files[i].downloaded <==> entries[i].1 is Complete,
        entries[i].1 is Partial || entries[i].1 is NotFound ==> !files[i].downloaded,
{
}

} // verus!
