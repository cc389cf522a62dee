//! Who a participant is, and which identity this node has assumed.
use crate::base32::{base32_of_identifier, base32_text};
use crate::data::{
    finds, load_from_doc_at_key, save_on_doc_as_key, wide_id_is_its_text, wide_id_round_trip,
    wideid_to_string, DocLookup, DocWrite, PublicKey, Record,
};
use crate::text::join;
use vstd::prelude::*;

verus! {

/// Where the identifications of this node are kept.
pub const IDENTIFICATION_PREFIX: &'static str = "identity/identification/";

/// Where the assumed identity of this node is kept.
pub const ASSUMED_IDENTITY_KEY: &'static str = "identity/assumed_pk";

/// A participant: a public key and the name that goes with it.
#[derive(PartialEq, Debug)]
pub struct Identification {
    pub public_key: PublicKey,
    pub name: String,
}

impl Clone for Identification {
    fn clone(&self) -> (copy: Self)
        ensures
            copy == *self,
    {
        Identification { public_key: self.public_key, name: self.name.clone() }
    }
}

impl Identification {
    pub fn public_key(&self) -> (pk: &PublicKey)
        ensures
            *pk == self.public_key,
    {
        &self.public_key
    }

    pub fn name(&self) -> (name: &str)
        ensures
            name@ == self.name@,
    {
        self.name.as_str()
    }
}

/// Whether `found` is the first of the participants that is not `myself`; `None`
/// where there is no such participant.
pub open spec fn is_other(
    participants: Seq<Identification>,
    myself: PublicKey,
    found: Option<Identification>,
) -> bool {
    match found {
        Some(other) => exists|i: int|
            {
                &&& 0 <= i < participants.len()
                &&& #[trigger] participants[i] == other
                &&& other.public_key != myself
                &&& forall|j: int|
                    0 <= j < i ==> (#[trigger] participants[j]).public_key == myself
            },
        None => forall|j: int|
            0 <= j < participants.len() ==> (#[trigger] participants[j]).public_key == myself,
    }
}

/// The participants of an exchange.
pub trait ParticipantList {
    /// The first participant that is not `myself`.
    fn get_other(self, myself: &PublicKey) -> Option<Identification>;
}

impl ParticipantList for Vec<Identification> {
    fn get_other(self, myself: &PublicKey) -> (other: Option<Identification>)
        ensures
            is_other(self@, *myself, other),
    {
        let mut participants = self;
        let mut i: usize = 0;
        while i < participants.len()
            invariant
                participants@ == self@,
                i <= participants@.len(),
                forall|j: int|
                    0 <= j < i ==> (#[trigger] participants@[j]).public_key == *myself,
            decreases participants@.len() - i,
        {
            if participants[i].public_key != *myself {
                let ghost list = participants@;
                let other = participants.remove(i);
                assert(list[i as int] == other);
                return Some(other);
            }
            i = i + 1;
        }
        None
    }
}

/// At most one participant is the other: a list of participants has one answer.
pub proof fn other_is_unique(
    participants: Seq<Identification>,
    myself: PublicKey,
    a: Option<Identification>,
    b: Option<Identification>,
)
    requires
        is_other(participants, myself, a),
        is_other(participants, myself, b),
    ensures
        a == b,
{
    if a is Some && b is Some {
        let i = choose|i: int|
            {
                &&& 0 <= i < participants.len()
                &&& #[trigger] participants[i] == a->0
                &&& a->0.public_key != myself
                &&& forall|j: int|
                    0 <= j < i ==> (#[trigger] participants[j]).public_key == myself
            };
        let k = choose|k: int|
            {
                &&& 0 <= k < participants.len()
                &&& #[trigger] participants[k] == b->0
                &&& b->0.public_key != myself
                &&& forall|j: int|
                    0 <= j < k ==> (#[trigger] participants[j]).public_key == myself
            };
        assert(participants[i].public_key != myself);
        assert(participants[k].public_key != myself);
        assert(i == k);
    }
}

/// The other participant of two lists joined into one is that of the first list, where
/// it has one, and else that of the second.
pub proof fn other_of_joined_lists(
    a: Seq<Identification>,
    b: Seq<Identification>,
    myself: PublicKey,
    first: Option<Identification>,
    second: Option<Identification>,
)
    requires
        is_other(a, myself, first),
        is_other(b, myself, second),
    ensures
        is_other(
            a + b,
            myself,
            if first is Some {
                first
            } else {
                second
            },
        ),
{
    let all = a + b;
    if first is Some {
        let i = choose|i: int|
            {
                &&& 0 <= i < a.len()
                &&& #[trigger] a[i] == first->0
                &&& first->0.public_key != myself
                &&& forall|j: int| 0 <= j < i ==> (#[trigger] a[j]).public_key == myself
            };
        assert(all[i] == first->0);
        assert forall|j: int| 0 <= j < i implies (#[trigger] all[j]).public_key == myself by {
            assert(all[j] == a[j]);
        }
    } else {
        assert forall|j: int| 0 <= j < a.len() implies (#[trigger] all[j]).public_key
            == myself by {
            assert(all[j] == a[j]);
        }
        if second is Some {
            let i = choose|i: int|
                {
                    &&& 0 <= i < b.len()
                    &&& #[trigger] b[i] == second->0
                    &&& second->0.public_key != myself
                    &&& forall|j: int| 0 <= j < i ==> (#[trigger] b[j]).public_key == myself
                };
            assert(all[a.len() + i] == second->0);
            assert forall|j: int| 0 <= j < a.len() + i implies (#[trigger] all[j]).public_key
                == myself by {
                if j >= a.len() {
                    assert(all[j] == b[j - a.len()]);
                }
            }
        } else {
            assert forall|j: int| 0 <= j < all.len() implies (#[trigger] all[j]).public_key
                == myself by {
                if j >= a.len() {
                    assert(all[j] == b[j - a.len()]);
                }
            }
        }
    }
}

/// The key under which the identification of `pk` is kept.
pub open spec fn identification_key_of(pk: PublicKey) -> Seq<char> {
    IDENTIFICATION_PREFIX@ + "/"@ + base32_text(pk@)
}

/// The key under which the identification of `pk` is kept.
pub fn identification_key(pk: &PublicKey) -> (key: String)
    ensures
        key@ == identification_key_of(*pk),
{
    let folder = join(IDENTIFICATION_PREFIX, "/");
    let id = wideid_to_string(*pk);
    join(folder.as_str(), id.as_str())
}

/// Two participants never share the key of their identifications.
pub proof fn identification_keys_are_distinct(a: PublicKey, b: PublicKey)
    ensures
        identification_key_of(a) == identification_key_of(b) <==> a == b,
{
    let folder = IDENTIFICATION_PREFIX@ + "/"@;
    if identification_key_of(a) == identification_key_of(b) {
        wide_id_round_trip(a);
        wide_id_round_trip(b);
        base32_of_identifier(a@);
        base32_of_identifier(b@);
        let n = folder.len() as int;
        assert(identification_key_of(a).subrange(n, n + 52) =~= base32_text(a@));
        assert(identification_key_of(b).subrange(n, n + 52) =~= base32_text(b@));
        wide_id_is_its_text(a, b);
    }
}

/// No identification is kept where the assumed identity is kept.
pub proof fn identification_key_is_not_the_assumed_one(pk: PublicKey)
    ensures
        identification_key_of(pk) != ASSUMED_IDENTITY_KEY@,
{
    reveal_strlit("identity/identification/");
    reveal_strlit("identity/assumed_pk");
    reveal_strlit("/");
    assert(identification_key_of(pk)[9] == 'i');
    assert(ASSUMED_IDENTITY_KEY@[9] == 'a');
}

/// An identification that is about to be stored.
pub struct IdentityCreation {
    /// The new identification.
    pub identification: Identification,
    /// The write that assumes it, where no identity is assumed yet. It comes first.
    pub assume_write: Option<DocWrite>,
    /// The write that keeps it.
    pub record_write: DocWrite,
}

impl IdentityCreation {
    /// Whether this keeps the identification of a new author, on a node that has assumed
    /// the identity `assumed`. The first identification of a node is assumed.
    pub open spec fn keeps(
        self,
        assumed: Option<PublicKey>,
        author: PublicKey,
        name: Seq<char>,
    ) -> bool {
        &&& self.identification.public_key == author
        &&& self.identification.name@ == name
        &&& self.assume_write is Some <==> assumed is None
        &&& self.assume_write is Some ==> self.assume_write->0.saves(
            author,
            ASSUMED_IDENTITY_KEY@,
            Record::PublicKey(author),
        )
        &&& self.record_write.saves(
            author,
            identification_key_of(author),
            Record::Identification(self.identification),
        )
    }
}

/// The identity that the node acts as.
pub struct Service {
    assumed: Option<PublicKey>,
}

impl View for Service {
    type V = Option<PublicKey>;

    /// The assumed identity.
    closed spec fn view(&self) -> Option<PublicKey> {
        self.assumed
    }
}

impl Service {
    /// A node that has assumed no identity.
    pub fn new() -> (service: Service)
        ensures
            service@ is None,
    {
        Service { assumed: None }
    }

    /// The assumed identity.
    pub fn assumed_identity_pk(&self) -> (pk: Option<PublicKey>)
        ensures
            pk == self@,
    {
        self.assumed
    }

    /// Where the assumed identity is loaded from.
    pub fn assumed_identity_lookup() -> (lookup: DocLookup)
        ensures
            lookup.key() == ASSUMED_IDENTITY_KEY@,
            lookup.author() is None,
    {
        load_from_doc_at_key(None, ASSUMED_IDENTITY_KEY)
    }

    /// Takes over the identity that was loaded; a failed load changes nothing.
    pub fn load_assumed_identity<E>(&mut self, loaded: Result<PublicKey, E>)
        ensures
            final(self)@ == (match loaded {
                Ok(pk) => Some(pk),
                Err(_) => old(self)@,
            }),
            assumes(
                old(self)@,
                if loaded is Ok {
                    Some(loaded->Ok_0)
                } else {
                    None
                },
                final(self)@,
            ),
    {
        match loaded {
            Ok(pk) => {
                self.assumed = Some(pk);
            },
            Err(_) => {},
        }
    }

    /// Where the identification of the assumed identity is loaded from; `None` where
    /// no identity is assumed.
    pub fn assumed_identity(&self) -> (lookup: Option<DocLookup>)
        ensures
            lookup is Some <==> self@ is Some,
            lookup is Some ==> lookup->0.key() == identification_key_of(self@->0)
                && lookup->0.author() is None,
    {
        match self.assumed {
            Some(pk) => Some(Service::get_identification(&pk)),
            None => None,
        }
    }

    /// The write that makes `pk` the assumed identity.
    pub fn assume_write(pk: &PublicKey) -> (write: DocWrite)
        ensures
            write.saves(*pk, ASSUMED_IDENTITY_KEY@, Record::PublicKey(*pk)),
    {
        save_on_doc_as_key(pk, ASSUMED_IDENTITY_KEY, Record::PublicKey(*pk))
    }

    /// Assumes `pk` once it was saved; where saving failed, nothing changes and the
    /// failure is handed on.
    pub fn set_assumed_identity_pk<E>(&mut self, pk: PublicKey, saved: Result<(), E>) -> (res:
        Result<(), E>)
        ensures
            res == saved,
            final(self)@ == (if saved is Ok {
                Some(pk)
            } else {
                old(self)@
            }),
            assumes(
                old(self)@,
                if saved is Ok {
                    Some(pk)
                } else {
                    None
                },
                final(self)@,
            ),
    {
        match saved {
            Ok(done) => {
                self.assumed = Some(pk);
                Ok(done)
            },
            Err(e) => Err(e),
        }
    }

    /// Where the identification of `pk` is loaded from.
    pub fn get_identification(pk: &PublicKey) -> (lookup: DocLookup)
        ensures
            lookup.key() == identification_key_of(*pk),
            lookup.author() is None,
    {
        let key = identification_key(pk);
        load_from_doc_at_key(None, key.as_str())
    }

    /// The identification of a new author, and the writes that keep it. The first
    /// identification of a node is assumed.
    pub fn create_identification(&self, author: PublicKey, name: &str) -> (creation:
        IdentityCreation)
        ensures
            creation.keeps(self@, author, name@),
    {
        let identification = Identification { public_key: author, name: name.to_owned() };
        let assume_write = match self.assumed {
            None => Some(Service::assume_write(&author)),
            Some(_) => None,
        };
        let key = identification_key(&author);
        let record_write = save_on_doc_as_key(
            &author,
            key.as_str(),
            Record::Identification(identification.clone()),
        );
        IdentityCreation { identification, assume_write, record_write }
    }
}

/// The first identification that a node creates is found again: by the lookup of the
/// assumed identity, and by the lookup of its own identification.
pub proof fn created_identification_is_found(
    creation: IdentityCreation,
    author: PublicKey,
    name: Seq<char>,
    assumed_lookup: DocLookup,
    record_lookup: DocLookup,
)
    requires
        creation.keeps(None, author, name),
        assumed_lookup.key() == ASSUMED_IDENTITY_KEY@,
        assumed_lookup.author() is None,
        record_lookup.key() == identification_key_of(author),
        record_lookup.author() is None,
    ensures
        creation.assume_write is Some && finds(assumed_lookup, creation.assume_write->0),
        finds(record_lookup, creation.record_write),
        !finds(record_lookup, creation.assume_write->0),
        !finds(assumed_lookup, creation.record_write),
{
    identification_key_is_not_the_assumed_one(author);
}

/// Whoever is found is a participant and is not `myself`. Nobody is found exactly where all
/// participants are `myself`.
pub proof fn other_takes_part(
    participants: Seq<Identification>,
    myself: PublicKey,
    found: Option<Identification>,
)
    requires
        is_other(participants, myself, found),
    ensures
        found matches Some(other) ==> participants.contains(other) && other.public_key != myself,
        found is None <==> forall|j: int|
            0 <= j < participants.len() ==> (#[trigger] participants[j]).public_key == myself,
{
    if found is Some {
        let i = choose|i: int|
            {
                &&& 0 <= i < participants.len()
                &&& #[trigger] participants[i] == found->0
                &&& found->0.public_key != myself
                &&& forall|j: int|
                    0 <= j < i ==> (#[trigger] participants[j]).public_key == myself
            };
        assert(participants[i].public_key != myself);
    }
}

/// The first participant that is not `myself` is the other, whoever comes behind.
pub proof fn first_stranger_is_the_other(
    front: Seq<Identification>,
    stranger: Identification,
    back: Seq<Identification>,
    myself: PublicKey,
    found: Option<Identification>,
)
    requires
        forall|j: int| 0 <= j < front.len() ==> (#[trigger] front[j]).public_key == myself,
        stranger.public_key != myself,
        is_other(front.push(stranger) + back, myself, found),
    ensures
        found == Some(stranger),
{
    let all = front.push(stranger) + back;
    let n = front.len() as int;
    assert(all[n] == stranger);
    other_takes_part(all, myself, found);
    if found is Some {
        let i = choose|i: int|
            {
                &&& 0 <= i < all.len()
                &&& #[trigger] all[i] == found->0
                &&& found->0.public_key != myself
                &&& forall|j: int| 0 <= j < i ==> (#[trigger] all[j]).public_key == myself
            };
        if i < n {
            assert(all[i] == front[i]);
        }
        assert(!(n < i));
        assert(i == n);
    }
}

/// Creating an identification assumes it on a node that has none, and never on a node that
/// has one, whichever that is. What is stored is the identification itself, with the name
/// that was asked for and the key of its author.
pub proof fn first_identity_is_assumed(
    creation: IdentityCreation,
    assumed: Option<PublicKey>,
    author: PublicKey,
    name: Seq<char>,
)
    requires
        creation.keeps(assumed, author, name),
    ensures
        assumed is None ==> creation.assume_write is Some,
        assumed is Some ==> creation.assume_write is None,
        creation.assume_write matches Some(DocWrite::Save { author: signer, key, record }) ==> signer
            == author && key@ == "identity/assumed_pk"@ && record == Record::PublicKey(author),
        creation.assume_write matches Some(write) ==> write is Save,
        creation.record_write matches DocWrite::Save { author: signer, key, record }
            && signer == author && key@ == identification_key_of(author) && record
            == Record::Identification(creation.identification),
        creation.identification.public_key == author,
        creation.identification.name@ == name,
{
}

/// The identification of a participant is kept below the folder of identifications, under
/// the text of its key.
pub proof fn identification_key_names_its_owner(pk: PublicKey)
    ensures
        identification_key_of(pk).len() == 25 + 52,
        identification_key_of(pk).subrange(0, 25) == "identity/identification//"@,
        identification_key_of(pk).subrange(25, 77) == base32_text(pk@),
{
    reveal_strlit("identity/identification/");
    reveal_strlit("identity/identification//");
    reveal_strlit("/");
    wide_id_round_trip(pk);
    base32_of_identifier(pk@);
    assert(identification_key_of(pk).subrange(0, 25) =~= "identity/identification//"@);
    assert(identification_key_of(pk).subrange(25, 77) =~= base32_text(pk@));
}

/// Whether a key that was found, if any, is assumed.
pub open spec fn assumes(
    before: Option<PublicKey>,
    found: Option<PublicKey>,
    after: Option<PublicKey>,
) -> bool {
    after == if found is Some {
        found
    } else {
        before
    }
}

/// The last key that was found is the one that is assumed, whatever was assumed before;
/// what could not be loaded or saved changes nothing.
pub proof fn last_key_is_assumed(
    before: Option<PublicKey>,
    first: Option<PublicKey>,
    between: Option<PublicKey>,
    second: Option<PublicKey>,
    after: Option<PublicKey>,
)
    requires
        assumes(before, first, between),
        assumes(between, second, after),
    ensures
        second is Some ==> after == second,
        second is None && first is Some ==> after == first,
        second is None && first is None ==> after == before,
{
}

} // verus!
