//! The exchanges of a node: which ones it tracks, which ones run, and how they are
//! set up and given up.
use crate::data::{
    finds, load_from_doc_at_key, save_on_doc_as_key, DocLookup, DocWrite, ExchangeId, PublicKey, Record,
};
use crate::error::Error;
use crate::exchange::context::{file_key_of, id_pic_is_a_file, ContextEvents, ExchangeContext};
use crate::exchange::setup::{ExchangeSetup, SetupAction};
use crate::exchange::{ID_PIC, SETTINGS_EXCHANGES_LIST_KEY};
use crate::identity::{identification_key_of, ASSUMED_IDENTITY_KEY};
use crate::live_doc::{Entry, File};
use crate::text::same_text;
use vstd::prelude::*;

verus! {

/// What the exchanges of a node tell those who listen.
#[derive(PartialEq, Eq, Structural, Clone, Copy, Debug)]
pub enum Events {
    ListDidUpdate,
}

/// An exchange that runs, with the handle through which it is reached.
pub struct Running<C> {
    pub id: ExchangeId,
    pub context: C,
}

/// Whether an exchange runs at the given place.
pub open spec fn runs_at<C>(running: Seq<Running<C>>, id: ExchangeId, i: int) -> bool {
    0 <= i < running.len() && running[i].id == id
}

/// Whether an exchange runs.
pub open spec fn is_running<C>(running: Seq<Running<C>>, id: ExchangeId) -> bool {
    exists|i: int| #[trigger] runs_at(running, id, i)
}

/// Whether an exchange runs at the given place and nowhere before it.
pub open spec fn runs_first_at<C>(running: Seq<Running<C>>, id: ExchangeId, i: int) -> bool {
    runs_at(running, id, i) && forall|k: int| k < i ==> !#[trigger] runs_at(running, id, k)
}

/// The first place where an exchange runs.
pub open spec fn first_place<C>(running: Seq<Running<C>>, id: ExchangeId) -> int {
    choose|i: int| #[trigger] runs_first_at(running, id, i)
}

/// Picks the exchanges that do not run.
pub open spec fn not_running<C>(running: Seq<Running<C>>) -> spec_fn(ExchangeId) -> bool {
    |id: ExchangeId| !is_running(running, id)
}

/// The exchanges that are tracked and do not run, in the order of the list.
pub open spec fn missing<C>(listed: Seq<ExchangeId>, running: Seq<Running<C>>) -> Seq<ExchangeId> {
    listed.filter(not_running(running))
}

/// Picks every exchange but the new one, if any.
pub open spec fn other_than(new_id: Option<ExchangeId>) -> spec_fn(ExchangeId) -> bool {
    |id: ExchangeId| Some(id) != new_id
}

/// The exchanges of which the documents are opened: those that are missing, but for the
/// new one, which is there already.
pub open spec fn to_load(missing: Seq<ExchangeId>, new_id: Option<ExchangeId>) -> Seq<ExchangeId> {
    missing.filter(other_than(new_id))
}

/// The id of the new exchange, if any.
pub open spec fn id_of<C>(new: Option<Running<C>>) -> Option<ExchangeId> {
    match new {
        Some(new) => Some(new.id),
        None => None,
    }
}

/// The exchanges that are added for the missing ones, in their order: the new one where
/// it is missing, and for all others those that were loaded, one after the other.
pub open spec fn added<C>(
    missing: Seq<ExchangeId>,
    new: Option<Running<C>>,
    loaded: Seq<Running<C>>,
) -> Seq<Running<C>>
    decreases missing.len(),
{
    if missing.len() == 0 {
        Seq::empty()
    } else {
        let front = missing.drop_last();
        if id_of(new) == Some(missing.last()) {
            added(front, new, loaded).push(new->0)
        } else {
            added(front, new, loaded).push(loaded[to_load(front, id_of(new)).len() as int])
        }
    }
}

/// Whether the new exchange, if any, is listed no more than once or runs already: a
/// new exchange can be adopted only once.
pub open spec fn adopted_once<C>(
    listed: Seq<ExchangeId>,
    running: Seq<Running<C>>,
    new_id: Option<ExchangeId>,
) -> bool {
    forall|i: int, j: int|
        0 <= i < j < listed.len() && Some(#[trigger] listed[i]) == new_id && Some(
            #[trigger] listed[j],
        ) == new_id ==> is_running(running, listed[i])
}

/// The running exchanges after new ones were added and one was given up. The one that
/// is given up is looked for among those that ran before.
pub open spec fn reloaded<C>(
    running: Seq<Running<C>>,
    added: Seq<Running<C>>,
    del: Option<ExchangeId>,
) -> Seq<Running<C>> {
    if del is Some && is_running(running, del->0) {
        (running + added).remove(first_place(running, del->0))
    } else {
        running + added
    }
}

/// The exchanges of a node.
pub struct Service<C> {
    exchanges: Vec<Running<C>>,
}

impl<C> View for Service<C> {
    type V = Seq<Running<C>>;

    /// The running exchanges.
    closed spec fn view(&self) -> Seq<Running<C>> {
        self.exchanges@
    }
}

impl<C> Service<C> {
    /// No exchange runs.
    pub fn new() -> (service: Service<C>)
        ensures
            service@ == Seq::<Running<C>>::empty(),
    {
        Service { exchanges: Vec::new() }
    }

    /// The running exchanges.
    pub fn contexts(&self) -> (running: &Vec<Running<C>>)
        ensures
            running@ == self@,
    {
        &self.exchanges
    }

    /// The first place where an exchange runs.
    fn position(&self, id: &ExchangeId) -> (at: Option<usize>)
        ensures
            at is Some <==> is_running(self@, *id),
            at is Some ==> runs_first_at(self@, *id, at->0 as int),
    {
        let mut i: usize = 0;
        while i < self.exchanges.len()
            invariant
                i <= self.exchanges@.len(),
                forall|k: int| k < i ==> !#[trigger] runs_at(self.exchanges@, *id, k),
            decreases self.exchanges@.len() - i,
        {
            if self.exchanges[i].id == *id {
                assert(runs_at(self.exchanges@, *id, i as int));
                return Some(i);
            }
            i = i + 1;
        }
        None
    }

    /// The handle of a running exchange: the first one of that id.
    pub fn context_by_id(&self, id: &ExchangeId) -> (context: Option<&C>)
        ensures
            context is Some <==> is_running(self@, *id),
            context is Some ==> *context->0 == self@[first_place(self@, *id)].context,
    {
        match self.position(id) {
            Some(i) => {
                proof {
                    lemma_first_place(self@, *id, i as int);
                }
                Some(&self.exchanges[i].context)
            },
            None => None,
        }
    }

    /// The exchanges that are tracked and do not run, but for the new one, in the order of
    /// the list: their documents are to be opened.
    pub fn missing_contexts(&self, listed: &Vec<ExchangeId>, new_id: Option<ExchangeId>) -> (ids:
        Vec<ExchangeId>)
        ensures
            ids@ == to_load(missing(listed@, self@), new_id),
    {
        let mut ids: Vec<ExchangeId> = Vec::new();
        let mut i: usize = 0;
        assert(to_load(missing(listed@.subrange(0, 0), self@), new_id) =~= Seq::empty()) by {
            reveal(Seq::filter);
        }
        while i < listed.len()
            invariant
                i <= listed@.len(),
                ids@ == to_load(missing(listed@.subrange(0, i as int), self@), new_id),
            decreases listed@.len() - i,
        {
            let id = listed[i];
            proof {
                lemma_next_missing(listed@, self@, i as int);
                lemma_next_to_load(missing(listed@.subrange(0, i as int), self@), id, new_id);
            }
            if self.position(&id).is_none() {
                match new_id {
                    Some(new) if new == id => {},
                    _ => {
                        ids.push(id);
                    },
                }
            }
            i = i + 1;
        }
        assert(listed@.subrange(0, i as int) =~= listed@);
        ids
    }

    /// Whether a new exchange is adopted no more than once.
    pub fn adopts_once(&self, listed: &Vec<ExchangeId>, new_id: Option<ExchangeId>) -> (once: bool)
        ensures
            once == adopted_once(listed@, self@, new_id),
    {
        let new = match new_id {
            Some(new) => new,
            None => {
                return true;
            },
        };
        if self.position(&new).is_some() {
            return true;
        }
        let mut found: bool = false;
        let mut i: usize = 0;
        while i < listed.len()
            invariant
                i <= listed@.len(),
                new_id == Some(new),
                !is_running(self@, new),
                found <==> exists|k: int| 0 <= k < i && #[trigger] listed@[k] == new,
                forall|j: int, k: int|
                    0 <= j < k < i ==> !(#[trigger] listed@[j] == new && #[trigger] listed@[k]
                        == new),
            decreases listed@.len() - i,
        {
            if listed[i] == new {
                if found {
                    proof {
                        let k = choose|k: int| 0 <= k < i && #[trigger] listed@[k] == new;
                        assert(Some(listed@[k]) == new_id && Some(listed@[i as int]) == new_id);
                    }
                    return false;
                }
                found = true;
            }
            i = i + 1;
        }
        true
    }

    /// Takes in the exchanges that are missing, and gives up the exchange `del_context`.
    /// Where the new exchange is missing it is adopted; the others have been loaded.
    pub fn reload_contexts(
        &mut self,
        listed: &Vec<ExchangeId>,
        new_context: Option<Running<C>>,
        loaded: Vec<Running<C>>,
        del_context: Option<ExchangeId>,
    ) -> (event: Events)
        requires
            adopted_once(listed@, old(self)@, id_of(new_context)),
            ids_of(loaded@) == to_load(missing(listed@, old(self)@), id_of(new_context)),
        ensures
            final(self)@ == reloaded(
                old(self)@,
                added(missing(listed@, old(self)@), new_context, loaded@),
                del_context,
            ),
            event == Events::ListDidUpdate,
    {
        let idx_to_delete = match del_context {
            Some(id) => self.position(&id),
            None => None,
        };
        let mut new_exchanges = self.adopt(listed, new_context, loaded);
        let ghost before = self.exchanges@;
        self.exchanges.append(&mut new_exchanges);
        if let Some(del_idx) = idx_to_delete {
            proof {
                lemma_first_place(before, del_context->0, del_idx as int);
            }
            self.exchanges.remove(del_idx);
        }
        Events::ListDidUpdate
    }

    /// Takes in the exchanges that are missing where all of them could be loaded. Where one
    /// could not, nothing changes: no exchange is added, none is given up, there is no
    /// news, and the failure is handed on.
    pub fn reload_or_fail<E>(
        &mut self,
        listed: &Vec<ExchangeId>,
        new_context: Option<Running<C>>,
        loaded: Result<Vec<Running<C>>, E>,
        del_context: Option<ExchangeId>,
    ) -> (event: Result<Events, E>)
        requires
            loaded is Ok ==> adopted_once(listed@, old(self)@, id_of(new_context)),
            loaded is Ok ==> ids_of(loaded->Ok_0@) == to_load(
                missing(listed@, old(self)@),
                id_of(new_context),
            ),
        ensures
            match loaded {
                Ok(loaded) => {
                    &&& event == Ok::<Events, E>(Events::ListDidUpdate)
                    &&& final(self)@ == reloaded(
                        old(self)@,
                        added(missing(listed@, old(self)@), new_context, loaded@),
                        del_context,
                    )
                },
                Err(e) => event == Err::<Events, E>(e) && final(self)@ == old(self)@,
            },
    {
        match loaded {
            Ok(loaded) => Ok(self.reload_contexts(listed, new_context, loaded, del_context)),
            Err(e) => Err(e),
        }
    }

    /// The exchanges that are added for the missing ones.
    fn adopt(
        &self,
        listed: &Vec<ExchangeId>,
        new_context: Option<Running<C>>,
        loaded: Vec<Running<C>>,
    ) -> (new_exchanges: Vec<Running<C>>)
        requires
            adopted_once(listed@, self@, id_of(new_context)),
            ids_of(loaded@) == to_load(missing(listed@, self@), id_of(new_context)),
        ensures
            new_exchanges@ == added(missing(listed@, self@), new_context, loaded@),
    {
        let ghost new_id = id_of(new_context);
        let maybe_id_of_new = match &new_context {
            Some(new) => Some(new.id),
            None => None,
        };
        let mut movable = new_context;
        let mut rest = loaded;
        let mut new_exchanges: Vec<Running<C>> = Vec::new();
        let mut i: usize = 0;
        assert(missing(listed@.subrange(0, 0), self@) =~= Seq::empty()) by {
            reveal(Seq::filter);
        }
        assert(to_load(Seq::empty(), new_id) =~= Seq::empty()) by {
            reveal(Seq::filter);
        }
        assert(loaded@.skip(0) =~= loaded@);
        while i < listed.len()
            invariant
                i <= listed@.len(),
                maybe_id_of_new == new_id,
                new_id == id_of(new_context),
                adopted_once(listed@, self@, new_id),
                ids_of(loaded@) == to_load(missing(listed@, self@), new_id),
                new_exchanges@ == added(
                    missing(listed@.subrange(0, i as int), self@),
                    new_context,
                    loaded@,
                ),
                rest@ == loaded@.skip(
                    to_load(missing(listed@.subrange(0, i as int), self@), new_id).len() as int,
                ),
                movable == new_context || exists|j: int|
                    0 <= j < i && Some(#[trigger] listed@[j]) == new_id,
            decreases listed@.len() - i,
        {
            let id = listed[i];
            let ghost seen = missing(listed@.subrange(0, i as int), self@);
            proof {
                lemma_next_missing(listed@, self@, i as int);
                lemma_next_to_load(seen, id, new_id);
            }
            if self.position(&id).is_none() {
                assert(seen.push(id).drop_last() =~= seen);
                match maybe_id_of_new {
                    Some(new) if new == id => {
                        match movable.take() {
                            Some(context) => {
                                new_exchanges.push(context);
                            },
                            None => {
                                assert(false);
                            },
                        }
                    },
                    _ => {
                        proof {
                            lemma_prefix_is_loaded(listed@, self@, new_id, i + 1);
                            assert(ids_of(loaded@).len() == loaded@.len());
                        }
                        let context = rest.remove(0);
                        new_exchanges.push(context);
                    },
                }
            }
            i = i + 1;
        }
        assert(listed@.subrange(0, i as int) =~= listed@);
        new_exchanges
    }

    /// Begins to make an exchange, which is then registered or not.
    pub fn create_exchange(&self, register: bool) -> (begun: (ExchangeSetup, SetupAction))
        ensures
            begun == (ExchangeSetup::Opening { register }, SetupAction::CreateDoc),
    {
        (ExchangeSetup::Opening { register }, SetupAction::CreateDoc)
    }

    /// Begins to join an exchange, which is then registered or not.
    pub fn join_exchange(&self, join_ticket: String, register: bool) -> (begun: (
        ExchangeSetup,
        SetupAction,
    ))
        ensures
            begun == (ExchangeSetup::Opening { register }, SetupAction::ImportDoc(join_ticket)),
    {
        (ExchangeSetup::Opening { register }, SetupAction::ImportDoc(join_ticket))
    }

    /// The steps that register an exchange that has been started, in their order.
    pub fn add_context(&self, id: ExchangeId) -> (steps: Vec<SetupAction>)
        ensures
            steps@ == seq![SetupAction::SaveId(id), SetupAction::Reload(id)],
    {
        vec![SetupAction::SaveId(id), SetupAction::Reload(id)]
    }

    /// How the picture of `myself`, if any, is shared on all running exchanges, in their
    /// order.
    pub fn reload_pic_for_all(&self, myself: PublicKey, pic: Option<&Entry>) -> (shares: Vec<
        PicShare,
    >)
        ensures
            pic is None ==> shares@.len() == 0,
            pic is Some ==> shares@.len() == self@.len() && forall|i: int|
                0 <= i < self@.len() ==> (#[trigger] shares@[i]).id == self@[i].id
                    && shares@[i].write.points(
                    myself,
                    ID_PIC@,
                    pic->0.content_hash,
                    pic->0.content_len,
                ),
            shares_pic(shares@, self@, myself, pic),
    {
        let mut shares: Vec<PicShare> = Vec::new();
        if let Some(pic) = pic {
            proof {
                id_pic_is_a_file();
            }
            let mut i: usize = 0;
            while i < self.exchanges.len()
                invariant
                    i <= self.exchanges@.len(),
                    shares@.len() == i,
                    file_key_of(PIC_NAME@) == ID_PIC@,
                    forall|k: int|
                        0 <= k < i ==> (#[trigger] shares@[k]).id == self.exchanges@[k].id
                            && shares@[k].write.points(
                            myself,
                            ID_PIC@,
                            pic.content_hash,
                            pic.content_len,
                        ),
                decreases self.exchanges@.len() - i,
            {
                shares.push(
                    PicShare {
                        id: self.exchanges[i].id,
                        write: ExchangeContext::file_write(myself, PIC_NAME, pic),
                    },
                );
                i = i + 1;
            }
        }
        shares
    }

    /// The steps that give up a running exchange, in their order.
    pub fn delete_exchange(&self, exchange_id: ExchangeId) -> (steps: Result<Vec<DeleteStep>, Error>)
        ensures
            steps is Ok <==> is_running(self@, exchange_id),
            steps is Ok ==> steps->Ok_0@ == delete_steps(exchange_id),
            steps is Err ==> steps->Err_0 == Error::ExchangeNotFound,
    {
        if self.position(&exchange_id).is_none() {
            return Err(Error::ExchangeNotFound);
        }
        let steps = vec![
            DeleteStep::ShutDown(exchange_id),
            DeleteStep::DropDoc(exchange_id),
            DeleteStep::Forget(exchange_id),
            DeleteStep::Reload(exchange_id),
        ];
        assert(steps@ =~= delete_steps(exchange_id));
        Ok(steps)
    }
}

/// A picture that is to be shared on an exchange.
pub struct PicShare {
    pub id: ExchangeId,
    pub write: DocWrite,
}

/// The file name of a participant's picture.
pub const PIC_NAME: &'static str = "id_pic";

/// A step on the way to give up an exchange.
#[derive(PartialEq, Eq, Structural, Clone, Copy, Debug)]
pub enum DeleteStep {
    /// Leave and close the document.
    ShutDown(ExchangeId),
    /// Drop the document from the node.
    DropDoc(ExchangeId),
    /// Take the exchange from the list of tracked ones.
    Forget(ExchangeId),
    /// Reload the running exchanges without it.
    Reload(ExchangeId),
}

/// The steps that give up an exchange, in their order.
pub open spec fn delete_steps(id: ExchangeId) -> Seq<DeleteStep> {
    seq![
        DeleteStep::ShutDown(id),
        DeleteStep::DropDoc(id),
        DeleteStep::Forget(id),
        DeleteStep::Reload(id),
    ]
}

/// Where the list of tracked exchanges is loaded from.
pub fn exchange_list_lookup() -> (lookup: DocLookup)
    ensures
        lookup.key() == SETTINGS_EXCHANGES_LIST_KEY@,
        lookup.author() is None,
{
    load_from_doc_at_key(None, SETTINGS_EXCHANGES_LIST_KEY)
}

/// The tracked exchanges: none where the list could not be loaded.
pub fn list_exchange_ids<E>(loaded: Result<Vec<ExchangeId>, E>) -> (ids: Vec<ExchangeId>)
    ensures
        loaded is Ok ==> ids == loaded->Ok_0,
        loaded is Err ==> ids@ == Seq::<ExchangeId>::empty(),
        ids@ == known_ids(loaded),
{
    match loaded {
        Ok(ids) => ids,
        Err(_) => Vec::new(),
    }
}

/// Picks every exchange but one.
pub open spec fn all_but(id: ExchangeId) -> spec_fn(ExchangeId) -> bool {
    |e: ExchangeId| e != id
}

/// The tracked exchanges without one of them.
pub open spec fn untracked(ids: Seq<ExchangeId>, id: ExchangeId) -> Seq<ExchangeId> {
    ids.filter(all_but(id))
}

/// Whether a write keeps a list as that of the tracked exchanges.
pub open spec fn keeps_list(write: DocWrite, myself: PublicKey, ids: Seq<ExchangeId>) -> bool {
    &&& write is Save
    &&& write.author() == myself
    &&& write.key() == SETTINGS_EXCHANGES_LIST_KEY@
    &&& write->record matches Record::ExchangeIds(list)
    &&& list@ == ids
}

/// The write that tracks one more exchange.
pub fn save_exchange_id(
    myself: Option<PublicKey>,
    ids: Vec<ExchangeId>,
    exchange_id: ExchangeId,
) -> (write: Result<DocWrite, Error>)
    ensures
        write is Ok <==> myself is Some,
        write is Ok ==> keeps_list(write->Ok_0, myself->0, ids@.push(exchange_id)),
        write is Err ==> write->Err_0 == Error::NoIdentityToTrack,
        write is Ok ==> keeps_list(write->Ok_0, myself->0, with_id(ids@, exchange_id)),
{
    match myself {
        Some(pk) => {
            let mut ids = ids;
            ids.push(exchange_id);
            Ok(save_on_doc_as_key(&pk, SETTINGS_EXCHANGES_LIST_KEY, Record::ExchangeIds(ids)))
        },
        None => Err(Error::NoIdentityToTrack),
    }
}

/// The write that tracks an exchange no more.
pub fn delete_exchange_id(
    myself: Option<PublicKey>,
    ids: Vec<ExchangeId>,
    exchange_id: ExchangeId,
) -> (write: Result<DocWrite, Error>)
    ensures
        write is Ok <==> myself is Some,
        write is Ok ==> keeps_list(write->Ok_0, myself->0, untracked(ids@, exchange_id)),
        write is Err ==> write->Err_0 == Error::NoIdentity,
{
    let pk = match myself {
        Some(pk) => pk,
        None => {
            return Err(Error::NoIdentity);
        },
    };
    let mut kept: Vec<ExchangeId> = Vec::new();
    let mut i: usize = 0;
    assert(untracked(ids@.subrange(0, 0), exchange_id) =~= Seq::empty()) by {
        reveal(Seq::filter);
    }
    while i < ids.len()
        invariant
            i <= ids@.len(),
            kept@ == untracked(ids@.subrange(0, i as int), exchange_id),
        decreases ids@.len() - i,
    {
        proof {
            assert(ids@.subrange(0, i + 1).drop_last() =~= ids@.subrange(0, i as int));
            reveal(Seq::filter);
        }
        if ids[i] != exchange_id {
            kept.push(ids[i]);
        }
        i = i + 1;
    }
    assert(ids@.subrange(0, i as int) =~= ids@);
    Ok(save_on_doc_as_key(&pk, SETTINGS_EXCHANGES_LIST_KEY, Record::ExchangeIds(kept)))
}

/// The document of a tracked exchange, or the error that the node has none.
pub fn load_exchange_context<D>(opened: Option<D>) -> (doc: Result<D, Error>)
    ensures
        doc == (match opened {
            Some(doc) => Ok::<D, Error>(doc),
            None => Err::<D, Error>(Error::NoExchangeDocument),
        }),
{
    match opened {
        Some(doc) => Ok(doc),
        None => Err(Error::NoExchangeDocument),
    }
}

/// Whether the news of an exchange change how the list of exchanges looks.
pub open spec fn changes_list(event: ContextEvents) -> bool {
    match event {
        ContextEvents::Join(_) => true,
        ContextEvents::LiveConnectionsUpdated(_) => true,
        ContextEvents::FileUpdated(file) => file.name@ == ID_PIC@,
        _ => false,
    }
}

/// What the news of an exchange mean for the list of exchanges.
pub fn watch_context_changes(event: &ContextEvents) -> (news: Option<Events>)
    ensures
        news == (if changes_list(*event) {
            Some(Events::ListDidUpdate)
        } else {
            None
        }),
{
    match event {
        ContextEvents::Join(_) => Some(Events::ListDidUpdate),
        ContextEvents::LiveConnectionsUpdated(_) => Some(Events::ListDidUpdate),
        ContextEvents::FileUpdated(file) => {
            if same_text(file.name.as_str(), ID_PIC) {
                Some(Events::ListDidUpdate)
            } else {
                None
            }
        },
        _ => None,
    }
}

proof fn lemma_first_place<C>(running: Seq<Running<C>>, id: ExchangeId, i: int)
    requires
        runs_first_at(running, id, i),
    ensures
        first_place(running, id) == i,
{
    let k = first_place(running, id);
    assert(runs_first_at(running, id, k));
    assert(!(i < k));
    assert(!(k < i));
}

proof fn lemma_next_missing<C>(listed: Seq<ExchangeId>, running: Seq<Running<C>>, i: int)
    requires
        0 <= i < listed.len(),
    ensures
        missing(listed.subrange(0, i + 1), running) == (if is_running(running, listed[i]) {
            missing(listed.subrange(0, i), running)
        } else {
            missing(listed.subrange(0, i), running).push(listed[i])
        }),
{
    reveal(Seq::filter);
    assert(listed.subrange(0, i + 1).drop_last() =~= listed.subrange(0, i));
}

proof fn lemma_next_to_load(ids: Seq<ExchangeId>, id: ExchangeId, new_id: Option<ExchangeId>)
    ensures
        to_load(ids.push(id), new_id) == (if new_id == Some(id) {
            to_load(ids, new_id)
        } else {
            to_load(ids, new_id).push(id)
        }),
{
    reveal(Seq::filter);
    assert(ids.push(id).drop_last() =~= ids);
}

proof fn lemma_prefix_is_loaded<C>(
    listed: Seq<ExchangeId>,
    running: Seq<Running<C>>,
    new_id: Option<ExchangeId>,
    i: int,
)
    requires
        0 <= i <= listed.len(),
    ensures
        to_load(missing(listed.subrange(0, i), running), new_id).len() <= to_load(
            missing(listed, running),
            new_id,
        ).len(),
{
    let a = listed.subrange(0, i);
    let b = listed.subrange(i, listed.len() as int);
    assert(listed =~= a + b);
    Seq::filter_distributes_over_add(a, b, not_running(running));
    Seq::filter_distributes_over_add(
        missing(a, running),
        missing(b, running),
        other_than(new_id),
    );
}

proof fn lemma_added_ids<C>(
    missing: Seq<ExchangeId>,
    new: Option<Running<C>>,
    loaded: Seq<Running<C>>,
)
    requires
        to_load(missing, id_of(new)).is_prefix_of(ids_of(loaded)),
    ensures
        ids_of(added(missing, new, loaded)) == missing,
    decreases missing.len(),
{
    if missing.len() == 0 {
        assert(ids_of(added(missing, new, loaded)) =~= missing);
    } else {
        let front = missing.drop_last();
        let id = missing.last();
        assert(front.push(id) =~= missing);
        lemma_next_to_load(front, id, id_of(new));
        assert(to_load(front, id_of(new)).is_prefix_of(ids_of(loaded)));
        lemma_added_ids(front, new, loaded);
        if id_of(new) != Some(id) {
            let n = to_load(front, id_of(new)).len() as int;
            assert(to_load(missing, id_of(new))[n] == id);
            assert(ids_of(loaded)[n] == loaded[n].id);
        }
        assert(ids_of(added(missing, new, loaded)) =~= ids_of(added(front, new, loaded)).push(id));
    }
}

/// What reloading adds is what was missing: one exchange for each, in the order of the
/// list.
pub proof fn what_is_missing_is_added<C>(
    listed: Seq<ExchangeId>,
    running: Seq<Running<C>>,
    new: Option<Running<C>>,
    loaded: Seq<Running<C>>,
)
    requires
        ids_of(loaded) == to_load(missing(listed, running), id_of(new)),
    ensures
        ids_of(added(missing(listed, running), new, loaded)) == missing(listed, running),
{
    lemma_added_ids(missing(listed, running), new, loaded);
}

/// The ids of running exchanges, in their order.
pub open spec fn ids_of<C>(running: Seq<Running<C>>) -> Seq<ExchangeId> {
    running.map_values(|r: Running<C>| r.id)
}

/// Whether no exchange runs twice.
pub open spec fn run_once<C>(running: Seq<Running<C>>) -> bool {
    forall|id: ExchangeId, i: int, j: int|
        #[trigger] runs_at(running, id, i) && #[trigger] runs_at(running, id, j) ==> i == j
}

proof fn lemma_runs_somewhere<C>(running: Seq<Running<C>>, id: ExchangeId, i: int)
    requires
        runs_at(running, id, i),
    ensures
        exists|k: int| #[trigger] runs_first_at(running, id, k),
        runs_first_at(running, id, first_place(running, id)),
    decreases i,
{
    if exists|k: int| k < i && #[trigger] runs_at(running, id, k) {
        let k = choose|k: int| k < i && #[trigger] runs_at(running, id, k);
        lemma_runs_somewhere(running, id, k);
    } else {
        assert(runs_first_at(running, id, i));
    }
}

proof fn lemma_reloaded<C>(
    running: Seq<Running<C>>,
    added: Seq<Running<C>>,
    del: Option<ExchangeId>,
    i: int,
)
    requires
        0 <= i < running.len() + added.len(),
    ensures
        del is Some && is_running(running, del->0) && i == first_place(running, del->0) || exists|
            k: int,
        |
            0 <= k < reloaded(running, added, del).len() && #[trigger] reloaded(
                running,
                added,
                del,
            )[k] == (running + added)[i],
{
    let all = running + added;
    let after = reloaded(running, added, del);
    if del is Some && is_running(running, del->0) {
        let w = choose|w: int| #[trigger] runs_at(running, del->0, w);
        lemma_runs_somewhere(running, del->0, w);
        let at = first_place(running, del->0);
        assert(runs_at(running, del->0, at));
        if i < at {
            assert(after[i] == all[i]);
        } else if i > at {
            assert(after[i - 1] == all[i]);
        }
    } else {
        assert(after[i] == all[i]);
    }
}

/// Reloading makes every exchange run that is on the list, but for the one that is
/// given up.
pub proof fn everything_listed_runs<C>(
    listed: Seq<ExchangeId>,
    running: Seq<Running<C>>,
    added: Seq<Running<C>>,
    del: Option<ExchangeId>,
)
    requires
        ids_of(added) == missing(listed, running),
    ensures
        forall|id: ExchangeId|
            listed.contains(id) && Some(id) != del ==> #[trigger] is_running(
                reloaded(running, added, del),
                id,
            ),
{
    let after = reloaded(running, added, del);
    let all = running + added;
    assert forall|id: ExchangeId| listed.contains(id) && Some(id) != del implies #[trigger]
        is_running(after, id) by {
        let i = if is_running(running, id) {
            let i = choose|i: int| #[trigger] runs_at(running, id, i);
            assert(all[i] == running[i]);
            i
        } else {
            let at = choose|at: int| 0 <= at < listed.len() && listed[at] == id;
            listed.lemma_filter_contains(not_running(running), at);
            assert(missing(listed, running).contains(id));
            let k = choose|k: int|
                0 <= k < missing(listed, running).len() && missing(listed, running)[k] == id;
            assert(ids_of(added)[k] == added[k].id);
            assert(all[running.len() + k] == added[k]);
            running.len() + k
        };
        assert(all[i].id == id);
        lemma_reloaded(running, added, del, i);
        if del is Some && is_running(running, del->0) {
            let w = choose|w: int| #[trigger] runs_at(running, del->0, w);
            lemma_runs_somewhere(running, del->0, w);
            assert(runs_at(running, del->0, first_place(running, del->0)));
        }
        let k = choose|k: int| 0 <= k < after.len() && #[trigger] after[k] == all[i];
        assert(runs_at(after, id, k));
    }
}

/// Reloading keeps every exchange that runs, but for the one that is given up.
pub proof fn running_exchanges_are_kept<C>(
    running: Seq<Running<C>>,
    added: Seq<Running<C>>,
    del: Option<ExchangeId>,
)
    ensures
        forall|i: int|
            0 <= i < running.len() && Some((#[trigger] running[i]).id) != del ==> reloaded(
                running,
                added,
                del,
            ).contains(running[i]),
{
    let after = reloaded(running, added, del);
    assert forall|i: int|
        0 <= i < running.len() && Some((#[trigger] running[i]).id) != del implies after.contains(
        running[i],
    ) by {
        assert((running + added)[i] == running[i]);
        lemma_reloaded(running, added, del, i);
        if del is Some && is_running(running, del->0) {
            let w = choose|w: int| #[trigger] runs_at(running, del->0, w);
            lemma_runs_somewhere(running, del->0, w);
            assert(runs_at(running, del->0, first_place(running, del->0)));
        }
        let k = choose|k: int| 0 <= k < after.len() && #[trigger] after[k] == running[i];
        assert(after[k] == running[i]);
    }
}

/// Reloading again finds nothing missing.
pub proof fn reloading_twice_adds_nothing<C>(
    listed: Seq<ExchangeId>,
    running: Seq<Running<C>>,
    added: Seq<Running<C>>,
)
    requires
        ids_of(added) == missing(listed, running),
    ensures
        missing(listed, reloaded(running, added, None)) == Seq::<ExchangeId>::empty(),
{
    let after = reloaded(running, added, None);
    everything_listed_runs(listed, running, added, None);
    let pred = not_running(after);
    let rest = missing(listed, after);
    if rest.len() > 0 {
        listed.lemma_filter_pred(pred, 0);
        lemma_filter_is_part(listed, pred, 0);
        assert(listed.contains(rest[0]));
        assert(is_running(after, rest[0]));
    }
    assert(rest =~= Seq::<ExchangeId>::empty());
}

/// An exchange that was put on the list runs after a restart, when nothing runs and the
/// list is loaded.
pub proof fn listed_exchange_persists<C>(
    write: DocWrite,
    myself: PublicKey,
    ids: Seq<ExchangeId>,
    id: ExchangeId,
    loaded: Seq<Running<C>>,
)
    requires
        keeps_list(write, myself, ids.push(id)),
        ids_of(loaded) == to_load(missing(ids.push(id), Seq::<Running<C>>::empty()), None),
    ensures
        is_running(
            reloaded(
                Seq::empty(),
                added(missing(ids.push(id), Seq::<Running<C>>::empty()), None, loaded),
                None,
            ),
            id,
        ),
{
    let listed = ids.push(id);
    let none = Seq::<Running<C>>::empty();
    what_is_missing_is_added(listed, none, None, loaded);
    everything_listed_runs(listed, none, added(missing(listed, none), None, loaded), None);
    assert(listed[ids.len() as int] == id);
}

/// A picture that a participant shares is news for the list of exchanges.
pub proof fn shared_picture_changes_the_list(file: File, name: Seq<char>)
    requires
        name == PIC_NAME@,
        file.name@ == file_key_of(name),
    ensures
        changes_list(ContextEvents::FileUpdated(file)),
{
    id_pic_is_a_file();
}

proof fn lemma_filter_is_part(ids: Seq<ExchangeId>, pred: spec_fn(ExchangeId) -> bool, i: int)
    requires
        0 <= i < ids.filter(pred).len(),
    ensures
        ids.contains(ids.filter(pred)[i]),
    decreases ids.len(),
{
    reveal(Seq::filter);
    if ids.len() > 0 {
        let front = ids.drop_last();
        if i < front.filter(pred).len() {
            lemma_filter_is_part(front, pred, i);
            let k = choose|k: int| 0 <= k < front.len() && front[k] == front.filter(pred)[i];
            assert(ids[k] == front[k]);
        } else {
            assert(ids[ids.len() - 1] == ids.last());
        }
    }
}

/// An exchange that is given up runs no more, where each exchange runs once.
pub proof fn given_up_exchange_is_gone<C>(
    listed: Seq<ExchangeId>,
    running: Seq<Running<C>>,
    added: Seq<Running<C>>,
    id: ExchangeId,
)
    requires
        run_once(running),
        !listed.contains(id),
        ids_of(added) == missing(listed, running),
    ensures
        !is_running(reloaded(running, added, Some(id)), id),
{
    let after = reloaded(running, added, Some(id));
    let all = running + added;
    if is_running(after, id) {
        let k = choose|k: int| #[trigger] runs_at(after, id, k);
        if is_running(running, id) {
            let w = choose|w: int| #[trigger] runs_at(running, id, w);
            lemma_runs_somewhere(running, id, w);
            let at = first_place(running, id);
            assert(runs_at(running, id, at));
            let back = if k < at { k } else { k + 1 };
            assert(after[k] == all[back]);
            if back < running.len() {
                assert(runs_at(running, id, back));
            } else {
                lemma_added_is_listed(listed, running, added, back - running.len());
            }
        } else {
            assert(after[k] == all[k]);
            if k < running.len() {
                assert(runs_at(running, id, k));
            } else {
                lemma_added_is_listed(listed, running, added, k - running.len());
            }
        }
    }
}

proof fn lemma_added_is_listed<C>(
    listed: Seq<ExchangeId>,
    running: Seq<Running<C>>,
    added: Seq<Running<C>>,
    k: int,
)
    requires
        ids_of(added) == missing(listed, running),
        0 <= k < added.len(),
    ensures
        listed.contains(added[k].id),
        !is_running(running, added[k].id),
{
    let pred = not_running(running);
    assert(ids_of(added)[k] == added[k].id);
    assert(ids_of(added).len() == added.len());
    lemma_filter_is_part(listed, pred, k);
    listed.lemma_filter_pred(pred, k);
}

/// Where the list names no exchange twice and no exchange runs twice, none runs twice
/// after reloading.
pub proof fn exchanges_run_once<C>(
    listed: Seq<ExchangeId>,
    running: Seq<Running<C>>,
    added: Seq<Running<C>>,
    del: Option<ExchangeId>,
)
    requires
        listed.no_duplicates(),
        run_once(running),
        ids_of(added) == missing(listed, running),
    ensures
        run_once(reloaded(running, added, del)),
{
    let all = running + added;
    let after = reloaded(running, added, del);
    lemma_filter_is_distinct(listed, not_running(running));
    assert(run_once(all)) by {
        assert forall|id: ExchangeId, i: int, j: int| #[trigger]
            runs_at(all, id, i) && #[trigger] runs_at(all, id, j) implies i == j by {
            let n = running.len() as int;
            if i < n {
                assert(runs_at(running, id, i));
            } else {
                lemma_added_is_listed(listed, running, added, i - n);
                assert(ids_of(added)[i - n] == id);
            }
            if j < n {
                assert(runs_at(running, id, j));
            } else {
                lemma_added_is_listed(listed, running, added, j - n);
                assert(ids_of(added)[j - n] == id);
            }
        }
    }
    if del is Some && is_running(running, del->0) {
        let w = choose|w: int| #[trigger] runs_at(running, del->0, w);
        lemma_runs_somewhere(running, del->0, w);
        let at = first_place(running, del->0);
        assert(runs_at(running, del->0, at));
        assert forall|id: ExchangeId, i: int, j: int| #[trigger]
            runs_at(after, id, i) && #[trigger] runs_at(after, id, j) implies i == j by {
            let a = if i < at { i } else { i + 1 };
            let b = if j < at { j } else { j + 1 };
            assert(runs_at(all, id, a));
            assert(runs_at(all, id, b));
        }
    }
}

proof fn lemma_filter_is_distinct(ids: Seq<ExchangeId>, pred: spec_fn(ExchangeId) -> bool)
    requires
        ids.no_duplicates(),
    ensures
        ids.filter(pred).no_duplicates(),
    decreases ids.len(),
{
    reveal(Seq::filter);
    if ids.len() > 0 {
        let front = ids.drop_last();
        lemma_filter_is_distinct(front, pred);
        let kept = front.filter(pred);
        assert forall|k: int| 0 <= k < kept.len() implies kept[k] != ids.last() by {
            lemma_filter_is_part(front, pred, k);
            let at = choose|at: int| 0 <= at < front.len() && front[at] == kept[k];
            assert(ids[at] == kept[k]);
            assert(ids[ids.len() - 1] == ids.last());
        }
    }
}

/// The list of exchanges that was kept last is found where it is loaded from.
pub proof fn kept_list_is_found(
    write: DocWrite,
    myself: PublicKey,
    ids: Seq<ExchangeId>,
    lookup: DocLookup,
)
    requires
        keeps_list(write, myself, ids),
        lookup.key() == SETTINGS_EXCHANGES_LIST_KEY@,
        lookup.author() is None,
    ensures
        finds(lookup, write),
{
}

/// The list of exchanges shares its key with nothing else on the settings document.
pub proof fn exchange_list_has_its_own_key(pk: PublicKey)
    ensures
        SETTINGS_EXCHANGES_LIST_KEY@ != ASSUMED_IDENTITY_KEY@,
        SETTINGS_EXCHANGES_LIST_KEY@ != identification_key_of(pk),
{
    reveal_strlit("exchange/tracked_exchanges");
    reveal_strlit("identity/assumed_pk");
    reveal_strlit("identity/identification/");
    assert(SETTINGS_EXCHANGES_LIST_KEY@[0] == 'e');
    assert(ASSUMED_IDENTITY_KEY@[0] == 'i');
    assert(identification_key_of(pk)[0] == 'i');
}

/// Putting an exchange on the list and taking it off again leaves the list as it was.
pub proof fn listing_is_undone(ids: Seq<ExchangeId>, id: ExchangeId)
    requires
        !ids.contains(id),
    ensures
        untracked(ids.push(id), id) == ids,
{
    reveal(Seq::filter);
    assert(ids.push(id).drop_last() =~= ids);
    lemma_nothing_untracked(ids, id);
}

proof fn lemma_nothing_untracked(ids: Seq<ExchangeId>, id: ExchangeId)
    requires
        !ids.contains(id),
    ensures
        untracked(ids, id) == ids,
    decreases ids.len(),
{
    reveal(Seq::filter);
    if ids.len() > 0 {
        let front = ids.drop_last();
        assert(!front.contains(id)) by {
            if front.contains(id) {
                let k = choose|k: int| 0 <= k < front.len() && front[k] == id;
                assert(ids[k] == id);
            }
        }
        lemma_nothing_untracked(front, id);
        assert(ids[ids.len() - 1] == ids.last());
        assert(front.push(ids.last()) =~= ids);
    } else {
        assert(untracked(ids, id) =~= ids);
    }
}

/// An exchange that is taken off the list is on it no more, and every other exchange
/// stays.
pub proof fn untracked_is_off_the_list(ids: Seq<ExchangeId>, id: ExchangeId)
    ensures
        !untracked(ids, id).contains(id),
        forall|other: ExchangeId|
            other != id ==> (#[trigger] untracked(ids, id).contains(other) <==> ids.contains(
                other,
            )),
{
    let pred = all_but(id);
    let kept = untracked(ids, id);
    if kept.contains(id) {
        let k = choose|k: int| 0 <= k < kept.len() && kept[k] == id;
        ids.lemma_filter_pred(pred, k);
    }
    assert forall|other: ExchangeId| other != id implies (#[trigger] kept.contains(other)
        <==> ids.contains(other)) by {
        if kept.contains(other) {
            let k = choose|k: int| 0 <= k < kept.len() && kept[k] == other;
            lemma_filter_is_part(ids, pred, k);
        }
        if ids.contains(other) {
            let k = choose|k: int| 0 <= k < ids.len() && ids[k] == other;
            ids.lemma_filter_contains(pred, k);
        }
    }
}

/// The list of exchanges looks different exactly where someone has joined, the connections
/// have changed, or a picture has.
pub proof fn only_visible_news_change_the_list(event: ContextEvents)
    ensures
        event is Join ==> changes_list(event),
        event is LiveConnectionsUpdated ==> changes_list(event),
        event matches ContextEvents::FileUpdated(file) ==> (changes_list(event) <==> file.name@
            == "files/id_pic"@),
        event is Loaded || event is MessageReceived || event is SyncFinished ==> !changes_list(
            event,
        ),
{
    assert(ID_PIC@ == "files/id_pic"@);
}

/// What is missing is what is listed and runs nowhere.
pub proof fn missing_is_listed_and_not_running<C>(
    listed: Seq<ExchangeId>,
    running: Seq<Running<C>>,
    id: ExchangeId,
)
    ensures
        missing(listed, running).contains(id) <==> listed.contains(id) && forall|i: int|
            0 <= i < running.len() ==> (#[trigger] running[i]).id != id,
{
    let pred = not_running(running);
    let rest = missing(listed, running);
    if rest.contains(id) {
        let k = choose|k: int| 0 <= k < rest.len() && rest[k] == id;
        lemma_filter_is_part(listed, pred, k);
        listed.lemma_filter_pred(pred, k);
        assert forall|i: int| 0 <= i < running.len() implies (#[trigger] running[i]).id != id by {
            assert(!runs_at(running, id, i));
        }
    }
    if listed.contains(id) && forall|i: int|
        0 <= i < running.len() ==> (#[trigger] running[i]).id != id {
        assert(!is_running(running, id)) by {
            if is_running(running, id) {
                let i = choose|i: int| #[trigger] runs_at(running, id, i);
                assert(running[i].id == id);
            }
        }
        let at = choose|at: int| 0 <= at < listed.len() && listed[at] == id;
        listed.lemma_filter_contains(pred, at);
    }
}

/// What is missing, and what of it is loaded, comes in the order of the list: what a longer
/// list misses is what its parts miss, one after the other.
pub proof fn missing_follows_the_list<C>(
    a: Seq<ExchangeId>,
    b: Seq<ExchangeId>,
    running: Seq<Running<C>>,
    new_id: Option<ExchangeId>,
)
    ensures
        missing(a + b, running) == missing(a, running) + missing(b, running),
        to_load(a + b, new_id) == to_load(a, new_id) + to_load(b, new_id),
{
    Seq::filter_distributes_over_add(a, b, not_running(running));
    Seq::filter_distributes_over_add(a, b, other_than(new_id));
}

/// Every missing exchange is loaded but the new one.
pub proof fn all_but_the_new_one_are_loaded(
    missing: Seq<ExchangeId>,
    new_id: Option<ExchangeId>,
    id: ExchangeId,
)
    ensures
        to_load(missing, new_id).contains(id) <==> missing.contains(id) && new_id != Some(id),
        new_id is None ==> to_load(missing, new_id) == missing,
    decreases missing.len(),
{
    let pred = other_than(new_id);
    let rest = to_load(missing, new_id);
    if rest.contains(id) {
        let k = choose|k: int| 0 <= k < rest.len() && rest[k] == id;
        lemma_filter_is_part(missing, pred, k);
        missing.lemma_filter_pred(pred, k);
    }
    if missing.contains(id) && new_id != Some(id) {
        let at = choose|at: int| 0 <= at < missing.len() && missing[at] == id;
        missing.lemma_filter_contains(pred, at);
    }
    if new_id is None {
        if missing.len() > 0 {
            let front = missing.drop_last();
            all_but_the_new_one_are_loaded(front, new_id, id);
            lemma_next_to_load(front, missing.last(), new_id);
            assert(front.push(missing.last()) =~= missing);
        } else {
            reveal(Seq::filter);
            assert(rest =~= missing);
        }
    }
}

/// A new exchange that is missing is adopted as it is, with its own handle, in its place.
/// Every other exchange is one that was loaded.
pub proof fn new_exchange_is_adopted<C>(
    missing: Seq<ExchangeId>,
    new: Option<Running<C>>,
    loaded: Seq<Running<C>>,
    k: int,
)
    requires
        ids_of(loaded) == to_load(missing, id_of(new)),
        0 <= k < missing.len(),
    ensures
        added(missing, new, loaded).len() == missing.len(),
        new is Some && new->0.id == missing[k] ==> added(missing, new, loaded)[k] == new->0,
        !(new is Some && new->0.id == missing[k]) ==> loaded.contains(
            added(missing, new, loaded)[k],
        ),
{
    lemma_added_at(missing, new, loaded, k);
}

proof fn lemma_added_at<C>(
    missing: Seq<ExchangeId>,
    new: Option<Running<C>>,
    loaded: Seq<Running<C>>,
    k: int,
)
    requires
        to_load(missing, id_of(new)).is_prefix_of(ids_of(loaded)),
        0 <= k < missing.len(),
    ensures
        added(missing, new, loaded).len() == missing.len(),
        new is Some && new->0.id == missing[k] ==> added(missing, new, loaded)[k] == new->0,
        !(new is Some && new->0.id == missing[k]) ==> loaded.contains(
            added(missing, new, loaded)[k],
        ),
    decreases missing.len(),
{
    lemma_added_ids(missing, new, loaded);
    assert(ids_of(added(missing, new, loaded)).len() == added(missing, new, loaded).len());
    let front = missing.drop_last();
    let id = missing.last();
    assert(front.push(id) =~= missing);
    lemma_next_to_load(front, id, id_of(new));
    assert(to_load(front, id_of(new)).is_prefix_of(ids_of(loaded)));
    lemma_added_ids(front, new, loaded);
    assert(ids_of(added(front, new, loaded)).len() == added(front, new, loaded).len());
    if k < front.len() {
        lemma_added_at(front, new, loaded, k);
    } else if id_of(new) != Some(id) {
        let n = to_load(front, id_of(new)).len() as int;
        assert(to_load(missing, id_of(new)).len() == n + 1);
        assert(ids_of(loaded).len() == loaded.len());
        assert(added(missing, new, loaded)[k] == loaded[n]);
    }
}

/// Reloading puts what is added behind what runs, and takes out at most the first exchange
/// of the id that is given up, leaving the rest in its order.
pub proof fn reloading_keeps_the_order<C>(
    running: Seq<Running<C>>,
    added: Seq<Running<C>>,
    del: Option<ExchangeId>,
)
    ensures
        (del is None || forall|i: int|
            0 <= i < running.len() ==> Some((#[trigger] running[i]).id) != del) ==> reloaded(
            running,
            added,
            del,
        ) == running + added,
        forall|at: int|
            0 <= at < running.len() && Some((#[trigger] running[at]).id) == del && (forall|k: int|
                0 <= k < at ==> Some((#[trigger] running[k]).id) != del) ==> reloaded(
                running,
                added,
                del,
            ) == running.subrange(0, at) + running.subrange(at + 1, running.len() as int) + added,
{
    if del is Some && is_running(running, del->0) {
        let w = choose|w: int| #[trigger] runs_at(running, del->0, w);
        assert(Some(running[w].id) == del);
    }
    assert forall|at: int|
        0 <= at < running.len() && Some((#[trigger] running[at]).id) == del && (forall|k: int|
            0 <= k < at ==> Some((#[trigger] running[k]).id) != del) implies reloaded(
        running,
        added,
        del,
    ) == running.subrange(0, at) + running.subrange(at + 1, running.len() as int) + added by {
        assert(runs_at(running, del->0, at));
        assert(runs_first_at(running, del->0, at)) by {
            assert forall|k: int| k < at implies !#[trigger] runs_at(running, del->0, k) by {
                if 0 <= k {
                    assert(Some(running[k].id) != del);
                }
            }
        }
        lemma_first_place(running, del->0, at);
        assert((running + added).remove(at) =~= running.subrange(0, at) + running.subrange(
            at + 1,
            running.len() as int,
        ) + added);
    }
}

/// An exchange is reached through the first one that runs under its id.
pub proof fn first_of_an_id_is_reached<C>(running: Seq<Running<C>>, id: ExchangeId)
    ensures
        is_running(running, id) <==> exists|i: int|
            0 <= i < running.len() && (#[trigger] running[i]).id == id,
        is_running(running, id) ==> {
            &&& 0 <= first_place(running, id) < running.len()
            &&& running[first_place(running, id)].id == id
            &&& forall|k: int|
                0 <= k < first_place(running, id) ==> (#[trigger] running[k]).id != id
        },
{
    if is_running(running, id) {
        let w = choose|w: int| #[trigger] runs_at(running, id, w);
        assert(running[w].id == id);
        lemma_runs_somewhere(running, id, w);
        assert forall|k: int| 0 <= k < first_place(running, id) implies (#[trigger] running[k]).id
            != id by {
            assert(!runs_at(running, id, k));
        }
    }
    if exists|i: int| 0 <= i < running.len() && (#[trigger] running[i]).id == id {
        let i = choose|i: int| 0 <= i < running.len() && (#[trigger] running[i]).id == id;
        assert(runs_at(running, id, i));
    }
}

/// An exchange is given up in four steps: its document is closed before it is dropped, and
/// it is off the list before the exchanges are reloaded without it.
pub proof fn exchange_is_given_up_in_order(id: ExchangeId)
    ensures
        delete_steps(id).len() == 4,
        delete_steps(id)[0] == DeleteStep::ShutDown(id),
        delete_steps(id)[1] == DeleteStep::DropDoc(id),
        delete_steps(id)[2] == DeleteStep::Forget(id),
        delete_steps(id)[3] == DeleteStep::Reload(id),
{
}

/// What is left of the list without an exchange keeps its order: that of a longer list is
/// that of its parts, one after the other.
pub proof fn unlisting_follows_the_list(a: Seq<ExchangeId>, b: Seq<ExchangeId>, id: ExchangeId)
    ensures
        untracked(a + b, id) == untracked(a, id) + untracked(b, id),
        !a.contains(id) ==> untracked(a, id) == a,
        untracked(seq![id], id) == Seq::<ExchangeId>::empty(),
{
    Seq::filter_distributes_over_add(a, b, all_but(id));
    if !a.contains(id) {
        lemma_nothing_untracked(a, id);
    }
    let one = seq![id];
    if untracked(one, id).len() > 0 {
        one.lemma_filter_pred(all_but(id), 0);
        lemma_filter_is_part(one, all_but(id), 0);
    }
    assert(untracked(one, id) =~= Seq::<ExchangeId>::empty());
}

/// A list that is kept is kept as it is: for `myself`, under the key of the list, with all
/// of its exchanges in their order.
pub proof fn list_is_kept_whole(write: DocWrite, myself: PublicKey, ids: Seq<ExchangeId>)
    ensures
        keeps_list(write, myself, ids) <==> (write matches DocWrite::Save {
            author,
            key,
            record: Record::ExchangeIds(list),
        } && author == myself && key@ == "exchange/tracked_exchanges"@ && list@ == ids),
{
    assert(SETTINGS_EXCHANGES_LIST_KEY@ == "exchange/tracked_exchanges"@);
}

/// A new exchange can be adopted where the list names it no more than once, and cannot
/// where it names it twice and it does not run.
pub proof fn adopting_needs_one_mention<C>(
    listed: Seq<ExchangeId>,
    running: Seq<Running<C>>,
    id: ExchangeId,
    i: int,
    j: int,
)
    ensures
        listed.no_duplicates() ==> adopted_once(listed, running, Some(id)),
        adopted_once(listed, running, None),
        is_running(running, id) ==> adopted_once(listed, running, Some(id)),
        0 <= i < j < listed.len() && listed[i] == id && listed[j] == id && !is_running(running, id)
            ==> !adopted_once(listed, running, Some(id)),
{
}

/// The list with an exchange put on it.
pub open spec fn with_id(ids: Seq<ExchangeId>, id: ExchangeId) -> Seq<ExchangeId> {
    ids.push(id)
}

/// An exchange that is tracked is put behind the others, also where it is on the list
/// already, and the others stay as they are. Untracking it gives what untracking it
/// before would have given.
pub proof fn tracking_appends(ids: Seq<ExchangeId>, id: ExchangeId)
    ensures
        with_id(ids, id).len() == ids.len() + 1,
        with_id(ids, id).last() == id,
        forall|i: int| 0 <= i < ids.len() ==> #[trigger] with_id(ids, id)[i] == ids[i],
        untracked(with_id(ids, id), id) == untracked(ids, id),
{
    reveal(Seq::filter);
    assert(ids.push(id).drop_last() =~= ids);
}

/// The exchanges that are known from a list that was loaded, or was not.
pub open spec fn known_ids<E>(loaded: Result<Vec<ExchangeId>, E>) -> Seq<ExchangeId> {
    match loaded {
        Ok(ids) => ids@,
        Err(_) => Seq::empty(),
    }
}

/// A list that was loaded is known whole and in its order, and one that was not is empty:
/// it can be added to all the same.
pub proof fn missing_lists_are_empty<E>(loaded: Result<Vec<ExchangeId>, E>, id: ExchangeId)
    ensures
        loaded is Err ==> known_ids(loaded).len() == 0 && with_id(known_ids(loaded), id).len() == 1,
        loaded matches Ok(ids) ==> known_ids(loaded).len() == ids@.len() && forall|i: int|
            0 <= i < ids@.len() ==> #[trigger] known_ids(loaded)[i] == ids@[i],
{
}

/// Whether a picture is shared with the running exchanges.
pub open spec fn shares_pic<C>(
    shares: Seq<PicShare>,
    running: Seq<Running<C>>,
    myself: PublicKey,
    pic: Option<&Entry>,
) -> bool {
    match pic {
        None => shares.len() == 0,
        Some(pic) => shares.len() == running.len() && forall|i: int|
            0 <= i < running.len() ==> (#[trigger] shares[i]).id == running[i].id
                && shares[i].write.points(myself, ID_PIC@, pic.content_hash, pic.content_len),
    }
}

/// A picture is shared with every exchange that runs, with each in its own place and in the
/// name of `myself`, whoever wrote the entry that it is kept in. Where there is none,
/// nothing is shared.
pub proof fn every_running_exchange_gets_the_picture<C>(
    shares: Seq<PicShare>,
    running: Seq<Running<C>>,
    myself: PublicKey,
    pic: Option<&Entry>,
    i: int,
)
    requires
        shares_pic(shares, running, myself, pic),
        0 <= i < running.len(),
    ensures
        pic is None <==> shares.len() == 0,
        pic matches Some(entry) ==> {
            &&& shares.len() == running.len()
            &&& shares[i].id == running[i].id
            &&& shares[i].write matches DocWrite::SetHash { author, key, hash, size }
            &&& author == myself
            &&& key@ == "files/id_pic"@
            &&& hash == entry.content_hash
            &&& size == entry.content_len
        },
{
    assert(ID_PIC@ == "files/id_pic"@);
}

} // verus!
