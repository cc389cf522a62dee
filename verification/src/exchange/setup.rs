//! How an exchange is made or joined, step by step.
use crate::data::{save_on_doc_as_key, DocWrite, ExchangeId, PublicKey, Record};
use crate::error::Error;
use crate::exchange::{IDENTIFICATION_KEY, ID_PIC};
use crate::identity::Identification;
use crate::live_doc::Entry;
use vstd::prelude::*;

verus! {

/// How far an exchange has been set up: each state waits for one piece of work.
#[derive(Debug)]
pub enum ExchangeSetup {
    /// Its document is created or imported.
    Opening { register: bool },
    /// The assumed identity is loaded.
    Identifying { id: ExchangeId, register: bool },
    /// The identification is written.
    Introducing { id: ExchangeId, register: bool, myself: PublicKey },
    /// The picture is loaded.
    FetchingPic { id: ExchangeId, register: bool, myself: PublicKey },
    /// The picture is written.
    WritingPic { id: ExchangeId, register: bool },
    /// The work on the exchange is started.
    Starting { id: ExchangeId, register: bool },
    /// The exchange is put on the list of those that the node tracks.
    Listing { id: ExchangeId },
    /// The running exchanges are reloaded.
    Reloading { id: ExchangeId },
    /// Nothing is left to do.
    Ended,
}

/// A piece of work that has been done.
#[derive(Debug)]
pub enum SetupEvent {
    /// The document is there.
    Opened(ExchangeId),
    /// The assumed identity, if any.
    Identity(Option<Identification>),
    /// The picture of the assumed identity, if any.
    Pic(Option<Entry>),
    /// What was asked for is done.
    Done,
}

/// The next piece of work.
#[derive(Debug)]
pub enum SetupAction {
    CreateDoc,
    ImportDoc(String),
    LoadIdentity,
    Write(DocWrite),
    FetchPic(PublicKey),
    Start(ExchangeId),
    /// Put the exchange on the list of those that the node tracks.
    SaveId(ExchangeId),
    /// Reload the running exchanges, with this one as the new one.
    Reload(ExchangeId),
    /// The exchange is set up.
    Finish(ExchangeId),
    Fail(Error),
}

/// Whether a state waits for what an event reports.
pub open spec fn setup_waits_for(state: ExchangeSetup, event: SetupEvent) -> bool {
    match state {
        ExchangeSetup::Opening { .. } => event is Opened,
        ExchangeSetup::Identifying { .. } => event is Identity,
        ExchangeSetup::FetchingPic { .. } => event is Pic,
        ExchangeSetup::Ended => false,
        _ => event is Done,
    }
}

/// The state after an event.
pub open spec fn setup_after(state: ExchangeSetup, event: SetupEvent) -> ExchangeSetup {
    match state {
        ExchangeSetup::Opening { register } => match event {
            SetupEvent::Opened(id) => ExchangeSetup::Identifying { id, register },
            _ => state,
        },
        ExchangeSetup::Identifying { id, register } => match event {
            SetupEvent::Identity(Some(myself)) => ExchangeSetup::Introducing {
                id,
                register,
                myself: myself.public_key,
            },
            SetupEvent::Identity(None) => ExchangeSetup::Ended,
            _ => state,
        },
        ExchangeSetup::Introducing { id, register, myself } => ExchangeSetup::FetchingPic {
            id,
            register,
            myself,
        },
        ExchangeSetup::FetchingPic { id, register, .. } => match event {
            SetupEvent::Pic(Some(_)) => ExchangeSetup::WritingPic { id, register },
            SetupEvent::Pic(None) => ExchangeSetup::Starting { id, register },
            _ => state,
        },
        ExchangeSetup::WritingPic { id, register } => ExchangeSetup::Starting { id, register },
        ExchangeSetup::Starting { id, register } => if register {
            ExchangeSetup::Listing { id }
        } else {
            ExchangeSetup::Ended
        },
        ExchangeSetup::Listing { id } => ExchangeSetup::Reloading { id },
        ExchangeSetup::Reloading { .. } => ExchangeSetup::Ended,
        ExchangeSetup::Ended => ExchangeSetup::Ended,
    }
}

/// Whether an action is the one that an event calls for.
pub open spec fn setup_calls_for(
    state: ExchangeSetup,
    event: SetupEvent,
    action: SetupAction,
) -> bool {
    match state {
        ExchangeSetup::Opening { .. } => action == SetupAction::LoadIdentity,
        ExchangeSetup::Identifying { id, register } => match event {
            SetupEvent::Identity(Some(myself)) => {
                &&& action is Write
                &&& action->Write_0.saves(
                    myself.public_key,
                    IDENTIFICATION_KEY@,
                    Record::Identification(myself),
                )
            },
            _ => action == SetupAction::Fail(Error::NoIdentityForExchange),
        },
        ExchangeSetup::Introducing { myself, .. } => action == SetupAction::FetchPic(myself),
        ExchangeSetup::FetchingPic { id, myself, .. } => match event {
            SetupEvent::Pic(Some(pic)) => {
                &&& action is Write
                &&& action->Write_0.points(myself, ID_PIC@, pic.content_hash, pic.content_len)
            },
            _ => action == SetupAction::Start(id),
        },
        ExchangeSetup::WritingPic { id, .. } => action == SetupAction::Start(id),
        ExchangeSetup::Starting { id, register } => action == (if register {
            SetupAction::SaveId(id)
        } else {
            SetupAction::Finish(id)
        }),
        ExchangeSetup::Listing { id } => action == SetupAction::Reload(id),
        ExchangeSetup::Reloading { id } => action == SetupAction::Finish(id),
        ExchangeSetup::Ended => false,
    }
}

impl ExchangeSetup {
    /// Whether this state waits for what an event reports.
    pub fn waits_for(&self, event: &SetupEvent) -> (waits: bool)
        ensures
            waits == setup_waits_for(*self, *event),
    {
        match self {
            ExchangeSetup::Opening { .. } => matches!(event, SetupEvent::Opened(_)),
            ExchangeSetup::Identifying { .. } => matches!(event, SetupEvent::Identity(_)),
            ExchangeSetup::FetchingPic { .. } => matches!(event, SetupEvent::Pic(_)),
            ExchangeSetup::Ended => false,
            _ => matches!(event, SetupEvent::Done),
        }
    }

    /// Goes on once a piece of work is done.
    pub fn step(self, event: SetupEvent) -> (stepped: (ExchangeSetup, SetupAction))
        requires
            setup_waits_for(self, event),
        ensures
            stepped.0 == setup_after(self, event),
            setup_calls_for(self, event, stepped.1),
    {
        match (self, event) {
            (ExchangeSetup::Opening { register }, SetupEvent::Opened(id)) => (
                ExchangeSetup::Identifying { id, register },
                SetupAction::LoadIdentity,
            ),
            (ExchangeSetup::Identifying { id, register }, SetupEvent::Identity(Some(myself))) => {
                let pk = myself.public_key;
                let write = save_on_doc_as_key(
                    &pk,
                    IDENTIFICATION_KEY,
                    Record::Identification(myself),
                );
                (ExchangeSetup::Introducing { id, register, myself: pk }, SetupAction::Write(write))
            },
            (ExchangeSetup::Introducing { id, register, myself }, _) => (
                ExchangeSetup::FetchingPic { id, register, myself },
                SetupAction::FetchPic(myself),
            ),
            (ExchangeSetup::FetchingPic { id, register, myself }, SetupEvent::Pic(Some(pic))) => (
                ExchangeSetup::WritingPic { id, register },
                SetupAction::Write(
                    DocWrite::SetHash {
                        author: myself,
                        key: ID_PIC.to_owned(),
                        hash: pic.content_hash,
                        size: pic.content_len,
                    },
                ),
            ),
            (ExchangeSetup::FetchingPic { id, register, .. }, _) => (
                ExchangeSetup::Starting { id, register },
                SetupAction::Start(id),
            ),
            (ExchangeSetup::WritingPic { id, register }, _) => (
                ExchangeSetup::Starting { id, register },
                SetupAction::Start(id),
            ),
            (ExchangeSetup::Starting { id, register }, _) => if register {
                (ExchangeSetup::Listing { id }, SetupAction::SaveId(id))
            } else {
                (ExchangeSetup::Ended, SetupAction::Finish(id))
            },
            (ExchangeSetup::Listing { id }, _) => (
                ExchangeSetup::Reloading { id },
                SetupAction::Reload(id),
            ),
            (ExchangeSetup::Reloading { id }, _) => (
                ExchangeSetup::Ended,
                SetupAction::Finish(id),
            ),
            _ => (ExchangeSetup::Ended, SetupAction::Fail(Error::NoIdentityForExchange)),
        }
    }
}

/// Whether a state that has a document is about the exchange `id`, and about
/// registering it or not.
pub open spec fn setup_is_about(state: ExchangeSetup, id: ExchangeId, register: bool) -> bool {
    match state {
        ExchangeSetup::Opening { .. } => false,
        ExchangeSetup::Identifying { id: i, register: r } => i == id && r == register,
        ExchangeSetup::Introducing { id: i, register: r, .. } => i == id && r == register,
        ExchangeSetup::FetchingPic { id: i, register: r, .. } => i == id && r == register,
        ExchangeSetup::WritingPic { id: i, register: r } => i == id && r == register,
        ExchangeSetup::Starting { id: i, register: r } => i == id && r == register,
        ExchangeSetup::Listing { id: i } => i == id && register,
        ExchangeSetup::Reloading { id: i } => i == id && register,
        ExchangeSetup::Ended => true,
    }
}

/// How many pieces of work have been done at least.
pub open spec fn setup_progress(state: ExchangeSetup) -> nat {
    match state {
        ExchangeSetup::Opening { .. } => 0,
        ExchangeSetup::Identifying { .. } => 1,
        ExchangeSetup::Introducing { .. } => 2,
        ExchangeSetup::FetchingPic { .. } => 3,
        ExchangeSetup::WritingPic { .. } => 4,
        ExchangeSetup::Starting { .. } => 5,
        ExchangeSetup::Listing { .. } => 6,
        ExchangeSetup::Reloading { .. } => 7,
        ExchangeSetup::Ended => 8,
    }
}

/// Setting up an exchange never goes back, so that it ends after eight pieces of work
/// at most.
pub proof fn setup_goes_on(state: ExchangeSetup, event: SetupEvent)
    requires
        setup_waits_for(state, event),
    ensures
        setup_progress(state) < setup_progress(setup_after(state, event)) <= 8,
{
}

/// Once its document is there, a setup stays with that exchange and with the decision
/// to register it. An exchange that is registered is finished only after it was put on
/// the list and reloaded, one that is not as soon as it was started. The setup fails
/// only where no identity is assumed.
pub proof fn setup_stays_with_its_exchange(
    state: ExchangeSetup,
    event: SetupEvent,
    action: SetupAction,
    id: ExchangeId,
    register: bool,
)
    requires
        setup_is_about(state, id, register),
        setup_waits_for(state, event),
        setup_calls_for(state, event, action),
    ensures
        setup_is_about(setup_after(state, event), id, register),
        action matches SetupAction::Finish(done) ==> done == id && (if register {
            state is Reloading
        } else {
            state is Starting
        }),
        action is Fail <==> event == SetupEvent::Identity(None),
        setup_after(state, event) is Ended <==> action is Finish || action is Fail,
{
}

/// A picture is always written: a setup that gets one writes it for `myself` as its
/// picture on the exchange, with its blob and its size, whether the exchange is to be
/// registered or not, and goes on to start the exchange only then.
pub proof fn picture_is_always_written(
    id: ExchangeId,
    register: bool,
    myself: PublicKey,
    pic: Entry,
    action: SetupAction,
)
    requires
        setup_calls_for(
            ExchangeSetup::FetchingPic { id, register, myself },
            SetupEvent::Pic(Some(pic)),
            action,
        ),
    ensures
        action matches SetupAction::Write(DocWrite::SetHash { author, key, hash, size }) && author
            == myself && key@ == "files/id_pic"@ && hash == pic.content_hash && size
            == pic.content_len,
        setup_after(
            ExchangeSetup::FetchingPic { id, register, myself },
            SetupEvent::Pic(Some(pic)),
        ) == (ExchangeSetup::WritingPic { id, register }),
{
    assert(ID_PIC@ == "files/id_pic"@);
}

/// An exchange is started exactly once its picture is written, or once it is known that
/// there is none.
pub proof fn exchange_starts_behind_its_picture(
    state: ExchangeSetup,
    event: SetupEvent,
    action: SetupAction,
)
    requires
        setup_waits_for(state, event),
        setup_calls_for(state, event, action),
    ensures
        action is Start <==> state is WritingPic || (state is FetchingPic && event
            == SetupEvent::Pic(None)),
        setup_after(state, event) is Starting <==> action is Start,
        setup_after(state, event) is WritingPic <==> state is FetchingPic && event
            != SetupEvent::Pic(None),
{
}

/// An exchange is introduced before it is started: the assumed identity is loaded first,
/// its identification is written for it, and then its picture is looked for.
pub proof fn identity_is_written_first(
    state: ExchangeSetup,
    event: SetupEvent,
    action: SetupAction,
)
    requires
        setup_waits_for(state, event),
        setup_calls_for(state, event, action),
    ensures
        state is Opening <==> action == SetupAction::LoadIdentity,
        state is Opening ==> setup_after(state, event) is Identifying,
        state is Identifying ==> match event {
            SetupEvent::Identity(Some(myself)) => {
                &&& action matches SetupAction::Write(DocWrite::Save { author, key, record })
                &&& author == myself.public_key
                &&& key@ == "identification"@
                &&& record == Record::Identification(myself)
                &&& setup_after(state, event) matches ExchangeSetup::Introducing { myself: pk, .. }
                &&& pk == myself.public_key
            },
            _ => action == SetupAction::Fail(Error::NoIdentityForExchange) && setup_after(
                state,
                event,
            ) == ExchangeSetup::Ended,
        },
        state matches ExchangeSetup::Introducing { myself, .. } ==> action
            == SetupAction::FetchPic(myself) && (setup_after(state, event) matches
            ExchangeSetup::FetchingPic { myself: pk, .. } && pk == myself),
        action is FetchPic <==> state is Introducing,
{
    assert(IDENTIFICATION_KEY@ == "identification"@);
}

/// Whether an exchange is to be registered makes no difference until it is started: two
/// setups of one exchange that differ in that alone do the same work.
pub proof fn registering_changes_nothing_before_the_start(
    id: ExchangeId,
    myself: PublicKey,
    one: bool,
    another: bool,
    event: SetupEvent,
    action: SetupAction,
)
    ensures
        setup_calls_for(ExchangeSetup::Opening { register: one }, event, action)
            <==> setup_calls_for(ExchangeSetup::Opening { register: another }, event, action),
        setup_calls_for(ExchangeSetup::Identifying { id, register: one }, event, action)
            <==> setup_calls_for(
            ExchangeSetup::Identifying { id, register: another },
            event,
            action,
        ),
        setup_calls_for(ExchangeSetup::Introducing { id, register: one, myself }, event, action)
            <==> setup_calls_for(
            ExchangeSetup::Introducing { id, register: another, myself },
            event,
            action,
        ),
        setup_calls_for(ExchangeSetup::FetchingPic { id, register: one, myself }, event, action)
            <==> setup_calls_for(
            ExchangeSetup::FetchingPic { id, register: another, myself },
            event,
            action,
        ),
        setup_calls_for(ExchangeSetup::WritingPic { id, register: one }, event, action)
            <==> setup_calls_for(
            ExchangeSetup::WritingPic { id, register: another },
            event,
            action,
        ),
        setup_progress(
            setup_after(ExchangeSetup::FetchingPic { id, register: one, myself }, event),
        ) == setup_progress(
            setup_after(ExchangeSetup::FetchingPic { id, register: another, myself }, event),
        ),
{
}

/// An exchange that was started is put on the list and then reloaded where it is to be
/// registered, and neither where it is not.
pub proof fn only_registered_exchanges_are_listed(
    state: ExchangeSetup,
    event: SetupEvent,
    action: SetupAction,
)
    requires
        setup_waits_for(state, event),
        setup_calls_for(state, event, action),
    ensures
        action is SaveId <==> (state matches ExchangeSetup::Starting { register, .. } && register),
        action is Reload <==> state is Listing,
        action is Finish <==> state is Reloading || (state matches ExchangeSetup::Starting {
            register,
            ..
        } && !register),
        setup_after(state, event) is Listing <==> action is SaveId,
        setup_after(state, event) is Reloading <==> action is Reload,
        state matches ExchangeSetup::Starting { id, .. } ==> action == SetupAction::SaveId(id)
            || action == SetupAction::Finish(id),
        state matches ExchangeSetup::Listing { id } ==> action == SetupAction::Reload(id),
        state matches ExchangeSetup::Reloading { id } ==> action == SetupAction::Finish(id),
        state matches ExchangeSetup::WritingPic { id, .. } ==> action == SetupAction::Start(id),
        (state matches ExchangeSetup::FetchingPic { id, .. } && action is Start) ==> action
            == SetupAction::Start(state->FetchingPic_id),
{
}

} // verus!
