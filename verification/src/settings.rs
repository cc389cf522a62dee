//! The settings document of a node: which one it is, and where that is remembered.
use crate::data::{wide_id_is_its_bytes, wide_id_round_trip, ExchangeId, WideId};
use vstd::prelude::*;

verus! {

/// The file, below the node's data, that remembers the settings document.
pub const NODE_SETTINGS_FILE: &'static str = "node_root_settings_doc.bin";

/// How far the settings document has been found: each state waits for one piece of
/// work.
#[derive(PartialEq, Eq, Structural, Clone, Copy, Debug)]
pub enum SettingsDoc {
    /// Nobody has asked for it.
    Unasked,
    /// It is checked whether the file is there.
    Checking,
    /// The file is read.
    Reading,
    /// The remembered document is opened.
    Opening(ExchangeId),
    /// A new document is created.
    Creating,
    /// The new document is remembered.
    Saving(ExchangeId),
    /// It is found.
    Ready(ExchangeId),
    /// It cannot be had.
    Failed,
}

/// A piece of work that has been done.
#[derive(Debug)]
pub enum SettingsEvent {
    /// The settings document is asked for.
    Asked,
    /// Whether the file is there.
    Checked(bool),
    /// What the first 32 bytes of the file hold, as far as there are any; `None` where
    /// it could not be read.
    Read(Option<Vec<u8>>),
    /// Whether the node has the document.
    Opened(bool),
    /// A new document was created.
    Created(ExchangeId),
    /// The new document is remembered.
    Saved,
}

/// The next piece of work.
#[derive(Debug)]
pub enum SettingsAction {
    CheckFile,
    ReadFile,
    Open(ExchangeId),
    Create,
    WriteFile([u8; 32]),
    Use(ExchangeId),
    Fail,
}

/// Up to 32 bytes filled up with zeros.
pub open spec fn filled_up(bytes: Seq<u8>) -> Seq<u8> {
    Seq::new(
        32,
        |i: int|
            if i < bytes.len() {
                bytes[i]
            } else {
                0
            },
    )
}

/// The document that a file remembers.
fn remembered(bytes: &Vec<u8>) -> (id: ExchangeId)
    requires
        bytes@.len() <= 32,
    ensures
        id@ == filled_up(bytes@),
{
    let mut contents: Vec<u8> = Vec::new();
    while contents.len() < 32
        invariant
            contents@.len() <= 32,
            bytes@.len() <= 32,
            contents@ =~= filled_up(bytes@).subrange(0, contents@.len() as int),
        decreases 32 - contents@.len(),
    {
        let at: usize = contents.len();
        if at < bytes.len() {
            contents.push(bytes[at]);
        } else {
            contents.push(0);
        }
    }
    assert(contents@ =~= filled_up(bytes@));
    WideId::from_bytes(contents.as_slice())
}

/// Whether a state waits for what an event reports. No more than 32 bytes of the file
/// are ever read.
pub open spec fn settings_wait_for(state: SettingsDoc, event: SettingsEvent) -> bool {
    match state {
        SettingsDoc::Checking => event is Checked,
        SettingsDoc::Reading => event matches SettingsEvent::Read(read) && (read matches Some(
            bytes,
        ) ==> bytes@.len() <= 32),
        SettingsDoc::Opening(_) => event is Opened,
        SettingsDoc::Creating => event is Created,
        SettingsDoc::Saving(_) => event is Saved,
        _ => event is Asked,
    }
}

/// Whether an event leads from one state to another and calls for the action: a file
/// that is there is read and its document opened; where there is none, a new document
/// is created and remembered. Once found, the document stays the same; where it cannot be
/// had, it is sought anew when it is asked for again.
pub open spec fn settings_step(
    before: SettingsDoc,
    event: SettingsEvent,
    after: SettingsDoc,
    action: SettingsAction,
) -> bool {
    match (before, event) {
        (SettingsDoc::Checking, SettingsEvent::Checked(exists)) => if exists {
            after == SettingsDoc::Reading && action is ReadFile
        } else {
            after == SettingsDoc::Creating && action is Create
        },
        (SettingsDoc::Reading, SettingsEvent::Read(Some(bytes))) => {
            &&& after matches SettingsDoc::Opening(id)
            &&& id@ == filled_up(bytes@)
            &&& action == SettingsAction::Open(id)
        },
        (SettingsDoc::Opening(id), SettingsEvent::Opened(true)) => after == SettingsDoc::Ready(id)
            && action == SettingsAction::Use(id),
        (SettingsDoc::Creating, SettingsEvent::Created(id)) => {
            &&& after == SettingsDoc::Saving(id)
            &&& action matches SettingsAction::WriteFile(bytes)
            &&& bytes@ == id@
        },
        (SettingsDoc::Saving(id), _) => after == SettingsDoc::Ready(id) && action
            == SettingsAction::Use(id),
        (SettingsDoc::Ready(id), _) => after == before && action == SettingsAction::Use(id),
        (SettingsDoc::Unasked, _) | (SettingsDoc::Failed, _) => after == SettingsDoc::Checking
            && action is CheckFile,
        _ => after == SettingsDoc::Failed && action is Fail,
    }
}

/// The settings of a node: the document that they are kept on.
pub struct Service {
    root_settings: SettingsDoc,
}

impl View for Service {
    type V = SettingsDoc;

    /// How far the settings document has been found.
    closed spec fn view(&self) -> SettingsDoc {
        self.root_settings
    }
}

impl Service {
    /// Nobody has asked for the settings document.
    pub fn new() -> (service: Service)
        ensures
            service@ == SettingsDoc::Unasked,
    {
        Service { root_settings: SettingsDoc::Unasked }
    }

    /// Whether what an event reports is waited for.
    pub fn waits_for(&self, event: &SettingsEvent) -> (waits: bool)
        ensures
            waits == settings_wait_for(self@, *event),
    {
        match self.root_settings {
            SettingsDoc::Checking => matches!(event, SettingsEvent::Checked(_)),
            SettingsDoc::Reading => match event {
                SettingsEvent::Read(Some(bytes)) => bytes.len() <= 32,
                SettingsEvent::Read(None) => true,
                _ => false,
            },
            SettingsDoc::Opening(_) => matches!(event, SettingsEvent::Opened(_)),
            SettingsDoc::Creating => matches!(event, SettingsEvent::Created(_)),
            SettingsDoc::Saving(_) => matches!(event, SettingsEvent::Saved),
            SettingsDoc::Failed => matches!(event, SettingsEvent::Asked),
            SettingsDoc::Unasked => matches!(event, SettingsEvent::Asked),
            SettingsDoc::Ready(_) => matches!(event, SettingsEvent::Asked),
        }
    }

    /// Goes on towards the document of the identities: they share the settings document.
    pub fn identity_doc(&mut self, event: SettingsEvent) -> (action: SettingsAction)
        requires
            settings_wait_for(old(self)@, event),
        ensures
            settings_step(old(self)@, event, final(self)@, action),
    {
        self.settings_doc(event)
    }

    /// Goes on towards the settings document once a piece of work is done.
    pub fn settings_doc(&mut self, event: SettingsEvent) -> (action: SettingsAction)
        requires
            settings_wait_for(old(self)@, event),
        ensures
            settings_step(old(self)@, event, final(self)@, action),
    {
        let (state, action) = match (self.root_settings, event) {
            (SettingsDoc::Checking, SettingsEvent::Checked(true)) => (
                SettingsDoc::Reading,
                SettingsAction::ReadFile,
            ),
            (SettingsDoc::Checking, SettingsEvent::Checked(false)) => (
                SettingsDoc::Creating,
                SettingsAction::Create,
            ),
            (SettingsDoc::Reading, SettingsEvent::Read(Some(bytes))) => {
                let id = remembered(&bytes);
                (SettingsDoc::Opening(id), SettingsAction::Open(id))
            },
            (SettingsDoc::Opening(id), SettingsEvent::Opened(true)) => (
                SettingsDoc::Ready(id),
                SettingsAction::Use(id),
            ),
            (SettingsDoc::Creating, SettingsEvent::Created(id)) => (
                SettingsDoc::Saving(id),
                SettingsAction::WriteFile(id.to_bytes()),
            ),
            (SettingsDoc::Saving(id), _) => (SettingsDoc::Ready(id), SettingsAction::Use(id)),
            (SettingsDoc::Ready(id), _) => (SettingsDoc::Ready(id), SettingsAction::Use(id)),
            (SettingsDoc::Unasked, _) => (SettingsDoc::Checking, SettingsAction::CheckFile),
            (SettingsDoc::Failed, _) => (SettingsDoc::Checking, SettingsAction::CheckFile),
            _ => (SettingsDoc::Failed, SettingsAction::Fail),
        };
        self.root_settings = state;
        action
    }

    /// The settings document, once it is found.
    pub fn namespace(&self) -> (id: Option<ExchangeId>)
        ensures
            id == (match self@ {
                SettingsDoc::Ready(id) => Some(id),
                _ => None,
            }),
    {
        match self.root_settings {
            SettingsDoc::Ready(id) => Some(id),
            _ => None,
        }
    }
}

/// A node that remembered its settings document opens the same document when it starts
/// again: the file that was written is read back as the document it was written for.
pub proof fn settings_survive_a_restart(
    created: ExchangeId,
    saving: SettingsDoc,
    write: SettingsAction,
    file: Vec<u8>,
    opening: SettingsDoc,
    open: SettingsAction,
)
    requires
        settings_step(SettingsDoc::Creating, SettingsEvent::Created(created), saving, write),
        write matches SettingsAction::WriteFile(bytes) && file@ == bytes@,
        settings_step(SettingsDoc::Reading, SettingsEvent::Read(Some(file)), opening, open),
    ensures
        opening == SettingsDoc::Opening(created),
        open == SettingsAction::Open(created),
{
    wide_id_round_trip(created);
    assert(filled_up(file@) =~= created@);
    if let SettingsDoc::Opening(id) = opening {
        wide_id_is_its_bytes(id, created);
    }
}

/// A file that is there is never given up for a new document: the document that it
/// remembers is opened, or there is none. Only where there is no file is a document
/// created.
pub proof fn existing_settings_are_never_replaced(
    before: SettingsDoc,
    event: SettingsEvent,
    after: SettingsDoc,
    action: SettingsAction,
)
    requires
        settings_wait_for(before, event),
        settings_step(before, event, after, action),
    ensures
        action is Create <==> before == SettingsDoc::Checking && event
            == SettingsEvent::Checked(false),
        action is ReadFile <==> before == SettingsDoc::Checking && event
            == SettingsEvent::Checked(true),
        action is CheckFile <==> before == SettingsDoc::Unasked || before == SettingsDoc::Failed,
        action is WriteFile <==> before == SettingsDoc::Creating,
        action is Open <==> (before == SettingsDoc::Reading && event !== SettingsEvent::Read(None)),
        action is Fail <==> (before is Opening && event == SettingsEvent::Opened(false)) || (before
            == SettingsDoc::Reading && event == SettingsEvent::Read(None)),
        action is Fail <==> after == SettingsDoc::Failed,
{
}

/// The document that is used is the one that was opened or created and remembered, and
/// once found it stays the same.
pub proof fn found_settings_are_used(
    before: SettingsDoc,
    event: SettingsEvent,
    after: SettingsDoc,
    action: SettingsAction,
)
    requires
        settings_wait_for(before, event),
        settings_step(before, event, after, action),
    ensures
        action matches SettingsAction::Use(id) ==> after == SettingsDoc::Ready(id) && (before
            == SettingsDoc::Opening(id) || before == SettingsDoc::Saving(id) || before
            == SettingsDoc::Ready(id)),
        after is Ready <==> action is Use,
        before is Ready ==> after == before,
        before is Saving ==> action is Use,
        before is Opening && event == SettingsEvent::Opened(true) ==> action is Use,
        action matches SettingsAction::Open(id) ==> after == SettingsDoc::Opening(id),
        action matches SettingsAction::WriteFile(bytes) ==> (event matches SettingsEvent::Created(
            id,
        ) && bytes@ == id@ && after == SettingsDoc::Saving(id)),
{
}

/// A file of less than 32 bytes is read as if zeros stood behind them.
pub proof fn short_files_are_filled_with_zeros(bytes: Seq<u8>)
    requires
        bytes.len() <= 32,
    ensures
        filled_up(bytes).len() == 32,
        filled_up(bytes).subrange(0, bytes.len() as int) == bytes,
        forall|i: int| bytes.len() <= i < 32 ==> #[trigger] filled_up(bytes)[i] == 0,
{
    assert(filled_up(bytes).subrange(0, bytes.len() as int) =~= bytes);
}

} // verus!
