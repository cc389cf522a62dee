//! What can go wrong.
use vstd::prelude::*;

verus! {

/// Why an operation was refused.
#[derive(PartialEq, Eq, Clone, Debug)]
pub enum Error {
    /// A document has no entry under the key.
    NotHere,
    /// An exchange is made or joined by nobody.
    NoIdentityForExchange,
    /// An exchange is to be tracked for nobody.
    NoIdentityToTrack,
    /// An exchange is to be forgotten for nobody.
    NoIdentity,
    /// No running exchange has the id.
    ExchangeNotFound,
    /// The node has no document for a tracked exchange.
    NoExchangeDocument,
    /// An entry's key is no UTF-8 text, for the reason that is given.
    BadKey(String),
}

impl Error {
    /// The words for the error.
    pub open spec fn words(self) -> Seq<char> {
        match self {
            Error::NotHere => "not here"@,
            Error::NoIdentityForExchange => "cant create exchange with no assumed identity"@,
            Error::NoIdentityToTrack => "no assumed identity, cant save exchange"@,
            Error::NoIdentity => "no assumed identity"@,
            Error::ExchangeNotFound => "exchange not found"@,
            Error::NoExchangeDocument => "No exchange document to load"@,
            Error::BadKey(reason) => reason@,
        }
    }

    /// The error in words.
    pub fn message(&self) -> (text: String)
        ensures
            text@ == self.words(),
    {
        match self {
            Error::NotHere => "not here".to_owned(),
            Error::NoIdentityForExchange => {
                "cant create exchange with no assumed identity".to_owned()
            },
            Error::NoIdentityToTrack => "no assumed identity, cant save exchange".to_owned(),
            Error::NoIdentity => "no assumed identity".to_owned(),
            Error::ExchangeNotFound => "exchange not found".to_owned(),
            Error::NoExchangeDocument => "No exchange document to load".to_owned(),
            Error::BadKey(reason) => reason.clone(),
        }
    }
}

/// An error that has a reason of its own is told in the words of that reason alone, and no
/// other error depends on one.
pub proof fn reasons_are_told_as_they_are(a: Error, b: Error)
    ensures
        a matches Error::BadKey(reason) ==> a.words() == reason@,
        a is BadKey && b is BadKey && a.words() == b.words() ==> a->BadKey_0@ == b->BadKey_0@,
        a is NotHere ==> a.words() == "not here"@,
        a is NoIdentityForExchange ==> a.words() == "cant create exchange with no assumed identity"@,
        a is NoIdentityToTrack ==> a.words() == "no assumed identity, cant save exchange"@,
        a is NoIdentity ==> a.words() == "no assumed identity"@,
        a is ExchangeNotFound ==> a.words() == "exchange not found"@,
        a is NoExchangeDocument ==> a.words() == "No exchange document to load"@,
{
}

} // verus!
