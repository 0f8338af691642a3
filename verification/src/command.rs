//! The typed commands the bot understands, the key under which each one is
//! looked up in the authorization store, and the access class each one
//! requires.

use vstd::prelude::*;

verus! {

/// A parsed bot command. Payload-carrying variants hold the arguments the
/// surrounding program extracted from the message text.
pub enum Command {
    Help,
    Bureau,
    Poll,
    Authenticate(String, String),
    AdminList,
    AdminRemove(String),
    Authorize(String),
    Unauthorize(String),
    Authorizations,
    Stats,
    CommitteeAdd(String),
    CommitteeRemove(String),
}

/// The access class a command requires before its endpoint may run.
#[derive(Clone, Copy, PartialEq, Eq, Structural, Debug)]
pub enum AccessLevel {
    /// Anyone may invoke it.
    Public,
    /// The chat must hold an authorization row for the command's key.
    Authorized,
    /// The sender must be a registered admin.
    Admin,
}

impl Command {
    /// The key under which this command is stored in the authorization table.
    pub open spec fn shortand_spec(&self) -> Seq<char> {
        match self {
            Command::Help => "help"@,
            Command::Bureau => "bureau"@,
            Command::Poll => "poll"@,
            Command::Authenticate(..) => "auth"@,
            Command::AdminList => "adminlist"@,
            Command::AdminRemove(..) => "adminremove"@,
            Command::Authorize(..) => "authorize"@,
            Command::Unauthorize(..) => "unauthorize"@,
            Command::Authorizations => "authorizations"@,
            Command::Stats => "stats"@,
            Command::CommitteeAdd(..) => "comitteeadd"@,
            Command::CommitteeRemove(..) => "comitteeremove"@,
        }
    }

    /// Used as key for the access control map.
    pub fn shortand(&self) -> (r: &str)
        ensures
            r@ == self.shortand_spec(),
    {
        match self {
            Command::Help => "help",
            Command::Bureau => "bureau",
            Command::Poll => "poll",
            Command::Authenticate(..) => "auth",
            Command::AdminList => "adminlist",
            Command::AdminRemove(..) => "adminremove",
            Command::Authorize(..) => "authorize",
            Command::Unauthorize(..) => "unauthorize",
            Command::Authorizations => "authorizations",
            Command::Stats => "stats",
            Command::CommitteeAdd(..) => "comitteeadd",
            Command::CommitteeRemove(..) => "comitteeremove",
        }
    }

    /// The access class the dispatch table places this command under.
    pub open spec fn access_level_spec(&self) -> AccessLevel {
        match self {
            Command::Help => AccessLevel::Public,
            Command::Authenticate(..) => AccessLevel::Public,
            Command::Bureau => AccessLevel::Authorized,
            Command::Poll => AccessLevel::Authorized,
            Command::Stats => AccessLevel::Authorized,
            _ => AccessLevel::Admin,
        }
    }

    /// The access class this command requires.
    pub fn access_level(&self) -> (r: AccessLevel)
        ensures
            r == self.access_level_spec(),
    {
        match self {
            Command::Help => AccessLevel::Public,
            Command::Authenticate(..) => AccessLevel::Public,
            Command::Bureau => AccessLevel::Authorized,
            Command::Poll => AccessLevel::Authorized,
            Command::Stats => AccessLevel::Authorized,
            _ => AccessLevel::Admin,
        }
    }
}

} // verus!
