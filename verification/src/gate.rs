//! Access control: two fail-closed predicates over the stores, and the
//! admission rule combining them. A store that cannot be reached never
//! admits a command: the outcome is a denial, together with a flag telling
//! the caller to log what happened.

use vstd::prelude::*;

use crate::adminstore::AdminStore;
use crate::adminstore::holds_identity;
use crate::authstore::AuthStore;
use crate::command::AccessLevel;
use crate::command::Command;

verus! {

/// A data-access failure of a store.
#[derive(Clone, Copy, PartialEq, Eq, Structural, Debug)]
pub enum StoreError {
    Unavailable,
}

/// What a gate predicate decided, and whether a store failure was swallowed
/// into the denial (so the caller can log it without treating it as an
/// error).
#[derive(Clone, Copy, PartialEq, Eq, Structural, Debug)]
pub struct GateOutcome {
    pub allowed: bool,
    pub store_failure_logged: bool,
}

/// True iff a matching authorization row exists; a store failure denies.
pub fn is_command_authorized(
    store: Result<&AuthStore, StoreError>,
    chat_id: &String,
    command_key: &String,
) -> (r: GateOutcome)
    ensures
        r.allowed == match store {
            Ok(s) => s@.contains((chat_id@, command_key@)),
            Err(_) => false,
        },
        r.store_failure_logged == (store is Err),
{
    match store {
        Ok(s) => GateOutcome {
            allowed: s.is_authorized(chat_id, command_key),
            store_failure_logged: false,
        },
        Err(_) => GateOutcome { allowed: false, store_failure_logged: true },
    }
}

/// True iff the sender resolves to a registered admin identity. An event
/// with no resolvable sender is denied outright, without consulting the
/// store; a store failure denies.
pub fn is_sender_admin(
    sender: Option<&String>,
    store: Result<&AdminStore, StoreError>,
) -> (r: GateOutcome)
    ensures
        r.allowed == match sender {
            Some(id) => match store {
                Ok(s) => holds_identity(s@, id@),
                Err(_) => false,
            },
            None => false,
        },
        r.store_failure_logged == (sender is Some && store is Err),
{
    match sender {
        Some(id) => match store {
            Ok(s) => GateOutcome { allowed: s.is_admin(id), store_failure_logged: false },
            Err(_) => GateOutcome { allowed: false, store_failure_logged: true },
        },
        None => GateOutcome { allowed: false, store_failure_logged: false },
    }
}

/// Whether a command may run: public commands always, authorization-gated
/// commands iff the chat holds a row for the command's key, admin commands
/// iff the sender is a registered admin. Fail-closed throughout.
pub fn admit_command(
    command: &Command,
    chat_id: &String,
    sender: Option<&String>,
    auth_store: Result<&AuthStore, StoreError>,
    admin_store: Result<&AdminStore, StoreError>,
) -> (admitted: bool)
    ensures
        admitted == match command.access_level_spec() {
            AccessLevel::Public => true,
            AccessLevel::Authorized => match auth_store {
                Ok(s) => s@.contains((chat_id@, command.shortand_spec())),
                Err(_) => false,
            },
            AccessLevel::Admin => match (sender, admin_store) {
                (Some(id), Ok(s)) => holds_identity(s@, id@),
                _ => false,
            },
        },
{
    match command.access_level() {
        AccessLevel::Public => true,
        AccessLevel::Authorized => {
            let key = command.shortand();
            let key_string = key.to_owned();
            is_command_authorized(auth_store, chat_id, &key_string).allowed
        },
        AccessLevel::Admin => is_sender_admin(sender, admin_store).allowed,
    }
}

} // verus!
