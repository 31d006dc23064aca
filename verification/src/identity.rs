//! The names of owners and groups.

use crate::entry::option_text;
use crate::number::{decimal, decimal_text};
use vstd::prelude::*;

verus! {

/// Calls `get_user_by_uid` of the users crate, which asks the system's
/// user database, and hands back the name of the user that it found, with
/// bytes that are no UTF-8 replaced. The answer depends on the machine, so
/// the contract claims nothing of it.
#[verifier::external_body]
pub(crate) fn lookup_user(uid: u32) -> (name: Option<String>) {
    match users::get_user_by_uid(uid) {
        Some(user) => Some(user.name().to_string_lossy().into_owned()),
        None => None,
    }
}

/// Calls `get_group_by_gid` of the users crate, which asks the system's
/// group database, and hands back the name of the group that it found,
/// with bytes that are no UTF-8 replaced. The answer depends on the
/// machine, so the contract claims nothing of it.
#[verifier::external_body]
pub(crate) fn lookup_group(gid: u32) -> (name: Option<String>) {
    match users::get_group_by_gid(gid) {
        Some(group) => Some(group.name().to_string_lossy().into_owned()),
        None => None,
    }
}

/// The name shown for an owner or a group: the name that was found for
/// the identifier, else the identifier itself as a number.
pub open spec fn identity_text(id: u32, found: Option<Seq<char>>) -> Seq<char> {
    match found {
        Some(name) => name,
        None => decimal(id as nat),
    }
}

/// Chooses the name to show for an identifier: the one that the lookup
/// gave, or the number when the lookup gave none.
pub fn name_or_id(id: u32, found: Option<String>) -> (name: String)
    ensures
        name@ == identity_text(id, option_text(found)),
{
    match found {
        Some(name) => name,
        None => decimal_text(id as u64),
    }
}

} // verus!
