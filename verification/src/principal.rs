//! Principals (canister and user identifiers) of the Internet Computer.
use vstd::prelude::*;

use ic_cdk::export::Principal;
use ic_cdk::export::candid::types::ic_types::PrincipalError;

verus! {

#[verifier::external_type_specification]
#[verifier::external_body]
pub struct ExPrincipal(ic_cdk::export::Principal);

#[verifier::external_type_specification]
#[verifier::external_body]
pub struct ExPrincipalError(ic_cdk::export::candid::types::ic_types::PrincipalError);

/// Whether `Principal::from_text` accepts the given text: the text, read
/// without regard to case, must be the dash-grouped base32 form of a CRC32
/// check sequence followed by at most 29 bytes.
pub uninterp spec fn principal_text_is_valid(text: Seq<char>) -> bool;

/// The principal that `Principal::from_text` reads from an accepted text.
pub uninterp spec fn principal_of_text(text: Seq<char>) -> Principal;

/// Calls `Principal::from_text`. Trusted: it returns `Ok` exactly when the
/// text is a valid principal text, and then the principal that the text
/// names; both depend on the text alone.
#[verifier::external_body]
fn principal_from_text(text: &str) -> (res: Result<Principal, PrincipalError>)
    ensures
        res.is_ok() == principal_text_is_valid(text@),
        res matches Ok(p) ==> p == principal_of_text(text@),
{
    Principal::from_text(text)
}

/// Errors of the library.
#[derive(Debug)]
pub enum BotError {
    /// The text is not the textual form of a principal.
    InvalidPrincipal,
}

/// Parses the textual form of a principal, as the canister ids in the
/// bot's configuration are written: the principal the text names, or
/// `InvalidPrincipal` when it names none.
pub fn parse_principal(text: &str) -> (res: Result<Principal, BotError>)
    ensures
        res.is_ok() == principal_text_is_valid(text@),
        res matches Ok(p) ==> p == principal_of_text(text@),
{
    match principal_from_text(text) {
        Ok(p) => Ok(p),
        Err(_) => Err(BotError::InvalidPrincipal),
    }
}

} // verus!
