use vstd::prelude::*;

verus! {

/// The error kinds the core distinguishes.
///
/// `Unauthenticated` marks a request without a valid session,
/// `InvalidCredentials` a failed sign-in, `DuplicateEmail` an account
/// registration with an email already taken, `Storage` an
/// infrastructural persistence failure, and `Integrity` a tweet whose
/// author cannot be resolved to a stored account.
#[derive(Clone, Copy, Debug, PartialEq, Eq, Structural)]
pub enum Error {
    Unauthenticated,
    InvalidCredentials,
    DuplicateEmail,
    Storage,
    Integrity,
}

} // verus!
