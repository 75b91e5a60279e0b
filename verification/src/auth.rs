//! Repository credentials: a username and password pair.  Obtaining them
//! (environment, prompt) is the caller's business; the library only
//! threads them into the commands it builds.

use vstd::prelude::*;

verus! {

/// A username and password for the repository.
#[derive(Clone, Debug)]
pub struct Credentials(pub String, pub String);

} // verus!
