//! Records handshakes of platform users: resolves each inbound (platform ID, display name)
//! pair to one durable user, correcting or creating it, appends handshake records, and
//! answers count queries.

use vstd::prelude::*;

pub mod identity;
pub mod laws;
pub mod model;
pub mod store;

verus! {

} // verus!
