//! How the service names itself.

use vstd::prelude::*;

verus! {

pub const SERVICE_NAME: &'static str = "fiducia-mcp";

pub const SERVICE_NAMESPACE: &'static str = "fiducia-cloud";

/// What the server speaks over.
pub const TRANSPORT: &'static str = "stdio";

} // verus!
