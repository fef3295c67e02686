//! Host-facing wiring types. The public base URL is the address under
//! which the application is reachable from outside; confirmation links
//! embed it.

use vstd::prelude::*;

verus! {

/// The public base URL of the running application.
pub struct ApplicationBaseUrl(pub String);

} // verus!
