//! The logic of a small gateway in front of a commerce API: authenticating
//! signed webhooks, and deciding the responses to product, checkout and
//! customer-portal requests from what the API answered.
use vstd::prelude::*;

pub mod commerce;
pub mod endpoint;
pub mod reply;
pub mod signature;
pub mod text;

verus! {

} // verus!
