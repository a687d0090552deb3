//! What the library reads from and hands to the `ectool` command.

pub mod battery;
pub mod charge_control;
pub mod charge_current_limit;
pub mod hello;

use vstd::prelude::*;

verus! {

#[verifier::external_type_specification]
#[verifier::external_body]
pub struct ExIoError(std::io::Error);

} // verus!
