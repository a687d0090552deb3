//! The limit on the charge current.

use crate::decimal::{decimal_digits, u32_to_decimal};
use vstd::prelude::*;

verus! {

/// The arguments of `ectool` that limit the charge current to `max_ma`.
pub open spec fn charge_current_limit_args_spec(max_ma: u32) -> Seq<Seq<char>> {
    seq!["chargecurrentlimit"@, decimal_digits(max_ma as nat)]
}

/// The arguments of `ectool` that limit the charge current to `max_ma`
/// milliamperes.
pub fn charge_current_limit_args(max_ma: u32) -> (args: Vec<String>)
    ensures
        args@.len() == 2,
        args@[0]@ == charge_current_limit_args_spec(max_ma)[0],
        args@[1]@ == charge_current_limit_args_spec(max_ma)[1],
{
    let mut args: Vec<String> = Vec::new();
    args.push("chargecurrentlimit".to_owned());
    args.push(u32_to_decimal(max_ma));
    args
}

} // verus!
