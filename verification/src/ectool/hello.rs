//! The greeting of `ectool hello`.

use crate::text::string_from_utf8;
use std::string::FromUtf8Error;
use vstd::prelude::*;
use vstd::utf8::*;

verus! {

/// Why the greeting could not be had.
#[derive(Debug)]
pub enum Error {
    Utf8(FromUtf8Error),
    Io(std::io::Error),
}

/// The greeting that the bytes `ectool hello` wrote hold: the text they
/// encode, or an error where they are not UTF-8.
pub fn hello_from_stdout(stdout: Vec<u8>) -> (r: Result<String, Error>)
    ensures
        match r {
            Ok(s) => valid_utf8(stdout@) && s@ == decode_utf8(stdout@),
            Err(e) => !valid_utf8(stdout@) && e is Utf8,
        },
{
    match string_from_utf8(stdout) {
        Ok(s) => Ok(s),
        Err(e) => Err(Error::Utf8(e)),
    }
}

} // verus!
