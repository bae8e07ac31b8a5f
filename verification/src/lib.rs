//! Generates the text of an n-level nest of `for` loops over one repeated
//! iterator expression. The innermost loop yields the vector of all loop
//! variables, so the generated generator produces every combination with
//! replacement of the iterator's items, without intermediate buffers.
//!
//! An invocation is described by an argument list such as
//! `values.iter(), 3, *` (see [`arguments`]); [`nested_iter_yield`] turns it
//! into program text (see [`expansion`]).

use vstd::prelude::*;

pub mod arguments;
pub mod decimal;
pub mod expansion;
pub mod text;

use crate::arguments::{parse_arguments, parsed_arguments};
use crate::expansion::{expansion, generate};

verus! {

/// Writes the nest of loops that the argument list `item` asks for.
///
/// The list must be well formed: `arguments::parse_arguments` tells whether
/// it is, and why not.
pub fn nested_iter_yield(item: &str) -> (code: String)
    requires
        parsed_arguments(item@) is Ok,
    ensures
        code@ == expansion(parsed_arguments(item@)->Ok_0),
{
    match parse_arguments(item) {
        Ok(arguments) => generate(&arguments),
        Err(_) => vstd::pervasive::unreached(),
    }
}

} // verus!
