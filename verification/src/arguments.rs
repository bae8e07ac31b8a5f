//! The argument list of an invocation: a source expression, a nesting
//! depth and an optional transformation of the yielded values, separated
//! by commas.

use crate::decimal::{parse_usize, parsed_usize};
use crate::text::{split, split_on, trim, trimmed};
use vstd::prelude::*;
use vstd::string::*;

verus! {

/// Text that is attached to each loop variable where it is yielded: in
/// front of it, or behind it.
#[derive(Debug, Clone, PartialEq, Eq)]
pub enum PreOrPostFix {
    Pre(String),
    Post(String),
}

/// The mathematical value of a `PreOrPostFix`.
pub enum PreOrPostFixView {
    Pre(Seq<char>),
    Post(Seq<char>),
}

impl View for PreOrPostFix {
    type V = PreOrPostFixView;

    open spec fn view(&self) -> PreOrPostFixView {
        match self {
            PreOrPostFix::Pre(text) => PreOrPostFixView::Pre(text@),
            PreOrPostFix::Post(text) => PreOrPostFixView::Post(text@),
        }
    }
}

/// The arguments of one invocation.
#[derive(Debug, Clone, PartialEq, Eq)]
pub struct Arguments {
    /// The expression that each loop iterates over.
    pub source_iter: String,
    /// The number of nested loops.
    pub depth: usize,
    /// What is attached to each yielded loop variable, if anything.
    pub value_transformation: Option<PreOrPostFix>,
}

/// The mathematical value of an `Arguments`.
pub struct ArgumentsView {
    pub source_iter: Seq<char>,
    pub depth: nat,
    pub value_transformation: Option<PreOrPostFixView>,
}

/// The mathematical value of an optional transformation.
pub open spec fn transformation_view(
    transformation: Option<PreOrPostFix>,
) -> Option<PreOrPostFixView> {
    match transformation {
        Some(affix) => Some(affix@),
        None => None,
    }
}

impl View for Arguments {
    type V = ArgumentsView;

    open spec fn view(&self) -> ArgumentsView {
        ArgumentsView {
            source_iter: self.source_iter@,
            depth: self.depth as nat,
            value_transformation: transformation_view(self.value_transformation),
        }
    }
}

/// Why an argument list is not accepted.
#[derive(Debug, Clone, Copy, PartialEq, Eq)]
pub enum ArgumentError {
    /// The list has a single field, so no depth is given.
    MissingDepth,
    /// The second field is not a `usize` in decimal notation.
    InvalidDepth,
}

/// The transformation that the third field `field` asks for: a field that
/// begins with a dot is attached behind each value, any other in front of
/// it. The field is taken as it stands, surrounding whitespace included.
pub open spec fn transformation_of(field: Seq<char>) -> PreOrPostFixView {
    if field.len() > 0 && field.first() == '.' {
        PreOrPostFixView::Post(field)
    } else {
        PreOrPostFixView::Pre(field)
    }
}

/// What the argument list `item` means. Its comma-separated fields are, in
/// order: the source expression, trimmed; the depth, trimmed and read as a
/// decimal `usize`; optionally the transformation. Fields after the third
/// are ignored.
pub open spec fn parsed_arguments(item: Seq<char>) -> Result<ArgumentsView, ArgumentError> {
    let fields = split_on(item, ',');
    if fields.len() < 2 {
        Err(ArgumentError::MissingDepth)
    } else {
        match parsed_usize(trimmed(fields[1])) {
            None => Err(ArgumentError::InvalidDepth),
            Some(depth) => Ok(
                ArgumentsView {
                    source_iter: trimmed(fields[0]),
                    depth: depth as nat,
                    value_transformation: if fields.len() > 2 {
                        Some(transformation_of(fields[2]))
                    } else {
                        None
                    },
                },
            ),
        }
    }
}

impl PreOrPostFix {
    /// Reads a transformation from the third field of an argument list.
    pub fn from_field(field: &str) -> (transformation: PreOrPostFix)
        ensures
            transformation@ == transformation_of(field@),
    {
        if !field.is_empty() && field.get_char(0) == '.' {
            PreOrPostFix::Post(String::from_str(field))
        } else {
            PreOrPostFix::Pre(String::from_str(field))
        }
    }
}

/// Reads an argument list.
pub fn parse_arguments(item: &str) -> (r: Result<Arguments, ArgumentError>)
    ensures
        match r {
            Ok(arguments) => parsed_arguments(item@) == Ok::<ArgumentsView, ArgumentError>(
                arguments@,
            ),
            Err(error) => parsed_arguments(item@) == Err::<ArgumentsView, ArgumentError>(error),
        },
{
    let fields = split(item, ',');
    if fields.len() < 2 {
        return Err(ArgumentError::MissingDepth);
    }
    let source_iter = trim(fields[0]);
    let depth = match parse_usize(trim(fields[1])) {
        Some(depth) => depth,
        None => {
            return Err(ArgumentError::InvalidDepth);
        },
    };
    let value_transformation = if fields.len() > 2 {
        Some(PreOrPostFix::from_field(fields[2]))
    } else {
        None
    };
    Ok(Arguments { source_iter: String::from_str(source_iter), depth, value_transformation })
}

} // verus!
