//! The generated program text: a generator whose body is a nest of `for`
//! loops over one source expression, the innermost of which yields the
//! vector of all loop variables.

use crate::arguments::{
    transformation_view, Arguments, ArgumentsView, PreOrPostFix, PreOrPostFixView,
};
use crate::decimal::{decimal_string, decimal_text, lemma_decimal_text_value};
use crate::text::{join, joined};
use vstd::prelude::*;
use vstd::string::*;

verus! {

/// The name of the variable of loop `i`, counted from the outermost loop.
pub open spec fn variable_name(i: nat) -> Seq<char> {
    "val_"@ + decimal_text(i)
}

/// The line that opens loop `i`.
pub open spec fn loop_header(i: nat, source_iter: Seq<char>) -> Seq<char> {
    "for "@ + variable_name(i) + " in "@ + source_iter + " {"@
}

/// The value that is yielded for loop `i`: its variable, with the
/// transformation attached where there is one.
pub open spec fn yielded_value(i: nat, transformation: Option<PreOrPostFixView>) -> Seq<char> {
    match transformation {
        None => variable_name(i),
        Some(PreOrPostFixView::Pre(prefix)) => prefix + variable_name(i),
        Some(PreOrPostFixView::Post(postfix)) => variable_name(i) + postfix,
    }
}

/// The headers of loops `0` to `depth - 1`.
pub open spec fn loop_headers(source_iter: Seq<char>, depth: nat) -> Seq<Seq<char>> {
    Seq::new(depth, |i: int| loop_header(i as nat, source_iter))
}

/// The yielded values of loops `0` to `depth - 1`.
pub open spec fn yielded_values(
    depth: nat,
    transformation: Option<PreOrPostFixView>,
) -> Seq<Seq<char>> {
    Seq::new(depth, |i: int| yielded_value(i as nat, transformation))
}

/// One closing brace for each of `depth` loops.
pub open spec fn closing_braces(depth: nat) -> Seq<Seq<char>> {
    Seq::new(depth, |i: int| "}"@)
}

/// The program text for `arguments`: the generator's opening, the loop
/// headers one per line, the statement that yields the vector of values,
/// the closing braces one per line, and the generator's closing.
pub open spec fn expansion(arguments: ArgumentsView) -> Seq<char> {
    "genawaiter::sync::Gen::new(|co| async move {"@ + joined(
        loop_headers(arguments.source_iter, arguments.depth),
        "\n"@,
    ) + "co.yield_(vec!["@ + joined(
        yielded_values(arguments.depth, arguments.value_transformation),
        ", "@,
    ) + "]).await;"@ + joined(closing_braces(arguments.depth), "\n"@) + "})"@
}

/// Different loops have different variables, so no loop of the nest hides
/// the variable of a loop around it.
pub proof fn lemma_variable_names_distinct(i: nat, j: nat)
    requires
        i != j,
    ensures
        variable_name(i) != variable_name(j),
{
    lemma_decimal_text_value(i);
    lemma_decimal_text_value(j);
    let stem = "val_"@;
    assert(variable_name(i).skip(stem.len() as int) =~= decimal_text(i));
    assert(variable_name(j).skip(stem.len() as int) =~= decimal_text(j));
}

/// Writes the name of the variable of loop `i`.
pub fn variable(i: usize) -> (name: String)
    ensures
        name@ == variable_name(i as nat),
{
    let mut name = String::from_str("val_");
    name.append(decimal_string(i).as_str());
    name
}

/// Writes the line that opens loop `i` over `source_iter`.
pub fn open_loop(i: usize, source_iter: &str) -> (line: String)
    ensures
        line@ == loop_header(i as nat, source_iter@),
{
    let mut line = String::from_str("for ");
    line.append(variable(i).as_str());
    line.append(" in ");
    line.append(source_iter);
    line.append(" {");
    line
}

/// Writes the value that is yielded for loop `i`.
pub fn yield_arg(i: usize, transformation: &Option<PreOrPostFix>) -> (value: String)
    ensures
        value@ == yielded_value(i as nat, transformation_view(*transformation)),
{
    let name = variable(i);
    match transformation {
        None => name,
        Some(PreOrPostFix::Pre(prefix)) => {
            let mut value = prefix.clone();
            value.append(name.as_str());
            value
        },
        Some(PreOrPostFix::Post(postfix)) => {
            let mut value = name;
            value.append(postfix.as_str());
            value
        },
    }
}

/// Writes the program text for `arguments`.
pub fn generate(arguments: &Arguments) -> (code: String)
    ensures
        code@ == expansion(arguments@),
{
    let depth = arguments.depth;
    let mut headers: Vec<String> = Vec::new();
    let mut values: Vec<String> = Vec::new();
    let mut braces: Vec<String> = Vec::new();
    for i in 0..depth
        invariant
            depth == arguments.depth,
            headers.deep_view() == loop_headers(arguments@.source_iter, i as nat),
            values.deep_view() == yielded_values(i as nat, arguments@.value_transformation),
            braces.deep_view() == closing_braces(i as nat),
    {
        let ghost headers_before = headers.deep_view();
        let ghost values_before = values.deep_view();
        let ghost braces_before = braces.deep_view();
        headers.push(open_loop(i, arguments.source_iter.as_str()));
        values.push(yield_arg(i, &arguments.value_transformation));
        braces.push(String::from_str("}"));
        proof {
            assert(headers.deep_view() =~= headers_before.push(
                loop_header(i as nat, arguments@.source_iter),
            ));
            assert(values.deep_view() =~= values_before.push(
                yielded_value(i as nat, arguments@.value_transformation),
            ));
            assert(braces.deep_view() =~= braces_before.push("}"@));
        }
    }
    let mut code = String::from_str("genawaiter::sync::Gen::new(|co| async move {");
    code.append(join(&headers, "\n").as_str());
    code.append("co.yield_(vec![");
    code.append(join(&values, ", ").as_str());
    code.append("]).await;");
    code.append(join(&braces, "\n").as_str());
    code.append("})");
    code
}

} // verus!
