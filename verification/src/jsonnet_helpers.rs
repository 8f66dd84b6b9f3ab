use crate::json::{Json, JsonView};
use crate::text::chars_of;
use vstd::prelude::*;
use vstd::string::StringExecFns;

verus! {

#[verifier::external_type_specification]
#[verifier::external_body]
pub struct ExJsonnetVm(jsonnet::JsonnetVm);

/// Why a snippet could not be evaluated.
#[derive(Debug)]
pub enum JsonnetError {
    /// The evaluation failed; the text is what the evaluator reported.
    EvaluateError { source_str: String },
}

/// `jsonnet::JsonnetVm::new`: a new virtual machine.
#[verifier::external_body]
fn vm_new() -> (r: jsonnet::JsonnetVm) {
    jsonnet::JsonnetVm::new()
}

/// `jsonnet::JsonnetVm::string_output`: tells the machine whether to give a
/// string that a snippet evaluates to as it is, and not as JSON.
#[verifier::external_body]
fn vm_string_output(vm: &mut jsonnet::JsonnetVm, v: bool) {
    vm.string_output(v)
}

/// `jsonnet::JsonnetVm::evaluate_snippet`: what the snippet evaluates to, or
/// what `Debug` prints for the machine's error. What the machine hands back is
/// read through `as_cstr`; where it is no UTF-8, the report of that is the
/// error. The file name only serves error messages. Neither text may hold a
/// NUL character. A snippet may read files, so nothing is stated of the
/// result.
#[verifier::external_body]
fn vm_evaluate_snippet(vm: &mut jsonnet::JsonnetVm, filename: &str, snippet: &str) -> (r: Result<
    String,
    String,
>)
    requires
        !filename@.contains('\0'),
        !snippet@.contains('\0'),
{
    match vm.evaluate_snippet(filename, snippet) {
        Ok(s) => s.as_cstr().to_str().map(|t| t.to_owned()).map_err(|u| u.to_string()),
        Err(e) => Err(
            e.as_cstr().to_str().map(|t| format!("Error({:?})", t)).unwrap_or_else(|u| u.to_string()),
        ),
    }
}

/// Whether a text holds a NUL character.
pub fn holds_nul(text: &str) -> (r: bool)
    ensures
        r == text@.contains('\0'),
{
    let t = chars_of(text);
    let mut i: usize = 0;
    while i < t.len()
        invariant
            t@ == text@,
            i <= t.len(),
            forall|j: int| 0 <= j < i ==> t@[j] != '\0',
        decreases t.len() - i,
    {
        if t[i] == '\0' {
            return true;
        }
        i += 1;
    }
    false
}

/// What is said of a snippet that holds a NUL character.
pub open spec fn nul_message() -> Seq<char> {
    "The snippet holds a NUL character"@
}

/// Whether a `string_output` argument asks for a string as it is: only the
/// boolean `true` does.
pub open spec fn asks_for_string(string_output: Option<&Json>) -> bool {
    string_output is Some && string_output->0@ == JsonView::Bool(true)
}

/// Reads the `string_output` argument of the helper.
pub fn string_output_flag(string_output: Option<&Json>) -> (r: bool)
    ensures
        r == asks_for_string(string_output),
{
    match string_output {
        Some(v) => match v.as_bool() {
            Some(b) => b,
            None => false,
        },
        None => false,
    }
}

/// What the helper gives for what the evaluation gave: the text that a snippet
/// evaluated to as it is, and the machine's report of a failure as an
/// `EvaluateError`.
pub fn evaluation_result(outcome: Result<String, String>) -> (r: Result<String, JsonnetError>)
    ensures
        match outcome {
            Ok(text) => r == Ok::<String, JsonnetError>(text),
            Err(report) => r == Err::<String, JsonnetError>(
                JsonnetError::EvaluateError { source_str: report },
            ),
        },
{
    match outcome {
        Ok(s) => Ok(s),
        Err(source_str) => Err(JsonnetError::EvaluateError { source_str }),
    }
}

/// The helper `jsonnet`: evaluates the text as a Jsonnet snippet. The empty
/// text is given back without evaluation, and a text that holds a NUL
/// character is an error without evaluation. Any other text goes to a new
/// machine under the file name `snippet`, with the string output that
/// [`string_output_flag`] reads from the argument, and the helper gives what
/// [`evaluation_result`] makes of the outcome.
pub fn jsonnet_block(input: String, string_output: Option<&Json>) -> (r: Result<
    String,
    JsonnetError,
>)
    ensures
        input@.len() == 0 ==> r is Ok && r->Ok_0@ == input@,
        input@.contains('\0') ==> r is Err && r->Err_0->EvaluateError_source_str@ == nul_message(),
{
    if input.as_str().is_empty() {
        assert(!input@.contains('\0'));
        Ok(input)
    } else if holds_nul(input.as_str()) {
        Err(
            JsonnetError::EvaluateError {
                source_str: String::from_str("The snippet holds a NUL character"),
            },
        )
    } else {
        let mut vm = vm_new();
        vm_string_output(&mut vm, string_output_flag(string_output));
        proof {
            reveal_strlit("snippet");
        }
        evaluation_result(vm_evaluate_snippet(&mut vm, "snippet", input.as_str()))
    }
}

} // verus!
