use crate::text::chars_of;
use vstd::prelude::*;
use vstd::string::StringExecFns;

verus! {

#[verifier::external_type_specification]
#[verifier::external_body]
pub struct ExJmespathError(jmespath::JmespathError);

#[verifier::external_type_specification]
#[verifier::external_body]
pub struct ExRuntimeError(jmespath::RuntimeError);

/// Why a search failed.
#[derive(Debug)]
#[allow(inconsistent_fields)]
pub enum RuntimeFailure {
    /// A slice has a step of zero.
    InvalidSlice,
    /// A function was given more arguments than it takes.
    TooManyArguments { expected: usize, actual: usize },
    /// A function was given fewer arguments than it needs.
    NotEnoughArguments { expected: usize, actual: usize },
    /// No function has this name.
    UnknownFunction(String),
    /// The argument at `position` is not of a type that the function takes.
    InvalidType { expected: String, actual: String, position: usize },
    /// The expression given as the argument at `position` gave, when it was
    /// evaluated for the `invocation`-th time, a value of a type that the
    /// function cannot use.
    InvalidReturnType { expected: String, actual: String, position: usize, invocation: usize },
}

/// Why an expression failed: it could not be parsed, or its search failed.
#[derive(Debug)]
pub enum Reason {
    Parse(String),
    Runtime(RuntimeFailure),
}

/// An error of an expression, with the place in the text that it is about.
#[derive(Debug)]
pub struct ExpressionError {
    /// The place in the text, counted from its start.
    pub offset: usize,
    /// The line of that place, the first line being line 0.
    pub line: usize,
    /// The column of that place in its line, the first being column 0.
    pub column: usize,
    /// The text of the expression.
    pub expression: String,
    /// What went wrong.
    pub reason: Reason,
}

/// A failure as the search reports it: a value of the wrong type that an
/// expression gave to a function is an `InvalidType` of that function's
/// argument, and every other failure is itself.
pub open spec fn reported_failure(f: RuntimeFailure) -> RuntimeFailure {
    match f {
        RuntimeFailure::InvalidReturnType { expected, actual, position, invocation } => {
            RuntimeFailure::InvalidType { expected, actual, position }
        },
        other => other,
    }
}

/// An error as the search reports it: a failure of the search as
/// [`reported_failure`] says, at the same place of the same text.
pub open spec fn reported(e: ExpressionError) -> ExpressionError {
    ExpressionError {
        offset: e.offset,
        line: e.line,
        column: e.column,
        expression: e.expression,
        reason: match e.reason {
            Reason::Runtime(f) => Reason::Runtime(reported_failure(f)),
            Reason::Parse(m) => Reason::Parse(m),
        },
    }
}

/// Turns an error of the interpreter into the error that the search reports.
pub fn report(e: ExpressionError) -> (r: ExpressionError)
    ensures
        r == reported(e),
{
    let ExpressionError { offset, line, column, expression, reason } = e;
    let reason = match reason {
        Reason::Runtime(RuntimeFailure::InvalidReturnType { expected, actual, position, .. }) => {
            Reason::Runtime(RuntimeFailure::InvalidType { expected, actual, position })
        },
        other => other,
    };
    ExpressionError { offset, line, column, expression, reason }
}

/// Line and column of the place behind the first `k` characters of a text:
/// the line feeds among them, and the characters behind the last of these.
pub open spec fn place(text: Seq<char>, k: int) -> (nat, nat)
    decreases k,
{
    if k <= 0 || k > text.len() {
        (0, 0)
    } else {
        let before = place(text, k - 1);
        if text[k - 1] == '\n' {
            ((before.0 + 1) as nat, 0)
        } else {
            (before.0, (before.1 + 1) as nat)
        }
    }
}

/// The number of characters before an offset: the offset, or the length of the
/// text where the offset lies behind its end.
pub open spec fn reach(text: Seq<char>, offset: usize) -> int {
    if offset <= text.len() {
        offset as int
    } else {
        text.len() as int
    }
}

impl ExpressionError {
    /// The error that says of `expr` that `reason` holds at `offset`. Line and
    /// column are those of the place behind the first `offset` characters.
    pub fn new(expr: &str, offset: usize, reason: Reason) -> (r: ExpressionError)
        ensures
            r.offset == offset,
            r.expression@ == expr@,
            r.reason == reason,
            (r.line as nat, r.column as nat) == place(expr@, reach(expr@, offset)),
    {
        let t = chars_of(expr);
        let mut line: usize = 0;
        let mut column: usize = 0;
        let mut i: usize = 0;
        while i < t.len() && i < offset
            invariant
                t@ == expr@,
                i <= t.len(),
                i <= offset,
                (line as nat, column as nat) == place(t@, i as int),
                line + column <= i,
            decreases t.len() - i,
        {
            if t[i] == '\n' {
                line += 1;
                column = 0;
            } else {
                column += 1;
            }
            i += 1;
        }
        ExpressionError { offset, line, column, expression: String::from_str(expr), reason }
    }
}

/// Rewrites a `jmespath::RuntimeError` as a [`RuntimeFailure`], variant by
/// variant. Nothing is stated of the result.
#[verifier::external_body]
pub(crate) fn failure_from_outside(e: jmespath::RuntimeError) -> (r: RuntimeFailure) {
    match e {
        jmespath::RuntimeError::InvalidSlice => RuntimeFailure::InvalidSlice,
        jmespath::RuntimeError::TooManyArguments { expected, actual } =>
            RuntimeFailure::TooManyArguments { expected, actual },
        jmespath::RuntimeError::NotEnoughArguments { expected, actual } =>
            RuntimeFailure::NotEnoughArguments { expected, actual },
        jmespath::RuntimeError::UnknownFunction(name) => RuntimeFailure::UnknownFunction(name),
        jmespath::RuntimeError::InvalidType { expected, actual, position } =>
            RuntimeFailure::InvalidType { expected, actual, position },
        jmespath::RuntimeError::InvalidReturnType { expected, actual, position, invocation } =>
            RuntimeFailure::InvalidReturnType { expected, actual, position, invocation },
    }
}

/// Rewrites a `jmespath::JmespathError` as an [`ExpressionError`], field by
/// field. Nothing is stated of the result.
#[verifier::external_body]
pub(crate) fn error_from_outside(e: jmespath::JmespathError) -> (r: ExpressionError) {
    ExpressionError {
        offset: e.offset,
        line: e.line,
        column: e.column,
        expression: e.expression,
        reason: match e.reason {
            jmespath::ErrorReason::Parse(message) => Reason::Parse(message),
            jmespath::ErrorReason::Runtime(f) => Reason::Runtime(failure_from_outside(f)),
        },
    }
}

} // verus!
