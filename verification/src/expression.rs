use crate::errors::{error_from_outside, place, reach, report, reported};
use crate::errors::{ExpressionError, Reason, RuntimeFailure};
use crate::json::{number_to_serde, Json, JsonNumber, JsonView};
use crate::numbers::{find_number_not_allowed, first_fault, numbers_allowed, Fault, STEP_MAX};
use jmespath::ast::Ast;
use std::rc::Rc;
use vstd::prelude::*;
use vstd::string::{StringExecFns, StringSliceAdditionalSpecFns};

verus! {

#[verifier::external_type_specification]
#[verifier::external_body]
pub struct ExAst(jmespath::ast::Ast);

#[verifier::external_type_specification]
#[verifier::external_body]
pub struct ExRuntime(jmespath::Runtime);

#[verifier::external_type_specification]
#[verifier::external_body]
pub struct ExVariable(jmespath::Variable);

pub assume_specification[ <jmespath::ast::Ast as Clone>::clone ](a: &jmespath::ast::Ast) -> (r:
    jmespath::ast::Ast)
    ensures
        r == *a,
;

/// A value that a search reads or gives, shared by reference count.
pub type Rcvar = Rc<jmespath::Variable>;

/// What a search gives.
pub type SearchResult = Result<Rcvar, ExpressionError>;

/// What `jmespath::parse` gives for a text: the syntax tree of the expression,
/// or the error that says where the text stops being one.
pub uninterp spec fn parsed(text: Seq<char>) -> Result<jmespath::ast::Ast, ExpressionError>;

/// Whether the parser accepts the text as an expression.
pub open spec fn is_expression(text: Seq<char>) -> bool {
    parsed(text) is Ok
}

/// The numbers that the interpreter reckons with in a syntax tree, those in
/// the expressions that its literals refer to among them: the step of each
/// slice, marked `true`, and the place of each index, marked `false`.
pub uninterp spec fn numbers_of(tree: jmespath::ast::Ast) -> Seq<(bool, i32)>;

/// A step fits where it is at most [`STEP_MAX`], and the place of an index
/// where its negative is an `i32`.
pub open spec fn number_fits(number: (bool, i32)) -> bool {
    if number.0 {
        number.1 <= STEP_MAX
    } else {
        number.1 > i32::MIN
    }
}

/// Every number of a list fits.
pub open spec fn numbers_fit(numbers: Seq<(bool, i32)>) -> bool {
    forall|i: int| 0 <= i < numbers.len() ==> number_fits(#[trigger] numbers[i])
}

/// What `jmespath::Expression::search` gives with the built-in functions of
/// `jmespath::DEFAULT_RUNTIME` for the text and the tree of an expression and
/// for the data to search: what was found, or the error of the search.
pub uninterp spec fn found(
    text: Seq<char>,
    tree: jmespath::ast::Ast,
    data: jmespath::Variable,
) -> Result<jmespath::Variable, ExpressionError>;

/// `jmespath::parse`: the syntax tree of an expression, or the error that says
/// where the text stops being one; the same for the same text, which
/// [`parsed`] names. Its errors are errors of parsing that hold the text. The
/// steps and indices of the tree are numbers of the text, so they fit where
/// the numbers of the text are allowed. Its tokenizer panics on a number that
/// `i32` does not hold, so the numbers of the text must be allowed.
#[verifier::external_body]
fn parse(expr: &str) -> (r: Result<jmespath::ast::Ast, ExpressionError>)
    requires
        numbers_allowed(expr.spec_bytes()),
    ensures
        r == parsed(expr@),
        r is Err ==> r->Err_0.expression@ == expr@ && r->Err_0.reason is Parse,
        r is Ok ==> numbers_fit(numbers_of(r->Ok_0)),
{
    jmespath::parse(expr).map_err(error_from_outside)
}

/// `jmespath::DEFAULT_RUNTIME`: the shared runtime that holds the built-in
/// functions.
#[verifier::external_body]
fn default_runtime() -> (r: &'static jmespath::Runtime) {
    &jmespath::DEFAULT_RUNTIME
}

/// The two nodes below a node of a `jmespath::ast::Ast` that has a left and a
/// right side, and none for any other node. Nothing is stated of the result.
#[verifier::external_body]
fn sides_below(ast: &Ast) -> (r: Vec<&Ast>) {
    match ast {
        Ast::Comparison { lhs, rhs, .. }
        | Ast::And { lhs, rhs, .. }
        | Ast::Or { lhs, rhs, .. }
        | Ast::Projection { lhs, rhs, .. }
        | Ast::Subexpr { lhs, rhs, .. } => vec![&**lhs, &**rhs],
        Ast::Condition { predicate, then, .. } => vec![&**predicate, &**then],
        _ => Vec::new(),
    }
}

/// The nodes below a node of a `jmespath::ast::Ast` that holds one node or a
/// list of nodes, and none for any other node. Nothing is stated of the
/// result.
#[verifier::external_body]
fn nodes_below(ast: &Ast) -> (r: Vec<&Ast>) {
    match ast {
        Ast::Expref { ast: node, .. }
        | Ast::Flatten { node, .. }
        | Ast::Not { node, .. }
        | Ast::ObjectValues { node, .. } => vec![&**node],
        Ast::Function { args: nodes, .. } | Ast::MultiList { elements: nodes, .. } => {
            nodes.iter().collect()
        },
        Ast::MultiHash { elements, .. } => elements.iter().map(|e| &e.value).collect(),
        _ => Vec::new(),
    }
}

/// The steps and indices in the expressions that a `jmespath::Variable`
/// refers to, itself or in its items. Nothing is stated of the result.
#[verifier::external_body]
fn variable_numbers(v: &jmespath::Variable) -> (r: Vec<(bool, i32)>) {
    match v {
        jmespath::Variable::Expref(ast) => tree_numbers(ast),
        jmespath::Variable::Array(items) => items.iter().flat_map(|x| variable_numbers(x)).collect(),
        jmespath::Variable::Object(m) => m.values().flat_map(|x| variable_numbers(x)).collect(),
        _ => Vec::new(),
    }
}

/// Walks a `jmespath::ast::Ast` and hands out the step of each `Slice` node
/// and the place of each `Index` node in it, those below its literals among
/// them: the numbers that [`numbers_of`] names.
#[verifier::external_body]
fn tree_numbers(ast: &jmespath::ast::Ast) -> (r: Vec<(bool, i32)>)
    ensures
        r@ == numbers_of(*ast),
{
    match ast {
        jmespath::ast::Ast::Slice { step, .. } => vec![(true, *step)],
        jmespath::ast::Ast::Index { idx, .. } => vec![(false, *idx)],
        jmespath::ast::Ast::Literal { value, .. } => variable_numbers(value),
        other => sides_below(other)
            .into_iter()
            .chain(nodes_below(other))
            .flat_map(tree_numbers)
            .collect(),
    }
}

/// `jmespath::Expression::search`, on an expression made of the context's text
/// and runtime and of the tree `node`. Nothing is stated of the result: the
/// functions of the runtime decide it with the interpreter. The interpreter
/// adds the step of a slice to a place in the array in 32 bits and negates an
/// index in 32 bits, so the numbers of the tree must fit; it is made for
/// arrays of fewer than 2^30 items.
#[verifier::external_body]
fn interpret(data: &Rcvar, node: &jmespath::ast::Ast, ctx: &Context) -> (r: SearchResult)
    requires
        numbers_fit(numbers_of(*node)),
{
    jmespath::Expression::new(ctx.expression, node.clone(), ctx.runtime)
        .search(data.clone())
        .map_err(error_from_outside)
}

/// `jmespath::Expression::search`, on an expression made of the text, the tree
/// `node` and `jmespath::DEFAULT_RUNTIME`, whose functions are the built-in
/// ones: the same result for the same text, tree and data, which [`found`]
/// names. The limits are those of [`interpret`].
#[verifier::external_body]
fn interpret_builtin(data: &Rcvar, node: &jmespath::ast::Ast, text: &str) -> (r: SearchResult)
    requires
        numbers_fit(numbers_of(*node)),
    ensures
        match r {
            Ok(v) => found(text@, *node, **data) == Ok::<jmespath::Variable, ExpressionError>(*v),
            Err(e) => found(text@, *node, **data) == Err::<jmespath::Variable, ExpressionError>(e),
        },
{
    jmespath::Expression::new(text, node.clone(), &jmespath::DEFAULT_RUNTIME)
        .search(data.clone())
        .map_err(error_from_outside)
}

/// Whether every number of a list fits.
pub fn all_fit(numbers: &Vec<(bool, i32)>) -> (r: bool)
    ensures
        r == numbers_fit(numbers@),
{
    let mut i: usize = 0;
    while i < numbers.len()
        invariant
            i <= numbers.len(),
            forall|j: int| 0 <= j < i ==> number_fits(#[trigger] numbers@[j]),
        decreases numbers.len() - i,
    {
        let fits = if numbers[i].0 {
            numbers[i].1 <= 1073741823
        } else {
            numbers[i].1 > i32::MIN
        };
        if !fits {
            return false;
        }
        i += 1;
    }
    true
}

/// The `jmespath::Variable` that stands for a document: `Null`, `Bool`,
/// `Number`, `String`, `Array` or `Object` with the same content, the members
/// of an object put into the variable's map in their order.
pub uninterp spec fn variable_of(doc: JsonView) -> jmespath::Variable;

/// The `jmespath::Variable::Array` that holds these items in this order.
pub uninterp spec fn array_of(items: Seq<jmespath::Variable>) -> jmespath::Variable;

/// The items that a list of shared variables points to.
pub open spec fn pointed_to(items: Seq<Rcvar>) -> Seq<jmespath::Variable> {
    Seq::new(items.len(), |i: int| *items[i])
}

/// Converts a value into a reference-counted variable that can be searched.
pub trait ToJmespath: Sized {
    /// The variable that stands for the value.
    spec fn variable(self) -> jmespath::Variable;

    /// Makes the variable that stands for the value, and shares it.
    fn to_jmespath(self) -> (r: Rcvar)
        ensures
            *r == self.variable(),
    ;
}

impl ToJmespath for Rcvar {
    /// A shared variable stands for itself.
    open spec fn variable(self) -> jmespath::Variable {
        *self
    }

    fn to_jmespath(self) -> (r: Rcvar)
        ensures
            r == self,
    {
        self
    }
}

impl ToJmespath for jmespath::Variable {
    /// A variable stands for itself.
    open spec fn variable(self) -> jmespath::Variable {
        self
    }

    fn to_jmespath(self) -> (r: Rcvar) {
        Rc::new(self)
    }
}

/// Builds the `jmespath::Variable` of a [`Json`], variant by variant: the same
/// variable for the same document, which [`variable_of`] names. The members of
/// an object are inserted into the variable's map in their order.
#[verifier::external_body]
fn variable_from_json(v: &Json) -> (r: jmespath::Variable)
    ensures
        r == variable_of(v@),
{
    match v {
        Json::Null => jmespath::Variable::Null,
        Json::Bool(b) => jmespath::Variable::Bool(*b),
        Json::Number(n) => jmespath::Variable::Number(number_to_serde(n)),
        Json::String(s) => jmespath::Variable::String(s.clone()),
        Json::Array(a) => jmespath::Variable::Array(
            a.iter().map(|x| Rc::new(variable_from_json(x))).collect(),
        ),
        Json::Object(o) => jmespath::Variable::Object(
            o.iter().map(|(k, x)| (k.clone(), Rc::new(variable_from_json(x)))).collect(),
        ),
    }
}

/// `jmespath::Variable::Array` of the given items in their order, which
/// [`array_of`] names.
#[verifier::external_body]
fn array_variable(items: Vec<Rcvar>) -> (r: jmespath::Variable)
    ensures
        r == array_of(pointed_to(items@)),
{
    jmespath::Variable::Array(items)
}

impl ToJmespath for Json {
    /// A document stands for the variable of the same content.
    open spec fn variable(self) -> jmespath::Variable {
        variable_of(self@)
    }

    fn to_jmespath(self) -> (r: Rcvar) {
        Rc::new(variable_from_json(&self))
    }
}

impl<'a> ToJmespath for &'a Json {
    /// A document stands for the variable of the same content.
    open spec fn variable(self) -> jmespath::Variable {
        variable_of(self@)
    }

    fn to_jmespath(self) -> (r: Rcvar) {
        Rc::new(variable_from_json(self))
    }
}

impl ToJmespath for String {
    /// A text stands for the JSON string of its characters.
    open spec fn variable(self) -> jmespath::Variable {
        variable_of(JsonView::String(self@))
    }

    fn to_jmespath(self) -> (r: Rcvar) {
        Json::String(self).to_jmespath()
    }
}

impl<'a> ToJmespath for &'a str {
    /// A text stands for the JSON string of its characters.
    open spec fn variable(self) -> jmespath::Variable {
        variable_of(JsonView::String(self@))
    }

    fn to_jmespath(self) -> (r: Rcvar) {
        Json::String(self.to_owned()).to_jmespath()
    }
}

impl ToJmespath for bool {
    /// A truth value stands for the JSON boolean.
    open spec fn variable(self) -> jmespath::Variable {
        variable_of(JsonView::Bool(self))
    }

    fn to_jmespath(self) -> (r: Rcvar) {
        Json::Bool(self).to_jmespath()
    }
}

impl ToJmespath for () {
    /// The unit stands for `null`.
    open spec fn variable(self) -> jmespath::Variable {
        variable_of(JsonView::Null)
    }

    fn to_jmespath(self) -> (r: Rcvar) {
        Json::Null.to_jmespath()
    }
}

/// The JSON number of an integer that is not negative.
pub open spec fn unsigned_number(n: int) -> JsonView {
    JsonView::Number(JsonNumber::PosInt(n as u64))
}

/// The JSON number of an integer: below zero in the form of the negative
/// integers, and from zero up in the form of the others.
pub open spec fn signed_number(n: int) -> JsonView {
    if n < 0 {
        JsonView::Number(JsonNumber::NegInt(n as i64))
    } else {
        JsonView::Number(JsonNumber::PosInt(n as u64))
    }
}

impl ToJmespath for u8 {
    /// An integer stands for the JSON number of its value.
    open spec fn variable(self) -> jmespath::Variable {
        variable_of(unsigned_number(self as int))
    }

    fn to_jmespath(self) -> (r: Rcvar) {
        Json::Number(JsonNumber::PosInt(self as u64)).to_jmespath()
    }
}

impl ToJmespath for u16 {
    /// An integer stands for the JSON number of its value.
    open spec fn variable(self) -> jmespath::Variable {
        variable_of(unsigned_number(self as int))
    }

    fn to_jmespath(self) -> (r: Rcvar) {
        Json::Number(JsonNumber::PosInt(self as u64)).to_jmespath()
    }
}

impl ToJmespath for u32 {
    /// An integer stands for the JSON number of its value.
    open spec fn variable(self) -> jmespath::Variable {
        variable_of(unsigned_number(self as int))
    }

    fn to_jmespath(self) -> (r: Rcvar) {
        Json::Number(JsonNumber::PosInt(self as u64)).to_jmespath()
    }
}

impl ToJmespath for u64 {
    /// An integer stands for the JSON number of its value.
    open spec fn variable(self) -> jmespath::Variable {
        variable_of(unsigned_number(self as int))
    }

    fn to_jmespath(self) -> (r: Rcvar) {
        Json::Number(JsonNumber::PosInt(self)).to_jmespath()
    }
}

impl ToJmespath for usize {
    /// An integer stands for the JSON number of its value.
    open spec fn variable(self) -> jmespath::Variable {
        variable_of(unsigned_number(self as int))
    }

    fn to_jmespath(self) -> (r: Rcvar) {
        Json::Number(JsonNumber::PosInt(self as u64)).to_jmespath()
    }
}

impl ToJmespath for i8 {
    /// An integer stands for the JSON number of its value.
    open spec fn variable(self) -> jmespath::Variable {
        variable_of(signed_number(self as int))
    }

    fn to_jmespath(self) -> (r: Rcvar) {
        Json::Number(JsonNumber::from_i64(self as i64)).to_jmespath()
    }
}

impl ToJmespath for i16 {
    /// An integer stands for the JSON number of its value.
    open spec fn variable(self) -> jmespath::Variable {
        variable_of(signed_number(self as int))
    }

    fn to_jmespath(self) -> (r: Rcvar) {
        Json::Number(JsonNumber::from_i64(self as i64)).to_jmespath()
    }
}

impl ToJmespath for i32 {
    /// An integer stands for the JSON number of its value.
    open spec fn variable(self) -> jmespath::Variable {
        variable_of(signed_number(self as int))
    }

    fn to_jmespath(self) -> (r: Rcvar) {
        Json::Number(JsonNumber::from_i64(self as i64)).to_jmespath()
    }
}

impl ToJmespath for i64 {
    /// An integer stands for the JSON number of its value.
    open spec fn variable(self) -> jmespath::Variable {
        variable_of(signed_number(self as int))
    }

    fn to_jmespath(self) -> (r: Rcvar) {
        Json::Number(JsonNumber::from_i64(self)).to_jmespath()
    }
}

impl ToJmespath for isize {
    /// An integer stands for the JSON number of its value.
    open spec fn variable(self) -> jmespath::Variable {
        variable_of(signed_number(self as int))
    }

    fn to_jmespath(self) -> (r: Rcvar) {
        Json::Number(JsonNumber::from_i64(self as i64)).to_jmespath()
    }
}

impl<A: ToJmespath, B: ToJmespath> ToJmespath for (A, B) {
    /// A pair stands for the array of what its two parts stand for.
    open spec fn variable(self) -> jmespath::Variable {
        array_of(seq![self.0.variable(), self.1.variable()])
    }

    fn to_jmespath(self) -> (r: Rcvar) {
        let mut items: Vec<Rcvar> = Vec::new();
        items.push(self.0.to_jmespath());
        items.push(self.1.to_jmespath());
        assert(pointed_to(items@) =~= seq![self.0.variable(), self.1.variable()]);
        Rc::new(array_variable(items))
    }
}

/// A compiled expression: the text it was made of, the syntax tree of that
/// text, and the runtime whose functions it calls.
pub struct Expression<'a> {
    ast: jmespath::ast::Ast,
    expression: String,
    runtime: &'a jmespath::Runtime,
    builtin: bool,
}

impl<'a> Expression<'a> {
    /// The text that the expression was made of.
    pub closed spec fn text(&self) -> Seq<char> {
        self.expression@
    }

    /// The syntax tree that the expression holds.
    pub closed spec fn tree(&self) -> jmespath::ast::Ast {
        self.ast
    }

    /// The runtime that the expression calls.
    pub closed spec fn registry(&self) -> &'a jmespath::Runtime {
        self.runtime
    }

    /// Whether the expression was compiled for the built-in functions.
    pub closed spec fn uses_builtins(&self) -> bool {
        self.builtin
    }

    /// Whether the steps and indices in the tree fit.
    pub open spec fn numbers_fit(&self) -> bool {
        numbers_fit(numbers_of(self.tree()))
    }

    /// Makes an expression of its three parts. Nothing checks that `ast` is
    /// the tree of `expression`.
    pub fn new(expression: &str, ast: jmespath::ast::Ast, runtime: &'a jmespath::Runtime) -> (r:
        Expression<'a>)
        ensures
            r.text() == expression@,
            r.tree() == ast,
            r.registry() == runtime,
            !r.uses_builtins(),
    {
        Expression { expression: expression.to_owned(), ast, runtime, builtin: false }
    }

    /// Searches `data` with the expression: hands the variable that stands
    /// for `data` and the tree to the interpreter, and gives what the
    /// interpreter gives.
    ///
    /// A tree that holds a step or an index that does not fit is not
    /// searched: that is the error `InvalidSlice` at offset 0. For an
    /// expression that `compile` made the result is what [`found`] names for
    /// its text, its tree and the variable of the data, an error as
    /// [`reported`] says. For an expression made of parts the functions of
    /// its runtime decide with the interpreter. No search fails with
    /// `InvalidReturnType`: that is reported as `InvalidType`.
    pub fn search<T: ToJmespath>(&self, data: T) -> (r: SearchResult)
        ensures
            r is Err && r->Err_0.reason is Runtime ==> !(r->Err_0.reason->Runtime_0
                is InvalidReturnType),
            !self.numbers_fit() ==> r is Err && r->Err_0.reason == Reason::Runtime(
                RuntimeFailure::InvalidSlice,
            ) && r->Err_0.expression@ == self.text() && r->Err_0.offset == 0 && r->Err_0.line
                == 0 && r->Err_0.column == 0,
            self.numbers_fit() && self.uses_builtins() ==> match r {
                Ok(v) => found(self.text(), self.tree(), data.variable()) == Ok::<
                    jmespath::Variable,
                    ExpressionError,
                >(*v),
                Err(e) => found(self.text(), self.tree(), data.variable()) is Err && e
                    == reported(found(self.text(), self.tree(), data.variable())->Err_0),
            },
    {
        let numbers = tree_numbers(&self.ast);
        if !all_fit(&numbers) {
            return Err(
                ExpressionError::new(
                    self.expression.as_str(),
                    0,
                    Reason::Runtime(RuntimeFailure::InvalidSlice),
                ),
            );
        }
        let variable = data.to_jmespath();
        let outcome = if self.builtin {
            interpret_builtin(&variable, &self.ast, self.expression.as_str())
        } else {
            let ctx = Context::new(self.expression.as_str(), self.runtime);
            interpret(&variable, &self.ast, &ctx)
        };
        match outcome {
            Ok(v) => Ok(v),
            Err(e) => Err(report(e)),
        }
    }

    /// The text from which the expression was compiled.
    pub fn as_str(&self) -> (r: &str)
        ensures
            r@ == self.text(),
    {
        self.expression.as_str()
    }

    /// The syntax tree of the expression.
    pub fn as_ast(&self) -> (r: &jmespath::ast::Ast)
        ensures
            *r == self.tree(),
    {
        &self.ast
    }

    /// The text of the expression, as a new string.
    pub fn to_string(&self) -> (r: String)
        ensures
            r@ == self.text(),
    {
        self.expression.clone()
    }
}

impl<'a> Clone for Expression<'a> {
    fn clone(&self) -> (r: Expression<'a>)
        ensures
            r.text() == self.text(),
            r.tree() == self.tree(),
            r.registry() == self.registry(),
            r.uses_builtins() == self.uses_builtins(),
    {
        Expression {
            ast: self.ast.clone(),
            expression: self.expression.clone(),
            runtime: self.runtime,
            builtin: self.builtin,
        }
    }
}

impl<'a> PartialEq for Expression<'a> {
    fn eq(&self, other: &Expression<'a>) -> (r: bool) {
        self.expression == other.expression
    }
}

impl<'a> vstd::std_specs::cmp::PartialEqSpecImpl for Expression<'a> {
    open spec fn obeys_eq_spec() -> bool {
        true
    }

    open spec fn eq_spec(&self, other: &Expression<'a>) -> bool {
        self.text() == other.text()
    }
}

/// Whether a text can be compiled: the numbers in its UTF-8 form are
/// allowed, and the parser accepts it.
pub open spec fn compiles(text: Seq<char>) -> bool {
    numbers_allowed(vstd::utf8::encode_utf8(text)) && is_expression(text)
}

/// What is said of a number that is not allowed.
pub open spec fn fault_message(kind: Fault) -> Seq<char> {
    match kind {
        Fault::TooLarge => "Number does not fit in 32 bits"@,
        Fault::Minus => "'-' must be followed by numbers 1-9"@,
        Fault::Step => "Slice step is zero or too large"@,
    }
}

/// The text that says what is wrong with a number.
pub fn message_of(kind: Fault) -> (r: &'static str)
    ensures
        r@ == fault_message(kind),
{
    match kind {
        Fault::TooLarge => "Number does not fit in 32 bits",
        Fault::Minus => "'-' must be followed by numbers 1-9",
        Fault::Step => "Slice step is zero or too large",
    }
}

/// Compiles an expression for the built-in functions.
///
/// Where the scan of the text meets a number that is not allowed, that is an
/// error of parsing at the place of the number, with the message of the fault
/// and the line and column of the place. Else the parser decides: its tree
/// becomes an expression of this text, whose numbers fit, and its error is
/// handed on as it is.
pub fn compile(expression: &str) -> (r: Result<Expression<'static>, ExpressionError>)
    ensures
        r is Ok <==> compiles(expression@),
        r is Err ==> r->Err_0.expression@ == expression@ && r->Err_0.reason is Parse,
        match first_fault(expression.spec_bytes()) {
            Some((offset, kind)) => r is Err && r->Err_0.offset == offset
                && r->Err_0.reason->Parse_0@ == fault_message(kind) && (
                r->Err_0.line as nat,
                r->Err_0.column as nat,
            ) == place(expression@, reach(expression@, r->Err_0.offset)),
            None => match parsed(expression@) {
                Ok(tree) => r is Ok && r->Ok_0.text() == expression@ && r->Ok_0.tree() == tree
                    && r->Ok_0.uses_builtins() && r->Ok_0.numbers_fit(),
                Err(e) => r is Err && r->Err_0 == e,
            },
        },
{
    match find_number_not_allowed(expression) {
        Some(fault) => Err(
            ExpressionError::new(
                expression,
                fault.offset,
                Reason::Parse(String::from_str(message_of(fault.kind))),
            ),
        ),
        None => match parse(expression) {
            Ok(ast) => Ok(
                Expression {
                    expression: expression.to_owned(),
                    ast,
                    runtime: default_runtime(),
                    builtin: true,
                },
            ),
            Err(e) => Err(e),
        },
    }
}

/// What a search knows of where it is: the text of the expression, the runtime
/// whose functions it calls, and the offset of the node under evaluation.
pub struct Context<'a> {
    /// Expression text that is being interpreted.
    pub expression: &'a str,
    /// Runtime used to call functions.
    pub runtime: &'a jmespath::Runtime,
    /// Offset in the text of the node that is being evaluated.
    pub offset: usize,
}

impl<'a> Context<'a> {
    /// A context at the start of the expression.
    pub fn new(expression: &'a str, runtime: &'a jmespath::Runtime) -> (r: Context<'a>)
        ensures
            r.expression@ == expression@,
            r.runtime == runtime,
            r.offset == 0,
    {
        Context { expression, runtime, offset: 0 }
    }
}

/// A compiled expression gives back the text that it was compiled from: where
/// `compile` accepts the text `e`, the text that `as_str` then gives of the
/// result is `e`, letter for letter.
pub proof fn law_compiled_text(
    e: &str,
    compiled: Result<Expression<'static>, ExpressionError>,
    text: &str,
)
    requires
        call_ensures(compile, (e,), compiled),
        compiled is Ok,
        call_ensures(Expression::as_str, (&compiled->Ok_0,), text),
    ensures
        text@ == e@,
{
}

} // verus!
