//! Questions put to the book of answers.
use crate::env::{
    self, find_answer, Answer, Env, GenericVars, JitError, MethodItem, NamedParam, ParamBinding,
    Question, Resolution, Solver, Step, Stop, TileType, TypeParam,
};
use crate::list::{share, share_opt, List};
use crate::resolved::dup_segments;
use crate::syntax::{Expr, GenericArg, Path, Symbol, Type};
use std::rc::Rc;
use vstd::prelude::*;

verus! {

/// A copy of an optional list.
pub(crate) fn dup_opt<T>(list: &Option<List<T>>) -> (r: Option<List<T>>)
    ensures
        r == *list,
{
    match list {
        Some(list) => Some(list.dup()),
        None => None,
    }
}

impl Resolution {
    pub fn dup(&self) -> (r: Resolution)
        ensures
            r == *self,
    {
        match self {
            Resolution::Const(ty) => Resolution::Const(share(ty)),
            Resolution::Static(ty) => Resolution::Static(share(ty)),
            Resolution::Other => Resolution::Other,
        }
    }
}

impl Answer {
    pub fn dup(&self) -> (r: Answer)
        ensures
            r == *self,
    {
        match self {
            Answer::Compiled(ty) => Answer::Compiled(share_opt(ty)),
            Answer::CompileFailed(error) => Answer::CompileFailed(*error),
            Answer::Resolved(resolution) => Answer::Resolved(resolution.dup()),
            Answer::Normalized(ty) => Answer::Normalized(share(ty)),
            Answer::NormalizeFailed(error) => Answer::NormalizeFailed(*error),
            Answer::Head { ident, args } => Answer::Head { ident: *ident, args: dup_opt(args) },
            Answer::Dims(dims) => Answer::Dims(dup_opt(dims)),
            Answer::Bindings(bindings) => Answer::Bindings(bindings.dup()),
            Answer::Verified(verified) => Answer::Verified(*verified),
            Answer::Instantiated(ty) => Answer::Instantiated(share(ty)),
            Answer::Method(method) => Answer::Method(share_opt(method)),
            Answer::MethodFailed(error) => Answer::MethodFailed(*error),
            Answer::Vars(vars) => Answer::Vars(share(vars)),
            Answer::VarsFailed(error) => Answer::VarsFailed(*error),
            Answer::Unwrapped(expr) => Answer::Unwrapped(share_opt(expr)),
            Answer::Name(name) => Answer::Name(*name),
            Answer::OutputParams(params) => Answer::OutputParams(dup_opt(params)),
            Answer::Param(param) => Answer::Param(share(param)),
        }
    }
}

impl Solver {
    /// The solver that was told one thing more.
    pub open spec fn after(self, step: Step) -> Solver {
        Solver {
            impl_item: self.impl_item,
            callable: self.callable,
            steps: self.steps.pushed(step),
        }
    }

    pub fn dup(&self) -> (r: Solver)
        ensures
            r == *self,
    {
        Solver { impl_item: self.impl_item, callable: self.callable, steps: self.steps.dup() }
    }

    pub fn tell(&self, step: Step) -> (r: Solver)
        ensures
            r == self.after(step),
    {
        Solver {
            impl_item: self.impl_item,
            callable: self.callable,
            steps: self.steps.push(Rc::new(step)),
        }
    }
}

/// The solver for a function, told nothing.
pub open spec fn function_solver(function: u64) -> Solver {
    Solver { impl_item: None, callable: function, steps: List::Nil }
}

/// The solver for a method, told nothing.
pub open spec fn method_solver(impl_item: u64, method: u64) -> Solver {
    Solver { impl_item: Some(impl_item), callable: method, steps: List::Nil }
}

/// How a type compiles: the outer error stops inference, the inner one is the compiler's.
pub open spec fn compiled_under(
    env: Env,
    ty: Type,
    params: List<NamedParam>,
) -> Result<Result<Option<Rc<TileType>>, JitError>, Stop> {
    let question = Question::Compile { ty: Rc::new(ty), params };
    match env::answer_to(env.book, question) {
        Some(Answer::Compiled(ty)) => Ok(Ok(ty)),
        Some(Answer::CompileFailed(code)) => Ok(Err(JitError::Reported(code))),
        _ => Err(Stop::Unanswered(question)),
    }
}

pub fn compile_under(
    env: &Env,
    ty: &Rc<Type>,
    params: &List<NamedParam>,
) -> (r: Result<Result<Option<Rc<TileType>>, JitError>, Stop>)
    ensures
        r == compiled_under(*env, **ty, *params),
{
    let question = Question::Compile { ty: share(ty), params: params.dup() };
    match find_answer(&env.book, &question) {
        Some(Answer::Compiled(ty)) => Ok(Ok(share_opt(ty))),
        Some(Answer::CompileFailed(code)) => Ok(Err(JitError::Reported(*code))),
        _ => Err(Stop::Unanswered(question)),
    }
}

/// The compiled type, where an error of the compiler is one of inference.
pub open spec fn compiled(env: Env, ty: Type) -> Result<Option<Rc<TileType>>, Stop> {
    match compiled_under(env, ty, List::Nil) {
        Ok(Ok(ty)) => Ok(ty),
        Ok(Err(error)) => Err(Stop::Failed(error)),
        Err(stop) => Err(stop),
    }
}

pub fn compile(env: &Env, ty: &Rc<Type>) -> (r: Result<Option<Rc<TileType>>, Stop>)
    ensures
        r == compiled(*env, **ty),
{
    match compile_under(env, ty, &List::Nil) {
        Ok(Ok(ty)) => Ok(ty),
        Ok(Err(error)) => Err(Stop::Failed(error)),
        Err(stop) => Err(stop),
    }
}

/// The compiled type, where an error of the compiler means that there is none.
pub open spec fn compiled_if_any(env: Env, ty: Type) -> Result<Option<Rc<TileType>>, Stop> {
    match compiled_under(env, ty, List::Nil) {
        Ok(Ok(ty)) => Ok(ty),
        Ok(Err(_)) => Ok(None),
        Err(stop) => Err(stop),
    }
}

pub fn compile_if_any(env: &Env, ty: &Rc<Type>) -> (r: Result<Option<Rc<TileType>>, Stop>)
    ensures
        r == compiled_if_any(*env, **ty),
{
    match compile_under(env, ty, &List::Nil) {
        Ok(Ok(ty)) => Ok(ty),
        Ok(Err(_)) => Ok(None),
        Err(stop) => Err(stop),
    }
}

/// A type with its aliases replaced; the inner error is the compiler's.
pub open spec fn normalized(env: Env, ty: Type) -> Result<Result<Rc<Type>, JitError>, Stop> {
    let question = Question::Normalize(Rc::new(ty));
    match env::answer_to(env.book, question) {
        Some(Answer::Normalized(ty)) => Ok(Ok(ty)),
        Some(Answer::NormalizeFailed(code)) => Ok(Err(JitError::Reported(code))),
        _ => Err(Stop::Unanswered(question)),
    }
}

pub fn ask_normalized(env: &Env, ty: &Rc<Type>) -> (r: Result<Result<Rc<Type>, JitError>, Stop>)
    ensures
        r == normalized(*env, **ty),
{
    let question = Question::Normalize(share(ty));
    match find_answer(&env.book, &question) {
        Some(Answer::Normalized(ty)) => Ok(Ok(share(ty))),
        Some(Answer::NormalizeFailed(code)) => Ok(Err(JitError::Reported(*code))),
        _ => Err(Stop::Unanswered(question)),
    }
}

/// The type of the marker value that a path names.
pub open spec fn marker(env: Env, path: Path) -> Result<Rc<TileType>, Stop> {
    let question = Question::Marker(path);
    match env::answer_to(env.book, question) {
        Some(Answer::Compiled(Some(ty))) => Ok(ty),
        _ => Err(Stop::Unanswered(question)),
    }
}

pub fn ask_marker(env: &Env, path: &Path) -> (r: Result<Rc<TileType>, Stop>)
    ensures
        r == marker(*env, *path),
{
    let question = Question::Marker(dup_segments(path));
    match find_answer(&env.book, &question) {
        Some(Answer::Compiled(Some(ty))) => Ok(share(ty)),
        _ => Err(Stop::Unanswered(question)),
    }
}

/// The one-element tile of a scalar.
pub open spec fn scalar_tile(env: Env, name: Symbol) -> Result<Option<Rc<TileType>>, Stop> {
    let question = Question::ScalarTile(name);
    match env::answer_to(env.book, question) {
        Some(Answer::Compiled(ty)) => Ok(ty),
        _ => Err(Stop::Unanswered(question)),
    }
}

pub fn ask_scalar_tile(env: &Env, name: Symbol) -> (r: Result<Option<Rc<TileType>>, Stop>)
    ensures
        r == scalar_tile(*env, name),
{
    let question = Question::ScalarTile(name);
    match find_answer(&env.book, &question) {
        Some(Answer::Compiled(ty)) => Ok(share_opt(ty)),
        _ => Err(Stop::Unanswered(question)),
    }
}

/// The outermost name of a type, and its generic arguments.
pub open spec fn head(
    env: Env,
    ty: Type,
) -> Result<(Option<Symbol>, Option<List<GenericArg>>), Stop> {
    let question = Question::Head(Rc::new(ty));
    match env::answer_to(env.book, question) {
        Some(Answer::Head { ident, args }) => Ok((ident, args)),
        _ => Err(Stop::Unanswered(question)),
    }
}

pub fn ask_head(
    env: &Env,
    ty: &Rc<Type>,
) -> (r: Result<(Option<Symbol>, Option<List<GenericArg>>), Stop>)
    ensures
        r == head(*env, **ty),
{
    let question = Question::Head(share(ty));
    match find_answer(&env.book, &question) {
        Some(Answer::Head { ident, args }) => Ok((*ident, dup_opt(args))),
        _ => Err(Stop::Unanswered(question)),
    }
}

/// The dimensions that a generic argument lists.
pub open spec fn dims(env: Env, arg: GenericArg) -> Result<Option<List<i32>>, Stop> {
    let question = Question::Dims(Rc::new(arg));
    match env::answer_to(env.book, question) {
        Some(Answer::Dims(dims)) => Ok(dims),
        _ => Err(Stop::Unanswered(question)),
    }
}

pub fn ask_dims(env: &Env, arg: &Rc<GenericArg>) -> (r: Result<Option<List<i32>>, Stop>)
    ensures
        r == dims(*env, **arg),
{
    let question = Question::Dims(share(arg));
    match find_answer(&env.book, &question) {
        Some(Answer::Dims(dims)) => Ok(dup_opt(dims)),
        _ => Err(Stop::Unanswered(question)),
    }
}

/// What the solver has bound the parameters to.
pub open spec fn bindings(env: Env, solver: Solver) -> Result<List<ParamBinding>, Stop> {
    let question = Question::Bindings(solver);
    match env::answer_to(env.book, question) {
        Some(Answer::Bindings(bindings)) => Ok(bindings),
        _ => Err(Stop::Unanswered(question)),
    }
}

pub fn ask_bindings(env: &Env, solver: &Solver) -> (r: Result<List<ParamBinding>, Stop>)
    ensures
        r == bindings(*env, *solver),
{
    let question = Question::Bindings(solver.dup());
    match find_answer(&env.book, &question) {
        Some(Answer::Bindings(bindings)) => Ok(bindings.dup()),
        _ => Err(Stop::Unanswered(question)),
    }
}

/// Whether the solver has bound all parameters.
pub open spec fn verified(env: Env, solver: Solver) -> Result<bool, Stop> {
    let question = Question::Verified(solver);
    match env::answer_to(env.book, question) {
        Some(Answer::Verified(all)) => Ok(all),
        _ => Err(Stop::Unanswered(question)),
    }
}

pub fn ask_verified(env: &Env, solver: &Solver) -> (r: Result<bool, Stop>)
    ensures
        r == verified(*env, *solver),
{
    let question = Question::Verified(solver.dup());
    match find_answer(&env.book, &question) {
        Some(Answer::Verified(all)) => Ok(*all),
        _ => Err(Stop::Unanswered(question)),
    }
}

/// A type with its parameters replaced by the solver.
pub open spec fn instantiated(env: Env, solver: Solver, ty: Type) -> Result<Rc<Type>, Stop> {
    let question = Question::Instantiate { solver, ty: Rc::new(ty) };
    match env::answer_to(env.book, question) {
        Some(Answer::Instantiated(ty)) => Ok(ty),
        _ => Err(Stop::Unanswered(question)),
    }
}

pub fn ask_instantiated(env: &Env, solver: &Solver, ty: &Rc<Type>) -> (r: Result<Rc<Type>, Stop>)
    ensures
        r == instantiated(*env, *solver, **ty),
{
    let question = Question::Instantiate { solver: solver.dup(), ty: share(ty) };
    match find_answer(&env.book, &question) {
        Some(Answer::Instantiated(ty)) => Ok(share(ty)),
        _ => Err(Stop::Unanswered(question)),
    }
}

/// The method that a call means.
pub open spec fn method(
    env: Env,
    receiver: Type,
    call: Expr,
    args: List<Type>,
) -> Result<Option<Rc<MethodItem>>, Stop> {
    let question = Question::Method { receiver: Rc::new(receiver), call: Rc::new(call), args };
    match env::answer_to(env.book, question) {
        Some(Answer::Method(item)) => Ok(item),
        Some(Answer::MethodFailed(code)) => Err(Stop::Failed(JitError::Reported(code))),
        _ => Err(Stop::Unanswered(question)),
    }
}

pub fn ask_method(
    env: &Env,
    receiver: &Rc<Type>,
    call: &Rc<Expr>,
    args: &List<Type>,
) -> (r: Result<Option<Rc<MethodItem>>, Stop>)
    ensures
        r == method(*env, **receiver, **call, *args),
{
    let question = Question::Method { receiver: share(receiver), call: share(call), args: args.dup() };
    match find_answer(&env.book, &question) {
        Some(Answer::Method(item)) => Ok(share_opt(item)),
        Some(Answer::MethodFailed(code)) => Err(Stop::Failed(JitError::Reported(*code))),
        _ => Err(Stop::Unanswered(question)),
    }
}

/// The generic names that a callable without parameters sees.
pub open spec fn empty_vars(env: Env, callable: u64) -> Result<Rc<GenericVars>, Stop> {
    let question = Question::EmptyVars(callable);
    match env::answer_to(env.book, question) {
        Some(Answer::Vars(vars)) => Ok(vars),
        Some(Answer::VarsFailed(code)) => Err(Stop::Failed(JitError::Reported(code))),
        _ => Err(Stop::Unanswered(question)),
    }
}

pub fn ask_empty_vars(env: &Env, callable: u64) -> (r: Result<Rc<GenericVars>, Stop>)
    ensures
        r == empty_vars(*env, callable),
{
    let question = Question::EmptyVars(callable);
    match find_answer(&env.book, &question) {
        Some(Answer::Vars(vars)) => Ok(share(vars)),
        Some(Answer::VarsFailed(code)) => Err(Stop::Failed(JitError::Reported(*code))),
        _ => Err(Stop::Unanswered(question)),
    }
}

/// The generic names that a callable sees, as the solver binds them.
pub open spec fn inferred_vars(env: Env, solver: Solver) -> Result<Rc<GenericVars>, Stop> {
    let question = Question::InferredVars(solver);
    match env::answer_to(env.book, question) {
        Some(Answer::Vars(vars)) => Ok(vars),
        Some(Answer::VarsFailed(code)) => Err(Stop::Failed(JitError::Reported(code))),
        _ => Err(Stop::Unanswered(question)),
    }
}

pub fn ask_inferred_vars(env: &Env, solver: &Solver) -> (r: Result<Rc<GenericVars>, Stop>)
    ensures
        r == inferred_vars(*env, *solver),
{
    let question = Question::InferredVars(solver.dup());
    match find_answer(&env.book, &question) {
        Some(Answer::Vars(vars)) => Ok(share(vars)),
        Some(Answer::VarsFailed(code)) => Err(Stop::Failed(JitError::Reported(*code))),
        _ => Err(Stop::Unanswered(question)),
    }
}

/// The generic names that arguments written at a call bind.
pub open spec fn passed_vars(
    env: Env,
    callable: u64,
    args: List<GenericArg>,
) -> Result<Rc<GenericVars>, Stop> {
    let question = Question::PassedVars { callable, args };
    match env::answer_to(env.book, question) {
        Some(Answer::Vars(vars)) => Ok(vars),
        Some(Answer::VarsFailed(code)) => Err(Stop::Failed(JitError::Reported(code))),
        _ => Err(Stop::Unanswered(question)),
    }
}

pub fn ask_passed_vars(
    env: &Env,
    callable: u64,
    args: &List<GenericArg>,
) -> (r: Result<Rc<GenericVars>, Stop>)
    ensures
        r == passed_vars(*env, callable, *args),
{
    let question = Question::PassedVars { callable, args: args.dup() };
    match find_answer(&env.book, &question) {
        Some(Answer::Vars(vars)) => Ok(share(vars)),
        Some(Answer::VarsFailed(code)) => Err(Stop::Failed(JitError::Reported(*code))),
        _ => Err(Stop::Unanswered(question)),
    }
}

/// The generic names with those that a call binds added.
pub open spec fn merged_vars(
    env: Env,
    inferred: Rc<GenericVars>,
    passed: Rc<GenericVars>,
) -> Result<Rc<GenericVars>, Stop> {
    let question = Question::MergedVars { inferred, passed };
    match env::answer_to(env.book, question) {
        Some(Answer::Vars(vars)) => Ok(vars),
        Some(Answer::VarsFailed(code)) => Err(Stop::Failed(JitError::Reported(code))),
        _ => Err(Stop::Unanswered(question)),
    }
}

pub fn ask_merged_vars(
    env: &Env,
    inferred: &Rc<GenericVars>,
    passed: &Rc<GenericVars>,
) -> (r: Result<Rc<GenericVars>, Stop>)
    ensures
        r == merged_vars(*env, *inferred, *passed),
{
    let question = Question::MergedVars { inferred: share(inferred), passed: share(passed) };
    match find_answer(&env.book, &question) {
        Some(Answer::Vars(vars)) => Ok(share(vars)),
        Some(Answer::VarsFailed(code)) => Err(Stop::Failed(JitError::Reported(*code))),
        _ => Err(Stop::Unanswered(question)),
    }
}

/// The method call that a call of a wrapper function stands for.
pub open spec fn unwrapped(env: Env, function: u64, call: Expr) -> Result<Option<Rc<Expr>>, Stop> {
    let question = Question::Unwrapped { function, call: Rc::new(call) };
    match env::answer_to(env.book, question) {
        Some(Answer::Unwrapped(call)) => Ok(call),
        _ => Err(Stop::Unanswered(question)),
    }
}

pub fn ask_unwrapped(
    env: &Env,
    function: u64,
    call: &Rc<Expr>,
) -> (r: Result<Option<Rc<Expr>>, Stop>)
    ensures
        r == unwrapped(*env, function, **call),
{
    let question = Question::Unwrapped { function, call: share(call) };
    match find_answer(&env.book, &question) {
        Some(Answer::Unwrapped(call)) => Ok(share_opt(call)),
        _ => Err(Stop::Unanswered(question)),
    }
}

/// The name of the marker type that an expression names.
pub open spec fn marker_name(env: Env, expr: Expr) -> Result<Option<Symbol>, Stop> {
    let question = Question::MarkerName(Rc::new(expr));
    match env::answer_to(env.book, question) {
        Some(Answer::Name(name)) => Ok(name),
        _ => Err(Stop::Unanswered(question)),
    }
}

pub fn ask_marker_name(env: &Env, expr: &Rc<Expr>) -> (r: Result<Option<Symbol>, Stop>)
    ensures
        r == marker_name(*env, **expr),
{
    let question = Question::MarkerName(share(expr));
    match find_answer(&env.book, &question) {
        Some(Answer::Name(name)) => Ok(*name),
        _ => Err(Stop::Unanswered(question)),
    }
}

/// The padding that an expression names.
pub open spec fn padding_name(env: Env, expr: Expr) -> Result<Option<Symbol>, Stop> {
    let question = Question::PaddingName(Rc::new(expr));
    match env::answer_to(env.book, question) {
        Some(Answer::Name(name)) => Ok(name),
        _ => Err(Stop::Unanswered(question)),
    }
}

pub fn ask_padding_name(env: &Env, expr: &Rc<Expr>) -> (r: Result<Option<Symbol>, Stop>)
    ensures
        r == padding_name(*env, **expr),
{
    let question = Question::PaddingName(share(expr));
    match find_answer(&env.book, &question) {
        Some(Answer::Name(name)) => Ok(*name),
        _ => Err(Stop::Unanswered(question)),
    }
}

/// The parameters that shape the type of an operation's result.
pub open spec fn output_params(env: Env, operation: Symbol) -> Result<Option<List<Symbol>>, Stop> {
    let question = Question::OutputParams(operation);
    match env::answer_to(env.book, question) {
        Some(Answer::OutputParams(params)) => Ok(params),
        _ => Err(Stop::Unanswered(question)),
    }
}

pub fn ask_output_params(env: &Env, operation: Symbol) -> (r: Result<Option<List<Symbol>>, Stop>)
    ensures
        r == output_params(*env, operation),
{
    let question = Question::OutputParams(operation);
    match find_answer(&env.book, &question) {
        Some(Answer::OutputParams(params)) => Ok(dup_opt(params)),
        _ => Err(Stop::Unanswered(question)),
    }
}

/// The type parameter that an argument makes.
pub open spec fn derived_param(
    env: Env,
    name: Symbol,
    ty: Rc<TileType>,
) -> Result<Rc<TypeParam>, Stop> {
    let question = Question::DerivedParam { name, ty };
    match env::answer_to(env.book, question) {
        Some(Answer::Param(param)) => Ok(param),
        _ => Err(Stop::Unanswered(question)),
    }
}

pub fn ask_derived_param(
    env: &Env,
    name: Symbol,
    ty: &Rc<TileType>,
) -> (r: Result<Rc<TypeParam>, Stop>)
    ensures
        r == derived_param(*env, name, *ty),
{
    let question = Question::DerivedParam { name, ty: share(ty) };
    match find_answer(&env.book, &question) {
        Some(Answer::Param(param)) => Ok(share(param)),
        _ => Err(Stop::Unanswered(question)),
    }
}

/// What a path resolves to.
pub open spec fn resolution(env: Env, path: Path) -> Result<Resolution, Stop> {
    let question = Question::Resolve(path);
    match env::answer_to(env.book, question) {
        Some(Answer::Resolved(target)) => Ok(target),
        _ => Err(Stop::Unanswered(question)),
    }
}

pub fn ask_resolution(env: &Env, path: &Path) -> (r: Result<Resolution, Stop>)
    ensures
        r == resolution(*env, *path),
{
    let question = Question::Resolve(dup_segments(path));
    match find_answer(&env.book, &question) {
        Some(Answer::Resolved(target)) => Ok(target.dup()),
        _ => Err(Stop::Unanswered(question)),
    }
}

} // verus!
