//! The work that is handed to the backend, one request after the other.
//!
//! A step of code generation that needs the backend asks it for one thing at a time. It is written as
//! one function that reads the replies so far from a tape; when the tape is at its end, the function
//! stops and names the next request. Whoever drives it has the request carried out, puts the reply at
//! the end of the tape and starts the function again.
use crate::codegen::value::{Bounds, Context, Value};
use crate::env::{
    Answer, GenericVars, JitError, MethodItem, NamedParam, Question, Solver, TileType,
};
use crate::list::{share, share_opt, List};
use crate::results::{ResultsView, TypeckResults};
use crate::specialization::{DivHint, SpecializationBits};
use crate::syntax::{Block, Expr, FnItem, GenericArg, ImplItem, Symbol, Type};
use std::rc::Rc;
use vstd::prelude::*;

verus! {

/// A scalar of the backend.
#[derive(Clone, Copy, PartialEq, Eq, Structural, Debug)]
pub enum ScalarType {
    I1,
    I4,
    I8,
    I16,
    I32,
    I64,
    F16,
    BF16,
    F32,
    F64,
    F8E4M3FN,
    F8E5M2,
    F8E8M0FNU,
    F4E2M1FN,
    /// Any other scalar.
    Other(u64),
}

/// A name bound to an `i32`.
pub struct IntConst {
    pub name: Symbol,
    pub value: i32,
}

/// A name bound to a `bool`.
pub struct BoolConst {
    pub name: Symbol,
    pub value: bool,
}

/// A name bound to an array.
pub struct ArrayConst {
    pub name: Symbol,
    pub dims: List<i32>,
}

/// The constants among generic names, each kind in the order of the names.
pub struct Constants {
    pub ints: List<IntConst>,
    pub bools: List<BoolConst>,
    pub arrays: List<ArrayConst>,
}

/// A name and its type.
pub struct TypedName {
    pub name: Symbol,
    pub ty: Rc<TileType>,
}

/// The strides of a parameter.
pub struct StrideArg {
    pub name: Symbol,
    pub strides: List<i32>,
}

/// What is known of a tensor parameter.
pub struct SpecArg {
    pub name: Symbol,
    pub bits: Rc<SpecializationBits>,
}

/// By what a scalar parameter divides.
#[derive(Clone, Copy, Debug)]
pub struct ScalarHint {
    pub name: Symbol,
    pub hint: DivHint,
}

/// The options of one compilation, which come before what a kernel says itself.
#[derive(Clone, Copy, PartialEq, Eq, Structural, Debug)]
pub struct CompileOptions {
    /// The largest divisor that is to be relied on.
    pub max_divisibility: Option<i32>,
    /// The other options.
    pub handle: u64,
}

/// What hints say of one device.
pub struct TargetHints {
    pub name: Symbol,
    /// The largest divisor that is to be relied on.
    pub max_divisibility: Option<i32>,
}

/// Hints for optimization, device by device, and the device that is compiled for.
pub struct Hints {
    pub handle: u64,
    pub target: Option<Symbol>,
    pub targets: List<TargetHints>,
}

/// One thing that the backend is asked for. Types that were found are handed on as `R`.
#[allow(inconsistent_fields)]
pub enum Request<R = Rc<TypeckResults>> {
    /// The function with the aliases in its parameter types replaced.
    NormalizeParams(Rc<FnItem>),
    /// The value of an expression.
    CompileExpr {
        expr: Rc<Expr>,
        generics: Rc<GenericVars>,
        scope: Rc<Context>,
        expected: Option<Rc<TileType>>,
    },
    /// The compiled form of a type.
    CompileType { ty: Rc<Type>, generics: Rc<GenericVars>, params: List<NamedParam> },
    /// The compiled form of a parameter's type, with its strides where they are known.
    CompileParam { ty: Rc<Type>, generics: Rc<GenericVars>, strides: Option<Rc<Type>> },
    /// The value of a block, whose types are known.
    CompileBlock {
        body: Rc<Block>,
        generics: Rc<GenericVars>,
        scope: Rc<Context>,
        expected: Option<Rc<TileType>>,
        results: R,
    },
    /// The scalar that the elements of a type are.
    ScalarOf(Rc<TileType>),
    /// The bytes of an integer as a floating-point number.
    FloatBytes { scalar: ScalarType, value: i64 },
    /// A constant of a scalar, with its bytes.
    EmitConstant { scalar: ScalarType, data: List<u8>, ty: Rc<TileType> },
    /// The method that a call means.
    FindMethod {
        receiver: Rc<Type>,
        call: Rc<Expr>,
        generics: Rc<GenericVars>,
        args: List<Type>,
    },
    /// The generic names of a callable without generic parameters.
    EmptyGenerics(u64),
    /// The generic names that the arguments written at a call bind.
    PassedGenerics { callable: u64, args: List<GenericArg>, outer: Rc<GenericVars> },
    /// The generic names as a solver binds them.
    InferredGenerics { solver: Solver, outer: Rc<GenericVars> },
    /// The generic names of a method, with those that its call passes.
    MethodGenerics {
        impl_item: Rc<ImplItem>,
        method: Rc<FnItem>,
        call: Rc<Expr>,
        args: List<Type>,
        outer: Rc<GenericVars>,
    },
    /// The constants among generic names.
    Constants(Rc<GenericVars>),
    /// The function with its expressions numbered; where `at_call` is set, as if it were all
    /// written where it is called.
    Number { item: Rc<FnItem>, at_call: bool },
    /// The answer to what inference asks, where generic names are bound so.
    Answer { question: Question, generics: Rc<GenericVars> },
    /// The function with its calls replaced by what they were found to mean.
    Lower { item: Rc<FnItem>, results: R },
    /// What is proved of a kernel by the attributes at it.
    AnalyzeEntry(Rc<FnItem>),
    /// Hints for optimization: those that an attribute lists, or none but the name of the device,
    /// with the options of this compilation over them.
    Hints { listed: Option<u64>, gpu_name: Symbol, options: CompileOptions },
    /// The generic names of a kernel from its arguments in one list.
    FlatGenerics { callable: u64, args: List<Symbol> },
    /// The entry point around a kernel; of two arguments under one name the last counts.
    GenerateEntry {
        item: Rc<FnItem>,
        generics: Rc<GenericVars>,
        strides: List<StrideArg>,
        spec_args: List<SpecArg>,
        scalar_hints: List<ScalarHint>,
        hints: Rc<Hints>,
    },
    /// The entry point of a kernel, printed.
    PrintEntry { module: Symbol, function: Symbol, entry: Rc<FnItem> },
    /// A new module.
    NewModule(Symbol),
    /// All statics of the program in a module.
    EmitGlobals(u64),
    /// A block in a module with one argument of each type.
    OpenEntry { module: u64, params: List<TileType> },
    /// The entry operation around the block.
    CloseEntry { name: Symbol, params: List<TileType>, hints: Rc<Hints> },
    /// An entry operation as the next function of a module.
    PushEntry { module: u64, entry: u64 },
}

/// A request, with the types that were found as what they are.
pub open spec fn asked(request: Request) -> Request<ResultsView> {
    match request {
        Request::NormalizeParams(item) => Request::NormalizeParams(item),
        Request::CompileExpr { expr, generics, scope, expected } => Request::CompileExpr {
            expr,
            generics,
            scope,
            expected,
        },
        Request::CompileType { ty, generics, params } => Request::CompileType {
            ty,
            generics,
            params,
        },
        Request::CompileParam { ty, generics, strides } => Request::CompileParam {
            ty,
            generics,
            strides,
        },
        Request::CompileBlock { body, generics, scope, expected, results } => Request::CompileBlock {
            body,
            generics,
            scope,
            expected,
            results: results@,
        },
        Request::ScalarOf(ty) => Request::ScalarOf(ty),
        Request::FloatBytes { scalar, value } => Request::FloatBytes { scalar, value },
        Request::EmitConstant { scalar, data, ty } => Request::EmitConstant { scalar, data, ty },
        Request::FindMethod { receiver, call, generics, args } => Request::FindMethod {
            receiver,
            call,
            generics,
            args,
        },
        Request::EmptyGenerics(callable) => Request::EmptyGenerics(callable),
        Request::PassedGenerics { callable, args, outer } => Request::PassedGenerics {
            callable,
            args,
            outer,
        },
        Request::InferredGenerics { solver, outer } => Request::InferredGenerics { solver, outer },
        Request::MethodGenerics { impl_item, method, call, args, outer } => Request::MethodGenerics {
            impl_item,
            method,
            call,
            args,
            outer,
        },
        Request::Constants(vars) => Request::Constants(vars),
        Request::Number { item, at_call } => Request::Number { item, at_call },
        Request::Answer { question, generics } => Request::Answer { question, generics },
        Request::Lower { item, results } => Request::Lower { item, results: results@ },
        Request::AnalyzeEntry(item) => Request::AnalyzeEntry(item),
        Request::Hints { listed, gpu_name, options } => Request::Hints {
            listed,
            gpu_name,
            options,
        },
        Request::FlatGenerics { callable, args } => Request::FlatGenerics { callable, args },
        Request::GenerateEntry { item, generics, strides, spec_args, scalar_hints, hints } => {
            Request::GenerateEntry { item, generics, strides, spec_args, scalar_hints, hints }
        },
        Request::PrintEntry { module, function, entry } => Request::PrintEntry {
            module,
            function,
            entry,
        },
        Request::NewModule(name) => Request::NewModule(name),
        Request::EmitGlobals(module) => Request::EmitGlobals(module),
        Request::OpenEntry { module, params } => Request::OpenEntry { module, params },
        Request::CloseEntry { name, params, hints } => Request::CloseEntry { name, params, hints },
        Request::PushEntry { module, entry } => Request::PushEntry { module, entry },
    }
}

/// What the backend gives back.
pub enum Reply {
    Item(Rc<FnItem>),
    /// A value, and the names in scope after it.
    Compiled { value: Option<Rc<Value>>, scope: Rc<Context> },
    CompiledType(Option<Rc<TileType>>),
    Scalar(Option<ScalarType>),
    Bytes(List<u8>),
    /// What the backend calls a new value.
    Emitted(u64),
    Method(Option<Rc<MethodItem>>),
    Vars(Rc<GenericVars>),
    Constants(Rc<Constants>),
    Answer(Rc<Answer>),
    /// What the backend calls the arguments of a block.
    Arguments(List<u64>),
    Hints(Rc<Hints>),
    /// An entry point, and what checks its arguments.
    Entry { item: Rc<FnItem>, validator: u64 },
    Done,
    /// An error that the backend reported.
    Failed(u64),
}

/// Where an error is reported.
#[derive(Clone, Copy, PartialEq, Eq, Structural, Debug)]
pub enum Place {
    /// At an argument of the call, by its position.
    Argument(usize),
    /// At the name of what is called.
    Callee,
    /// At a parameter, by its position.
    Param(usize),
    /// At the body of the function.
    Body,
    /// At a type.
    OfType,
    Nowhere,
}

/// What a constant is.
#[derive(Clone, Copy, PartialEq, Eq, Structural, Debug)]
pub enum ConstKind {
    Number,
    Bool,
    Array,
}

/// An error of code generation.
#[derive(PartialEq, Eq, Debug)]
pub enum CompileError {
    /// A `Some` that is passed to an inlined function holds nothing.
    MissingPayload(Place),
    /// What a `Some` holds does not compile.
    UncompiledPayload(Place),
    /// An argument does not compile.
    UncompiledArgument(Place),
    /// The receiver has no such method.
    MethodNotFound(Place),
    /// No type was found for what a call gives.
    NoReturnType(Place),
    /// The type of a parameter does not compile.
    UncompiledParam(Place),
    /// The type of a constant does not compile.
    UncompiledConstType { place: Place, kind: ConstKind },
    /// An array of constants does not compile.
    UncompiledArray(Place),
    /// The body of a kernel gives a value.
    ReturnsValue(Place),
    /// The value is not known when the kernel is compiled.
    NotConstant { place: Place, bounds: Bounds },
    /// A constant is of no scalar type.
    NotScalar(Place),
    UndefinedModule,
    UndefinedFunction,
    /// The kernel has no `entry` attribute.
    MissingEntryAttribute,
    /// Accesses are to go unchecked in a kernel that is not `unsafe`.
    NotUnsafe,
    /// There is a function of the name that the entry point gets.
    NameCollision,
    /// A call passes fewer arguments than the callee takes.
    TooFewArguments(Place),
    /// The types in a body are not found.
    Untyped(JitError),
    /// A body is nested too deep.
    TooDeep,
    /// An error that the backend reported.
    Reported(u64),
}

/// Why code generation stopped before its end.
pub enum Halt<R = Rc<TypeckResults>> {
    /// The backend is asked for something.
    Perform(Request<R>),
    Failed(CompileError),
    /// A reply does not answer its request.
    OutOfStep,
}

/// What is left of a tape after a step, and what the step gives; or why it stopped.
pub type Run<T> = Result<(List<Reply>, T), Halt<ResultsView>>;

/// Why code generation stopped, with the types that were found as what they are.
pub open spec fn halted(halt: Halt) -> Halt<ResultsView> {
    match halt {
        Halt::Perform(request) => Halt::Perform(asked(request)),
        Halt::Failed(error) => Halt::Failed(error),
        Halt::OutOfStep => Halt::OutOfStep,
    }
}

/// Whether what a function returned, and what it left of the tape, is what it should be.
pub open spec fn follows<T>(r: Result<T, Halt>, left: List<Reply>, expected: Run<T>) -> bool {
    match expected {
        Ok((rest, value)) => r == Ok::<T, Halt>(value) && left == rest,
        Err(halt) => r matches Err(stopped) && halted(stopped) == halt,
    }
}

/// The reply to a request: the next one on the tape.
pub open spec fn performed(tape: List<Reply>, request: Request<ResultsView>) -> Run<Reply> {
    match tape {
        List::Nil => Err(Halt::Perform(request)),
        List::Cons(reply, rest) => match *reply {
            Reply::Failed(error) => Err(Halt::Failed(CompileError::Reported(error))),
            _ => Ok((*rest, *reply)),
        },
    }
}

/// The replies so far.
pub struct Tape {
    pub left: List<Reply>,
}

impl Reply {
    pub fn dup(&self) -> (r: Reply)
        ensures
            r == *self,
    {
        match self {
            Reply::Item(item) => Reply::Item(share(item)),
            Reply::Compiled { value, scope } => Reply::Compiled {
                value: share_opt(value),
                scope: share(scope),
            },
            Reply::CompiledType(ty) => Reply::CompiledType(share_opt(ty)),
            Reply::Scalar(scalar) => Reply::Scalar(*scalar),
            Reply::Bytes(bytes) => Reply::Bytes(bytes.dup()),
            Reply::Emitted(handle) => Reply::Emitted(*handle),
            Reply::Method(method) => Reply::Method(share_opt(method)),
            Reply::Vars(vars) => Reply::Vars(share(vars)),
            Reply::Constants(constants) => Reply::Constants(share(constants)),
            Reply::Answer(answer) => Reply::Answer(share(answer)),
            Reply::Arguments(handles) => Reply::Arguments(handles.dup()),
            Reply::Hints(hints) => Reply::Hints(share(hints)),
            Reply::Entry { item, validator } => Reply::Entry {
                item: share(item),
                validator: *validator,
            },
            Reply::Done => Reply::Done,
            Reply::Failed(error) => Reply::Failed(*error),
        }
    }
}

impl Tape {
    pub fn perform(&mut self, request: Request) -> (r: Result<Reply, Halt>)
        ensures
            follows(r, final(self).left, performed(old(self).left, asked(request))),
    {
        let (reply, rest) = match &self.left {
            List::Nil => return Err(Halt::Perform(request)),
            List::Cons(reply, rest) => (reply.dup(), rest.dup()),
        };
        if let Reply::Failed(error) = reply {
            return Err(Halt::Failed(CompileError::Reported(error)));
        }
        self.left = rest;
        Ok(reply)
    }
}

/// The reply to a request for a function.
pub open spec fn item_reply(tape: List<Reply>, request: Request<ResultsView>) -> Run<Rc<FnItem>> {
    match performed(tape, request) {
        Err(halt) => Err(halt),
        Ok((tape, Reply::Item(item))) => Ok((tape, item)),
        Ok(_) => Err(Halt::OutOfStep),
    }
}

/// The reply to a request for a value.
pub open spec fn value_reply(
    tape: List<Reply>,
    request: Request<ResultsView>,
) -> Run<(Option<Rc<Value>>, Rc<Context>)> {
    match performed(tape, request) {
        Err(halt) => Err(halt),
        Ok((tape, Reply::Compiled { value, scope })) => Ok((tape, (value, scope))),
        Ok(_) => Err(Halt::OutOfStep),
    }
}

/// The reply to a request for a compiled type.
pub open spec fn type_reply(tape: List<Reply>, request: Request<ResultsView>) -> Run<Option<Rc<TileType>>> {
    match performed(tape, request) {
        Err(halt) => Err(halt),
        Ok((tape, Reply::CompiledType(ty))) => Ok((tape, ty)),
        Ok(_) => Err(Halt::OutOfStep),
    }
}

/// The reply to a request for a scalar.
pub open spec fn scalar_reply(tape: List<Reply>, request: Request<ResultsView>) -> Run<Option<ScalarType>> {
    match performed(tape, request) {
        Err(halt) => Err(halt),
        Ok((tape, Reply::Scalar(scalar))) => Ok((tape, scalar)),
        Ok(_) => Err(Halt::OutOfStep),
    }
}

/// The reply to a request for bytes.
pub open spec fn bytes_reply(tape: List<Reply>, request: Request<ResultsView>) -> Run<List<u8>> {
    match performed(tape, request) {
        Err(halt) => Err(halt),
        Ok((tape, Reply::Bytes(bytes))) => Ok((tape, bytes)),
        Ok(_) => Err(Halt::OutOfStep),
    }
}

/// The reply to a request for a new value.
pub open spec fn emitted_reply(tape: List<Reply>, request: Request<ResultsView>) -> Run<u64> {
    match performed(tape, request) {
        Err(halt) => Err(halt),
        Ok((tape, Reply::Emitted(handle))) => Ok((tape, handle)),
        Ok(_) => Err(Halt::OutOfStep),
    }
}

/// The reply to a request for a method.
pub open spec fn method_reply(tape: List<Reply>, request: Request<ResultsView>) -> Run<Option<Rc<MethodItem>>> {
    match performed(tape, request) {
        Err(halt) => Err(halt),
        Ok((tape, Reply::Method(method))) => Ok((tape, method)),
        Ok(_) => Err(Halt::OutOfStep),
    }
}

/// The reply to a request for generic names.
pub open spec fn vars_reply(tape: List<Reply>, request: Request<ResultsView>) -> Run<Rc<GenericVars>> {
    match performed(tape, request) {
        Err(halt) => Err(halt),
        Ok((tape, Reply::Vars(vars))) => Ok((tape, vars)),
        Ok(_) => Err(Halt::OutOfStep),
    }
}

/// The reply to a request for constants.
pub open spec fn constants_reply(tape: List<Reply>, request: Request<ResultsView>) -> Run<Rc<Constants>> {
    match performed(tape, request) {
        Err(halt) => Err(halt),
        Ok((tape, Reply::Constants(constants))) => Ok((tape, constants)),
        Ok(_) => Err(Halt::OutOfStep),
    }
}

/// The reply to a request that gives nothing.
pub open spec fn done_reply(tape: List<Reply>, request: Request<ResultsView>) -> Run<()> {
    match performed(tape, request) {
        Err(halt) => Err(halt),
        Ok((tape, Reply::Done)) => Ok((tape, ())),
        Ok(_) => Err(Halt::OutOfStep),
    }
}

/// The reply to a request for the arguments of a block.
pub open spec fn arguments_reply(tape: List<Reply>, request: Request<ResultsView>) -> Run<List<u64>> {
    match performed(tape, request) {
        Err(halt) => Err(halt),
        Ok((tape, Reply::Arguments(handles))) => Ok((tape, handles)),
        Ok(_) => Err(Halt::OutOfStep),
    }
}

/// The reply to a request for hints.
pub open spec fn hints_reply(tape: List<Reply>, request: Request<ResultsView>) -> Run<Rc<Hints>> {
    match performed(tape, request) {
        Err(halt) => Err(halt),
        Ok((tape, Reply::Hints(hints))) => Ok((tape, hints)),
        Ok(_) => Err(Halt::OutOfStep),
    }
}

/// The reply to a request for an entry point.
pub open spec fn entry_reply(tape: List<Reply>, request: Request<ResultsView>) -> Run<(Rc<FnItem>, u64)> {
    match performed(tape, request) {
        Err(halt) => Err(halt),
        Ok((tape, Reply::Entry { item, validator })) => Ok((tape, (item, validator))),
        Ok(_) => Err(Halt::OutOfStep),
    }
}

impl Tape {
    pub fn ask_item(&mut self, request: Request) -> (r: Result<Rc<FnItem>, Halt>)
        ensures
            follows(r, final(self).left, item_reply(old(self).left, asked(request))),
    {
        match self.perform(request)? {
            Reply::Item(item) => Ok(item),
            _ => Err(Halt::OutOfStep),
        }
    }

    pub fn ask_value(
        &mut self,
        request: Request,
    ) -> (r: Result<(Option<Rc<Value>>, Rc<Context>), Halt>)
        ensures
            follows(r, final(self).left, value_reply(old(self).left, asked(request))),
    {
        match self.perform(request)? {
            Reply::Compiled { value, scope } => Ok((value, scope)),
            _ => Err(Halt::OutOfStep),
        }
    }

    pub fn ask_type(&mut self, request: Request) -> (r: Result<Option<Rc<TileType>>, Halt>)
        ensures
            follows(r, final(self).left, type_reply(old(self).left, asked(request))),
    {
        match self.perform(request)? {
            Reply::CompiledType(ty) => Ok(ty),
            _ => Err(Halt::OutOfStep),
        }
    }

    pub fn ask_scalar(&mut self, request: Request) -> (r: Result<Option<ScalarType>, Halt>)
        ensures
            follows(r, final(self).left, scalar_reply(old(self).left, asked(request))),
    {
        match self.perform(request)? {
            Reply::Scalar(scalar) => Ok(scalar),
            _ => Err(Halt::OutOfStep),
        }
    }

    pub fn ask_bytes(&mut self, request: Request) -> (r: Result<List<u8>, Halt>)
        ensures
            follows(r, final(self).left, bytes_reply(old(self).left, asked(request))),
    {
        match self.perform(request)? {
            Reply::Bytes(bytes) => Ok(bytes),
            _ => Err(Halt::OutOfStep),
        }
    }

    pub fn ask_emitted(&mut self, request: Request) -> (r: Result<u64, Halt>)
        ensures
            follows(r, final(self).left, emitted_reply(old(self).left, asked(request))),
    {
        match self.perform(request)? {
            Reply::Emitted(handle) => Ok(handle),
            _ => Err(Halt::OutOfStep),
        }
    }

    pub fn ask_method(&mut self, request: Request) -> (r: Result<Option<Rc<MethodItem>>, Halt>)
        ensures
            follows(r, final(self).left, method_reply(old(self).left, asked(request))),
    {
        match self.perform(request)? {
            Reply::Method(method) => Ok(method),
            _ => Err(Halt::OutOfStep),
        }
    }

    pub fn ask_vars(&mut self, request: Request) -> (r: Result<Rc<GenericVars>, Halt>)
        ensures
            follows(r, final(self).left, vars_reply(old(self).left, asked(request))),
    {
        match self.perform(request)? {
            Reply::Vars(vars) => Ok(vars),
            _ => Err(Halt::OutOfStep),
        }
    }

    pub fn ask_constants(&mut self, request: Request) -> (r: Result<Rc<Constants>, Halt>)
        ensures
            follows(r, final(self).left, constants_reply(old(self).left, asked(request))),
    {
        match self.perform(request)? {
            Reply::Constants(constants) => Ok(constants),
            _ => Err(Halt::OutOfStep),
        }
    }

    pub fn ask_done(&mut self, request: Request) -> (r: Result<(), Halt>)
        ensures
            follows(r, final(self).left, done_reply(old(self).left, asked(request))),
    {
        match self.perform(request)? {
            Reply::Done => Ok(()),
            _ => Err(Halt::OutOfStep),
        }
    }

    pub fn ask_arguments(&mut self, request: Request) -> (r: Result<List<u64>, Halt>)
        ensures
            follows(r, final(self).left, arguments_reply(old(self).left, asked(request))),
    {
        match self.perform(request)? {
            Reply::Arguments(handles) => Ok(handles),
            _ => Err(Halt::OutOfStep),
        }
    }

    pub fn ask_hints(&mut self, request: Request) -> (r: Result<Rc<Hints>, Halt>)
        ensures
            follows(r, final(self).left, hints_reply(old(self).left, asked(request))),
    {
        match self.perform(request)? {
            Reply::Hints(hints) => Ok(hints),
            _ => Err(Halt::OutOfStep),
        }
    }

    pub fn ask_entry(&mut self, request: Request) -> (r: Result<(Rc<FnItem>, u64), Halt>)
        ensures
            follows(r, final(self).left, entry_reply(old(self).left, asked(request))),
    {
        match self.perform(request)? {
            Reply::Entry { item, validator } => Ok((item, validator)),
            _ => Err(Halt::OutOfStep),
        }
    }
}

} // verus!
