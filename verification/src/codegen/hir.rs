//! The intermediate representation the code generator analyses.
//!
//! Expressions keep as fields what some analysis reads. An operation of which
//! the analyses read nothing but its operands is an [`Expr::Node`]: an [`Op`]
//! and its operands in evaluation order, an optional operand standing in the
//! list only where it is present.
use vstd::prelude::*;

verus! {

broadcast use vstd::std_specs::vec::group_vec_axioms;

/// A local variable of a function.
pub type LocalId = u32;

/// A function or closure body.
pub type FuncId = u32;

#[derive(Debug, Clone, Copy, PartialEq, Eq, Structural)]
pub enum BinaryOp {
    Add,
    Sub,
    Mul,
    Div,
    Mod,
    Pow,
    BitAnd,
    BitOr,
    BitXor,
    Shl,
    Shr,
    UShr,
}

#[derive(Debug, Clone, Copy, PartialEq, Eq, Structural)]
pub enum CompareOp {
    Eq,
    Ne,
    LooseEq,
    LooseNe,
    Lt,
    Le,
    Gt,
    Ge,
}

/// Operations that read at an index.
#[derive(Debug, Clone, Copy, PartialEq, Eq, Structural)]
pub enum IndexReadOp {
    BufferIndexGet,
    Uint8ArrayGet,
    ArrayAt,
    StringAt,
    StringCodePointAt,
}

/// Operations that store, or copy with a new value, at an index.
#[derive(Debug, Clone, Copy, PartialEq, Eq, Structural)]
pub enum IndexWriteOp {
    BufferIndexSet,
    Uint8ArraySet,
    ArrayWith,
}

/// Operations whose receiver is a local named by its id.
#[derive(Debug, Clone, Copy, PartialEq, Eq, Structural)]
pub enum LocalOp {
    ArrayPush,
    ArrayPop,
    ArrayShift,
    ArraySplice,
    ArrayUnshift,
    ArrayPushSpread,
    ArrayCopyWithin,
    SetAdd,
}

/// Operations of which the analyses read the operands only.
#[derive(Debug, Clone, Copy, PartialEq, Eq, Structural)]
pub enum Op {
    // Plain expression structure, looked into by every analysis.
    Await,
    BooleanCoerce,
    Conditional,
    Delete,
    Logical,
    NumberCoerce,
    Sequence,
    StringCoerce,
    TypeOf,
    Unary,
    Void,
    // An array literal with spread elements.
    ArraySpread,
    // An object literal with spread parts.
    ObjectSpread,
    // A literal or a reference to something that is not a local.
    Bool,
    ClassRef,
    ExternFuncRef,
    GlobalGet,
    Null,
    Undefined,
    // A big-integer literal.
    BigInt,
    // A read of a static member.
    EnumMember,
    StaticFieldGet,
    // A regular-expression literal.
    RegExp,
    // The current time.
    DateNow,
    // Construction of an empty map or set.
    MapNew,
    SetNew,
    // A numeric test or coercion of one operand.
    IsFinite,
    IsNaN,
    IsUndefinedOrBareNan,
    NumberIsFinite,
    NumberIsNaN,
    ParseFloat,
    // `Number.isInteger`.
    NumberIsInteger,
    // `Math.imul`.
    MathImul,
    // `in` and `instanceof`.
    In,
    InstanceOf,
    // `new` on a computed callee, and `yield`.
    NewDynamic,
    Yield,
    // A library operation whose operands the instance-escape analysis follows.
    ArrayFilter,
    ArrayFind,
    ArrayFindIndex,
    ArrayFindLast,
    ArrayFindLastIndex,
    ArrayFlatMap,
    ArrayForEach,
    ArrayFrom,
    ArrayFromMapped,
    ArrayIncludes,
    ArrayJoin,
    ArrayMap,
    ArrayReduce,
    ArrayReduceRight,
    ArraySlice,
    ArraySort,
    ErrorNew,
    FinalizationRegistryNew,
    FinalizationRegistryRegister,
    FinalizationRegistryUnregister,
    FsWriteFileSync,
    IteratorToArray,
    JsonParse,
    JsonParseReviver,
    JsonParseTyped,
    JsonParseWithReviver,
    JsonStringifyFull,
    MapDelete,
    MapGet,
    MapHas,
    MapSet,
    MathAbs,
    MathCeil,
    MathFloor,
    MathMax,
    MathMaxSpread,
    MathMin,
    MathMinSpread,
    MathPow,
    MathRound,
    MathSqrt,
    ObjectEntries,
    ObjectGroupBy,
    ObjectKeys,
    ObjectRest,
    ObjectValues,
    ParseInt,
    PathJoin,
    ProcessNextTick,
    QueueMicrotask,
    RegExpExec,
    RegExpTest,
    SetDelete,
    SetHas,
    SetNewFromArray,
    SetSize,
    StaticFieldSet,
    StaticMethodCall,
    StructuredClone,
    SuperCall,
    SuperMethodCall,
    TypedArrayNew,
    Uint8ArrayFrom,
    WeakRefDeref,
    WeakRefNew,
    // An array scan or copy.
    ArrayEntries,
    ArrayEvery,
    ArrayFlat,
    ArrayIndexOf,
    ArrayKeys,
    ArraySome,
    ArrayToReversed,
    ArrayToSorted,
    ArrayToSpliced,
    ArrayValues,
    // A file-system probe.
    FsExistsSync,
    FsReadFileBinary,
    FsUnlinkSync,
    // A comparison or path operation on a pair of operands.
    ObjectHasOwn,
    ObjectIs,
    PathBasenameExt,
    PathRelative,
    // Construction of a byte array, with or without an initial value.
    Uint8ArrayNew,
    // An operation on dates, paths, buffers and the like.
    BufferAlloc,
    BufferFrom,
    DateNew,
    DateParse,
    DateToISOString,
    EnvGetDynamic,
    ErrorNewWithCause,
    FsMkdirSync,
    FsReadFileSync,
    MapClear,
    MathClz32,
    MathLog,
    MathLog10,
    MathLog1p,
    MathLog2,
    ObjectCreate,
    ObjectFromEntries,
    ObjectIsExtensible,
    ObjectIsFrozen,
    ObjectIsSealed,
    PathBasename,
    PathDirname,
    PathExtname,
    PathFormat,
    PathNormalize,
    PathParse,
    PathResolve,
    SetClear,
    StringMatch,
    Uint8ArrayLength,
    // An operation that hands its operands to a process, a fetch or an encoder.
    ArrayIsArray,
    Atob,
    Btoa,
    ChildProcessExec,
    ChildProcessExecSync,
    ChildProcessGetProcessStatus,
    ChildProcessKillProcess,
    ChildProcessSpawn,
    ChildProcessSpawnBackground,
    ChildProcessSpawnSync,
    FetchGetWithAuth,
    FetchPostWithAuth,
    FetchWithOptions,
    I18nString,
    JsonStringify,
    JsonStringifyPretty,
    ProcessOn,
    // Interop with a hosted script engine.
    JsCallFunction,
    JsCallMethod,
    JsCreateCallback,
    JsGetExport,
    JsGetProperty,
    JsLoadModule,
    JsNew,
    JsNewFromHandle,
    JsSetProperty,
    // An intrinsic without operands (time, process, path and operating-system values).
    CryptoRandomUUID,
    MathRandom,
    OsArch,
    OsCpus,
    OsEOL,
    OsFreemem,
    OsHomedir,
    OsHostname,
    OsNetworkInterfaces,
    OsPlatform,
    OsRelease,
    OsTmpdir,
    OsTotalmem,
    OsType,
    OsUptime,
    OsUserInfo,
    PathDelimiter,
    PathSep,
    PerformanceNow,
    ProcessArgv,
    ProcessCwd,
    ProcessEnv,
    ProcessHrtimeBigint,
    ProcessMemoryUsage,
    ProcessPid,
    ProcessPpid,
    ProcessStderr,
    ProcessStdin,
    ProcessStdout,
    ProcessUptime,
    ProcessVersion,
    ProcessVersions,
    RegExpExecGroups,
    RegExpExecIndex,
    TextDecoderNew,
    TextEncoderNew,
    /// An operation that no analysis singles out.
    Other,
}

/// The operations grouped by which analyses look into their operands.
#[derive(Debug, Clone, Copy, PartialEq, Eq, Structural)]
pub enum Family {
    /// Plain expression structure, looked into by every analysis.
    Plain,
    /// An array literal with spread elements.
    ArraySpread,
    /// An object literal with spread parts.
    ObjectSpread,
    /// A literal or a reference to something that is not a local.
    Literal,
    /// A big-integer literal.
    BigInt,
    /// A read of a static member.
    StaticRead,
    /// A regular-expression literal.
    RegExp,
    /// The current time.
    DateNow,
    /// Construction of an empty map or set.
    EmptyCollection,
    /// A numeric test or coercion of one operand.
    NumberTest,
    /// `Number.isInteger`.
    IntegerTest,
    /// `Math.imul`.
    Imul,
    /// `in` and `instanceof`.
    Membership,
    /// `new` on a computed callee, and `yield`.
    Suspension,
    /// A library operation whose operands the instance-escape analysis follows.
    Library,
    /// An array scan or copy.
    ArrayScan,
    /// A file-system probe.
    FileProbe,
    /// A comparison or path operation on a pair of operands.
    Pairing,
    /// Construction of a byte array, with or without an initial value.
    BytesNew,
    /// An operation on dates, paths, buffers and the like.
    Reader,
    /// An operation that hands its operands to a process, a fetch or an encoder.
    Service,
    /// Interop with a hosted script engine.
    Interop,
    /// An intrinsic without operands (time, process, path and operating-system values).
    Intrinsic,
    /// Any operation that no analysis singles out.
    Unlisted,
}

/// The family of an operation.
pub open spec fn family_of(op: Op) -> Family {
    match op {
        Op::Await | Op::BooleanCoerce | Op::Conditional | Op::Delete | Op::Logical |
        Op::NumberCoerce | Op::Sequence | Op::StringCoerce | Op::TypeOf | Op::Unary
        | Op::Void => Family::Plain,
        Op::ArraySpread => Family::ArraySpread,
        Op::ObjectSpread => Family::ObjectSpread,
        Op::Bool | Op::ClassRef | Op::ExternFuncRef | Op::GlobalGet | Op::Null
        | Op::Undefined => Family::Literal,
        Op::BigInt => Family::BigInt,
        Op::EnumMember | Op::StaticFieldGet => Family::StaticRead,
        Op::RegExp => Family::RegExp,
        Op::DateNow => Family::DateNow,
        Op::MapNew | Op::SetNew => Family::EmptyCollection,
        Op::IsFinite | Op::IsNaN | Op::IsUndefinedOrBareNan | Op::NumberIsFinite |
        Op::NumberIsNaN | Op::ParseFloat => Family::NumberTest,
        Op::NumberIsInteger => Family::IntegerTest,
        Op::MathImul => Family::Imul,
        Op::In | Op::InstanceOf => Family::Membership,
        Op::NewDynamic | Op::Yield => Family::Suspension,
        Op::ArrayFilter | Op::ArrayFind | Op::ArrayFindIndex | Op::ArrayFindLast |
        Op::ArrayFindLastIndex | Op::ArrayFlatMap | Op::ArrayForEach | Op::ArrayFrom |
        Op::ArrayFromMapped | Op::ArrayIncludes | Op::ArrayJoin | Op::ArrayMap |
        Op::ArrayReduce | Op::ArrayReduceRight | Op::ArraySlice | Op::ArraySort |
        Op::ErrorNew | Op::FinalizationRegistryNew | Op::FinalizationRegistryRegister |
        Op::FinalizationRegistryUnregister | Op::FsWriteFileSync | Op::IteratorToArray |
        Op::JsonParse | Op::JsonParseReviver | Op::JsonParseTyped | Op::JsonParseWithReviver |
        Op::JsonStringifyFull | Op::MapDelete | Op::MapGet | Op::MapHas | Op::MapSet |
        Op::MathAbs | Op::MathCeil | Op::MathFloor | Op::MathMax | Op::MathMaxSpread |
        Op::MathMin | Op::MathMinSpread | Op::MathPow | Op::MathRound | Op::MathSqrt |
        Op::ObjectEntries | Op::ObjectGroupBy | Op::ObjectKeys | Op::ObjectRest |
        Op::ObjectValues | Op::ParseInt | Op::PathJoin | Op::ProcessNextTick |
        Op::QueueMicrotask | Op::RegExpExec | Op::RegExpTest | Op::SetDelete | Op::SetHas |
        Op::SetNewFromArray | Op::SetSize | Op::StaticFieldSet | Op::StaticMethodCall |
        Op::StructuredClone | Op::SuperCall | Op::SuperMethodCall | Op::TypedArrayNew |
        Op::Uint8ArrayFrom | Op::WeakRefDeref | Op::WeakRefNew => Family::Library,
        Op::ArrayEntries | Op::ArrayEvery | Op::ArrayFlat | Op::ArrayIndexOf | Op::ArrayKeys |
        Op::ArraySome | Op::ArrayToReversed | Op::ArrayToSorted | Op::ArrayToSpliced |
        Op::ArrayValues => Family::ArrayScan,
        Op::FsExistsSync | Op::FsReadFileBinary | Op::FsUnlinkSync => Family::FileProbe,
        Op::ObjectHasOwn | Op::ObjectIs | Op::PathBasenameExt | Op::PathRelative => Family::Pairing,
        Op::Uint8ArrayNew => Family::BytesNew,
        Op::BufferAlloc | Op::BufferFrom | Op::DateNew | Op::DateParse | Op::DateToISOString |
        Op::EnvGetDynamic | Op::ErrorNewWithCause | Op::FsMkdirSync | Op::FsReadFileSync |
        Op::MapClear | Op::MathClz32 | Op::MathLog | Op::MathLog10 | Op::MathLog1p |
        Op::MathLog2 | Op::ObjectCreate | Op::ObjectFromEntries | Op::ObjectIsExtensible |
        Op::ObjectIsFrozen | Op::ObjectIsSealed | Op::PathBasename | Op::PathDirname |
        Op::PathExtname | Op::PathFormat | Op::PathNormalize | Op::PathParse |
        Op::PathResolve | Op::SetClear | Op::StringMatch | Op::Uint8ArrayLength => Family::Reader,
        Op::ArrayIsArray | Op::Atob | Op::Btoa | Op::ChildProcessExec |
        Op::ChildProcessExecSync | Op::ChildProcessGetProcessStatus |
        Op::ChildProcessKillProcess | Op::ChildProcessSpawn | Op::ChildProcessSpawnBackground |
        Op::ChildProcessSpawnSync | Op::FetchGetWithAuth | Op::FetchPostWithAuth |
        Op::FetchWithOptions | Op::I18nString | Op::JsonStringify | Op::JsonStringifyPretty |
        Op::ProcessOn => Family::Service,
        Op::JsCallFunction | Op::JsCallMethod | Op::JsCreateCallback | Op::JsGetExport |
        Op::JsGetProperty | Op::JsLoadModule | Op::JsNew | Op::JsNewFromHandle |
        Op::JsSetProperty => Family::Interop,
        Op::CryptoRandomUUID | Op::MathRandom | Op::OsArch | Op::OsCpus | Op::OsEOL |
        Op::OsFreemem | Op::OsHomedir | Op::OsHostname | Op::OsNetworkInterfaces |
        Op::OsPlatform | Op::OsRelease | Op::OsTmpdir | Op::OsTotalmem | Op::OsType |
        Op::OsUptime | Op::OsUserInfo | Op::PathDelimiter | Op::PathSep | Op::PerformanceNow |
        Op::ProcessArgv | Op::ProcessCwd | Op::ProcessEnv | Op::ProcessHrtimeBigint |
        Op::ProcessMemoryUsage | Op::ProcessPid | Op::ProcessPpid | Op::ProcessStderr |
        Op::ProcessStdin | Op::ProcessStdout | Op::ProcessUptime | Op::ProcessVersion |
        Op::ProcessVersions | Op::RegExpExecGroups | Op::RegExpExecIndex | Op::TextDecoderNew |
        Op::TextEncoderNew => Family::Intrinsic,
        Op::Other => Family::Unlisted,
    }
}

impl Op {
    /// The family of this operation.
    pub fn family(self) -> (r: Family)
        ensures
            r == family_of(self),
    {
        match self {
            Op::Await | Op::BooleanCoerce | Op::Conditional | Op::Delete | Op::Logical |
            Op::NumberCoerce | Op::Sequence | Op::StringCoerce | Op::TypeOf | Op::Unary |
            Op::Void => Family::Plain,
            Op::ArraySpread => Family::ArraySpread,
            Op::ObjectSpread => Family::ObjectSpread,
            Op::Bool | Op::ClassRef | Op::ExternFuncRef | Op::GlobalGet | Op::Null |
            Op::Undefined => Family::Literal,
            Op::BigInt => Family::BigInt,
            Op::EnumMember | Op::StaticFieldGet => Family::StaticRead,
            Op::RegExp => Family::RegExp,
            Op::DateNow => Family::DateNow,
            Op::MapNew | Op::SetNew => Family::EmptyCollection,
            Op::IsFinite | Op::IsNaN | Op::IsUndefinedOrBareNan | Op::NumberIsFinite |
            Op::NumberIsNaN | Op::ParseFloat => Family::NumberTest,
            Op::NumberIsInteger => Family::IntegerTest,
            Op::MathImul => Family::Imul,
            Op::In | Op::InstanceOf => Family::Membership,
            Op::NewDynamic | Op::Yield => Family::Suspension,
            Op::ArrayFilter | Op::ArrayFind | Op::ArrayFindIndex | Op::ArrayFindLast |
            Op::ArrayFindLastIndex | Op::ArrayFlatMap | Op::ArrayForEach | Op::ArrayFrom |
            Op::ArrayFromMapped | Op::ArrayIncludes | Op::ArrayJoin | Op::ArrayMap |
            Op::ArrayReduce | Op::ArrayReduceRight | Op::ArraySlice | Op::ArraySort |
            Op::ErrorNew | Op::FinalizationRegistryNew | Op::FinalizationRegistryRegister |
            Op::FinalizationRegistryUnregister | Op::FsWriteFileSync | Op::IteratorToArray |
            Op::JsonParse | Op::JsonParseReviver | Op::JsonParseTyped |
            Op::JsonParseWithReviver | Op::JsonStringifyFull | Op::MapDelete | Op::MapGet |
            Op::MapHas | Op::MapSet | Op::MathAbs | Op::MathCeil | Op::MathFloor |
            Op::MathMax | Op::MathMaxSpread | Op::MathMin | Op::MathMinSpread | Op::MathPow |
            Op::MathRound | Op::MathSqrt | Op::ObjectEntries | Op::ObjectGroupBy |
            Op::ObjectKeys | Op::ObjectRest | Op::ObjectValues | Op::ParseInt | Op::PathJoin |
            Op::ProcessNextTick | Op::QueueMicrotask | Op::RegExpExec | Op::RegExpTest |
            Op::SetDelete | Op::SetHas | Op::SetNewFromArray | Op::SetSize |
            Op::StaticFieldSet | Op::StaticMethodCall | Op::StructuredClone | Op::SuperCall |
            Op::SuperMethodCall | Op::TypedArrayNew | Op::Uint8ArrayFrom | Op::WeakRefDeref |
            Op::WeakRefNew => Family::Library,
            Op::ArrayEntries | Op::ArrayEvery | Op::ArrayFlat | Op::ArrayIndexOf |
            Op::ArrayKeys | Op::ArraySome | Op::ArrayToReversed | Op::ArrayToSorted |
            Op::ArrayToSpliced | Op::ArrayValues => Family::ArrayScan,
            Op::FsExistsSync | Op::FsReadFileBinary | Op::FsUnlinkSync => Family::FileProbe,
            Op::ObjectHasOwn | Op::ObjectIs | Op::PathBasenameExt
            | Op::PathRelative => Family::Pairing,
            Op::Uint8ArrayNew => Family::BytesNew,
            Op::BufferAlloc | Op::BufferFrom | Op::DateNew | Op::DateParse |
            Op::DateToISOString | Op::EnvGetDynamic | Op::ErrorNewWithCause | Op::FsMkdirSync |
            Op::FsReadFileSync | Op::MapClear | Op::MathClz32 | Op::MathLog | Op::MathLog10 |
            Op::MathLog1p | Op::MathLog2 | Op::ObjectCreate | Op::ObjectFromEntries |
            Op::ObjectIsExtensible | Op::ObjectIsFrozen | Op::ObjectIsSealed |
            Op::PathBasename | Op::PathDirname | Op::PathExtname | Op::PathFormat |
            Op::PathNormalize | Op::PathParse | Op::PathResolve | Op::SetClear |
            Op::StringMatch | Op::Uint8ArrayLength => Family::Reader,
            Op::ArrayIsArray | Op::Atob | Op::Btoa | Op::ChildProcessExec |
            Op::ChildProcessExecSync | Op::ChildProcessGetProcessStatus |
            Op::ChildProcessKillProcess | Op::ChildProcessSpawn |
            Op::ChildProcessSpawnBackground | Op::ChildProcessSpawnSync |
            Op::FetchGetWithAuth | Op::FetchPostWithAuth | Op::FetchWithOptions |
            Op::I18nString | Op::JsonStringify | Op::JsonStringifyPretty
            | Op::ProcessOn => Family::Service,
            Op::JsCallFunction | Op::JsCallMethod | Op::JsCreateCallback | Op::JsGetExport |
            Op::JsGetProperty | Op::JsLoadModule | Op::JsNew | Op::JsNewFromHandle |
            Op::JsSetProperty => Family::Interop,
            Op::CryptoRandomUUID | Op::MathRandom | Op::OsArch | Op::OsCpus | Op::OsEOL |
            Op::OsFreemem | Op::OsHomedir | Op::OsHostname | Op::OsNetworkInterfaces |
            Op::OsPlatform | Op::OsRelease | Op::OsTmpdir | Op::OsTotalmem | Op::OsType |
            Op::OsUptime | Op::OsUserInfo | Op::PathDelimiter | Op::PathSep |
            Op::PerformanceNow | Op::ProcessArgv | Op::ProcessCwd | Op::ProcessEnv |
            Op::ProcessHrtimeBigint | Op::ProcessMemoryUsage | Op::ProcessPid |
            Op::ProcessPpid | Op::ProcessStderr | Op::ProcessStdin | Op::ProcessStdout |
            Op::ProcessUptime | Op::ProcessVersion | Op::ProcessVersions |
            Op::RegExpExecGroups | Op::RegExpExecIndex | Op::TextDecoderNew
            | Op::TextEncoderNew => Family::Intrinsic,
            Op::Other => Family::Unlisted,
        }
    }
}

/// A static type, as far as the analyses tell types apart.
#[derive(Debug)]
pub enum Type {
    Number,
    Int32,
    Boolean,
    String,
    BigInt,
    Symbol,
    Null,
    Void,
    Never,
    Any,
    Unknown,
    Array,
    Tuple,
    Object,
    Named,
    Promise,
    Function,
    TypeVar,
    Union(Vec<Type>),
}

#[derive(Debug)]
#[allow(inconsistent_fields)]
pub enum Expr {
    Integer(i64),
    /// A number literal, by the bits of its double-precision value.
    Number(u64),
    String(String),
    This,
    FuncRef(FuncId),
    LocalGet(LocalId),
    LocalSet(LocalId, Box<Expr>),
    /// `id++` and `id--`.
    Update(LocalId),
    Binary { op: BinaryOp, left: Box<Expr>, right: Box<Expr> },
    Compare { op: CompareOp, left: Box<Expr>, right: Box<Expr> },
    PropertyGet { object: Box<Expr>, property: String },
    PropertySet { object: Box<Expr>, property: String, value: Box<Expr> },
    PropertyUpdate { object: Box<Expr>, property: String },
    IndexGet { object: Box<Expr>, index: Box<Expr> },
    IndexSet { object: Box<Expr>, index: Box<Expr>, value: Box<Expr> },
    IndexUpdate { object: Box<Expr>, index: Box<Expr> },
    IndexRead { op: IndexReadOp, object: Box<Expr>, index: Box<Expr> },
    IndexWrite { op: IndexWriteOp, object: Box<Expr>, index: Box<Expr>, value: Box<Expr> },
    Call { callee: Box<Expr>, args: Vec<Expr> },
    /// A call with spread arguments, spread or not in source order.
    CallSpread { callee: Box<Expr>, args: Vec<Expr> },
    NativeMethodCall {
        module: String,
        method: String,
        object: Option<Box<Expr>>,
        args: Vec<Expr>,
    },
    New { class_name: String, args: Vec<Expr> },
    Array(Vec<Expr>),
    Object(Vec<(String, Expr)>),
    Closure { func_id: FuncId, body: Vec<Stmt>, captures: Vec<LocalId>, captures_this: bool },
    /// An operation on the local `id`.
    OnLocal { op: LocalOp, id: LocalId, operands: Vec<Expr> },
    Node { op: Op, operands: Vec<Expr> },
}

#[derive(Debug)]
pub struct SwitchCase {
    pub test: Option<Expr>,
    pub body: Vec<Stmt>,
}

#[derive(Debug)]
pub struct CatchClause {
    pub param: Option<LocalId>,
    pub body: Vec<Stmt>,
}

#[derive(Debug)]
#[allow(inconsistent_fields)]
pub enum Stmt {
    Expr(Expr),
    Throw(Expr),
    Return(Option<Expr>),
    Let { id: LocalId, ty: Type, mutable: bool, init: Option<Expr> },
    If { condition: Expr, then_branch: Vec<Stmt>, else_branch: Option<Vec<Stmt>> },
    While { condition: Expr, body: Vec<Stmt> },
    DoWhile { body: Vec<Stmt>, condition: Expr },
    For {
        init: Option<Box<Stmt>>,
        condition: Option<Expr>,
        update: Option<Expr>,
        body: Vec<Stmt>,
    },
    Switch { discriminant: Expr, cases: Vec<SwitchCase> },
    Try { body: Vec<Stmt>, catch: Option<CatchClause>, finally: Option<Vec<Stmt>> },
    Labeled { label: String, body: Box<Stmt> },
    Break,
    Continue,
    LabeledBreak(String),
    LabeledContinue(String),
}

#[derive(Debug)]
pub struct Param {
    pub id: LocalId,
    pub ty: Type,
}

#[derive(Debug)]
pub struct Function {
    pub id: FuncId,
    pub params: Vec<Param>,
    pub return_type: Type,
    pub body: Vec<Stmt>,
    pub is_async: bool,
    pub is_generator: bool,
}

#[derive(Debug)]
pub struct ClassField {
    pub name: String,
    pub init: Option<Expr>,
}

/// A class: its fields, its constructor and the names of its accessors.
#[derive(Debug)]
pub struct Class {
    pub name: String,
    pub extends_name: Option<String>,
    pub fields: Vec<ClassField>,
    pub constructor: Option<Function>,
    pub getters: Vec<String>,
    pub setters: Vec<String>,
}

/// A module: its classes and the statements it runs when loaded.
#[derive(Debug)]
pub struct Module {
    pub classes: Vec<Class>,
    pub init: Vec<Stmt>,
}

/// The direct sub-expressions of an expression, in evaluation order. A closure
/// has none: its body is statements.
pub open spec fn operands_of(e: Expr) -> Seq<Expr> {
    match e {
        Expr::LocalSet(_, value) => seq![*value],
        Expr::Binary { op, left, right } => seq![*left, *right],
        Expr::Compare { op, left, right } => seq![*left, *right],
        Expr::PropertyGet { object, property } => seq![*object],
        Expr::PropertyUpdate { object, property } => seq![*object],
        Expr::PropertySet { object, property, value } => seq![*object, *value],
        Expr::IndexGet { object, index } => seq![*object, *index],
        Expr::IndexUpdate { object, index } => seq![*object, *index],
        Expr::IndexRead { op, object, index } => seq![*object, *index],
        Expr::IndexSet { object, index, value } => seq![*object, *index, *value],
        Expr::IndexWrite { op, object, index, value } => seq![*object, *index, *value],
        Expr::Call { callee, args } => seq![*callee] + args@,
        Expr::CallSpread { callee, args } => seq![*callee] + args@,
        Expr::NativeMethodCall { module, method, object, args } => match object {
            Some(o) => seq![*o] + args@,
            None => args@,
        },
        Expr::New { class_name, args } => args@,
        Expr::Array(elements) => elements@,
        Expr::Object(props) => props@.map_values(|p: (String, Expr)| p.1),
        Expr::OnLocal { op, id, operands } => operands@,
        Expr::Node { op, operands } => operands@,
        _ => Seq::empty(),
    }
}

/// An operand is structurally smaller than the expression it belongs to.
pub proof fn lemma_operand_smaller(e: Expr, i: int)
    requires
        0 <= i < operands_of(e).len(),
    ensures
        decreases_to!(e => operands_of(e)[i]),
{
    match e {
        Expr::Call { callee, args } => {
            if i > 0 {
                assert(operands_of(e)[i] == args@[i - 1]);
            }
        },
        Expr::CallSpread { callee, args } => {
            if i > 0 {
                assert(operands_of(e)[i] == args@[i - 1]);
            }
        },
        Expr::NativeMethodCall { module, method, object, args } => {
            match object {
                Some(o) => {
                    if i > 0 {
                        assert(operands_of(e)[i] == args@[i - 1]);
                    }
                },
                None => {},
            }
        },
        Expr::Object(props) => {
            assert(operands_of(e)[i] == props@[i].1);
        },
        _ => {},
    }
}

/// Appending a reference to a list appends the value it refers to.
pub broadcast proof fn lemma_unref_push<T>(s: Seq<&T>, x: &T)
    ensures
        #[trigger] s.push(x).unref() == s.unref().push(*x),
{
    assert(s.push(x).unref() =~= s.unref().push(*x));
}

impl Expr {
    /// The direct sub-expressions, in evaluation order.
    pub fn operands(&self) -> (r: Vec<&Expr>)
        ensures
            r@.unref() == operands_of(*self),
    {
        match self {
            Expr::LocalSet(_, value) => vec![&**value],
            Expr::Binary { left, right, .. } => vec![&**left, &**right],
            Expr::Compare { left, right, .. } => vec![&**left, &**right],
            Expr::PropertyGet { object, .. } => vec![&**object],
            Expr::PropertyUpdate { object, .. } => vec![&**object],
            Expr::PropertySet { object, value, .. } => vec![&**object, &**value],
            Expr::IndexGet { object, index } => vec![&**object, &**index],
            Expr::IndexUpdate { object, index } => vec![&**object, &**index],
            Expr::IndexRead { object, index, .. } => vec![&**object, &**index],
            Expr::IndexSet { object, index, value } => vec![&**object, &**index, &**value],
            Expr::IndexWrite { object, index, value, .. } => vec![&**object, &**index, &**value],
            Expr::Call { callee, args } => with_first(&**callee, args),
            Expr::CallSpread { callee, args } => with_first(&**callee, args),
            Expr::NativeMethodCall { object, args, .. } => match object {
                Some(o) => with_first(&**o, args),
                None => all_of(args),
            },
            Expr::New { args, .. } => all_of(args),
            Expr::Array(elements) => all_of(elements),
            Expr::Object(props) => {
                let mut out: Vec<&Expr> = Vec::new();
                let mut i: usize = 0;
                while i < props.len()
                    invariant
                        i <= props@.len(),
                        out@.unref() == operands_of(*self).take(i as int),
                        *self == Expr::Object(*props),
                    decreases props@.len() - i,
                {
                    proof {
                        broadcast use lemma_unref_push;
                        assert(operands_of(*self).take(i + 1) =~= operands_of(*self).take(
                            i as int,
                        ).push(props@[i as int].1));
                    }
                    out.push(&props[i].1);
                    i += 1;
                }
                out
            },
            Expr::OnLocal { operands, .. } => all_of(operands),
            Expr::Node { operands, .. } => all_of(operands),
            _ => Vec::new(),
        }
    }
}

/// References to the elements of a list.
fn all_of(items: &Vec<Expr>) -> (r: Vec<&Expr>)
    ensures
        r@.unref() == items@,
{
    let mut out: Vec<&Expr> = Vec::new();
    let mut i: usize = 0;
    while i < items.len()
        invariant
            i <= items@.len(),
            out@.unref() == items@.take(i as int),
        decreases items@.len() - i,
    {
        proof {
            broadcast use lemma_unref_push;
            assert(items@.take(i + 1) =~= items@.take(i as int).push(items@[i as int]));
        }
        out.push(&items[i]);
        i += 1;
    }
    out
}

/// References to `first` and then to the elements of a list.
fn with_first<'a>(first: &'a Expr, items: &'a Vec<Expr>) -> (r: Vec<&'a Expr>)
    ensures
        r@.unref() == seq![*first] + items@,
{
    let mut out: Vec<&'a Expr> = Vec::new();
    out.push(first);
    let mut i: usize = 0;
    while i < items.len()
        invariant
            i <= items@.len(),
            out@.unref() == seq![*first] + items@.take(i as int),
        decreases items@.len() - i,
    {
        proof {
            broadcast use lemma_unref_push;
            assert(items@.take(i + 1) =~= items@.take(i as int).push(items@[i as int]));
        }
        out.push(&items[i]);
        i += 1;
    }
    out
}

} // verus!
