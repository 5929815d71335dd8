//! The names of the foreign (host) functions that the library registers.

use vstd::prelude::*;

verus! {

/// A foreign function that a module binding can hold. The library's setup
/// functions bind names to these tags; the host keeps the table from each
/// tag to the function it runs. `map` and `sort!` get from the host a way
/// of calling a function value; the functions that need an evaluator of
/// their own, such as `eval-string` or `curry`, a host without one refuses.
#[derive(Clone, Copy, PartialEq, Eq, Structural, Debug)]
pub enum ForeignFn {
    BoolNot,
    BufferNew,
    BufferPut,
    CharNew,
    CharIsUppercase,
    CharIsLowercase,
    ChronoDateTime,
    ChronoDateTimeToRfc399,
    ChronoDateTimeToString,
    ChronoDate,
    ChronoDateFromMap,
    ChronoDateFromComponents,
    ChronoDateAddDays,
    ChronoDateFormat,
    ChronoDateToString,
    HtmlFromCommonMark,
    IntCompare,
    StringCompare,
    DecFromString,
    EqInt,
    EqFloat,
    EqString,
    EqSymbol,
    NotEqInt,
    NotEqFloat,
    NotEqString,
    NotEqSymbol,
    IntGt,
    FloatGt,
    IntLt,
    ErrorNew,
    FloatFromInt,
    FloatFromBool,
    FloatFromString,
    FloatMin,
    FloatMax,
    FloatAbs,
    FloatFloor,
    FloatCeil,
    FloatSqrt,
    HtmlFromExpr,
    IntFromFloat,
    IntFromBool,
    IntFromString,
    IntBitwiseAnd,
    IntBitwiseOr,
    ReadString,
    ReadStringAll,
    Write,
    Writeln,
    Echo,
    JsonReadString,
    ExprToJsonString,
    Ann,
    WithAnn,
    WithType,
    DebugExpr,
    TypeOf,
    IsA,
    EvalString,
    LoadFile,
    FuncCurry,
    LinkForeignDynLib,
    ComplexNew,
    IsSome,
    IsNone,
    SomeOr,
    Expect,
    PathGetDirname,
    PathGetExtension,
    ExprToString,
    ProcessExit,
    ProcessArgs,
    ProcessEnvVars,
    ProcessExec,
    ProcessShell,
    RangeIntNew,
    RangeFloatNew,
    RangeFloatContains,
    RegexNew,
    RegexIsMatching,
    RegexSplit,
    RegexSplitMatches,
    RegexCapture,
    RandomInt,
    ListCons,
    ListCount,
    ArrayPush,
    ArrayConcatMut,
    ArrayMap,
    ArrayJoin,
    ArraySkip,
    ArrayCount,
    ArrayContains,
    ArrayIsEmpty,
    ArraySortMut,
    ArraySlice,
    ArrayRoll,
    SetNew,
    SetPut,
    SetValues,
    U8New,
    UuidNewV4,
    PngCoderNew,
}

} // verus!
