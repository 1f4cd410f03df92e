use vstd::prelude::*;
use crate::Span;

verus! {

/// The closed set of diagnostics the compiler can raise.  Kinds that carry
/// counts keep them as plain integers so that contracts can state exactly
/// which error an input produces.
#[derive(Clone, Copy, PartialEq, Eq, Structural, Debug)]
pub enum ErrorKind {
    UnknownBuiltinMacro,
    /// Expected and actual number of macro arguments.
    ParamCountMismatch(usize, usize),
    /// Minimum number of macro arguments.
    NotEnoughMacroArguments(usize),
    ConstantStringExpected,
    CannotEtCeteraHere,
    EtCeteraInEtCetera,
    MultipleEtCeteras,
    NotAMacro,
    RecursiveMacroCall,
    MacroExpected,
    InvalidTransparent,
    VarArgsCanOnlyBeExtern,
    ProtocolFnsCannotBeExtern,
    ExternCGenericParams,
    ExternStaticCannotBeGeneric,
    ExternStaticMustHaveType,
    FunctionMustHaveBody,
    TypeHintRequired,
    UnsupportedABI,
    UnknownIntrinsic,
    DuplicateAttribute,
    InvalidAttribute,
    AlignAndPacked,
    Align1,
    NoFreeStandingImpl,
    CannotBeATest,
    CannotBeALangItem,
    UnknownLangItem,
    MultipleMainFunctions,
    DuplicateNameShadow,
    UnknownLintName,
    SelfConfusion,
    DollaredOutsideOfMacro,
    GenericArgsInPath,
    /// The format string of `format_args` is malformed, or it references a
    /// positional argument at or beyond the number of supplied arguments.
    InvalidFormatString,
    CannotReadFile,
    EnvVarNotFound,
    NoSpanInformation,
    /// An item cell was read before any pass assigned it.
    UnpopulatedSymbol,
    /// A compiler bug: an impossible state was reached.
    InternalError,
}

/// How a diagnostic kind is treated after lint overrides are applied.
#[derive(Clone, Copy, PartialEq, Eq, Structural, Debug)]
pub enum Action {
    Allow,
    Deny,
    Keep,
}

/// A diagnostic with the place it points at.
#[derive(Clone, Copy, PartialEq, Eq, Structural, Debug)]
pub struct CodeError {
    pub kind: ErrorKind,
    pub span: Option<Span>,
}

/// A lint override pushed by an `allow`/`deny`/`warn` attribute.  `kind`
/// of `None` applies to all warnings.
#[derive(Clone, Copy, PartialEq, Eq, Structural, Debug)]
pub struct LintOverride {
    pub span: Option<Span>,
    pub kind: Option<ErrorKind>,
    pub action: Action,
}

/// The diagnostic context threaded through every pass.  Files are registered
/// up front and addressed by small integer ids (their index here).
pub struct DiagCtx {
    pub file_paths: Vec<String>,
    pub errors: Vec<CodeError>,
    pub warnings: Vec<CodeError>,
    pub overrides: Vec<LintOverride>,
}

impl DiagCtx {
    pub fn new() -> (r: DiagCtx)
        ensures
            r.file_paths@.len() == 0,
            r.errors@.len() == 0,
            r.warnings@.len() == 0,
            r.overrides@.len() == 0,
    {
        DiagCtx { file_paths: Vec::new(), errors: Vec::new(), warnings: Vec::new(), overrides: Vec::new() }
    }

    /// Registers a source file and returns its id.
    pub fn register_file(&mut self, path: String) -> (r: usize)
        ensures
            final(self).file_paths@ == old(self).file_paths@.push(path),
            r == old(self).file_paths@.len(),
            final(self).errors@ == old(self).errors@,
            final(self).warnings@ == old(self).warnings@,
            final(self).overrides@ == old(self).overrides@,
    {
        let r = self.file_paths.len();
        self.file_paths.push(path);
        r
    }

    /// The path a file id was registered under, if any.
    pub fn get_file_path(&self, file: usize) -> (r: Option<&String>)
        ensures
            match r {
                Some(p) => file < self.file_paths@.len() && p@ == self.file_paths@[file as int]@,
                None => file >= self.file_paths@.len(),
            },
    {
        if file < self.file_paths.len() {
            Some(&self.file_paths[file])
        } else {
            None
        }
    }

    pub fn add_error(&mut self, e: CodeError)
        ensures
            final(self).errors@ == old(self).errors@.push(e),
            final(self).file_paths@ == old(self).file_paths@,
            final(self).warnings@ == old(self).warnings@,
            final(self).overrides@ == old(self).overrides@,
    {
        self.errors.push(e);
    }

    pub fn add_warning(&mut self, e: CodeError)
        ensures
            final(self).warnings@ == old(self).warnings@.push(e),
            final(self).file_paths@ == old(self).file_paths@,
            final(self).errors@ == old(self).errors@,
            final(self).overrides@ == old(self).overrides@,
    {
        self.warnings.push(e);
    }

    pub fn add_override(&mut self, o: LintOverride)
        ensures
            final(self).overrides@ == old(self).overrides@.push(o),
            final(self).file_paths@ == old(self).file_paths@,
            final(self).errors@ == old(self).errors@,
            final(self).warnings@ == old(self).warnings@,
    {
        self.overrides.push(o);
    }

    pub fn has_errors(&self) -> (r: bool)
        ensures
            r == (self.errors@.len() > 0),
    {
        self.errors.len() > 0
    }
}

} // verus!
