//! Checking expanded shader sources with naga's WGSL front end before they
//! reach the GPU.

use vstd::prelude::*;
use crate::preprocess::{LoadError, LoadFailure, LoadOutcome, LoadStep, ShaderCompiler, expand_source};
use crate::sources::SourceTable;

verus! {

/// What naga's WGSL front end reports for `source`: nothing when it parses,
/// else its diagnostic rendered against the source.
pub uninterp spec fn wgsl_diagnostic(source: Seq<char>) -> Option<Seq<char>>;

/// Calls `naga::front::wgsl::parse_str` on `source` and, when it fails,
/// `ParseError::emit_to_string` with the same source. The contract claims only
/// that the result is `wgsl_diagnostic` of the source; which sources parse is
/// naga's to decide and is not stated here.
#[verifier::external_body]
fn parse_wgsl(source: &str) -> (r: Option<String>)
    ensures
        match r {
            None => wgsl_diagnostic(source@) is None,
            Some(m) => wgsl_diagnostic(source@) == Some(m@),
        },
{
    match naga::front::wgsl::parse_str(source) {
        Ok(_) => None,
        Err(err) => Some(err.emit_to_string(source)),
    }
}

/// Why a shader could not be compiled, as values.
pub enum CompileFailure {
    /// Its source could not be expanded.
    Load(LoadFailure),
    /// The shader at this path did not pass validation, with this diagnostic.
    Invalid(Seq<char>, Seq<char>),
}

/// Why a shader could not be compiled.
pub enum ShaderError {
    /// Its source could not be expanded.
    Load(LoadError),
    /// The shader at `path` did not pass validation; `diagnostic` says why.
    Invalid { path: String, diagnostic: String },
}

impl View for ShaderError {
    type V = CompileFailure;

    open spec fn view(&self) -> CompileFailure {
        match self {
            ShaderError::Load(e) => CompileFailure::Load(e@),
            ShaderError::Invalid { path, diagnostic } => CompileFailure::Invalid(path@, diagnostic@),
        }
    }
}

/// Where a compilation stands, as values.
pub enum CompileOutcome {
    /// Finished: the validated source, or why it failed.
    Done(Result<Seq<char>, CompileFailure>),
    /// The source at this resolved path is needed first.
    NeedSource(Seq<char>),
}

/// Where a compilation stands.
pub enum CompileStep {
    /// Finished: the validated source, or why it failed.
    Done(Result<String, ShaderError>),
    /// The source at this resolved path is needed first.
    NeedSource(String),
}

impl View for CompileStep {
    type V = CompileOutcome;

    open spec fn view(&self) -> CompileOutcome {
        match self {
            CompileStep::Done(Ok(text)) => CompileOutcome::Done(Ok(text@)),
            CompileStep::Done(Err(e)) => CompileOutcome::Done(Err(e@)),
            CompileStep::NeedSource(path) => CompileOutcome::NeedSource(path@),
        }
    }
}

/// The verdict on the expanded `source` of the shader at `path`, given what the
/// WGSL front end reported for it.
pub open spec fn verdict(path: Seq<char>, source: Seq<char>, diagnostic: Option<Seq<char>>) -> Result<
    Seq<char>,
    CompileFailure,
> {
    match diagnostic {
        None => Ok(source),
        Some(d) => Err(CompileFailure::Invalid(path, d)),
    }
}

/// Compiling the shader at `path` against `sources`.
pub open spec fn compile_outcome(
    root: Seq<char>,
    sources: Map<Seq<char>, Result<Seq<char>, Seq<char>>>,
    path: Seq<char>,
) -> CompileOutcome {
    match expand_source(root, sources, path, seq![], usize::MAX as nat) {
        LoadOutcome::NeedSource(p) => CompileOutcome::NeedSource(p),
        LoadOutcome::Done(Err(e)) => CompileOutcome::Done(Err(CompileFailure::Load(e))),
        LoadOutcome::Done(Ok(source)) => CompileOutcome::Done(
            verdict(path, source, wgsl_diagnostic(source)),
        ),
    }
}

/// An optional message, as a value.
pub open spec fn option_view(o: Option<String>) -> Option<Seq<char>> {
    match o {
        Some(m) => Some(m@),
        None => None,
    }
}

/// The outcome of a compilation, as a value.
pub open spec fn result_view(r: Result<String, ShaderError>) -> Result<Seq<char>, CompileFailure> {
    match r {
        Ok(s) => Ok(s@),
        Err(e) => Err(e@),
    }
}

/// Accepts the expanded `source` of the shader at `relative_path` when the WGSL
/// front end reported nothing, else fails with its `diagnostic`.
pub fn check_diagnostic(relative_path: &str, source: String, diagnostic: Option<String>) -> (r: Result<
    String,
    ShaderError,
>)
    ensures
        result_view(r) == verdict(relative_path@, source@, option_view(diagnostic)),
{
    match diagnostic {
        None => Ok(source),
        Some(d) => Err(ShaderError::Invalid { path: String::from_str(relative_path), diagnostic: d }),
    }
}

impl ShaderCompiler {
    /// Expands the shader at `relative_path` against `sources` and validates the
    /// result: the source to build a shader module from, or the error, or the
    /// source that is needed next.
    pub fn compile(&self, relative_path: &str, sources: &SourceTable) -> (r: CompileStep)
        ensures
            r@ == compile_outcome(self.root_path(), sources@, relative_path@),
    {
        match self.load(relative_path, sources) {
            LoadStep::NeedSource(path) => CompileStep::NeedSource(path),
            LoadStep::Done(Err(e)) => CompileStep::Done(Err(ShaderError::Load(e))),
            LoadStep::Done(Ok(source)) => {
                let diagnostic = parse_wgsl(source.as_str());
                CompileStep::Done(check_diagnostic(relative_path, source, diagnostic))
            },
        }
    }
}

} // verus!
