//! The compiler front: resolving the compile recipe of a submission and
//! classifying what the compile child process left behind.
//!
//! The fork itself — spawning the compiler with its error stream redirected
//! to a log file — is the callers' work. This module decides which command
//! runs, where the target and the log live, and what the log means: no log
//! is an internal error, an empty log is success, anything else is the
//! compiler's diagnostic, returned verbatim.

use vstd::prelude::*;

use crate::recipe::Registry;
use crate::recipe::resolve_tokens;
use crate::recipe::subst_token;
use crate::staging::SavedSource;

verus! {

/// What can go wrong around a compilation.
#[derive(Debug)]
pub enum Error {
    LanguageNotFoundError,
    ForkFailed,
    NoCompilationLogError,
    CompilationError(String),
}

/// The compile side of the recipe registry.
pub struct Compiler {
    pub compiling_recipe: Registry,
}

impl Compiler {
    /// A compiler over the given compile recipes.
    pub fn new(compiling_recipe: Registry) -> (r: Compiler)
        ensures
            r.compiling_recipe == compiling_recipe,
    {
        Compiler { compiling_recipe }
    }

    /// Resolve the compile command of a staged source.
    ///
    /// An unsupported language is an error; a supported language without a
    /// compile recipe is interpreted and needs no compilation (`Ok(None)`).
    /// Otherwise the command is the recipe with `$source` resolved to the
    /// staged path and `$target` to the staged path plus `.exe`, returned
    /// together with that target path.
    pub fn generate_compilation_command(&self, source: &SavedSource, lang: &str) -> (r: Result<
        Option<(String, Vec<String>)>,
        Error,
    >)
        requires
            self.compiling_recipe.wf(),
        ensures
            (r is Err) == (self.compiling_recipe.spec_get(lang@) is None),
            r matches Result::Err(e) ==> e is LanguageNotFoundError,
            r matches Result::Ok(o) ==> (o is None) == (self.compiling_recipe.spec_get(lang@)
                == Option::Some(Option::<Seq<Seq<char>>>::None)),
            r matches Result::Ok(Option::Some(out)) ==> {
                let template = self.compiling_recipe.spec_get(lang@)->0->0;
                &&& out.0@ == source.full_path@ + ".exe"@
                &&& out.1.deep_view().len() == template.len()
                &&& forall|i: int|
                    0 <= i < template.len() ==> out.1.deep_view()[i] == subst_token(
                        template[i],
                        source.full_path@,
                        out.0@,
                    )
            },
    {
        let chain: Option<Vec<String>> = match self.compiling_recipe.lookup(lang) {
            Option::Some(c) => c,
            Option::None => {
                return Result::Err(Error::LanguageNotFoundError);
            },
        };
        let template: Vec<String> = match chain {
            Option::Some(t) => t,
            Option::None => {
                return Result::Ok(Option::None);
            },
        };
        let target_full_path: String = source.full_path.clone().concat(".exe");
        let command: Vec<String> = resolve_tokens(
            &template,
            source.get_full_path(),
            target_full_path.as_str(),
        );
        Result::Ok(Option::Some((target_full_path, command)))
    }
}

/// Where the compile child's error stream goes: the target path plus
/// `.log`.
pub open spec fn spec_log_path(target: Seq<char>) -> Seq<char> {
    target + ".log"@
}

/// The log path of a compile target.
pub fn compile_log_path(target: &str) -> (r: String)
    ensures
        r@ == spec_log_path(target@),
{
    target.to_owned().concat(".log")
}

/// Classify a finished compilation from its log: a missing log is an
/// internal error, an empty log is success and yields the target path, a
/// non-empty log is the compiler's diagnostic.
pub fn compile_outcome(target_full_path: String, log_content: Option<String>) -> (r: Result<
    String,
    Error,
>)
    ensures
        match log_content {
            Option::None => r matches Result::Err(e) && e is NoCompilationLogError,
            Option::Some(log) => {
                if log@.len() == 0 {
                    r matches Result::Ok(t) && t == target_full_path
                } else {
                    r matches Result::Err(e) && e matches Error::CompilationError(msg) && msg == log
                }
            },
        },
{
    match log_content {
        Option::None => Result::Err(Error::NoCompilationLogError),
        Option::Some(log) => {
            if log.as_str().is_empty() {
                Result::Ok(target_full_path)
            } else {
                Result::Err(Error::CompilationError(log))
            }
        },
    }
}

} // verus!
