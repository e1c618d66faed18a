use vstd::prelude::*;

verus! {

/// Which of the four markup macros is being expanded.
#[derive(Copy, Clone, Debug, PartialEq, Eq, Structural)]
pub enum MacroMode {
    Html,
    HtmlAsync,
    HtmlContext,
    HtmlAsyncContext,
}

/// How the generated rendering code is shaped: sync or async, with or
/// without a context value threaded into component calls.
#[derive(Copy, Clone, Debug, PartialEq, Eq, Structural)]
pub enum CompileMode {
    SyncNoCtx,
    AsyncNoCtx,
    SyncWithCtx,
    AsyncWithCtx,
}

impl MacroMode {
    /// The compile mode that a macro mode selects.
    pub open spec fn spec_compile_mode(self) -> CompileMode {
        match self {
            MacroMode::Html => CompileMode::SyncNoCtx,
            MacroMode::HtmlAsync => CompileMode::AsyncNoCtx,
            MacroMode::HtmlContext => CompileMode::SyncWithCtx,
            MacroMode::HtmlAsyncContext => CompileMode::AsyncWithCtx,
        }
    }

    /// Whether the macro expects `writer, context, markup` rather than
    /// `writer, markup`.
    pub open spec fn requires_context_spec(self) -> bool {
        self == MacroMode::HtmlContext || self == MacroMode::HtmlAsyncContext
    }

    /// Whether the macro expects `writer, context, markup` rather than
    /// `writer, markup`.
    pub fn requires_context_arg(self) -> (r: bool)
        ensures
            r == self.requires_context_spec(),
    {
        matches!(self, MacroMode::HtmlContext | MacroMode::HtmlAsyncContext)
    }

    /// The macro's name as the user wrote it, used in error messages.
    pub fn macro_name(self) -> (r: &'static str)
        ensures
            r@ == macro_name_spec(self),
    {
        proof {
            reveal_strlit("html!");
            reveal_strlit("html_async!");
            reveal_strlit("html_ctx!");
            reveal_strlit("html_async_ctx!");
        }
        match self {
            MacroMode::Html => "html!",
            MacroMode::HtmlAsync => "html_async!",
            MacroMode::HtmlContext => "html_ctx!",
            MacroMode::HtmlAsyncContext => "html_async_ctx!",
        }
    }

    /// The compile mode that this macro mode expands with.
    pub fn compile_mode(self) -> (r: CompileMode)
        ensures
            r == self.spec_compile_mode(),
    {
        match self {
            MacroMode::Html => CompileMode::SyncNoCtx,
            MacroMode::HtmlAsync => CompileMode::AsyncNoCtx,
            MacroMode::HtmlContext => CompileMode::SyncWithCtx,
            MacroMode::HtmlAsyncContext => CompileMode::AsyncWithCtx,
        }
    }
}

/// The user-facing name of each macro.
pub open spec fn macro_name_spec(mode: MacroMode) -> Seq<char> {
    match mode {
        MacroMode::Html => "html!"@,
        MacroMode::HtmlAsync => "html_async!"@,
        MacroMode::HtmlContext => "html_ctx!"@,
        MacroMode::HtmlAsyncContext => "html_async_ctx!"@,
    }
}

impl CompileMode {
    /// Whether component calls receive a context argument.
    pub open spec fn spec_uses_context(self) -> bool {
        self == CompileMode::SyncWithCtx || self == CompileMode::AsyncWithCtx
    }

    /// Whether the generated code is an async block.
    pub open spec fn spec_is_async(self) -> bool {
        self == CompileMode::AsyncNoCtx || self == CompileMode::AsyncWithCtx
    }

    /// Whether component calls receive a context argument.
    pub fn uses_context(self) -> (r: bool)
        ensures
            r == self.spec_uses_context(),
    {
        matches!(self, CompileMode::SyncWithCtx | CompileMode::AsyncWithCtx)
    }

    /// Whether the generated code is an async block.
    pub fn is_async(self) -> (r: bool)
        ensures
            r == self.spec_is_async(),
    {
        matches!(self, CompileMode::AsyncNoCtx | CompileMode::AsyncWithCtx)
    }
}

/// A macro mode requires a context argument exactly when its compile mode
/// threads a context into component calls.
pub proof fn lemma_context_arg_matches_compile_mode(mode: MacroMode)
    ensures
        mode.requires_context_spec() <==> mode.spec_compile_mode().spec_uses_context(),
{
}

} // verus!
