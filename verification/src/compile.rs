//! The top of the markup compiler: checking what the macro was given,
//! reporting text left after the markup, and planning the expansion.
use vstd::prelude::*;
use crate::markup::{ExprRef, MarkupNode, SrcSpan, TokenTree};
use crate::modes::{macro_name_spec, CompileMode, MacroMode};
use crate::plan::{Diagnostic, DiagnosticKind, DiagnosticKindView, DiagnosticView, Level};
use crate::props::error_at;
use crate::text::{concat_str, is_blank, is_blank_spec, string_of};
use crate::emit::{group, WalkNodesOutput};
use crate::plan::{ComponentSymbolHint, Stmt};
use crate::walk::{nodes_size, opt_view, visit_nodes, walk_nodes_spec, Scope, WalkNodes};

verus! {

/// Whether some node of the forest is not a text node.
pub open spec fn has_non_text(nodes: Seq<MarkupNode>) -> bool {
    exists|j: int| 0 <= j < nodes.len() && !(#[trigger] nodes[j] is Text)
}

/// An error for every top-level text node that is not blank and comes after
/// a node that is not text: text left over after the markup.
pub open spec fn trailing_spec(nodes: Seq<MarkupNode>) -> Seq<DiagnosticView>
    decreases nodes.len(),
{
    if nodes.len() == 0 {
        Seq::empty()
    } else {
        let prev = trailing_spec(nodes.drop_last());
        match nodes.last() {
            MarkupNode::Text { value, span } => if has_non_text(nodes.drop_last()) && !is_blank_spec(
                value@,
            ) {
                prev.push(error_at(span, DiagnosticKindView::TrailingMarkup))
            } else {
                prev
            },
            _ => prev,
        }
    }
}

/// Reports text that follows the top-level markup.
pub fn trailing_garbage_diagnostics(nodes: &Vec<MarkupNode>) -> (diagnostics: Vec<Diagnostic>)
    ensures
        diagnostics@.map_values(|d: Diagnostic| d@) == trailing_spec(nodes@),
{
    let mut seen_non_text = false;
    let mut diagnostics: Vec<Diagnostic> = Vec::new();
    let mut i: usize = 0;
    assert(nodes@.take(0) =~= Seq::<MarkupNode>::empty());
    while i < nodes.len()
        invariant
            i <= nodes.len(),
            seen_non_text == has_non_text(nodes@.take(i as int)),
            diagnostics@.map_values(|d: Diagnostic| d@) == trailing_spec(nodes@.take(i as int)),
        decreases nodes.len() - i,
    {
        let ghost prefix = nodes@.take(i as int);
        let ghost dv = diagnostics@.map_values(|d: Diagnostic| d@);
        proof {
            assert(nodes@.take(i + 1).drop_last() =~= prefix);
            assert(nodes@.take(i + 1).last() == nodes@[i as int]);
        }
        match &nodes[i] {
            MarkupNode::Text { value, span } => {
                if seen_non_text && !is_blank(value.as_str()) {
                    let d = Diagnostic {
                        level: Level::Error,
                        span: *span,
                        kind: DiagnosticKind::TrailingMarkup,
                    };
                    diagnostics.push(d);
                    assert(diagnostics@.map_values(|d: Diagnostic| d@) =~= dv.push(d@));
                }
                proof {
                    if has_non_text(nodes@.take(i + 1)) {
                        let j = choose|j: int|
                            0 <= j < i + 1 && !(#[trigger] nodes@.take(i + 1)[j] is Text);
                        assert(prefix[j] == nodes@.take(i + 1)[j]);
                    }
                    if has_non_text(prefix) {
                        let j = choose|j: int| 0 <= j < i && !(#[trigger] prefix[j] is Text);
                        assert(nodes@.take(i + 1)[j] == prefix[j]);
                    }
                }
            },
            _ => {
                seen_non_text = true;
                assert(!(nodes@.take(i + 1)[i as int] is Text));
            },
        }
        i = i + 1;
    }
    assert(nodes@.take(nodes@.len() as int) =~= nodes@);
    diagnostics
}

/// The span of the first top-level `,` among the tokens, if any.
pub open spec fn first_comma_spec(tokens: Seq<TokenTree>) -> Option<SrcSpan>
    decreases tokens.len(),
{
    if tokens.len() == 0 {
        None
    } else {
        match tokens[0] {
            TokenTree::Punct { ch, span, .. } => if ch == ',' {
                Some(span)
            } else {
                first_comma_spec(tokens.drop_first())
            },
            _ => first_comma_spec(tokens.drop_first()),
        }
    }
}

/// Why the input of a markup macro was refused.
#[derive(Debug)]
pub enum InputError {
    /// The input does not have the macro's shape: `writer, markup`, or
    /// `writer, context, markup` for the context-aware macros.
    ExpectedForm { mode: MacroMode },
    /// Nothing follows the writer (and context) argument.
    MissingMarkup { mode: MacroMode },
    /// A top-level `,` in the markup, at this span.
    TrailingTokens { span: SrcSpan },
    /// The markup has so many nodes that the names of generated bindings
    /// would run out.
    MarkupTooLarge,
}

/// The message of an input error.
pub open spec fn input_error_message(e: InputError) -> Seq<char> {
    match e {
        InputError::ExpectedForm { mode } => macro_name_spec(mode) + if mode.requires_context_spec() {
            " expects input in the form: writer_expr, context_expr, <markup...>"@
        } else {
            " expects input in the form: writer_expr, <markup...>"@
        },
        InputError::MissingMarkup { mode } => macro_name_spec(mode) + if mode.requires_context_spec() {
            " is missing markup after writer and context arguments"@
        } else {
            " is missing markup after writer argument"@
        },
        InputError::TrailingTokens { .. } => "trailing non-markup tokens after parsed markup are not allowed"@,
        InputError::MarkupTooLarge => "markup has more nodes than generated bindings can be named for"@,
    }
}

impl InputError {
    /// The error's message.
    pub fn message(&self) -> (r: String)
        ensures
            r@ == input_error_message(*self),
    {
        match self {
            InputError::ExpectedForm { mode } => {
                let name = string_of(mode.macro_name());
                if mode.requires_context_arg() {
                    concat_str(&name, " expects input in the form: writer_expr, context_expr, <markup...>")
                } else {
                    concat_str(&name, " expects input in the form: writer_expr, <markup...>")
                }
            },
            InputError::MissingMarkup { mode } => {
                let name = string_of(mode.macro_name());
                if mode.requires_context_arg() {
                    concat_str(&name, " is missing markup after writer and context arguments")
                } else {
                    concat_str(&name, " is missing markup after writer argument")
                }
            },
            InputError::TrailingTokens { .. } => string_of(
                "trailing non-markup tokens after parsed markup are not allowed",
            ),
            InputError::MarkupTooLarge => string_of(
                "markup has more nodes than generated bindings can be named for",
            ),
        }
    }

    /// Where the error points: the offending token, or `None` for the
    /// macro call as a whole.
    pub fn span(&self) -> (r: Option<SrcSpan>)
        ensures
            r == match *self {
                InputError::TrailingTokens { span } => Some(span),
                _ => None,
            },
    {
        match self {
            InputError::TrailingTokens { span } => Some(*span),
            _ => None,
        }
    }
}

/// Refuses markup with a top-level `,`: tokens left over after the markup.
pub fn reject_trailing_markup_garbage(markup_tokens: &Vec<TokenTree>) -> (r: Result<(), InputError>)
    ensures
        match first_comma_spec(markup_tokens@) {
            Some(span) => r matches Err(InputError::TrailingTokens { span: s }) && s == span,
            None => r is Ok,
        },
{
    let mut i: usize = 0;
    assert(markup_tokens@.skip(0) =~= markup_tokens@);
    while i < markup_tokens.len()
        invariant
            i <= markup_tokens.len(),
            first_comma_spec(markup_tokens@) == first_comma_spec(markup_tokens@.skip(i as int)),
        decreases markup_tokens.len() - i,
    {
        proof {
            assert(markup_tokens@.skip(i as int).drop_first() =~= markup_tokens@.skip(i + 1));
            assert(markup_tokens@.skip(i as int)[0] == markup_tokens@[i as int]);
        }
        match &markup_tokens[i] {
            TokenTree::Punct { ch, span, .. } => {
                if *ch == ',' {
                    return Err(InputError::TrailingTokens { span: *span });
                }
            },
            _ => {},
        }
        i = i + 1;
    }
    assert(markup_tokens@.skip(i as int).len() == 0);
    Ok(())
}

/// The macro input split into its parts: the writer expression, the context
/// expression (for the context-aware macros), and the markup tokens.
#[derive(Debug)]
pub struct SplitInput {
    pub writer_expr: ExprRef,
    pub context_expr: Option<ExprRef>,
    pub markup_tokens: Vec<TokenTree>,
}

/// Checked macro input.
#[derive(Debug)]
pub struct ParsedMacroInput {
    pub writer_expr: ExprRef,
    pub context_expr: Option<ExprRef>,
    pub markup_tokens: Vec<TokenTree>,
}

/// Checks the input of a markup macro. `split` is the input split by the
/// macro's shape (`writer, markup` or `writer, context, markup`), or `None`
/// when it does not have that shape.
pub fn parse_macro_input(split: Option<SplitInput>, mode: MacroMode) -> (r: Result<
    ParsedMacroInput,
    InputError,
>)
    ensures
        match split {
            None => r matches Err(InputError::ExpectedForm { mode: m }) && m == mode,
            Some(s) => if (s.context_expr is Some) != mode.requires_context_spec() {
                r matches Err(InputError::ExpectedForm { mode: m }) && m == mode
            } else if s.markup_tokens@.len() == 0 {
                r matches Err(InputError::MissingMarkup { mode: m }) && m == mode
            } else {
                match first_comma_spec(s.markup_tokens@) {
                    Some(span) => r matches Err(InputError::TrailingTokens { span: sp }) && sp
                        == span,
                    None => r matches Ok(p) && p.writer_expr == s.writer_expr && p.context_expr
                        == s.context_expr && p.markup_tokens@ == s.markup_tokens@,
                }
            },
        },
{
    let s = match split {
        None => {
            return Err(InputError::ExpectedForm { mode });
        },
        Some(s) => s,
    };
    if s.context_expr.is_some() != mode.requires_context_arg() {
        return Err(InputError::ExpectedForm { mode });
    }
    if s.markup_tokens.len() == 0 {
        return Err(InputError::MissingMarkup { mode });
    }
    match reject_trailing_markup_garbage(&s.markup_tokens) {
        Err(e) => Err(e),
        Ok(()) => Ok(
            ParsedMacroInput {
                writer_expr: s.writer_expr,
                context_expr: s.context_expr,
                markup_tokens: s.markup_tokens,
            },
        ),
    }
}

/// The writer binding of the generated code.
pub open spec fn writer_binding_spec() -> Seq<char> {
    "__fr_out"@
}

/// The context binding of the generated code.
pub open spec fn context_binding_spec() -> Seq<char> {
    "__fr_ctx"@
}

/// Walks top-level markup with a fresh binding counter and returns the
/// statements (adjacent literal writes merged), diagnostics and symbol
/// hints.
pub fn walk_nodes(
    compile_mode: CompileMode,
    writer_binding: String,
    context_binding: Option<String>,
    nodes: &Vec<MarkupNode>,
) -> (out: WalkNodesOutput)
    requires
        2 * nodes_size(nodes@) <= usize::MAX,
    ensures
        ({
            let wv = walk_nodes_spec(
                nodes@,
                Scope { mode: compile_mode, writer: writer_binding@, context: opt_view(context_binding) },
                0,
            );
            &&& out.stmts() == group(wv.events, writer_binding@)
            &&& out.diagnostics@.map_values(|d: Diagnostic| d@) == wv.diags
            &&& out.component_symbol_hints@.map_values(|h: ComponentSymbolHint| h@) == wv.hints
        }),
{
    let ghost w = writer_binding@;
    let visitor = WalkNodes::new(compile_mode, writer_binding, context_binding);
    let mut counter: usize = 0;
    let walked = visit_nodes(nodes, visitor, &mut counter);
    proof {
        let wv = walk_nodes_spec(nodes@, visitor.scope(), 0);
        assert(walked.events() =~= wv.events);
        assert(walked.diags() =~= wv.diags);
        assert(walked.hints() =~= wv.hints);
    }
    walked.into_output()
}

/// Whether a forest is small enough for the walk's binding counter: twice
/// its node count fits in a `usize`.
pub fn forest_fits(nodes: &Vec<MarkupNode>) -> (r: bool)
    ensures
        r == (2 * nodes_size(nodes@) <= usize::MAX),
{
    match crate::walk::forest_size(nodes) {
        Some(n) => n <= usize::MAX / 2,
        None => false,
    }
}

/// How the generated code binds the context value.
#[derive(Debug)]
pub enum ContextBinding {
    /// No context: the macro is not context-aware.
    Absent,
    /// `let binding = (expr);`.
    Bound { binding: String, expr: ExprRef },
    /// A context-aware expansion without a context expression: an error at
    /// the macro call, then `let binding = ();`.
    MissingExpression { binding: String },
}

/// The plan of a markup macro's expansion. The generated block emits the
/// parser's own errors and then `diagnostics`, refers to each hinted
/// component symbol, binds the writer (`let writer_binding =
/// writer_expr;`) and the context, and runs `statements`: in an `async`
/// block when `is_async`, else in a closure that returns the render result.
#[derive(Debug)]
pub struct Expansion {
    pub diagnostics: Vec<Diagnostic>,
    pub component_symbol_hints: Vec<ComponentSymbolHint>,
    pub writer_binding: String,
    pub writer_expr: ExprRef,
    pub context: ContextBinding,
    pub statements: Vec<Stmt>,
    pub is_async: bool,
}

/// The scope in which top-level markup is walked.
pub open spec fn top_scope(mode: CompileMode) -> Scope {
    Scope {
        mode,
        writer: writer_binding_spec(),
        context: if mode.spec_uses_context() {
            Some(context_binding_spec())
        } else {
            None
        },
    }
}

/// Whether `e` is the expansion of the markup `nodes` with this writer
/// expression, context expression and compile mode: its statements are the
/// canonical statements of the walk's events, its diagnostics the walk's
/// followed by those for trailing text, its hints the walk's; the writer is
/// bound to `__fr_out`, the context (in a context-aware mode) to `__fr_ctx`.
pub open spec fn expansion_spec(
    e: Expansion,
    writer_expr: ExprRef,
    context_expr: Option<ExprRef>,
    nodes: Seq<MarkupNode>,
    compile_mode: CompileMode,
) -> bool {
    let wv = walk_nodes_spec(nodes, top_scope(compile_mode), 0);
    &&& e.diagnostics@.map_values(|d: Diagnostic| d@) == wv.diags + trailing_spec(nodes)
    &&& e.component_symbol_hints@.map_values(|h: ComponentSymbolHint| h@) == wv.hints
    &&& e.statements@.map_values(|s: Stmt| s@) == group(wv.events, writer_binding_spec())
    &&& e.writer_binding@ == writer_binding_spec()
    &&& e.writer_expr == writer_expr
    &&& e.is_async == compile_mode.spec_is_async()
    &&& (!compile_mode.spec_uses_context() ==> e.context is Absent)
    &&& (compile_mode.spec_uses_context() ==> match context_expr {
        Some(x) => e.context matches ContextBinding::Bound { binding, expr } && binding@
            == context_binding_spec() && expr == x,
        None => e.context matches ContextBinding::MissingExpression { binding } && binding@
            == context_binding_spec(),
    })
}

/// Plans the expansion of parsed markup.
pub fn html_ctxner(
    writer_expr: ExprRef,
    context_expr: Option<ExprRef>,
    nodes: &Vec<MarkupNode>,
    compile_mode: CompileMode,
) -> (e: Expansion)
    requires
        2 * nodes_size(nodes@) <= usize::MAX,
    ensures
        expansion_spec(e, writer_expr, context_expr, nodes@, compile_mode),
{
    proof {
        reveal_strlit("__fr_out");
        reveal_strlit("__fr_ctx");
    }
    let trailing = trailing_garbage_diagnostics(nodes);
    let uses_context = compile_mode.uses_context();
    let context_binding = if uses_context {
        Some(string_of("__fr_ctx"))
    } else {
        None
    };
    let WalkNodesOutput { statements, diagnostics: mut diagnostics, component_symbol_hints } =
        walk_nodes(compile_mode, string_of("__fr_out"), context_binding, nodes);
    let ghost dv = diagnostics@.map_values(|d: Diagnostic| d@);
    let mut trailing = trailing;
    diagnostics.append(&mut trailing);
    assert(diagnostics@.map_values(|d: Diagnostic| d@) =~= dv + trailing_spec(nodes@));
    proof {
        crate::emit::lemma_stmts_view(statements@);
        assert(statements@.map_values(|s: Stmt| s@) =~= crate::plan::stmts_view(statements@));
    }
    let context = if uses_context {
        match context_expr {
            Some(expr) => ContextBinding::Bound { binding: string_of("__fr_ctx"), expr },
            None => ContextBinding::MissingExpression { binding: string_of("__fr_ctx") },
        }
    } else {
        ContextBinding::Absent
    };
    Expansion {
        diagnostics,
        component_symbol_hints,
        writer_binding: string_of("__fr_out"),
        writer_expr,
        context,
        statements,
        is_async: compile_mode.is_async(),
    }
}

} // verus!
