//! The macro front end: reading the macros' token input with `syn` and
//! `rstml` into the plain-value model, and planning each macro from it.
use vstd::prelude::*;
use quote::ToTokens;
use syn::spanned::Spanned;
use syn::{Field, FieldMutability, PathSegment, Visibility};
use proc_macro2::Span;
use crate::compile::{
    expansion_spec, first_comma_spec, forest_fits, html_ctxner, parse_macro_input, Expansion, InputError,
    SplitInput,
};
use crate::attrs::{
    attr_arguments, component, component_spec, with_children, AttrError, AttrMacro, ComponentFn, ComponentPlan,
    Param, ParamPat, ParamTy, StructFields, TypePath, TypePathView,
};
use crate::entry::{
    entry_spec, invocation_shape_spec, plan_entry, Entry, EntryError, EntryPlan, HtmlInvocationShape, WrapperView,
};
use crate::modes::MacroMode;
use crate::text::string_of;
use crate::walk::{nodes_size, void_element_names, void_element_seq};
use crate::markup::{
    AttrValue, Attribute, Delimiter, ExprRef, ExprShape, MarkupNode, PathIdent, SrcSpan, StmtShape, TagName,
    TokenTree,
};

verus! {

/// A token stream of `proc-macro2`, known to Verus only by name.
#[verifier::external_type_specification]
#[verifier::external_body]
pub struct ExTokenStream(proc_macro2::TokenStream);

/// A source span of `proc-macro2`, known to Verus only by name.
#[verifier::external_type_specification]
#[verifier::external_body]
pub struct ExProcSpan(proc_macro2::Span);

/// A token group of `proc-macro2`, known to Verus only by name.
#[verifier::external_type_specification]
#[verifier::external_body]
pub struct ExProcGroup(proc_macro2::Group);

/// A Rust type as `syn` parses it, known to Verus only by name.
#[verifier::external_type_specification]
#[verifier::external_body]
pub struct ExSynType(syn::Type);

/// The spans, expressions, types and parse errors behind the handles of a
/// model: a model refers to them by index.
pub struct Handles {
    spans: Vec<proc_macro2::Span>,
    exprs: Vec<proc_macro2::TokenStream>,
    types: Vec<syn::Type>,
    errors: Vec<proc_macro2::TokenStream>,
}

impl Handles {
    /// The number of spans recorded.
    pub closed spec fn span_count(&self) -> nat {
        self.spans@.len()
    }

    /// The number of expressions recorded.
    pub closed spec fn expr_count(&self) -> nat {
        self.exprs@.len()
    }

    /// The parse errors recorded, in order, as the tokens that report them.
    pub closed spec fn error_list(&self) -> Seq<proc_macro2::TokenStream> {
        self.errors@
    }

    /// The number of types recorded.
    pub closed spec fn type_count(&self) -> nat {
        self.types@.len()
    }

    /// The number of parse errors recorded.
    pub closed spec fn error_count(&self) -> nat {
        self.errors@.len()
    }

    /// No handles yet.
    pub fn new() -> (h: Self)
        ensures
            h.span_count() == 0,
            h.expr_count() == 0,
            h.type_count() == 0,
            h.error_count() == 0,
    {
        Handles { spans: Vec::new(), exprs: Vec::new(), types: Vec::new(), errors: Vec::new() }
    }

    /// Records a span and returns its handle.
    pub fn span(&mut self, span: proc_macro2::Span) -> (r: SrcSpan)
        ensures
            r.index == old(self).span_count(),
            final(self).span_count() == old(self).span_count() + 1,
            final(self).expr_count() == old(self).expr_count(),
            final(self).type_count() == old(self).type_count(),
            final(self).error_count() == old(self).error_count(),
            final(self).error_list() == old(self).error_list(),
    {
        let index = self.spans.len();
        self.spans.push(span);
        SrcSpan { index, line: 0, column: 0 }
    }

    /// Records an expression's tokens and returns its handle.
    pub fn expr(&mut self, tokens: proc_macro2::TokenStream) -> (r: ExprRef)
        ensures
            r.index == old(self).expr_count(),
            final(self).span_count() == old(self).span_count(),
            final(self).expr_count() == old(self).expr_count() + 1,
            final(self).type_count() == old(self).type_count(),
            final(self).error_count() == old(self).error_count(),
            final(self).error_list() == old(self).error_list(),
    {
        let index = self.exprs.len();
        self.exprs.push(tokens);
        ExprRef { index }
    }

    /// Records a type and returns its handle.
    pub fn ty(&mut self, ty: syn::Type) -> (r: usize)
        ensures
            r == old(self).type_count(),
            final(self).span_count() == old(self).span_count(),
            final(self).expr_count() == old(self).expr_count(),
            final(self).type_count() == old(self).type_count() + 1,
            final(self).error_count() == old(self).error_count(),
            final(self).error_list() == old(self).error_list(),
    {
        let index = self.types.len();
        self.types.push(ty);
        index
    }

    /// Records a parse error, as the tokens that report it.
    pub fn error(&mut self, tokens: proc_macro2::TokenStream)
        ensures
            final(self).span_count() == old(self).span_count(),
            final(self).expr_count() == old(self).expr_count(),
            final(self).type_count() == old(self).type_count(),
            final(self).error_count() == old(self).error_count() + 1,
            final(self).error_list() == old(self).error_list().push(tokens),
    {
        self.errors.push(tokens);
    }

    /// The span behind a handle.
    pub fn span_at(&self, span: SrcSpan) -> (r: Option<&proc_macro2::Span>)
        ensures
            r is Some <==> span.index < self.span_count(),
    {
        if span.index < self.spans.len() {
            Some(&self.spans[span.index])
        } else {
            None
        }
    }

    /// The expression tokens behind a handle.
    pub fn expr_at(&self, expr: ExprRef) -> (r: Option<&proc_macro2::TokenStream>)
        ensures
            r is Some <==> expr.index < self.expr_count(),
    {
        if expr.index < self.exprs.len() {
            Some(&self.exprs[expr.index])
        } else {
            None
        }
    }

    /// The type behind a handle.
    pub fn type_at(&self, handle: usize) -> (r: Option<&syn::Type>)
        ensures
            r is Some <==> handle < self.type_count(),
    {
        if handle < self.types.len() {
            Some(&self.types[handle])
        } else {
            None
        }
    }

    /// The recorded parse errors, in order.
    pub fn errors(&self) -> (r: &Vec<proc_macro2::TokenStream>)
        ensures
            r@.len() == self.error_count(),
            r@ == self.error_list(),
    {
        &self.errors
    }
}

/// Converts a `proc-macro2` group to the library's token tree, recording
/// spans: its delimiter, its trees and its span.
#[verifier::external_body]
fn group_of(group: &proc_macro2::Group, h: &mut Handles) -> TokenTree {
    let delimiter = match group.delimiter() {
        proc_macro2::Delimiter::Parenthesis => Delimiter::Parenthesis,
        proc_macro2::Delimiter::Brace => Delimiter::Brace,
        proc_macro2::Delimiter::Bracket => Delimiter::Bracket,
        proc_macro2::Delimiter::None => Delimiter::Invisible,
    };
    TokenTree::Group { delimiter, stream: token_trees_of(&group.stream(), h), span: h.span(group.span()) }
}

/// The token trees of a `proc-macro2` token stream, in order, as the
/// library's token trees, recording spans: a group by `group_of`, an
/// identifier's text, a punctuation's character and spacing, a literal's
/// text.
#[verifier::external_body]
fn token_trees_of(tokens: &proc_macro2::TokenStream, h: &mut Handles) -> Vec<TokenTree> {
    let mut out = Vec::new();
    for tree in tokens.clone() {
        out.push(match tree {
            proc_macro2::TokenTree::Group(g) => group_of(&g, h),
            proc_macro2::TokenTree::Ident(i) => TokenTree::Ident { name: i.to_string(), span: h.span(i.span()) },
            proc_macro2::TokenTree::Punct(p) => TokenTree::Punct {
                ch: p.as_char(),
                joint: p.spacing() == proc_macro2::Spacing::Joint,
                span: h.span(p.span()),
            },
            proc_macro2::TokenTree::Literal(l) => TokenTree::Literal { text: l.to_string(), span: h.span(l.span()) },
        });
    }
    out
}

/// An expression as `syn` parses it, known to Verus only by name.
#[verifier::external_type_specification]
#[verifier::external_body]
pub struct ExSynExpr(syn::Expr);

/// A block as `syn` parses it, known to Verus only by name.
#[verifier::external_type_specification]
#[verifier::external_body]
pub struct ExSynBlock(syn::Block);

/// A path as `syn` parses it, known to Verus only by name.
#[verifier::external_type_specification]
#[verifier::external_body]
pub struct ExSynPath(syn::Path);

/// The parse error of `syn`, known to Verus only by name.
#[verifier::external_type_specification]
#[verifier::external_body]
pub struct ExSynError(syn::Error);

/// The input buffer of a `syn` parser, known to Verus only by name.
#[verifier::external_type_specification]
#[verifier::external_body]
pub struct ExParseBuffer<'a>(syn::parse::ParseBuffer<'a>);

/// The identifier of each segment of a `syn` path, with its span.
#[verifier::external_body]
fn path_idents_of(path: &syn::Path, h: &mut Handles) -> Vec<PathIdent> {
    let mut out = Vec::new();
    for segment in path.segments.iter() {
        out.push(PathIdent { name: segment.ident.to_string(), span: h.span(segment.ident.span()) });
    }
    out
}

/// The statements of a `syn` block: an expression statement with its
/// expression and whether a `;` ends it, any other statement as `Other`.
#[verifier::external_body]
fn stmt_shapes_of(block: &syn::Block, h: &mut Handles) -> Vec<StmtShape> {
    let mut out = Vec::new();
    for stmt in block.stmts.iter() {
        out.push(match stmt {
            syn::Stmt::Expr(expr, semi) => StmtShape::Expr { expr: expr_shape_of(expr, h), semicolon: semi.is_some() },
            _ => StmtShape::Other,
        });
    }
    out
}

/// A `syn` expression as the library's `ExprShape`: groups, parentheses,
/// string literals (with their value), paths and blocks kept, any other
/// expression as `Other`.
#[verifier::external_body]
fn expr_shape_of(expr: &syn::Expr, h: &mut Handles) -> ExprShape {
    match expr {
        syn::Expr::Group(g) => ExprShape::Group(Box::new(expr_shape_of(&g.expr, h))),
        syn::Expr::Paren(p) => ExprShape::Paren(Box::new(expr_shape_of(&p.expr, h))),
        syn::Expr::Lit(syn::ExprLit { lit: syn::Lit::Str(s), .. }) => ExprShape::StrLit(s.value()),
        syn::Expr::Path(p) => expr_path_of(p, h),
        syn::Expr::Block(b) => ExprShape::Block { stmts: stmt_shapes_of(&b.block, h) },
        _ => ExprShape::Other,
    }
}

/// A path expression as `syn` parses it, known to Verus only by name.
#[verifier::external_type_specification]
#[verifier::external_body]
pub struct ExSynExprPath(syn::ExprPath);

/// A `syn` path expression as the library's: whether it has a qualified
/// self, whether it starts with `::`, and its segments by `path_idents_of`.
#[verifier::external_body]
fn expr_path_of(p: &syn::ExprPath, h: &mut Handles) -> ExprShape {
    ExprShape::Path { qself: p.qself.is_some(), leading_colon: p.path.leading_colon.is_some(), segments: path_idents_of(&p.path, h) }
}

/// `syn::parse2::<syn::Expr>` on tokens, the parsed expression converted by
/// `expr_shape_of`; `None` when the tokens are not one expression.
#[verifier::external_body]
fn parse_expr_shape(tokens: &proc_macro2::TokenStream, h: &mut Handles) -> Option<ExprShape> {
    match syn::parse2::<syn::Expr>(tokens.clone()) {
        Ok(expr) => Some(expr_shape_of(&expr, h)),
        Err(_) => None,
    }
}

/// A markup node as `rstml` parses it, known to Verus only by name.
#[verifier::external_type_specification]
#[verifier::external_body]
#[verifier::reject_recursive_types(C)]
pub struct ExRstmlNode<C>(rstml::node::Node<C>);

/// The uninhabited custom node of `rstml`, known to Verus only by name.
#[verifier::external_type_specification]
#[verifier::external_body]
pub struct ExRstmlInfallible(rstml::node::Infallible);

/// An element attribute as `rstml` parses it, known to Verus only by name.
#[verifier::external_type_specification]
#[verifier::external_body]
pub struct ExRstmlAttribute(rstml::node::NodeAttribute);

/// A tag or attribute name as `rstml` parses it, known to Verus only by
/// name.
#[verifier::external_type_specification]
#[verifier::external_body]
pub struct ExRstmlName(rstml::node::NodeName);

/// An `rstml` tag name as the library's: its text and span.
#[verifier::external_body]
fn tag_name_of(name: &rstml::node::NodeName, h: &mut Handles) -> TagName {
    TagName { text: name.to_string(), span: h.span(name.span()) }
}

/// A block in markup as `rstml` parses it, known to Verus only by name.
#[verifier::external_type_specification]
#[verifier::external_body]
pub struct ExRstmlBlock(rstml::node::NodeBlock);

/// A `key=value` attribute as `rstml` parses it, known to Verus only by
/// name.
#[verifier::external_type_specification]
#[verifier::external_body]
pub struct ExRstmlKeyed(rstml::node::KeyedAttribute);

/// An element as `rstml` parses it, known to Verus only by name.
#[verifier::external_type_specification]
#[verifier::external_body]
#[verifier::reject_recursive_types(C)]
pub struct ExRstmlElement<C>(rstml::node::NodeElement<C>);

/// An `rstml` block attribute as the library's: its tokens, the expression
/// they parse as, its span and its expression handle.
#[verifier::external_body]
fn block_attribute_of(block: &rstml::node::NodeBlock, h: &mut Handles) -> Attribute {
    let tokens = block.to_token_stream();
    let (parsed, trees) = (parse_expr_shape(&tokens, h), token_trees_of(&tokens, h));
    Attribute::Block { parsed, tokens: trees, span: h.span(block.span()), block: h.expr(tokens) }
}

/// An `rstml` keyed attribute as the library's: its key with its span, and
/// its value's shape, span and expression handle.
#[verifier::external_body]
fn keyed_attribute_of(keyed: &rstml::node::KeyedAttribute, h: &mut Handles) -> Attribute {
    let value = match keyed.value() {
        Some(v) => Some(AttrValue { shape: expr_shape_of(v, h), span: h.span(v.span()), expr: h.expr(v.to_token_stream()) }),
        None => None,
    };
    Attribute::Keyed { key: keyed.key.to_string(), key_span: h.span(keyed.key.span()), value }
}

/// An `rstml` attribute as the library's, by `block_attribute_of` or
/// `keyed_attribute_of`.
#[verifier::external_body]
fn attribute_of(attribute: &rstml::node::NodeAttribute, h: &mut Handles) -> Attribute {
    match attribute {
        rstml::node::NodeAttribute::Block(block) => block_attribute_of(block, h),
        rstml::node::NodeAttribute::Attribute(keyed) => keyed_attribute_of(keyed, h),
    }
}

/// The attributes of an `rstml` element, in order, by `attribute_of`.
#[verifier::external_body]
fn attributes_of(attributes: &[rstml::node::NodeAttribute], h: &mut Handles) -> Vec<Attribute> {
    let mut out = Vec::new();
    for attribute in attributes.iter() {
        out.push(attribute_of(attribute, h));
    }
    out
}

/// An `rstml` node as the library's: a doctype's value text, a text's
/// value, raw text's best text, a fragment's children, a comment's token
/// text, a block's tokens, an element's name, attributes and children.
#[verifier::external_body]
fn node_of(node: &rstml::node::Node, h: &mut Handles) -> MarkupNode {
    match node {
        rstml::node::Node::Element(e) => element_of(e, h),
        rstml::node::Node::Fragment(f) => MarkupNode::Fragment { children: nodes_of(&f.children, h) },
        rstml::node::Node::Block(b) => MarkupNode::Block { block: h.expr(b.to_token_stream()) },
        rstml::node::Node::Text(t) => MarkupNode::Text { value: t.value_string(), span: h.span(t.span()) },
        other => leaf_node_of(other),
    }
}

/// An `rstml` doctype, raw text or comment as the library's (the
/// uninhabited custom node as empty raw text).
#[verifier::external_body]
fn leaf_node_of(node: &rstml::node::Node) -> MarkupNode {
    match node {
        rstml::node::Node::Doctype(d) => MarkupNode::Doctype { value: d.value.to_token_stream_string() },
        rstml::node::Node::RawText(r) => MarkupNode::RawText { text: r.to_string_best() },
        rstml::node::Node::Comment(c) => MarkupNode::Comment { text: c.value.to_token_stream().to_string() },
        _ => MarkupNode::RawText { text: String::new() },
    }
}

/// An `rstml` element as the library's: its name, attributes and children.
#[verifier::external_body]
fn element_of(e: &rstml::node::NodeElement<rstml::node::Infallible>, h: &mut Handles) -> MarkupNode {
    MarkupNode::Element { name: tag_name_of(e.name(), h), attributes: attributes_of(e.attributes(), h), children: nodes_of(&e.children, h) }
}

/// `rstml` nodes, in order, by `node_of`.
#[verifier::external_body]
fn nodes_of(nodes: &Vec<rstml::node::Node>, h: &mut Handles) -> Vec<MarkupNode> {
    let mut out = Vec::new();
    for node in nodes.iter() {
        out.push(node_of(node, h));
    }
    out
}

/// The token input of a macro: the token stream together with its token
/// trees as the library's model, converted once by `token_trees_of` when
/// the input is read. Contracts speak of the model. The fields are private:
/// every value is made by reading a stream or by splitting one, so the
/// trees are always those of the stream.
pub struct Tokens {
    stream: proc_macro2::TokenStream,
    trees: Vec<TokenTree>,
}

/// Reads a token stream, converting its trees by `token_trees_of`.
#[verifier::external_body]
fn read_tokens(stream: proc_macro2::TokenStream, h: &mut Handles) -> Tokens {
    let trees = token_trees_of(&stream, h);
    Tokens { stream, trees }
}

impl Tokens {
    /// The token trees of the input.
    pub closed spec fn model(&self) -> Seq<TokenTree> {
        self.trees@
    }

    /// Reads a macro's token input, recording the spans of its tokens.
    pub fn new(stream: proc_macro2::TokenStream, h: &mut Handles) -> (r: Tokens) {
        read_tokens(stream, h)
    }

    /// The token trees of the input.
    pub fn trees(&self) -> (r: &Vec<TokenTree>)
        ensures
            r@ == self.model(),
    {
        &self.trees
    }

    /// Splits the input at `at`: the trees before it stay, the trees from
    /// it on are returned, each with its part of the stream
    /// (`Vec::split_off` on the stream's top-level trees and on the model).
    #[verifier::external_body]
    fn split_off(&mut self, at: usize) -> (r: Tokens)
        requires
            at <= old(self).model().len(),
        ensures
            final(self).model() == old(self).model().take(at as int),
            r.model() == old(self).model().skip(at as int),
    {
        let mut trees: Vec<proc_macro2::TokenTree> = self.stream.clone().into_iter().collect();
        let tail = trees.split_off(at);
        self.stream = trees.into_iter().collect();
        Tokens { stream: tail.into_iter().collect(), trees: self.trees.split_off(at) }
    }

    /// A copy of the token stream.
    #[verifier::external_body]
    fn stream(&self) -> proc_macro2::TokenStream {
        self.stream.clone()
    }

    /// The input as a token stream that keeps its trees as a ghost model,
    /// and the trees themselves.
    pub fn into_parts(self) -> (r: (Stream, Vec<TokenTree>))
        ensures
            r.0.model() == self.model(),
            r.1@ == self.model(),
    {
        let Tokens { stream, trees } = self;
        let ghost model = trees@;
        (Stream { stream, model: Ghost(model) }, trees)
    }
}

/// A token stream with the token trees it was read as, kept as a ghost
/// model once the trees themselves have been handed on.
pub struct Stream {
    stream: proc_macro2::TokenStream,
    model: Ghost<Seq<TokenTree>>,
}

impl Stream {
    /// The token trees of the stream.
    pub closed spec fn model(&self) -> Seq<TokenTree> {
        self.model@
    }
}

/// What `syn` makes of token trees read as a leading expression: when a
/// prefix of them parses as one `syn::Expr` (as `syn` reads it, with the
/// rest left unread), the number of trees after that prefix; `None` when no
/// prefix does. `syn` reads identifiers, punctuation with its spacing,
/// literals by their text and groups by their delimiters, all of which the
/// trees hold; spans play no part.
pub uninterp spec fn syn_expr_rest_len(trees: Seq<TokenTree>) -> Option<nat>;

/// A `syn` parser that reads one expression and counts the token trees
/// left after it.
#[verifier::external_body]
fn leading_expr(input: syn::parse::ParseStream<'_>) -> syn::Result<usize> {
    let _: syn::Expr = input.parse()?;
    let rest: proc_macro2::TokenStream = input.parse()?;
    Ok(rest.into_iter().count())
}

/// Runs `leading_expr` on the input with `syn::parse::Parser::parse2`.
#[verifier::external_body]
fn expr_rest_len(t: &Tokens) -> (r: Option<usize>)
    ensures
        (r is Some) == (syn_expr_rest_len(t.model()) is Some),
        r matches Some(n) ==> syn_expr_rest_len(t.model()) == Some(n as nat),
{
    syn::parse::Parser::parse2(leading_expr, t.stream.clone()).ok()
}

/// How many leading trees form an expression, per `syn_expr_rest_len`.
pub open spec fn leading_expr_len(trees: Seq<TokenTree>) -> Option<nat> {
    match syn_expr_rest_len(trees) {
        Some(rest) => if rest <= trees.len() {
            Some((trees.len() - rest) as nat)
        } else {
            None
        },
        None => None,
    }
}

/// `leading_expr_len` as a machine integer.
pub open spec fn leading_expr_len_usize(trees: Seq<TokenTree>) -> Option<usize> {
    match leading_expr_len(trees) {
        Some(n) => Some(n as usize),
        None => None,
    }
}

/// How many leading trees of the input form an expression.
fn leading_len(t: &Tokens) -> (r: Option<usize>)
    ensures
        r == leading_expr_len_usize(t.model()),
        r matches Some(n) ==> leading_expr_len(t.model()) == Some(n as nat),
{
    match expr_rest_len(t) {
        Some(rest) => {
            let len = t.trees().len();
            if rest <= len {
                Some(len - rest)
            } else {
                None
            }
        },
        None => None,
    }
}

/// Whether the tree at `i` is a `,`.
pub open spec fn is_comma_at(trees: Seq<TokenTree>, i: int) -> bool {
    0 <= i < trees.len() && (trees[i] matches TokenTree::Punct { ch, .. } && ch == ',')
}

/// Whether the tree at `i` is a `,`.
fn comma_at(trees: &Vec<TokenTree>, i: usize) -> (r: bool)
    ensures
        r == is_comma_at(trees@, i as int),
{
    if i >= trees.len() {
        return false;
    }
    match &trees[i] {
        TokenTree::Punct { ch, .. } => *ch == ',',
        _ => false,
    }
}

/// Where a markup macro's input splits into `writer, markup`, or `writer,
/// context, markup` when `with_context`: the writer's length, the
/// context's start and length, and where the markup starts. Each argument
/// is the leading expression that `syn` reads, followed by a `,`. `None`
/// when the input has another shape.
pub open spec fn split_points(trees: Seq<TokenTree>, with_context: bool) -> Option<(nat, Option<(nat, nat)>, nat)> {
    match leading_expr_len(trees) {
        None => None,
        Some(w) => if !is_comma_at(trees, w as int) {
            None
        } else if !with_context {
            Some((w, None, (w + 1) as nat))
        } else {
            let rest = trees.skip((w + 1) as int);
            match leading_expr_len(rest) {
                None => None,
                Some(c) => if !is_comma_at(rest, c as int) {
                    None
                } else {
                    Some((w, Some(((w + 1) as nat, c)), (w + 1 + c + 1) as nat))
                },
            }
        },
    }
}

/// Whether a split input is the one the split points give: the writer
/// (and the context) recorded as the next expression handles, and the
/// markup the trees after the last `,`.
pub open spec fn split_matches(
    s: SplitInput,
    markup: Seq<TokenTree>,
    trees: Seq<TokenTree>,
    points: (nat, Option<(nat, nat)>, nat),
    exprs: nat,
) -> bool {
    &&& s.writer_expr.index == exprs
    &&& (s.context_expr is Some) == (points.1 is Some)
    &&& (s.context_expr matches Some(c) ==> c.index == exprs + 1)
    &&& s.markup_tokens@ == trees.skip(points.2 as int)
    &&& markup == trees.skip(points.2 as int)
}

/// Splits a markup macro's input at `split_points`, recording the writer
/// and context expressions; returns the split and the markup.
pub fn split_macro_input(input: Tokens, with_context: bool, h: &mut Handles) -> (r: Option<(SplitInput, Stream)>)
    ensures
        match split_points(input.model(), with_context) {
            None => r is None,
            Some(points) => r matches Some((s, markup)) && split_matches(
                s,
                markup.model(),
                input.model(),
                points,
                old(h).expr_count(),
            ),
        },
        final(h).span_count() == old(h).span_count(),
        final(h).error_list() == old(h).error_list(),
        r is None ==> final(h).expr_count() == old(h).expr_count(),
        r is Some ==> final(h).expr_count() == old(h).expr_count() + if with_context {
            2nat
        } else {
            1nat
        },
{
    let ghost trees = input.model();
    let mut writer = input;
    let w = match leading_len(&writer) {
        Some(w) => w,
        None => {
            return None;
        },
    };
    if !comma_at(writer.trees(), w) {
        return None;
    }
    let mut rest = writer.split_off(w);
    let after = rest.split_off(1);
    assert(after.model() =~= trees.skip(w + 1));
    if !with_context {
        let writer_expr = h.expr(writer.stream());
        let (markup, markup_tokens) = after.into_parts();
        return Some((SplitInput { writer_expr, context_expr: None, markup_tokens }, markup));
    }
    let mut context = after;
    let c = match leading_len(&context) {
        Some(c) => c,
        None => {
            return None;
        },
    };
    if !comma_at(context.trees(), c) {
        return None;
    }
    let mut rest = context.split_off(c);
    let markup = rest.split_off(1);
    assert(markup.model() =~= trees.skip(w + 1 + c + 1));
    let writer_expr = h.expr(writer.stream());
    let context_expr = Some(h.expr(context.stream()));
    let (markup, markup_tokens) = markup.into_parts();
    Some((SplitInput { writer_expr, context_expr, markup_tokens }, markup))
}

/// Whether two forests are the same but for the text of raw-text nodes.
pub open spec fn same_but_raw_text(a: Seq<MarkupNode>, b: Seq<MarkupNode>) -> bool
    decreases a,
{
    a.len() == b.len() && (a.len() == 0 || (same_but_raw_text(
        a.subrange(0, a.len() - 1),
        b.subrange(0, b.len() - 1),
    ) && node_same_but_raw_text(a[a.len() - 1], b[b.len() - 1])))
}

/// Whether two nodes are the same but for the text of raw-text nodes.
pub open spec fn node_same_but_raw_text(a: MarkupNode, b: MarkupNode) -> bool
    decreases a,
{
    match a {
        MarkupNode::RawText { .. } => b is RawText,
        MarkupNode::Fragment { children } => b matches MarkupNode::Fragment { children: d } && same_but_raw_text(
            children@,
            d@,
        ),
        MarkupNode::Element { name, attributes, children } => b matches MarkupNode::Element {
            name: n,
            attributes: at,
            children: d,
        } && name == n && attributes == at && same_but_raw_text(children@, d@),
        _ => a == b,
    }
}

/// What `rstml`'s recovering parser makes of markup token trees, given the
/// void elements and the raw-text elements, converted by `nodes_of` with
/// span and expression handles numbered from the given counts. The text of
/// a raw-text node is read from the source text where the compiler keeps
/// it, so it is no function of the trees: `parse_markup` states its nodes
/// only up to that text.
pub uninterp spec fn rstml_nodes(
    trees: Seq<TokenTree>,
    void_elements: Seq<Seq<char>>,
    raw_text_elements: Seq<Seq<char>>,
    span_base: nat,
    expr_base: nat,
) -> Seq<MarkupNode>;

/// How many errors `rstml`'s recovering parser reports on markup token
/// trees, given the void elements and the raw-text elements.
pub uninterp spec fn rstml_error_count(
    trees: Seq<TokenTree>,
    void_elements: Seq<Seq<char>>,
    raw_text_elements: Seq<Seq<char>>,
) -> nat;

/// Parses markup with `rstml`'s recovering parser, configured with the
/// void elements (closed without a closing tag) and the raw-text elements;
/// records the parser's errors in the handles and returns the nodes by
/// `nodes_of`.
#[verifier::external_body]
fn parse_markup(
    markup: &Stream,
    void_elements: &Vec<&'static str>,
    raw_text_elements: &Vec<&'static str>,
    h: &mut Handles,
) -> (r: Vec<MarkupNode>)
    ensures
        same_but_raw_text(
            r@,
            rstml_nodes(
                markup.model(),
                void_elements@.map_values(|s: &'static str| s@),
                raw_text_elements@.map_values(|s: &'static str| s@),
                old(h).span_count(),
                old(h).expr_count(),
            ),
        ),
        final(h).error_count() == old(h).error_count() + rstml_error_count(
            markup.model(),
            void_elements@.map_values(|s: &'static str| s@),
            raw_text_elements@.map_values(|s: &'static str| s@),
        ),
        final(h).error_list().take(old(h).error_count() as int) == old(h).error_list(),
{
    let config = rstml::ParserConfig::new()
        .recover_block(true)
        .always_self_closed_elements(void_elements.iter().copied().collect())
        .raw_text_elements(raw_text_elements.iter().copied().collect());
    let (nodes, errors) = rstml::Parser::new(config).parse_recoverable(markup.stream.clone()).split_vec();
    for error in errors {
        h.error(error.emit_as_expr_tokens());
    }
    nodes_of(&nodes, h)
}

/// The elements whose content the markup parser keeps as raw text.
pub open spec fn raw_text_element_seq() -> Seq<Seq<char>> {
    seq!["script"@, "style"@]
}

/// The elements whose content the markup parser keeps as raw text.
pub fn raw_text_element_names() -> (r: Vec<&'static str>)
    ensures
        r@.map_values(|s: &'static str| s@) == raw_text_element_seq(),
{
    proof {
        reveal_strlit("script");
        reveal_strlit("style");
    }
    let r = vec!["script", "style"];
    assert(r@.map_values(|s: &'static str| s@) =~= raw_text_element_seq());
    r
}

/// What a markup macro plans for the nodes its markup parses as, up to
/// raw text: the expansion of those nodes, unless they are too many to name.
pub open spec fn parsed_markup_outcome(
    r: Result<Expansion, InputError>,
    parsed: Seq<MarkupNode>,
    writer: ExprRef,
    context: Option<ExprRef>,
    mode: MacroMode,
) -> bool {
    exists|nodes: Seq<MarkupNode>|
        #[trigger] same_but_raw_text(nodes, parsed) && if 2 * nodes_size(nodes) <= usize::MAX {
            r matches Ok(e) && expansion_spec(e, writer, context, nodes, mode.spec_compile_mode())
        } else {
            r == Err::<Expansion, InputError>(InputError::MarkupTooLarge)
        }
}

/// What a markup macro plans for its input's token trees, with handles
/// numbered from the given counts: the input must split at
/// `split_points`; then it is checked as `parse_macro_input` checks it; then
/// the markup after the split is parsed (`rstml_nodes`, up to raw text) and
/// planned (`expansion_spec`) unless it has too many nodes to name.
pub open spec fn markup_outcome(
    r: Result<Expansion, InputError>,
    trees: Seq<TokenTree>,
    mode: MacroMode,
    spans: nat,
    exprs: nat,
) -> bool {
    match split_points(trees, mode.requires_context_spec()) {
        None => r == Err::<Expansion, InputError>(InputError::ExpectedForm { mode }),
        Some((w, c, m)) => {
            let markup = trees.skip(m as int);
            let writer = ExprRef { index: exprs as usize };
            let context = match c {
                Some(_) => Some(ExprRef { index: (exprs + 1) as usize }),
                None => None,
            };
            let expr_base = if c is Some {
                exprs + 2
            } else {
                exprs + 1
            };
            if markup.len() == 0 {
                r == Err::<Expansion, InputError>(InputError::MissingMarkup { mode })
            } else {
                match first_comma_spec(markup) {
                    Some(span) => r == Err::<Expansion, InputError>(InputError::TrailingTokens { span }),
                    None => {
                        parsed_markup_outcome(
                            r,
                            rstml_nodes(markup, void_element_seq(), raw_text_element_seq(), spans, expr_base as nat),
                            writer,
                            context,
                            mode,
                        )
                    },
                }
            }
        },
    }
}

/// How many parse errors a markup macro records for its input: those of
/// the markup parser when the input gets as far as being parsed, none
/// otherwise.
pub open spec fn markup_error_count(trees: Seq<TokenTree>, mode: MacroMode) -> nat {
    match split_points(trees, mode.requires_context_spec()) {
        None => 0,
        Some((w, c, m)) => {
            let markup = trees.skip(m as int);
            if markup.len() == 0 || first_comma_spec(markup) is Some {
                0
            } else {
                rstml_error_count(markup, void_element_seq(), raw_text_element_seq())
            }
        },
    }
}

/// Plans a markup macro: splits its input, checks it (`parse_macro_input`),
/// parses the markup, and plans the expansion (`html_ctxner`). The markup
/// parser's errors are recorded in the handles, after those recorded
/// before, for the expansion to report ahead of its own diagnostics.
pub fn plan_markup_macro(input: Tokens, mode: MacroMode, h: &mut Handles) -> (r: Result<Expansion, InputError>)
    ensures
        markup_outcome(r, input.model(), mode, old(h).span_count(), old(h).expr_count()),
        final(h).error_count() == old(h).error_count() + markup_error_count(input.model(), mode),
        final(h).error_list().take(old(h).error_count() as int) == old(h).error_list(),
{
    let ghost spans = h.span_count();
    let ghost exprs = h.expr_count();
    let ghost trees = input.model();
    let (split, markup) = match split_macro_input(input, mode.requires_context_arg(), h) {
        Some(parts) => parts,
        None => {
            return Err(InputError::ExpectedForm { mode });
        },
    };
    let parsed = match parse_macro_input(Some(split), mode) {
        Ok(parsed) => parsed,
        Err(e) => {
            return Err(e);
        },
    };
    let void_elements = void_element_names();
    let raw_text_elements = raw_text_element_names();
    let nodes = parse_markup(&markup, &void_elements, &raw_text_elements, h);
    let ghost points = split_points(trees, mode.requires_context_spec()).unwrap();
    let ghost expr_base = if points.1 is Some {
        exprs + 2
    } else {
        exprs + 1
    };
    let ghost parsed_nodes = rstml_nodes(
        trees.skip(points.2 as int),
        void_element_seq(),
        raw_text_element_seq(),
        spans,
        expr_base as nat,
    );
    assert(same_but_raw_text(nodes@, parsed_nodes));
    assert(parsed.writer_expr == ExprRef { index: exprs as usize });
    assert(parsed.context_expr == match points.1 {
        Some(_) => Some(ExprRef { index: (exprs + 1) as usize }),
        None => None,
    });
    assert(trees.skip(points.2 as int).len() != 0);
    assert(first_comma_spec(trees.skip(points.2 as int)) is None);
    if !forest_fits(&nodes) {
        assert(parsed_markup_outcome(Err(InputError::MarkupTooLarge), parsed_nodes, parsed.writer_expr, parsed.context_expr, mode)) by {
            assert(same_but_raw_text(nodes@, parsed_nodes) && !(2 * nodes_size(nodes@) <= usize::MAX));
        }
        return Err(InputError::MarkupTooLarge);
    }
    let e = html_ctxner(parsed.writer_expr, parsed.context_expr, &nodes, mode.compile_mode());
    assert(parsed_markup_outcome(Ok(e), parsed_nodes, parsed.writer_expr, parsed.context_expr, mode)) by {
        assert(same_but_raw_text(nodes@, parsed_nodes) && 2 * nodes_size(nodes@) <= usize::MAX);
    }
    Ok(e)
}

/// A function signature as `syn` parses it, known to Verus only by name.
#[verifier::external_type_specification]
#[verifier::external_body]
pub struct ExSynSignature(syn::Signature);

/// A function parameter as `syn` parses it, known to Verus only by name.
#[verifier::external_type_specification]
#[verifier::external_body]
pub struct ExSynFnArg(syn::FnArg);

/// A pattern as `syn` parses it, known to Verus only by name.
#[verifier::external_type_specification]
#[verifier::external_body]
pub struct ExSynPat(syn::Pat);

/// A struct item as `syn` parses it, known to Verus only by name.
#[verifier::external_type_specification]
#[verifier::external_body]
pub struct ExSynItemStruct(syn::ItemStruct);

/// The path of a `syn` type when it is a path type: whether it has a
/// qualified self, whether it starts with `::`, and its segments'
/// identifiers; `None` for any other type.
#[verifier::external_body]
fn type_path_of(ty: &syn::Type) -> Option<TypePath> {
    match ty {
        syn::Type::Path(p) => Some(TypePath {
            qself: p.qself.is_some(),
            leading_colon: p.path.leading_colon.is_some(),
            segments: p.path.segments.iter().map(|s| s.ident.to_string()).collect(),
        }),
        _ => None,
    }
}

/// A `syn` pattern as the library's: a plain binding by its name, any
/// other pattern as `Other`, with its span.
#[verifier::external_body]
fn pat_of(pat: &syn::Pat, h: &mut Handles) -> ParamPat {
    match pat {
        syn::Pat::Ident(i) => ParamPat::Ident { name: i.ident.to_string(), span: h.span(i.span()) },
        other => ParamPat::Other { span: h.span(other.span()) },
    }
}

/// A `syn` function parameter as the library's: a receiver with its span,
/// or a typed pattern with its type (recorded, with its span and its path
/// by `type_path_of`).
#[verifier::external_body]
fn param_of(arg: &syn::FnArg, h: &mut Handles) -> Param {
    match arg {
        syn::FnArg::Receiver(r) => Param::Receiver { span: h.span(r.span()) },
        syn::FnArg::Typed(t) => Param::Typed {
            pat: pat_of(&t.pat, h),
            ty: ParamTy { path: type_path_of(&t.ty), span: h.span(t.ty.span()), handle: h.ty((*t.ty).clone()) },
            span: h.span(t.span()),
        },
    }
}

/// A function's return type as `syn` parses it, known to Verus only by
/// name.
#[verifier::external_type_specification]
#[verifier::external_body]
pub struct ExSynReturnType(syn::ReturnType);

/// The return type of a signature, recorded, if it has one.
#[verifier::external_body]
fn return_type_of(output: &syn::ReturnType, h: &mut Handles) -> Option<usize> {
    match output {
        syn::ReturnType::Default => None,
        syn::ReturnType::Type(_, ty) => Some(h.ty((**ty).clone())),
    }
}

/// A `syn` signature as the library's model of a component function: its
/// generics, name, asyncness, parameters by `param_of` and return type,
/// recording spans and types.
#[verifier::external_body]
fn component_fn_of(sig: &syn::Signature, h: &mut Handles) -> ComponentFn {
    let mut inputs = Vec::new();
    for arg in sig.inputs.iter() {
        inputs.push(param_of(arg, h));
    }
    let output = return_type_of(&sig.output, h);
    let (generics_empty, generics_span) = (sig.generics.params.is_empty(), h.span(sig.generics.span()));
    let (name, name_span) = (sig.ident.to_string(), h.span(sig.ident.span()));
    ComponentFn { generics_empty, generics_span, name, name_span, is_async: sig.asyncness.is_some(), inputs, inputs_span: h.span(sig.inputs.span()), output }
}

/// What `syn` makes of token trees read as a function item: `None` when
/// they do not parse as a `syn::ItemFn`; otherwise its signature converted
/// by `component_fn_of`, with span and type handles numbered from the
/// given counts.
pub uninterp spec fn syn_item_fn(trees: Seq<TokenTree>, span_base: nat, type_base: nat) -> Option<ComponentFn>;

/// `syn::parse2::<syn::ItemFn>` on an item, its signature by
/// `component_fn_of`; on a parse error, the error's tokens are recorded in
/// the handles and the result is `None`.
#[verifier::external_body]
fn parse_item_fn(item: &Tokens, h: &mut Handles) -> (r: Option<ComponentFn>)
    ensures
        r == syn_item_fn(item.model(), old(h).span_count(), old(h).type_count()),
        r is None ==> final(h).error_count() == old(h).error_count() + 1,
{
    match syn::parse2::<syn::ItemFn>(item.stream.clone()) {
        Ok(f) => Some(component_fn_of(&f.sig, h)),
        Err(e) => {
            h.error(e.to_compile_error());
            None
        },
    }
}

/// What `#[component]` plans for an item, given what the item parses as.
pub open spec fn component_item_outcome(
    r: Result<ComponentPlan, AttrError>,
    attr_is_empty: bool,
    parsed: Option<ComponentFn>,
) -> bool {
    if !attr_is_empty {
        r == Err::<ComponentPlan, AttrError>(AttrError::UnexpectedArguments { attr: AttrMacro::Component })
    } else {
        match parsed {
            None => r == Err::<ComponentPlan, AttrError>(AttrError::UnparsableItem { attr: AttrMacro::Component }),
            Some(f) => match component_spec(true, f) {
                Ok(plan) => r matches Ok(p) && p@ == plan,
                Err(e) => r == Err::<ComponentPlan, AttrError>(e),
            },
        }
    }
}

/// Plans `#[component]` on the tokens of the item it decorates: refuses
/// arguments, parses the item as a function and plans it (`component`).
pub fn plan_component_item(attr_is_empty: bool, item: &Tokens, h: &mut Handles) -> (r: Result<
    ComponentPlan,
    AttrError,
>)
    ensures
        component_item_outcome(r, attr_is_empty, syn_item_fn(item.model(), old(h).span_count(), old(h).type_count())),
{
    if let Err(e) = attr_arguments(AttrMacro::Component, attr_is_empty) {
        return Err(e);
    }
    let function = match parse_item_fn(item, h) {
        Some(f) => f,
        None => {
            return Err(AttrError::UnparsableItem { attr: AttrMacro::Component });
        },
    };
    component(attr_is_empty, &function)
}

/// The field names of a struct's fields, when they are named.
pub open spec fn fields_view(f: StructFields) -> Option<Seq<Seq<char>>> {
    match f {
        StructFields::Named { names } => Some(names@.map_values(|s: String| s@)),
        _ => None,
    }
}

/// A named field of a struct: its name, whether it is `pub`, and the path
/// of its type when its type is a path.
#[derive(Debug)]
pub struct FieldInfo {
    pub name: String,
    pub public: bool,
    pub ty: Option<TypePath>,
}

/// View of a field.
pub struct FieldInfoView {
    pub name: Seq<char>,
    pub public: bool,
    pub ty: Option<TypePathView>,
}

impl View for FieldInfo {
    type V = FieldInfoView;

    open spec fn view(&self) -> FieldInfoView {
        FieldInfoView {
            name: self.name@,
            public: self.public,
            ty: match self.ty {
                Some(t) => Some(t@),
                None => None,
            },
        }
    }
}

/// What `syn` makes of token trees read as a struct item: `None` when they
/// do not parse as a `syn::ItemStruct`; otherwise its fields by
/// `struct_model_of`: their kind with the names of named fields, and each
/// named field's name, `pub` and type path.
pub uninterp spec fn syn_struct_item(trees: Seq<TokenTree>) -> Option<(StructFields, Seq<FieldInfoView>)>;

/// A struct field as `syn` parses it, known to Verus only by name.
#[verifier::external_type_specification]
#[verifier::external_body]
pub struct ExSynField(syn::Field);

/// A field to add to a struct: the `syn` field, and the plain values it was
/// built from. The fields are private: a value is made only by `field_of`.
pub struct NewField {
    field: syn::Field,
    info: FieldInfo,
}

impl NewField {
    /// The field as plain values.
    pub closed spec fn info(&self) -> FieldInfoView {
        self.info@
    }
}

/// Builds the field `name: ty` (with `pub` when `public`) whose type is the
/// path `ty` (no qualified self); `syn` prints the `:` of a named field
/// without a colon token of its own.
#[verifier::external_body]
fn field_of(name: String, public: bool, ty: TypePath) -> (r: NewField)
    requires
        plain_ident_spec(name@),
        !ty.qself,
        forall|i: int| 0 <= i < ty.segments@.len() ==> plain_ident_spec((#[trigger] ty.segments@[i])@),
    ensures
        r.info() == (FieldInfoView { name: name@, public, ty: Some(ty@) }),
{
    let ident = |s: &str| syn::Ident::new(s, Span::call_site());
    let segments = ty.segments.iter().map(|s| PathSegment::from(ident(s))).collect();
    let leading_colon = if ty.leading_colon { Some(Default::default()) } else { None };
    let path = syn::Path { leading_colon, segments };
    let vis = if public { Visibility::Public(Default::default()) } else { Visibility::Inherited };
    let ty_path = syn::Type::Path(syn::TypePath { qself: None, path });
    let field = Field { attrs: vec![], vis, mutability: FieldMutability::None, ident: Some(ident(&name)), colon_token: None, ty: ty_path };
    NewField { field, info: FieldInfo { name, public, ty: Some(ty) } }
}

/// A struct item, with its fields as the library reads them
/// (`struct_model_of`). The fields are private: a value is made only by
/// `parse_item_struct` and changed only by `push_named_field`, which keep
/// the struct and its models in step.
pub struct StructItem {
    item: syn::ItemStruct,
    fields: StructFields,
    infos: Vec<FieldInfo>,
}

impl StructItem {
    /// The names of the struct's fields, when they are named.
    pub closed spec fn field_names(&self) -> Option<Seq<Seq<char>>> {
        fields_view(self.fields)
    }

    /// The struct's named fields: name, `pub` and type path of each, in
    /// order.
    pub closed spec fn fields_model(&self) -> Seq<FieldInfoView> {
        self.infos@.map_values(|f: FieldInfo| f@)
    }

    /// The struct.
    pub fn item(&self) -> &syn::ItemStruct {
        &self.item
    }

    /// Appends a field, last, to a struct with named fields; a struct of
    /// another kind is left as it is.
    #[verifier::external_body]
    fn push_named_field(&mut self, new_field: NewField)
        ensures
            final(self).field_names() == match old(self).field_names() {
                Some(names) => Some(names.push(new_field.info().name)),
                None => None,
            },
            final(self).fields_model() == if old(self).field_names() is Some {
                old(self).fields_model().push(new_field.info())
            } else {
                old(self).fields_model()
            },
    {
        if let (syn::Fields::Named(named), StructFields::Named { names }) = (&mut self.item.fields, &mut self.fields) {
            named.named.push(new_field.field);
            names.push(new_field.info.name.clone());
            self.infos.push(new_field.info);
        }
    }
}

/// `syn::parse2::<syn::ItemStruct>` on an item, with its fields by
/// `struct_model_of`; on a parse error, the error's tokens are recorded in
/// the handles and the result is `None`.
#[verifier::external_body]
fn parse_item_struct(item: &Tokens, h: &mut Handles) -> (r: Option<StructItem>)
    ensures
        match syn_struct_item(item.model()) {
            None => r is None,
            Some((f, infos)) => r matches Some(s) && s.field_names() == fields_view(f) && s.fields_model()
                == infos,
        },
        r is None ==> final(h).error_count() == old(h).error_count() + 1,
{
    match syn::parse2::<syn::ItemStruct>(item.stream.clone()) {
        Ok(s) => {
            let (fields, infos) = struct_model_of(&s);
            Some(StructItem { item: s, fields, infos })
        },
        Err(e) => {
            h.error(e.to_compile_error());
            None
        },
    }
}

/// The fields of a `syn` struct: named fields by their identifiers, in
/// order, with each one's name, `pub` (`syn::Visibility::Public`) and type
/// path (by `type_path_of`); tuple fields; or none.
#[verifier::external_body]
fn struct_model_of(item: &syn::ItemStruct) -> (StructFields, Vec<FieldInfo>) {
    match &item.fields {
        syn::Fields::Named(named) => {
            let name = |f: &syn::Field| f.ident.to_token_stream().to_string();
            let names = named.named.iter().map(name).collect();
            let info = |f: &syn::Field| FieldInfo { name: name(f), public: matches!(f.vis, syn::Visibility::Public(_)), ty: type_path_of(&f.ty) };
            (StructFields::Named { names }, named.named.iter().map(info).collect())
        },
        syn::Fields::Unnamed(_) => (StructFields::Unnamed, Vec::new()),
        syn::Fields::Unit => (StructFields::Unit, Vec::new()),
    }
}

/// An ASCII identifier: a letter or `_`, then letters, digits or `_`. Such
/// a text is one that `proc_macro2::Ident::new` accepts.
pub open spec fn plain_ident_spec(s: Seq<char>) -> bool {
    &&& s.len() > 0
    &&& !('0' <= s[0] && s[0] <= '9')
    &&& forall|i: int|
        0 <= i < s.len() ==> ('a' <= #[trigger] s[i] && s[i] <= 'z') || ('A' <= s[i] && s[i] <= 'Z') || (
        '0' <= s[i] && s[i] <= '9') || s[i] == '_'
}

/// The field names after `#[with_children]`: `children` appended last,
/// unless a field already has that name.
pub open spec fn with_children_names(names: Seq<Seq<char>>) -> Seq<Seq<char>> {
    if exists|i: int| 0 <= i < names.len() && #[trigger] names[i] == "children"@ {
        names
    } else {
        names.push("children"@)
    }
}

/// The field `#[with_children]` appends: `pub children:
/// ::std::string::String`.
pub open spec fn children_field() -> FieldInfoView {
    FieldInfoView {
        name: "children"@,
        public: true,
        ty: Some(TypePathView { qself: false, leading_colon: true, segments: seq!["std"@, "string"@, "String"@] }),
    }
}

/// The fields after `#[with_children]`: `children_field()` appended last,
/// unless a field is already named `children`.
pub open spec fn with_children_fields(names: Seq<Seq<char>>, fields: Seq<FieldInfoView>) -> Seq<FieldInfoView> {
    if exists|i: int| 0 <= i < names.len() && #[trigger] names[i] == "children"@ {
        fields
    } else {
        fields.push(children_field())
    }
}

/// `#[with_children]` changes nothing the second time: after it, the
/// struct has a `children` field, which the next application finds.
pub proof fn lemma_with_children_idempotent(names: Seq<Seq<char>>, fields: Seq<FieldInfoView>)
    ensures
        with_children_names(with_children_names(names)) == with_children_names(names),
        with_children_fields(with_children_names(names), with_children_fields(names, fields))
            == with_children_fields(names, fields),
{
    if !(exists|i: int| 0 <= i < names.len() && #[trigger] names[i] == "children"@) {
        let once = names.push("children"@);
        assert(once[names.len() as int] == "children"@);
    }
}

/// What `#[with_children]` plans for an item, given what the item parses as.
pub open spec fn with_children_outcome(
    r: Result<StructItem, AttrError>,
    attr_is_empty: bool,
    parsed: Option<(StructFields, Seq<FieldInfoView>)>,
) -> bool {
    if !attr_is_empty {
        r matches Err(e) && e == AttrError::UnexpectedArguments { attr: AttrMacro::WithChildren }
    } else {
        match parsed {
            None => r matches Err(e) && e == AttrError::UnparsableItem { attr: AttrMacro::WithChildren },
            Some((f, infos)) => match fields_view(f) {
                None => r matches Err(e) && e == AttrError::NotNamedFields,
                Some(names) => r matches Ok(s) && s.field_names() == Some(with_children_names(names))
                    && s.fields_model() == with_children_fields(names, infos),
            },
        }
    }
}

/// Plans `#[with_children]` on the tokens of the item it decorates: refuses
/// arguments, parses the item as a struct, and appends
/// `pub children: ::std::string::String` unless it has a `children` field
/// (`with_children`). A struct without named fields is refused.
pub fn plan_with_children(attr_is_empty: bool, item: &Tokens, h: &mut Handles) -> (r: Result<StructItem, AttrError>)
    ensures
        with_children_outcome(r, attr_is_empty, syn_struct_item(item.model())),
{
    if let Err(e) = attr_arguments(AttrMacro::WithChildren, attr_is_empty) {
        return Err(e);
    }
    let mut s = match parse_item_struct(item, h) {
        Some(s) => s,
        None => {
            return Err(AttrError::UnparsableItem { attr: AttrMacro::WithChildren });
        },
    };
    let ghost names0 = s.field_names();
    match with_children(attr_is_empty, &s.fields) {
        Err(e) => Err(e),
        Ok(append) => {
            proof {
                reveal_strlit("children");
                let ns = names0.unwrap();
                if s.fields is Named {
                    let names = s.fields->names;
                    assert(append == !(exists|i: int| 0 <= i < ns.len() && #[trigger] ns[i] == "children"@)) by {
                        if exists|i: int| 0 <= i < ns.len() && #[trigger] ns[i] == "children"@ {
                            let i = choose|i: int| 0 <= i < ns.len() && #[trigger] ns[i] == "children"@;
                            assert(names@[i]@ == "children"@);
                        }
                        if exists|i: int| 0 <= i < names@.len() && (#[trigger] names@[i])@ == "children"@ {
                            let i = choose|i: int| 0 <= i < names@.len() && (#[trigger] names@[i])@ == "children"@;
                            assert(ns[i] == "children"@);
                        }
                    }
                }
            }
            if append {
                proof {
                    reveal_strlit("std");
                    reveal_strlit("string");
                    reveal_strlit("String");
                }
                let name = string_of("children");
                let segments = vec![string_of("std"), string_of("string"), string_of("String")];
                assert(segments@[0]@ == "std"@);
                assert(segments@[1]@ == "string"@);
                assert(segments@[2]@ == "String"@);
                let ty = TypePath { qself: false, leading_colon: true, segments };
                assert(ty@.segments =~= seq!["std"@, "string"@, "String"@]);
                s.push_named_field(field_of(name, true, ty));
            }
            Ok(s)
        },
    }
}

/// Whether an entry plan is what `entry_spec` gives.
pub open spec fn entry_plan_matches(r: Result<EntryPlan, EntryError>, s: Result<(MacroMode, WrapperView), EntryError>) -> bool {
    match (r, s) {
        (Ok(p), Ok((mode, w))) => p.mode == mode && p.wrapper@ == w,
        (Err(e), Err(f)) => e == f,
        _ => false,
    }
}

/// The invocation shape an entry point reads from its input: for `html!`
/// and `html_try!`, the shape of the input's token trees given how many of
/// them the leading expression takes; no shape for the others.
pub open spec fn entry_shape(entry: Entry, trees: Seq<TokenTree>) -> Option<HtmlInvocationShape> {
    if entry is Html || entry is HtmlTry {
        invocation_shape_spec(trees, leading_expr_len_usize(trees))
    } else {
        None
    }
}

/// Plans an entry point on its input: `html!` and `html_try!` read the
/// input's invocation shape first; the others need none.
pub fn plan_entry_for(entry: Entry, input: &Tokens) -> (r: Result<EntryPlan, EntryError>)
    ensures
        entry_plan_matches(r, entry_spec(entry, entry_shape(entry, input.model()))),
{
    let shape = match entry {
        Entry::Html | Entry::HtmlTry => HtmlInvocationShape::parse(input.trees(), leading_len(input)),
        _ => None,
    };
    plan_entry(entry, shape)
}

} // verus!
