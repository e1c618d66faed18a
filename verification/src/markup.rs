//! Plain-value model of parsed markup: what the compiler reads from the
//! token trees, expressions and nodes handed over by the macro front end.
use vstd::prelude::*;

verus! {

/// Where a piece of source starts, with the index under which the front end
/// keeps the real span so that diagnostics can point back at it.
#[derive(Copy, Clone, Debug, PartialEq, Eq, Structural)]
pub struct SrcSpan {
    pub index: usize,
    pub line: usize,
    pub column: usize,
}

/// Handle to a Rust expression owned by the front end. The compiler only
/// moves it into the generated statements; it never looks inside.
#[derive(Copy, Clone, Debug, PartialEq, Eq, Structural)]
pub struct ExprRef {
    pub index: usize,
}

/// Delimiter of a token group.
#[derive(Copy, Clone, Debug, PartialEq, Eq, Structural)]
pub enum Delimiter {
    Parenthesis,
    Brace,
    Bracket,
    Invisible,
}

/// A token tree, as the macro received it. A punctuation is `joint` when it
/// is immediately followed by another punctuation character (as in `==`).
#[derive(Debug)]
pub enum TokenTree {
    Group { delimiter: Delimiter, stream: Vec<TokenTree>, span: SrcSpan },
    Ident { name: String, span: SrcSpan },
    Punct { ch: char, joint: bool, span: SrcSpan },
    Literal { text: String, span: SrcSpan },
}

/// One segment of an expression path, with the span of its identifier.
#[derive(Clone, Debug)]
pub struct PathIdent {
    pub name: String,
    pub span: SrcSpan,
}

/// The shape of a parsed Rust expression, as far as the compiler reads it.
#[derive(Debug)]
pub enum ExprShape {
    /// An invisible group around an expression.
    Group(Box<ExprShape>),
    /// A parenthesised expression.
    Paren(Box<ExprShape>),
    /// A string literal, with its (unescaped) value.
    StrLit(String),
    /// A path such as `x`, `a::b` or `<T>::c`.
    Path { qself: bool, leading_colon: bool, segments: Vec<PathIdent> },
    /// A block `{ ... }` and its statements.
    Block { stmts: Vec<StmtShape> },
    /// Any other expression.
    Other,
}

/// The shape of a statement inside a block expression.
#[derive(Debug)]
pub enum StmtShape {
    Expr { expr: ExprShape, semicolon: bool },
    Other,
}

/// The value of a `key=value` attribute.
#[derive(Debug)]
pub struct AttrValue {
    pub expr: ExprRef,
    pub span: SrcSpan,
    pub shape: ExprShape,
}

/// An attribute of an element.
#[derive(Debug)]
pub enum Attribute {
    /// `{expr}` in attribute position; `tokens` is the block as written
    /// (braces included) and `parsed` is the block parsed as an
    /// expression, when it parses.
    Block { block: ExprRef, span: SrcSpan, tokens: Vec<TokenTree>, parsed: Option<ExprShape> },
    /// `key` or `key=value`.
    Keyed { key: String, key_span: SrcSpan, value: Option<AttrValue> },
}

/// A Rust path written as a tag name, such as `Card` or `crate::ui::Button`.
#[derive(Clone, Debug)]
pub struct TagPath {
    pub leading_colon: bool,
    pub segments: Vec<String>,
}

/// A tag name: its text (`div`, `my-widget`, `crate::ui::Button`) and its
/// span.
#[derive(Clone, Debug)]
pub struct TagName {
    pub text: String,
    pub span: SrcSpan,
}

/// A markup node.
#[derive(Debug)]
pub enum MarkupNode {
    /// `<!DOCTYPE value>`.
    Doctype { value: String },
    /// A text node with its value.
    Text { value: String, span: SrcSpan },
    /// Raw text, as inside `<script>` or `<style>`.
    RawText { text: String },
    /// `<>...</>`.
    Fragment { children: Vec<MarkupNode> },
    /// `<!-- ... -->`, with the comment's token text.
    Comment { text: String },
    /// `{expr}` in child position.
    Block { block: ExprRef },
    /// An element with its name, attributes and children.
    Element { name: TagName, attributes: Vec<Attribute>, children: Vec<MarkupNode> },
}

} // verus!
