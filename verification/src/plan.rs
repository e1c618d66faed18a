//! The compiler's output: generated statements, diagnostics and symbol
//! hints, with their mathematical views.
use vstd::prelude::*;
use crate::markup::{ExprRef, SrcSpan, TagPath};
use crate::text::{concat_str, string_of};

verus! {

/// Severity of a diagnostic.
#[derive(Copy, Clone, Debug, PartialEq, Eq, Structural)]
pub enum Level {
    Error,
    Warning,
}

/// What a diagnostic reports.
#[derive(Clone, Debug)]
pub enum DiagnosticKind {
    /// `async` was given a value on a component.
    AsyncMarkerWithValue,
    /// `async` appears twice on the component with this label.
    DuplicateAsyncMarker { component: String },
    /// The property `key` appears twice on the component with this label.
    DuplicateProperty { key: String, component: String },
    /// A `{...}` attribute on a component is not a single identifier.
    InvalidShorthand,
    /// A component property key is not a Rust identifier.
    InvalidPropertyName { key: String },
    /// `children` was given both as a property and as child nodes.
    ChildrenConflict,
    /// An `async` component in a macro that renders synchronously.
    AsyncMarkerInSyncMacro,
    /// A context-aware expansion without a context binding.
    MissingContextBinding,
    /// A void element (such as `br`) was given children.
    ChildrenOnVoidElement,
    /// Text after the top-level markup.
    TrailingMarkup,
    /// A context-aware expansion without a context expression.
    MissingContextExpression,
}

/// A diagnostic: severity, location and kind.
#[derive(Clone, Debug)]
pub struct Diagnostic {
    pub level: Level,
    pub span: SrcSpan,
    pub kind: DiagnosticKind,
}

/// The value given to a component property.
#[derive(Clone, Debug)]
pub enum PropValue {
    /// An expression written by the user.
    Expr(ExprRef),
    /// A bare key, which means `true`.
    BareTrue,
    /// `{name}` shorthand: the variable with the property's name.
    Ident(String),
    /// The buffer that captured the component's child nodes.
    Children(String),
}

/// One field of the props struct built for a component call.
#[derive(Clone, Debug)]
pub struct PropField {
    pub name: String,
    pub span: SrcSpan,
    pub value: PropValue,
}

/// A statement of the generated rendering code.
#[derive(Debug)]
pub enum Stmt {
    /// `writer.write_str(literal)?`.
    WriteLiteral { writer: String, literal: String },
    /// Writes an expression's value as escaped text.
    WriteText { writer: String, expr: ExprRef },
    /// Writes an expression's value as an escaped attribute value.
    WriteAttr { writer: String, expr: ExprRef },
    /// `let mut buffer = String::new(); { let writer = &mut buffer; body }`.
    CaptureChildren { buffer: String, writer: String, body: Vec<Stmt> },
    /// A call of a component function with its props struct.
    CallComponent {
        component: TagPath,
        props_type: TagPath,
        writer: String,
        context: Option<String>,
        fields: Vec<PropField>,
        awaited: bool,
        span: SrcSpan,
    },
    /// An empty statement.
    Empty,
}

/// A component's function path and props type path, recorded so that the
/// expansion refers to both symbols.
#[derive(Clone, Debug)]
pub struct ComponentSymbolHint {
    pub component_fn_path: TagPath,
    pub props_type_path: TagPath,
}

/// View of a tag path.
pub struct TagPathView {
    pub leading_colon: bool,
    pub segments: Seq<Seq<char>>,
}

/// View of a property value.
pub enum PropValueView {
    Expr(ExprRef),
    BareTrue,
    Ident(Seq<char>),
    Children(Seq<char>),
}

/// View of a props field.
pub struct PropFieldView {
    pub name: Seq<char>,
    pub span: SrcSpan,
    pub value: PropValueView,
}

/// View of a generated statement.
pub enum StmtView {
    WriteLiteral { writer: Seq<char>, literal: Seq<char> },
    WriteText { writer: Seq<char>, expr: ExprRef },
    WriteAttr { writer: Seq<char>, expr: ExprRef },
    CaptureChildren { buffer: Seq<char>, writer: Seq<char>, body: Seq<StmtView> },
    CallComponent {
        component: TagPathView,
        props_type: TagPathView,
        writer: Seq<char>,
        context: Option<Seq<char>>,
        fields: Seq<PropFieldView>,
        awaited: bool,
        span: SrcSpan,
    },
    Empty,
}

/// View of a diagnostic kind.
pub enum DiagnosticKindView {
    AsyncMarkerWithValue,
    DuplicateAsyncMarker { component: Seq<char> },
    DuplicateProperty { key: Seq<char>, component: Seq<char> },
    InvalidShorthand,
    InvalidPropertyName { key: Seq<char> },
    ChildrenConflict,
    AsyncMarkerInSyncMacro,
    MissingContextBinding,
    ChildrenOnVoidElement,
    TrailingMarkup,
    MissingContextExpression,
}

/// View of a diagnostic.
pub struct DiagnosticView {
    pub level: Level,
    pub span: SrcSpan,
    pub kind: DiagnosticKindView,
}

/// View of a symbol hint.
pub struct HintView {
    pub component_fn_path: TagPathView,
    pub props_type_path: TagPathView,
}

impl View for TagPath {
    type V = TagPathView;

    open spec fn view(&self) -> TagPathView {
        TagPathView {
            leading_colon: self.leading_colon,
            segments: self.segments@.map_values(|s: String| s@),
        }
    }
}

impl View for PropValue {
    type V = PropValueView;

    open spec fn view(&self) -> PropValueView {
        match self {
            PropValue::Expr(e) => PropValueView::Expr(*e),
            PropValue::BareTrue => PropValueView::BareTrue,
            PropValue::Ident(s) => PropValueView::Ident(s@),
            PropValue::Children(s) => PropValueView::Children(s@),
        }
    }
}

impl View for PropField {
    type V = PropFieldView;

    open spec fn view(&self) -> PropFieldView {
        PropFieldView { name: self.name@, span: self.span, value: self.value@ }
    }
}

/// View of a sequence of statements.
pub open spec fn stmts_view(v: Seq<Stmt>) -> Seq<StmtView>
    decreases v,
{
    if v.len() == 0 {
        Seq::empty()
    } else {
        stmts_view(v.subrange(0, v.len() - 1)).push(stmt_view(v[v.len() - 1]))
    }
}

/// View of one statement.
pub open spec fn stmt_view(s: Stmt) -> StmtView
    decreases s,
{
    match s {
        Stmt::WriteLiteral { writer, literal } => StmtView::WriteLiteral {
            writer: writer@,
            literal: literal@,
        },
        Stmt::WriteText { writer, expr } => StmtView::WriteText { writer: writer@, expr },
        Stmt::WriteAttr { writer, expr } => StmtView::WriteAttr { writer: writer@, expr },
        Stmt::CaptureChildren { buffer, writer, body } => StmtView::CaptureChildren {
            buffer: buffer@,
            writer: writer@,
            body: stmts_view(body@),
        },
        Stmt::CallComponent { component, props_type, writer, context, fields, awaited, span } =>
            StmtView::CallComponent {
            component: component@,
            props_type: props_type@,
            writer: writer@,
            context: match context {
                Some(c) => Some(c@),
                None => None,
            },
            fields: fields@.map_values(|f: PropField| f@),
            awaited,
            span,
        },
        Stmt::Empty => StmtView::Empty,
    }
}

impl View for Stmt {
    type V = StmtView;

    open spec fn view(&self) -> StmtView {
        stmt_view(*self)
    }
}

impl View for DiagnosticKind {
    type V = DiagnosticKindView;

    open spec fn view(&self) -> DiagnosticKindView {
        match self {
            DiagnosticKind::AsyncMarkerWithValue => DiagnosticKindView::AsyncMarkerWithValue,
            DiagnosticKind::DuplicateAsyncMarker { component } =>
                DiagnosticKindView::DuplicateAsyncMarker { component: component@ },
            DiagnosticKind::DuplicateProperty { key, component } =>
                DiagnosticKindView::DuplicateProperty { key: key@, component: component@ },
            DiagnosticKind::InvalidShorthand => DiagnosticKindView::InvalidShorthand,
            DiagnosticKind::InvalidPropertyName { key } =>
                DiagnosticKindView::InvalidPropertyName { key: key@ },
            DiagnosticKind::ChildrenConflict => DiagnosticKindView::ChildrenConflict,
            DiagnosticKind::AsyncMarkerInSyncMacro => DiagnosticKindView::AsyncMarkerInSyncMacro,
            DiagnosticKind::MissingContextBinding => DiagnosticKindView::MissingContextBinding,
            DiagnosticKind::ChildrenOnVoidElement => DiagnosticKindView::ChildrenOnVoidElement,
            DiagnosticKind::TrailingMarkup => DiagnosticKindView::TrailingMarkup,
            DiagnosticKind::MissingContextExpression =>
                DiagnosticKindView::MissingContextExpression,
        }
    }
}

impl View for Diagnostic {
    type V = DiagnosticView;

    open spec fn view(&self) -> DiagnosticView {
        DiagnosticView { level: self.level, span: self.span, kind: self.kind@ }
    }
}

impl View for ComponentSymbolHint {
    type V = HintView;

    open spec fn view(&self) -> HintView {
        HintView {
            component_fn_path: self.component_fn_path@,
            props_type_path: self.props_type_path@,
        }
    }
}

/// The message of a diagnostic.
pub open spec fn diagnostic_message(kind: DiagnosticKindView) -> Seq<char> {
    match kind {
        DiagnosticKindView::AsyncMarkerWithValue =>
            "async component marker must be a bare attribute, e.g. <Card async />"@,
        DiagnosticKindView::DuplicateAsyncMarker { component } => "duplicate async marker on component '"@
            + component + "'"@,
        DiagnosticKindView::DuplicateProperty { key, component } => "duplicate property '"@ + key
            + "' on component '"@ + component + "'"@,
        DiagnosticKindView::InvalidShorthand =>
            "component shorthand prop must be an identifier, e.g. {value}"@,
        DiagnosticKindView::InvalidPropertyName { key } => "component property '"@ + key
            + "' must be a valid Rust identifier"@,
        DiagnosticKindView::ChildrenConflict => "children provided both as prop and as child nodes"@,
        DiagnosticKindView::AsyncMarkerInSyncMacro =>
            "async component marker is only supported in html_async! and html_async_ctx!"@,
        DiagnosticKindView::MissingContextBinding =>
            "internal error: missing context binding for html_ctx/html_async_ctx"@,
        DiagnosticKindView::ChildrenOnVoidElement =>
            "Element is processed as empty, and cannot have any child"@,
        DiagnosticKindView::TrailingMarkup =>
            "trailing non-markup tokens after top-level markup are not allowed"@,
        DiagnosticKindView::MissingContextExpression =>
            "internal error: missing context expression for html_ctx/html_async_ctx"@,
    }
}

impl Diagnostic {
    /// The diagnostic's message.
    pub fn message(&self) -> (r: String)
        ensures
            r@ == diagnostic_message(self.kind@),
    {
        match &self.kind {
            DiagnosticKind::AsyncMarkerWithValue => string_of(
                "async component marker must be a bare attribute, e.g. <Card async />",
            ),
            DiagnosticKind::DuplicateAsyncMarker { component } => {
                let a = concat_str(&string_of("duplicate async marker on component '"), component.as_str());
                concat_str(&a, "'")
            },
            DiagnosticKind::DuplicateProperty { key, component } => {
                let a = concat_str(&string_of("duplicate property '"), key.as_str());
                let b = concat_str(&a, "' on component '");
                let c = concat_str(&b, component.as_str());
                concat_str(&c, "'")
            },
            DiagnosticKind::InvalidShorthand => string_of(
                "component shorthand prop must be an identifier, e.g. {value}",
            ),
            DiagnosticKind::InvalidPropertyName { key } => {
                let a = concat_str(&string_of("component property '"), key.as_str());
                concat_str(&a, "' must be a valid Rust identifier")
            },
            DiagnosticKind::ChildrenConflict => string_of(
                "children provided both as prop and as child nodes",
            ),
            DiagnosticKind::AsyncMarkerInSyncMacro => string_of(
                "async component marker is only supported in html_async! and html_async_ctx!",
            ),
            DiagnosticKind::MissingContextBinding => string_of(
                "internal error: missing context binding for html_ctx/html_async_ctx",
            ),
            DiagnosticKind::ChildrenOnVoidElement => string_of(
                "Element is processed as empty, and cannot have any child",
            ),
            DiagnosticKind::TrailingMarkup => string_of(
                "trailing non-markup tokens after top-level markup are not allowed",
            ),
            DiagnosticKind::MissingContextExpression => string_of(
                "internal error: missing context expression for html_ctx/html_async_ctx",
            ),
        }
    }
}

} // verus!
