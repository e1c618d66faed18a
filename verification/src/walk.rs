//! Walking markup into generated statements: the meaning of each node as a
//! sequence of write events, and the walker that emits them.
use vstd::prelude::*;
use crate::emit::{
    chars_events, flatten, group, lemma_chars_events_append, lemma_events_wf_flatten,
    lemma_flatten_append, lemma_flatten_push, lemma_group_wf, lemma_literals_wf_append,
    lemma_stmts_view, lemma_stmts_view_append, lemma_stmts_view_push, literals_wf, stmt_events,
    WalkNodesOutput, WriteEvent,
};
use crate::markup::{Attribute, ExprShape, MarkupNode, TagName};
use crate::modes::CompileMode;
use crate::plan::{
    ComponentSymbolHint, Diagnostic, DiagnosticKind, DiagnosticKindView, DiagnosticView, HintView,
    Level, PropField, PropFieldView, PropValue, PropValueView, Stmt, StmtView, TagPathView,
};
use crate::props::{
    component_paths, component_paths_spec, error_at, ident_from_prop_key, parse_component_props,
    props_spec, syn_parses_ident, PropView,
};
use crate::text::{
    concat_str, decimal_spec, decimal_string, escape_html_literal, escape_spec, str_equal, string_of,
};

verus! {

/// The elements that are written self-closed (`<br/>`) and take no
/// children.
pub open spec fn is_void_element_spec(name: Seq<char>) -> bool {
    name == "area"@ || name == "base"@ || name == "br"@ || name == "col"@ || name == "embed"@
        || name == "hr"@ || name == "img"@ || name == "input"@ || name == "link"@ || name
        == "meta"@ || name == "param"@ || name == "source"@ || name == "track"@ || name == "wbr"@
}

/// An expression with invisible groups and parentheses removed.
pub open spec fn strip_grouping_spec(e: ExprShape) -> ExprShape
    decreases e,
{
    match e {
        ExprShape::Group(inner) => strip_grouping_spec(*inner),
        ExprShape::Paren(inner) => strip_grouping_spec(*inner),
        _ => e,
    }
}

/// The escaped text of an attribute value that is a string literal (perhaps
/// in parentheses); `None` for any other expression.
pub open spec fn compile_time_attr_spec(e: ExprShape) -> Option<Seq<char>> {
    match strip_grouping_spec(e) {
        ExprShape::StrLit(s) => Some(escape_spec(s@)),
        _ => None,
    }
}

/// The name `__fr_{prefix}_{index}` of a generated binding.
pub open spec fn ident_name_spec(prefix: Seq<char>, index: nat) -> Seq<char> {
    "__fr_"@ + prefix + "_"@ + decimal_spec(index)
}

/// The events of one attribute of an HTML element written to `w`.
pub open spec fn attr_events(a: Attribute, w: Seq<char>) -> Seq<WriteEvent> {
    match a {
        Attribute::Block { block, .. } => chars_events(" "@) + seq![
            WriteEvent::Other(StmtView::WriteAttr { writer: w, expr: block }),
        ],
        Attribute::Keyed { key, value, .. } => chars_events(" "@ + key@) + match value {
            None => Seq::empty(),
            Some(v) => chars_events("=\""@) + match compile_time_attr_spec(v.shape) {
                Some(s) => chars_events(s),
                None => seq![WriteEvent::Other(StmtView::WriteAttr { writer: w, expr: v.expr })],
            } + chars_events("\""@),
        },
    }
}

/// The events of an element's attributes, in order.
pub open spec fn attrs_events(attrs: Seq<Attribute>, w: Seq<char>) -> Seq<WriteEvent>
    decreases attrs.len(),
{
    if attrs.len() == 0 {
        Seq::empty()
    } else {
        attrs_events(attrs.drop_last(), w) + attr_events(attrs.last(), w)
    }
}

/// Props fields for the parsed props (keys that are identifiers), and a
/// diagnostic for each key that is not.
pub open spec fn prop_fields_spec(props: Seq<PropView>) -> (Seq<PropFieldView>, Seq<DiagnosticView>)
    decreases props.len(),
{
    if props.len() == 0 {
        (Seq::empty(), Seq::empty())
    } else {
        let (f, d) = prop_fields_spec(props.drop_last());
        let p = props.last();
        if syn_parses_ident(p.key) {
            (f.push(PropFieldView { name: p.key, span: p.key_span, value: p.value }), d)
        } else {
            (f, d.push(error_at(p.key_span, DiagnosticKindView::InvalidPropertyName { key: p.key })))
        }
    }
}

/// Where a walk happens: the compile mode, the writer binding that literal
/// writes go to, and the context binding, if any.
pub struct Scope {
    pub mode: CompileMode,
    pub writer: Seq<char>,
    pub context: Option<Seq<char>>,
}

/// What walking some markup produces: its events, diagnostics and symbol
/// hints, and the binding counter afterwards.
pub struct WalkView {
    pub events: Seq<WriteEvent>,
    pub diags: Seq<DiagnosticView>,
    pub hints: Seq<HintView>,
    pub counter: nat,
}

/// A walk that only writes events.
pub open spec fn events_only(events: Seq<WriteEvent>, counter: nat) -> WalkView {
    WalkView { events, diags: Seq::empty(), hints: Seq::empty(), counter }
}

/// Two walks one after the other.
pub open spec fn then(a: WalkView, b: WalkView) -> WalkView {
    WalkView {
        events: a.events + b.events,
        diags: a.diags + b.diags,
        hints: a.hints + b.hints,
        counter: b.counter,
    }
}

/// The number of nodes in a forest.
pub open spec fn nodes_size(nodes: Seq<MarkupNode>) -> nat
    decreases nodes,
{
    if nodes.len() == 0 {
        0
    } else {
        nodes_size(nodes.subrange(0, nodes.len() - 1)) + node_size(nodes[nodes.len() - 1])
    }
}

/// The number of nodes in a tree.
pub open spec fn node_size(node: MarkupNode) -> nat
    decreases node,
{
    match node {
        MarkupNode::Fragment { children } => 1 + nodes_size(children@),
        MarkupNode::Element { children, .. } => 1 + nodes_size(children@),
        _ => 1,
    }
}

/// Walking a forest: each node in order, threading the binding counter.
pub open spec fn walk_nodes_spec(nodes: Seq<MarkupNode>, sc: Scope, counter: nat) -> WalkView
    decreases nodes, 0nat,
{
    if nodes.len() == 0 {
        events_only(Seq::empty(), counter)
    } else {
        let a = walk_nodes_spec(nodes.subrange(0, nodes.len() - 1), sc, counter);
        then(a, walk_node_spec(nodes[nodes.len() - 1], sc, a.counter))
    }
}

/// Walking one node.
///
/// Text, raw text, doctypes and comments are written literally; a block is
/// written as escaped text; a fragment is its children. An HTML element is
/// written as `<name attrs>children</name>`, or `<name attrs/>` for a void
/// element (whose children are dropped with a warning). A component element
/// becomes a call of its component function with a props struct.
pub open spec fn walk_node_spec(node: MarkupNode, sc: Scope, counter: nat) -> WalkView
    decreases node, 2nat,
{
    match node {
        MarkupNode::Doctype { value } => events_only(
            chars_events("<!DOCTYPE "@ + value@ + ">"@),
            counter,
        ),
        MarkupNode::Text { value, .. } => events_only(chars_events(value@), counter),
        MarkupNode::RawText { text } => events_only(chars_events(text@), counter),
        MarkupNode::Fragment { children } => walk_nodes_spec(children@, sc, counter),
        MarkupNode::Comment { text } => events_only(chars_events("<!-- "@ + text@ + " -->"@), counter),
        MarkupNode::Block { block } => events_only(
            seq![WriteEvent::Other(StmtView::WriteText { writer: sc.writer, expr: block })],
            counter,
        ),
        MarkupNode::Element { name, attributes, children } => match component_paths_spec(name) {
            Some((fn_path, props_path)) => walk_component_spec(
                name,
                attributes@,
                children@,
                fn_path,
                props_path,
                sc,
                counter,
            ),
            None => walk_html_spec(name, attributes@, children@, sc, counter),
        },
    }
}

/// Walking an HTML element: `<name attrs>children</name>`, or
/// `<name attrs/>` for a void element, whose children are dropped with a
/// warning.
pub open spec fn walk_html_spec(
    name: TagName,
    attributes: Seq<Attribute>,
    children: Seq<MarkupNode>,
    sc: Scope,
    counter: nat,
) -> WalkView
    decreases children, 1nat,
{
    let open = chars_events("<"@ + name.text@) + attrs_events(attributes, sc.writer);
    if is_void_element_spec(name.text@) {
        WalkView {
            events: open + chars_events("/>"@),
            diags: if children.len() > 0 {
                seq![
                    DiagnosticView {
                        level: Level::Warning,
                        span: name.span,
                        kind: DiagnosticKindView::ChildrenOnVoidElement,
                    },
                ]
            } else {
                Seq::empty()
            },
            hints: Seq::empty(),
            counter,
        }
    } else {
        let child = walk_nodes_spec(children, sc, counter);
        WalkView {
            events: open + chars_events(">"@) + child.events + chars_events(
                "</"@ + name.text@ + ">"@,
            ),
            diags: child.diags,
            hints: child.hints,
            counter: child.counter,
        }
    }
}

/// Walking a component element: its attributes become props; its children,
/// unless `children` is given as a prop, are rendered into a buffer that is
/// passed as the `children` prop; then the component function is called
/// with the props struct (and the context, in a context-aware macro), and
/// awaited when marked `async` in an async macro.
pub open spec fn walk_component_spec(
    name: TagName,
    attributes: Seq<Attribute>,
    children: Seq<MarkupNode>,
    fn_path: TagPathView,
    props_path: TagPathView,
    sc: Scope,
    counter: nat,
) -> WalkView
    decreases children, 1nat,
{
    let pp = props_spec(attributes, name.text@);
    let capture = !pp.has_children_prop && children.len() > 0;
    let buffer = ident_name_spec("children"@, counter);
    let cw = ident_name_spec("children_out"@, counter + 1);
    let child = walk_nodes_spec(
        children,
        Scope { mode: sc.mode, writer: cw, context: sc.context },
        counter + 2,
    );
    let conflict = if pp.has_children_prop && children.len() > 0 {
        seq![
            error_at(
                match pp.children_key_span {
                    Some(s) => s,
                    None => name.span,
                },
                DiagnosticKindView::ChildrenConflict,
            ),
        ]
    } else {
        Seq::empty()
    };
    let (fields0, ident_diags) = prop_fields_spec(pp.props);
    let fields = if capture {
        fields0.push(
            PropFieldView {
                name: "children"@,
                span: name.span,
                value: PropValueView::Children(buffer),
            },
        )
    } else {
        fields0
    };
    let async_diag = if pp.async_marker_span is Some && !sc.mode.spec_is_async() {
        seq![
            error_at(
                pp.async_marker_span->Some_0,
                DiagnosticKindView::AsyncMarkerInSyncMacro,
            ),
        ]
    } else {
        Seq::empty()
    };
    let call = StmtView::CallComponent {
        component: fn_path,
        props_type: props_path,
        writer: sc.writer,
        context: if sc.mode.spec_uses_context() {
            sc.context
        } else {
            None
        },
        fields,
        awaited: pp.async_marker_span is Some && sc.mode.spec_is_async(),
        span: name.span,
    };
    let missing_ctx = sc.mode.spec_uses_context() && sc.context is None;
    let call_stmt = if missing_ctx {
        StmtView::Empty
    } else {
        call
    };
    let ctx_diag = if missing_ctx {
        seq![error_at(name.span, DiagnosticKindView::MissingContextBinding)]
    } else {
        Seq::empty()
    };
    let capture_events = if capture {
        seq![
            WriteEvent::Other(
                StmtView::CaptureChildren {
                    buffer,
                    writer: cw,
                    body: group(child.events, cw),
                },
            ),
        ]
    } else {
        Seq::empty()
    };
    WalkView {
        events: capture_events + seq![WriteEvent::Other(call_stmt)],
        diags: (if capture {
            child.diags
        } else {
            Seq::empty()
        }) + pp.diagnostics + conflict + ident_diags + async_diag + ctx_diag,
        hints: seq![HintView { component_fn_path: fn_path, props_type_path: props_path }]
            + (if capture {
            child.hints
        } else {
            Seq::empty()
        }),
        counter: if capture {
            child.counter
        } else {
            counter
        },
    }
}

} // verus!

verus! {

/// The view of an optional binding name.
pub open spec fn opt_view(o: Option<String>) -> Option<Seq<char>> {
    match o {
        Some(s) => Some(s@),
        None => None,
    }
}

/// The state of a walk over markup: the scope it writes in, the literal
/// text not yet flushed into a statement, and the output so far.
#[derive(Debug)]
pub struct WalkNodes {
    pub compile_mode: CompileMode,
    pub writer_binding: String,
    pub context_binding: Option<String>,
    pub literal_buffer: String,
    pub output: WalkNodesOutput,
}

impl WalkNodes {
    /// The scope the walk writes in.
    pub open spec fn scope(&self) -> Scope {
        Scope {
            mode: self.compile_mode,
            writer: self.writer_binding@,
            context: opt_view(self.context_binding),
        }
    }

    /// Every event written so far, flushed or not.
    pub open spec fn events(&self) -> Seq<WriteEvent> {
        flatten(self.output.stmts()) + chars_events(self.literal_buffer@)
    }

    /// The diagnostics so far.
    pub open spec fn diags(&self) -> Seq<DiagnosticView> {
        self.output.diagnostics@.map_values(|d: Diagnostic| d@)
    }

    /// The symbol hints so far.
    pub open spec fn hints(&self) -> Seq<HintView> {
        self.output.component_symbol_hints@.map_values(|h: ComponentSymbolHint| h@)
    }

    /// Every literal statement writes something to the walk's writer.
    pub open spec fn wf(&self) -> bool {
        literals_wf(self.output.stmts(), self.writer_binding@)
    }

    /// A fresh walk in the given scope.
    pub fn new(compile_mode: CompileMode, writer_binding: String, context_binding: Option<String>) -> (r: Self)
        ensures
            r.wf(),
            r.scope() == (Scope { mode: compile_mode, writer: writer_binding@, context: opt_view(context_binding) }),
            r.events() == Seq::<WriteEvent>::empty(),
            r.diags() == Seq::<DiagnosticView>::empty(),
            r.hints() == Seq::<HintView>::empty(),
    {
        let r = WalkNodes {
            compile_mode,
            writer_binding,
            context_binding,
            literal_buffer: String::new(),
            output: WalkNodesOutput {
                statements: Vec::new(),
                diagnostics: Vec::new(),
                component_symbol_hints: Vec::new(),
            },
        };
        proof {
            lemma_stmts_view(r.output.statements@);
            assert(r.output.stmts() =~= Seq::<StmtView>::empty());
            assert(flatten(r.output.stmts()) =~= Seq::<WriteEvent>::empty());
            assert(r.events() =~= Seq::<WriteEvent>::empty());
            assert(r.diags() =~= Seq::<DiagnosticView>::empty());
            assert(r.hints() =~= Seq::<HintView>::empty());
        }
        r
    }

    /// A fresh walk in the same mode and context that writes to another
    /// writer.
    pub fn child_output(&self, writer_binding: String) -> (r: Self)
        ensures
            r.wf(),
            r.scope() == (Scope { mode: self.scope().mode, writer: writer_binding@, context: self.scope().context }),
            r.events() == Seq::<WriteEvent>::empty(),
            r.diags() == Seq::<DiagnosticView>::empty(),
            r.hints() == Seq::<HintView>::empty(),
    {
        let context = match &self.context_binding {
            Some(c) => Some(c.clone()),
            None => None,
        };
        WalkNodes::new(self.compile_mode, writer_binding, context)
    }

    /// Takes the next number from the shared counter and names a binding
    /// `__fr_{prefix}_{number}` with it.
    pub fn next_ident(counter: &mut usize, prefix: &str) -> (r: String)
        requires
            *old(counter) < usize::MAX,
        ensures
            r@ == ident_name_spec(prefix@, *old(counter) as nat),
            *final(counter) == *old(counter) + 1,
    {
        let idx = *counter;
        *counter = idx + 1;
        proof {
            reveal_strlit("__fr_");
            reveal_strlit("_");
        }
        let a = concat_str(&string_of("__fr_"), prefix);
        let b = concat_str(&a, "_");
        let digits = decimal_string(idx);
        let r = concat_str(&b, digits.as_str());
        r
    }

    /// Adds literal text to the pending buffer; empty text is ignored.
    pub fn push_write_literal(&mut self, literal: &str)
        requires
            old(self).wf(),
        ensures
            final(self).wf(),
            final(self).scope() == old(self).scope(),
            final(self).events() == old(self).events() + chars_events(literal@),
            final(self).diags() == old(self).diags(),
            final(self).hints() == old(self).hints(),
            final(self).output.statements == old(self).output.statements,
    {
        if literal.is_empty() {
            assert(chars_events(literal@) =~= Seq::<WriteEvent>::empty());
            assert(self.events() =~= old(self).events() + chars_events(literal@));
            return;
        }
        self.literal_buffer.append(literal);
        proof {
            lemma_chars_events_append(old(self).literal_buffer@, literal@);
            assert(self.events() =~= old(self).events() + chars_events(literal@));
        }
    }

    /// Turns the pending literal text, if any, into a literal statement.
    pub fn flush_literal_buffer(&mut self)
        requires
            old(self).wf(),
        ensures
            final(self).wf(),
            final(self).scope() == old(self).scope(),
            final(self).events() == old(self).events(),
            final(self).literal_buffer@.len() == 0,
            final(self).diags() == old(self).diags(),
            final(self).hints() == old(self).hints(),
    {
        if self.literal_buffer.as_str().is_empty() {
            assert(chars_events(self.literal_buffer@) =~= Seq::<WriteEvent>::empty());
            assert(self.events() =~= flatten(self.output.stmts()));
            return;
        }
        let mut literal = String::new();
        std::mem::swap(&mut literal, &mut self.literal_buffer);
        let stmt = Stmt::WriteLiteral { writer: self.writer_binding.clone(), literal };
        proof {
            lemma_stmts_view_push(self.output.statements@, stmt);
            lemma_stmts_view(self.output.statements@);
        }
        self.output.statements.push(stmt);
        proof {
            let sv = old(self).output.stmts();
            lemma_flatten_push(sv, stmt@);
            assert(chars_events(self.literal_buffer@) =~= Seq::<WriteEvent>::empty());
            assert(self.events() =~= old(self).events());
            let nv = self.output.stmts();
            assert forall|i: int| 0 <= i < nv.len() implies ((#[trigger] nv[i]) matches StmtView::WriteLiteral { writer, literal }
                ==> writer == self.writer_binding@ && literal.len() > 0) by {
                if i < sv.len() {
                    assert(nv[i] == sv[i]);
                }
            }
        }
    }

    /// Flushes pending literal text, then adds a statement that is not a
    /// literal write.
    pub fn push_statement(&mut self, statement: Stmt)
        requires
            old(self).wf(),
            !(statement@ is WriteLiteral),
        ensures
            final(self).wf(),
            final(self).scope() == old(self).scope(),
            final(self).events() == old(self).events().push(WriteEvent::Other(statement@)),
            final(self).diags() == old(self).diags(),
            final(self).hints() == old(self).hints(),
    {
        self.flush_literal_buffer();
        let ghost mid = self.output.stmts();
        proof {
            lemma_stmts_view_push(self.output.statements@, statement);
        }
        self.output.statements.push(statement);
        proof {
            lemma_flatten_push(mid, statement@);
            assert(stmt_events(statement@) == seq![WriteEvent::Other(statement@)]);
            assert(chars_events(self.literal_buffer@) =~= Seq::<WriteEvent>::empty());
            assert(self.events() =~= old(self).events().push(WriteEvent::Other(statement@)));
            let nv = self.output.stmts();
            assert forall|i: int| 0 <= i < nv.len() implies ((#[trigger] nv[i]) matches StmtView::WriteLiteral { writer, literal }
                ==> writer == self.writer_binding@ && literal.len() > 0) by {
                if i < mid.len() {
                    assert(nv[i] == mid[i]);
                }
            }
        }
    }

    /// Flushes pending literal text, then appends another walk's output
    /// whose literal writes go to the same writer.
    pub fn extend_output(&mut self, other: WalkNodesOutput)
        requires
            old(self).wf(),
            literals_wf(other.stmts(), old(self).writer_binding@),
        ensures
            final(self).wf(),
            final(self).scope() == old(self).scope(),
            final(self).events() == old(self).events() + flatten(other.stmts()),
            final(self).diags() == old(self).diags() + other.diagnostics@.map_values(|d: Diagnostic| d@),
            final(self).hints() == old(self).hints() + other.component_symbol_hints@.map_values(|h: ComponentSymbolHint| h@),
    {
        self.flush_literal_buffer();
        let ghost mid = self.output.statements@;
        let ghost mid_d = self.output.diagnostics@;
        let ghost mid_h = self.output.component_symbol_hints@;
        let ghost ostmts = other.statements@;
        let ghost od = other.diagnostics@;
        let ghost oh = other.component_symbol_hints@;
        self.output.extend(other);
        proof {
            lemma_stmts_view_append(mid, ostmts);
            lemma_flatten_append(stmts_view_of(mid), stmts_view_of(ostmts));
            lemma_literals_wf_append(stmts_view_of(mid), stmts_view_of(ostmts), self.writer_binding@);
            assert(chars_events(self.literal_buffer@) =~= Seq::<WriteEvent>::empty());
            assert(self.events() =~= old(self).events() + flatten(stmts_view_of(ostmts)));
            assert(self.diags() =~= old(self).diags() + od.map_values(|d: Diagnostic| d@));
            assert(self.hints() =~= old(self).hints() + oh.map_values(|h: ComponentSymbolHint| h@));
        }
    }

    /// Flushes pending literal text and returns the output with adjacent
    /// literal writes merged: the canonical statements of the walk's
    /// events.
    pub fn into_output(self) -> (out: WalkNodesOutput)
        requires
            self.wf(),
        ensures
            out.stmts() == group(self.events(), self.writer_binding@),
            literals_wf(out.stmts(), self.writer_binding@),
            flatten(out.stmts()) == self.events(),
            out.diagnostics@.map_values(|d: Diagnostic| d@) == self.diags(),
            out.component_symbol_hints@.map_values(|h: ComponentSymbolHint| h@) == self.hints(),
    {
        let mut this = self;
        this.flush_literal_buffer();
        let ghost before = this.output.stmts();
        let ghost w = this.writer_binding@;
        let mut out = this.output;
        out.coalesce_literal_write_statements();
        proof {
            assert(chars_events(this.literal_buffer@) =~= Seq::<WriteEvent>::empty());
            assert(self.events() =~= flatten(before));
            assert(literals_wf(before, w));
            lemma_events_wf_flatten(before);
            lemma_group_wf(flatten(before), w);
        }
        out
    }
}

/// The views of some statements (a name for `stmts_view`).
pub open spec fn stmts_view_of(v: Seq<Stmt>) -> Seq<StmtView> {
    crate::plan::stmts_view(v)
}

} // verus!

verus! {

/// The expression inside any invisible groups and parentheses.
pub fn strip_grouping_expr(expression: &ExprShape) -> (r: &ExprShape)
    ensures
        *r == strip_grouping_spec(*expression),
    decreases expression,
{
    match expression {
        ExprShape::Group(inner) => strip_grouping_expr(inner),
        ExprShape::Paren(inner) => strip_grouping_expr(inner),
        _ => expression,
    }
}

/// The escaped text of an attribute value known at compile time: a string
/// literal, perhaps in parentheses.
pub fn compile_time_attr_string_literal(value: &ExprShape) -> (r: Option<String>)
    ensures
        opt_view(r) == compile_time_attr_spec(*value),
{
    match strip_grouping_expr(value) {
        ExprShape::StrLit(literal) => Some(escape_html_literal(literal.as_str())),
        _ => None,
    }
}

/// Whether an element name is one of the void elements.
pub fn is_void_element(name: &str) -> (r: bool)
    ensures
        r == is_void_element_spec(name@),
{
    proof {
        reveal_strlit("area");
        reveal_strlit("base");
        reveal_strlit("br");
        reveal_strlit("col");
        reveal_strlit("embed");
        reveal_strlit("hr");
        reveal_strlit("img");
        reveal_strlit("input");
        reveal_strlit("link");
        reveal_strlit("meta");
        reveal_strlit("param");
        reveal_strlit("source");
        reveal_strlit("track");
        reveal_strlit("wbr");
    }
    str_equal(name, "area") || str_equal(name, "base") || str_equal(name, "br") || str_equal(
        name,
        "col",
    ) || str_equal(name, "embed") || str_equal(name, "hr") || str_equal(name, "img") || str_equal(
        name,
        "input",
    ) || str_equal(name, "link") || str_equal(name, "meta") || str_equal(name, "param")
        || str_equal(name, "source") || str_equal(name, "track") || str_equal(name, "wbr")
}

/// The void elements, in the order the markup parser is given them.
pub open spec fn void_element_seq() -> Seq<Seq<char>> {
    seq![
        "area"@, "base"@, "br"@, "col"@, "embed"@, "hr"@, "img"@, "input"@, "link"@, "meta"@,
        "param"@, "source"@, "track"@, "wbr"@,
    ]
}

/// The names of the void elements, for the markup parser to close them
/// itself.
pub fn void_element_names() -> (r: Vec<&'static str>)
    ensures
        r@.map_values(|s: &'static str| s@) == void_element_seq(),
        forall|i: int| 0 <= i < r@.len() ==> is_void_element_spec((#[trigger] r@[i])@),
        forall|name: Seq<char>| is_void_element_spec(name) ==> exists|i: int| 0 <= i < r@.len() && (#[trigger] r@[i])@ == name,
{
    proof {
        reveal_strlit("area");
        reveal_strlit("base");
        reveal_strlit("br");
        reveal_strlit("col");
        reveal_strlit("embed");
        reveal_strlit("hr");
        reveal_strlit("img");
        reveal_strlit("input");
        reveal_strlit("link");
        reveal_strlit("meta");
        reveal_strlit("param");
        reveal_strlit("source");
        reveal_strlit("track");
        reveal_strlit("wbr");
    }
    let r = vec![
        "area", "base", "br", "col", "embed", "hr", "img", "input", "link", "meta", "param",
        "source", "track", "wbr",
    ];
    assert forall|name: Seq<char>| is_void_element_spec(name) implies exists|i: int| 0 <= i < r@.len() && (#[trigger] r@[i])@ == name by {
        if name == "area"@ { assert(r@[0]@ == name); }
        else if name == "base"@ { assert(r@[1]@ == name); }
        else if name == "br"@ { assert(r@[2]@ == name); }
        else if name == "col"@ { assert(r@[3]@ == name); }
        else if name == "embed"@ { assert(r@[4]@ == name); }
        else if name == "hr"@ { assert(r@[5]@ == name); }
        else if name == "img"@ { assert(r@[6]@ == name); }
        else if name == "input"@ { assert(r@[7]@ == name); }
        else if name == "link"@ { assert(r@[8]@ == name); }
        else if name == "meta"@ { assert(r@[9]@ == name); }
        else if name == "param"@ { assert(r@[10]@ == name); }
        else if name == "source"@ { assert(r@[11]@ == name); }
        else if name == "track"@ { assert(r@[12]@ == name); }
        else { assert(r@[13]@ == name); }
    }
    assert(r@.map_values(|s: &'static str| s@) =~= void_element_seq());
    r
}

/// `a` followed by `b` followed by `c`.
pub fn concat3(a: &str, b: &str, c: &str) -> (r: String)
    ensures
        r@ == a@ + b@ + c@,
{
    let x = concat_str(&string_of(a), b);
    concat_str(&x, c)
}

impl WalkNodes {
    /// Writes one attribute of an HTML element: ` key`, ` key="value"`
    /// with a compile-time string literal escaped in place, or a dynamic
    /// value written as an escaped attribute at run time.
    pub fn visit_attribute(&mut self, attribute: &Attribute)
        requires
            old(self).wf(),
        ensures
            final(self).wf(),
            final(self).scope() == old(self).scope(),
            final(self).events() == old(self).events() + attr_events(*attribute, old(self).writer_binding@),
            final(self).diags() == old(self).diags(),
            final(self).hints() == old(self).hints(),
    {
        let ghost w = self.writer_binding@;
        proof {
            reveal_strlit(" ");
            reveal_strlit("=\"");
            reveal_strlit("\"");
        }
        match attribute {
            Attribute::Block { block, .. } => {
                self.push_write_literal(" ");
                let stmt = Stmt::WriteAttr { writer: self.writer_binding.clone(), expr: *block };
                self.push_statement(stmt);
                assert(self.events() =~= old(self).events() + attr_events(*attribute, w));
            },
            Attribute::Keyed { key, value, .. } => {
                let text = concat_str(&string_of(" "), key.as_str());
                self.push_write_literal(text.as_str());
                let ghost after_key = self.events();
                match value {
                    None => {
                        assert(self.events() =~= old(self).events() + attr_events(*attribute, w));
                    },
                    Some(v) => {
                        self.push_write_literal("=\"");
                        let ghost after_eq = self.events();
                        match compile_time_attr_string_literal(&v.shape) {
                            Some(static_attr_value) => {
                                self.push_write_literal(static_attr_value.as_str());
                            },
                            None => {
                                let stmt = Stmt::WriteAttr { writer: self.writer_binding.clone(), expr: v.expr };
                                self.push_statement(stmt);
                            },
                        }
                        let ghost after_value = self.events();
                        self.push_write_literal("\"");
                        assert(self.events() =~= old(self).events() + attr_events(*attribute, w));
                    },
                }
            },
        }
    }
}

/// Walks attributes in order.
pub fn visit_attributes(attributes: &Vec<Attribute>, visitor: WalkNodes) -> (r: WalkNodes)
    requires
        visitor.wf(),
    ensures
        r.wf(),
        r.scope() == visitor.scope(),
        r.events() == visitor.events() + attrs_events(attributes@, visitor.writer_binding@),
        r.diags() == visitor.diags(),
        r.hints() == visitor.hints(),
{
    let mut v = visitor;
    let ghost w = v.writer_binding@;
    let mut i: usize = 0;
    assert(attributes@.take(0) =~= Seq::<Attribute>::empty());
    assert(v.events() =~= visitor.events() + attrs_events(attributes@.take(0), w));
    while i < attributes.len()
        invariant
            i <= attributes.len(),
            v.wf(),
            v.scope() == visitor.scope(),
            w == visitor.writer_binding@,
            v.events() == visitor.events() + attrs_events(attributes@.take(i as int), w),
            v.diags() == visitor.diags(),
            v.hints() == visitor.hints(),
        decreases attributes.len() - i,
    {
        v.visit_attribute(&attributes[i]);
        assert(attributes@.take(i + 1).drop_last() =~= attributes@.take(i as int));
        assert(v.events() =~= visitor.events() + attrs_events(attributes@.take(i + 1), w));
        i = i + 1;
    }
    assert(attributes@.take(attributes@.len() as int) =~= attributes@);
    v
}

} // verus!

verus! {

/// A prefix of a forest has no more nodes than the forest.
pub proof fn lemma_nodes_size_prefix(nodes: Seq<MarkupNode>, k: int)
    requires
        0 <= k <= nodes.len(),
    ensures
        nodes_size(nodes.take(k)) <= nodes_size(nodes),
        k < nodes.len() ==> nodes_size(nodes.take(k + 1)) == nodes_size(nodes.take(k)) + node_size(nodes[k]),
    decreases nodes.len() - k,
{
    if k < nodes.len() {
        assert(nodes.take(k + 1).subrange(0, k) =~= nodes.take(k));
        assert(nodes.take(k + 1)[k] == nodes[k]);
        lemma_nodes_size_prefix(nodes, k + 1);
    } else {
        assert(nodes.take(k) =~= nodes);
    }
}

/// The number of nodes in a forest, or `None` when it does not fit in a
/// `usize`.
pub fn forest_size(nodes: &Vec<MarkupNode>) -> (r: Option<usize>)
    ensures
        match r {
            Some(n) => n == nodes_size(nodes@),
            None => nodes_size(nodes@) > usize::MAX,
        },
    decreases nodes@, 0nat,
{
    let mut total: usize = 0;
    let mut i: usize = 0;
    assert(nodes@.take(0) =~= Seq::<MarkupNode>::empty());
    while i < nodes.len()
        invariant
            i <= nodes.len(),
            total == nodes_size(nodes@.take(i as int)),
        decreases nodes.len() - i,
    {
        proof {
            lemma_nodes_size_prefix(nodes@, i as int);
            lemma_nodes_size_prefix(nodes@, i + 1);
        }
        match tree_size(&nodes[i]) {
            None => {
                return None;
            },
            Some(n) => {
                if n > usize::MAX - total {
                    return None;
                }
                total = total + n;
            },
        }
        i = i + 1;
    }
    assert(nodes@.take(nodes@.len() as int) =~= nodes@);
    Some(total)
}

/// The number of nodes in a tree, or `None` when it does not fit in a
/// `usize`.
pub fn tree_size(node: &MarkupNode) -> (r: Option<usize>)
    ensures
        match r {
            Some(n) => n == node_size(*node),
            None => node_size(*node) > usize::MAX,
        },
    decreases *node, 1nat,
{
    match node {
        MarkupNode::Fragment { children } | MarkupNode::Element { children, .. } => match forest_size(children) {
            Some(n) => if n < usize::MAX {
                Some(n + 1)
            } else {
                None
            },
            None => None,
        },
        _ => Some(1),
    }
}

/// A copy of a tag path.
pub fn clone_tag_path(p: &crate::markup::TagPath) -> (r: crate::markup::TagPath)
    ensures
        r@ == p@,
{
    let segments = crate::text::clone_strings(&p.segments);
    let r = crate::markup::TagPath { leading_colon: p.leading_colon, segments };
    assert(r@.segments =~= p@.segments);
    r
}

/// A copy of a property value.
pub fn clone_prop_value(v: &PropValue) -> (r: PropValue)
    ensures
        r@ == v@,
{
    match v {
        PropValue::Expr(e) => PropValue::Expr(*e),
        PropValue::BareTrue => PropValue::BareTrue,
        PropValue::Ident(s) => PropValue::Ident(s.clone()),
        PropValue::Children(s) => PropValue::Children(s.clone()),
    }
}

/// Walks a forest in order, threading the shared binding counter.
pub fn visit_nodes(nodes: &Vec<MarkupNode>, visitor: WalkNodes, counter: &mut usize) -> (r: WalkNodes)
    requires
        visitor.wf(),
        *old(counter) + 2 * nodes_size(nodes@) <= usize::MAX,
    ensures
        r.wf(),
        r.scope() == visitor.scope(),
        ({
            let wv = walk_nodes_spec(nodes@, visitor.scope(), *old(counter) as nat);
            &&& r.events() == visitor.events() + wv.events
            &&& r.diags() == visitor.diags() + wv.diags
            &&& r.hints() == visitor.hints() + wv.hints
            &&& *final(counter) == wv.counter
        }),
        *final(counter) <= *old(counter) + 2 * nodes_size(nodes@),
    decreases nodes@, 0nat,
{
    let mut v = visitor;
    let ghost sc = v.scope();
    let ghost start = *counter as nat;
    let mut i: usize = 0;
    proof {
        assert(nodes@.take(0) =~= Seq::<MarkupNode>::empty());
        assert(v.events() =~= visitor.events() + Seq::<WriteEvent>::empty());
        assert(v.diags() =~= visitor.diags() + Seq::<DiagnosticView>::empty());
        assert(v.hints() =~= visitor.hints() + Seq::<HintView>::empty());
        lemma_nodes_size_prefix(nodes@, 0);
    }
    while i < nodes.len()
        invariant
            i <= nodes.len(),
            v.wf(),
            v.scope() == sc,
            sc == visitor.scope(),
            start == *old(counter),
            start + 2 * nodes_size(nodes@) <= usize::MAX,
            *counter <= start + 2 * nodes_size(nodes@.take(i as int)),
            ({
                let wv = walk_nodes_spec(nodes@.take(i as int), sc, start);
                &&& v.events() == visitor.events() + wv.events
                &&& v.diags() == visitor.diags() + wv.diags
                &&& v.hints() == visitor.hints() + wv.hints
                &&& *counter == wv.counter
            }),
        decreases nodes.len() - i,
    {
        let ghost before = v;
        let ghost c0 = *counter as nat;
        proof {
            lemma_nodes_size_prefix(nodes@, i as int);
            lemma_nodes_size_prefix(nodes@, i + 1);
            assert(nodes@.take(i + 1).subrange(0, i as int) =~= nodes@.take(i as int));
            assert(nodes@.take(i + 1)[i as int] == nodes@[i as int]);
        }
        v.visit_node(&nodes[i], counter);
        proof {
            let a = walk_nodes_spec(nodes@.take(i as int), sc, start);
            let b = walk_node_spec(nodes@[i as int], sc, c0);
            assert(v.events() =~= visitor.events() + (a.events + b.events));
            assert(v.diags() =~= visitor.diags() + (a.diags + b.diags));
            assert(v.hints() =~= visitor.hints() + (a.hints + b.hints));
        }
        i = i + 1;
    }
    proof {
        assert(nodes@.take(nodes@.len() as int) =~= nodes@);
    }
    v
}

impl WalkNodes {
    /// Walks one node.
    pub fn visit_node(&mut self, node: &MarkupNode, counter: &mut usize)
        requires
            old(self).wf(),
            *old(counter) + 2 * node_size(*node) <= usize::MAX,
        ensures
            final(self).wf(),
            final(self).scope() == old(self).scope(),
            ({
                let wv = walk_node_spec(*node, old(self).scope(), *old(counter) as nat);
                &&& final(self).events() == old(self).events() + wv.events
                &&& final(self).diags() == old(self).diags() + wv.diags
                &&& final(self).hints() == old(self).hints() + wv.hints
                &&& *final(counter) == wv.counter
            }),
            *final(counter) <= *old(counter) + 2 * node_size(*node),
        decreases *node, 3nat,
    {
        proof {
            reveal_strlit("<!DOCTYPE ");
            reveal_strlit(">");
            reveal_strlit("<!-- ");
            reveal_strlit(" -->");
        }
        match node {
            MarkupNode::Doctype { value } => {
                let text = concat3("<!DOCTYPE ", value.as_str(), ">");
                self.push_write_literal(text.as_str());
                proof { self.lemma_nothing_else(); }
            },
            MarkupNode::Text { value, .. } => {
                self.push_write_literal(value.as_str());
                proof { self.lemma_nothing_else(); }
            },
            MarkupNode::RawText { text } => {
                self.push_write_literal(text.as_str());
                proof { self.lemma_nothing_else(); }
            },
            MarkupNode::Comment { text } => {
                let t = concat3("<!-- ", text.as_str(), " -->");
                self.push_write_literal(t.as_str());
                proof { self.lemma_nothing_else(); }
            },
            MarkupNode::Block { block } => {
                let stmt = Stmt::WriteText { writer: self.writer_binding.clone(), expr: *block };
                self.push_statement(stmt);
                proof {
                    self.lemma_nothing_else();
                    assert(old(self).events().push(WriteEvent::Other(stmt@)) =~= old(self).events()
                        + seq![WriteEvent::Other(stmt@)]);
                }
            },
            MarkupNode::Fragment { children } => {
                let visitor = self.child_output(self.writer_binding.clone());
                let child = visit_nodes(children, visitor, counter);
                let out = child.into_output();
                self.extend_output(out);
                proof {
                    let wv = walk_nodes_spec(children@, old(self).scope(), *old(counter) as nat);
                    assert(child.events() =~= wv.events);
                    assert(child.diags() =~= wv.diags);
                    assert(child.hints() =~= wv.hints);
                }
            },
            MarkupNode::Element { name, attributes, children } => {
                if let Some(paths) = component_paths(name) {
                    self.visit_component(name, attributes, children, paths, counter);
                } else {
                    self.visit_html_element(name, attributes, children, counter);
                }
            },
        }
    }

    /// Nothing but events changed.
    proof fn lemma_nothing_else(&self)
        ensures
            self.diags() == self.diags() + Seq::<DiagnosticView>::empty(),
            self.hints() == self.hints() + Seq::<HintView>::empty(),
    {
        assert(self.diags() =~= self.diags() + Seq::<DiagnosticView>::empty());
        assert(self.hints() =~= self.hints() + Seq::<HintView>::empty());
    }
}

} // verus!

verus! {

/// The props fields for parsed props: one per property whose key is a
/// Rust identifier, in order; a diagnostic is added for every other key.
pub fn props_fields_of(props: &Vec<crate::props::ParsedComponentProp>, diagnostics: &mut Vec<Diagnostic>) -> (fields: Vec<PropField>)
    ensures
        ({
            let (f, d) = prop_fields_spec(props@.map_values(|p: crate::props::ParsedComponentProp| p@));
            &&& fields@.map_values(|x: PropField| x@) == f
            &&& final(diagnostics)@.map_values(|x: Diagnostic| x@) == old(diagnostics)@.map_values(|x: Diagnostic| x@) + d
        }),
{
    let ghost pv = props@.map_values(|p: crate::props::ParsedComponentProp| p@);
    let mut fields: Vec<PropField> = Vec::new();
    let mut j: usize = 0;
    proof {
        assert(pv.take(0) =~= Seq::<PropView>::empty());
        assert(fields@.map_values(|x: PropField| x@) =~= Seq::<PropFieldView>::empty());
        assert(diagnostics@.map_values(|x: Diagnostic| x@) =~= old(diagnostics)@.map_values(|x: Diagnostic| x@) + Seq::<DiagnosticView>::empty());
    }
    while j < props.len()
        invariant
            j <= props.len(),
            pv == props@.map_values(|p: crate::props::ParsedComponentProp| p@),
            ({
                let (f, d) = prop_fields_spec(pv.take(j as int));
                &&& fields@.map_values(|x: PropField| x@) == f
                &&& diagnostics@.map_values(|x: Diagnostic| x@) == old(diagnostics)@.map_values(|x: Diagnostic| x@) + d
            }),
        decreases props.len() - j,
    {
        let prop = &props[j];
        proof {
            assert(pv.take(j + 1).drop_last() =~= pv.take(j as int));
            assert(pv.take(j + 1).last() == prop@);
        }
        let ghost fv = fields@.map_values(|x: PropField| x@);
        let ghost dv = diagnostics@.map_values(|x: Diagnostic| x@);
        match ident_from_prop_key(&prop.key, prop.key_span) {
            Ok(ident) => {
                let field = PropField { name: ident, span: prop.key_span, value: clone_prop_value(&prop.value) };
                fields.push(field);
                assert(fields@.map_values(|x: PropField| x@) =~= fv.push(field@));
            },
            Err(diagnostic) => {
                let ghost d = diagnostic@;
                diagnostics.push(diagnostic);
                assert(diagnostics@.map_values(|x: Diagnostic| x@) =~= dv.push(d));
            },
        }
        j = j + 1;
    }
    assert(pv.take(props.len() as int) =~= pv);
    fields
}

impl WalkNodes {
    /// Walks an HTML element.
    pub fn visit_html_element(
        &mut self,
        name: &TagName,
        attributes: &Vec<Attribute>,
        children: &Vec<MarkupNode>,
        counter: &mut usize,
    )
        requires
            old(self).wf(),
            *old(counter) + 2 * nodes_size(children@) <= usize::MAX,
        ensures
            final(self).wf(),
            final(self).scope() == old(self).scope(),
            ({
                let wv = walk_html_spec(*name, attributes@, children@, old(self).scope(), *old(counter) as nat);
                &&& final(self).events() == old(self).events() + wv.events
                &&& final(self).diags() == old(self).diags() + wv.diags
                &&& final(self).hints() == old(self).hints() + wv.hints
                &&& *final(counter) == wv.counter
            }),
            *final(counter) <= *old(counter) + 2 * nodes_size(children@),
        decreases children@, 2nat,
    {
        proof {
            reveal_strlit("<");
            reveal_strlit("/>");
            reveal_strlit(">");
            reveal_strlit("</");
        }
        let ghost sc = self.scope();
        let open = concat_str(&string_of("<"), name.text.as_str());
        self.push_write_literal(open.as_str());
        let visitor = self.child_output(self.writer_binding.clone());
        let attribute_visitor = visit_attributes(attributes, visitor);
        let attr_out = attribute_visitor.into_output();
        self.extend_output(attr_out);
        proof {
            assert(attr_out.diagnostics@.map_values(|d: Diagnostic| d@) =~= Seq::<DiagnosticView>::empty());
            assert(attr_out.component_symbol_hints@.map_values(|h: ComponentSymbolHint| h@) =~= Seq::<HintView>::empty());
        }
        let ghost after_open = self.events();
        if is_void_element(name.text.as_str()) {
            let ghost d0 = self.diags();
            if children.len() > 0 {
                let d = Diagnostic { level: Level::Warning, span: name.span, kind: DiagnosticKind::ChildrenOnVoidElement };
                self.output.diagnostics.push(d);
                assert(self.diags() =~= d0.push(d@));
            }
            self.push_write_literal("/>");
            proof {
                let wv = walk_html_spec(*name, attributes@, children@, sc, *old(counter) as nat);
                assert(self.events() =~= old(self).events() + wv.events);
                assert(self.diags() =~= old(self).diags() + wv.diags);
                assert(self.hints() =~= old(self).hints() + wv.hints);
            }
            return;
        }
        self.push_write_literal(">");
        let visitor = self.child_output(self.writer_binding.clone());
        let child = visit_nodes(children, visitor, counter);
        let child_out = child.into_output();
        self.extend_output(child_out);
        let close = concat3("</", name.text.as_str(), ">");
        self.push_write_literal(close.as_str());
        proof {
            let wv = walk_html_spec(*name, attributes@, children@, sc, *old(counter) as nat);
            let cw = walk_nodes_spec(children@, sc, *old(counter) as nat);
            assert(child.events() =~= cw.events);
            assert(self.events() =~= old(self).events() + wv.events);
            assert(self.diags() =~= old(self).diags() + wv.diags);
            assert(self.hints() =~= old(self).hints() + wv.hints);
        }
    }
}

} // verus!

verus! {

impl WalkNodes {
    /// Renders a component's child nodes into a fresh `String` buffer
    /// through a fresh writer binding, and returns the `children` prop that
    /// passes the buffer on.
    pub fn capture_children(&mut self, name: &TagName, children: &Vec<MarkupNode>, counter: &mut usize) -> (field: PropField)
        requires
            old(self).wf(),
            *old(counter) + 2 + 2 * nodes_size(children@) <= usize::MAX,
        ensures
            final(self).wf(),
            final(self).scope() == old(self).scope(),
            ({
                let c0 = *old(counter) as nat;
                let buffer = ident_name_spec("children"@, c0);
                let cw = ident_name_spec("children_out"@, c0 + 1);
                let sc = old(self).scope();
                let child = walk_nodes_spec(children@, Scope { mode: sc.mode, writer: cw, context: sc.context }, c0 + 2);
                &&& final(self).events() == old(self).events().push(WriteEvent::Other(
                    StmtView::CaptureChildren { buffer, writer: cw, body: group(child.events, cw) }))
                &&& final(self).diags() == old(self).diags() + child.diags
                &&& final(self).hints() == old(self).hints() + child.hints
                &&& *final(counter) == child.counter
                &&& field@ == (PropFieldView { name: "children"@, span: name.span, value: PropValueView::Children(buffer) })
            }),
            *final(counter) <= *old(counter) + 2 + 2 * nodes_size(children@),
        decreases children@, 1nat,
    {
        proof {
            reveal_strlit("children");
            reveal_strlit("children_out");
        }
        let children_ident = WalkNodes::next_ident(counter, "children");
        let children_writer_ident = WalkNodes::next_ident(counter, "children_out");
        let child_visitor = self.child_output(children_writer_ident.clone());
        let child = visit_nodes(children, child_visitor, counter);
        let WalkNodesOutput { statements: child_statements, diagnostics: mut child_diagnostics, component_symbol_hints: mut child_hints } = child.into_output();
        let ghost cd = child_diagnostics@.map_values(|d: Diagnostic| d@);
        let ghost ch = child_hints@.map_values(|h: ComponentSymbolHint| h@);
        let ghost dd = self.diags();
        let ghost hh = self.hints();
        self.output.diagnostics.append(&mut child_diagnostics);
        self.output.component_symbol_hints.append(&mut child_hints);
        assert(self.diags() =~= dd + cd);
        assert(self.hints() =~= hh + ch);
        let capture_stmt = Stmt::CaptureChildren {
            buffer: children_ident.clone(),
            writer: children_writer_ident,
            body: child_statements,
        };
        self.push_statement(capture_stmt);
        proof {
            assert(child.events() =~= Seq::<WriteEvent>::empty() + child.events());
        }
        PropField {
            name: string_of("children"),
            span: name.span,
            value: PropValue::Children(children_ident),
        }
    }
}

} // verus!

verus! {

impl WalkNodes {
    /// Walks a component element into a component call.
    #[verifier::spinoff_prover]
    #[verifier::rlimit(80)]
    pub fn visit_component(
        &mut self,
        name: &TagName,
        attributes: &Vec<Attribute>,
        children: &Vec<MarkupNode>,
        paths: crate::props::ComponentTagPaths,
        counter: &mut usize,
    )
        requires
            old(self).wf(),
            *old(counter) + 2 + 2 * nodes_size(children@) <= usize::MAX,
            component_paths_spec(*name) matches Some((f, p)) && paths.component_fn_path@ == f
                && paths.props_type_path@ == p,
        ensures
            final(self).wf(),
            final(self).scope() == old(self).scope(),
            ({
                let wv = walk_component_spec(
                    *name,
                    attributes@,
                    children@,
                    paths.component_fn_path@,
                    paths.props_type_path@,
                    old(self).scope(),
                    *old(counter) as nat,
                );
                &&& final(self).events() == old(self).events() + wv.events
                &&& final(self).diags() == old(self).diags() + wv.diags
                &&& final(self).hints() == old(self).hints() + wv.hints
                &&& *final(counter) == wv.counter
            }),
            *final(counter) <= *old(counter) + 2 + 2 * nodes_size(children@),
        decreases children@, 2nat,
    {
        proof {
            reveal_strlit("children");
            reveal_strlit("children_out");
        }
        let ghost sc = self.scope();
        let ghost c0 = *counter as nat;
        let ghost fn_path = paths.component_fn_path@;
        let ghost props_path = paths.props_type_path@;
        let hint = ComponentSymbolHint {
            component_fn_path: clone_tag_path(&paths.component_fn_path),
            props_type_path: clone_tag_path(&paths.props_type_path),
        };
        let ghost h0 = self.hints();
        self.output.component_symbol_hints.push(hint);
        assert(self.hints() =~= h0.push(hint@));

        let component_label = name.text.clone();
        let mut parsed_props = parse_component_props(&component_label, attributes);
        let ghost pp = parsed_props@;
        let ghost pdiag0 = parsed_props.diagnostics@.map_values(|d: Diagnostic| d@);
        if parsed_props.has_children_prop && children.len() > 0 {
            let span = match parsed_props.children_key_span {
                Some(s) => s,
                None => name.span,
            };
            let conflict = Diagnostic { level: Level::Error, span, kind: DiagnosticKind::ChildrenConflict };
            parsed_props.diagnostics.push(conflict);
            assert(parsed_props.diagnostics@.map_values(|d: Diagnostic| d@) =~= pdiag0.push(conflict@));
        }
        let ghost pdiag1 = parsed_props.diagnostics@.map_values(|d: Diagnostic| d@);
        let mut props_fields = props_fields_of(&parsed_props.props, &mut parsed_props.diagnostics);
        let ghost fields0 = props_fields@.map_values(|x: PropField| x@);
        let ghost pdiag2 = parsed_props.diagnostics@.map_values(|d: Diagnostic| d@);

        let capture = !parsed_props.has_children_prop && children.len() > 0;
        let ghost buffer_name = ident_name_spec("children"@, c0);
        let ghost cw_name = ident_name_spec("children_out"@, c0 + 1);
        let ghost child_wv = walk_nodes_spec(
            children@,
            Scope { mode: sc.mode, writer: cw_name, context: sc.context },
            c0 + 2,
        );
        let ghost e0 = self.events();
        let ghost d0 = self.diags();
        let ghost hh0 = self.hints();
        if capture {
            let field = self.capture_children(name, children, counter);
            let ghost fv = props_fields@.map_values(|x: PropField| x@);
            props_fields.push(field);
            assert(props_fields@.map_values(|x: PropField| x@) =~= fv.push(field@));
        }
        let ghost e1 = self.events();
        let ghost d1 = self.diags();
        let ghost h1 = self.hints();
        let mut pd = parsed_props.diagnostics;
        self.output.diagnostics.append(&mut pd);
        assert(self.diags() =~= d1 + pdiag2);
        let ghost d2 = self.diags();

        if parsed_props.async_marker_span.is_some() && !self.compile_mode.is_async() {
            let span = match parsed_props.async_marker_span {
                Some(s) => s,
                None => name.span,
            };
            let d = Diagnostic { level: Level::Error, span, kind: DiagnosticKind::AsyncMarkerInSyncMacro };
            self.output.diagnostics.push(d);
            assert(self.diags() =~= d2.push(d@));
        }
        let ghost d3 = self.diags();
        let awaited = parsed_props.async_marker_span.is_some() && self.compile_mode.is_async();
        let ghost fields_v = props_fields@.map_values(|x: PropField| x@);
        let call_stmt = if self.compile_mode.uses_context() {
            match &self.context_binding {
                Some(ctx) => Stmt::CallComponent {
                    component: paths.component_fn_path,
                    props_type: paths.props_type_path,
                    writer: self.writer_binding.clone(),
                    context: Some(ctx.clone()),
                    fields: props_fields,
                    awaited,
                    span: name.span,
                },
                None => {
                    let d = Diagnostic { level: Level::Error, span: name.span, kind: DiagnosticKind::MissingContextBinding };
                    self.output.diagnostics.push(d);
                    assert(self.diags() =~= d3.push(d@));
                    Stmt::Empty
                },
            }
        } else {
            Stmt::CallComponent {
                component: paths.component_fn_path,
                props_type: paths.props_type_path,
                writer: self.writer_binding.clone(),
                context: None,
                fields: props_fields,
                awaited,
                span: name.span,
            }
        };
        let ghost sv = call_stmt@;
        self.push_statement(call_stmt);
        proof {
            let wv = walk_component_spec(*name, attributes@, children@, fn_path, props_path, sc, c0);
            let (f0, idd) = prop_fields_spec(pp.props);
            assert(pdiag2 == pp.diagnostics + (pdiag1.subrange(pp.diagnostics.len() as int, pdiag1.len() as int)) + idd) by {
                assert(pdiag1 =~= pp.diagnostics + pdiag1.subrange(pp.diagnostics.len() as int, pdiag1.len() as int));
            }
            assert(self.events() =~= old(self).events() + wv.events);
            assert(self.diags() =~= old(self).diags() + wv.diags);
            assert(self.hints() =~= old(self).hints() + wv.hints);
        }
    }
}

} // verus!
