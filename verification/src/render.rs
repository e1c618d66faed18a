//! Static markup: markup without expressions or components, its HTML text,
//! and the law that such markup compiles to a single write of that text.
use vstd::prelude::*;
use crate::compile::{top_scope, writer_binding_spec};
use crate::emit::{chars_events, group, lemma_chars_events_append, lemma_group_text};
use crate::markup::{Attribute, MarkupNode};
use crate::modes::CompileMode;
use crate::plan::StmtView;
use crate::props::component_paths_spec;
use crate::walk::{
    attr_events, attrs_events, compile_time_attr_spec, is_void_element_spec, walk_html_spec,
    walk_node_spec, walk_nodes_spec, Scope,
};

verus! {

/// An attribute whose text is known at compile time: a bare key, or a key
/// with a string literal value.
pub open spec fn static_attr(a: Attribute) -> bool {
    match a {
        Attribute::Block { .. } => false,
        Attribute::Keyed { value, .. } => match value {
            None => true,
            Some(v) => compile_time_attr_spec(v.shape) is Some,
        },
    }
}

/// The HTML text of a static attribute: ` key` or ` key="escaped value"`.
pub open spec fn attr_text(a: Attribute) -> Seq<char> {
    match a {
        Attribute::Block { .. } => Seq::empty(),
        Attribute::Keyed { key, value, .. } => " "@ + key@ + match value {
            None => Seq::empty(),
            Some(v) => "=\""@ + compile_time_attr_spec(v.shape)->Some_0 + "\""@,
        },
    }
}

/// Whether every attribute is static.
pub open spec fn static_attrs(attrs: Seq<Attribute>) -> bool {
    forall|i: int| 0 <= i < attrs.len() ==> static_attr(#[trigger] attrs[i])
}

/// The HTML text of static attributes, in order.
pub open spec fn attrs_text(attrs: Seq<Attribute>) -> Seq<char>
    decreases attrs.len(),
{
    if attrs.len() == 0 {
        Seq::empty()
    } else {
        attrs_text(attrs.drop_last()) + attr_text(attrs.last())
    }
}

/// Whether a forest has no expressions and no components.
pub open spec fn static_nodes(nodes: Seq<MarkupNode>) -> bool
    decreases nodes, 0nat,
{
    if nodes.len() == 0 {
        true
    } else {
        static_nodes(nodes.subrange(0, nodes.len() - 1)) && static_node(nodes[nodes.len() - 1])
    }
}

/// Whether a node has no expressions and no components.
pub open spec fn static_node(node: MarkupNode) -> bool
    decreases node, 1nat,
{
    match node {
        MarkupNode::Block { .. } => false,
        MarkupNode::Fragment { children } => static_nodes(children@),
        MarkupNode::Element { name, attributes, children } => component_paths_spec(name) is None
            && static_attrs(attributes@) && static_nodes(children@),
        _ => true,
    }
}

/// The HTML text of a static forest.
pub open spec fn render_nodes(nodes: Seq<MarkupNode>) -> Seq<char>
    decreases nodes, 0nat,
{
    if nodes.len() == 0 {
        Seq::empty()
    } else {
        render_nodes(nodes.subrange(0, nodes.len() - 1)) + render_node(nodes[nodes.len() - 1])
    }
}

/// The HTML text of a static node: text as it is, doctypes and comments
/// spelled out, an element as `<name attrs>children</name>`, or
/// `<name attrs/>` for a void element (whose children are left out).
pub open spec fn render_node(node: MarkupNode) -> Seq<char>
    decreases node, 1nat,
{
    match node {
        MarkupNode::Doctype { value } => "<!DOCTYPE "@ + value@ + ">"@,
        MarkupNode::Text { value, .. } => value@,
        MarkupNode::RawText { text } => text@,
        MarkupNode::Comment { text } => "<!-- "@ + text@ + " -->"@,
        MarkupNode::Block { .. } => Seq::empty(),
        MarkupNode::Fragment { children } => render_nodes(children@),
        MarkupNode::Element { name, attributes, children } => if is_void_element_spec(name.text@) {
            "<"@ + name.text@ + attrs_text(attributes@) + "/>"@
        } else {
            "<"@ + name.text@ + attrs_text(attributes@) + ">"@ + render_nodes(children@) + "</"@
                + name.text@ + ">"@
        },
    }
}

/// The events of static attributes are the characters of their text.
proof fn lemma_static_attrs_events(attrs: Seq<Attribute>, w: Seq<char>)
    requires
        static_attrs(attrs),
    ensures
        attrs_events(attrs, w) == chars_events(attrs_text(attrs)),
    decreases attrs.len(),
{
    if attrs.len() > 0 {
        let init = attrs.drop_last();
        assert(static_attrs(init)) by {
            assert forall|i: int| 0 <= i < init.len() implies static_attr(#[trigger] init[i]) by {
                assert(init[i] == attrs[i]);
            }
        }
        lemma_static_attrs_events(init, w);
        let a = attrs.last();
        assert(static_attr(attrs[attrs.len() - 1]));
        match a {
            Attribute::Keyed { key, value, .. } => {
                match value {
                    None => {
                        assert(chars_events(Seq::<char>::empty()) =~= Seq::<crate::emit::WriteEvent>::empty());
                        assert(attr_text(a) =~= " "@ + key@);
                        assert(attr_events(a, w) =~= chars_events(" "@ + key@));
                    },
                    Some(v) => {
                        let s = compile_time_attr_spec(v.shape)->Some_0;
                        lemma_chars_events_append("=\""@, s);
                        lemma_chars_events_append("=\""@ + s, "\""@);
                        lemma_chars_events_append(" "@ + key@, "=\""@ + s + "\""@);
                        assert(attr_text(a) =~= (" "@ + key@) + ("=\""@ + s + "\""@));
                        assert(attr_events(a, w) =~= chars_events(attr_text(a)));
                    },
                }
            },
            Attribute::Block { .. } => {},
        }
        lemma_chars_events_append(attrs_text(init), attr_text(a));
    }
}

/// Walking a static forest writes exactly its HTML text, adds no symbol
/// hints and takes no binding names.
pub proof fn lemma_static_walk_nodes(nodes: Seq<MarkupNode>, sc: Scope, counter: nat)
    requires
        static_nodes(nodes),
    ensures
        walk_nodes_spec(nodes, sc, counter).events == chars_events(render_nodes(nodes)),
        walk_nodes_spec(nodes, sc, counter).hints == Seq::<crate::plan::HintView>::empty(),
        walk_nodes_spec(nodes, sc, counter).counter == counter,
    decreases nodes, 0nat,
{
    if nodes.len() == 0 {
        assert(chars_events(Seq::<char>::empty()) =~= Seq::<crate::emit::WriteEvent>::empty());
    } else {
        let init = nodes.subrange(0, nodes.len() - 1);
        let last = nodes[nodes.len() - 1];
        lemma_static_walk_nodes(init, sc, counter);
        lemma_static_walk_node(last, sc, counter);
        lemma_chars_events_append(render_nodes(init), render_node(last));
        assert(walk_nodes_spec(nodes, sc, counter).hints =~= Seq::<crate::plan::HintView>::empty());
    }
}

/// Walking a static node writes exactly its HTML text.
pub proof fn lemma_static_walk_node(node: MarkupNode, sc: Scope, counter: nat)
    requires
        static_node(node),
    ensures
        walk_node_spec(node, sc, counter).events == chars_events(render_node(node)),
        walk_node_spec(node, sc, counter).hints == Seq::<crate::plan::HintView>::empty(),
        walk_node_spec(node, sc, counter).counter == counter,
    decreases node, 1nat,
{
    reveal_strlit("<");
    reveal_strlit("/>");
    reveal_strlit(">");
    reveal_strlit("</");
    match node {
        MarkupNode::Fragment { children } => {
            lemma_static_walk_nodes(children@, sc, counter);
        },
        MarkupNode::Element { name, attributes, children } => {
            lemma_static_attrs_events(attributes@, sc.writer);
            let open_text = "<"@ + name.text@ + attrs_text(attributes@);
            lemma_chars_events_append("<"@ + name.text@, attrs_text(attributes@));
            if is_void_element_spec(name.text@) {
                lemma_chars_events_append(open_text, "/>"@);
                assert(render_node(node) =~= open_text + "/>"@);
            } else {
                lemma_static_walk_nodes(children@, sc, counter);
                let inner = render_nodes(children@);
                let close = "</"@ + name.text@ + ">"@;
                lemma_chars_events_append(open_text, ">"@);
                lemma_chars_events_append(open_text + ">"@, inner);
                lemma_chars_events_append(open_text + ">"@ + inner, close);
                assert(render_node(node) =~= open_text + ">"@ + inner + close);
                let wv = walk_html_spec(name, attributes@, children@, sc, counter);
                assert(wv.events =~= chars_events(open_text) + chars_events(">"@) + chars_events(inner)
                    + chars_events(close));
            }
        },
        _ => {},
    }
}

/// Markup without expressions or components compiles to a single literal
/// write of its HTML text to the writer (to no statement at all when the
/// text is empty), with no symbol hints.
pub proof fn lemma_static_markup_is_one_write(nodes: Seq<MarkupNode>, mode: CompileMode)
    requires
        static_nodes(nodes),
    ensures
        group(walk_nodes_spec(nodes, top_scope(mode), 0).events, writer_binding_spec()) == if render_nodes(
            nodes,
        ).len() == 0 {
            Seq::<StmtView>::empty()
        } else {
            seq![StmtView::WriteLiteral { writer: writer_binding_spec(), literal: render_nodes(nodes) }]
        },
        walk_nodes_spec(nodes, top_scope(mode), 0).hints == Seq::<crate::plan::HintView>::empty(),
{
    lemma_static_walk_nodes(nodes, top_scope(mode), 0);
    lemma_group_text(render_nodes(nodes), writer_binding_spec());
}

/// A void element is written the same whatever its children: they never
/// reach the output, and they earn a warning exactly when there are any.
pub proof fn lemma_void_element_drops_children(
    name: crate::markup::TagName,
    attributes: Seq<Attribute>,
    children: Seq<MarkupNode>,
    sc: Scope,
    counter: nat,
)
    requires
        is_void_element_spec(name.text@),
    ensures
        walk_html_spec(name, attributes, children, sc, counter).events == walk_html_spec(
            name,
            attributes,
            Seq::empty(),
            sc,
            counter,
        ).events,
        walk_html_spec(name, attributes, children, sc, counter).counter == counter,
        walk_html_spec(name, attributes, children, sc, counter).diags.len() == if children.len() > 0 {
            1int
        } else {
            0int
        },
{
}

/// Whether every component call in a statement (inside captured children
/// too) is handed `ctx` as its context.
pub open spec fn calls_get_context(s: StmtView, ctx: Option<Seq<char>>) -> bool
    decreases s,
{
    match s {
        StmtView::CallComponent { context, .. } => context == ctx,
        StmtView::CaptureChildren { body, .. } => forall|i: int|
            0 <= i < body.len() ==> calls_get_context(#[trigger] body[i], ctx),
        _ => true,
    }
}

/// Whether every component call among some events is handed `ctx`.
pub open spec fn events_get_context(e: Seq<crate::emit::WriteEvent>, ctx: Option<Seq<char>>) -> bool {
    forall|i: int|
        0 <= i < e.len() ==> match #[trigger] e[i] {
            crate::emit::WriteEvent::Other(s) => calls_get_context(s, ctx),
            _ => true,
        }
}

/// The context that component calls are handed in a scope.
pub open spec fn scope_context(sc: Scope) -> Option<Seq<char>> {
    if sc.mode.spec_uses_context() {
        sc.context
    } else {
        None
    }
}

/// Grouping keeps the property: every canonical statement is a literal
/// write or one of the events' statements.
proof fn lemma_group_keeps_context(e: Seq<crate::emit::WriteEvent>, w: Seq<char>, ctx: Option<Seq<char>>)
    requires
        events_get_context(e, ctx),
    ensures
        forall|k: int| 0 <= k < group(e, w).len() ==> calls_get_context(#[trigger] group(e, w)[k], ctx),
    decreases e.len(),
{
    if e.len() > 0 {
        let init = e.drop_last();
        assert(events_get_context(init, ctx)) by {
            assert forall|i: int| 0 <= i < init.len() implies match #[trigger] init[i] {
                crate::emit::WriteEvent::Other(s) => calls_get_context(s, ctx),
                _ => true,
            } by {
                assert(init[i] == e[i]);
            }
        }
        lemma_group_keeps_context(init, w, ctx);
        let g = group(init, w);
        assert(e[e.len() - 1] == e.last());
        assert forall|k: int| 0 <= k < group(e, w).len() implies calls_get_context(#[trigger] group(e, w)[k], ctx) by {
            if k < g.len() && !(e.last() is Lit && g.len() > 0 && g.last() is WriteLiteral && k == g.len() - 1) {
                assert(group(e, w)[k] == g[k]);
            }
        }
    }
}

/// Events of two walks one after the other.
proof fn lemma_events_context_append(a: Seq<crate::emit::WriteEvent>, b: Seq<crate::emit::WriteEvent>, ctx: Option<Seq<char>>)
    requires
        events_get_context(a, ctx),
        events_get_context(b, ctx),
    ensures
        events_get_context(a + b, ctx),
{
    assert forall|i: int| 0 <= i < (a + b).len() implies match #[trigger] (a + b)[i] {
        crate::emit::WriteEvent::Other(s) => calls_get_context(s, ctx),
        _ => true,
    } by {
        if i < a.len() {
            assert((a + b)[i] == a[i]);
        } else {
            assert((a + b)[i] == b[i - a.len()]);
        }
    }
}

/// Literal characters hold no calls.
proof fn lemma_chars_context(s: Seq<char>, ctx: Option<Seq<char>>)
    ensures
        events_get_context(chars_events(s), ctx),
{
    crate::emit::lemma_chars_events_index(s);
    assert forall|i: int| 0 <= i < chars_events(s).len() implies match #[trigger] chars_events(s)[i] {
        crate::emit::WriteEvent::Other(x) => calls_get_context(x, ctx),
        _ => true,
    } by {
        assert(chars_events(s)[i] == crate::emit::WriteEvent::Lit(s[i]));
    }
}

/// Attributes hold no calls.
proof fn lemma_attrs_context(attrs: Seq<Attribute>, w: Seq<char>, ctx: Option<Seq<char>>)
    ensures
        events_get_context(attrs_events(attrs, w), ctx),
    decreases attrs.len(),
{
    if attrs.len() > 0 {
        lemma_attrs_context(attrs.drop_last(), w, ctx);
        let a = attrs.last();
        let ev = attr_events(a, w);
        assert(events_get_context(ev, ctx)) by {
            match a {
                Attribute::Block { .. } => {
                    lemma_chars_context(" "@, ctx);
                    lemma_events_context_append(chars_events(" "@), seq![crate::emit::WriteEvent::Other(StmtView::WriteAttr { writer: w, expr: a->block })], ctx);
                },
                Attribute::Keyed { key, value, .. } => {
                    lemma_chars_context(" "@ + key@, ctx);
                    match value {
                        None => {
                            lemma_events_context_append(chars_events(" "@ + key@), Seq::empty(), ctx);
                        },
                        Some(v) => {
                            lemma_chars_context("=\""@, ctx);
                            lemma_chars_context("\""@, ctx);
                            let mid = match compile_time_attr_spec(v.shape) {
                                Some(s) => chars_events(s),
                                None => seq![crate::emit::WriteEvent::Other(StmtView::WriteAttr { writer: w, expr: v.expr })],
                            };
                            match compile_time_attr_spec(v.shape) {
                                Some(s) => lemma_chars_context(s, ctx),
                                None => {},
                            }
                            lemma_events_context_append(chars_events("=\""@), mid, ctx);
                            lemma_events_context_append(chars_events("=\""@) + mid, chars_events("\""@), ctx);
                            lemma_events_context_append(chars_events(" "@ + key@), chars_events("=\""@) + mid + chars_events("\""@), ctx);
                        },
                    }
                },
            }
        }
        lemma_events_context_append(attrs_events(attrs.drop_last(), w), ev, ctx);
    }
}

/// In a walk, every component call is handed the scope's context.
pub proof fn lemma_walk_nodes_context(nodes: Seq<MarkupNode>, sc: Scope, counter: nat)
    ensures
        events_get_context(walk_nodes_spec(nodes, sc, counter).events, scope_context(sc)),
    decreases nodes, 0nat,
{
    if nodes.len() == 0 {
    } else {
        let init = nodes.subrange(0, nodes.len() - 1);
        lemma_walk_nodes_context(init, sc, counter);
        let a = walk_nodes_spec(init, sc, counter);
        lemma_walk_node_context(nodes[nodes.len() - 1], sc, a.counter);
        lemma_events_context_append(a.events, walk_node_spec(nodes[nodes.len() - 1], sc, a.counter).events, scope_context(sc));
    }
}

/// In the walk of a node, every component call is handed the scope's
/// context.
pub proof fn lemma_walk_node_context(node: MarkupNode, sc: Scope, counter: nat)
    ensures
        events_get_context(walk_node_spec(node, sc, counter).events, scope_context(sc)),
    decreases node, 2nat,
{
    let ctx = scope_context(sc);
    match node {
        MarkupNode::Doctype { value } => lemma_chars_context("<!DOCTYPE "@ + value@ + ">"@, ctx),
        MarkupNode::Text { value, .. } => lemma_chars_context(value@, ctx),
        MarkupNode::RawText { text } => lemma_chars_context(text@, ctx),
        MarkupNode::Comment { text } => lemma_chars_context("<!-- "@ + text@ + " -->"@, ctx),
        MarkupNode::Fragment { children } => lemma_walk_nodes_context(children@, sc, counter),
        MarkupNode::Block { block } => {
            let e = seq![crate::emit::WriteEvent::Other(StmtView::WriteText { writer: sc.writer, expr: block })];
            assert(e[0] == crate::emit::WriteEvent::Other(StmtView::WriteText { writer: sc.writer, expr: block }));
        },
        MarkupNode::Element { name, attributes, children } => match component_paths_spec(name) {
            Some((f, p)) => lemma_walk_component_context(name, attributes@, children@, f, p, sc, counter),
            None => lemma_walk_html_context(name, attributes@, children@, sc, counter),
        },
    }
}

/// In the walk of an HTML element, every component call is handed the
/// scope's context.
proof fn lemma_walk_html_context(
    name: crate::markup::TagName,
    attributes: Seq<Attribute>,
    children: Seq<MarkupNode>,
    sc: Scope,
    counter: nat,
)
    ensures
        events_get_context(walk_html_spec(name, attributes, children, sc, counter).events, scope_context(sc)),
    decreases children, 1nat,
{
    let ctx = scope_context(sc);
    lemma_chars_context("<"@ + name.text@, ctx);
    lemma_attrs_context(attributes, sc.writer, ctx);
    let open = chars_events("<"@ + name.text@) + attrs_events(attributes, sc.writer);
    lemma_events_context_append(chars_events("<"@ + name.text@), attrs_events(attributes, sc.writer), ctx);
    if is_void_element_spec(name.text@) {
        lemma_chars_context("/>"@, ctx);
        lemma_events_context_append(open, chars_events("/>"@), ctx);
    } else {
        lemma_walk_nodes_context(children, sc, counter);
        let child = walk_nodes_spec(children, sc, counter);
        lemma_chars_context(">"@, ctx);
        lemma_chars_context("</"@ + name.text@ + ">"@, ctx);
        lemma_events_context_append(open, chars_events(">"@), ctx);
        lemma_events_context_append(open + chars_events(">"@), child.events, ctx);
        lemma_events_context_append(open + chars_events(">"@) + child.events, chars_events("</"@ + name.text@ + ">"@), ctx);
    }
}

/// In the walk of a component element, the call (and every call inside its
/// captured children) is handed the scope's context.
proof fn lemma_walk_component_context(
    name: crate::markup::TagName,
    attributes: Seq<Attribute>,
    children: Seq<MarkupNode>,
    fn_path: crate::plan::TagPathView,
    props_path: crate::plan::TagPathView,
    sc: Scope,
    counter: nat,
)
    ensures
        events_get_context(
            crate::walk::walk_component_spec(name, attributes, children, fn_path, props_path, sc, counter).events,
            scope_context(sc),
        ),
    decreases children, 1nat,
{
    let ctx = scope_context(sc);
    let cw = crate::walk::ident_name_spec("children_out"@, counter + 1);
    let csc = Scope { mode: sc.mode, writer: cw, context: sc.context };
    lemma_walk_nodes_context(children, csc, counter + 2);
    let child = walk_nodes_spec(children, csc, counter + 2);
    assert(scope_context(csc) == ctx);
    lemma_group_keeps_context(child.events, cw, ctx);
    let wv = crate::walk::walk_component_spec(name, attributes, children, fn_path, props_path, sc, counter);
    assert forall|i: int| 0 <= i < wv.events.len() implies match #[trigger] wv.events[i] {
        crate::emit::WriteEvent::Other(s) => calls_get_context(s, ctx),
        _ => true,
    } by {
        match wv.events[i] {
            crate::emit::WriteEvent::Other(StmtView::CaptureChildren { body, .. }) => {
                assert forall|k: int| 0 <= k < body.len() implies calls_get_context(#[trigger] body[k], ctx) by {
                    assert(body == group(child.events, cw));
                }
            },
            _ => {},
        }
    }
}

/// In a context-aware expansion every component call is handed the context
/// binding `__fr_ctx`; in the other expansions no call is handed a context.
pub proof fn lemma_context_reaches_every_call(nodes: Seq<MarkupNode>, mode: CompileMode)
    ensures
        forall|k: int|
            0 <= k < group(walk_nodes_spec(nodes, top_scope(mode), 0).events, writer_binding_spec()).len()
                ==> calls_get_context(
                #[trigger] group(walk_nodes_spec(nodes, top_scope(mode), 0).events, writer_binding_spec())[k],
                if mode.spec_uses_context() {
                    Some(crate::compile::context_binding_spec())
                } else {
                    None
                },
            ),
{
    lemma_walk_nodes_context(nodes, top_scope(mode), 0);
    lemma_group_keeps_context(
        walk_nodes_spec(nodes, top_scope(mode), 0).events,
        writer_binding_spec(),
        scope_context(top_scope(mode)),
    );
}

/// A string-literal attribute value cannot end its attribute early or open
/// a tag: the text written between the quotes holds no `"`, `'`, `<` or
/// `>`.
pub proof fn lemma_literal_attribute_stays_quoted(shape: crate::markup::ExprShape)
    ensures
        compile_time_attr_spec(shape) matches Some(v) ==> forall|i: int|
            0 <= i < v.len() ==> {
                let c = #[trigger] v[i];
                c != '"' && c != '\'' && c != '<' && c != '>'
            },
{
    match crate::walk::strip_grouping_spec(shape) {
        crate::markup::ExprShape::StrLit(s) => crate::text::lemma_escape_is_inert(s@),
        _ => {},
    }
}

} // verus!
