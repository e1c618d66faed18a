//! The bindings that generated code introduces for captured component
//! children, and the law that no two of them share a name.
use vstd::prelude::*;
use crate::compile::{top_scope, writer_binding_spec};
use crate::emit::{group, WriteEvent};
use crate::markup::{Attribute, MarkupNode, TagName};
use crate::modes::CompileMode;
use crate::plan::{StmtView, TagPathView};
use crate::props::component_paths_spec;
use crate::text::{decimal_spec, digit_spec};
use crate::walk::{
    ident_name_spec, is_void_element_spec, walk_component_spec, walk_html_spec, walk_node_spec,
    walk_nodes_spec, Scope,
};

verus! {

/// The names a statement binds, in order: a capture's buffer and writer,
/// then the names bound inside its body.
pub open spec fn stmt_bindings(s: StmtView) -> Seq<Seq<char>>
    decreases s,
{
    match s {
        StmtView::CaptureChildren { buffer, writer, body } => seq![buffer, writer] + stmts_bindings(
            body,
        ),
        _ => Seq::empty(),
    }
}

/// The names some statements bind, in order.
pub open spec fn stmts_bindings(stmts: Seq<StmtView>) -> Seq<Seq<char>>
    decreases stmts,
{
    if stmts.len() == 0 {
        Seq::empty()
    } else {
        stmts_bindings(stmts.subrange(0, stmts.len() - 1)) + stmt_bindings(stmts[stmts.len() - 1])
    }
}

/// The names some events bind, in order.
pub open spec fn events_bindings(e: Seq<WriteEvent>) -> Seq<Seq<char>>
    decreases e.len(),
{
    if e.len() == 0 {
        Seq::empty()
    } else {
        events_bindings(e.drop_last()) + match e.last() {
            WriteEvent::Other(s) => stmt_bindings(s),
            WriteEvent::Lit(_) => Seq::empty(),
        }
    }
}

/// Whether `s` is a name the walk takes from number `i`.
pub open spec fn is_binding_name(s: Seq<char>, i: nat) -> bool {
    s == ident_name_spec("children"@, i) || s == ident_name_spec("children_out"@, i)
}

/// Whether `s` is a name taken from a number in `[lo, hi)`.
pub open spec fn numbered_in(s: Seq<char>, lo: nat, hi: nat) -> bool {
    exists|i: nat| lo <= i < hi && #[trigger] is_binding_name(s, i)
}

/// Whether every name is taken from a number in `[lo, hi)` and no name
/// occurs twice.
pub open spec fn fresh_names(names: Seq<Seq<char>>, lo: nat, hi: nat) -> bool {
    &&& lo <= hi
    &&& forall|k: int| 0 <= k < names.len() ==> numbered_in(#[trigger] names[k], lo, hi)
    &&& names.no_duplicates()
}

/// Every character of a decimal is a digit, and there is at least one.
proof fn lemma_decimal_digits(n: nat)
    ensures
        decimal_spec(n).len() >= 1,
        n >= 10 ==> decimal_spec(n).len() >= 2,
        forall|k: int| 0 <= k < decimal_spec(n).len() ==> '0' <= #[trigger] decimal_spec(n)[k] <= '9',
    decreases n,
{
    if n >= 10 {
        lemma_decimal_digits(n / 10);
        let p = decimal_spec(n / 10);
        assert forall|k: int| 0 <= k < decimal_spec(n).len() implies '0' <= #[trigger] decimal_spec(n)[k] <= '9' by {
            if k < p.len() {
                assert(decimal_spec(n)[k] == p[k]);
            }
        }
    }
}

/// Different numbers have different decimals.
proof fn lemma_decimal_injective(i: nat, j: nat)
    requires
        decimal_spec(i) == decimal_spec(j),
    ensures
        i == j,
    decreases i,
{
    lemma_decimal_digits(i);
    lemma_decimal_digits(j);
    if i < 10 && j < 10 {
        assert(decimal_spec(i)[0] == digit_spec(i));
        assert(decimal_spec(j)[0] == digit_spec(j));
        assert((digit_spec(i) as u32) == 48 + i);
        assert((digit_spec(j) as u32) == 48 + j);
    } else if i >= 10 && j >= 10 {
        let a = decimal_spec(i);
        let b = decimal_spec(j);
        assert(a.last() == b.last());
        assert(a.last() == digit_spec(i % 10));
        assert(b.last() == digit_spec(j % 10));
        assert((digit_spec(i % 10) as u32) == 48 + i % 10);
        assert((digit_spec(j % 10) as u32) == 48 + j % 10);
        assert(a.drop_last() =~= decimal_spec(i / 10));
        assert(b.drop_last() =~= decimal_spec(j / 10));
        lemma_decimal_injective(i / 10, j / 10);
    }
}

/// A binding name determines its number.
proof fn lemma_binding_name_number(s: Seq<char>, i: nat, j: nat)
    requires
        is_binding_name(s, i),
        is_binding_name(s, j),
    ensures
        i == j,
{
    reveal_strlit("__fr_");
    reveal_strlit("children");
    reveal_strlit("children_out");
    reveal_strlit("_");
    lemma_decimal_digits(i);
    lemma_decimal_digits(j);
    let short = "__fr_"@ + "children"@ + "_"@;
    let long = "__fr_"@ + "children_out"@ + "_"@;
    assert(short.len() == 14);
    assert(long.len() == 18);
    assert(long[14] == 'o');
    let si = ident_name_spec("children"@, i);
    let sj = ident_name_spec("children"@, j);
    let li = ident_name_spec("children_out"@, i);
    let lj = ident_name_spec("children_out"@, j);
    assert(si =~= short + decimal_spec(i));
    assert(sj =~= short + decimal_spec(j));
    assert(li =~= long + decimal_spec(i));
    assert(lj =~= long + decimal_spec(j));
    assert(si[14] == decimal_spec(i)[0]);
    assert(sj[14] == decimal_spec(j)[0]);
    assert(li[14] == 'o');
    assert(lj[14] == 'o');
    if s == si && s == sj {
        assert(decimal_spec(i) =~= si.skip(14));
        assert(decimal_spec(j) =~= sj.skip(14));
        lemma_decimal_injective(i, j);
    } else if s == li && s == lj {
        assert(decimal_spec(i) =~= li.skip(18));
        assert(decimal_spec(j) =~= lj.skip(18));
        lemma_decimal_injective(i, j);
    }
}

/// Names from two disjoint ranges of numbers, one after the other, stay
/// fresh together.
proof fn lemma_fresh_append(a: Seq<Seq<char>>, b: Seq<Seq<char>>, lo: nat, mid: nat, hi: nat)
    requires
        fresh_names(a, lo, mid),
        fresh_names(b, mid, hi),
    ensures
        fresh_names(a + b, lo, hi),
{
    let n = a + b;
    assert forall|k: int| 0 <= k < n.len() implies numbered_in(#[trigger] n[k], lo, hi) by {
        if k < a.len() {
            assert(n[k] == a[k]);
            assert(numbered_in(a[k], lo, mid));
            let i = choose|i: nat| lo <= i < mid && #[trigger] is_binding_name(a[k], i);
            assert(is_binding_name(n[k], i));
        } else {
            assert(n[k] == b[k - a.len()]);
            assert(numbered_in(b[k - a.len()], mid, hi));
            let i = choose|i: nat| mid <= i < hi && #[trigger] is_binding_name(b[k - a.len()], i);
            assert(is_binding_name(n[k], i));
        }
    }
    assert forall|x: int, y: int| 0 <= x < n.len() && 0 <= y < n.len() && x != y implies n[x] != n[y] by {
        if x < a.len() && y < a.len() {
            assert(n[x] == a[x] && n[y] == a[y]);
        } else if x >= a.len() && y >= a.len() {
            assert(n[x] == b[x - a.len()] && n[y] == b[y - a.len()]);
        } else if n[x] == n[y] {
            let (p, q) = if x < a.len() { (x, y) } else { (y, x) };
            assert(n[p] == a[p]);
            assert(n[q] == b[q - a.len()]);
            assert(numbered_in(a[p], lo, mid));
            assert(numbered_in(b[q - a.len()], mid, hi));
            let i = choose|i: nat| lo <= i < mid && #[trigger] is_binding_name(a[p], i);
            let j = choose|j: nat| mid <= j < hi && #[trigger] is_binding_name(b[q - a.len()], j);
            lemma_binding_name_number(a[p], i, j);
        }
    }
    assert(n.no_duplicates());
}

/// Grouping keeps the bindings of the events.
proof fn lemma_group_bindings(e: Seq<WriteEvent>, w: Seq<char>)
    ensures
        stmts_bindings(group(e, w)) == events_bindings(e),
    decreases e.len(),
{
    if e.len() > 0 {
        lemma_group_bindings(e.drop_last(), w);
        let g = group(e.drop_last(), w);
        let ng = group(e, w);
        match e.last() {
            WriteEvent::Lit(c) => {
                if g.len() > 0 && g.last() is WriteLiteral {
                    assert(ng.subrange(0, ng.len() - 1) =~= g.subrange(0, g.len() - 1));
                    assert(stmts_bindings(g) == stmts_bindings(g.subrange(0, g.len() - 1)) + stmt_bindings(g[g.len() - 1]));
                    assert(stmt_bindings(g[g.len() - 1]) =~= Seq::<Seq<char>>::empty());
                    assert(stmt_bindings(ng[ng.len() - 1]) =~= Seq::<Seq<char>>::empty());
                    assert(stmts_bindings(ng) =~= stmts_bindings(g));
                } else {
                    assert(ng.subrange(0, ng.len() - 1) =~= g);
                    assert(stmt_bindings(ng[ng.len() - 1]) =~= Seq::<Seq<char>>::empty());
                    assert(stmts_bindings(ng) =~= stmts_bindings(g));
                }
                assert(events_bindings(e) =~= events_bindings(e.drop_last()));
            },
            WriteEvent::Other(s) => {
                assert(ng.subrange(0, ng.len() - 1) =~= g);
                assert(ng[ng.len() - 1] == s);
            },
        }
    }
}

/// The bindings of events one after the other.
proof fn lemma_events_bindings_append(a: Seq<WriteEvent>, b: Seq<WriteEvent>)
    ensures
        events_bindings(a + b) == events_bindings(a) + events_bindings(b),
    decreases b.len(),
{
    if b.len() == 0 {
        assert(a + b =~= a);
        assert(events_bindings(a) + events_bindings(b) =~= events_bindings(a));
    } else {
        lemma_events_bindings_append(a, b.drop_last());
        assert((a + b).drop_last() =~= a + b.drop_last());
        assert((a + b).last() == b.last());
        assert(events_bindings(a + b) =~= events_bindings(a) + events_bindings(b));
    }
}

/// Events without captures bind nothing.
proof fn lemma_events_without_captures(e: Seq<WriteEvent>)
    requires
        forall|i: int| 0 <= i < e.len() ==> !((#[trigger] e[i]) matches WriteEvent::Other(s) && s is CaptureChildren),
    ensures
        events_bindings(e) == Seq::<Seq<char>>::empty(),
    decreases e.len(),
{
    if e.len() > 0 {
        assert forall|i: int| 0 <= i < e.drop_last().len() implies !((#[trigger] e.drop_last()[i]) matches WriteEvent::Other(s) && s is CaptureChildren) by {
            assert(e.drop_last()[i] == e[i]);
        }
        lemma_events_without_captures(e.drop_last());
        assert(e[e.len() - 1] == e.last());
        assert(events_bindings(e) =~= Seq::<Seq<char>>::empty());
    }
}

/// The names bound by walking a forest are taken from the numbers between
/// the counter before and after, each once.
pub proof fn lemma_walk_nodes_fresh(nodes: Seq<MarkupNode>, sc: Scope, counter: nat)
    ensures
        fresh_names(
            events_bindings(walk_nodes_spec(nodes, sc, counter).events),
            counter,
            walk_nodes_spec(nodes, sc, counter).counter,
        ),
    decreases nodes, 0nat,
{
    if nodes.len() == 0 {
        assert(events_bindings(Seq::<WriteEvent>::empty()) =~= Seq::<Seq<char>>::empty());
    } else {
        let init = nodes.subrange(0, nodes.len() - 1);
        lemma_walk_nodes_fresh(init, sc, counter);
        let a = walk_nodes_spec(init, sc, counter);
        lemma_walk_node_fresh(nodes[nodes.len() - 1], sc, a.counter);
        let b = walk_node_spec(nodes[nodes.len() - 1], sc, a.counter);
        lemma_events_bindings_append(a.events, b.events);
        lemma_fresh_append(events_bindings(a.events), events_bindings(b.events), counter, a.counter, b.counter);
    }
}

/// The names bound by walking a node are fresh.
pub proof fn lemma_walk_node_fresh(node: MarkupNode, sc: Scope, counter: nat)
    ensures
        fresh_names(
            events_bindings(walk_node_spec(node, sc, counter).events),
            counter,
            walk_node_spec(node, sc, counter).counter,
        ),
    decreases node, 2nat,
{
    let wv = walk_node_spec(node, sc, counter);
    match node {
        MarkupNode::Fragment { children } => lemma_walk_nodes_fresh(children@, sc, counter),
        MarkupNode::Element { name, attributes, children } => match component_paths_spec(name) {
            Some((f, p)) => lemma_walk_component_fresh(name, attributes@, children@, f, p, sc, counter),
            None => lemma_walk_html_fresh(name, attributes@, children@, sc, counter),
        },
        _ => {
            assert forall|i: int| 0 <= i < wv.events.len() implies !((#[trigger] wv.events[i]) matches WriteEvent::Other(s) && s is CaptureChildren) by {
                crate::emit::lemma_chars_events_index(match node {
                    MarkupNode::Doctype { value } => "<!DOCTYPE "@ + value@ + ">"@,
                    MarkupNode::Text { value, .. } => value@,
                    MarkupNode::RawText { text } => text@,
                    MarkupNode::Comment { text } => "<!-- "@ + text@ + " -->"@,
                    _ => Seq::empty(),
                });
            }
            lemma_events_without_captures(wv.events);
        },
    }
}

/// Attributes bind nothing.
proof fn lemma_attrs_bind_nothing(attrs: Seq<Attribute>, w: Seq<char>)
    ensures
        events_bindings(crate::walk::attrs_events(attrs, w)) == Seq::<Seq<char>>::empty(),
    decreases attrs.len(),
{
    if attrs.len() > 0 {
        lemma_attrs_bind_nothing(attrs.drop_last(), w);
        let ev = crate::walk::attr_events(attrs.last(), w);
        assert forall|i: int| 0 <= i < ev.len() implies !((#[trigger] ev[i]) matches WriteEvent::Other(s) && s is CaptureChildren) by {
            lemma_attr_events_shape(attrs.last(), w);
        }
        lemma_events_without_captures(ev);
        lemma_events_bindings_append(crate::walk::attrs_events(attrs.drop_last(), w), ev);
    }
}

/// The events of an attribute are characters and attribute writes.
proof fn lemma_attr_events_shape(a: Attribute, w: Seq<char>)
    ensures
        forall|i: int|
            0 <= i < crate::walk::attr_events(a, w).len() ==> !((#[trigger] crate::walk::attr_events(a, w)[i]) matches WriteEvent::Other(s)
                && s is CaptureChildren),
{
    let ev = crate::walk::attr_events(a, w);
    match a {
        Attribute::Block { .. } => {
            crate::emit::lemma_chars_events_index(" "@);
        },
        Attribute::Keyed { key, value, .. } => {
            crate::emit::lemma_chars_events_index(" "@ + key@);
            crate::emit::lemma_chars_events_index("=\""@);
            crate::emit::lemma_chars_events_index("\""@);
            match value {
                Some(v) => match crate::walk::compile_time_attr_spec(v.shape) {
                    Some(s) => crate::emit::lemma_chars_events_index(s),
                    None => {},
                },
                None => {},
            }
        },
    }
}

/// The names bound by walking an HTML element are fresh.
proof fn lemma_walk_html_fresh(name: TagName, attributes: Seq<Attribute>, children: Seq<MarkupNode>, sc: Scope, counter: nat)
    ensures
        fresh_names(
            events_bindings(walk_html_spec(name, attributes, children, sc, counter).events),
            counter,
            walk_html_spec(name, attributes, children, sc, counter).counter,
        ),
    decreases children, 1nat,
{
    reveal_strlit("<");
    reveal_strlit("/>");
    reveal_strlit(">");
    reveal_strlit("</");
    let tag_open = crate::emit::chars_events("<"@ + name.text@);
    let attrs = crate::walk::attrs_events(attributes, sc.writer);
    lemma_attrs_bind_nothing(attributes, sc.writer);
    crate::emit::lemma_chars_events_index("<"@ + name.text@);
    lemma_events_without_captures(tag_open);
    lemma_events_bindings_append(tag_open, attrs);
    let open = tag_open + attrs;
    if is_void_element_spec(name.text@) {
        let close = crate::emit::chars_events("/>"@);
        crate::emit::lemma_chars_events_index("/>"@);
        lemma_events_without_captures(close);
        lemma_events_bindings_append(open, close);
        assert(events_bindings(open + close) =~= Seq::<Seq<char>>::empty());
    } else {
        lemma_walk_nodes_fresh(children, sc, counter);
        let child = walk_nodes_spec(children, sc, counter);
        let gt = crate::emit::chars_events(">"@);
        let close = crate::emit::chars_events("</"@ + name.text@ + ">"@);
        crate::emit::lemma_chars_events_index(">"@);
        crate::emit::lemma_chars_events_index("</"@ + name.text@ + ">"@);
        lemma_events_without_captures(gt);
        lemma_events_without_captures(close);
        lemma_events_bindings_append(open, gt);
        lemma_events_bindings_append(open + gt, child.events);
        lemma_events_bindings_append(open + gt + child.events, close);
        assert(events_bindings(open + gt + child.events + close) =~= events_bindings(child.events));
    }
}

/// The names bound by walking a component element are fresh: its buffer
/// and writer take the counter's next two numbers, and its children the
/// numbers after those.
proof fn lemma_walk_component_fresh(
    name: TagName,
    attributes: Seq<Attribute>,
    children: Seq<MarkupNode>,
    fn_path: TagPathView,
    props_path: TagPathView,
    sc: Scope,
    counter: nat,
)
    ensures
        fresh_names(
            events_bindings(walk_component_spec(name, attributes, children, fn_path, props_path, sc, counter).events),
            counter,
            walk_component_spec(name, attributes, children, fn_path, props_path, sc, counter).counter,
        ),
    decreases children, 1nat,
{
    let wv = walk_component_spec(name, attributes, children, fn_path, props_path, sc, counter);
    let pp = crate::props::props_spec(attributes, name.text@);
    let capture = !pp.has_children_prop && children.len() > 0;
    let buffer = ident_name_spec("children"@, counter);
    let cw = ident_name_spec("children_out"@, counter + 1);
    let csc = Scope { mode: sc.mode, writer: cw, context: sc.context };
    let child = walk_nodes_spec(children, csc, counter + 2);
    lemma_walk_nodes_fresh(children, csc, counter + 2);
    lemma_group_bindings(child.events, cw);
    let call = wv.events.last();
    assert(wv.events[wv.events.len() - 1] == call);
    if capture {
        let cap = StmtView::CaptureChildren { buffer, writer: cw, body: group(child.events, cw) };
        assert(wv.events =~= seq![WriteEvent::Other(cap), call]);
        assert(wv.events.drop_last() =~= seq![WriteEvent::Other(cap)]);
        assert(seq![WriteEvent::Other(cap)].drop_last() =~= Seq::<WriteEvent>::empty());
        assert(events_bindings(Seq::<WriteEvent>::empty()) == Seq::<Seq<char>>::empty());
        assert(seq![WriteEvent::Other(cap)].last() == WriteEvent::Other(cap));
        assert(events_bindings(seq![WriteEvent::Other(cap)]) =~= stmt_bindings(cap));
        assert(events_bindings(wv.events) =~= stmt_bindings(cap));
        let own = seq![buffer, cw];
        assert(is_binding_name(own[0], counter));
        assert(is_binding_name(own[1], counter + 1));
        assert(fresh_names(own, counter, counter + 2)) by {
            if own[0] == own[1] {
                lemma_binding_name_number(own[0], counter, counter + 1);
            }
            assert forall|k: int| 0 <= k < own.len() implies numbered_in(#[trigger] own[k], counter, counter + 2) by {
                if k == 0 {
                    assert(is_binding_name(own[k], counter));
                } else {
                    assert(is_binding_name(own[k], counter + 1));
                }
            }
        }
        lemma_fresh_append(own, events_bindings(child.events), counter, counter + 2, child.counter);
    } else {
        assert(wv.events =~= seq![call]);
        assert(seq![call].drop_last() =~= Seq::<WriteEvent>::empty());
        assert(events_bindings(Seq::<WriteEvent>::empty()) == Seq::<Seq<char>>::empty());
        assert(seq![call].last() == call);
        match call {
            WriteEvent::Other(s) => {
                assert(!(s is CaptureChildren));
                assert(stmt_bindings(s) =~= Seq::<Seq<char>>::empty());
            },
            WriteEvent::Lit(_) => {},
        }
        assert(events_bindings(wv.events) =~= Seq::<Seq<char>>::empty());
    }
}

/// No two bindings of an expansion share a name: every captured child
/// buffer and child writer is named after its own number.
pub proof fn lemma_binding_names_are_distinct(nodes: Seq<MarkupNode>, mode: CompileMode)
    ensures
        stmts_bindings(group(walk_nodes_spec(nodes, top_scope(mode), 0).events, writer_binding_spec())).no_duplicates(),
{
    let wv = walk_nodes_spec(nodes, top_scope(mode), 0);
    lemma_walk_nodes_fresh(nodes, top_scope(mode), 0);
    lemma_group_bindings(wv.events, writer_binding_spec());
}

} // verus!
