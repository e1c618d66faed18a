//! Laws that say what the markup walker, the entry points and the component
//! planner are for, each stated over all inputs in terms of what the user
//! wrote and what comes out.
use vstd::prelude::*;
use crate::attrs::{component_spec, AttrError, ComponentFn, ComponentPlanView, Param, ParamPat, ParamType};
use crate::emit::{chars_events, lemma_chars_events_index, WriteEvent};
use crate::entry::{entry_spec, Entry, EntryError, HtmlInvocationShape, WrapperView};
use crate::markup::{Attribute, MarkupNode, TagName};
use crate::modes::MacroMode;
use crate::plan::StmtView;
use crate::props::component_paths_spec;
use crate::walk::{attr_events, attrs_events, walk_node_spec, Scope};

verus! {

/// The output of attributes written one list after another is the output
/// of the whole list.
proof fn lemma_attrs_events_concat(a: Seq<Attribute>, b: Seq<Attribute>, w: Seq<char>)
    ensures
        attrs_events(a + b, w) == attrs_events(a, w) + attrs_events(b, w),
    decreases b.len(),
{
    if b.len() == 0 {
        assert(a + b =~= a);
        assert(attrs_events(a, w) + attrs_events(b, w) =~= attrs_events(a, w));
    } else {
        lemma_attrs_events_concat(a, b.drop_last(), w);
        assert((a + b).drop_last() =~= a + b.drop_last());
        assert((a + b).last() == b.last());
        assert(attrs_events(a + b, w) =~= attrs_events(a, w) + attrs_events(b, w));
    }
}

/// Every attribute of an HTML element, static or dynamic, is set off from
/// what precedes it (the tag name or the previous attribute) by a space:
/// its output starts with a literal `' '`. A block attribute `{attrs}`
/// writes that space and then its block, by the element's writer, at run
/// time, and nothing else.
pub proof fn lemma_attribute_set_off_by_space(a: Attribute, w: Seq<char>)
    ensures
        attr_events(a, w).len() > 0,
        attr_events(a, w)[0] == WriteEvent::Lit(' '),
        a is Block ==> attr_events(a, w) == seq![
            WriteEvent::Lit(' '),
            WriteEvent::Other(StmtView::WriteAttr { writer: w, expr: a->block }),
        ],
{
    reveal_strlit(" ");
    match a {
        Attribute::Block { .. } => {
            lemma_chars_events_index(" "@);
            assert(attr_events(a, w) =~= seq![
                WriteEvent::Lit(' '),
                WriteEvent::Other(StmtView::WriteAttr { writer: w, expr: a->block }),
            ]);
        },
        Attribute::Keyed { key, .. } => {
            lemma_chars_events_index(" "@ + key@);
            assert((" "@ + key@)[0] == ' ');
        },
    }
}

/// In the output of an element's attribute list, the `i`-th attribute
/// starts, right after the output of the attributes before it, with a
/// space; a block attribute's run-time write follows that space directly.
pub proof fn lemma_each_attribute_set_off_by_space(attrs: Seq<Attribute>, w: Seq<char>, i: int)
    requires
        0 <= i < attrs.len(),
    ensures
        ({
            let events = attrs_events(attrs, w);
            let k = attrs_events(attrs.take(i), w).len() as int;
            &&& k < events.len()
            &&& events[k] == WriteEvent::Lit(' ')
            &&& attrs[i] is Block ==> k + 1 < events.len() && events[k + 1] == WriteEvent::Other(
                StmtView::WriteAttr { writer: w, expr: attrs[i]->block },
            )
        }),
{
    let before = attrs.take(i);
    let one = seq![attrs[i]];
    let after = attrs.skip(i + 1);
    assert(attrs =~= before + one + after);
    lemma_attrs_events_concat(before + one, after, w);
    lemma_attrs_events_concat(before, one, w);
    assert(one.drop_last() =~= Seq::<Attribute>::empty());
    assert(attrs_events(one.drop_last(), w) == Seq::<WriteEvent>::empty());
    assert(one.last() == attrs[i]);
    assert(attrs_events(one, w) =~= attr_events(attrs[i], w));
    lemma_attribute_set_off_by_space(attrs[i], w);
    let events = attrs_events(attrs, w);
    let k = attrs_events(before, w).len() as int;
    assert(events == attrs_events(before, w) + attr_events(attrs[i], w) + attrs_events(after, w));
    assert(events[k] == attr_events(attrs[i], w)[0]);
    if attrs[i] is Block {
        assert(events[k + 1] == attr_events(attrs[i], w)[1]);
    }
}

/// An HTML element (a tag that is not a component) is written as `<` and
/// its name, then each attribute set off by a space: at the position of
/// the `i`-th attribute in the element's output (after `<name` and the
/// attributes before it) stands a literal `' '`, and for a block attribute
/// `{attrs}` its run-time write comes right after that space. So
/// `<input {attrs} />` writes `<input `, then the attributes, then `/>`.
pub proof fn lemma_html_element_attributes_set_off(
    name: TagName,
    attributes: Vec<Attribute>,
    children: Vec<MarkupNode>,
    sc: Scope,
    counter: nat,
    i: int,
)
    requires
        component_paths_spec(name) is None,
        0 <= i < attributes@.len(),
    ensures
        ({
            let events = walk_node_spec(MarkupNode::Element { name, attributes, children }, sc, counter).events;
            let k = (1 + name.text@.len() + attrs_events(attributes@.take(i), sc.writer).len()) as int;
            &&& k < events.len()
            &&& events[k] == WriteEvent::Lit(' ')
            &&& attributes@[i] is Block ==> k + 1 < events.len() && events[k + 1] == WriteEvent::Other(
                StmtView::WriteAttr { writer: sc.writer, expr: attributes@[i]->block },
            )
        }),
{
    reveal_strlit("<");
    let node = MarkupNode::Element { name, attributes, children };
    let tag = "<"@ + name.text@;
    lemma_chars_events_index(tag);
    lemma_each_attribute_set_off_by_space(attributes@, sc.writer, i);
    let open = chars_events(tag) + attrs_events(attributes@, sc.writer);
    let events = walk_node_spec(node, sc, counter).events;
    assert(events.len() >= open.len() && forall|j: int| 0 <= j < open.len() ==> events[j] == open[j]);
    let k = (1 + name.text@.len() + attrs_events(attributes@.take(i), sc.writer).len()) as int;
    assert(open[k] == attrs_events(attributes@, sc.writer)[k - tag.len()]);
    if attributes@[i] is Block {
        assert(open[k + 1] == attrs_events(attributes@, sc.writer)[k + 1 - tag.len()]);
    }
}

/// What an entry point's expansion evaluates to, as its documentation
/// gives it.
pub enum EntryResult {
    /// The `RenderResult` of writing into the writer argument.
    WriterResult,
    /// An `HtmlFragment`.
    Fragment,
    /// A `Result<HtmlFragment, RenderError>`.
    FragmentResult,
    /// A `Result<String, RenderError>`.
    StringResult,
}

/// The documented result of each entry point: `html!` yields a fragment
/// when given markup alone and writes into its writer otherwise;
/// `html_try!` yields a fragment result; `html_to_string!` and
/// `html_async_to_string!` yield a string result; the others write into
/// their writer.
pub open spec fn documented_result(entry: Entry, writer_prefix: bool) -> EntryResult {
    match entry {
        Entry::Html => if writer_prefix {
            EntryResult::WriterResult
        } else {
            EntryResult::Fragment
        },
        Entry::HtmlTry => EntryResult::FragmentResult,
        Entry::HtmlToString => EntryResult::StringResult,
        Entry::HtmlAsyncToString => EntryResult::StringResult,
        Entry::HtmlAsync => EntryResult::WriterResult,
        Entry::HtmlCtx => EntryResult::WriterResult,
        Entry::HtmlAsyncCtx => EntryResult::WriterResult,
    }
}

/// What an expansion with a given wrapper evaluates to.
pub open spec fn wrapper_yields(w: WrapperView) -> EntryResult {
    match w {
        WrapperView::Direct => EntryResult::WriterResult,
        WrapperView::Fragment { .. } => EntryResult::Fragment,
        WrapperView::FragmentResult { .. } => EntryResult::FragmentResult,
        WrapperView::StringBuffer { .. } => EntryResult::StringResult,
    }
}

/// Whether an input shape has a writer argument in front of the markup.
pub open spec fn has_writer_prefix(shape: Option<HtmlInvocationShape>) -> bool {
    shape matches Some(s) && s.has_writer_prefix
}

/// Each entry point's expansion evaluates to what its documentation says:
/// the wrapper the plan puts around the compiled markup yields the
/// documented result. Only `html_try!` refuses an input, exactly when a
/// writer is given. The async entry points are compiled async and the
/// context entry points with a context, except the string-rendering ones,
/// which render with the plain mode.
pub proof fn lemma_entry_yields_documented_result(entry: Entry, shape: Option<HtmlInvocationShape>)
    ensures
        entry_spec(entry, shape) is Err <==> (entry is HtmlTry && has_writer_prefix(shape)),
        entry_spec(entry, shape) matches Ok((mode, w)) ==> {
            &&& wrapper_yields(w) == documented_result(entry, has_writer_prefix(shape))
            &&& (mode is HtmlAsync || mode is HtmlAsyncContext) <==> (entry is HtmlAsync || entry is HtmlAsyncCtx)
            &&& (mode is HtmlContext || mode is HtmlAsyncContext) <==> (entry is HtmlCtx || entry is HtmlAsyncCtx)
        },
{
}

/// `html_to_string!` and `html_async_to_string!` plan the same expansion
/// for any inputs: the markup compiled in the plain mode into a `String`
/// buffer named `__fr_rendered_html`, which the expansion returns.
pub proof fn lemma_string_entries_render_into_a_string(
    a: Option<HtmlInvocationShape>,
    b: Option<HtmlInvocationShape>,
)
    ensures
        entry_spec(Entry::HtmlToString, a) == entry_spec(Entry::HtmlAsyncToString, b),
        entry_spec(Entry::HtmlToString, a) == Ok::<(MacroMode, WrapperView), EntryError>(
            (MacroMode::Html, WrapperView::StringBuffer { buffer: "__fr_rendered_html"@ }),
        ),
{
}

/// The binding a parameter introduces, when it is a plain binding.
pub open spec fn binding_of(p: Param) -> Option<Seq<char>> {
    match p {
        Param::Typed { pat: ParamPat::Ident { name, .. }, .. } => Some(name@),
        _ => None,
    }
}

/// The handle of a parameter's type, when it has one.
pub open spec fn type_handle_of(p: Param) -> Option<usize> {
    match p {
        Param::Typed { ty, .. } => Some(ty.handle),
        _ => None,
    }
}

/// The wrapper that `#[component]` generates takes the decorated
/// function's parameters in the same order and under the same names: each
/// parameter but the last keeps the type of the function's parameter at
/// that position, and the last, the props, takes the wrapper's props type.
/// A props alias, when emitted, is for the type of the function's last
/// parameter. Only `fn(writer, props)` and `fn(writer, ctx, props)` are
/// accepted.
pub proof fn lemma_wrapper_params_follow_inputs(attr_is_empty: bool, f: ComponentFn)
    ensures
        component_spec(attr_is_empty, f) matches Ok(plan) ==> {
            let n = f.inputs@.len();
            &&& n == 2 || n == 3
            &&& plan.params.len() == n
            &&& forall|i: int|
                0 <= i < n ==> binding_of(#[trigger] f.inputs@[i]) == Some(plan.params[i].0)
            &&& forall|i: int|
                0 <= i < n - 1 ==> type_handle_of(#[trigger] f.inputs@[i]) is Some && plan.params[i].1
                    == ParamType::Given(type_handle_of(f.inputs@[i])->Some_0)
            &&& plan.params[n - 1].1 == ParamType::Props
            &&& plan.props_alias matches Some(h) ==> type_handle_of(f.inputs@[n - 1]) == Some(h)
        },
{
    if component_spec(attr_is_empty, f) is Ok {
        let n = f.inputs@.len();
        let plan = component_spec(attr_is_empty, f)->Ok_0;
        assert forall|i: int| 0 <= i < n implies binding_of(#[trigger] f.inputs@[i]) == Some(plan.params[i].0) by {
        }
        assert forall|i: int| 0 <= i < n - 1 implies type_handle_of(#[trigger] f.inputs@[i]) is Some
            && plan.params[i].1 == ParamType::Given(type_handle_of(f.inputs@[i])->Some_0) by {
        }
    }
}

} // verus!
