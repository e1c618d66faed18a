//! Component tags: which tags name components, the paths they call, and how
//! their attributes become props.
use vstd::prelude::*;
use crate::markup::{Attribute, Delimiter, ExprShape, PathIdent, SrcSpan, StmtShape, TagName, TagPath, TokenTree};
use crate::plan::{
    Diagnostic, DiagnosticKind, DiagnosticKindView, DiagnosticView, Level, PropValue,
    PropValueView, TagPathView,
};
use crate::text::{string_of, 
    clone_strings, concat_str, contains_path_sep, has_path_sep, is_ascii_upper_spec, str_equal,
    chars_of,
};

verus! {

/// Whether a tag name denotes a component: it contains `::`, or it starts
/// with an ASCII capital letter.
pub open spec fn is_component_tag_spec(name: Seq<char>) -> bool {
    contains_path_sep(name) || (name.len() > 0 && is_ascii_upper_spec(name[0]))
}

/// Whether the tag name (its text) denotes a component rather than an HTML
/// element.
pub fn is_component_tag(name: &str) -> (r: bool)
    ensures
        r == is_component_tag_spec(name@),
{
    if has_path_sep(name) {
        return true;
    }
    let chars = chars_of(name);
    chars.len() > 0 && 'A' <= chars[0] && chars[0] <= 'Z'
}

/// The function path and props type path of a component tag.
#[derive(Clone, Debug)]
pub struct ComponentTagPaths {
    pub component_fn_path: TagPath,
    pub props_type_path: TagPath,
}

/// The props type of a component path: the same path with `Props` appended
/// to its last segment.
pub open spec fn props_path_spec(p: TagPathView) -> TagPathView {
    TagPathView {
        leading_colon: p.leading_colon,
        segments: p.segments.update(p.segments.len() - 1, p.segments.last() + "Props"@),
    }
}

/// Whether `syn` parses the text as a Rust path, and if so whether the path
/// starts with `::` and the identifiers of its segments (the outcome of
/// `syn::parse_str::<syn::Path>`, named rather than stated).
pub uninterp spec fn syn_parses_path(text: Seq<char>) -> Option<(bool, Seq<Seq<char>>)>;

/// Calls `syn::parse_str::<syn::Path>` on a tag's text and keeps whether the
/// path starts with `::` and the identifier of each segment. The contract
/// only names the outcome after the text (`syn_parses_path`); which texts
/// `syn` accepts as paths is not stated here.
#[verifier::external_body]
fn parse_tag_path(text: &str) -> (r: Option<TagPath>)
    ensures
        match syn_parses_path(text@) {
            None => r is None,
            Some((lc, segs)) => r matches Some(p) && p.leading_colon == lc && p.segments@.map_values(
                |s: String| s@,
            ) == segs,
        },
{
    match syn::parse_str::<syn::Path>(text) {
        Ok(path) => {
            let mut segments = Vec::new();
            for segment in path.segments.iter() {
                segments.push(segment.ident.to_string());
            }
            Some(TagPath { leading_colon: path.leading_colon.is_some(), segments })
        },
        Err(_) => None,
    }
}

/// The paths a tag calls: `None` unless it is a component tag whose name
/// parses as a non-empty Rust path.
pub open spec fn component_paths_spec(name: TagName) -> Option<(TagPathView, TagPathView)> {
    if !is_component_tag_spec(name.text@) {
        None
    } else {
        match syn_parses_path(name.text@) {
            None => None,
            Some((lc, segs)) => if segs.len() == 0 {
                None
            } else {
                Some(
                    (
                        TagPathView { leading_colon: lc, segments: segs },
                        props_path_spec(TagPathView { leading_colon: lc, segments: segs }),
                    ),
                )
            },
        }
    }
}

/// The component function path and props type path of a component tag,
/// or `None` for an HTML element.
pub fn component_paths(name: &TagName) -> (r: Option<ComponentTagPaths>)
    ensures
        match component_paths_spec(*name) {
            None => r is None,
            Some((f, p)) => r matches Some(paths) && paths.component_fn_path@ == f
                && paths.props_type_path@ == p,
        },
{
    if !is_component_tag(name.text.as_str()) {
        return None;
    }
    match parse_tag_path(name.text.as_str()) {
        None => None,
        Some(path) => {
            let n = path.segments.len();
            if n == 0 {
                return None;
            }
            let fn_segments = clone_strings(&path.segments);
            let mut props_segments = clone_strings(&path.segments);
            let last = concat_str(&path.segments[n - 1], "Props");
            props_segments.set(n - 1, last);
            let component_fn_path = TagPath { leading_colon: path.leading_colon, segments: fn_segments };
            let props_type_path = TagPath { leading_colon: path.leading_colon, segments: props_segments };
            proof {
                assert(component_fn_path@.segments =~= path@.segments);
                assert(props_type_path@.segments =~= props_path_spec(path@).segments);
            }
            Some(ComponentTagPaths { component_fn_path, props_type_path })
        },
    }
}

/// Path segments joined as printed tokens: `a :: b :: c`.
pub open spec fn join_segments(segments: Seq<Seq<char>>) -> Seq<char>
    decreases segments.len(),
{
    if segments.len() == 0 {
        Seq::empty()
    } else if segments.len() == 1 {
        segments[0]
    } else {
        join_segments(segments.drop_last()) + " :: "@ + segments.last()
    }
}

/// A path as its tokens print: `crate :: ui :: Button`, with `:: ` in
/// front when it starts with `::`.
pub open spec fn path_tokens_spec(p: TagPathView) -> Seq<char> {
    (if p.leading_colon {
        ":: "@
    } else {
        Seq::empty()
    }) + join_segments(p.segments)
}

/// A path as its tokens print.
pub fn path_tokens_string(p: &TagPath) -> (r: String)
    ensures
        r@ == path_tokens_spec(p@),
{
    proof {
        reveal_strlit(":: ");
        reveal_strlit(" :: ");
    }
    let mut out = if p.leading_colon {
        string_of(":: ")
    } else {
        String::new()
    };
    let ghost start = out@;
    let ghost segs = p@.segments;
    let mut i: usize = 0;
    assert(segs.take(0) =~= Seq::<Seq<char>>::empty());
    while i < p.segments.len()
        invariant
            i <= p.segments.len(),
            segs == p@.segments,
            start == (if p.leading_colon { ":: "@ } else { Seq::<char>::empty() }),
            out@ == start + join_segments(segs.take(i as int)),
        decreases p.segments.len() - i,
    {
        assert(segs.take(i + 1).drop_last() =~= segs.take(i as int));
        assert(segs.take(i + 1).last() == p.segments[i as int]@);
        if i > 0 {
            out = concat_str(&out, " :: ");
        }
        out = concat_str(&out, p.segments[i].as_str());
        proof {
            if i == 0 {
                assert(join_segments(segs.take(1)) == segs.take(1)[0]);
            }
            assert(out@ =~= start + join_segments(segs.take(i + 1)));
        }
        i = i + 1;
    }
    assert(segs.take(segs.len() as int) =~= segs);
    out
}


/// The identifier of a `{name}` block written as exactly one brace group
/// holding exactly one identifier token.
pub open spec fn raw_shorthand_spec(tokens: Seq<TokenTree>) -> Option<(Seq<char>, SrcSpan)> {
    if tokens.len() != 1 {
        None
    } else {
        match tokens[0] {
            TokenTree::Group { delimiter, stream, .. } => if delimiter == Delimiter::Brace
                && stream@.len() == 1 {
                match stream@[0] {
                    TokenTree::Ident { name, span } => Some((name@, span)),
                    _ => None,
                }
            } else {
                None
            },
            _ => None,
        }
    }
}

/// The identifier an expression reduces to, if it is a plain one-segment
/// path, or a block whose single statement is such an expression without a
/// semicolon.
pub open spec fn expr_shorthand_spec(e: ExprShape) -> Option<(Seq<char>, SrcSpan)>
    decreases e,
{
    match e {
        ExprShape::Path { qself, leading_colon, segments } => if !qself && !leading_colon
            && segments@.len() == 1 {
            Some((segments@[0].name@, segments@[0].span))
        } else {
            None
        },
        ExprShape::Block { stmts } => if stmts@.len() != 1 {
            None
        } else {
            match stmts@[0] {
                StmtShape::Expr { expr, semicolon } => if semicolon {
                    None
                } else {
                    expr_shorthand_spec(expr)
                },
                StmtShape::Other => None,
            }
        },
        _ => None,
    }
}

/// The identifier of a shorthand `{name}` attribute: read from the raw
/// tokens first, and from the parsed expression otherwise.
pub open spec fn block_shorthand_spec(tokens: Seq<TokenTree>, parsed: Option<ExprShape>) -> Option<
    (Seq<char>, SrcSpan),
> {
    match raw_shorthand_spec(tokens) {
        Some(x) => Some(x),
        None => match parsed {
            Some(e) => expr_shorthand_spec(e),
            None => None,
        },
    }
}

/// The identifier of a block written as `{name}`, read from its tokens.
pub fn shorthand_ident_from_raw_block_tokens(tokens: &Vec<TokenTree>) -> (r: Option<PathIdent>)
    ensures
        match raw_shorthand_spec(tokens@) {
            None => r is None,
            Some((name, span)) => r matches Some(id) && id.name@ == name && id.span == span,
        },
{
    if tokens.len() != 1 {
        return None;
    }
    match &tokens[0] {
        TokenTree::Group { delimiter, stream, .. } => {
            if *delimiter == Delimiter::Brace && stream.len() == 1 {
                match &stream[0] {
                    TokenTree::Ident { name, span } => Some(PathIdent { name: name.clone(), span: *span }),
                    _ => None,
                }
            } else {
                None
            }
        },
        _ => None,
    }
}

/// The identifier a parsed expression reduces to, if any.
pub fn shorthand_ident_from_expr(e: &ExprShape) -> (r: Option<PathIdent>)
    ensures
        match expr_shorthand_spec(*e) {
            None => r is None,
            Some((name, span)) => r matches Some(id) && id.name@ == name && id.span == span,
        },
    decreases e,
{
    match e {
        ExprShape::Path { qself, leading_colon, segments } => {
            if !*qself && !*leading_colon && segments.len() == 1 {
                Some(PathIdent { name: segments[0].name.clone(), span: segments[0].span })
            } else {
                None
            }
        },
        ExprShape::Block { stmts } => {
            if stmts.len() != 1 {
                return None;
            }
            match &stmts[0] {
                StmtShape::Expr { expr, semicolon } => {
                    if *semicolon {
                        None
                    } else {
                        shorthand_ident_from_expr(expr)
                    }
                },
                StmtShape::Other => None,
            }
        },
        _ => None,
    }
}

/// The identifier of a shorthand block attribute, if it is one.
pub fn shorthand_ident_from_block_expr(tokens: &Vec<TokenTree>, parsed: &Option<ExprShape>) -> (r:
    Option<PathIdent>)
    ensures
        match block_shorthand_spec(tokens@, *parsed) {
            None => r is None,
            Some((name, span)) => r matches Some(id) && id.name@ == name && id.span == span,
        },
{
    if let Some(ident) = shorthand_ident_from_raw_block_tokens(tokens) {
        return Some(ident);
    }
    match parsed {
        Some(e) => shorthand_ident_from_expr(e),
        None => None,
    }
}

} // verus!

verus! {

/// A property parsed from a component's attributes.
#[derive(Clone, Debug)]
pub struct ParsedComponentProp {
    pub key: String,
    pub key_span: SrcSpan,
    pub value: PropValue,
}

/// Everything read from a component's attributes.
#[derive(Debug)]
pub struct ParsedComponentProps {
    pub props: Vec<ParsedComponentProp>,
    pub has_children_prop: bool,
    pub children_key_span: Option<SrcSpan>,
    pub async_marker_span: Option<SrcSpan>,
    pub diagnostics: Vec<Diagnostic>,
}

/// View of a parsed property.
pub struct PropView {
    pub key: Seq<char>,
    pub key_span: SrcSpan,
    pub value: PropValueView,
}

/// View of the parsed props.
pub struct PropsView {
    pub props: Seq<PropView>,
    pub has_children_prop: bool,
    pub children_key_span: Option<SrcSpan>,
    pub async_marker_span: Option<SrcSpan>,
    pub diagnostics: Seq<DiagnosticView>,
}

impl View for ParsedComponentProp {
    type V = PropView;

    open spec fn view(&self) -> PropView {
        PropView { key: self.key@, key_span: self.key_span, value: self.value@ }
    }
}

impl View for ParsedComponentProps {
    type V = PropsView;

    open spec fn view(&self) -> PropsView {
        PropsView {
            props: self.props@.map_values(|p: ParsedComponentProp| p@),
            has_children_prop: self.has_children_prop,
            children_key_span: self.children_key_span,
            async_marker_span: self.async_marker_span,
            diagnostics: self.diagnostics@.map_values(|d: Diagnostic| d@),
        }
    }
}

/// Whether some property already has this key.
pub open spec fn has_key(props: Seq<PropView>, key: Seq<char>) -> bool {
    exists|j: int| 0 <= j < props.len() && (#[trigger] props[j]).key == key
}

/// An error diagnostic.
pub open spec fn error_at(span: SrcSpan, kind: DiagnosticKindView) -> DiagnosticView {
    DiagnosticView { level: Level::Error, span, kind }
}

/// Adds a property, recording a `children` key.
pub open spec fn add_prop(st: PropsView, p: PropView) -> PropsView {
    PropsView {
        props: st.props.push(p),
        has_children_prop: st.has_children_prop || p.key == "children"@,
        children_key_span: if p.key == "children"@ {
            Some(p.key_span)
        } else {
            st.children_key_span
        },
        async_marker_span: st.async_marker_span,
        diagnostics: st.diagnostics,
    }
}

/// Adds diagnostics.
pub open spec fn add_diags(st: PropsView, d: Seq<DiagnosticView>) -> PropsView {
    PropsView { diagnostics: st.diagnostics + d, ..st }
}

/// Reads one attribute of the component labelled `label`.
///
/// A bare or valued `async` key marks the component async (a value is an
/// error, a second marker is an error); a repeated key is an error and is
/// dropped; any other key becomes a property whose value is the attribute's
/// expression, or `true` when it has none. A block attribute must be a
/// single identifier `{name}`, which becomes the property `name = name`.
pub open spec fn props_step(st: PropsView, attr: Attribute, label: Seq<char>) -> PropsView {
    match attr {
        Attribute::Keyed { key, key_span, value } => if key@ == "async"@ {
            let value_diag = match value {
                Some(v) => seq![error_at(v.span, DiagnosticKindView::AsyncMarkerWithValue)],
                None => Seq::empty(),
            };
            if st.async_marker_span is Some {
                add_diags(
                    st,
                    value_diag + seq![
                        error_at(
                            key_span,
                            DiagnosticKindView::DuplicateAsyncMarker { component: label },
                        ),
                    ],
                )
            } else {
                PropsView {
                    async_marker_span: Some(key_span),
                    ..add_diags(st, value_diag)
                }
            }
        } else if has_key(st.props, key@) {
            add_diags(
                st,
                seq![
                    error_at(
                        key_span,
                        DiagnosticKindView::DuplicateProperty { key: key@, component: label },
                    ),
                ],
            )
        } else {
            add_prop(
                st,
                PropView {
                    key: key@,
                    key_span,
                    value: match value {
                        Some(v) => PropValueView::Expr(v.expr),
                        None => PropValueView::BareTrue,
                    },
                },
            )
        },
        Attribute::Block { block, span, tokens, parsed } => match block_shorthand_spec(
            tokens@,
            parsed,
        ) {
            None => add_diags(st, seq![error_at(span, DiagnosticKindView::InvalidShorthand)]),
            Some((name, ispan)) => if has_key(st.props, name) {
                add_diags(
                    st,
                    seq![
                        error_at(
                            ispan,
                            DiagnosticKindView::DuplicateProperty { key: name, component: label },
                        ),
                    ],
                )
            } else {
                add_prop(
                    st,
                    PropView { key: name, key_span: ispan, value: PropValueView::Ident(name) },
                )
            },
        },
    }
}

/// The props read from a list of attributes, in order.
pub open spec fn props_spec(attrs: Seq<Attribute>, label: Seq<char>) -> PropsView
    decreases attrs.len(),
{
    if attrs.len() == 0 {
        PropsView {
            props: Seq::empty(),
            has_children_prop: false,
            children_key_span: None,
            async_marker_span: None,
            diagnostics: Seq::empty(),
        }
    } else {
        props_step(props_spec(attrs.drop_last(), label), attrs.last(), label)
    }
}

fn find_key(props: &Vec<ParsedComponentProp>, key: &String) -> (r: bool)
    ensures
        r == has_key(props@.map_values(|p: ParsedComponentProp| p@), key@),
{
    let ghost pv = props@.map_values(|p: ParsedComponentProp| p@);
    let mut i: usize = 0;
    while i < props.len()
        invariant
            i <= props.len(),
            pv == props@.map_values(|p: ParsedComponentProp| p@),
            forall|j: int| 0 <= j < i ==> (#[trigger] pv[j]).key != key@,
        decreases props.len() - i,
    {
        if props[i].key == *key {
            assert(pv[i as int].key == key@);
            return true;
        }
        i = i + 1;
    }
    false
}

fn push_prop(parsed: &mut ParsedComponentProps, prop: ParsedComponentProp)
    ensures
        final(parsed)@ == add_prop(old(parsed)@, prop@),
{
    proof {
        reveal_strlit("children");
    }
    let is_children = str_equal(prop.key.as_str(), "children");
    if is_children {
        parsed.has_children_prop = true;
        parsed.children_key_span = Some(prop.key_span);
    }
    parsed.props.push(prop);
    assert(parsed@.props =~= old(parsed)@.props.push(prop@));
}

fn push_diag(parsed: &mut ParsedComponentProps, d: Diagnostic)
    ensures
        final(parsed)@ == add_diags(old(parsed)@, seq![d@]),
{
    parsed.diagnostics.push(d);
    assert(parsed@.diagnostics =~= old(parsed)@.diagnostics + seq![d@]);
}

/// Reads a component's attributes into props, in order, with a diagnostic
/// for each attribute that cannot become a property (see `props_step`).
pub fn parse_component_props(component_label: &String, attributes: &Vec<Attribute>) -> (parsed:
    ParsedComponentProps)
    ensures
        parsed@ == props_spec(attributes@, component_label@),
{
    let mut parsed = ParsedComponentProps {
        props: Vec::new(),
        has_children_prop: false,
        children_key_span: None,
        async_marker_span: None,
        diagnostics: Vec::new(),
    };
    assert(parsed@.props =~= Seq::<PropView>::empty());
    assert(parsed@.diagnostics =~= Seq::<DiagnosticView>::empty());
    assert(attributes@.take(0) =~= Seq::<Attribute>::empty());
    let mut i: usize = 0;
    while i < attributes.len()
        invariant
            i <= attributes.len(),
            parsed@ == props_spec(attributes@.take(i as int), component_label@),
        decreases attributes.len() - i,
    {
        let ghost before = parsed@;
        proof {
            assert(attributes@.take(i + 1).drop_last() =~= attributes@.take(i as int));
            reveal_strlit("async");
        }
        match &attributes[i] {
            Attribute::Keyed { key, key_span, value } => {
                if str_equal(key.as_str(), "async") {
                    if let Some(v) = value {
                        push_diag(
                            &mut parsed,
                            Diagnostic { level: Level::Error, span: v.span, kind: DiagnosticKind::AsyncMarkerWithValue },
                        );
                    }
                    if parsed.async_marker_span.is_some() {
                        push_diag(
                            &mut parsed,
                            Diagnostic {
                                level: Level::Error,
                                span: *key_span,
                                kind: DiagnosticKind::DuplicateAsyncMarker {
                                    component: component_label.clone(),
                                },
                            },
                        );
                    } else {
                        parsed.async_marker_span = Some(*key_span);
                    }
                    assert(parsed@.diagnostics =~= props_step(before, attributes@[i as int], component_label@).diagnostics);
                } else if find_key(&parsed.props, key) {
                    push_diag(
                        &mut parsed,
                        Diagnostic {
                            level: Level::Error,
                            span: *key_span,
                            kind: DiagnosticKind::DuplicateProperty {
                                key: key.clone(),
                                component: component_label.clone(),
                            },
                        },
                    );
                } else {
                    let pv = match value {
                        Some(v) => PropValue::Expr(v.expr),
                        None => PropValue::BareTrue,
                    };
                    push_prop(
                        &mut parsed,
                        ParsedComponentProp { key: key.clone(), key_span: *key_span, value: pv },
                    );
                }
            },
            Attribute::Block { block, span, tokens, parsed: shape } => {
                match shorthand_ident_from_block_expr(tokens, shape) {
                    None => {
                        push_diag(
                            &mut parsed,
                            Diagnostic { level: Level::Error, span: *span, kind: DiagnosticKind::InvalidShorthand },
                        );
                    },
                    Some(ident) => {
                        if find_key(&parsed.props, &ident.name) {
                            push_diag(
                                &mut parsed,
                                Diagnostic {
                                    level: Level::Error,
                                    span: ident.span,
                                    kind: DiagnosticKind::DuplicateProperty {
                                        key: ident.name.clone(),
                                        component: component_label.clone(),
                                    },
                                },
                            );
                        } else {
                            let value = PropValue::Ident(ident.name.clone());
                            push_prop(
                                &mut parsed,
                                ParsedComponentProp { key: ident.name, key_span: ident.span, value },
                            );
                        }
                    },
                }
            },
        }
        i = i + 1;
    }
    assert(attributes@.take(attributes@.len() as int) =~= attributes@);
    parsed
}

} // verus!

verus! {

/// What parsing a component's attributes guarantees of its props: no two
/// props share a key, a keyed `async` attribute never becomes a prop (only a
/// `{async}` shorthand block could), and `children` was given as
/// a prop exactly when a prop has that key, whose span is then recorded.
pub proof fn lemma_props_well_formed(attrs: Seq<Attribute>, label: Seq<char>)
    ensures
        ({
            let p = props_spec(attrs, label);
            &&& forall|i: int, j: int|
                0 <= i < j < p.props.len() ==> (#[trigger] p.props[i]).key != (#[trigger] p.props[j]).key
            &&& forall|i: int|
                0 <= i < p.props.len() && (#[trigger] p.props[i]).key == "async"@ ==> p.props[i].value is Ident
            &&& p.has_children_prop <==> has_key(p.props, "children"@)
            &&& p.has_children_prop <==> p.children_key_span is Some
            &&& p.children_key_span matches Some(s) ==> exists|i: int|
                0 <= i < p.props.len() && (#[trigger] p.props[i]).key == "children"@
                    && p.props[i].key_span == s
        }),
    decreases attrs.len(),
{
    if attrs.len() > 0 {
        lemma_props_well_formed(attrs.drop_last(), label);
        let st = props_spec(attrs.drop_last(), label);
        let p = props_spec(attrs, label);
        reveal_strlit("async");
        reveal_strlit("children");
        match attrs.last() {
            Attribute::Keyed { key, key_span, value } => {
                if key@ != "async"@ && !has_key(st.props, key@) {
                    assert(p.props.last().key == key@);
                    assert(forall|i: int| 0 <= i < st.props.len() ==> p.props[i] == st.props[i]);
                    if key@ == "children"@ {
                        assert(p.props[p.props.len() - 1].key == "children"@);
                    }
                    if has_key(p.props, "children"@) && key@ != "children"@ {
                        let j = choose|j: int| 0 <= j < p.props.len() && (#[trigger] p.props[j]).key == "children"@;
                        assert(st.props[j].key == "children"@);
                    }
                }
            },
            Attribute::Block { block, span, tokens, parsed } => {
                match block_shorthand_spec(tokens@, parsed) {
                    Some((name, ispan)) => {
                        if !has_key(st.props, name) {
                            assert(forall|i: int| 0 <= i < st.props.len() ==> p.props[i] == st.props[i]);
                            if name == "children"@ {
                                assert(p.props[p.props.len() - 1].key == "children"@);
                            }
                            if has_key(p.props, "children"@) && name != "children"@ {
                                let j = choose|j: int| 0 <= j < p.props.len() && (#[trigger] p.props[j]).key == "children"@;
                                assert(st.props[j].key == "children"@);
                            }
                        }
                    },
                    None => {},
                }
            },
        }
    }
}

} // verus!

verus! {

/// Whether `syn` parses the text as one Rust identifier (the outcome of
/// `syn::parse_str::<syn::Ident>`, named rather than stated).
pub uninterp spec fn syn_parses_ident(text: Seq<char>) -> bool;

/// Calls `syn::parse_str::<syn::Ident>` and reports whether it succeeded.
/// The contract only names the outcome after the text (`syn_parses_ident`);
/// which texts `syn` accepts is not stated here.
#[verifier::external_body]
fn parses_as_ident(text: &str) -> (ok: bool)
    ensures
        ok == syn_parses_ident(text@),
{
    syn::parse_str::<syn::Ident>(text).is_ok()
}

/// The field name for a component property, given whether the key parses
/// as a Rust identifier: the key itself when it does, and otherwise an
/// error diagnostic at the key.
pub fn field_name_for(key: &String, key_span: SrcSpan, is_ident: bool) -> (r: Result<String, Diagnostic>)
    ensures
        is_ident ==> (r matches Ok(name) && name@ == key@),
        !is_ident ==> (r matches Err(d) && d@ == error_at(
            key_span,
            DiagnosticKindView::InvalidPropertyName { key: key@ },
        )),
{
    if is_ident {
        Ok(key.clone())
    } else {
        Err(
            Diagnostic {
                level: Level::Error,
                span: key_span,
                kind: DiagnosticKind::InvalidPropertyName { key: key.clone() },
            },
        )
    }
}

/// The field name for a component property: the key itself when it is a
/// Rust identifier, and otherwise an error diagnostic at the key.
pub fn ident_from_prop_key(key: &String, key_span: SrcSpan) -> (r: Result<String, Diagnostic>)
    ensures
        syn_parses_ident(key@) ==> (r matches Ok(name) && name@ == key@),
        !syn_parses_ident(key@) ==> (r matches Err(d) && d@ == error_at(
            key_span,
            DiagnosticKindView::InvalidPropertyName { key: key@ },
        )),
{
    field_name_for(key, key_span, parses_as_ident(key.as_str()))
}

} // verus!
