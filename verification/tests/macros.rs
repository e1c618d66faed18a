use freshed_rs::attrs::{
    component, rsx_component, with_children, ArgLabel, AttrError, AttrMacro, ComponentFn, Param,
    ParamType, ParamPat, StructFields, ParamTy, TypePath,
};
use freshed_rs::compile::{parse_macro_input, InputError, SplitInput};
use freshed_rs::entry::{plan_entry, Entry, EntryError, HtmlInvocationShape, Wrapper};
use freshed_rs::markup::{ExprRef, SrcSpan, TokenTree};
use freshed_rs::{to_pascal_case, CompileMode, MacroMode};

fn span(index: usize) -> SrcSpan {
    SrcSpan { index, line: 1, column: index }
}

fn typed(name: &str, handle: usize, path: Option<&[&str]>) -> Param {
    Param::Typed {
        pat: ParamPat::Ident { name: name.to_string(), span: span(handle) },
        ty: ParamTy {
            handle,
            span: span(handle + 100),
            path: path.map(|segments| TypePath {
                qself: false,
                leading_colon: false,
                segments: segments.iter().map(|s| s.to_string()).collect(),
            }),
        },
        span: span(handle),
    }
}

fn function(name: &str, inputs: Vec<Param>) -> ComponentFn {
    ComponentFn {
        generics_empty: true,
        generics_span: span(50),
        name: name.to_string(),
        name_span: span(51),
        is_async: false,
        inputs,
        inputs_span: span(52),
        output: Some(77),
    }
}

#[test]
fn pascal_case_of_snake_names() {
    assert_eq!(to_pascal_case("make_badge"), "MakeBadge");
    assert_eq!(to_pascal_case("__card__"), "Card");
    assert_eq!(to_pascal_case("a_b_c"), "ABC");
    assert_eq!(to_pascal_case("___"), "");
    assert_eq!(to_pascal_case(""), "");
    assert_eq!(to_pascal_case("éclair_x"), "éclairX");
}

#[test]
fn pascal_case_is_idempotent_on_examples() {
    for name in ["make_badge", "ctx_async_panel", "x", "Already", "_a__b"] {
        let once = to_pascal_case(name);
        assert_eq!(to_pascal_case(&once), once);
        assert!(!once.contains('_'));
    }
}

#[test]
fn macro_modes_pick_their_compile_modes() {
    assert_eq!(MacroMode::Html.compile_mode(), CompileMode::SyncNoCtx);
    assert_eq!(MacroMode::HtmlAsync.compile_mode(), CompileMode::AsyncNoCtx);
    assert_eq!(MacroMode::HtmlContext.compile_mode(), CompileMode::SyncWithCtx);
    assert_eq!(MacroMode::HtmlAsyncContext.compile_mode(), CompileMode::AsyncWithCtx);
    assert!(MacroMode::HtmlContext.requires_context_arg());
    assert!(!MacroMode::HtmlAsync.requires_context_arg());
    assert!(CompileMode::AsyncWithCtx.uses_context() && CompileMode::AsyncWithCtx.is_async());
    assert!(!CompileMode::SyncNoCtx.uses_context() && !CompileMode::SyncNoCtx.is_async());
    assert_eq!(MacroMode::Html.macro_name(), "html!");
}

#[test]
fn component_plans_a_pascal_case_wrapper() {
    let f = function("card", vec![typed("out", 1, None), typed("props", 2, Some(&["CardProps"]))]);
    let plan = component(true, &f).expect("component plan");
    assert_eq!(plan.wrapper_name, "Card");
    assert_eq!(plan.props_name, "CardProps");
    assert_eq!(plan.params.len(), 2);
    assert_eq!(plan.params[0].name, "out");
    assert_eq!(plan.params[0].ty, ParamType::Given(1));
    assert_eq!(plan.params[1].name, "props");
    assert_eq!(plan.params[1].ty, ParamType::Props);
    assert_eq!(plan.output, Some(77));
    assert!(!plan.is_async);
    assert_eq!(plan.props_alias, None);
}

#[test]
fn component_aliases_a_differently_named_props_type() {
    let mut f = function(
        "ctx_async_panel",
        vec![typed("out", 1, None), typed("ctx", 2, None), typed("props", 3, Some(&["PanelInput"]))],
    );
    f.is_async = true;
    let plan = component(true, &f).expect("component plan");
    assert_eq!(plan.wrapper_name, "CtxAsyncPanel");
    assert_eq!(plan.props_name, "CtxAsyncPanelProps");
    assert_eq!(plan.params.len(), 3);
    assert_eq!(plan.params[1].name, "ctx");
    assert_eq!(plan.params[1].ty, ParamType::Given(2));
    assert!(plan.is_async);
    assert_eq!(plan.props_alias, Some(3));

    let qualified = function("panel", vec![typed("out", 1, None), typed("props", 3, Some(&["crate", "PanelInput"]))]);
    assert_eq!(component(true, &qualified).expect("component plan").props_alias, None);
}

#[test]
fn component_refuses_bad_items() {
    let good = || function("card", vec![typed("out", 1, None), typed("props", 2, Some(&["CardProps"]))]);
    assert_eq!(
        component(false, &good()).err(),
        Some(AttrError::UnexpectedArguments { attr: AttrMacro::Component })
    );

    let mut generic = good();
    generic.generics_empty = false;
    assert_eq!(component(true, &generic).err(), Some(AttrError::GenericComponent { span: span(50) }));

    let mut unnamed = good();
    unnamed.name = "__".to_string();
    assert_eq!(component(true, &unnamed).err(), Some(AttrError::EmptyName { span: span(51) }));

    let one_arg = function("card", vec![typed("out", 1, None)]);
    let e = component(true, &one_arg).err().expect("refused");
    assert_eq!(e, AttrError::BadSignature { span: span(52) });
    assert_eq!(
        e.message(),
        "#[component] expects function signatures of fn(writer, props) or fn(writer, ctx, props)"
    );

    let receiver = function("card", vec![Param::Receiver { span: span(9) }, typed("props", 2, Some(&["CardProps"]))]);
    let e = component(true, &receiver).err().expect("refused");
    assert_eq!(e, AttrError::ArgNotNamedBinding { label: ArgLabel::Writer, span: span(9) });
    assert_eq!(e.message(), "writer argument must be a named binding");

    let pattern = function(
        "card",
        vec![
            typed("out", 1, None),
            Param::Typed {
                pat: ParamPat::Other { span: span(8) },
                ty: ParamTy { handle: 2, span: span(102), path: None },
                span: span(2),
            },
        ],
    );
    let e = component(true, &pattern).err().expect("refused");
    assert_eq!(e, AttrError::ArgPatternNotIdent { label: ArgLabel::Props, span: span(8) });
    assert_eq!(e.message(), "props argument pattern must be an identifier");

    let not_path = function("card", vec![typed("out", 1, None), typed("props", 2, None)]);
    let e = component(true, &not_path).err().expect("refused");
    assert_eq!(e, AttrError::ArgTypeNotPath { label: ArgLabel::Props, span: span(102) });
    assert_eq!(e.message(), "props argument type must be a path type");
}

#[test]
fn with_children_adds_the_field_once() {
    let plain = StructFields::Named { names: vec!["title".to_string()] };
    assert_eq!(with_children(true, &plain), Ok(true));
    let already = StructFields::Named { names: vec!["title".to_string(), "children".to_string()] };
    assert_eq!(with_children(true, &already), Ok(false));
    assert_eq!(with_children(true, &StructFields::Unnamed), Err(AttrError::NotNamedFields));
    assert_eq!(
        with_children(false, &plain),
        Err(AttrError::UnexpectedArguments { attr: AttrMacro::WithChildren })
    );
    assert_eq!(
        AttrError::UnexpectedArguments { attr: AttrMacro::WithChildren }.message(),
        "#[with_children] does not accept arguments"
    );
}

#[test]
fn rsx_component_takes_no_arguments() {
    assert_eq!(rsx_component(true), Ok(()));
    let e = rsx_component(false).err().expect("refused");
    assert_eq!(e.message(), "#[rsx_component] does not accept arguments");
}

fn comma(index: usize) -> TokenTree {
    TokenTree::Punct { ch: ',', joint: false, span: span(index) }
}

fn word(name: &str, index: usize) -> TokenTree {
    TokenTree::Ident { name: name.to_string(), span: span(index) }
}

#[test]
fn macro_input_checks() {
    let split = |ctx: Option<ExprRef>, markup: Vec<TokenTree>| SplitInput {
        writer_expr: ExprRef { index: 0 },
        context_expr: ctx,
        markup_tokens: markup,
    };

    let e = parse_macro_input(None, MacroMode::HtmlContext).err().expect("refused");
    assert_eq!(e.message(), "html_ctx! expects input in the form: writer_expr, context_expr, <markup...>");
    assert!(e.span().is_none());

    let e = parse_macro_input(Some(split(None, vec![])), MacroMode::Html).err().expect("refused");
    assert_eq!(e.message(), "html! is missing markup after writer argument");

    let e = parse_macro_input(Some(split(Some(ExprRef { index: 1 }), vec![])), MacroMode::HtmlAsyncContext)
        .err()
        .expect("refused");
    assert_eq!(e.message(), "html_async_ctx! is missing markup after writer and context arguments");

    let e = parse_macro_input(Some(split(None, vec![word("a", 3), comma(4), word("b", 5)])), MacroMode::HtmlAsync)
        .err()
        .expect("refused");
    assert!(matches!(e, InputError::TrailingTokens { span } if span.index == 4));
    assert_eq!(e.message(), "trailing non-markup tokens after parsed markup are not allowed");

    let e = parse_macro_input(Some(split(Some(ExprRef { index: 1 }), vec![word("a", 3)])), MacroMode::Html)
        .err()
        .expect("refused");
    assert_eq!(e.message(), "html! expects input in the form: writer_expr, <markup...>");

    let ok = parse_macro_input(Some(split(Some(ExprRef { index: 1 }), vec![word("a", 3)])), MacroMode::HtmlContext)
        .expect("accepted");
    assert_eq!(ok.writer_expr.index, 0);
    assert_eq!(ok.context_expr.map(|e| e.index), Some(1));
    assert_eq!(ok.markup_tokens.len(), 1);
}

#[test]
fn invocation_shapes() {
    let tokens = vec![word("out", 0), comma(1), word("div", 2)];
    assert_eq!(HtmlInvocationShape::parse(&tokens, Some(1)), Some(HtmlInvocationShape { has_writer_prefix: true }));
    assert_eq!(HtmlInvocationShape::parse(&tokens, Some(3)), Some(HtmlInvocationShape { has_writer_prefix: false }));
    assert_eq!(HtmlInvocationShape::parse(&tokens, Some(2)), None);
    assert_eq!(HtmlInvocationShape::parse(&tokens, None), None);
}

#[test]
fn entry_points_choose_mode_and_wrapper() {
    let prefixed = Some(HtmlInvocationShape { has_writer_prefix: true });
    let bare = Some(HtmlInvocationShape { has_writer_prefix: false });

    let p = plan_entry(Entry::Html, prefixed).expect("plan");
    assert_eq!(p.mode, MacroMode::Html);
    assert!(matches!(p.wrapper, Wrapper::Direct));

    let p = plan_entry(Entry::Html, None).expect("plan");
    assert!(matches!(&p.wrapper, Wrapper::Fragment { builder } if builder == "__fr_fragment_builder"));

    assert_eq!(plan_entry(Entry::HtmlTry, prefixed).err(), Some(EntryError::WriterPrefixNotAccepted));
    assert_eq!(
        EntryError::WriterPrefixNotAccepted.message(),
        "html_try! expects markup only, e.g. html_try!(<li>{value}</li>)"
    );
    let p = plan_entry(Entry::HtmlTry, bare).expect("plan");
    assert!(matches!(&p.wrapper, Wrapper::FragmentResult { builder } if builder == "__fr_fragment_builder"));

    let p = plan_entry(Entry::HtmlAsyncToString, prefixed).expect("plan");
    assert_eq!(p.mode, MacroMode::Html);
    assert!(matches!(&p.wrapper, Wrapper::StringBuffer { buffer } if buffer == "__fr_rendered_html"));

    assert_eq!(plan_entry(Entry::HtmlAsyncCtx, None).expect("plan").mode, MacroMode::HtmlAsyncContext);
    assert_eq!(plan_entry(Entry::HtmlCtx, None).expect("plan").mode, MacroMode::HtmlContext);
    assert_eq!(plan_entry(Entry::HtmlAsync, None).expect("plan").mode, MacroMode::HtmlAsync);
}
