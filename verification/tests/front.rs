use freshed_rs::attrs::{AttrError, AttrMacro, ParamType};
use freshed_rs::compile::{ContextBinding, InputError};
use freshed_rs::entry::{Entry, EntryError, Wrapper};
use freshed_rs::front::{plan_component_item, plan_entry_for, plan_markup_macro, plan_with_children, Handles, Tokens};
use freshed_rs::markup::TagPath;
use freshed_rs::plan::{PropValue, Stmt};
use freshed_rs::MacroMode;
use proc_macro2::TokenStream;

fn tokens(text: &str, h: &mut Handles) -> Tokens {
    Tokens::new(text.parse::<TokenStream>().expect("tokens"), h)
}

fn literals(statements: &[Stmt]) -> Vec<String> {
    statements
        .iter()
        .filter_map(|stmt| match stmt {
            Stmt::WriteLiteral { literal, .. } => Some(literal.clone()),
            _ => None,
        })
        .collect()
}

#[test]
fn markup_macro_plans_static_markup_as_one_write() {
    let mut h = Handles::new();
    let plan = plan_markup_macro(tokens("&mut out, <div class=\"card\">hello</div>", &mut h), MacroMode::Html, &mut h)
        .expect("plan");
    assert_eq!(plan.statements.len(), 1);
    assert_eq!(literals(&plan.statements), vec!["<div class=\"card\">hello</div>".to_string()]);
    assert!(plan.diagnostics.is_empty());
    assert!(matches!(plan.context, ContextBinding::Absent));
    assert!(!plan.is_async);
    assert!(h.expr_at(plan.writer_expr).is_some());
    assert!(h.errors().is_empty());
}

#[test]
fn markup_macro_writes_string_literal_text_as_given() {
    let mut h = Handles::new();
    let plan = plan_markup_macro(tokens("&mut out, <p>\"a<b & 'c'\"</p>", &mut h), MacroMode::Html, &mut h).expect("plan");
    assert_eq!(literals(&plan.statements), vec!["<p>a<b & 'c'</p>".to_string()]);
}

#[test]
fn markup_macro_writes_void_elements_self_closed() {
    let mut h = Handles::new();
    let plan = plan_markup_macro(tokens("&mut out, <br>", &mut h), MacroMode::Html, &mut h).expect("plan");
    assert_eq!(literals(&plan.statements), vec!["<br/>".to_string()]);
    let plan = plan_markup_macro(tokens("&mut out, <input type=\"text\">", &mut h), MacroMode::Html, &mut h).expect("plan");
    assert_eq!(literals(&plan.statements), vec!["<input type=\"text\"/>".to_string()]);
}

#[test]
fn markup_macro_keeps_dynamic_text_as_a_write() {
    let mut h = Handles::new();
    let plan = plan_markup_macro(tokens("&mut out, <p>{name}</p>", &mut h), MacroMode::Html, &mut h).expect("plan");
    assert_eq!(plan.statements.len(), 3);
    assert!(matches!(plan.statements[1], Stmt::WriteText { .. }));
    assert_eq!(literals(&plan.statements), vec!["<p>".to_string(), "</p>".to_string()]);
}

#[test]
fn markup_macro_calls_components() {
    let mut h = Handles::new();
    let plan = plan_markup_macro(tokens("&mut out, <Card title=\"x\" />", &mut h), MacroMode::Html, &mut h).expect("plan");
    assert_eq!(plan.statements.len(), 1);
    assert!(matches!(plan.statements[0], Stmt::CallComponent { .. }));
    assert_eq!(plan.component_symbol_hints.len(), 1);
}

#[test]
fn markup_macro_binds_the_context() {
    let mut h = Handles::new();
    let plan = plan_markup_macro(tokens("&mut out, ctx, <p>hi</p>", &mut h), MacroMode::HtmlContext, &mut h).expect("plan");
    assert!(matches!(plan.context, ContextBinding::Bound { .. }));
    assert_eq!(literals(&plan.statements), vec!["<p>hi</p>".to_string()]);
}

#[test]
fn markup_macro_refuses_input_without_writer() {
    let mut h = Handles::new();
    let result = plan_markup_macro(tokens("<p>hi</p>", &mut h), MacroMode::Html, &mut h);
    assert!(matches!(result, Err(InputError::ExpectedForm { mode: MacroMode::Html })));
    let result = plan_markup_macro(tokens("&mut out, <p>hi</p>", &mut h), MacroMode::HtmlContext, &mut h);
    assert!(matches!(result, Err(InputError::ExpectedForm { mode: MacroMode::HtmlContext })));
}

#[test]
fn markup_macro_refuses_missing_markup() {
    let mut h = Handles::new();
    let result = plan_markup_macro(tokens("&mut out,", &mut h), MacroMode::Html, &mut h);
    assert!(matches!(result, Err(InputError::MissingMarkup { mode: MacroMode::Html })));
}

#[test]
fn component_item_is_planned_from_its_tokens() {
    let mut h = Handles::new();
    let item = tokens("fn make_badge(out: &mut String, props: BadgeProps) -> Result<(), E> { Ok(()) }", &mut h);
    let plan = plan_component_item(true, &item, &mut h).expect("plan");
    assert_eq!(plan.fn_name, "make_badge");
    assert_eq!(plan.wrapper_name, "MakeBadge");
    assert_eq!(plan.props_name, "MakeBadgeProps");
    let names: Vec<&str> = plan.params.iter().map(|p| p.name.as_str()).collect();
    assert_eq!(names, vec!["out", "props"]);
    assert!(matches!(plan.params[0].ty, ParamType::Given(_)));
    assert_eq!(plan.params[1].ty, ParamType::Props);
    let alias = plan.props_alias.expect("alias");
    assert!(h.type_at(alias).is_some());
    assert!(plan.output.is_some());
    assert!(!plan.is_async);
    assert!(h.span_at(plan.name_span).is_some());
}

#[test]
fn component_item_with_context_and_matching_props_name_has_no_alias() {
    let mut h = Handles::new();
    let item = tokens("async fn panel(w: &mut String, ctx: &Ctx, p: PanelProps) { }", &mut h);
    let plan = plan_component_item(true, &item, &mut h).expect("plan");
    assert_eq!(plan.params.len(), 3);
    assert_eq!(plan.props_alias, None);
    assert_eq!(plan.output, None);
    assert!(plan.is_async);
}

#[test]
fn component_item_refusals() {
    let mut h = Handles::new();
    let item = tokens("fn card(out: &mut String, props: CardProps) {}", &mut h);
    assert_eq!(
        plan_component_item(false, &item, &mut h).err(),
        Some(AttrError::UnexpectedArguments { attr: AttrMacro::Component })
    );
    let not_fn = tokens("struct Card;", &mut h);
    assert_eq!(
        plan_component_item(true, &not_fn, &mut h).err(),
        Some(AttrError::UnparsableItem { attr: AttrMacro::Component })
    );
    assert_eq!(h.errors().len(), 1);
    let generic = tokens("fn card<T>(out: &mut String, props: CardProps) {}", &mut h);
    assert!(matches!(plan_component_item(true, &generic, &mut h), Err(AttrError::GenericComponent { .. })));
    let bad = tokens("fn card(out: &mut String) {}", &mut h);
    assert!(matches!(plan_component_item(true, &bad, &mut h), Err(AttrError::BadSignature { .. })));
}

#[test]
fn with_children_appends_a_children_field() {
    let mut h = Handles::new();
    let item = plan_with_children(true, &tokens("pub struct CardProps { pub title: String }", &mut h), &mut h).expect("plan");
    let names: Vec<String> = item.item().fields.iter().map(|f| f.ident.as_ref().expect("named").to_string()).collect();
    let last = item.item().fields.iter().last().expect("field");
    assert!(matches!(last.vis, syn::Visibility::Public(_)));
    assert_eq!(quote::ToTokens::to_token_stream(&last.ty).to_string(), ":: std :: string :: String");
    assert_eq!(names, vec!["title".to_string(), "children".to_string()]);
}

#[test]
fn with_children_keeps_an_existing_children_field() {
    let mut h = Handles::new();
    let item = plan_with_children(true, &tokens("struct P { children: String, a: u8 }", &mut h), &mut h).expect("plan");
    assert_eq!(item.item().fields.len(), 2);
}

#[test]
fn with_children_refusals() {
    let mut h = Handles::new();
    assert_eq!(
        plan_with_children(true, &tokens("struct P(u8);", &mut h), &mut h).err(),
        Some(AttrError::NotNamedFields)
    );
    assert_eq!(
        plan_with_children(false, &tokens("struct P { a: u8 }", &mut h), &mut h).err(),
        Some(AttrError::UnexpectedArguments { attr: AttrMacro::WithChildren })
    );
    assert_eq!(
        plan_with_children(true, &tokens("fn f() {}", &mut h), &mut h).err(),
        Some(AttrError::UnparsableItem { attr: AttrMacro::WithChildren })
    );
    assert_eq!(h.errors().len(), 1);
}

#[test]
fn entry_points_read_the_invocation_shape() {
    let mut h = Handles::new();
    let direct = plan_entry_for(Entry::Html, &tokens("&mut out, <p>x</p>", &mut h)).expect("plan");
    assert_eq!(direct.mode, MacroMode::Html);
    assert!(matches!(direct.wrapper, Wrapper::Direct));
    let fragment = plan_entry_for(Entry::Html, &tokens("<p>x</p>", &mut h)).expect("plan");
    assert!(matches!(fragment.wrapper, Wrapper::Fragment { .. }));
    let single = plan_entry_for(Entry::Html, &tokens("value", &mut h)).expect("plan");
    assert!(matches!(single.wrapper, Wrapper::Fragment { .. }));
    assert_eq!(
        plan_entry_for(Entry::HtmlTry, &tokens("&mut out, <p>x</p>", &mut h)).err(),
        Some(EntryError::WriterPrefixNotAccepted)
    );
    let tried = plan_entry_for(Entry::HtmlTry, &tokens("<p>x</p>", &mut h)).expect("plan");
    assert!(matches!(tried.wrapper, Wrapper::FragmentResult { .. }));
    let ctx = plan_entry_for(Entry::HtmlCtx, &tokens("&mut out, ctx, <p>x</p>", &mut h)).expect("plan");
    assert_eq!(ctx.mode, MacroMode::HtmlContext);
    assert!(matches!(ctx.wrapper, Wrapper::Direct));
}

#[test]
fn markup_macro_escapes_literal_attribute_values() {
    let mut h = Handles::new();
    let plan = plan_markup_macro(tokens("&mut out, <a title=\"x<y & z\">t</a>", &mut h), MacroMode::Html, &mut h)
        .expect("plan");
    assert_eq!(literals(&plan.statements), vec!["<a title=\"x&lt;y &amp; z\">t</a>".to_string()]);
}

#[test]
fn component_props_are_read_from_real_markup() {
    let mut h = Handles::new();
    let plan = plan_markup_macro(tokens("&mut out, <ui::Card title=\"x\" active {count} />", &mut h), MacroMode::Html, &mut h)
        .expect("plan");
    assert!(plan.diagnostics.is_empty());
    match &plan.statements[0] {
        Stmt::CallComponent { component, props_type, fields, awaited, context, .. } => {
            let path = |p: &TagPath| (p.leading_colon, p.segments.clone());
            assert_eq!(path(component), (false, vec!["ui".to_string(), "Card".to_string()]));
            assert_eq!(path(props_type), (false, vec!["ui".to_string(), "CardProps".to_string()]));
            let names: Vec<&str> = fields.iter().map(|f| f.name.as_str()).collect();
            assert_eq!(names, vec!["title", "active", "count"]);
            assert!(matches!(fields[0].value, PropValue::Expr(_)));
            assert!(matches!(fields[1].value, PropValue::BareTrue));
            assert!(matches!(&fields[2].value, PropValue::Ident(name) if name == "count"));
            assert!(!awaited);
            assert!(context.is_none());
        },
        other => panic!("expected a component call, got {other:?}"),
    }
}

#[test]
fn with_children_is_idempotent() {
    let mut h = Handles::new();
    let once = plan_with_children(true, &tokens("struct P { a: u8 }", &mut h), &mut h).expect("plan");
    let again_tokens = Tokens::new(quote::ToTokens::to_token_stream(once.item()), &mut h);
    let twice = plan_with_children(true, &again_tokens, &mut h).expect("plan");
    let names = |s: &syn::ItemStruct| -> Vec<String> { s.fields.iter().map(|f| f.ident.as_ref().expect("named").to_string()).collect() };
    assert_eq!(names(twice.item()), vec!["a".to_string(), "children".to_string()]);
    assert_eq!(names(twice.item()), names(once.item()));
}

#[test]
fn entry_shape_depends_on_punctuation_spacing() {
    let mut h = Handles::new();
    let joined = plan_entry_for(Entry::Html, &tokens("a == b, <p/>", &mut h)).expect("plan");
    assert!(matches!(joined.wrapper, Wrapper::Direct));
}

fn call_parts(stmt: &Stmt) -> (Vec<String>, Vec<String>, Option<String>, bool) {
    match stmt {
        Stmt::CallComponent { component, fields, context, awaited, .. } => (
            component.segments.clone(),
            fields.iter().map(|f| f.name.clone()).collect(),
            context.clone(),
            *awaited,
        ),
        other => panic!("expected a component call, got {other:?}"),
    }
}

#[test]
fn html_renders_sync_component() {
    // html!(&mut out, <Card title="Hello">{"Body"}</Card>)
    let mut h = Handles::new();
    let entry = plan_entry_for(Entry::Html, &tokens("&mut out, <Card title=\"Hello\">{\"Body\"}</Card>", &mut h))
        .expect("entry");
    assert!(matches!(entry.wrapper, Wrapper::Direct));
    let plan = plan_markup_macro(tokens("&mut out, <Card title=\"Hello\">{\"Body\"}</Card>", &mut h), MacroMode::Html, &mut h)
        .expect("component render should succeed");
    assert!(plan.diagnostics.is_empty());
    assert_eq!(plan.statements.len(), 2);
    let buffer = match &plan.statements[0] {
        Stmt::CaptureChildren { buffer, body, .. } => {
            assert_eq!(body.len(), 1);
            assert!(matches!(body[0], Stmt::WriteText { .. }));
            buffer.clone()
        },
        other => panic!("expected the children to be captured, got {other:?}"),
    };
    let (component, fields, context, awaited) = call_parts(&plan.statements[1]);
    assert_eq!(component, vec!["Card".to_string()]);
    assert_eq!(fields, vec!["title".to_string(), "children".to_string()]);
    assert_eq!(context, None);
    assert!(!awaited);
    match &plan.statements[1] {
        Stmt::CallComponent { fields, .. } => {
            assert!(matches!(fields[0].value, PropValue::Expr(_)));
            assert!(matches!(&fields[1].value, PropValue::Children(b) if *b == buffer));
        },
        _ => unreachable!(),
    }
}

#[test]
fn html_ctx_threads_context_to_components() {
    // html_ctx!(&mut out, ctx, <Badge tone="success">{"ok"}</Badge>)
    let mut h = Handles::new();
    let entry = plan_entry_for(Entry::HtmlCtx, &tokens("&mut out, ctx, <Badge tone=\"success\">{\"ok\"}</Badge>", &mut h))
        .expect("entry");
    assert_eq!(entry.mode, MacroMode::HtmlContext);
    let plan = plan_markup_macro(
        tokens("&mut out, ctx, <Badge tone=\"success\">{\"ok\"}</Badge>", &mut h),
        MacroMode::HtmlContext,
        &mut h,
    )
    .expect("context render should succeed");
    let binding = match &plan.context {
        ContextBinding::Bound { binding, .. } => binding.clone(),
        other => panic!("expected a bound context, got {other:?}"),
    };
    let (component, fields, context, awaited) = call_parts(&plan.statements[1]);
    assert_eq!(component, vec!["Badge".to_string()]);
    assert_eq!(fields, vec!["tone".to_string(), "children".to_string()]);
    assert_eq!(context, Some(binding));
    assert!(!awaited);
}

#[test]
fn html_async_supports_marked_async_components() {
    // html_async!(&mut out, <AsyncPanel async label="A" />)
    let mut h = Handles::new();
    let entry = plan_entry_for(Entry::HtmlAsync, &tokens("&mut out, <AsyncPanel async label=\"A\" />", &mut h))
        .expect("entry");
    assert_eq!(entry.mode, MacroMode::HtmlAsync);
    let plan = plan_markup_macro(tokens("&mut out, <AsyncPanel async label=\"A\" />", &mut h), MacroMode::HtmlAsync, &mut h)
        .expect("async component render should succeed");
    assert!(plan.is_async);
    assert_eq!(plan.statements.len(), 1);
    let (component, fields, context, awaited) = call_parts(&plan.statements[0]);
    assert_eq!(component, vec!["AsyncPanel".to_string()]);
    assert_eq!(fields, vec!["label".to_string()]);
    assert_eq!(context, None);
    assert!(awaited);
}

#[test]
fn html_async_ctx_supports_context_and_async_components() {
    let text = "&mut out, ctx, <div><Badge tone=\"info\">{\"x\"}</Badge><CtxAsyncPanel async label=\"B\" /></div>";
    let mut h = Handles::new();
    let entry = plan_entry_for(Entry::HtmlAsyncCtx, &tokens(text, &mut h)).expect("entry");
    assert_eq!(entry.mode, MacroMode::HtmlAsyncContext);
    let plan = plan_markup_macro(tokens(text, &mut h), MacroMode::HtmlAsyncContext, &mut h)
        .expect("async context render should succeed");
    assert!(plan.is_async);
    let calls: Vec<_> = plan.statements.iter().filter(|s| matches!(s, Stmt::CallComponent { .. })).map(call_parts).collect();
    assert_eq!(calls.len(), 2);
    assert_eq!(calls[0].0, vec!["Badge".to_string()]);
    assert!(calls[0].2.is_some() && !calls[0].3);
    assert_eq!(calls[1].0, vec!["CtxAsyncPanel".to_string()]);
    assert_eq!(calls[1].1, vec!["label".to_string()]);
    assert!(calls[1].2.is_some() && calls[1].3);
    assert_eq!(literals(&plan.statements).first().map(String::as_str), Some("<div>"));
    assert_eq!(literals(&plan.statements).last().map(String::as_str), Some("</div>"));
}

#[test]
fn html_fragment_expression_returns_raw_fragment() {
    // let item = html!(<li>{7}</li>); html!(&mut out, <ul>{item}</ul>)
    let mut h = Handles::new();
    let inner = plan_entry_for(Entry::Html, &tokens("<li>{7}</li>", &mut h)).expect("entry");
    assert!(matches!(inner.wrapper, Wrapper::Fragment { .. }));
    let item = plan_markup_macro(tokens("&mut builder, <li>{7}</li>", &mut h), MacroMode::Html, &mut h).expect("plan");
    assert_eq!(literals(&item.statements), vec!["<li>".to_string(), "</li>".to_string()]);
    let outer = plan_entry_for(Entry::Html, &tokens("&mut out, <ul>{item}</ul>", &mut h)).expect("entry");
    assert!(matches!(outer.wrapper, Wrapper::Direct));
    let plan = plan_markup_macro(tokens("&mut out, <ul>{item}</ul>", &mut h), MacroMode::Html, &mut h)
        .expect("fragment interpolation should succeed");
    assert_eq!(plan.statements.len(), 3);
    assert!(matches!(plan.statements[1], Stmt::WriteText { .. }));
    assert_eq!(literals(&plan.statements), vec!["<ul>".to_string(), "</ul>".to_string()]);
}

#[test]
fn collect_html_sequence_supports_iterator_composition() {
    // values.map(|n| html!(<li>{n}</li>)).collect_html_sequence(); html!(&mut out, <ul>{items}</ul>)
    let mut h = Handles::new();
    let each = plan_entry_for(Entry::Html, &tokens("<li>{n}</li>", &mut h)).expect("entry");
    assert!(matches!(each.wrapper, Wrapper::Fragment { .. }));
    let plan = plan_markup_macro(tokens("&mut out, <ul>{items}</ul>", &mut h), MacroMode::Html, &mut h)
        .expect("list rendering should succeed");
    assert_eq!(literals(&plan.statements), vec!["<ul>".to_string(), "</ul>".to_string()]);
    assert!(matches!(plan.statements[1], Stmt::WriteText { .. }));
}

#[test]
fn html_try_returns_result_fragment() {
    // html_try!(<li>{42}</li>)
    let mut h = Handles::new();
    let entry = plan_entry_for(Entry::HtmlTry, &tokens("<li>{42}</li>", &mut h)).expect("fragment render should succeed");
    assert_eq!(entry.mode, MacroMode::Html);
    assert!(matches!(entry.wrapper, Wrapper::FragmentResult { .. }));
    let plan = plan_markup_macro(tokens("&mut builder, <li>{42}</li>", &mut h), MacroMode::Html, &mut h)
        .expect("fragment interpolation should succeed");
    assert_eq!(literals(&plan.statements), vec!["<li>".to_string(), "</li>".to_string()]);
}

#[test]
fn markup_parser_errors_are_recorded_before_planning() {
    let mut h = Handles::new();
    let plan = plan_markup_macro(tokens("&mut out, <div>hi</span>", &mut h), MacroMode::Html, &mut h);
    assert!(plan.is_ok());
    assert!(!h.errors().is_empty());
}
