use freshed_rs::compile::{html_ctxner, trailing_garbage_diagnostics, ContextBinding};
use freshed_rs::escape_html_literal;
use freshed_rs::markup::{
    AttrValue, Attribute, Delimiter, ExprRef, ExprShape, MarkupNode, PathIdent, SrcSpan, StmtShape, TagName,
    TokenTree,
};
use freshed_rs::plan::{DiagnosticKind, Level, PropValue, Stmt};
use freshed_rs::props::{
    component_paths, field_name_for, ident_from_prop_key, is_component_tag, parse_component_props,
    path_tokens_string,
};
use freshed_rs::walk::compile_time_attr_string_literal;
use freshed_rs::CompileMode;

fn span(index: usize) -> SrcSpan {
    SrcSpan { index, line: 1, column: index }
}

fn tag(text: &str) -> TagName {
    TagName { text: text.to_string(), span: span(0) }
}

fn keyed(key: &str, index: usize, value: Option<ExprShape>) -> Attribute {
    Attribute::Keyed {
        key: key.to_string(),
        key_span: span(index),
        value: value.map(|shape| AttrValue { expr: ExprRef { index }, span: span(index + 1), shape }),
    }
}

fn str_lit(s: &str) -> ExprShape {
    ExprShape::StrLit(s.to_string())
}

fn ident_token(name: &str, index: usize) -> TokenTree {
    TokenTree::Ident { name: name.to_string(), span: span(index) }
}

fn path_expr(name: &str, index: usize) -> ExprShape {
    ExprShape::Path {
        qself: false,
        leading_colon: false,
        segments: vec![PathIdent { name: name.to_string(), span: span(index) }],
    }
}

/// `{name}` in attribute position.
fn shorthand(name: &str, index: usize) -> Attribute {
    Attribute::Block {
        block: ExprRef { index },
        span: span(index),
        tokens: vec![TokenTree::Group {
            delimiter: Delimiter::Brace,
            stream: vec![ident_token(name, index + 1)],
            span: span(index),
        }],
        parsed: Some(ExprShape::Block {
            stmts: vec![StmtShape::Expr { expr: path_expr(name, index + 1), semicolon: false }],
        }),
    }
}

fn text(value: &str) -> MarkupNode {
    MarkupNode::Text { value: value.to_string(), span: span(0) }
}

fn element(name: &str, attributes: Vec<Attribute>, children: Vec<MarkupNode>) -> MarkupNode {
    MarkupNode::Element { name: tag(name), attributes, children }
}

fn literal_of(stmt: &Stmt) -> Option<(&str, &str)> {
    match stmt {
        Stmt::WriteLiteral { writer, literal } => Some((writer.as_str(), literal.as_str())),
        _ => None,
    }
}

#[test]
fn escape_html_literal_matches_runtime_contract() {
    assert_eq!(escape_html_literal("<>&\"'"), "&lt;&gt;&amp;&quot;&#39;");
}

#[test]
fn classifies_lowercase_intrinsic_tags_as_non_component() {
    let name = tag("div");
    assert!(!is_component_tag(&name.text));
    assert!(component_paths(&name).is_none());
}

#[test]
fn classifies_custom_element_tags_as_non_component() {
    let name = tag("my-widget");
    assert!(!is_component_tag(&name.text));
    assert!(component_paths(&name).is_none());
}

#[test]
fn classifies_uppercase_tags_as_components() {
    let name = tag("Button");
    let paths = component_paths(&name).expect("component paths");

    assert!(is_component_tag(&name.text));
    assert_eq!(path_tokens_string(&paths.component_fn_path), "Button");
    assert_eq!(path_tokens_string(&paths.props_type_path), "ButtonProps");
}

#[test]
fn supports_component_tag_paths() {
    let name = tag("crate::ui::Button");
    let paths = component_paths(&name).expect("component paths");

    assert!(is_component_tag(&name.text));
    assert_eq!(path_tokens_string(&paths.component_fn_path), "crate :: ui :: Button");
    assert_eq!(path_tokens_string(&paths.props_type_path), "crate :: ui :: ButtonProps");
}

#[test]
fn parses_async_marker_and_regular_props() {
    // <Card async title="Welcome" count={3} />
    let attributes = vec![
        keyed("async", 1, None),
        keyed("title", 2, Some(str_lit("Welcome"))),
        keyed("count", 4, Some(ExprShape::Other)),
    ];
    let parsed = parse_component_props(&"Card".to_string(), &attributes);

    assert!(parsed.diagnostics.is_empty());
    assert!(parsed.async_marker_span.is_some());
    assert_eq!(parsed.props.len(), 2);
    assert_eq!(parsed.props[0].key, "title");
    assert_eq!(parsed.props[1].key, "count");
}

#[test]
fn parses_shorthand_props_as_identifier_values() {
    // <Button {tone} {variant} />
    let attributes = vec![shorthand("tone", 1), shorthand("variant", 3)];
    let parsed = parse_component_props(&"Button".to_string(), &attributes);

    assert!(parsed.diagnostics.is_empty());
    assert_eq!(parsed.props.len(), 2);
    assert_eq!(parsed.props[0].key, "tone");
    assert_eq!(parsed.props[1].key, "variant");

    let tone_tokens = match &parsed.props[0].value {
        PropValue::Ident(name) => name.clone(),
        other => panic!("unexpected value {:?}", other),
    };
    let variant_tokens = match &parsed.props[1].value {
        PropValue::Ident(name) => name.clone(),
        other => panic!("unexpected value {:?}", other),
    };
    assert_eq!(tone_tokens, "tone");
    assert_eq!(variant_tokens, "variant");
}

#[test]
fn reports_duplicate_component_props() {
    // <Button kind="a" kind="b" />
    let attributes = vec![keyed("kind", 1, Some(str_lit("a"))), keyed("kind", 3, Some(str_lit("b")))];
    let parsed = parse_component_props(&"Button".to_string(), &attributes);

    assert_eq!(parsed.props.len(), 1);
    assert_eq!(parsed.diagnostics.len(), 1);
}

#[test]
fn reports_invalid_shorthand_component_props() {
    // <Button {a + b} />
    let attributes = vec![Attribute::Block {
        block: ExprRef { index: 1 },
        span: span(1),
        tokens: vec![TokenTree::Group {
            delimiter: Delimiter::Brace,
            stream: vec![
                ident_token("a", 2),
                TokenTree::Punct { ch: '+', joint: false, span: span(3) },
                ident_token("b", 4),
            ],
            span: span(1),
        }],
        parsed: Some(ExprShape::Block {
            stmts: vec![StmtShape::Expr { expr: ExprShape::Other, semicolon: false }],
        }),
    }];
    let parsed = parse_component_props(&"Button".to_string(), &attributes);

    assert!(parsed.props.is_empty());
    assert_eq!(parsed.diagnostics.len(), 1);
}

#[test]
fn tracks_children_prop_presence_and_span() {
    // <Card children={content} />
    let attributes = vec![keyed("children", 1, Some(path_expr("content", 3)))];
    let parsed = parse_component_props(&"Card".to_string(), &attributes);

    assert!(parsed.has_children_prop);
    assert!(parsed.children_key_span.is_some());
    assert_eq!(parsed.props.len(), 1);
    assert_eq!(parsed.props[0].key, "children");
}

#[test]
fn reports_duplicate_async_markers() {
    // <Card async async />
    let attributes = vec![keyed("async", 1, None), keyed("async", 2, None)];
    let parsed = parse_component_props(&"Card".to_string(), &attributes);

    assert!(parsed.async_marker_span.is_some());
    assert_eq!(parsed.diagnostics.len(), 1);
}

#[test]
fn reports_async_marker_value_usage() {
    // <Card async={true} />
    let attributes = vec![keyed("async", 1, Some(ExprShape::Other))];
    let parsed = parse_component_props(&"Card".to_string(), &attributes);

    assert!(parsed.async_marker_span.is_some());
    assert_eq!(parsed.diagnostics.len(), 1);
}

#[test]
fn diagnostics_keep_prop_key_spans() {
    // <Card role="a" role="b" />
    let attributes = vec![keyed("role", 1, Some(str_lit("a"))), keyed("role", 3, Some(str_lit("b")))];
    let parsed = parse_component_props(&"Card".to_string(), &attributes);

    let duplicate_key_span = parsed.props[0].key_span;
    assert_eq!(parsed.props[0].key, "role");
    assert_eq!(duplicate_key_span.line, 1);
}

#[test]
fn escapes_compile_time_attr_string_literal() {
    let expression = str_lit("Tom & Jerry < \"best\"");
    let rendered = compile_time_attr_string_literal(&expression).expect("string literal");
    assert_eq!(rendered, "Tom &amp; Jerry &lt; &quot;best&quot;");
}

#[test]
fn compile_time_attr_string_literal_ignores_non_string_literals() {
    // 123
    let expression = ExprShape::Other;
    assert!(compile_time_attr_string_literal(&expression).is_none());
}

#[test]
fn compile_time_attr_string_literal_sees_through_parentheses() {
    let expression = ExprShape::Paren(Box::new(ExprShape::Group(Box::new(str_lit("a<b")))));
    assert_eq!(compile_time_attr_string_literal(&expression).as_deref(), Some("a&lt;b"));
}

#[test]
fn html_writes_intrinsic_markup() {
    // html!(&mut out, <div>hello</div>)
    let nodes = vec![element("div", vec![], vec![text("hello")])];
    let plan = html_ctxner(ExprRef { index: 0 }, None, &nodes, CompileMode::SyncNoCtx);
    assert_eq!(plan.statements.len(), 1);
    assert_eq!(literal_of(&plan.statements[0]), Some(("__fr_out", "<div>hello</div>")));
    assert!(plan.diagnostics.is_empty());
    assert!(!plan.is_async);
    assert!(matches!(plan.context, ContextBinding::Absent));
}

#[test]
fn snapshot_intrinsic_simple_element() {
    let nodes = vec![element("div", vec![], vec![text("divided")])];
    let plan = html_ctxner(ExprRef { index: 0 }, None, &nodes, CompileMode::SyncNoCtx);
    let rendered = literal_of(&plan.statements[0]).expect("one literal write").1;
    assert_eq!(rendered, "<div>divided</div>");
}

#[test]
fn snapshot_intrinsic_nested_markup() {
    let nodes = vec![element(
        "section",
        vec![],
        vec![
            element("h1", vec![], vec![text("Title")]),
            element("p", vec![], vec![text("Body")]),
        ],
    )];
    let plan = html_ctxner(ExprRef { index: 0 }, None, &nodes, CompileMode::SyncNoCtx);
    assert_eq!(plan.statements.len(), 1);
    let rendered = literal_of(&plan.statements[0]).expect("one literal write").1;
    assert_eq!(rendered, "<section><h1>Title</h1><p>Body</p></section>");
}

#[test]
fn expression_attribute_splits_the_literal_writes() {
    // <div data-id={id}>ok</div>
    let nodes = vec![element("div", vec![keyed("data-id", 1, Some(path_expr("id", 2)))], vec![text("ok")])];
    let plan = html_ctxner(ExprRef { index: 0 }, None, &nodes, CompileMode::SyncNoCtx);
    assert_eq!(plan.statements.len(), 3);
    assert_eq!(literal_of(&plan.statements[0]), Some(("__fr_out", "<div data-id=\"")));
    assert!(matches!(&plan.statements[1], Stmt::WriteAttr { writer, expr } if writer == "__fr_out" && expr.index == 1));
    assert_eq!(literal_of(&plan.statements[2]), Some(("__fr_out", "\">ok</div>")));
}

#[test]
fn void_elements_close_themselves_and_drop_children() {
    // <div><input type="password">x</input></div>
    let input = element("input", vec![keyed("type", 1, Some(str_lit("password")))], vec![text("x")]);
    let nodes = vec![element("div", vec![], vec![input])];
    let plan = html_ctxner(ExprRef { index: 0 }, None, &nodes, CompileMode::SyncNoCtx);
    assert_eq!(plan.statements.len(), 1);
    assert_eq!(literal_of(&plan.statements[0]), Some(("__fr_out", "<div><input type=\"password\"/></div>")));
    assert_eq!(plan.diagnostics.len(), 1);
    assert_eq!(plan.diagnostics[0].level, Level::Warning);
    assert!(matches!(plan.diagnostics[0].kind, DiagnosticKind::ChildrenOnVoidElement));
}

#[test]
fn component_children_are_captured_into_a_buffer() {
    // <Card title="Hello">{"Body"}</Card>
    let card = element("Card", vec![keyed("title", 1, Some(str_lit("Hello")))], vec![MarkupNode::Block { block: ExprRef { index: 3 } }]);
    let plan = html_ctxner(ExprRef { index: 0 }, None, &vec![card], CompileMode::SyncNoCtx);
    assert_eq!(plan.statements.len(), 2);
    match &plan.statements[0] {
        Stmt::CaptureChildren { buffer, writer, body } => {
            assert_eq!(buffer, "__fr_children_0");
            assert_eq!(writer, "__fr_children_out_1");
            assert_eq!(body.len(), 1);
            assert!(matches!(&body[0], Stmt::WriteText { writer, .. } if writer == "__fr_children_out_1"));
        },
        other => panic!("unexpected statement {:?}", other),
    }
    match &plan.statements[1] {
        Stmt::CallComponent { component, props_type, writer, context, fields, awaited, .. } => {
            assert_eq!(path_tokens_string(component), "Card");
            assert_eq!(path_tokens_string(props_type), "CardProps");
            assert_eq!(writer, "__fr_out");
            assert!(context.is_none());
            assert!(!awaited);
            assert_eq!(fields.len(), 2);
            assert_eq!(fields[0].name, "title");
            assert_eq!(fields[1].name, "children");
            assert!(matches!(&fields[1].value, PropValue::Children(b) if b == "__fr_children_0"));
        },
        other => panic!("unexpected statement {:?}", other),
    }
    assert_eq!(plan.component_symbol_hints.len(), 1);
    assert!(plan.diagnostics.is_empty());
}

#[test]
fn context_is_threaded_into_component_calls() {
    // html_ctx!(&mut out, ctx, <Badge tone="success" />)
    let badge = element("Badge", vec![keyed("tone", 1, Some(str_lit("success")))], vec![]);
    let plan = html_ctxner(ExprRef { index: 0 }, Some(ExprRef { index: 9 }), &vec![badge], CompileMode::SyncWithCtx);
    assert!(matches!(&plan.context, ContextBinding::Bound { binding, expr } if binding == "__fr_ctx" && expr.index == 9));
    assert!(matches!(&plan.statements[0], Stmt::CallComponent { context: Some(c), .. } if c == "__fr_ctx"));
}

#[test]
fn missing_context_expression_is_reported_in_the_binding() {
    let plan = html_ctxner(ExprRef { index: 0 }, None, &vec![text("x")], CompileMode::AsyncWithCtx);
    assert!(matches!(&plan.context, ContextBinding::MissingExpression { binding } if binding == "__fr_ctx"));
    assert!(plan.is_async);
}

#[test]
fn async_marker_is_awaited_only_in_async_macros() {
    let panel = || element("AsyncPanel", vec![keyed("async", 1, None), keyed("label", 2, Some(str_lit("A")))], vec![]);
    let sync_plan = html_ctxner(ExprRef { index: 0 }, None, &vec![panel()], CompileMode::SyncNoCtx);
    assert_eq!(sync_plan.diagnostics.len(), 1);
    assert!(matches!(sync_plan.diagnostics[0].kind, DiagnosticKind::AsyncMarkerInSyncMacro));
    assert!(matches!(&sync_plan.statements[0], Stmt::CallComponent { awaited: false, .. }));

    let async_plan = html_ctxner(ExprRef { index: 0 }, None, &vec![panel()], CompileMode::AsyncNoCtx);
    assert!(async_plan.diagnostics.is_empty());
    assert!(matches!(&async_plan.statements[0], Stmt::CallComponent { awaited: true, .. }));
}

#[test]
fn children_given_twice_are_reported() {
    // <Card children={c}>x</Card>
    let card = element("Card", vec![keyed("children", 1, Some(path_expr("c", 2)))], vec![text("x")]);
    let plan = html_ctxner(ExprRef { index: 0 }, None, &vec![card], CompileMode::SyncNoCtx);
    assert_eq!(plan.diagnostics.len(), 1);
    assert!(matches!(plan.diagnostics[0].kind, DiagnosticKind::ChildrenConflict));
    assert_eq!(plan.diagnostics[0].span.index, 1);
    assert_eq!(plan.statements.len(), 1);
}

#[test]
fn trailing_text_after_markup_is_reported() {
    let nodes = vec![text("  "), element("div", vec![], vec![]), text(" \n "), text("oops")];
    let diagnostics = trailing_garbage_diagnostics(&nodes);
    assert_eq!(diagnostics.len(), 1);
    assert!(matches!(diagnostics[0].kind, DiagnosticKind::TrailingMarkup));

    let leading_only = vec![text("hello"), element("br", vec![], vec![])];
    assert!(trailing_garbage_diagnostics(&leading_only).is_empty());
}

#[test]
fn property_keys_must_be_identifiers() {
    // <Card data-x="1" type="a" title="t" />
    let card = element(
        "Card",
        vec![
            keyed("data-x", 1, Some(str_lit("1"))),
            keyed("type", 3, Some(str_lit("a"))),
            keyed("title", 5, Some(str_lit("t"))),
        ],
        vec![],
    );
    let plan = html_ctxner(ExprRef { index: 0 }, None, &vec![card], CompileMode::SyncNoCtx);
    assert_eq!(plan.diagnostics.len(), 2);
    assert!(matches!(&plan.diagnostics[0].kind, DiagnosticKind::InvalidPropertyName { key } if key == "data-x"));
    assert_eq!(plan.diagnostics[0].message(), "component property 'data-x' must be a valid Rust identifier");
    assert!(matches!(&plan.diagnostics[1].kind, DiagnosticKind::InvalidPropertyName { key } if key == "type"));
    match &plan.statements[0] {
        Stmt::CallComponent { fields, .. } => {
            assert_eq!(fields.len(), 1);
            assert_eq!(fields[0].name, "title");
        },
        other => panic!("unexpected statement {:?}", other),
    }
}

#[test]
fn duplicate_property_message_names_key_and_component() {
    let attributes = vec![keyed("kind", 1, Some(str_lit("a"))), keyed("kind", 3, Some(str_lit("b")))];
    let parsed = parse_component_props(&"Button".to_string(), &attributes);
    assert_eq!(parsed.diagnostics[0].message(), "duplicate property 'kind' on component 'Button'");
    assert_eq!(parsed.diagnostics[0].span.index, 3);
}

/// Runs planned statements the way the rendering runtime does, with the
/// given text for each expression: literal writes are copied, and text and
/// attribute values are written escaped.
fn run_plan(statements: &[Stmt], values: &dyn Fn(usize) -> String) -> String {
    let mut out = String::new();
    for stmt in statements {
        match stmt {
            Stmt::WriteLiteral { literal, .. } => out.push_str(literal),
            Stmt::WriteText { expr, .. } | Stmt::WriteAttr { expr, .. } => {
                out.push_str(&escape_html_literal(&values(expr.index)))
            },
            other => panic!("statement outside this runner {:?}", other),
        }
    }
    out
}

#[test]
fn html_escapes_dynamic_values() {
    // html!(&mut out, <div title={dangerous}>{dangerous}</div>)
    let dangerous = "<span>&\"'";
    let nodes = vec![element(
        "div",
        vec![keyed("title", 1, Some(path_expr("dangerous", 2)))],
        vec![MarkupNode::Block { block: ExprRef { index: 3 } }],
    )];
    let plan = html_ctxner(ExprRef { index: 0 }, None, &nodes, CompileMode::SyncNoCtx);
    let out = run_plan(&plan.statements, &|_| dangerous.to_string());
    assert_eq!(out, "<div title=\"&lt;span&gt;&amp;&quot;&#39;\">&lt;span&gt;&amp;&quot;&#39;</div>");
}

#[test]
fn html_async_supports_intrinsic_markup() {
    // html_async!(&mut out, <main>{"async"}</main>)
    let nodes = vec![element("main", vec![], vec![MarkupNode::Block { block: ExprRef { index: 1 } }])];
    let plan = html_ctxner(ExprRef { index: 0 }, None, &nodes, CompileMode::AsyncNoCtx);
    assert!(plan.is_async);
    let out = run_plan(&plan.statements, &|_| "async".to_string());
    assert_eq!(out, "<main>async</main>");
}

#[test]
fn snapshot_intrinsic_expression_attribute() {
    // html!(&mut rendered, <div data-id={id}>ok</div>) with id = 123
    let nodes = vec![element("div", vec![keyed("data-id", 1, Some(path_expr("id", 2)))], vec![text("ok")])];
    let plan = html_ctxner(ExprRef { index: 0 }, None, &nodes, CompileMode::SyncNoCtx);
    let rendered = run_plan(&plan.statements, &|_| 123.to_string());
    assert_eq!(rendered, "<div data-id=\"123\">ok</div>");
}

#[test]
fn field_names_follow_the_identifier_check() {
    assert_eq!(field_name_for(&"title".to_string(), span(4), true).ok().as_deref(), Some("title"));
    let error = field_name_for(&"data-x".to_string(), span(4), false).err().expect("refused");
    assert_eq!(error.span.index, 4);
    assert!(matches!(error.kind, DiagnosticKind::InvalidPropertyName { ref key } if key == "data-x"));

    assert_eq!(ident_from_prop_key(&"r#type".to_string(), span(1)).ok().as_deref(), Some("r#type"));
    assert!(ident_from_prop_key(&"fn".to_string(), span(1)).is_err());
    assert!(ident_from_prop_key(&"9lives".to_string(), span(1)).is_err());
}

#[test]
fn void_element_list_matches_the_void_check() {
    let names = freshed_rs::walk::void_element_names();
    assert_eq!(names.len(), 14);
    assert!(names.iter().all(|name| freshed_rs::walk::is_void_element(name)));
    assert!(names.contains(&"br") && names.contains(&"wbr"));
    assert!(!freshed_rs::walk::is_void_element("div"));
}
