use freshed_rs::emit::WalkNodesOutput;
use freshed_rs::escape_html_literal;
use freshed_rs::plan::Stmt;
use freshed_rs::text::{decimal_string, is_blank, split_chars, trim_chars};
use freshed_rs::walk::WalkNodes;

#[test]
fn escaping_leaves_plain_text_alone() {
    assert_eq!(escape_html_literal("plain text, 100% ok"), "plain text, 100% ok");
    assert_eq!(escape_html_literal(""), "");
    assert_eq!(escape_html_literal("é & ü"), "é &amp; ü");
}

#[test]
fn escaping_distributes_over_concatenation() {
    let a = "<a href='x'>";
    let b = "Tom & \"Jerry\"";
    let whole = format!("{a}{b}");
    assert_eq!(escape_html_literal(&whole), format!("{}{}", escape_html_literal(a), escape_html_literal(b)));
}

#[test]
fn escaped_text_is_inert() {
    let escaped = escape_html_literal("<script>alert('x' & \"y\")</script>");
    assert_eq!(escaped, "&lt;script&gt;alert(&#39;x&#39; &amp; &quot;y&quot;)&lt;/script&gt;");
    assert!(!escaped.contains('<') && !escaped.contains('>'));
    assert!(!escaped.contains('"') && !escaped.contains('\''));
}

#[test]
fn whitespace_helpers() {
    assert!(is_blank(""));
    assert!(is_blank(" \t\n\u{a0}\u{2009}"));
    assert!(!is_blank(" x "));
    let trimmed: String = trim_chars(&" \u{2003}a b\n".chars().collect()).into_iter().collect();
    assert_eq!(trimmed, "a b");
    let pieces: Vec<String> = split_chars("a,,b,", ',').into_iter().map(|p| p.into_iter().collect()).collect();
    assert_eq!(pieces, vec!["a", "", "b", ""]);
}

#[test]
fn decimal_numbers() {
    assert_eq!(decimal_string(0), "0");
    assert_eq!(decimal_string(7), "7");
    assert_eq!(decimal_string(1204), "1204");
}

#[test]
fn binding_names_follow_the_counter() {
    let mut counter = 7usize;
    assert_eq!(WalkNodes::next_ident(&mut counter, "children"), "__fr_children_7");
    assert_eq!(WalkNodes::next_ident(&mut counter, "children_out"), "__fr_children_out_8");
    assert_eq!(counter, 9);
}

fn lit(writer: &str, literal: &str) -> Stmt {
    Stmt::WriteLiteral { writer: writer.to_string(), literal: literal.to_string() }
}

#[test]
fn coalescing_merges_adjacent_literal_writes() {
    let mut out = WalkNodesOutput {
        statements: vec![
            lit("w", "<a"),
            lit("w", ">"),
            Stmt::Empty,
            lit("w", "x"),
            lit("v", "y"),
            lit("v", "z"),
        ],
        diagnostics: vec![],
        component_symbol_hints: vec![],
    };
    out.coalesce_literal_write_statements();
    assert_eq!(out.statements.len(), 4);
    assert!(matches!(&out.statements[0], Stmt::WriteLiteral { writer, literal } if writer == "w" && literal == "<a>"));
    assert!(matches!(&out.statements[1], Stmt::Empty));
    assert!(matches!(&out.statements[2], Stmt::WriteLiteral { writer, literal } if writer == "w" && literal == "x"));
    assert!(matches!(&out.statements[3], Stmt::WriteLiteral { writer, literal } if writer == "v" && literal == "yz"));

    out.coalesce_literal_write_statements();
    assert_eq!(out.statements.len(), 4);
}

#[test]
fn pascal_case_drops_only_the_underscores() {
    for name in ["make_badge", "__card__", "a_b_c", "___", "", "éclair_x"] {
        let underscores = name.chars().filter(|c| *c == '_').count();
        assert_eq!(freshed_rs::to_pascal_case(name).chars().count(), name.chars().count() - underscores);
    }
}

#[test]
fn escaping_changes_text_exactly_when_it_holds_special_characters() {
    for text in ["plain", "", "a&b", "<", "quote\"", "it's", "x>y", "ünïcode"] {
        let special = text.chars().any(|c| matches!(c, '&' | '<' | '>' | '"' | '\''));
        assert_eq!(escape_html_literal(text) == text, !special);
        assert!(escape_html_literal(text).chars().count() >= text.chars().count());
    }
}

#[test]
fn every_ampersand_of_escaped_text_starts_an_entity() {
    let escaped = escape_html_literal("a & b < c > d \" e ' f &amp;");
    assert_eq!(escaped, "a &amp; b &lt; c &gt; d &quot; e &#39; f &amp;amp;");
    for (i, _) in escaped.match_indices('&') {
        let rest = &escaped[i..];
        assert!(["&amp;", "&lt;", "&gt;", "&quot;", "&#39;"].iter().any(|e| rest.starts_with(e)));
    }
}
