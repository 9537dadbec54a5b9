use gtmpl_parse::{parse, ItemType, NodeType, Nodes, Parser};
use vstd::hash_set::StringHashSet;

fn make_parser_with_funcs(s: &str, funcs: &[&str]) -> Parser {
    let mut p = Parser::new(String::from("foo"));
    for f in funcs {
        p.funcs.insert((*f).to_string());
    }
    p.set_source(s.to_string());
    p
}

fn make_parser_with(s: &str) -> Parser {
    make_parser_with_funcs(s, &[])
}

fn make_parser() -> Parser {
    make_parser_with(r#"something {{ if eq "foo" "bar" }}"#)
}

fn func_set(funcs: &[&str]) -> StringHashSet {
    let mut s = StringHashSet::new();
    for f in funcs {
        s.insert((*f).to_string());
    }
    s
}

fn drain_last(p: &mut Parser) -> Option<ItemType> {
    let mut last = None;
    while let Some(it) = p.next() {
        last = Some(it.typ);
    }
    last
}

#[test]
fn test_iter() {
    let mut p = make_parser();
    assert_eq!(p.next().map(|n| n.typ), Some(ItemType::ItemText));
    let mut count = 0;
    while let Some(_) = p.next() {
        count += 1;
    }
    assert_eq!(count, 12);
}

#[test]
fn test_backup() {
    let mut t = make_parser();
    assert_eq!(t.next().map(|n| n.typ), Some(ItemType::ItemText));
    let i = t.next().unwrap();
    let s = i.describe();
    t.backup(i);
    assert_eq!(t.next().map(|n| n.describe()), Some(s));
    assert_eq!(drain_last(&mut t), Some(ItemType::ItemEOF));
}

#[test]
fn test_backup3() {
    let mut t = make_parser();
    assert_eq!(t.next().map(|n| n.typ), Some(ItemType::ItemText));
    let t0 = t.next().unwrap();
    let t1 = t.next().unwrap();
    let t2 = t.next().unwrap();
    assert_eq!(t0.typ, ItemType::ItemLeftDelim);
    assert_eq!(t1.typ, ItemType::ItemSpace);
    assert_eq!(t2.typ, ItemType::ItemIf);
    t.backup3(t0, t1, t2);
    let t0 = t.next().unwrap();
    let t1 = t.next().unwrap();
    let t2 = t.next().unwrap();
    assert_eq!(t0.typ, ItemType::ItemLeftDelim);
    assert_eq!(t1.typ, ItemType::ItemSpace);
    assert_eq!(t2.typ, ItemType::ItemIf);
    assert_eq!(drain_last(&mut t), Some(ItemType::ItemEOF));
}

#[test]
fn test_next_non_space() {
    let mut t = make_parser();
    t.next();
    let i = t.next().unwrap();
    assert_eq!(i.typ, ItemType::ItemLeftDelim);
    assert_eq!(t.next_non_space().map(|n| n.typ), Some(ItemType::ItemIf));
    assert_eq!(drain_last(&mut t), Some(ItemType::ItemEOF));
}

#[test]
fn test_peek_non_space() {
    let mut t = make_parser();
    t.next();
    let i = t.next().unwrap();
    assert_eq!(i.typ, ItemType::ItemLeftDelim);
    assert_eq!(
        t.peek_non_space_must("").map(|n| n.typ).unwrap(),
        ItemType::ItemIf
    );
    assert_eq!(t.next().map(|n| n.typ), Some(ItemType::ItemIf));
    assert_eq!(drain_last(&mut t), Some(ItemType::ItemEOF));
}

#[test]
fn test_display() {
    let raw = r#"{{if .}}2000{{else}} 3000 {{end}}"#;
    let ts = parse(String::default(), String::from(raw), StringHashSet::new()).unwrap();
    let tree = ts.get("").unwrap();
    if let Some(ref root) = tree.root {
        assert_eq!(raw, root.render());
    } else {
        panic!();
    }
}

#[test]
fn parse_basic_tree() {
    let mut p = make_parser_with(r#"{{ if eq .foo "bar" }} 2000 {{ end }}"#);
    let r = p.parse_tree();
    assert_eq!(
        r.err().unwrap().to_string(),
        "template: foo:2:function eq not defined"
    );
    let funcs = &["eq"];
    let mut p = make_parser_with_funcs(r#"{{ if eq .foo "bar" }} 2000 {{ end }}"#, funcs);
    let r = p.parse_tree();
    assert!(r.is_ok());
    let funcs = &["eq"];
    let mut p = make_parser_with_funcs(r#"{{ if eq 1 2 }} 2000 {{ end }}"#, funcs);
    let r = p.parse_tree();
    assert!(r.is_ok());
}

#[test]
fn test_pipeline_simple() {
    let mut p = make_parser_with(r#" $foo, $bar := yay | blub "2000" }}"#);
    let pipe = p.pipeline("range");
    assert!(pipe.is_err());
}

#[test]
fn test_assign_string() {
    let mut p = make_parser_with(r#"{{ with $bar := "foo" }}{{ $bar }}{{ end }}"#);
    let r = p.parse_tree();
    assert!(r.is_ok());
}

#[test]
fn test_term() {
    let mut p = make_parser_with(r#"{{true}}"#);
    p.next();
    let t = p.term();
    assert!(t.is_ok());
    let t = t.unwrap();
    assert!(t.is_some());
    let t = t.unwrap();
    assert_eq!(t.typ(), NodeType::Bool);
    if let Nodes::Bool(n) = t {
        assert_eq!(n.value, true);
    } else {
        panic!();
    }

    let mut p = make_parser_with(r#"{{ false }}"#);
    p.next();
    let t = p.term();
    assert!(t.is_ok());
    let t = t.unwrap();
    assert!(t.is_some());
    let t = t.unwrap();
    assert_eq!(t.typ(), NodeType::Bool);
    if let Nodes::Bool(n) = t {
        assert_eq!(n.value, false);
    } else {
        panic!();
    }
}

#[test]
fn literal_text_round_trip() {
    let input = "just some plain text, no actions";
    let ts = parse(String::from("t"), String::from(input), StringHashSet::new()).unwrap();
    let tree = ts.get("t").unwrap();
    match &tree.root {
        Some(Nodes::List(l)) => {
            assert_eq!(l.nodes.len(), 1);
            match &l.nodes[0] {
                Nodes::Text(tx) => assert_eq!(tx.text, input),
                _ => panic!(),
            }
        }
        _ => panic!(),
    }
    assert_eq!(tree.root.as_ref().unwrap().render(), input);
}

#[test]
fn literal_empty_input() {
    let ts = parse(String::from("t"), String::new(), StringHashSet::new()).unwrap();
    let tree = ts.get("t").unwrap();
    match &tree.root {
        Some(Nodes::List(l)) => assert_eq!(l.nodes.len(), 0),
        _ => panic!(),
    }
}

#[test]
fn duplicate_definition_rejected() {
    let src = r#"{{define "a"}}x{{end}}{{define "a"}}y{{end}}"#;
    let r = parse(String::from("t"), String::from(src), StringHashSet::new());
    let msg = r.err().unwrap().to_string();
    assert!(msg.contains("multiple definitions of template a"));
}

#[test]
fn single_definition_succeeds() {
    let src = r#"{{define "a"}}x{{end}}rest"#;
    let ts = parse(String::from("t"), String::from(src), StringHashSet::new()).unwrap();
    assert!(ts.get("a").is_some());
    assert!(ts.get("t").is_some());
}

#[test]
fn empty_stub_then_real_body_succeeds() {
    let src = "{{define \"a\"}} {{end}}{{define \"a\"}}y{{end}}";
    let r = parse(String::from("t"), String::from(src), StringHashSet::new());
    assert!(r.is_ok());
}

#[test]
fn unknown_function_named_in_error() {
    let src = "{{ myfn 1 }}";
    let r = parse(String::from("t"), String::from(src), StringHashSet::new());
    let msg = r.err().unwrap().to_string();
    assert!(msg.contains("function myfn not defined"));
    let r = parse(String::from("t"), String::from(src), func_set(&["myfn"]));
    assert!(r.is_ok());
}

#[test]
fn undefined_variable_rejected() {
    let src = "{{ $bar }}";
    let r = parse(String::from("t"), String::from(src), StringHashSet::new());
    let msg = r.err().unwrap().to_string();
    assert!(msg.contains("undefined variable $bar"));
    let src = "{{ with $bar := \"x\" }}{{ $bar }}{{ end }}";
    let r = parse(String::from("t"), String::from(src), StringHashSet::new());
    assert!(r.is_ok());
}

#[test]
fn dollar_always_resolves() {
    let src = "{{ $ }}";
    let r = parse(String::from("t"), String::from(src), StringHashSet::new());
    assert!(r.is_ok());
}

#[test]
fn range_two_variables_succeed() {
    let src = "{{range $a, $b := .}}x{{end}}";
    let r = parse(String::from("t"), String::from(src), StringHashSet::new());
    assert!(r.is_ok());
}

#[test]
fn two_variables_fail_outside_range() {
    let src = "{{if $a, $b := .}}x{{end}}";
    let r = parse(String::from("t"), String::from(src), StringHashSet::new());
    let msg = r.err().unwrap().to_string();
    assert!(msg.contains("too many declarations in if"));
}

#[test]
fn three_variables_fail_in_range() {
    let src = "{{range $a, $b, $c := .}}x{{end}}";
    let r = parse(String::from("t"), String::from(src), StringHashSet::new());
    let msg = r.err().unwrap().to_string();
    assert!(msg.contains("too many declarations in range"));
}

#[test]
fn if_else_structure() {
    let raw = "{{if .}}2000{{else}} 3000 {{end}}";
    let ts = parse(String::from("t"), String::from(raw), StringHashSet::new()).unwrap();
    let tree = ts.get("t").unwrap();
    let l = match &tree.root {
        Some(Nodes::List(l)) => l,
        _ => panic!(),
    };
    assert_eq!(l.nodes.len(), 1);
    let f = match &l.nodes[0] {
        Nodes::If(f) => f,
        _ => panic!(),
    };
    assert_eq!(f.pipe.decl.len(), 0);
    assert_eq!(f.pipe.cmds.len(), 1);
    assert_eq!(f.pipe.cmds[0].args.len(), 1);
    assert_eq!(f.pipe.cmds[0].args[0].typ(), NodeType::Dot);
    assert_eq!(f.list.nodes.len(), 1);
    match &f.list.nodes[0] {
        Nodes::Text(tx) => assert_eq!(tx.text, "2000"),
        _ => panic!(),
    }
    let el = f.else_list.as_ref().unwrap();
    assert_eq!(el.nodes.len(), 1);
    match &el.nodes[0] {
        Nodes::Text(tx) => assert_eq!(tx.text, " 3000 "),
        _ => panic!(),
    }
    assert_eq!(tree.root.as_ref().unwrap().render(), raw);
}

#[test]
fn with_body_references_declared_variable() {
    let src = r#"{{ with $bar := "foo" }}{{ $bar }}{{ end }}"#;
    let ts = parse(String::from("t"), String::from(src), StringHashSet::new()).unwrap();
    let tree = ts.get("t").unwrap();
    let l = match &tree.root {
        Some(Nodes::List(l)) => l,
        _ => panic!(),
    };
    let w = match &l.nodes[0] {
        Nodes::With(w) => w,
        _ => panic!(),
    };
    assert_eq!(w.pipe.decl.len(), 1);
    assert_eq!(w.pipe.decl[0].ident, "$bar");
    let action = match &w.list.nodes[0] {
        Nodes::Action(a) => a,
        _ => panic!(),
    };
    assert_eq!(action.pipe.cmds[0].args[0].typ(), NodeType::Variable);
    assert_eq!(action.pipe.cmds[0].args[0].render(), "$bar");
}

#[test]
fn block_registers_and_invokes() {
    let src = r#"head {{block "b" .}}inner{{end}} tail"#;
    let ts = parse(String::from("t"), String::from(src), StringHashSet::new()).unwrap();
    assert!(ts.get("b").is_some());
    let b = ts.get("b").unwrap();
    match &b.root {
        Some(Nodes::List(l)) => match &l.nodes[0] {
            Nodes::Text(tx) => assert_eq!(tx.text, "inner"),
            _ => panic!(),
        },
        _ => panic!(),
    }
    let main = ts.get("t").unwrap();
    let l = match &main.root {
        Some(Nodes::List(l)) => l,
        _ => panic!(),
    };
    assert_eq!(l.nodes.len(), 3);
    assert_eq!(l.nodes[1].typ(), NodeType::Template);
}

#[test]
fn template_invocation_renders() {
    let src = r#"{{template "x" .}}"#;
    let ts = parse(String::from("t"), String::from(src), StringHashSet::new()).unwrap();
    let main = ts.get("t").unwrap();
    assert_eq!(main.root.as_ref().unwrap().render(), "{{template \"x\" .}}");
}

#[test]
fn dynamic_template_name_refused() {
    let src = "{{template (.)}}";
    let r = parse(String::from("t"), String::from(src), StringHashSet::new());
    let msg = r.err().unwrap().to_string();
    assert!(msg.contains("dynamic template names"));
}

#[test]
fn literal_led_pipeline_stage_rejected() {
    let src = "{{ myfn | 1 }}";
    let r = parse(String::from("t"), String::from(src), func_set(&["myfn"]));
    let msg = r.err().unwrap().to_string();
    assert!(msg.contains("non executable command in pipeline stage 2"));
}

#[test]
fn empty_action_is_missing_value() {
    let src = "{{}}";
    let r = parse(String::from("t"), String::from(src), StringHashSet::new());
    let msg = r.err().unwrap().to_string();
    assert!(msg.contains("missing value for command"));
}

#[test]
fn stray_end_rejected() {
    let src = "{{end}}";
    let r = parse(String::from("t"), String::from(src), StringHashSet::new());
    let msg = r.err().unwrap().to_string();
    assert!(msg.contains("unexpected"));
}

#[test]
fn unclosed_body_rejected() {
    let src = "{{if .}}body";
    let r = parse(String::from("t"), String::from(src), StringHashSet::new());
    assert!(r.is_err());
}

#[test]
fn else_if_chain_parses() {
    let src = "{{if .}}a{{else if .}}b{{end}}";
    let ts = parse(String::from("t"), String::from(src), StringHashSet::new()).unwrap();
    let tree = ts.get("t").unwrap();
    let l = match &tree.root {
        Some(Nodes::List(l)) => l,
        _ => panic!(),
    };
    let f = match &l.nodes[0] {
        Nodes::If(f) => f,
        _ => panic!(),
    };
    let el = f.else_list.as_ref().unwrap();
    assert_eq!(el.nodes[0].typ(), NodeType::If);
}

#[test]
fn field_chain_collapses() {
    let src = "{{ .foo.bar }}";
    let ts = parse(String::from("t"), String::from(src), StringHashSet::new()).unwrap();
    let tree = ts.get("t").unwrap();
    let l = match &tree.root {
        Some(Nodes::List(l)) => l,
        _ => panic!(),
    };
    let a = match &l.nodes[0] {
        Nodes::Action(a) => a,
        _ => panic!(),
    };
    let arg = &a.pipe.cmds[0].args[0];
    assert_eq!(arg.typ(), NodeType::Field);
    assert_eq!(arg.render(), ".foo.bar");
    assert!(tree.fields.contains(".foo.bar"));
}

#[test]
fn chain_after_literal_rejected() {
    let src = "{{ true.foo }}";
    let r = parse(String::from("t"), String::from(src), StringHashSet::new());
    let msg = r.err().unwrap().to_string();
    assert!(msg.contains("unexpected . after term"));
}

#[test]
fn number_literals_decode() {
    let src = "{{ myfn 2000 -5 'a' }}";
    let ts = parse(String::from("t"), String::from(src), func_set(&["myfn"])).unwrap();
    let tree = ts.get("t").unwrap();
    let l = match &tree.root {
        Some(Nodes::List(l)) => l,
        _ => panic!(),
    };
    let a = match &l.nodes[0] {
        Nodes::Action(a) => a,
        _ => panic!(),
    };
    let args = &a.pipe.cmds[0].args;
    match &args[1] {
        Nodes::Number(n) => {
            assert!(n.is_uint && n.is_int);
            assert_eq!(n.uint64, 2000);
            assert_eq!(n.int64, 2000);
        }
        _ => panic!(),
    }
    match &args[2] {
        Nodes::Number(n) => {
            assert!(n.is_int && !n.is_uint);
            assert_eq!(n.int64, -5);
        }
        _ => panic!(),
    }
    match &args[3] {
        Nodes::Number(n) => {
            assert!(n.is_uint);
            assert_eq!(n.uint64, 97);
        }
        _ => panic!(),
    }
}

#[test]
fn malformed_number_rejected() {
    let src = "{{ myfn 99999999999999999999999999 }}";
    let r = parse(String::from("t"), String::from(src), func_set(&["myfn"]));
    assert!(r.is_err());
}

#[test]
fn unquote_handles_escapes() {
    assert_eq!(
        gtmpl_parse::unquote_str("\"a\\nb\"").unwrap(),
        "a\nb"
    );
    assert_eq!(gtmpl_parse::unquote_str("`raw text`").unwrap(), "raw text");
    assert!(gtmpl_parse::unquote_str("\"unclosed").is_none());
    assert!(gtmpl_parse::unquote_str("\"bad \\q escape\"").is_none());
}

#[test]
fn parenthesized_pipeline_parses() {
    let src = "{{ myfn (myfn .) }}";
    let ts = parse(String::from("t"), String::from(src), func_set(&["myfn"])).unwrap();
    let tree = ts.get("t").unwrap();
    assert_eq!(tree.root.as_ref().unwrap().render(), "{{myfn (myfn .)}}");
}

#[test]
fn error_line_is_reported() {
    let src = "first line\n{{ bad }}";
    let r = parse(String::from("page"), String::from(src), StringHashSet::new());
    let msg = r.err().unwrap().to_string();
    assert!(msg.starts_with("template: page:"));
    assert!(msg.contains("function bad not defined"));
}

#[test]
fn bad_escape_in_template_name() {
    let src = "{{define \"a\\q\"}}x{{end}}";
    let r = parse(String::from("t"), String::from(src), StringHashSet::new());
    let msg = r.err().unwrap().to_string();
    assert!(msg.contains("unable to parse string"));
}

#[test]
fn control_without_tree_is_no_tree_fault() {
    let mut p = make_parser_with("}}");
    let r = p.parse_control(false, "with");
    assert_eq!(r.err().unwrap().to_string(), "template: no tree");
}

#[test]
fn template_on_empty_stream_is_unexpected_end() {
    let mut p = Parser::new(String::from("t"));
    let r = p.template_control();
    assert_eq!(
        r.err().unwrap().to_string(),
        "template: unexpected end of input"
    );
}

#[test]
fn dynamic_template_name_parses_when_enabled() {
    let mut p = make_parser_with("{{template (.)}}");
    p.set_dynamic_templates(true);
    let r = p.parse_tree();
    assert!(r.is_ok());
}

#[test]
fn bare_word_action_owed_success() {
    let ts = parse(String::from("t"), String::from("{{true}}"), StringHashSet::new()).unwrap();
    let tree = ts.get("t").unwrap();
    assert_eq!(tree.root.as_ref().unwrap().render(), "{{true}}");
    let ts = parse(String::from("t"), String::from("{{myfn}}"), func_set(&["myfn"])).unwrap();
    let tree = ts.get("t").unwrap();
    assert_eq!(tree.root.as_ref().unwrap().render(), "{{myfn}}");
}

#[test]
fn most_negative_integer_decodes() {
    let mut p = make_parser_with("{{ myfn -9223372036854775808 }}");
    p.funcs.insert(String::from("myfn"));
    assert!(p.parse_tree().is_ok());
}

#[test]
fn range_rejects_else_if() {
    let src = "{{range .}}a{{else if .}}b{{end}}";
    let r = parse(String::from("t"), String::from(src), StringHashSet::new());
    assert!(r.is_err());
    let src = "{{if .}}a{{else if .}}b{{end}}";
    let r = parse(String::from("t"), String::from(src), StringHashSet::new());
    assert!(r.is_ok());
}

#[test]
fn variable_head_backtracks_to_operand() {
    let ts = parse(String::from("t"), String::from("{{ $ }}"), StringHashSet::new()).unwrap();
    let tree = ts.get("t").unwrap();
    let l = match &tree.root {
        Some(Nodes::List(l)) => l,
        _ => panic!(),
    };
    let a = match &l.nodes[0] {
        Nodes::Action(a) => a,
        _ => panic!(),
    };
    assert_eq!(a.pipe.decl.len(), 0);
    assert_eq!(a.pipe.cmds.len(), 1);
    assert_eq!(a.pipe.cmds[0].args[0].typ(), NodeType::Variable);
}

#[test]
fn parenthesized_simple_pipeline_term() {
    let mut p = make_parser_with_funcs("{{ myfn (.) }}", &["myfn"]);
    assert!(p.parse_tree().is_ok());
    let mut p = make_parser_with_funcs("{{ myfn (. }}", &["myfn"]);
    let r = p.parse_tree();
    let msg = r.err().unwrap().to_string();
    assert!(msg.contains("unclosed right paren"));
}
