use sfc_compiler::ast::{ElementKind, HtmlAttribute, Node, StartingTag, VDirective};
use sfc_compiler::classify::{classify, ErrorKind};
use sfc_compiler::codegen::{compile_sfc, CodegenContext};
use sfc_compiler::expr::{push_expr, Expr, TransformVisitor};
use sfc_compiler::policy::IsCustomElementParam;

fn tag(name: &str, attributes: Vec<HtmlAttribute>) -> StartingTag {
    StartingTag { tag_name: name.to_string(), attributes, is_self_closing: false, kind: ElementKind::Normal }
}

fn el(name: &str, attributes: Vec<HtmlAttribute>, children: Vec<Node>) -> Node {
    Node::ElementNode { starting_tag: tag(name, attributes), children }
}

fn attr(name: &str, value: &str) -> HtmlAttribute {
    HtmlAttribute::Regular { name: name.to_string(), value: value.to_string() }
}

fn text(t: &str) -> Node {
    Node::TextNode(t.to_string())
}

fn ident(x: &str) -> Expr {
    Expr::Ident(x.to_string())
}

fn member(obj: Expr, prop: &str) -> Expr {
    Expr::Member { obj: Box::new(obj), prop: prop.to_string() }
}

fn bind(arg: &str, value: Expr) -> HtmlAttribute {
    HtmlAttribute::VDirective(VDirective { name: "bind".to_string(), argument: Some(arg.to_string()), value: Some(value) })
}

fn script(attributes: Vec<HtmlAttribute>, body: &str) -> Node {
    el("script", attributes, vec![text(body)])
}

fn custom_policy() -> IsCustomElementParam {
    IsCustomElementParam::pattern("custom-").unwrap()
}

fn source(e: &Expr) -> String {
    let mut s = String::new();
    push_expr(&mut s, e, false);
    s
}

#[test]
fn no_template_no_script_is_no_content() {
    let blocks = vec![el("div", vec![], vec![text("x")]), text("loose")];
    assert_eq!(classify(&blocks).unwrap_err(), ErrorKind::NoContent);
    assert_eq!(compile_sfc(&blocks, IsCustomElementParam::Disabled).unwrap_err(), ErrorKind::NoContent);
    assert_eq!(compile_sfc(&vec![], IsCustomElementParam::Disabled).unwrap_err(), ErrorKind::NoContent);
}

#[test]
fn empty_script_is_not_a_section() {
    let blocks = vec![el("script", vec![], vec![])];
    assert_eq!(classify(&blocks).unwrap_err(), ErrorKind::NoContent);
}

#[test]
fn pug_template_is_unsupported() {
    let blocks = vec![
        el("template", vec![attr("lang", "pug")], vec![el("div", vec![], vec![])]),
        script(vec![], "export default {}"),
    ];
    assert_eq!(compile_sfc(&blocks, custom_policy()).unwrap_err(), ErrorKind::UnsupportedLanguage);
    let blocks = vec![
        script(vec![attr("lang", "ts")], "let a = 1"),
        el("template", vec![attr("lang", "pug")], vec![]),
    ];
    assert_eq!(classify(&blocks).unwrap_err(), ErrorKind::UnsupportedLanguage);
}

#[test]
fn html_template_is_supported() {
    let blocks = vec![el("template", vec![attr("lang", "html")], vec![el("div", vec![], vec![])])];
    let found = classify(&blocks).unwrap();
    assert_eq!(found.template, Some(0));
}

#[test]
fn ts_script_compiles_and_coffee_does_not() {
    let ts = vec![script(vec![attr("lang", "ts")], "let a: number = 1")];
    let out = compile_sfc(&ts, custom_policy()).unwrap();
    assert_eq!(out, "const __sfc__ = {\nlet a: number = 1,\n}\n\n\nexport default __sfc__");
    let found = classify(&ts).unwrap();
    assert_eq!(found.legacy_script.as_ref().unwrap().lang, "ts");
    let coffee = vec![script(vec![attr("lang", "coffee")], "let a: number = 1")];
    assert_eq!(compile_sfc(&coffee, custom_policy()).unwrap_err(), ErrorKind::UnsupportedLanguage);
}

#[test]
fn script_language_defaults_to_js() {
    let found = classify(&vec![script(vec![], "x")]).unwrap();
    let s = found.legacy_script.unwrap();
    assert_eq!(s.lang, "js");
    assert_eq!(s.content, "x");
}

#[test]
fn setup_script_goes_to_setup_slot() {
    let blocks = vec![script(vec![attr("setup", "")], "const a = 1"), script(vec![], "name: 'A'")];
    let found = classify(&blocks).unwrap();
    assert_eq!(found.setup_script.as_ref().unwrap().content, "const a = 1");
    assert_eq!(found.legacy_script.as_ref().unwrap().content, "name: 'A'");
    let out = compile_sfc(&blocks, custom_policy()).unwrap();
    assert_eq!(
        out,
        "const __sfc__ = {\nname: 'A',\nsetup($props, { expose }) {\nconst a = 1\n},\n}\n\n\nexport default __sfc__"
    );
}

#[test]
fn later_template_wins() {
    let blocks = vec![
        el("template", vec![], vec![el("div", vec![], vec![])]),
        el("template", vec![], vec![el("p", vec![], vec![])]),
    ];
    assert_eq!(classify(&blocks).unwrap().template, Some(1));
}

#[test]
fn script_without_text_is_malformed() {
    let blocks = vec![el("script", vec![], vec![el("div", vec![], vec![])])];
    assert_eq!(classify(&blocks).unwrap_err(), ErrorKind::MalformedScript);
}

#[test]
fn template_without_element_is_empty() {
    let blocks = vec![el("template", vec![], vec![text("just text")])];
    assert_eq!(compile_sfc(&blocks, custom_policy()).unwrap_err(), ErrorKind::EmptyTemplate);
}

#[test]
fn static_subtree_is_hoisted_once() {
    let span = el("span", vec![], vec![text("text")]);
    let div = el("div", vec![attr("class", "a")], vec![span]);
    let ctx = CodegenContext::new(custom_policy());
    assert!(ctx.can_be_hoisted(&div));
    if let Node::ElementNode { children, .. } = &div {
        assert!(ctx.can_be_hoisted(&children[0]));
        if let Node::ElementNode { children: inner, .. } = &children[0] {
            assert!(ctx.can_be_hoisted(&inner[0]));
        }
    }
    let blocks = vec![el("template", vec![], vec![div])];
    let out = compile_sfc(&blocks, custom_policy()).unwrap();
    let expected = "const __sfc__ = {\n}\n\n\
import { createElementVNode as _createElementVNode } from \"vue\"\n\
import { createTextVNode as _createTextVNode } from \"vue\"\n\
\n\
const _hoisted_1 = /*#__PURE__*/ _createElementVNode(\"div\", { \"class\": \"a\" }, [_createElementVNode(\"span\", null, [_createTextVNode(\"text\")])])\n\
\nfunction render(_ctx, _cache, $props, $setup, $data, $options) {\n  return _hoisted_1\n}\n\
__sfc__.render = render\n\
export default __sfc__";
    assert_eq!(out, expected);
    assert_eq!(out.matches("const _hoisted_").count(), 1);
    assert_eq!(out.matches("_hoisted_1").count(), 2);
}

#[test]
fn dynamic_binding_blocks_hoisting() {
    let button = el("button", vec![bind("disabled", ident("isDisabled"))], vec![text("text")]);
    let ctx = CodegenContext::new(custom_policy());
    assert!(!ctx.can_be_hoisted(&button));
    let mut ctx = CodegenContext::new(custom_policy());
    let out = ctx.compile_node(&button).unwrap();
    assert_eq!(
        out,
        "(_openBlock(), _createElementBlock(\"button\", { \"disabled\": isDisabled }, [_createTextVNode(\"text\")]))"
    );
    assert!(ctx.hoisted().is_empty());
}

#[test]
fn comment_and_expression_are_not_hoistable() {
    let ctx = CodegenContext::new(custom_policy());
    assert!(!ctx.can_be_hoisted(&Node::CommentNode("c".to_string())));
    assert!(!ctx.can_be_hoisted(&Node::DynamicExpression(ident("a"))));
    assert!(ctx.can_be_hoisted(&text("t")));
    assert!(!ctx.can_be_hoisted(&el("span", vec![], vec![Node::DynamicExpression(ident("a"))])));
    assert!(!ctx.can_be_hoisted(&el("CustomComponent", vec![], vec![])));
}

#[test]
fn hoist_ids_count_from_one_per_context() {
    let mut ctx = CodegenContext::new(IsCustomElementParam::Disabled);
    assert_eq!(ctx.add_to_hoists("a".to_string()), "_hoisted_1");
    assert_eq!(ctx.add_to_hoists("b".to_string()), "_hoisted_2");
    assert_eq!(ctx.add_to_hoists("c".to_string()), "_hoisted_3");
    assert_eq!(ctx.hoisted(), &vec!["a".to_string(), "b".to_string(), "c".to_string()]);
    let mut fresh = CodegenContext::new(IsCustomElementParam::Disabled);
    assert_eq!(fresh.add_to_hoists("d".to_string()), "_hoisted_1");
}

#[test]
fn hoist_ids_follow_traversal_order() {
    let mut children = vec![Node::DynamicExpression(ident("x"))];
    for i in 0..11 {
        children.push(el("p", vec![], vec![text(&format!("{}", i))]));
    }
    let blocks = vec![el("template", vec![], vec![el("div", vec![], children)])];
    let out = compile_sfc(&blocks, custom_policy()).unwrap();
    for n in 1..=11 {
        assert!(out.contains(&format!("const _hoisted_{} = /*#__PURE__*/ _createElementVNode(\"p\", null, [_createTextVNode(\"{}\")])\n", n, n - 1)));
    }
    assert!(!out.contains("_hoisted_12"));
    assert!(out.contains("[_createTextVNode(_toDisplayString(x), 1 /* TEXT */), _hoisted_1, _hoisted_2, _hoisted_3"));
    let first = out.find("const _hoisted_1 ").unwrap();
    let tenth = out.find("const _hoisted_10 ").unwrap();
    assert!(first < tenth);
    let again = compile_sfc(&blocks, custom_policy()).unwrap();
    assert_eq!(out, again);
}

#[test]
fn intrinsic_tag_is_never_component() {
    let ctx = CodegenContext::new(IsCustomElementParam::pattern("div").unwrap());
    assert!(!ctx.is_component(&tag("div", vec![])));
    let ctx = CodegenContext::new(IsCustomElementParam::Exact("span".to_string()));
    assert!(!ctx.is_component(&tag("span", vec![])));
}

#[test]
fn unknown_tag_is_component_unless_claimed() {
    let ctx = CodegenContext::new(custom_policy());
    assert!(ctx.is_component(&tag("CustomComponent", vec![])));
    assert!(!ctx.is_component(&tag("custom-button", vec![])));
    let ctx = CodegenContext::new(IsCustomElementParam::Exact("my-el".to_string()));
    assert!(!ctx.is_component(&tag("my-el", vec![])));
    assert!(ctx.is_component(&tag("my-el2", vec![])));
    let ctx = CodegenContext::new(IsCustomElementParam::Disabled);
    assert!(ctx.is_component(&tag("custom-button", vec![])));
}

#[test]
fn invalid_pattern_is_refused() {
    assert!(IsCustomElementParam::pattern("(").is_none());
}

#[test]
fn components_are_resolved_once_in_first_use_order() {
    let root = el(
        "div",
        vec![],
        vec![
            el("my-widget", vec![], vec![]),
            el("Other", vec![], vec![]),
            el("my-widget", vec![], vec![]),
            Node::CommentNode("note \"q\"".to_string()),
        ],
    );
    let blocks = vec![el("template", vec![], vec![root])];
    let out = compile_sfc(&blocks, custom_policy()).unwrap();
    assert!(out.contains(
        "  const _component_my_widget = _resolveComponent(\"my-widget\")\n  const _component_Other = _resolveComponent(\"Other\")\n  return "
    ));
    assert_eq!(out.matches("_resolveComponent(").count(), 2);
    assert!(out.contains("_createCommentVNode(\"note \\\"q\\\"\")"));
    assert!(out.contains("[_createElementVNode(_component_my_widget, null, []), _createElementVNode(_component_Other, null, [])"));
    let imports: Vec<&str> = out.lines().filter(|l| l.starts_with("import")).collect();
    assert_eq!(
        imports,
        vec![
            "import { openBlock as _openBlock } from \"vue\"",
            "import { createElementBlock as _createElementBlock } from \"vue\"",
            "import { createElementVNode as _createElementVNode } from \"vue\"",
            "import { resolveComponent as _resolveComponent } from \"vue\"",
            "import { createCommentVNode as _createCommentVNode } from \"vue\"",
        ]
    );
}

#[test]
fn member_chains_are_qualified() {
    // foo.bar.baz[test.keks]
    let e = Expr::Index {
        obj: Box::new(member(member(ident("foo"), "bar"), "baz")),
        index: Box::new(member(ident("test"), "keks")),
    };
    assert_eq!(source(&e), "foo.bar.baz[test.keks]");
    let mut q = String::new();
    push_expr(&mut q, &e, true);
    assert_eq!(q, "_ctx.foo.bar.baz[_ctx.test.keks]");
    let r = TransformVisitor.rewrite(e);
    assert_eq!(source(&r), "_ctx.foo.bar.baz[_ctx.test.keks]");
}

#[test]
fn rewrite_stops_at_qualified_chain_and_visits_arguments() {
    let e = Expr::Index { obj: Box::new(ident("a")), index: Box::new(member(ident("b"), "c")) };
    assert_eq!(source(&TransformVisitor.rewrite(e)), "_ctx.a[b.c]");
    let call = Expr::Call {
        callee: Box::new(ident("f")),
        args: vec![member(ident("x"), "y"), ident("z"), Expr::Array(vec![member(ident("p"), "q"), Expr::Literal("1".to_string())])],
    };
    assert_eq!(source(&TransformVisitor.rewrite(call)), "f(_ctx.x.y, z, [_ctx.p.q, 1])");
}

#[test]
fn expressions_in_template_are_qualified() {
    let root = el("p", vec![bind("title", member(ident("item"), "name"))], vec![Node::DynamicExpression(member(ident("msg"), "text"))]);
    let mut ctx = CodegenContext::new(custom_policy());
    let out = ctx.compile_node(&root).unwrap();
    assert_eq!(
        out,
        "(_openBlock(), _createElementBlock(\"p\", { \"title\": _ctx.item.name }, [_createTextVNode(_toDisplayString(_ctx.msg.text), 1 /* TEXT */)]))"
    );
    assert!(ctx.compile_node(&text("no")).is_none());
}

#[test]
fn directive_without_value_or_argument() {
    let d = HtmlAttribute::VDirective(VDirective { name: "show".to_string(), argument: None, value: None });
    let mut ctx = CodegenContext::new(custom_policy());
    let out = ctx.compile_node(&el("i", vec![d], vec![])).unwrap();
    assert_eq!(out, "(_openBlock(), _createElementBlock(\"i\", { \"show\": true }, []))");
}

#[test]
fn compile_template_layout() {
    let template = el("template", vec![], vec![el("b", vec![bind("x", ident("y"))], vec![])]);
    let mut ctx = CodegenContext::new(custom_policy());
    let out = ctx.compile_template(&template).unwrap();
    assert_eq!(
        out,
        "import { openBlock as _openBlock } from \"vue\"\nimport { createElementBlock as _createElementBlock } from \"vue\"\n\n\nfunction render(_ctx, _cache, $props, $setup, $data, $options) {\n  return (_openBlock(), _createElementBlock(\"b\", { \"x\": y }, []))\n}"
    );
    let mut ctx = CodegenContext::new(custom_policy());
    assert_eq!(ctx.compile_template(&text("t")).unwrap_err(), ErrorKind::EmptyTemplate);
}

#[test]
fn template_siblings_are_all_rendered() {
    let template = el("template", vec![], vec![text(" "), el("b", vec![bind("x", ident("y"))], vec![])]);
    let mut ctx = CodegenContext::new(custom_policy());
    let out = ctx.compile_template(&template).unwrap();
    assert_eq!(
        out,
        "import { openBlock as _openBlock } from \"vue\"\nimport { createElementBlock as _createElementBlock } from \"vue\"\nimport { Fragment as _Fragment } from \"vue\"\nimport { createTextVNode as _createTextVNode } from \"vue\"\nimport { createElementVNode as _createElementVNode } from \"vue\"\n\n\nfunction render(_ctx, _cache, $props, $setup, $data, $options) {\n  return (_openBlock(), _createElementBlock(_Fragment, null, [_createTextVNode(\" \"), _createElementVNode(\"b\", { \"x\": y }, [])]))\n}"
    );
    let template = el("template", vec![], vec![el("p", vec![], vec![]), Node::DynamicExpression(ident("z")), el("i", vec![], vec![])]);
    let mut ctx = CodegenContext::new(custom_policy());
    let out = ctx.compile_template(&template).unwrap();
    assert!(out.contains("return (_openBlock(), _createElementBlock(_Fragment, null, [_hoisted_1, _createTextVNode(_toDisplayString(z), 1 /* TEXT */), _hoisted_2]))"));
    assert_eq!(ctx.hoisted().len(), 2);
}

#[test]
fn compile_template_keeps_one_hoist_for_static_root() {
    let template = el("template", vec![], vec![el("div", vec![attr("class", "a")], vec![el("span", vec![], vec![text("text")])])]);
    let mut ctx = CodegenContext::new(custom_policy());
    let out = ctx.compile_template(&template).unwrap();
    assert_eq!(ctx.hoisted().len(), 1);
    assert!(ctx.hoisted()[0].starts_with("_createElementVNode(\"div\""));
    assert!(out.contains("const _hoisted_1 = /*#__PURE__*/ "));
    let ret = &out[out.find("return ").unwrap()..];
    assert_eq!(ret.matches("_hoisted_1").count(), 1);
    assert!(!out.contains("_hoisted_2"));
}

#[test]
fn identical_static_siblings_get_separate_hoists() {
    let template = el(
        "template",
        vec![],
        vec![el("div", vec![], vec![el("p", vec![], vec![text("x")]), Node::DynamicExpression(ident("y")), el("p", vec![], vec![text("x")])])],
    );
    let mut ctx = CodegenContext::new(custom_policy());
    let out = ctx.compile_template(&template).unwrap();
    assert_eq!(ctx.hoisted().len(), 2);
    assert_eq!(ctx.hoisted()[0], ctx.hoisted()[1]);
    let ret = &out[out.find("return ").unwrap()..];
    assert_eq!(ret.matches("_hoisted_1").count(), 1);
    assert_eq!(ret.matches("_hoisted_2").count(), 1);
    assert!(ret.find("_hoisted_1").unwrap() < ret.find("_hoisted_2").unwrap());
}

#[test]
fn nothing_hoistable_leaves_hoists_unchanged() {
    let template = el("template", vec![], vec![el("span", vec![], vec![Node::DynamicExpression(ident("msg"))])]);
    let mut ctx = CodegenContext::new(custom_policy());
    ctx.add_to_hoists("kept".to_string());
    let out = ctx.compile_template(&template).unwrap();
    assert_eq!(ctx.hoisted(), &vec!["kept".to_string()]);
    assert!(!out.contains("return _hoisted_") && !out.contains("_hoisted_2"));
}

#[test]
fn empty_template_leaves_context_unchanged() {
    let mut ctx = CodegenContext::new(custom_policy());
    ctx.add_to_hoists("kept".to_string());
    assert_eq!(ctx.compile_template(&text("x")).unwrap_err(), ErrorKind::EmptyTemplate);
    assert_eq!(ctx.compile_template(&el("template", vec![], vec![text("x")])).unwrap_err(), ErrorKind::EmptyTemplate);
    assert_eq!(ctx.hoisted(), &vec!["kept".to_string()]);
    assert!(ctx.components_met().is_empty());
}

#[test]
fn component_table_after_template() {
    let root = el("div", vec![], vec![el("my-widget", vec![], vec![]), el("custom-x", vec![], vec![]), el("Other", vec![], vec![]), el("my-widget", vec![], vec![]), el("span", vec![], vec![])]);
    let mut ctx = CodegenContext::new(custom_policy());
    let out = ctx.compile_template(&el("template", vec![], vec![root])).unwrap();
    assert_eq!(ctx.components_met(), &vec!["my-widget".to_string(), "Other".to_string()]);
    assert_eq!(out.matches("_resolveComponent(\"").count(), 2);
}

#[test]
fn script_only_module_has_no_render() {
    let blocks = vec![script(vec![attr("lang", "ts")], "export default {}")];
    let out = compile_sfc(&blocks, custom_policy()).unwrap();
    assert!(out.ends_with("export default __sfc__"));
    assert!(!out.contains("function render("));
    assert!(!out.contains("__sfc__.render = render"));
}

#[test]
fn composite_and_parenthesised_expressions() {
    // a.b + 1
    let sum = Expr::Composite { texts: vec!["".to_string(), " + 1".to_string()], operands: vec![member(ident("a"), "b")] };
    assert_eq!(source(&TransformVisitor.rewrite(sum)), "_ctx.a.b + 1");
    // (a + b).c
    let inner = Expr::Composite { texts: vec!["".to_string(), " + ".to_string(), "".to_string()], operands: vec![ident("a"), ident("b")] };
    let e = member(Expr::Paren(Box::new(inner)), "c");
    assert_eq!(source(&e), "(a + b).c");
    assert_eq!(source(&TransformVisitor.rewrite(e)), "(a + b).c");
    // x.y ? p.q : `${m.n}!`
    let cond = Expr::Composite {
        texts: vec!["".to_string(), " ? ".to_string(), " : `${".to_string(), "}!`".to_string()],
        operands: vec![member(ident("x"), "y"), member(ident("p"), "q"), member(ident("m"), "n")],
    };
    assert_eq!(source(&TransformVisitor.rewrite(cond)), "_ctx.x.y ? _ctx.p.q : `${_ctx.m.n}!`");
}

#[test]
fn compiling_twice_is_identical() {
    let blocks = vec![
        script(vec![], "name: 'T'"),
        el("template", vec![], vec![el("div", vec![], vec![el("CustomComponent", vec![], vec![]), Node::DynamicExpression(member(ident("a"), "b"))])]),
    ];
    let a = compile_sfc(&blocks, custom_policy()).unwrap();
    let b = compile_sfc(&blocks, custom_policy()).unwrap();
    assert_eq!(a, b);
    assert!(a.starts_with("const __sfc__ = {\nname: 'T',\n}\n\nimport "));
    assert!(a.ends_with("\n}\n__sfc__.render = render\nexport default __sfc__"));
}
