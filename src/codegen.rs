//! Generating the render function of a template.
use vstd::prelude::*;
use crate::ast::{HtmlAttribute, Node, StartingTag};
use crate::classify::{classify, classify_spec, lemma_template_index, ErrorKind, ScriptAndLang};
use crate::expr::{push_expr, qualified_text};
use crate::policy::{is_component_tag, tag_is_component, IsCustomElementParam};
use crate::text::{decimal, push_char, push_decimal, push_quoted, push_str, quoted, str_eq};

verus! {

/// What a compile has accumulated so far: runtime helpers to import and
/// components to resolve, both in order of first use, and the hoisted
/// expressions in order of registration.
pub struct CtxView {
    pub imports: Seq<Seq<char>>,
    pub components: Seq<Seq<char>>,
    pub hoists: Seq<Seq<char>>,
}

pub open spec fn fresh_view() -> CtxView {
    CtxView { imports: seq![], components: seq![], hoists: seq![] }
}

pub open spec fn with_import(st: CtxView, name: Seq<char>) -> CtxView {
    if st.imports.contains(name) {
        st
    } else {
        CtxView { imports: st.imports.push(name), ..st }
    }
}

pub open spec fn with_component(st: CtxView, tag: Seq<char>) -> CtxView {
    if st.components.contains(tag) {
        st
    } else {
        CtxView { components: st.components.push(tag), ..st }
    }
}

/// The identifier of the hoisted declaration number `n`, counted from 1.
pub open spec fn hoist_id(n: nat) -> Seq<char> {
    "_hoisted_"@ + decimal(n)
}

/// `tag` with each `-` turned into `_`.
pub open spec fn sanitized(tag: Seq<char>) -> Seq<char> {
    tag.map_values(|c: char| if c == '-' { '_' } else { c })
}

/// The variable that holds the resolved component `tag`.
pub open spec fn component_ref(tag: Seq<char>) -> Seq<char> {
    "_component_"@ + sanitized(tag)
}

/// The start of a call of the runtime helper `name`.
pub open spec fn call_open(name: Seq<char>) -> Seq<char> {
    seq!['_'] + name + seq!['(']
}

/// Whether the subtree at `node` is fully static under `policy`.
pub open spec fn hoistable(policy: IsCustomElementParam, node: Node) -> bool
    decreases node,
{
    match node {
        Node::ElementNode { starting_tag, children } => !is_component_tag(
            policy,
            starting_tag.tag_name@,
        ) && (forall|k: int|
            0 <= k < starting_tag.attributes@.len()
                ==> !(#[trigger] starting_tag.attributes@[k]).is_directive()) && (forall|k: int|
            0 <= k < children@.len() ==> hoistable(policy, #[trigger] children@[k])),
        Node::TextNode(_) => true,
        Node::DynamicExpression(_) => false,
        Node::CommentNode(_) => false,
    }
}

/// The key and value text of one entry of a props object.
pub open spec fn prop_entry(a: HtmlAttribute) -> Seq<char> {
    match a {
        HtmlAttribute::Regular { name, value } => quoted(name@) + seq![':', ' '] + quoted(value@),
        HtmlAttribute::VDirective(d) => quoted(
            match d.argument {
                Some(arg) => arg@,
                None => d.name@,
            },
        ) + seq![':', ' '] + match d.value {
            Some(v) => qualified_text(v),
            None => "true"@,
        },
    }
}

pub open spec fn prop_entries(attrs: Seq<HtmlAttribute>) -> Seq<char>
    decreases attrs.len(),
{
    if attrs.len() == 0 {
        seq![]
    } else if attrs.len() == 1 {
        prop_entry(attrs[0])
    } else {
        prop_entries(attrs.subrange(0, attrs.len() - 1)) + seq![',', ' '] + prop_entry(
            attrs[attrs.len() - 1],
        )
    }
}

/// The props object built from the attributes, in source order.
pub open spec fn props_text(attrs: Seq<HtmlAttribute>) -> Seq<char> {
    if attrs.len() == 0 {
        "null"@
    } else {
        seq!['{', ' '] + prop_entries(attrs) + seq![' ', '}']
    }
}

/// The expression that creates `node`, and the context after it. With
/// `hoist` set, a static element is registered as a hoisted declaration and
/// stands as its identifier.
pub open spec fn render(policy: IsCustomElementParam, node: Node, hoist: bool, st: CtxView) -> (
    Seq<char>,
    CtxView,
)
    decreases node, 2nat,
{
    match node {
        Node::ElementNode { starting_tag, children } => {
            if hoist && hoistable(policy, node) {
                let (t, s1) = render_element(policy, starting_tag, children, false, false, st);
                let s2 = CtxView { hoists: s1.hoists.push(t), ..s1 };
                (hoist_id(s2.hoists.len()), s2)
            } else {
                render_element(policy, starting_tag, children, hoist, false, st)
            }
        },
        Node::TextNode(t) => {
            let s1 = with_import(st, "createTextVNode"@);
            (call_open("createTextVNode"@) + quoted(t@) + seq![')'], s1)
        },
        Node::DynamicExpression(e) => {
            let s1 = with_import(with_import(st, "createTextVNode"@), "toDisplayString"@);
            (
                call_open("createTextVNode"@) + call_open("toDisplayString"@) + qualified_text(e)
                    + "), 1 /* TEXT */)"@,
                s1,
            )
        },
        Node::CommentNode(c) => {
            let s1 = with_import(st, "createCommentVNode"@);
            (call_open("createCommentVNode"@) + quoted(c@) + seq![')'], s1)
        },
    }
}

/// The helper that creates an element: a block at the root, a vnode elsewhere.
pub open spec fn element_helper(root: bool) -> Seq<char> {
    if root {
        "createElementBlock"@
    } else {
        "createElementVNode"@
    }
}

/// The call that creates an element with its tag, props and children.
pub open spec fn render_element(
    policy: IsCustomElementParam,
    starting_tag: StartingTag,
    children: Vec<Node>,
    hoist: bool,
    root: bool,
    st: CtxView,
) -> (Seq<char>, CtxView)
    decreases children, 1nat,
{
    let s1 = tag_state(policy, starting_tag.tag_name@, root, st);
    let (ct, s2) = render_children(policy, children@, hoist, s1);
    (
        call_open(element_helper(root)) + tag_text(policy, starting_tag.tag_name@) + seq![',', ' ']
            + props_text(starting_tag.attributes@) + seq![',', ' ', '['] + ct + seq![']', ')'],
        s2,
    )
}

/// The context once an element's helper and tag are accounted for.
pub open spec fn tag_state(policy: IsCustomElementParam, tag: Seq<char>, root: bool, st: CtxView) -> CtxView {
    let s0 = with_import(st, element_helper(root));
    if is_component_tag(policy, tag) {
        with_component(with_import(s0, "resolveComponent"@), tag)
    } else {
        s0
    }
}

/// How an element's tag is written: a component's variable, or the quoted name.
pub open spec fn tag_text(policy: IsCustomElementParam, tag: Seq<char>) -> Seq<char> {
    if is_component_tag(policy, tag) {
        component_ref(tag)
    } else {
        quoted(tag)
    }
}

/// The children, created left to right and separated by `, `.
pub open spec fn render_children(
    policy: IsCustomElementParam,
    s: Seq<Node>,
    hoist: bool,
    st: CtxView,
) -> (Seq<char>, CtxView)
    decreases s, 0nat,
{
    if s.len() == 0 {
        (seq![], st)
    } else {
        let (t0, s0) = render_children(policy, s.subrange(0, s.len() - 1), hoist, st);
        let (t1, s1) = render(policy, s[s.len() - 1], hoist, s0);
        if s.len() == 1 {
            (t1, s1)
        } else {
            (t0 + seq![',', ' '] + t1, s1)
        }
    }
}

/// The expression returned by the render function for the root element.
/// A static root is hoisted whole; any other opens a block.
pub open spec fn root_render(policy: IsCustomElementParam, node: Node, st: CtxView) -> (
    Seq<char>,
    CtxView,
) {
    match node {
        Node::ElementNode { starting_tag, children } => {
            if hoistable(policy, node) {
                render(policy, node, true, st)
            } else {
                let s0 = with_import(st, "openBlock"@);
                let (t, s1) = render_element(policy, starting_tag, children, true, true, s0);
                ("(_openBlock(), "@ + t + seq![')'], s1)
            }
        },
        _ => (seq![], st),
    }
}

/// Position of the first element among `s`, from position `k` on.
pub open spec fn first_element_from(s: Seq<Node>, k: int) -> Option<int>
    decreases s.len() - k,
{
    if k < 0 || k >= s.len() {
        None
    } else if s[k] is ElementNode {
        Some(k)
    } else {
        first_element_from(s, k + 1)
    }
}

pub open spec fn import_line(name: Seq<char>) -> Seq<char> {
    "import { "@ + name + " as _"@ + name + " } from \"vue\"\n"@
}

pub open spec fn imports_text(s: Seq<Seq<char>>) -> Seq<char>
    decreases s.len(),
{
    if s.len() == 0 {
        seq![]
    } else {
        imports_text(s.subrange(0, s.len() - 1)) + import_line(s[s.len() - 1])
    }
}

/// The declaration of hoisted expression number `n`, counted from 1.
pub open spec fn hoist_line(n: nat, e: Seq<char>) -> Seq<char> {
    "const "@ + hoist_id(n) + " = /*#__PURE__*/ "@ + e + seq!['\n']
}

pub open spec fn hoists_text(s: Seq<Seq<char>>) -> Seq<char>
    decreases s.len(),
{
    if s.len() == 0 {
        seq![]
    } else {
        hoists_text(s.subrange(0, s.len() - 1)) + hoist_line(s.len(), s[s.len() - 1])
    }
}

pub open spec fn component_line(tag: Seq<char>) -> Seq<char> {
    "  const "@ + component_ref(tag) + " = _resolveComponent("@ + quoted(tag) + ")\n"@
}

pub open spec fn components_text(s: Seq<Seq<char>>) -> Seq<char>
    decreases s.len(),
{
    if s.len() == 0 {
        seq![]
    } else {
        components_text(s.subrange(0, s.len() - 1)) + component_line(s[s.len() - 1])
    }
}

/// Imports, hoisted declarations and the render function returning `ret`.
pub open spec fn template_text(ret: Seq<char>, st: CtxView) -> Seq<char> {
    imports_text(st.imports) + seq!['\n'] + hoists_text(st.hoists)
        + "\nfunction render(_ctx, _cache, $props, $setup, $data, $options) {\n"@
        + components_text(st.components) + "  return "@ + ret + "\n}"@
}

/// The compiled template section, or why there is none.
pub open spec fn template_output(policy: IsCustomElementParam, template: Node, st: CtxView) -> Result<
    Seq<char>,
    ErrorKind,
> {
    match template_render(policy, template, st) {
        Some((ret, s1)) => Ok(template_text(ret, s1)),
        None => Err(ErrorKind::EmptyTemplate),
    }
}

/// The render function's return value for a template, and the context after
/// it; `None` where the template holds no element. A lone element is the
/// root; otherwise every child of the template is rendered, in order, inside
/// a fragment.
pub open spec fn template_render(policy: IsCustomElementParam, template: Node, st: CtxView) -> Option<
    (Seq<char>, CtxView),
> {
    match template {
        Node::ElementNode { children, .. } => if first_element_from(children@, 0) is None {
            None
        } else if children@.len() == 1 {
            Some(root_render(policy, children@[0], st))
        } else {
            Some(fragment_render(policy, children@, st))
        },
        _ => None,
    }
}

pub open spec fn fragment_state(st: CtxView) -> CtxView {
    with_import(with_import(with_import(st, "openBlock"@), "createElementBlock"@), "Fragment"@)
}

/// A fragment block holding `s`.
pub open spec fn fragment_render(policy: IsCustomElementParam, s: Seq<Node>, st: CtxView) -> (
    Seq<char>,
    CtxView,
) {
    let (ct, s1) = render_children(policy, s, true, fragment_state(st));
    ("(_openBlock(), _createElementBlock(_Fragment, null, ["@ + ct + "]))"@, s1)
}

/// The object declaration that the script sections make.
pub open spec fn scripts_text(
    legacy: Option<(Seq<char>, Seq<char>)>,
    setup: Option<(Seq<char>, Seq<char>)>,
) -> Seq<char> {
    "const __sfc__ = {\n"@ + match legacy {
        Some((c, _)) => c + ",\n"@,
        None => seq![],
    } + match setup {
        Some((c, _)) => "setup($props, { expose }) {\n"@ + c + "\n},\n"@,
        None => seq![],
    } + "}\n\n"@
}

/// The generated module for the top-level blocks, or why there is none.
pub open spec fn sfc_output(blocks: Seq<Node>, policy: IsCustomElementParam) -> Result<
    Seq<char>,
    ErrorKind,
> {
    match classify_spec(blocks) {
        Err(e) => Err(e),
        Ok(b) => {
            let head = scripts_text(b.legacy_script, b.setup_script);
            match b.template {
                None => Ok(head + "\nexport default __sfc__"@),
                Some(i) => match template_output(policy, blocks[i], fresh_view()) {
                    Err(e) => Err(e),
                    Ok(t) => Ok(head + t + "\n__sfc__.render = render"@ + "\nexport default __sfc__"@),
                },
            }
        },
    }
}

/// Rendering only appends hoisted declarations: those registered before
/// keep their positions, hence their identifiers, and each new one takes the
/// next number.
pub proof fn lemma_render_keeps_hoists(policy: IsCustomElementParam, node: Node, hoist: bool, st: CtxView)
    ensures
        st.hoists.len() <= render(policy, node, hoist, st).1.hoists.len(),
        render(policy, node, hoist, st).1.hoists.subrange(0, st.hoists.len() as int) == st.hoists,
    decreases node, 2nat,
{
    if let Node::ElementNode { starting_tag, children } = node {
        assert(decreases_to!(node => node->children));
        if hoist && hoistable(policy, node) {
            lemma_element_keeps_hoists(policy, starting_tag, children, false, false, st);
            let s1 = render_element(policy, starting_tag, children, false, false, st).1;
            assert(s1.hoists.push(render_element(policy, starting_tag, children, false, false, st).0).subrange(
                0,
                st.hoists.len() as int,
            ) =~= st.hoists);
        } else {
            lemma_element_keeps_hoists(policy, starting_tag, children, hoist, false, st);
        }
    }
}

/// The same for an element.
pub proof fn lemma_element_keeps_hoists(
    policy: IsCustomElementParam,
    starting_tag: StartingTag,
    children: Vec<Node>,
    hoist: bool,
    root: bool,
    st: CtxView,
)
    ensures
        st.hoists.len() <= render_element(policy, starting_tag, children, hoist, root, st).1.hoists.len(),
        render_element(policy, starting_tag, children, hoist, root, st).1.hoists.subrange(
            0,
            st.hoists.len() as int,
        ) == st.hoists,
    decreases children, 1nat,
{
    let s1 = tag_state(policy, starting_tag.tag_name@, root, st);
    assert(s1.hoists == st.hoists);
    lemma_children_keep_hoists(policy, children@, hoist, s1);
}

/// The same for a run of children.
pub proof fn lemma_children_keep_hoists(policy: IsCustomElementParam, s: Seq<Node>, hoist: bool, st: CtxView)
    ensures
        st.hoists.len() <= render_children(policy, s, hoist, st).1.hoists.len(),
        render_children(policy, s, hoist, st).1.hoists.subrange(0, st.hoists.len() as int) == st.hoists,
    decreases s, 0nat,
{
    if s.len() > 0 {
        let pre = s.subrange(0, s.len() - 1);
        lemma_children_keep_hoists(policy, pre, hoist, st);
        let s0 = render_children(policy, pre, hoist, st).1;
        lemma_render_keeps_hoists(policy, s[s.len() - 1], hoist, s0);
        let s1 = render(policy, s[s.len() - 1], hoist, s0).1;
        assert(s1.hoists.subrange(0, st.hoists.len() as int) =~= s0.hoists.subrange(
            0,
            s0.hoists.len() as int,
        ).subrange(0, st.hoists.len() as int));
    }
}

/// A compile starts from an empty context, so the declarations it emits are
/// numbered from 1, in the order the traversal registered them.
pub proof fn lemma_hoists_numbered_from_one(e: Seq<char>)
    ensures
        hoists_text(fresh_view().hoists) == Seq::<char>::empty(),
        hoists_text(fresh_view().hoists.push(e)) == hoist_line(1, e),
{
    assert(fresh_view().hoists.push(e).subrange(0, 0) =~= Seq::<Seq<char>>::empty());
}

/// Hoist identifiers of different numbers differ, so no identifier is
/// handed out twice in one compile.
pub proof fn lemma_hoist_ids_distinct(i: nat, j: nat)
    requires
        i != j,
    ensures
        hoist_id(i) != hoist_id(j),
{
    if hoist_id(i) == hoist_id(j) {
        let p = "_hoisted_"@;
        assert(decimal(i) =~= hoist_id(i).subrange(p.len() as int, hoist_id(i).len() as int));
        assert(decimal(j) =~= hoist_id(j).subrange(p.len() as int, hoist_id(j).len() as int));
        crate::text::lemma_decimal_injective(i, j);
    }
}

/// A file holding one script with text content in an accepted language
/// compiles to the script object and the export, with no render function.
pub proof fn lemma_script_only_compiles(blocks: Seq<Node>, policy: IsCustomElementParam)
    requires
        blocks.len() == 1,
        blocks[0] matches Node::ElementNode { starting_tag, children } && starting_tag.tag_name@
            == "script"@ && children.len() > 0 && children@[0] is TextNode
            && crate::classify::script_lang_ok(crate::classify::lang_of(starting_tag.attributes@)),
    ensures
        classify_spec(blocks) is Ok,
        classify_spec(blocks)->Ok_0.template is None,
        sfc_output(blocks, policy) == Ok::<Seq<char>, ErrorKind>(
            scripts_text(
                classify_spec(blocks)->Ok_0.legacy_script,
                classify_spec(blocks)->Ok_0.setup_script,
            ) + "\nexport default __sfc__"@,
        ),
{
    reveal_strlit("script");
    reveal_strlit("template");
    assert("script"@ != "template"@) by {
        assert("script"@[0] != "template"@[0]);
    }
    assert(crate::classify::classify_prefix(blocks, 0) == Ok::<crate::classify::BlocksView, ErrorKind>(
        crate::classify::no_blocks(),
    ));
}

/// Two policies claim the same tags.
pub open spec fn same_claims(p: IsCustomElementParam, q: IsCustomElementParam) -> bool {
    forall|t: Seq<char>| #[trigger] p.claims(t) == q.claims(t)
}

proof fn lemma_hoistable_same(p: IsCustomElementParam, q: IsCustomElementParam, node: Node)
    requires
        same_claims(p, q),
    ensures
        hoistable(p, node) == hoistable(q, node),
    decreases node,
{
    if let Node::ElementNode { starting_tag, children } = node {
        assert forall|k: int| 0 <= k < children@.len() implies hoistable(p, children@[k]) == hoistable(
            q,
            children@[k],
        ) by {
            assert(decreases_to!(node => node->children));
            vstd::std_specs::vec::axiom_vec_index_decreases(children, k);
            lemma_hoistable_same(p, q, children@[k]);
        }
        assert(p.claims(starting_tag.tag_name@) == q.claims(starting_tag.tag_name@));
    }
}

proof fn lemma_render_same(p: IsCustomElementParam, q: IsCustomElementParam, node: Node, hoist: bool, st: CtxView)
    requires
        same_claims(p, q),
    ensures
        render(p, node, hoist, st) == render(q, node, hoist, st),
    decreases node, 2nat,
{
    if let Node::ElementNode { starting_tag, children } = node {
        assert(decreases_to!(node => node->children));
        lemma_hoistable_same(p, q, node);
        lemma_element_same(p, q, starting_tag, children, false, false, st);
        lemma_element_same(p, q, starting_tag, children, hoist, false, st);
    }
}

proof fn lemma_element_same(
    p: IsCustomElementParam,
    q: IsCustomElementParam,
    starting_tag: StartingTag,
    children: Vec<Node>,
    hoist: bool,
    root: bool,
    st: CtxView,
)
    requires
        same_claims(p, q),
    ensures
        render_element(p, starting_tag, children, hoist, root, st) == render_element(
            q,
            starting_tag,
            children,
            hoist,
            root,
            st,
        ),
    decreases children, 1nat,
{
    assert(p.claims(starting_tag.tag_name@) == q.claims(starting_tag.tag_name@));
    let s1 = tag_state(p, starting_tag.tag_name@, root, st);
    lemma_children_same(p, q, children@, hoist, s1);
}

proof fn lemma_children_same(p: IsCustomElementParam, q: IsCustomElementParam, s: Seq<Node>, hoist: bool, st: CtxView)
    requires
        same_claims(p, q),
    ensures
        render_children(p, s, hoist, st) == render_children(q, s, hoist, st),
    decreases s, 0nat,
{
    if s.len() > 0 {
        let pre = s.subrange(0, s.len() - 1);
        lemma_children_same(p, q, pre, hoist, st);
        let s0 = render_children(p, pre, hoist, st).1;
        lemma_render_same(p, q, s[s.len() - 1], hoist, s0);
    }
}

/// The generated module is a function of the blocks and of which tags the
/// policy claims: compiling the same blocks twice, under policies that claim
/// the same tags (such as two compiled from one pattern), gives the same
/// result, text for text.
pub proof fn lemma_compile_deterministic(
    blocks: Seq<Node>,
    same_blocks: Seq<Node>,
    policy: IsCustomElementParam,
    same_policy: IsCustomElementParam,
)
    requires
        blocks == same_blocks,
        same_claims(policy, same_policy),
    ensures
        sfc_output(blocks, policy) == sfc_output(same_blocks, same_policy),
{
    if let Ok(b) = classify_spec(blocks) {
        if let Some(i) = b.template {
            if let Node::ElementNode { children, .. } = blocks[i] {
                if children@.len() == 1 {
                    let root = children@[0];
                    lemma_hoistable_same(policy, same_policy, root);
                    if let Node::ElementNode { starting_tag, children: c } = root {
                        lemma_render_same(policy, same_policy, root, true, fresh_view());
                        lemma_element_same(
                            policy,
                            same_policy,
                            starting_tag,
                            c,
                            true,
                            true,
                            with_import(fresh_view(), "openBlock"@),
                        );
                    }
                } else {
                    lemma_children_same(policy, same_policy, children@, true, fragment_state(fresh_view()));
                }
            }
        }
    }
}

/// The mutable state of one compile.
#[derive(Debug)]
pub struct CodegenContext {
    /// Runtime helpers referenced so far, in order of first use.
    imports: Vec<String>,
    /// Component tags met so far, in order of first use.
    components: Vec<String>,
    /// Hoisted expressions; the one at position `i` is declared as `_hoisted_{i + 1}`.
    hoists: Vec<String>,
    is_custom_element: IsCustomElementParam,
}

pub open spec fn texts(v: Seq<String>) -> Seq<Seq<char>> {
    v.map_values(|s: String| s@)
}

impl CodegenContext {
    pub open spec fn hoist_texts(&self) -> Seq<Seq<char>> {
        self.view().hoists
    }

    pub closed spec fn policy(&self) -> IsCustomElementParam {
        self.is_custom_element
    }

    pub closed spec fn view(&self) -> CtxView {
        CtxView {
            imports: texts(self.imports@),
            components: texts(self.components@),
            hoists: texts(self.hoists@),
        }
    }

    /// A context with nothing accumulated, deciding custom elements by `policy`.
    pub fn new(policy: IsCustomElementParam) -> (r: CodegenContext)
        ensures
            r.view() == fresh_view(),
            r.policy() == policy,
    {
        let r = CodegenContext {
            imports: Vec::new(),
            components: Vec::new(),
            hoists: Vec::new(),
            is_custom_element: policy,
        };
        assert(r.view().imports =~= seq![]);
        assert(r.view().components =~= seq![]);
        assert(r.view().hoists =~= seq![]);
        r
    }

    /// The hoisted expressions, in order of registration.
    pub fn hoisted(&self) -> (r: &Vec<String>)
        ensures
            texts(r@) == self.hoist_texts(),
    {
        &self.hoists
    }

    /// The component tags met so far, in order of first use.
    pub fn components_met(&self) -> (r: &Vec<String>)
        ensures
            texts(r@) == self.view().components,
    {
        &self.components
    }

    fn add_import(&mut self, name: &str)
        ensures
            final(self).view() == with_import(old(self).view(), name@),
            final(self).policy() == old(self).policy(),
    {
        let mut i: usize = 0;
        while i < self.imports.len()
            invariant
                i <= self.imports@.len(),
                forall|k: int| 0 <= k < i ==> self.imports@[k]@ != name@,
            decreases self.imports.len() - i,
        {
            if str_eq(self.imports[i].as_str(), name) {
                assert(texts(self.imports@)[i as int] == name@);
                return;
            }
            i = i + 1;
        }
        assert(!texts(self.imports@).contains(name@));
        self.imports.push(name.to_owned());
        assert(texts(self.imports@) =~= texts(old(self).imports@).push(name@));
    }

    fn add_component(&mut self, tag: &str)
        ensures
            final(self).view() == with_component(old(self).view(), tag@),
            final(self).policy() == old(self).policy(),
    {
        let mut i: usize = 0;
        while i < self.components.len()
            invariant
                i <= self.components@.len(),
                forall|k: int| 0 <= k < i ==> self.components@[k]@ != tag@,
            decreases self.components.len() - i,
        {
            if str_eq(self.components[i].as_str(), tag) {
                assert(texts(self.components@)[i as int] == tag@);
                return;
            }
            i = i + 1;
        }
        assert(!texts(self.components@).contains(tag@));
        self.components.push(tag.to_owned());
        assert(texts(self.components@) =~= texts(old(self).components@).push(tag@));
    }

    /// Registers `expression` as the next hoisted declaration and returns
    /// its identifier.
    pub fn add_to_hoists(&mut self, expression: String) -> (r: String)
        ensures
            final(self).hoist_texts() == old(self).hoist_texts().push(expression@),
            r@ == hoist_id(final(self).hoist_texts().len()),
            r@ == hoist_id(old(self).hoist_texts().len() + 1),
            final(self).view().imports == old(self).view().imports,
            final(self).view().components == old(self).view().components,
            final(self).policy() == old(self).policy(),
    {
        let ghost e = expression@;
        self.hoists.push(expression);
        assert(texts(self.hoists@) =~= texts(old(self).hoists@).push(e));
        let mut id = "_hoisted_".to_owned();
        push_decimal(&mut id, self.hoists.len());
        id
    }

    /// Whether `starting_tag` names a component: not an intrinsic tag and not
    /// claimed as a custom element.
    pub fn is_component(&self, starting_tag: &StartingTag) -> (r: bool)
        ensures
            r == is_component_tag(self.policy(), starting_tag.tag_name@),
    {
        tag_is_component(&self.is_custom_element, starting_tag.tag_name.as_str())
    }

    /// Whether the subtree at `node` is fully static and can be created once.
    pub fn can_be_hoisted(&self, node: &Node) -> (r: bool)
        ensures
            r == hoistable(self.policy(), *node),
        decreases node,
    {
        match node {
            Node::ElementNode { starting_tag, children } => {
                if self.is_component(starting_tag) {
                    return false;
                }
                let mut i: usize = 0;
                while i < starting_tag.attributes.len()
                    invariant
                        *node == (Node::ElementNode { starting_tag: *starting_tag, children: *children }),
                        !is_component_tag(self.policy(), starting_tag.tag_name@),
                        i <= starting_tag.attributes@.len(),
                        forall|k: int|
                            0 <= k < i ==> !(#[trigger] starting_tag.attributes@[k]).is_directive(),
                    decreases starting_tag.attributes.len() - i,
                {
                    if let HtmlAttribute::VDirective(_) = &starting_tag.attributes[i] {
                        assert(starting_tag.attributes@[i as int].is_directive());
                        return false;
                    }
                    i = i + 1;
                }
                let mut j: usize = 0;
                while j < children.len()
                    invariant
                        *node == (Node::ElementNode { starting_tag: *starting_tag, children: *children }),
                        !is_component_tag(self.policy(), starting_tag.tag_name@),
                        forall|k: int|
                            0 <= k < starting_tag.attributes@.len()
                                ==> !(#[trigger] starting_tag.attributes@[k]).is_directive(),
                        j <= children@.len(),
                        forall|k: int| 0 <= k < j ==> hoistable(self.policy(), #[trigger] children@[k]),
                    decreases children.len() - j,
                {
                    proof {
                        vstd::std_specs::vec::axiom_vec_index_decreases(*children, j as int);
                        assert(decreases_to!(*node => (*node)->children));
                    }
                    if !self.can_be_hoisted(&children[j]) {
                        assert(!hoistable(self.policy(), children@[j as int]));
                        return false;
                    }
                    j = j + 1;
                }
                true
            },
            Node::TextNode(_) => true,
            Node::DynamicExpression(_) => false,
            Node::CommentNode(_) => false,
        }
    }
}

fn push_call_open(out: &mut String, name: &str)
    ensures
        final(out)@ == old(out)@ + call_open(name@),
{
    push_char(out, '_');
    push_str(out, name);
    push_char(out, '(');
    assert(out@ =~= old(out)@ + call_open(name@));
}

fn push_sanitized(out: &mut String, tag: &str)
    ensures
        final(out)@ == old(out)@ + sanitized(tag@),
{
    let ghost start = out@;
    let n = tag.unicode_len();
    let mut i: usize = 0;
    while i < n
        invariant
            n == tag@.len(),
            i <= n,
            out@ == start + sanitized(tag@.subrange(0, i as int)),
        decreases n - i,
    {
        let c = tag.get_char(i);
        if c == '-' {
            push_char(out, '_');
        } else {
            push_char(out, c);
        }
        assert(sanitized(tag@.subrange(0, i + 1)) =~= sanitized(tag@.subrange(0, i as int)).push(
            if c == '-' {
                '_'
            } else {
                c
            },
        ));
        i = i + 1;
    }
    assert(tag@.subrange(0, n as int) =~= tag@);
}

fn push_prop_entry(out: &mut String, a: &HtmlAttribute)
    ensures
        final(out)@ == old(out)@ + prop_entry(*a),
{
    let ghost start = out@;
    match a {
        HtmlAttribute::Regular { name, value } => {
            push_quoted(out, name.as_str());
            push_char(out, ':');
            push_char(out, ' ');
            push_quoted(out, value.as_str());
        },
        HtmlAttribute::VDirective(d) => {
            match &d.argument {
                Some(arg) => push_quoted(out, arg.as_str()),
                None => push_quoted(out, d.name.as_str()),
            }
            push_char(out, ':');
            push_char(out, ' ');
            match &d.value {
                Some(v) => push_expr(out, v, true),
                None => push_str(out, "true"),
            }
        },
    }
    assert(out@ =~= start + prop_entry(*a));
}

fn push_props(out: &mut String, attrs: &Vec<HtmlAttribute>)
    ensures
        final(out)@ == old(out)@ + props_text(attrs@),
{
    if attrs.len() == 0 {
        push_str(out, "null");
        return;
    }
    let ghost start = out@;
    push_char(out, '{');
    push_char(out, ' ');
    let ghost open = out@;
    let mut i: usize = 0;
    assert(prop_entries(attrs@.subrange(0, 0)) =~= Seq::<char>::empty());
    while i < attrs.len()
        invariant
            i <= attrs@.len(),
            out@ == open + prop_entries(attrs@.subrange(0, i as int)),
        decreases attrs.len() - i,
    {
        if i > 0 {
            push_char(out, ',');
            push_char(out, ' ');
        }
        push_prop_entry(out, &attrs[i]);
        let ghost next = attrs@.subrange(0, i + 1);
        assert(next.subrange(0, i as int) =~= attrs@.subrange(0, i as int));
        assert(out@ =~= open + prop_entries(next));
        i = i + 1;
    }
    assert(attrs@.subrange(0, attrs@.len() as int) =~= attrs@);
    push_char(out, ' ');
    push_char(out, '}');
    assert(out@ =~= start + props_text(attrs@));
}

impl CodegenContext {
    fn render_node(&mut self, out: &mut String, node: &Node, hoist: bool)
        ensures
            final(out)@ == old(out)@ + render(old(self).policy(), *node, hoist, old(self).view()).0,
            final(self).view() == render(old(self).policy(), *node, hoist, old(self).view()).1,
            final(self).policy() == old(self).policy(),
        decreases node, 2nat,
    {
        let ghost start = out@;
        match node {
            Node::ElementNode { starting_tag, children } => {
                proof {
                    assert(decreases_to!(*node => (*node)->children));
                }
                if hoist && self.can_be_hoisted(node) {
                    let mut buf = String::new();
                    self.render_element(&mut buf, starting_tag, children, false, false);
                    let id = self.add_to_hoists(buf);
                    push_str(out, id.as_str());
                } else {
                    self.render_element(out, starting_tag, children, hoist, false);
                }
            },
            Node::TextNode(t) => {
                self.add_import("createTextVNode");
                push_call_open(out, "createTextVNode");
                push_quoted(out, t.as_str());
                push_char(out, ')');
            },
            Node::DynamicExpression(e) => {
                self.add_import("createTextVNode");
                self.add_import("toDisplayString");
                push_call_open(out, "createTextVNode");
                push_call_open(out, "toDisplayString");
                push_expr(out, e, true);
                push_str(out, "), 1 /* TEXT */)");
            },
            Node::CommentNode(c) => {
                self.add_import("createCommentVNode");
                push_call_open(out, "createCommentVNode");
                push_quoted(out, c.as_str());
                push_char(out, ')');
            },
        }
        assert(out@ =~= start + render(old(self).policy(), *node, hoist, old(self).view()).0);
    }

    fn push_head(&mut self, out: &mut String, starting_tag: &StartingTag, root: bool)
        ensures
            final(self).policy() == old(self).policy(),
            final(out)@ == old(out)@ + call_open(element_helper(root)) + tag_text(
                old(self).policy(),
                starting_tag.tag_name@,
            ),
            final(self).view() == tag_state(
                old(self).policy(),
                starting_tag.tag_name@,
                root,
                old(self).view(),
            ),
    {
        let helper = if root {
            "createElementBlock"
        } else {
            "createElementVNode"
        };
        assert(helper@ == element_helper(root));
        self.add_import(helper);
        push_call_open(out, helper);
        let ghost mid = out@;
        let tag = starting_tag.tag_name.as_str();
        if self.is_component(starting_tag) {
            self.add_import("resolveComponent");
            self.add_component(tag);
            push_str(out, "_component_");
            push_sanitized(out, tag);
            assert(out@ =~= mid + component_ref(tag@));
        } else {
            push_quoted(out, tag);
        }
    }

    fn render_element(
        &mut self,
        out: &mut String,
        starting_tag: &StartingTag,
        children: &Vec<Node>,
        hoist: bool,
        root: bool,
    )
        ensures
            final(out)@ == old(out)@ + render_element(
                old(self).policy(),
                *starting_tag,
                *children,
                hoist,
                root,
                old(self).view(),
            ).0,
            final(self).view() == render_element(
                old(self).policy(),
                *starting_tag,
                *children,
                hoist,
                root,
                old(self).view(),
            ).1,
            final(self).policy() == old(self).policy(),
        decreases children, 1nat,
    {
        let ghost start = out@;
        let ghost st = old(self).view();
        let ghost policy = old(self).policy();
        self.push_head(out, starting_tag, root);
        let ghost s1 = self.view();
        let ghost head = out@;
        push_char(out, ',');
        push_char(out, ' ');
        push_props(out, &starting_tag.attributes);
        push_char(out, ',');
        push_char(out, ' ');
        push_char(out, '[');
        let ghost mid = out@;
        assert(mid =~= head + seq![',', ' '] + props_text(starting_tag.attributes@) + seq![',', ' ', '[']);
        self.render_children(out, children, hoist);
        let ghost ct = render_children(policy, children@, hoist, s1).0;
        push_char(out, ']');
        push_char(out, ')');
        assert(out@ =~= mid + ct + seq![']', ')']);
        proof {
            let r = render_element(policy, *starting_tag, *children, hoist, root, st);
            assert(out@ =~= start + r.0);
        }
    }

    fn render_children(&mut self, out: &mut String, children: &Vec<Node>, hoist: bool)
        ensures
            final(out)@ == old(out)@ + render_children(
                old(self).policy(),
                children@,
                hoist,
                old(self).view(),
            ).0,
            final(self).view() == render_children(
                old(self).policy(),
                children@,
                hoist,
                old(self).view(),
            ).1,
            final(self).policy() == old(self).policy(),
        decreases children, 0nat,
    {
        let ghost start = out@;
        let ghost st = self.view();
        let ghost policy = self.policy();
        let mut i: usize = 0;
        assert(children@.subrange(0, 0) =~= Seq::<Node>::empty());
        while i < children.len()
            invariant
                i <= children@.len(),
                self.policy() == policy,
                out@ == start + render_children(policy, children@.subrange(0, i as int), hoist, st).0,
                self.view() == render_children(policy, children@.subrange(0, i as int), hoist, st).1,
            decreases children.len() - i,
        {
            if i > 0 {
                push_char(out, ',');
                push_char(out, ' ');
            }
            proof {
                vstd::std_specs::vec::axiom_vec_index_decreases(*children, i as int);
            }
            self.render_node(out, &children[i], hoist);
            let ghost next = children@.subrange(0, i + 1);
            assert(next.subrange(0, i as int) =~= children@.subrange(0, i as int));
            assert(next[i as int] == children@[i as int]);
            assert(out@ =~= start + render_children(policy, next, hoist, st).0);
            i = i + 1;
        }
        assert(children@.subrange(0, children@.len() as int) =~= children@);
    }
}

impl CodegenContext {
    fn push_imports(&self, out: &mut String)
        ensures
            final(out)@ == old(out)@ + imports_text(self.view().imports),
    {
        let ghost start = out@;
        let ghost all = self.view().imports;
        let mut i: usize = 0;
        assert(all.subrange(0, 0) =~= Seq::<Seq<char>>::empty());
        while i < self.imports.len()
            invariant
                all == texts(self.imports@),
                i <= all.len(),
                out@ == start + imports_text(all.subrange(0, i as int)),
            decreases self.imports.len() - i,
        {
            let name = self.imports[i].as_str();
            push_str(out, "import { ");
            push_str(out, name);
            push_str(out, " as _");
            push_str(out, name);
            push_str(out, " } from \"vue\"\n");
            let ghost next = all.subrange(0, i + 1);
            assert(next.subrange(0, i as int) =~= all.subrange(0, i as int));
            assert(next[i as int] == name@);
            assert(out@ =~= start + imports_text(next));
            i = i + 1;
        }
        assert(all.subrange(0, all.len() as int) =~= all);
    }

    fn push_hoists(&self, out: &mut String)
        ensures
            final(out)@ == old(out)@ + hoists_text(self.view().hoists),
    {
        let ghost start = out@;
        let ghost all = self.view().hoists;
        let mut i: usize = 0;
        assert(all.subrange(0, 0) =~= Seq::<Seq<char>>::empty());
        while i < self.hoists.len()
            invariant
                all == texts(self.hoists@),
                i <= all.len(),
                out@ == start + hoists_text(all.subrange(0, i as int)),
            decreases self.hoists.len() - i,
        {
            push_str(out, "const ");
            push_str(out, "_hoisted_");
            push_decimal(out, i + 1);
            push_str(out, " = /*#__PURE__*/ ");
            push_str(out, self.hoists[i].as_str());
            push_char(out, '\n');
            let ghost next = all.subrange(0, i + 1);
            assert(next.subrange(0, i as int) =~= all.subrange(0, i as int));
            assert(next[i as int] == self.hoists@[i as int]@);
            assert(out@ =~= start + hoists_text(next));
            i = i + 1;
        }
        assert(all.subrange(0, all.len() as int) =~= all);
    }

    fn push_components(&self, out: &mut String)
        ensures
            final(out)@ == old(out)@ + components_text(self.view().components),
    {
        let ghost start = out@;
        let ghost all = self.view().components;
        let mut i: usize = 0;
        assert(all.subrange(0, 0) =~= Seq::<Seq<char>>::empty());
        while i < self.components.len()
            invariant
                all == texts(self.components@),
                i <= all.len(),
                out@ == start + components_text(all.subrange(0, i as int)),
            decreases self.components.len() - i,
        {
            let tag = self.components[i].as_str();
            push_str(out, "  const ");
            push_str(out, "_component_");
            push_sanitized(out, tag);
            push_str(out, " = _resolveComponent(");
            push_quoted(out, tag);
            push_str(out, ")\n");
            let ghost next = all.subrange(0, i + 1);
            assert(next.subrange(0, i as int) =~= all.subrange(0, i as int));
            assert(next[i as int] == tag@);
            assert(out@ =~= start + components_text(next));
            i = i + 1;
        }
        assert(all.subrange(0, all.len() as int) =~= all);
    }

    /// Renders `node` as the root of the render function's return value;
    /// `None` where `node` is not an element.
    pub fn compile_node(&mut self, node: &Node) -> (r: Option<String>)
        ensures
            final(self).policy() == old(self).policy(),
            match r {
                Some(t) => node is ElementNode && t@ == root_render(
                    old(self).policy(),
                    *node,
                    old(self).view(),
                ).0 && final(self).view() == root_render(
                    old(self).policy(),
                    *node,
                    old(self).view(),
                ).1,
                None => !(node is ElementNode) && final(self).view() == old(self).view(),
            },
    {
        match node {
            Node::ElementNode { starting_tag, children } => {
                let mut buf = String::new();
                if self.can_be_hoisted(node) {
                    self.render_node(&mut buf, node, true);
                } else {
                    self.add_import("openBlock");
                    push_str(&mut buf, "(_openBlock(), ");
                    self.render_element(&mut buf, starting_tag, children, true, true);
                    push_char(&mut buf, ')');
                    assert(buf@ =~= root_render(old(self).policy(), *node, old(self).view()).0);
                }
                Some(buf)
            },
            _ => None,
        }
    }

    fn render_fragment(&mut self, out: &mut String, children: &Vec<Node>)
        ensures
            final(out)@ == old(out)@ + fragment_render(old(self).policy(), children@, old(self).view()).0,
            final(self).view() == fragment_render(old(self).policy(), children@, old(self).view()).1,
            final(self).policy() == old(self).policy(),
    {
        let ghost start = out@;
        self.add_import("openBlock");
        self.add_import("createElementBlock");
        self.add_import("Fragment");
        push_str(out, "(_openBlock(), _createElementBlock(_Fragment, null, [");
        self.render_children(out, children, true);
        push_str(out, "]))");
        assert(out@ =~= start + fragment_render(old(self).policy(), children@, old(self).view()).0);
    }

    /// Compiles the template block: the runtime imports, the hoisted
    /// declarations and the render function. A template holding one element
    /// returns that element; one holding more children returns a fragment of
    /// all of them.
    pub fn compile_template(&mut self, template: &Node) -> (r: Result<String, ErrorKind>)
        ensures
            final(self).policy() == old(self).policy(),
            match r {
                Ok(t) => template_output(old(self).policy(), *template, old(self).view()) == Ok::<
                    Seq<char>,
                    ErrorKind,
                >(t@) && template_render(old(self).policy(), *template, old(self).view()) is Some
                    && t@ == template_text(
                    template_render(old(self).policy(), *template, old(self).view()).unwrap().0,
                    template_render(old(self).policy(), *template, old(self).view()).unwrap().1,
                ) && final(self).view() == template_render(
                    old(self).policy(),
                    *template,
                    old(self).view(),
                ).unwrap().1,
                Err(e) => template_output(old(self).policy(), *template, old(self).view()) == Err::<
                    Seq<char>,
                    ErrorKind,
                >(e) && e == ErrorKind::EmptyTemplate && template_render(
                    old(self).policy(),
                    *template,
                    old(self).view(),
                ) is None && final(self).view() == old(self).view(),
            },
    {
        match template {
            Node::ElementNode { children, .. } => {
                let mut k: usize = 0;
                while k < children.len() && !matches!(children[k], Node::ElementNode { .. })
                    invariant
                        k <= children@.len(),
                        first_element_from(children@, 0) == first_element_from(children@, k as int),
                    decreases children.len() - k,
                {
                    k = k + 1;
                }
                if k == children.len() {
                    return Err(ErrorKind::EmptyTemplate);
                }
                let ret = if children.len() == 1 {
                    match self.compile_node(&children[0]) {
                        Some(t) => t,
                        None => return Err(ErrorKind::EmptyTemplate),
                    }
                } else {
                    let mut buf = String::new();
                    self.render_fragment(&mut buf, children);
                    buf
                };
                let ghost s1 = self.view();
                let mut result = String::new();
                self.push_imports(&mut result);
                push_char(&mut result, '\n');
                self.push_hoists(&mut result);
                push_str(&mut result, "\nfunction render(_ctx, _cache, $props, $setup, $data, $options) {\n");
                self.push_components(&mut result);
                push_str(&mut result, "  return ");
                push_str(&mut result, ret.as_str());
                push_str(&mut result, "\n}");
                assert(result@ =~= template_text(ret@, s1));
                Ok(result)
            },
            _ => Err(ErrorKind::EmptyTemplate),
        }
    }
}

fn push_scripts(out: &mut String, legacy: &Option<ScriptAndLang>, setup: &Option<ScriptAndLang>)
    ensures
        final(out)@ == old(out)@ + scripts_text(
            crate::classify::script_view(*legacy),
            crate::classify::script_view(*setup),
        ),
{
    let ghost start = out@;
    push_str(out, "const __sfc__ = {\n");
    match legacy {
        Some(s) => {
            push_str(out, s.content.as_str());
            push_str(out, ",\n");
        },
        None => {},
    }
    match setup {
        Some(s) => {
            push_str(out, "setup($props, { expose }) {\n");
            push_str(out, s.content.as_str());
            push_str(out, "\n},\n");
        },
        None => {},
    }
    push_str(out, "}\n\n");
    assert(out@ =~= start + scripts_text(
        crate::classify::script_view(*legacy),
        crate::classify::script_view(*setup),
    ));
}

/// Compiles the top-level blocks of a component source file into one
/// module: the script object, then the template's imports, hoisted
/// declarations and render function, then the export.
pub fn compile_sfc(blocks: &Vec<Node>, policy: IsCustomElementParam) -> (r: Result<String, ErrorKind>)
    ensures
        match r {
            Ok(t) => sfc_output(blocks@, policy) == Ok::<Seq<char>, ErrorKind>(t@),
            Err(e) => sfc_output(blocks@, policy) == Err::<Seq<char>, ErrorKind>(e),
        },
{
    let found = match classify(blocks) {
        Ok(b) => b,
        Err(e) => return Err(e),
    };
    let mut result = String::new();
    push_scripts(&mut result, &found.legacy_script, &found.setup_script);
    match found.template {
        Some(i) => {
            proof {
                lemma_template_index(blocks@, blocks@.len());
            }
            let mut ctx = CodegenContext::new(policy);
            match ctx.compile_template(&blocks[i]) {
                Ok(t) => {
                    push_str(&mut result, t.as_str());
                    push_str(&mut result, "\n__sfc__.render = render");
                },
                Err(e) => return Err(e),
            }
        },
        None => {},
    }
    push_str(&mut result, "\nexport default __sfc__");
    Ok(result)
}

} // verus!
