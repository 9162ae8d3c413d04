//! Picking the template and the script sections out of the top-level blocks.
use vstd::prelude::*;
use crate::ast::{HtmlAttribute, Node};
use crate::text::str_eq;

verus! {

/// Why a compile failed.
#[derive(Clone, Copy, Debug, PartialEq, Eq, Structural)]
pub enum ErrorKind {
    /// A template or script declares a language this compiler does not take.
    UnsupportedLanguage,
    /// A script has children but the first is not text.
    MalformedScript,
    /// Neither a template nor a script was found.
    NoContent,
    /// The template holds nothing to render.
    EmptyTemplate,
}

/// The source text of a script section and its language.
#[derive(Debug)]
pub struct ScriptAndLang {
    pub content: String,
    pub lang: String,
}

/// The sections found among the top-level blocks.
#[derive(Debug)]
pub struct SfcBlocks {
    /// Index of the template block.
    pub template: Option<usize>,
    pub legacy_script: Option<ScriptAndLang>,
    pub setup_script: Option<ScriptAndLang>,
}

pub struct BlocksView {
    pub template: Option<int>,
    pub legacy_script: Option<(Seq<char>, Seq<char>)>,
    pub setup_script: Option<(Seq<char>, Seq<char>)>,
}

pub open spec fn script_view(s: Option<ScriptAndLang>) -> Option<(Seq<char>, Seq<char>)> {
    match s {
        Some(s) => Some((s.content@, s.lang@)),
        None => None,
    }
}

impl SfcBlocks {
    pub open spec fn view(&self) -> BlocksView {
        BlocksView {
            template: match self.template {
                Some(i) => Some(i as int),
                None => None,
            },
            legacy_script: script_view(self.legacy_script),
            setup_script: script_view(self.setup_script),
        }
    }
}

/// The value of the first regular attribute named `lang`, from position `k` on.
pub open spec fn lang_from(attrs: Seq<HtmlAttribute>, k: int) -> Option<Seq<char>>
    decreases attrs.len() - k,
{
    if k < 0 || k >= attrs.len() {
        None
    } else {
        match attrs[k] {
            HtmlAttribute::Regular { name, value } => if name@ == "lang"@ {
                Some(value@)
            } else {
                lang_from(attrs, k + 1)
            },
            _ => lang_from(attrs, k + 1),
        }
    }
}

pub open spec fn lang_of(attrs: Seq<HtmlAttribute>) -> Option<Seq<char>> {
    lang_from(attrs, 0)
}

/// Whether a regular attribute named `setup` is present.
pub open spec fn has_setup(attrs: Seq<HtmlAttribute>) -> bool {
    exists|i: int| 0 <= i < attrs.len() && is_setup_attr(#[trigger] attrs[i])
}

pub open spec fn is_setup_attr(a: HtmlAttribute) -> bool {
    match a {
        HtmlAttribute::Regular { name, .. } => name@ == "setup"@,
        _ => false,
    }
}

pub open spec fn template_lang_ok(lang: Option<Seq<char>>) -> bool {
    match lang {
        None => true,
        Some(l) => l == "html"@,
    }
}

pub open spec fn script_lang_ok(lang: Option<Seq<char>>) -> bool {
    match lang {
        None => true,
        Some(l) => l == "js"@ || l == "ts"@,
    }
}

pub open spec fn no_blocks() -> BlocksView {
    BlocksView { template: None, legacy_script: None, setup_script: None }
}

/// The effect of top-level block number `i` on what was found so far.
pub open spec fn classify_step(acc: BlocksView, i: int, block: Node) -> Result<BlocksView, ErrorKind> {
    match block {
        Node::ElementNode { starting_tag, children } => {
            let lang = lang_of(starting_tag.attributes@);
            let tag = starting_tag.tag_name@;
            if tag == "template"@ {
                if !template_lang_ok(lang) {
                    Err(ErrorKind::UnsupportedLanguage)
                } else {
                    Ok(BlocksView { template: Some(i), ..acc })
                }
            } else if tag == "script"@ && children.len() > 0 {
                if !script_lang_ok(lang) {
                    Err(ErrorKind::UnsupportedLanguage)
                } else {
                    match children@[0] {
                        Node::TextNode(content) => {
                            let script = (
                                content@,
                                match lang {
                                    Some(l) => l,
                                    None => "js"@,
                                },
                            );
                            if has_setup(starting_tag.attributes@) {
                                Ok(BlocksView { setup_script: Some(script), ..acc })
                            } else {
                                Ok(BlocksView { legacy_script: Some(script), ..acc })
                            }
                        },
                        _ => Err(ErrorKind::MalformedScript),
                    }
                }
            } else {
                Ok(acc)
            }
        },
        _ => Ok(acc),
    }
}

/// What the first `n` blocks give, scanned in order; the first failure stops the scan.
pub open spec fn classify_prefix(blocks: Seq<Node>, n: nat) -> Result<BlocksView, ErrorKind>
    decreases n,
{
    if n == 0 || n > blocks.len() {
        Ok(no_blocks())
    } else {
        match classify_prefix(blocks, (n - 1) as nat) {
            Err(e) => Err(e),
            Ok(acc) => classify_step(acc, n - 1, blocks[n - 1]),
        }
    }
}

/// The sections of a component source file, or why there are none to compile.
pub open spec fn classify_spec(blocks: Seq<Node>) -> Result<BlocksView, ErrorKind> {
    match classify_prefix(blocks, blocks.len()) {
        Err(e) => Err(e),
        Ok(c) => if c.template is None && c.legacy_script is None && c.setup_script is None {
            Err(ErrorKind::NoContent)
        } else {
            Ok(c)
        },
    }
}

proof fn lemma_failure_stops_scan(blocks: Seq<Node>, i: nat, n: nat)
    requires
        i <= n <= blocks.len(),
        classify_prefix(blocks, i) is Err,
    ensures
        classify_prefix(blocks, n) == classify_prefix(blocks, i),
    decreases n - i,
{
    if i < n {
        lemma_failure_stops_scan(blocks, i, (n - 1) as nat);
    }
}

/// A template index that a scan records lies among the blocks scanned.
pub proof fn lemma_template_index(blocks: Seq<Node>, n: nat)
    requires
        n <= blocks.len(),
        classify_prefix(blocks, n) matches Ok(b) && b.template is Some,
    ensures
        classify_prefix(blocks, n) matches Ok(b) && 0 <= b.template->0 < n,
    decreases n,
{
    if n > 0 {
        if let Ok(acc) = classify_prefix(blocks, (n - 1) as nat) {
            if acc.template is Some {
                lemma_template_index(blocks, (n - 1) as nat);
            }
        }
    }
}


/// Whether `node` is a block that the scan takes up: a template, or a
/// script with content.
pub open spec fn is_section(node: Node) -> bool {
    match node {
        Node::ElementNode { starting_tag, children } => starting_tag.tag_name@ == "template"@
            || (starting_tag.tag_name@ == "script"@ && children.len() > 0),
        _ => false,
    }
}

proof fn lemma_prefix_without_sections(blocks: Seq<Node>, n: nat)
    requires
        n <= blocks.len(),
        forall|i: int| 0 <= i < blocks.len() ==> !is_section(#[trigger] blocks[i]),
    ensures
        classify_prefix(blocks, n) == Ok::<BlocksView, ErrorKind>(no_blocks()),
    decreases n,
{
    if n > 0 {
        lemma_prefix_without_sections(blocks, (n - 1) as nat);
        assert(!is_section(blocks[n - 1]));
    }
}

/// Blocks among which there is neither a template nor a script with
/// content give no content to compile.
pub proof fn lemma_no_sections_no_content(blocks: Seq<Node>)
    requires
        forall|i: int| 0 <= i < blocks.len() ==> !is_section(#[trigger] blocks[i]),
    ensures
        classify_spec(blocks) == Err::<BlocksView, ErrorKind>(ErrorKind::NoContent),
{
    lemma_prefix_without_sections(blocks, blocks.len());
}

/// A template whose language is not html fails the scan with
/// `UnsupportedLanguage`, whatever the blocks after it hold, once the
/// blocks before it were accepted.
pub proof fn lemma_unsupported_template(blocks: Seq<Node>, i: int)
    requires
        0 <= i < blocks.len(),
        blocks[i] matches Node::ElementNode { starting_tag, .. } && starting_tag.tag_name@
            == "template"@ && !template_lang_ok(lang_of(starting_tag.attributes@)),
        classify_prefix(blocks, i as nat) is Ok,
    ensures
        classify_spec(blocks) == Err::<BlocksView, ErrorKind>(ErrorKind::UnsupportedLanguage),
{
    assert(classify_prefix(blocks, (i + 1) as nat) == Err::<BlocksView, ErrorKind>(
        ErrorKind::UnsupportedLanguage,
    ));
    lemma_failure_stops_scan(blocks, (i + 1) as nat, blocks.len());
}

/// A script with content whose language is neither js nor ts fails the scan
/// with `UnsupportedLanguage` once the blocks before it were accepted.
pub proof fn lemma_unsupported_script(blocks: Seq<Node>, i: int)
    requires
        0 <= i < blocks.len(),
        blocks[i] matches Node::ElementNode { starting_tag, children } && starting_tag.tag_name@
            == "script"@ && children.len() > 0 && !script_lang_ok(
            lang_of(starting_tag.attributes@),
        ),
        classify_prefix(blocks, i as nat) is Ok,
    ensures
        classify_spec(blocks) == Err::<BlocksView, ErrorKind>(ErrorKind::UnsupportedLanguage),
{
    reveal_strlit("script");
    reveal_strlit("template");
    assert("script"@ != "template"@) by {
        assert("script"@[0] != "template"@[0]);
    }
    assert(classify_prefix(blocks, (i + 1) as nat) == Err::<BlocksView, ErrorKind>(
        ErrorKind::UnsupportedLanguage,
    ));
    lemma_failure_stops_scan(blocks, (i + 1) as nat, blocks.len());
}

fn find_lang(attrs: &Vec<HtmlAttribute>) -> (r: Option<String>)
    ensures
        match r {
            Some(s) => lang_of(attrs@) == Some(s@),
            None => lang_of(attrs@) is None,
        },
{
    let mut i: usize = 0;
    while i < attrs.len()
        invariant
            i <= attrs@.len(),
            lang_of(attrs@) == lang_from(attrs@, i as int),
        decreases attrs.len() - i,
    {
        match &attrs[i] {
            HtmlAttribute::Regular { name, value } => {
                if str_eq(name.as_str(), "lang") {
                    return Some(value.clone());
                }
            },
            _ => {},
        }
        i = i + 1;
    }
    None
}

fn find_setup(attrs: &Vec<HtmlAttribute>) -> (r: bool)
    ensures
        r == has_setup(attrs@),
{
    let mut i: usize = 0;
    while i < attrs.len()
        invariant
            i <= attrs@.len(),
            forall|k: int| 0 <= k < i ==> !is_setup_attr(#[trigger] attrs@[k]),
        decreases attrs.len() - i,
    {
        match &attrs[i] {
            HtmlAttribute::Regular { name, .. } => {
                if str_eq(name.as_str(), "setup") {
                    return true;
                }
            },
            _ => {},
        }
        i = i + 1;
    }
    false
}

/// Scans the top-level blocks for the template and the two script slots.
/// A later block of the same kind replaces an earlier one.
pub fn classify(blocks: &Vec<Node>) -> (r: Result<SfcBlocks, ErrorKind>)
    ensures
        match r {
            Ok(b) => classify_spec(blocks@) == Ok::<BlocksView, ErrorKind>(b.view()),
            Err(e) => classify_spec(blocks@) == Err::<BlocksView, ErrorKind>(e),
        },
{
    let mut acc = SfcBlocks { template: None, legacy_script: None, setup_script: None };
    let mut i: usize = 0;
    while i < blocks.len()
        invariant
            i <= blocks@.len(),
            classify_prefix(blocks@, i as nat) == Ok::<BlocksView, ErrorKind>(acc.view()),
        decreases blocks.len() - i,
    {
        match &blocks[i] {
            Node::ElementNode { starting_tag, children } => {
                let lang = find_lang(&starting_tag.attributes);
                if str_eq(starting_tag.tag_name.as_str(), "template") {
                    let ok = match &lang {
                        None => true,
                        Some(l) => str_eq(l.as_str(), "html"),
                    };
                    if !ok {
                        proof {
                            lemma_failure_stops_scan(blocks@, (i + 1) as nat, blocks@.len());
                        }
                        return Err(ErrorKind::UnsupportedLanguage);
                    }
                    acc.template = Some(i);
                } else if str_eq(starting_tag.tag_name.as_str(), "script") && children.len() > 0 {
                    let ok = match &lang {
                        None => true,
                        Some(l) => str_eq(l.as_str(), "js") || str_eq(l.as_str(), "ts"),
                    };
                    if !ok {
                        proof {
                            lemma_failure_stops_scan(blocks@, (i + 1) as nat, blocks@.len());
                        }
                        return Err(ErrorKind::UnsupportedLanguage);
                    }
                    let content = match &children[0] {
                        Node::TextNode(t) => t.clone(),
                        _ => {
                            proof {
                                lemma_failure_stops_scan(blocks@, (i + 1) as nat, blocks@.len());
                            }
                            return Err(ErrorKind::MalformedScript);
                        },
                    };
                    let lang_text = match lang {
                        Some(l) => l,
                        None => "js".to_owned(),
                    };
                    let script = ScriptAndLang { content, lang: lang_text };
                    if find_setup(&starting_tag.attributes) {
                        acc.setup_script = Some(script);
                    } else {
                        acc.legacy_script = Some(script);
                    }
                }
            },
            _ => {},
        }
        i = i + 1;
    }
    if acc.template.is_none() && acc.legacy_script.is_none() && acc.setup_script.is_none() {
        return Err(ErrorKind::NoContent);
    }
    Ok(acc)
}

} // verus!
