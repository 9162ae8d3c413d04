//! The markup tree handed to the compiler by the markup front end.
use vstd::prelude::*;
use crate::expr::Expr;

verus! {

/// How the markup front end parsed an element's children.
#[derive(Clone, Copy, Debug, PartialEq, Eq)]
pub enum ElementKind {
    Normal,
    RawText,
    Void,
}

/// A dynamic binding on an element, such as a bound attribute.
#[derive(Debug)]
pub struct VDirective {
    pub name: String,
    pub argument: Option<String>,
    pub value: Option<Expr>,
}

#[derive(Debug)]
pub enum HtmlAttribute {
    Regular { name: String, value: String },
    VDirective(VDirective),
}

#[derive(Debug)]
pub struct StartingTag {
    pub tag_name: String,
    pub attributes: Vec<HtmlAttribute>,
    pub is_self_closing: bool,
    pub kind: ElementKind,
}

#[derive(Debug)]
pub enum Node {
    ElementNode { starting_tag: StartingTag, children: Vec<Node> },
    TextNode(String),
    DynamicExpression(Expr),
    CommentNode(String),
}

impl HtmlAttribute {
    pub open spec fn is_directive(self) -> bool {
        self is VDirective
    }
}

} // verus!
