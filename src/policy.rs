//! Deciding whether a tag names a user-defined component.
use vstd::prelude::*;
use regex::Regex;
use crate::html_tags::{is_html_tag, is_html_tag_name};
use crate::text::str_eq;

verus! {

#[verifier::external_type_specification]
#[verifier::external_body]
pub struct ExRegex(Regex);

/// Whether the regular-expression engine accepts `pattern`.
pub uninterp spec fn regex_compiles(pattern: Seq<char>) -> bool;

/// Whether `pattern` matches somewhere in `text`.
pub uninterp spec fn regex_matches(pattern: Seq<char>, text: Seq<char>) -> bool;

/// Relies on regex::Regex::new: it accepts or refuses a pattern on the pattern alone.
#[verifier::external_body]
fn compile_regex(pattern: &str) -> (r: Option<Regex>)
    ensures
        r is Some == regex_compiles(pattern@),
{
    Regex::new(pattern).ok()
}

/// A regular expression together with the pattern it was compiled from.
#[derive(Debug)]
pub struct CompiledPattern {
    source: String,
    re: Regex,
}

impl CompiledPattern {
    pub closed spec fn source(&self) -> Seq<char> {
        self.source@
    }

    /// Compiles `pattern`; `None` where the engine refuses it.
    pub fn new(pattern: &str) -> (r: Option<CompiledPattern>)
        ensures
            r is Some == regex_compiles(pattern@),
            r matches Some(p) ==> p.source() == pattern@,
    {
        match compile_regex(pattern) {
            Some(re) => Some(CompiledPattern { source: pattern.to_owned(), re }),
            None => None,
        }
    }
}

/// Relies on regex::Regex::is_match: whether the pattern matches anywhere in
/// the text, the regex being the one compiled from `p`'s pattern.
#[verifier::external_body]
fn regex_is_match(p: &CompiledPattern, text: &str) -> (r: bool)
    ensures
        r == regex_matches(p.source(), text@),
{
    p.re.is_match(text)
}

/// Which unknown tags are custom elements rather than components; fixed
/// once per compile.
#[derive(Debug)]
pub enum IsCustomElementParam {
    Exact(String),
    Pattern(CompiledPattern),
    Disabled,
}

impl IsCustomElementParam {
    /// Whether the policy claims `tag` as a custom element.
    pub open spec fn claims(&self, tag: Seq<char>) -> bool {
        match self {
            IsCustomElementParam::Exact(s) => s@ == tag,
            IsCustomElementParam::Pattern(p) => regex_matches(p.source(), tag),
            IsCustomElementParam::Disabled => false,
        }
    }

    pub fn matches_tag(&self, tag: &str) -> (r: bool)
        ensures
            r == self.claims(tag@),
    {
        match self {
            IsCustomElementParam::Exact(s) => str_eq(s.as_str(), tag),
            IsCustomElementParam::Pattern(p) => regex_is_match(p, tag),
            IsCustomElementParam::Disabled => false,
        }
    }

    /// A policy that claims the tags that `pattern` matches; `None` where the
    /// pattern does not compile.
    pub fn pattern(pattern: &str) -> (r: Option<IsCustomElementParam>)
        ensures
            r is Some == regex_compiles(pattern@),
            r matches Some(p) ==> forall|t: Seq<char>| p.claims(t) == regex_matches(pattern@, t),
    {
        match CompiledPattern::new(pattern) {
            Some(p) => Some(IsCustomElementParam::Pattern(p)),
            None => None,
        }
    }
}

/// A tag is a component when it is neither intrinsic nor claimed by the policy.
pub open spec fn is_component_tag(policy: IsCustomElementParam, tag: Seq<char>) -> bool {
    !is_html_tag_name(tag) && !policy.claims(tag)
}

/// An intrinsic tag is never a component, whatever the policy claims.
pub proof fn lemma_intrinsic_not_component(policy: IsCustomElementParam, tag: Seq<char>)
    requires
        is_html_tag_name(tag),
    ensures
        !is_component_tag(policy, tag),
{
}

/// Decides component identity of `tag` under `policy`.
pub fn tag_is_component(policy: &IsCustomElementParam, tag: &str) -> (r: bool)
    ensures
        r == is_component_tag(*policy, tag@),
{
    if is_html_tag(tag) {
        return false;
    }
    !policy.matches_tag(tag)
}

} // verus!
