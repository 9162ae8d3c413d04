//! The table of intrinsic markup tag names.
use vstd::prelude::*;
use crate::text::str_eq;

verus! {

/// Whether `s` names a tag that the runtime renders natively.
pub open spec fn is_html_tag_name(s: Seq<char>) -> bool {
    s == "html"@
        || s == "body"@
        || s == "base"@
        || s == "head"@
        || s == "link"@
        || s == "meta"@
        || s == "style"@
        || s == "title"@
        || s == "address"@
        || s == "article"@
        || s == "aside"@
        || s == "footer"@
        || s == "header"@
        || s == "h1"@
        || s == "h2"@
        || s == "h3"@
        || s == "h4"@
        || s == "h5"@
        || s == "h6"@
        || s == "nav"@
        || s == "section"@
        || s == "div"@
        || s == "dd"@
        || s == "dl"@
        || s == "dt"@
        || s == "figcaption"@
        || s == "figure"@
        || s == "picture"@
        || s == "hr"@
        || s == "img"@
        || s == "li"@
        || s == "main"@
        || s == "ol"@
        || s == "p"@
        || s == "pre"@
        || s == "ul"@
        || s == "a"@
        || s == "b"@
        || s == "abbr"@
        || s == "bdi"@
        || s == "bdo"@
        || s == "br"@
        || s == "cite"@
        || s == "code"@
        || s == "data"@
        || s == "dfn"@
        || s == "em"@
        || s == "i"@
        || s == "kbd"@
        || s == "mark"@
        || s == "q"@
        || s == "rp"@
        || s == "rt"@
        || s == "ruby"@
        || s == "s"@
        || s == "samp"@
        || s == "small"@
        || s == "span"@
        || s == "strong"@
        || s == "sub"@
        || s == "sup"@
        || s == "time"@
        || s == "u"@
        || s == "var"@
        || s == "wbr"@
        || s == "area"@
        || s == "audio"@
        || s == "map"@
        || s == "track"@
        || s == "video"@
        || s == "embed"@
        || s == "object"@
        || s == "param"@
        || s == "source"@
        || s == "canvas"@
        || s == "script"@
        || s == "noscript"@
        || s == "del"@
        || s == "ins"@
        || s == "caption"@
        || s == "col"@
        || s == "colgroup"@
        || s == "table"@
        || s == "thead"@
        || s == "tbody"@
        || s == "td"@
        || s == "th"@
        || s == "tr"@
        || s == "button"@
        || s == "datalist"@
        || s == "fieldset"@
        || s == "form"@
        || s == "input"@
        || s == "label"@
        || s == "legend"@
        || s == "meter"@
        || s == "optgroup"@
        || s == "option"@
        || s == "output"@
        || s == "progress"@
        || s == "select"@
        || s == "textarea"@
        || s == "details"@
        || s == "dialog"@
        || s == "menu"@
        || s == "summary"@
        || s == "template"@
        || s == "blockquote"@
        || s == "iframe"@
        || s == "tfoot"@
}

/// Tells an intrinsic tag name from any other (exact, case-sensitive).
pub fn is_html_tag(name: &str) -> (r: bool)
    ensures
        r == is_html_tag_name(name@),
{
    str_eq(name, "html")
        || str_eq(name, "body")
        || str_eq(name, "base")
        || str_eq(name, "head")
        || str_eq(name, "link")
        || str_eq(name, "meta")
        || str_eq(name, "style")
        || str_eq(name, "title")
        || str_eq(name, "address")
        || str_eq(name, "article")
        || str_eq(name, "aside")
        || str_eq(name, "footer")
        || str_eq(name, "header")
        || str_eq(name, "h1")
        || str_eq(name, "h2")
        || str_eq(name, "h3")
        || str_eq(name, "h4")
        || str_eq(name, "h5")
        || str_eq(name, "h6")
        || str_eq(name, "nav")
        || str_eq(name, "section")
        || str_eq(name, "div")
        || str_eq(name, "dd")
        || str_eq(name, "dl")
        || str_eq(name, "dt")
        || str_eq(name, "figcaption")
        || str_eq(name, "figure")
        || str_eq(name, "picture")
        || str_eq(name, "hr")
        || str_eq(name, "img")
        || str_eq(name, "li")
        || str_eq(name, "main")
        || str_eq(name, "ol")
        || str_eq(name, "p")
        || str_eq(name, "pre")
        || str_eq(name, "ul")
        || str_eq(name, "a")
        || str_eq(name, "b")
        || str_eq(name, "abbr")
        || str_eq(name, "bdi")
        || str_eq(name, "bdo")
        || str_eq(name, "br")
        || str_eq(name, "cite")
        || str_eq(name, "code")
        || str_eq(name, "data")
        || str_eq(name, "dfn")
        || str_eq(name, "em")
        || str_eq(name, "i")
        || str_eq(name, "kbd")
        || str_eq(name, "mark")
        || str_eq(name, "q")
        || str_eq(name, "rp")
        || str_eq(name, "rt")
        || str_eq(name, "ruby")
        || str_eq(name, "s")
        || str_eq(name, "samp")
        || str_eq(name, "small")
        || str_eq(name, "span")
        || str_eq(name, "strong")
        || str_eq(name, "sub")
        || str_eq(name, "sup")
        || str_eq(name, "time")
        || str_eq(name, "u")
        || str_eq(name, "var")
        || str_eq(name, "wbr")
        || str_eq(name, "area")
        || str_eq(name, "audio")
        || str_eq(name, "map")
        || str_eq(name, "track")
        || str_eq(name, "video")
        || str_eq(name, "embed")
        || str_eq(name, "object")
        || str_eq(name, "param")
        || str_eq(name, "source")
        || str_eq(name, "canvas")
        || str_eq(name, "script")
        || str_eq(name, "noscript")
        || str_eq(name, "del")
        || str_eq(name, "ins")
        || str_eq(name, "caption")
        || str_eq(name, "col")
        || str_eq(name, "colgroup")
        || str_eq(name, "table")
        || str_eq(name, "thead")
        || str_eq(name, "tbody")
        || str_eq(name, "td")
        || str_eq(name, "th")
        || str_eq(name, "tr")
        || str_eq(name, "button")
        || str_eq(name, "datalist")
        || str_eq(name, "fieldset")
        || str_eq(name, "form")
        || str_eq(name, "input")
        || str_eq(name, "label")
        || str_eq(name, "legend")
        || str_eq(name, "meter")
        || str_eq(name, "optgroup")
        || str_eq(name, "option")
        || str_eq(name, "output")
        || str_eq(name, "progress")
        || str_eq(name, "select")
        || str_eq(name, "textarea")
        || str_eq(name, "details")
        || str_eq(name, "dialog")
        || str_eq(name, "menu")
        || str_eq(name, "summary")
        || str_eq(name, "template")
        || str_eq(name, "blockquote")
        || str_eq(name, "iframe")
        || str_eq(name, "tfoot")
}

} // verus!
