//! A small page around a piece of content, as it comes or escaped.

use vstd::prelude::*;
use vstd::string::StringExecFns;

verus! {

/// What one character becomes when escaped: an entity for `&`, `<`, `>` and `"`,
/// itself otherwise.
pub open spec fn escape_char(c: char) -> Seq<char> {
    if c == '&' {
        "&amp;"@
    } else if c == '<' {
        "&lt;"@
    } else if c == '>' {
        "&gt;"@
    } else if c == '"' {
        "&quot;"@
    } else {
        seq![c]
    }
}

/// The text with every character escaped.
pub open spec fn escaped(text: Seq<char>) -> Seq<char>
    decreases text.len(),
{
    if text.len() == 0 {
        Seq::empty()
    } else {
        escaped(text.drop_last()) + escape_char(text.last())
    }
}

/// `html_escape::encode_double_quoted_attribute` replaces `&` by `&amp;`, `<` by
/// `&lt;`, `>` by `&gt;` and `"` by `&quot;`, and leaves every other character as
/// it is.
#[verifier::external_body]
fn escape_attribute(text: &str) -> (safe: String)
    ensures
        safe@ == escaped(text@),
{
    html_escape::encode_double_quoted_attribute(text).into_owned()
}

/// What stands before the content in the page.
pub open spec fn page_head() -> Seq<char> {
    "<html>\n  <head>\n    <title>CCH23 Day 14</title>\n  </head>\n  <body>\n    "@
}

/// What stands after the content in the page.
pub open spec fn page_tail() -> Seq<char> {
    "\n  </body>\n</html>"@
}

/// The page around a piece of content.
pub open spec fn page(content: Seq<char>) -> Seq<char> {
    page_head() + content + page_tail()
}

/// Renders the page around the content as it comes.
pub fn unsafe_html(content: &str) -> (html: String)
    ensures
        html@ == page(content@),
{
    let mut html =
        "<html>\n  <head>\n    <title>CCH23 Day 14</title>\n  </head>\n  <body>\n    ".to_string();
    html.append(content);
    html.append("\n  </body>\n</html>");
    html
}

/// Renders the page around the escaped content.
pub fn safe_html(content: &str) -> (html: String)
    ensures
        html@ == page(escaped(content@)),
{
    let safe = escape_attribute(content);
    unsafe_html(safe.as_str())
}

} // verus!
