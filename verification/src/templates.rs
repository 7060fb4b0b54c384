//! HTML fragments of the generated site.
//!
//! Every function here is a pure string transformation: it wraps its
//! arguments in a fixed piece of markup and nothing else.  Each one's
//! `ensures` pins the result, character for character, to a spec function
//! of the arguments' views, so the rendered pages are a function of the
//! input alone.

use vstd::prelude::*;
use vstd::string::StringExecFns;

verus! {

/// Markup of the document head up to the page title.
pub open spec fn header_pre() -> Seq<char> {
    "<!DOCTYPE html>\n<html lang=\"en\">\n\n    <head>\n        <meta charset=\"utf-8\">\n        <title>"@
}

/// Markup between the page title and the stylesheet path.
pub open spec fn header_mid() -> Seq<char> {
    "</title>\n        <link rel=\"stylesheet\" href=\""@
}

/// Markup closing the document head.
pub open spec fn header_post() -> Seq<char> {
    "\">\n    </head>\n"@
}

/// The document head: fixed shell around a title and a stylesheet path.
pub open spec fn spec_header(title: Seq<char>, stylesheet: Seq<char>) -> Seq<char> {
    header_pre() + title + header_mid() + stylesheet + header_post()
}

/// The body element around a page-specific fragment.
pub open spec fn spec_body(body: Seq<char>) -> Seq<char> {
    "\n    <body>\n        "@ + body + "\n    </body>\n"@
}

/// A top-level heading.
pub open spec fn spec_h1(content: Seq<char>) -> Seq<char> {
    "\n        <h1>"@ + content + "</h1>\n"@
}

/// A paragraph element.
pub open spec fn spec_p(content: Seq<char>) -> Seq<char> {
    "\n        <p>"@ + content + "</p>\n"@
}

/// An anchor element, as `render_a` emits it: wrapped in a paragraph.
pub open spec fn spec_a(href: Seq<char>, text: Seq<char>) -> Seq<char> {
    spec_p("<a href=\""@ + href + "\">"@ + text + "</a>"@)
}

/// One index entry: a list item linking to `posts/<href>.html` with the
/// entry's title as link text.
pub open spec fn spec_list_item(title: Seq<char>, href: Seq<char>) -> Seq<char> {
    "            <li><a href=\"posts/"@ + href + ".html\">"@ + title + "</a></li>\n"@
}

/// The concatenation of the list items of `entries`, in order.  Each entry
/// is a `(title, href)` pair.
pub open spec fn spec_list_items(entries: Seq<(Seq<char>, Seq<char>)>) -> Seq<char>
    decreases entries.len(),
{
    if entries.len() == 0 {
        Seq::<char>::empty()
    } else {
        spec_list_items(entries.drop_last()) + spec_list_item(
            entries.last().0,
            entries.last().1,
        )
    }
}

/// An unordered list of index entries.
pub open spec fn spec_list(entries: Seq<(Seq<char>, Seq<char>)>) -> Seq<char> {
    "\n        <ul>\n"@ + spec_list_items(entries) + "        </ul>\n"@
}

/// The fixed document footer.
pub open spec fn spec_footer() -> Seq<char> {
    "\n</html>\n"@
}

pub fn render_header(title: &str, stylesheet: &str) -> (r: String)
    ensures
        r@ == spec_header(title@, stylesheet@),
{
    let mut r: String =
        "<!DOCTYPE html>\n<html lang=\"en\">\n\n    <head>\n        <meta charset=\"utf-8\">\n        <title>".to_owned();
    r.append(title);
    r.append("</title>\n        <link rel=\"stylesheet\" href=\"");
    r.append(stylesheet);
    r.append("\">\n    </head>\n");
    proof {
        assert(r@ =~= spec_header(title@, stylesheet@));
    }
    r
}

pub fn render_body(body: &str) -> (r: String)
    ensures
        r@ == spec_body(body@),
{
    let mut r: String = "\n    <body>\n        ".to_owned();
    r.append(body);
    r.append("\n    </body>\n");
    proof {
        assert(r@ =~= spec_body(body@));
    }
    r
}

pub fn render_h1(content: &str) -> (r: String)
    ensures
        r@ == spec_h1(content@),
{
    let mut r: String = "\n        <h1>".to_owned();
    r.append(content);
    r.append("</h1>\n");
    proof {
        assert(r@ =~= spec_h1(content@));
    }
    r
}

pub fn render_p(content: &str) -> (r: String)
    ensures
        r@ == spec_p(content@),
{
    let mut r: String = "\n        <p>".to_owned();
    r.append(content);
    r.append("</p>\n");
    proof {
        assert(r@ =~= spec_p(content@));
    }
    r
}

pub fn render_a(href: &str, text: &str) -> (r: String)
    ensures
        r@ == spec_a(href@, text@),
{
    let mut inner: String = "<a href=\"".to_owned();
    inner.append(href);
    inner.append("\">");
    inner.append(text);
    inner.append("</a>");
    let r = render_p(inner.as_str());
    proof {
        assert(r@ =~= spec_a(href@, text@));
    }
    r
}

pub fn render_list(list: &Vec<(String, String)>) -> (r: String)
    ensures
        r@ == spec_list(list.deep_view()),
{
    let mut lis: String = String::new();
    let mut i: usize = 0;
    while i < list.len()
        invariant
            i <= list.len(),
            lis@ == spec_list_items(list.deep_view().take(i as int)),
        decreases list.len() - i,
    {
        lis.append("            <li><a href=\"posts/");
        lis.append(list[i].1.as_str());
        lis.append(".html\">");
        lis.append(list[i].0.as_str());
        lis.append("</a></li>\n");
        proof {
            let entries = list.deep_view();
            assert(entries.take(i + 1).drop_last() =~= entries.take(i as int));
            assert(lis@ =~= spec_list_items(entries.take(i as int)) + spec_list_item(
                entries[i as int].0,
                entries[i as int].1,
            ));
        }
        i = i + 1;
    }
    proof {
        assert(list.deep_view().take(list.len() as int) =~= list.deep_view());
    }
    let mut r: String = "\n        <ul>\n".to_owned();
    r.append(lis.as_str());
    r.append("        </ul>\n");
    proof {
        assert(r@ =~= spec_list(list.deep_view()));
    }
    r
}

/// The fixed document footer, closing the page.
pub fn footer() -> (r: String)
    ensures
        r@ == spec_footer(),
{
    "\n</html>\n".to_owned()
}

/// The static stylesheet of the site.
pub open spec fn spec_stylesheet() -> Seq<char> {
    "\n:root {\n    --bg: #fbf1c7;\n    --bg0_h: #f9f5d7;\n    --bg0: #fbf1c7;\n    --bg1: #f2e5bc;\n    --fg: #3c3836;\n    --highlight: #cc241d;\n    --gray: #928374;\n}\n\nhtml {\n    background: var(--bg);\n    color: var(--fg);\n}\n\nbody {\n    width: 50%;\n    margin: 0 auto;\n    padding: 2em;\n    background: var(--bg0_h);\n    box-shadow: 2px 2px 2px var(--gray);\n}\n\n@media screen and (max-width: 600px) {\n    body {\n        overflow-x: hidden;\n        width: 95%;\n        padding: 0.5em;\n    }\n}\n"@
}

/// The static stylesheet, written once per run beside the index page.
pub fn stylesheet() -> (r: String)
    ensures
        r@ == spec_stylesheet(),
{
    "\n:root {\n    --bg: #fbf1c7;\n    --bg0_h: #f9f5d7;\n    --bg0: #fbf1c7;\n    --bg1: #f2e5bc;\n    --fg: #3c3836;\n    --highlight: #cc241d;\n    --gray: #928374;\n}\n\nhtml {\n    background: var(--bg);\n    color: var(--fg);\n}\n\nbody {\n    width: 50%;\n    margin: 0 auto;\n    padding: 2em;\n    background: var(--bg0_h);\n    box-shadow: 2px 2px 2px var(--gray);\n}\n\n@media screen and (max-width: 600px) {\n    body {\n        overflow-x: hidden;\n        width: 95%;\n        padding: 0.5em;\n    }\n}\n".to_owned()
}

/// A full HTML document: the head shell around `title` and `stylesheet`,
/// the body element around `body_html`, and the closing footer.
pub open spec fn spec_page(title: Seq<char>, stylesheet: Seq<char>, body_html: Seq<char>) -> Seq<
    char,
> {
    spec_header(title, stylesheet) + spec_body(body_html) + spec_footer()
}

/// Wraps a body fragment in the fixed document shell.
pub fn render_page(title: &str, stylesheet: &str, body_html: &str) -> (r: String)
    ensures
        r@ == spec_page(title@, stylesheet@, body_html@),
{
    let mut r = render_header(title, stylesheet);
    r.append(render_body(body_html).as_str());
    r.append("\n</html>\n");
    proof {
        assert(r@ =~= spec_page(title@, stylesheet@, body_html@));
    }
    r
}

} // verus!
