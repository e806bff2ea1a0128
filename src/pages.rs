//! The HTML pages of the service: the index page and the page of a
//! dictionary entry. Both share one document frame and one head.
use vstd::prelude::*;
use vstd::string::StringExecFns;
use crate::dictionary::{displayed_headword, shown_headword};

verus! {

/// The head shared by every page: character set, viewport, fonts, style, title.
pub const HEAD_HTML_TAG: &'static str = "<head>
<meta charset=UTF-8>
<meta name=viewport content=\"width=device-width\", initial-scale=1.0>
<link rel=preconnect href=https://fonts.googleapis.com>
<link rel=preconnect href=https://fonts.gstatic.com crossorigin>
<link href=\"https://fonts.googleapis.com/css2?family=Inter:wght@200&display=swap\" rel=stylesheet>
<style>
    body {
        font-family: 'Inter', sans-serif;
        margin: 100px auto;
        text-align: center;
        max-width: 500px;
        font-size: 12pt;
    }
    img {
        display: block;
        width: 100%;
    }
    li {
        text-align: left;
    }
</style>
<title>Axum Shuttle demo</title>
</head>";

/// What opens every page, up to the head.
pub const DOCUMENT_START: &'static str = "<!DOCTYPE html>\n<html lang=en>\n";

/// What stands between the head and the body's content.
pub const BODY_START: &'static str = "\n<body>\n";

/// What closes every page after the body's content.
pub const DOCUMENT_END: &'static str = "\n</body>\n</html>";

/// A page around the HTML `body`.
pub open spec fn page_spec(body: Seq<char>) -> Seq<char> {
    DOCUMENT_START@ + HEAD_HTML_TAG@ + BODY_START@ + body + DOCUMENT_END@
}

/// One paragraph per definition, in order.
pub open spec fn paragraphs_spec(definitions: Seq<Seq<char>>) -> Seq<char>
    decreases definitions.len(),
{
    if definitions.len() == 0 {
        Seq::empty()
    } else {
        paragraphs_spec(definitions.drop_last()) + "<p>"@ + definitions.last() + "</p>"@
    }
}

/// The strings of `v`, as sequences of characters.
pub open spec fn strings_view(v: Seq<String>) -> Seq<Seq<char>> {
    v.map_values(|s: String| s@)
}

/// Wraps `body` in the page frame.
pub fn page(body: &str) -> (r: String)
    ensures
        r@ == page_spec(body@),
{
    DOCUMENT_START.to_owned().concat(HEAD_HTML_TAG).concat(BODY_START).concat(body).concat(
        DOCUMENT_END,
    )
}

/// The page of a dictionary entry: the shown characters of its head word as the
/// title, then one paragraph per short definition.
pub fn definition_page(head_word: &str, short_definitions: &Vec<String>) -> (r: String)
    ensures
        r@ == page_spec(
            "<h1>"@ + shown_headword(head_word@) + "</h1>\n"@ + paragraphs_spec(
                strings_view(short_definitions@),
            ),
        ),
{
    let name = displayed_headword(head_word);
    let ghost defs = strings_view(short_definitions@);
    let mut body = "<h1>".to_owned().concat(name.as_str()).concat("</h1>\n");
    let ghost title = body@;
    for i in 0..short_definitions.len()
        invariant
            defs == strings_view(short_definitions@),
            body@ == title + paragraphs_spec(defs.take(i as int)),
    {
        proof {
            assert(defs.take(i + 1).drop_last() =~= defs.take(i as int));
        }
        body = body.concat("<p>").concat(short_definitions[i].as_str()).concat("</p>");
        proof {
            assert(body@ =~= title + paragraphs_spec(defs.take(i + 1)));
        }
    }
    assert(defs.take(short_definitions.len() as int) =~= defs);
    page(body.as_str())
}

/// The HTML that markdown's `to_html` makes of a CommonMark source.
pub uninterp spec fn markdown_html(source: Seq<char>) -> Seq<char>;

/// Relies on `markdown::to_html` (markdown 1.0): CommonMark to HTML under the
/// default options, which never fail; the result depends on the source alone.
#[verifier::external_body]
fn markdown_to_html(source: &str) -> (r: String)
    ensures
        r@ == markdown_html(source@),
{
    markdown::to_html(source)
}

/// The index page: the read-me, rendered from markdown, in the page frame.
pub fn index_page(readme: &str) -> (r: String)
    ensures
        r@ == page_spec(markdown_html(readme@)),
{
    let body = markdown_to_html(readme);
    page(body.as_str())
}

} // verus!
