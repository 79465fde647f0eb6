//! The page renderer: composes the bibliographic header with the converted
//! annotation body and expands the page template around the result.

use vstd::prelude::*;
use vstd::string::*;
use crate::bib::{BibRecord, BibRecordV};
use crate::template::{expand, expand_of, expand_ok_of, PipelineError};

verus! {

/// The header fragment of a page: the title as a heading, then a citation
/// line of author, year and the title once more in emphasis.
pub open spec fn header_of(r: BibRecordV) -> Seq<char> {
    "<header><h1>"@ + r.title + "</h1><cite>"@ + r.author + " ("@ + r.year + ") <em>"@
        + r.title + "</em></cite></header>\n"@
}

/// The raw content of a page: its header fragment followed by the converted
/// annotation body.
pub open spec fn page_body_of(r: BibRecordV, body: Seq<char>) -> Seq<char> {
    header_of(r) + body
}

/// Build the raw content of one page from its record and its converted body.
pub fn page_content(rec: &BibRecord, body: &str) -> (r: String)
    ensures
        r@ == page_body_of(rec@, body@),
{
    let mut s = "<header><h1>".to_owned();
    s.append(rec.title.as_str());
    s.append("</h1><cite>");
    s.append(rec.author.as_str());
    s.append(" (");
    s.append(rec.year.as_str());
    s.append(") <em>");
    s.append(rec.title.as_str());
    s.append("</em></cite></header>\n");
    s.append(body);
    s
}

/// Render one entry's page: wrap the converted body with the header and
/// expand the template with the record's title and the combined content.
/// The call succeeds exactly when that expansion does.
pub fn render_page(rec: &BibRecord, body: &str, tpl: &str) -> (r: Result<String, PipelineError>)
    ensures
        r is Ok <==> expand_ok_of(tpl@, rec@.title, page_body_of(rec@, body@)),
        r matches Ok(s) ==> s@ == expand_of(tpl@, rec@.title, page_body_of(rec@, body@)),
        r is Err ==> r == Err::<String, PipelineError>(PipelineError::TemplateExpansion),
{
    let content = page_content(rec, body);
    expand(tpl, rec.title.as_str(), content.as_str())
}

} // verus!
