//! The index builder: one summary record per rendered page, accumulated in
//! bibliography order, turned into a listing fragment with a fixed
//! introduction and one list item per record.

use vstd::prelude::*;
use vstd::string::*;
use crate::bib::{html_name_of, BibRecord};

verus! {

/// The summary kept for one rendered page, in the order the entries were
/// encountered; the listing page is built from these records alone.
pub struct IndexRecord {
    pub filename: String,
    pub author: String,
    pub year: String,
    pub title: String,
}

/// Mathematical image of an `IndexRecord`.
pub struct IndexRecordV {
    pub filename: Seq<char>,
    pub author: Seq<char>,
    pub year: Seq<char>,
    pub title: Seq<char>,
}

impl View for IndexRecord {
    type V = IndexRecordV;

    open spec fn view(&self) -> IndexRecordV {
        IndexRecordV {
            filename: self.filename@,
            author: self.author@,
            year: self.year@,
            title: self.title@,
        }
    }
}

impl DeepView for IndexRecord {
    type V = IndexRecordV;

    open spec fn deep_view(&self) -> IndexRecordV {
        self@
    }
}

/// The summary record for a rendered entry: the page file name derived from
/// the key, and the record's author, year and title copied unchanged.
pub fn index_record_for(key: &str, rec: &BibRecord) -> (r: IndexRecord)
    ensures
        r@.filename == html_name_of(key@),
        r@.author == rec@.author,
        r@.year == rec@.year,
        r@.title == rec@.title,
{
    IndexRecord {
        filename: crate::bib::html_file_name(key),
        author: rec.author.clone(),
        year: rec.year.clone(),
        title: rec.title.clone(),
    }
}

/// The fixed introduction of the listing: heading, description, and the
/// opening of the list.
pub open spec fn index_intro() -> Seq<char> {
    "<h1>Annotated bibliography</h1>\n<p>This is an annotated bibliography of various papers I find interesting. It is automatically generated from a BibTeX file and an archive of Markdown files.</p>\n<ul class=\\\"nonetype\\\">\n"@
}

/// One list item: author, year in parentheses, then the title linking to the
/// page file, in that exact field order.
pub open spec fn item_of(r: IndexRecordV) -> Seq<char> {
    "<li>"@ + r.author + " ("@ + r.year + ") <a href=\""@ + r.filename + "\">"@ + r.title
        + "</a>\n"@
}

/// The list items of the records, concatenated in input order.
pub open spec fn items_of(rs: Seq<IndexRecordV>) -> Seq<char>
    decreases rs.len(),
{
    if rs.len() == 0 {
        Seq::empty()
    } else {
        items_of(rs.drop_last()) + item_of(rs.last())
    }
}

/// The whole listing fragment: introduction, one item per record in order,
/// and the closing of the list.
pub open spec fn index_body_of(rs: Seq<IndexRecordV>) -> Seq<char> {
    index_intro() + items_of(rs) + "</ul>"@
}

/// Build one list item for a record.
pub fn index_item(rec: &IndexRecord) -> (r: String)
    ensures
        r@ == item_of(rec@),
{
    let mut s = "<li>".to_owned();
    s.append(rec.author.as_str());
    s.append(" (");
    s.append(rec.year.as_str());
    s.append(") <a href=\"");
    s.append(rec.filename.as_str());
    s.append("\">");
    s.append(rec.title.as_str());
    s.append("</a>\n");
    s
}

/// Build the listing fragment for the given records: the fixed introduction,
/// then exactly one list item per record in input order, then the closing
/// tag.  No sorting is performed; the order is the caller's.
pub fn make_index(index: Vec<IndexRecord>) -> (r: String)
    ensures
        r@ == index_body_of(index.deep_view()),
{
    let ghost recs: Seq<IndexRecordV> = index.deep_view();
    let mut s =
        "<h1>Annotated bibliography</h1>\n<p>This is an annotated bibliography of various papers I find interesting. It is automatically generated from a BibTeX file and an archive of Markdown files.</p>\n<ul class=\\\"nonetype\\\">\n".to_owned();
    let mut i: usize = 0;
    while i < index.len()
        invariant
            0 <= i <= index.len(),
            recs == index.deep_view(),
            recs.len() == index.len(),
            s@ == index_intro() + items_of(recs.take(i as int)),
        decreases index.len() - i,
    {
        let item = index_item(&index[i]);
        s.append(item.as_str());
        proof {
            assert(recs.take(i + 1 as int).drop_last() =~= recs.take(i as int));
            assert(recs.take(i + 1 as int).last() == recs[i as int]);
            assert(s@ =~= index_intro() + items_of(recs.take(i + 1 as int)));
        }
        i = i + 1;
    }
    s.append("</ul>");
    proof {
        assert(recs.take(recs.len() as int) =~= recs);
        assert(s@ =~= index_body_of(recs));
    }
    s
}

} // verus!
