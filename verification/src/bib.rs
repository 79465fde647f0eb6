//! The bibliography data model: one record of metadata per citation key, and
//! the entry pairing a key with its optional record.  A record is absent when
//! the bibliography parser could not produce usable metadata for that key;
//! such entries are skipped by the pipeline, never treated as errors.

use vstd::prelude::*;
use vstd::string::*;

verus! {

/// Bibliographic metadata for one entry: title, display author and year,
/// all pre-formatted strings owned by the external parser's format contract.
pub struct BibRecord {
    pub title: String,
    pub author: String,
    pub year: String,
}

/// Mathematical image of a `BibRecord`: its three fields as character sequences.
pub struct BibRecordV {
    pub title: Seq<char>,
    pub author: Seq<char>,
    pub year: Seq<char>,
}

impl View for BibRecord {
    type V = BibRecordV;

    open spec fn view(&self) -> BibRecordV {
        BibRecordV { title: self.title@, author: self.author@, year: self.year@ }
    }
}

impl DeepView for BibRecord {
    type V = BibRecordV;

    open spec fn deep_view(&self) -> BibRecordV {
        self@
    }
}

/// One bibliography entry: a unique citation key (also the stem of the
/// content file and of the output file) and the optional parsed record.
pub struct BibEntry {
    pub key: String,
    pub record: Option<BibRecord>,
}

/// Mathematical image of a `BibEntry`.
pub struct BibEntryV {
    pub key: Seq<char>,
    pub record: Option<BibRecordV>,
}

impl View for BibEntry {
    type V = BibEntryV;

    open spec fn view(&self) -> BibEntryV {
        BibEntryV { key: self.key@, record: self.record.deep_view() }
    }
}

impl DeepView for BibEntry {
    type V = BibEntryV;

    open spec fn deep_view(&self) -> BibEntryV {
        self@
    }
}

/// The name of the annotation file expected for a key: `key.md`.
pub open spec fn md_name_of(key: Seq<char>) -> Seq<char> {
    key + ".md"@
}

/// The name of the page written for a key: `key.html`.
pub open spec fn html_name_of(key: Seq<char>) -> Seq<char> {
    key + ".html"@
}

/// An entry takes part in content resolution exactly when it has a record;
/// content files are looked up for such entries only, driven by the
/// bibliography keys and never by scanning the content directory.
pub fn needs_content(e: &BibEntry) -> (r: bool)
    ensures
        r == (e@.record is Some),
{
    e.record.is_some()
}

/// The file name under which a key's annotation is looked up.
pub fn content_file_name(key: &str) -> (r: String)
    ensures
        r@ == md_name_of(key@),
{
    let mut s = key.to_owned();
    s.append(".md");
    s
}

/// The file name under which a key's rendered page is written.
pub fn html_file_name(key: &str) -> (r: String)
    ensures
        r@ == html_name_of(key@),
{
    let mut s = key.to_owned();
    s.append(".html");
    s
}

} // verus!
