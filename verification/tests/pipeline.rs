use biblionotes::bib::{content_file_name, html_file_name, needs_content, BibEntry, BibRecord};
use biblionotes::index::{make_index, IndexRecord};
use biblionotes::pipeline::run;
use biblionotes::render::page_content;
use biblionotes::template::{expand, PipelineError};

fn record(title: &str, author: &str, year: &str) -> BibRecord {
    BibRecord { title: title.to_string(), author: author.to_string(), year: year.to_string() }
}

fn entry(key: &str, rec: Option<BibRecord>) -> BibEntry {
    BibEntry { key: key.to_string(), record: rec }
}

const INTRO: &str = "<h1>Annotated bibliography</h1>\n<p>This is an annotated bibliography of various papers I find interesting. It is automatically generated from a BibTeX file and an archive of Markdown files.</p>\n<ul class=\\\"nonetype\\\">\n";

#[test]
fn file_names_follow_the_key() {
    assert_eq!(content_file_name("A"), "A.md");
    assert_eq!(html_file_name("A"), "A.html");
    assert_eq!(content_file_name("smith2020"), "smith2020.md");
    assert_eq!(html_file_name("smith2020"), "smith2020.html");
}

#[test]
fn resolution_driven_by_bibliography_keys() {
    // Content files are looked up for keyed records only; a stray file in the
    // content directory is never asked for, because the only names the
    // pipeline derives come from bibliography entries that have a record.
    let with_record = entry("A", Some(record("T", "X", "2020")));
    let without_record = entry("B", None);
    assert!(needs_content(&with_record));
    assert!(!needs_content(&without_record));
    assert_eq!(content_file_name("A"), "A.md");
}

#[test]
fn page_content_is_header_then_body() {
    let rec = record("T1", "X", "2020");
    let got = page_content(&rec, "<p>note</p>");
    assert_eq!(
        got,
        "<header><h1>T1</h1><cite>X (2020) <em>T1</em></cite></header>\n<p>note</p>"
    );
}

#[test]
fn expand_substitutes_title_and_content() {
    let out = expand("{{title}}|{{{content}}}", "t", "<p>c</p>").unwrap();
    assert_eq!(out, "t|<p>c</p>");
}

#[test]
fn expand_escapes_plain_substitution() {
    let out = expand("{{content}}", "t", "<b>").unwrap();
    assert_eq!(out, "&lt;b&gt;");
}

#[test]
fn expand_reports_template_failure() {
    let r = expand("{{#each items}}", "t", "c");
    assert!(matches!(r, Err(PipelineError::TemplateExpansion)));
}

#[test]
fn make_index_of_one_record() {
    let recs = vec![IndexRecord {
        filename: "A.html".to_string(),
        author: "X".to_string(),
        year: "2020".to_string(),
        title: "T1".to_string(),
    }];
    let got = make_index(recs);
    let expected = format!("{}<li>X (2020) <a href=\"A.html\">T1</a>\n</ul>", INTRO);
    assert_eq!(got, expected);
}

#[test]
fn make_index_keeps_input_order() {
    let recs = vec![
        IndexRecord {
            filename: "b.html".to_string(),
            author: "B".to_string(),
            year: "2001".to_string(),
            title: "Second".to_string(),
        },
        IndexRecord {
            filename: "a.html".to_string(),
            author: "A".to_string(),
            year: "1999".to_string(),
            title: "First".to_string(),
        },
    ];
    let got = make_index(recs);
    let expected = format!(
        "{}<li>B (2001) <a href=\"b.html\">Second</a>\n<li>A (1999) <a href=\"a.html\">First</a>\n</ul>",
        INTRO
    );
    assert_eq!(got, expected);
}

#[test]
fn index_always_produced_even_when_empty() {
    let got = make_index(Vec::new());
    let expected = format!("{}</ul>", INTRO);
    assert_eq!(got, expected);

    let out = run(&Vec::new(), &Vec::new(), "{{{content}}}").unwrap();
    assert!(out.pages.is_empty());
    assert_eq!(out.index_html, expected);
}

#[test]
fn absent_record_is_skipped() {
    let entries = vec![entry("A", None)];
    let bodies = vec![Some("<p>orphan</p>".to_string())];
    let out = run(&entries, &bodies, "{{{content}}}").unwrap();
    assert!(out.pages.is_empty());
    assert_eq!(out.index_html, format!("{}</ul>", INTRO));
}

#[test]
fn absent_content_is_skipped() {
    let entries = vec![entry("A", Some(record("T1", "X", "2020")))];
    let bodies = vec![None];
    let out = run(&entries, &bodies, "{{{content}}}").unwrap();
    assert!(out.pages.is_empty());
    assert_eq!(out.index_html, format!("{}</ul>", INTRO));
}

#[test]
fn two_records_one_annotated() {
    // Keys `A` (title "T1", author "X", year "2020") and `B` (no record);
    // only `A` has an annotation.  Exactly `A.html` is produced, with header
    // and templated body, and the index holds exactly one item for it.
    let entries = vec![entry("A", Some(record("T1", "X", "2020"))), entry("B", None)];
    let bodies = vec![Some("<p>note</p>".to_string()), None];
    let out = run(&entries, &bodies, "[{{title}}]{{{content}}}").unwrap();

    assert_eq!(out.pages.len(), 1);
    assert_eq!(out.pages[0].filename, "A.html");
    assert_eq!(
        out.pages[0].html,
        "[T1]<header><h1>T1</h1><cite>X (2020) <em>T1</em></cite></header>\n<p>note</p>"
    );

    let expected_index = format!(
        "[Annotated bibliography]{}<li>X (2020) <a href=\"A.html\">T1</a>\n</ul>",
        INTRO
    );
    assert_eq!(out.index_html, expected_index);
}

#[test]
fn index_lists_rendered_entries_in_order() {
    let entries = vec![
        entry("first", Some(record("T1", "A1", "1990"))),
        entry("skipped", Some(record("T2", "A2", "1991"))),
        entry("second", Some(record("T3", "A3", "1992"))),
    ];
    let bodies = vec![Some("b1".to_string()), None, Some("b3".to_string())];
    let out = run(&entries, &bodies, "{{{content}}}").unwrap();

    assert_eq!(out.pages.len(), 2);
    assert_eq!(out.pages[0].filename, "first.html");
    assert_eq!(out.pages[1].filename, "second.html");

    let expected_index = format!(
        "{}<li>A1 (1990) <a href=\"first.html\">T1</a>\n<li>A3 (1992) <a href=\"second.html\">T3</a>\n</ul>",
        INTRO
    );
    assert_eq!(out.index_html, expected_index);
}

#[test]
fn run_is_deterministic() {
    let entries = vec![entry("A", Some(record("T1", "X", "2020"))), entry("B", None)];
    let bodies = vec![Some("<p>note</p>".to_string()), None];
    let tpl = "[{{title}}]{{{content}}}";
    let first = run(&entries, &bodies, tpl).unwrap();
    let second = run(&entries, &bodies, tpl).unwrap();

    assert_eq!(first.pages.len(), second.pages.len());
    for (p, q) in first.pages.iter().zip(second.pages.iter()) {
        assert_eq!(p.filename, q.filename);
        assert_eq!(p.html, q.html);
    }
    assert_eq!(first.index_html, second.index_html);
}

#[test]
fn run_reports_template_failure() {
    let entries = vec![entry("A", Some(record("T1", "X", "2020")))];
    let bodies = vec![Some("<p>note</p>".to_string())];
    let r = run(&entries, &bodies, "{{#each items}}");
    assert!(matches!(r, Err(PipelineError::TemplateExpansion)));
}
