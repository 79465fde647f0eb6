//! The pipeline driver: walks the bibliography entries in order, skips the
//! ones without a usable record or without a resolved annotation body, turns
//! each remaining entry into one output page and one index record, and always
//! closes the run by building the listing page.
//!
//! The caller resolves annotation files and converts their markup; this
//! module receives the converted body for each entry (or its absence) and is
//! verified for every such outcome.

use vstd::prelude::*;
use crate::bib::{html_name_of, BibEntry, BibEntryV, BibRecordV};
use crate::index::{
    index_body_of, index_intro, index_record_for, make_index, IndexRecord, IndexRecordV,
};
use crate::render::{page_body_of, render_page};
use crate::template::{expand, expand_of, expand_ok_of, PipelineError};

verus! {

/// One page to be written: its file name and its full HTML text.
pub struct OutputPage {
    pub filename: String,
    pub html: String,
}

/// Mathematical image of an `OutputPage`.
pub struct OutputPageV {
    pub filename: Seq<char>,
    pub html: Seq<char>,
}

impl View for OutputPage {
    type V = OutputPageV;

    open spec fn view(&self) -> OutputPageV {
        OutputPageV { filename: self.filename@, html: self.html@ }
    }
}

impl DeepView for OutputPage {
    type V = OutputPageV;

    open spec fn deep_view(&self) -> OutputPageV {
        self@
    }
}

/// Everything a successful run writes: the per-entry pages in bibliography
/// order, and the listing page.
pub struct RunOutput {
    pub pages: Vec<OutputPage>,
    pub index_html: String,
}

/// One entry that the run renders: its key, its record, and the converted
/// body of its annotation.
pub struct RenderedV {
    pub key: Seq<char>,
    pub rec: BibRecordV,
    pub body: Seq<char>,
}

/// The entries a run renders: those with both a record and a resolved body,
/// in bibliography order.  An entry without a record, or without a body, is
/// skipped and leaves no trace.
pub open spec fn rendered_of(es: Seq<BibEntryV>, bs: Seq<Option<Seq<char>>>) -> Seq<RenderedV>
    decreases es.len(),
{
    if es.len() == 0 || bs.len() == 0 {
        Seq::empty()
    } else {
        rendered_of(es.drop_last(), bs.drop_last()) + (if es.last().record is Some
            && bs.last() is Some {
            seq![
                RenderedV {
                    key: es.last().key,
                    rec: es.last().record->0,
                    body: bs.last()->0,
                },
            ]
        } else {
            Seq::empty()
        })
    }
}

/// The page written for one rendered entry: `key.html`, holding the template
/// expansion of the header-plus-body content under the record's title.
pub open spec fn page_of_rendered(rv: RenderedV, tpl: Seq<char>) -> OutputPageV {
    OutputPageV {
        filename: html_name_of(rv.key),
        html: expand_of(tpl, rv.rec.title, page_body_of(rv.rec, rv.body)),
    }
}

/// The index record kept for one rendered entry.
pub open spec fn index_record_of_rendered(rv: RenderedV) -> IndexRecordV {
    IndexRecordV {
        filename: html_name_of(rv.key),
        author: rv.rec.author,
        year: rv.rec.year,
        title: rv.rec.title,
    }
}

/// The pages a run writes, one per rendered entry, in order.
pub open spec fn pages_of(
    es: Seq<BibEntryV>,
    bs: Seq<Option<Seq<char>>>,
    tpl: Seq<char>,
) -> Seq<OutputPageV> {
    rendered_of(es, bs).map_values(|rv: RenderedV| page_of_rendered(rv, tpl))
}

/// The index records a run accumulates, one per rendered entry, in order.
pub open spec fn index_records_of(
    es: Seq<BibEntryV>,
    bs: Seq<Option<Seq<char>>>,
) -> Seq<IndexRecordV> {
    rendered_of(es, bs).map_values(|rv: RenderedV| index_record_of_rendered(rv))
}

/// Whether the expansion of one rendered entry's page succeeds.
pub open spec fn page_expand_ok(rv: RenderedV, tpl: Seq<char>) -> bool {
    expand_ok_of(tpl, rv.rec.title, page_body_of(rv.rec, rv.body))
}

/// Whether a whole run succeeds: every rendered entry's page expansion
/// succeeds, and so does the expansion of the listing page.
pub open spec fn run_ok_of(es: Seq<BibEntryV>, bs: Seq<Option<Seq<char>>>, tpl: Seq<char>) -> bool {
    &&& forall|j: int|
        0 <= j < rendered_of(es, bs).len() ==> page_expand_ok(
            #[trigger] rendered_of(es, bs)[j],
            tpl,
        )
    &&& expand_ok_of(tpl, index_title(), index_body_of(index_records_of(es, bs)))
}

/// The title under which the listing page is expanded.
pub open spec fn index_title() -> Seq<char> {
    "Annotated bibliography"@
}

/// The full HTML of the listing page of a run.
pub open spec fn index_page_of(
    es: Seq<BibEntryV>,
    bs: Seq<Option<Seq<char>>>,
    tpl: Seq<char>,
) -> Seq<char> {
    expand_of(tpl, index_title(), index_body_of(index_records_of(es, bs)))
}

proof fn lemma_rendered_take_prefix(es: Seq<BibEntryV>, bs: Seq<Option<Seq<char>>>, k: int)
    requires
        es.len() == bs.len(),
        0 <= k <= es.len(),
    ensures
        rendered_of(es.take(k), bs.take(k)).len() <= rendered_of(es, bs).len(),
        forall|j: int|
            0 <= j < rendered_of(es.take(k), bs.take(k)).len() ==> rendered_of(es, bs)[j]
                == #[trigger] rendered_of(es.take(k), bs.take(k))[j],
    decreases es.len() - k,
{
    if k == es.len() {
        assert(es.take(k) =~= es);
        assert(bs.take(k) =~= bs);
    } else {
        lemma_rendered_take_prefix(es, bs, k + 1);
        assert(es.take(k + 1).drop_last() =~= es.take(k));
        assert(bs.take(k + 1).drop_last() =~= bs.take(k));
        assert(rendered_of(es.take(k), bs.take(k)).len() <= rendered_of(
            es.take(k + 1),
            bs.take(k + 1),
        ).len());
        assert(forall|j: int|
            0 <= j < rendered_of(es.take(k), bs.take(k)).len() ==> rendered_of(
                es.take(k + 1),
                bs.take(k + 1),
            )[j] == #[trigger] rendered_of(es.take(k), bs.take(k))[j]);
    }
}

/// Run the pipeline over the entries and their resolved bodies.  `bodies[i]`
/// is the converted annotation of `entries[i]`, or `None` when that entry has
/// no annotation file.  On success the output holds exactly one page per
/// rendered entry, in bibliography order, and the listing page, which is
/// produced even when no entry was rendered.  The run succeeds exactly when
/// every rendered entry's expansion and the listing expansion succeed; the
/// only failure is a template expansion failure, which aborts the whole run.
pub fn run(entries: &Vec<BibEntry>, bodies: &Vec<Option<String>>, tpl: &str) -> (r: Result<
    RunOutput,
    PipelineError,
>)
    requires
        entries@.len() == bodies@.len(),
    ensures
        r is Ok <==> run_ok_of(entries.deep_view(), bodies.deep_view(), tpl@),
        r matches Ok(out) ==> {
            &&& out.pages.deep_view() == pages_of(entries.deep_view(), bodies.deep_view(), tpl@)
            &&& out.index_html@ == index_page_of(entries.deep_view(), bodies.deep_view(), tpl@)
        },
        r is Err ==> r == Err::<RunOutput, PipelineError>(PipelineError::TemplateExpansion),
{
    let ghost ev: Seq<BibEntryV> = entries.deep_view();
    let ghost bv: Seq<Option<Seq<char>>> = bodies.deep_view();
    let mut pages: Vec<OutputPage> = Vec::new();
    let mut index: Vec<IndexRecord> = Vec::new();
    let mut i: usize = 0;
    while i < entries.len()
        invariant
            0 <= i <= entries.len(),
            entries@.len() == bodies@.len(),
            ev == entries.deep_view(),
            bv == bodies.deep_view(),
            ev.len() == entries@.len(),
            bv.len() == bodies@.len(),
            pages.deep_view() == rendered_of(ev.take(i as int), bv.take(i as int)).map_values(
                |rv: RenderedV| page_of_rendered(rv, tpl@),
            ),
            index.deep_view() == rendered_of(ev.take(i as int), bv.take(i as int)).map_values(
                |rv: RenderedV| index_record_of_rendered(rv),
            ),
            forall|j: int|
                0 <= j < rendered_of(ev.take(i as int), bv.take(i as int)).len()
                    ==> page_expand_ok(
                    #[trigger] rendered_of(ev.take(i as int), bv.take(i as int))[j],
                    tpl@,
                ),
        decreases entries@.len() - i,
    {
        let entry = &entries[i];
        proof {
            assert(ev.take(i + 1 as int).drop_last() =~= ev.take(i as int));
            assert(bv.take(i + 1 as int).drop_last() =~= bv.take(i as int));
            assert(ev.take(i + 1 as int).last() == ev[i as int]);
            assert(bv.take(i + 1 as int).last() == bv[i as int]);
            assert(ev[i as int] == entry@);
            assert(bv[i as int] == bodies@[i as int].deep_view());
        }
        match (&entry.record, &bodies[i]) {
            (Some(rec), Some(body)) => {
                let ghost rv = RenderedV { key: entry@.key, rec: rec@, body: body@ };
                proof {
                    assert(entry@.record == Some(rec.deep_view()));
                    assert(bv[i as int] == Some(body@));
                    assert(rendered_of(ev.take(i + 1 as int), bv.take(i + 1 as int)) =~= rendered_of(
                        ev.take(i as int),
                        bv.take(i as int),
                    ).push(rv));
                }
                let html = match render_page(rec, body.as_str(), tpl) {
                    Ok(html) => html,
                    Err(e) => {
                        proof {
                            let jx = rendered_of(ev.take(i as int), bv.take(i as int)).len() as int;
                            lemma_rendered_take_prefix(ev, bv, i + 1 as int);
                            assert(rendered_of(ev.take(i + 1 as int), bv.take(i + 1 as int))[jx]
                                == rv);
                            assert(rendered_of(ev, bv)[jx] == rv);
                            assert(!page_expand_ok(rv, tpl@));
                            assert(!run_ok_of(ev, bv, tpl@));
                        }
                        return Err(e);
                    },
                };
                let page = OutputPage {
                    filename: crate::bib::html_file_name(entry.key.as_str()),
                    html,
                };
                let irec = index_record_for(entry.key.as_str(), rec);
                let ghost pdv = pages.deep_view();
                let ghost idv = index.deep_view();
                let ghost pv = page@;
                let ghost iv = irec@;
                pages.push(page);
                index.push(irec);
                proof {
                    assert(pv == page_of_rendered(rv, tpl@));
                    assert(iv == index_record_of_rendered(rv));
                    assert(pages.deep_view() =~= pdv.push(pv));
                    assert(index.deep_view() =~= idv.push(iv));
                    assert(page_expand_ok(rv, tpl@));
                    assert forall|j: int|
                        0 <= j < rendered_of(ev.take(i + 1 as int), bv.take(i + 1 as int)).len()
                            implies page_expand_ok(
                        #[trigger] rendered_of(ev.take(i + 1 as int), bv.take(i + 1 as int))[j],
                        tpl@,
                    ) by {
                        if j < rendered_of(ev.take(i as int), bv.take(i as int)).len() {
                            assert(rendered_of(ev.take(i + 1 as int), bv.take(i + 1 as int))[j]
                                == rendered_of(ev.take(i as int), bv.take(i as int))[j]);
                        } else {
                            assert(rendered_of(ev.take(i + 1 as int), bv.take(i + 1 as int))[j]
                                == rv);
                        }
                    }
                    assert(pages.deep_view() =~= rendered_of(
                        ev.take(i + 1 as int),
                        bv.take(i + 1 as int),
                    ).map_values(|rv: RenderedV| page_of_rendered(rv, tpl@)));
                    assert(index.deep_view() =~= rendered_of(
                        ev.take(i + 1 as int),
                        bv.take(i + 1 as int),
                    ).map_values(|rv: RenderedV| index_record_of_rendered(rv)));
                }
            },
            _ => {
                proof {
                    assert(rendered_of(ev.take(i + 1 as int), bv.take(i + 1 as int)) =~= rendered_of(
                        ev.take(i as int),
                        bv.take(i as int),
                    ));
                }
            },
        }
        i = i + 1;
    }
    proof {
        assert(ev.take(ev.len() as int) =~= ev);
        assert(bv.take(bv.len() as int) =~= bv);
        assert(index.deep_view() == index_records_of(ev, bv));
    }
    let listing = make_index(index);
    proof {
        assert(listing@ == index_body_of(index_records_of(ev, bv)));
    }
    let index_html = match expand(tpl, "Annotated bibliography", listing.as_str()) {
        Ok(s) => {
            proof {
                assert(run_ok_of(ev, bv, tpl@));
            }
            s
        },
        Err(e) => {
            proof {
                assert(!expand_ok_of(tpl@, index_title(), index_body_of(index_records_of(ev, bv))));
                assert(!run_ok_of(ev, bv, tpl@));
            }
            return Err(e);
        },
    };
    Ok(RunOutput { pages, index_html })
}

proof fn lemma_skipped_excluded(es: Seq<BibEntryV>, bs: Seq<Option<Seq<char>>>, i: int)
    requires
        es.len() == bs.len(),
        0 <= i < es.len(),
        es[i].record is None || bs[i] is None,
    ensures
        rendered_of(es, bs) == rendered_of(es.remove(i), bs.remove(i)),
    decreases es.len(),
{
    if i == es.len() - 1 {
        assert(es.remove(i) =~= es.drop_last());
        assert(bs.remove(i) =~= bs.drop_last());
        assert(rendered_of(es, bs) =~= rendered_of(es.drop_last(), bs.drop_last()));
    } else {
        lemma_skipped_excluded(es.drop_last(), bs.drop_last(), i);
        assert(es.remove(i).drop_last() =~= es.drop_last().remove(i));
        assert(bs.remove(i).drop_last() =~= bs.drop_last().remove(i));
        assert(es.remove(i).last() == es.last());
        assert(bs.remove(i).last() == bs.last());
        assert(rendered_of(es.remove(i), bs.remove(i)) =~= rendered_of(es, bs));
    }
}

/// An entry whose record is absent leaves no trace: the rendered sequence —
/// and with it the written pages and the index records — is the same as if
/// the entry were not in the bibliography at all.
pub proof fn lemma_absent_record_excluded(es: Seq<BibEntryV>, bs: Seq<Option<Seq<char>>>, i: int)
    requires
        es.len() == bs.len(),
        0 <= i < es.len(),
        es[i].record is None,
    ensures
        rendered_of(es, bs) == rendered_of(es.remove(i), bs.remove(i)),
{
    lemma_skipped_excluded(es, bs, i);
}

/// An entry whose annotation body is absent leaves no trace, even when its
/// record is present: the rendered sequence — and with it the written pages
/// and the index records — is the same as if the entry were not there.
pub proof fn lemma_absent_content_excluded(es: Seq<BibEntryV>, bs: Seq<Option<Seq<char>>>, i: int)
    requires
        es.len() == bs.len(),
        0 <= i < es.len(),
        bs[i] is None,
    ensures
        rendered_of(es, bs) == rendered_of(es.remove(i), bs.remove(i)),
{
    lemma_skipped_excluded(es, bs, i);
}

/// The index lists the rendered entries one for one and in order: there is
/// exactly one index record per written page, the two agree on the file
/// name, and that name — the link target of the record's list item — is
/// `key.html` for the rendered entry's key.
pub proof fn lemma_index_lists_rendered(
    es: Seq<BibEntryV>,
    bs: Seq<Option<Seq<char>>>,
    tpl: Seq<char>,
)
    ensures
        index_records_of(es, bs).len() == pages_of(es, bs, tpl).len(),
        index_records_of(es, bs).len() == rendered_of(es, bs).len(),
        forall|j: int|
            0 <= j < rendered_of(es, bs).len() ==> {
                &&& (#[trigger] index_records_of(es, bs)[j]) == index_record_of_rendered(
                    rendered_of(es, bs)[j],
                )
                &&& index_records_of(es, bs)[j].filename == html_name_of(rendered_of(es, bs)[j].key)
                &&& index_records_of(es, bs)[j].filename == pages_of(es, bs, tpl)[j].filename
            },
{
}

/// Rendering is prefix-stable: one more entry at the end of the bibliography
/// only ever appends to the rendered sequence, so the listing order matches
/// bibliography order and earlier pages are never disturbed.
pub proof fn lemma_rendered_prefix_stable(
    es: Seq<BibEntryV>,
    bs: Seq<Option<Seq<char>>>,
    e: BibEntryV,
    b: Option<Seq<char>>,
)
    requires
        es.len() == bs.len(),
    ensures
        rendered_of(es.push(e), bs.push(b)).take(rendered_of(es, bs).len() as int) == rendered_of(
            es,
            bs,
        ),
{
    assert(es.push(e).drop_last() =~= es);
    assert(bs.push(b).drop_last() =~= bs);
    assert(rendered_of(es.push(e), bs.push(b)).take(rendered_of(es, bs).len() as int)
        =~= rendered_of(es, bs));
}

/// The pipeline is deterministic: two successful runs over identical
/// entries, bodies and template produce identical pages and an identical
/// listing page.  A caller that writes exactly this output into an empty
/// directory therefore produces byte-identical directories on repeated runs.
pub proof fn lemma_run_deterministic(
    es: Seq<BibEntryV>,
    bs: Seq<Option<Seq<char>>>,
    tpl: Seq<char>,
    pages1: Seq<OutputPageV>,
    index1: Seq<char>,
    pages2: Seq<OutputPageV>,
    index2: Seq<char>,
)
    requires
        pages1 == pages_of(es, bs, tpl),
        index1 == index_page_of(es, bs, tpl),
        pages2 == pages_of(es, bs, tpl),
        index2 == index_page_of(es, bs, tpl),
    ensures
        pages1 == pages2,
        index1 == index2,
{
}

/// With nothing rendered the listing still stands: its body is the fixed
/// introduction followed directly by the closed, empty list.
pub proof fn lemma_empty_index_body()
    ensures
        index_body_of(Seq::<IndexRecordV>::empty()) == index_intro() + "</ul>"@,
{
    assert(index_body_of(Seq::<IndexRecordV>::empty()) =~= index_intro() + "</ul>"@);
}

} // verus!
