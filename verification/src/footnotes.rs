//! Rendering of collected footnote definitions.
//!
//! At the end of a document the collected definitions are emitted as an
//! ordered list in presentation order: the numbering table is walked row by
//! row (row `k` is footnote number `k + 1`), and each row's definition, if
//! one was collected, is rewritten and appended. A definition whose name
//! was never referenced has no row, so it produces no output; a reference
//! whose name has no definition leaves a dangling link and produces no list
//! entry. Each entry gets an anchor matching its name and one backlink per
//! reference; the backlinks are folded into the definition's final
//! paragraph when it ends within the last two buffered events, and appended
//! after its last block otherwise.

use vstd::prelude::*;
use crate::events::{MdEvent, MdEventV, evs_view};
use crate::text::{dec_str, dec_string};
use crate::transform::{FootnoteDef, FootnoteDefV, FootnoteUse, FootnoteUseV, defs_view, find_def,
    nums_view};

verus! {

/// One backlink to the reference with the given usage ordinal; numbered
/// when the footnote has more than one reference.
pub open spec fn backlink(name: Seq<char>, usage: int, numbered: bool) -> Seq<char> {
    if numbered {
        " <a href=\"#fr-"@ + name + "-"@ + dec_str(usage) + "\">\u{21a9}"@ + dec_str(usage)
            + "</a>"@
    } else {
        " <a href=\"#fr-"@ + name + "-"@ + dec_str(usage) + "\">\u{21a9}</a>"@
    }
}

/// The numbered backlinks for usages one through `k`.
pub open spec fn backlinks_upto(name: Seq<char>, k: int) -> Seq<char>
    decreases k,
{
    if k <= 0 {
        Seq::empty()
    } else {
        backlinks_upto(name, k - 1) + backlink(name, k, true)
    }
}

/// All backlinks of a footnote: one per reference, numbered when there is
/// more than one, a single unnumbered one otherwise.
pub open spec fn backlinks_of(name: Seq<char>, uses: int) -> Seq<char> {
    if uses == 1 {
        backlink(name, 1, false)
    } else {
        backlinks_upto(name, uses)
    }
}

/// The list-item opening for a footnote's anchor.
pub open spec fn li_open(name: Seq<char>) -> Seq<char> {
    "<li id=\"fn-"@ + name + "\">"@
}

/// The rewriting of one definition's buffered events from position `i`
/// onward: the definition-start becomes the anchored list-item opening; the
/// backlinks ride on the final paragraph's end when it falls within the
/// last two events, else on the definition's end; the definition-end closes
/// the list item.
pub open spec fn rw(
    evs: Seq<MdEventV>,
    name: Seq<char>,
    uses: int,
    i: int,
    written: bool,
) -> Seq<MdEventV>
    decreases evs.len() - i,
{
    if i < 0 || i >= evs.len() {
        Seq::empty()
    } else {
        match evs[i] {
            MdEventV::FootnoteDefStart(n) => seq![MdEventV::Html(li_open(n))] + rw(
                evs,
                name,
                uses,
                i + 1,
                false,
            ),
            MdEventV::FootnoteDefEnd => if !written && i + 2 >= evs.len() {
                seq![MdEventV::Html(backlinks_of(name, uses) + "</li>\n"@)] + rw(
                    evs,
                    name,
                    uses,
                    i + 1,
                    true,
                )
            } else {
                seq![MdEventV::Html("</li>\n"@)] + rw(evs, name, uses, i + 1, written)
            },
            MdEventV::ParagraphEnd => if !written && i + 2 >= evs.len() {
                seq![MdEventV::Html(backlinks_of(name, uses) + "</p>\n"@)] + rw(
                    evs,
                    name,
                    uses,
                    i + 1,
                    true,
                )
            } else {
                seq![evs[i]] + rw(evs, name, uses, i + 1, written)
            },
            _ => seq![evs[i]] + rw(evs, name, uses, i + 1, written),
        }
    }
}

/// The rewritten events of one definition.
pub open spec fn rewrite_def(evs: Seq<MdEventV>, name: Seq<char>, uses: int) -> Seq<MdEventV> {
    rw(evs, name, uses, 0, false)
}

/// The list items for table rows `k` onward, in presentation order; a row
/// without a collected definition contributes nothing.
pub open spec fn items_from(
    defs: Seq<FootnoteDefV>,
    nums: Seq<FootnoteUseV>,
    k: int,
) -> Seq<MdEventV>
    decreases nums.len() - k,
{
    if k < 0 || k >= nums.len() {
        Seq::empty()
    } else {
        (match find_def(defs, nums[k].name) {
            Some(j) => rewrite_def(defs[j].events, nums[k].name, nums[k].uses),
            None => Seq::empty(),
        }) + items_from(defs, nums, k + 1)
    }
}

/// The whole footnote section: nothing when no definition was collected,
/// else the list items in presentation order between the ruler-and-list
/// opening and the list closing.
pub open spec fn footnote_section(defs: Seq<FootnoteDefV>, nums: Seq<FootnoteUseV>) -> Seq<
    MdEventV,
> {
    if defs.len() == 0 {
        Seq::empty()
    } else {
        seq![MdEventV::Html("<hr><ol class=\"footnotes-list\">\n"@)] + items_from(defs, nums, 0)
            + seq![MdEventV::Html("</ol>\n"@)]
    }
}

/// Builds one backlink.
fn backlink_string(name: &String, usage: usize, numbered: bool) -> (r: String)
    ensures
        r@ == backlink(name@, usage as int, numbered),
{
    let mut s = String::from_str(" <a href=\"#fr-");
    s.append(name.as_str());
    s.append("-");
    let u = dec_string(usage);
    s.append(u.as_str());
    if numbered {
        s.append("\">\u{21a9}");
        s.append(u.as_str());
        s.append("</a>");
    } else {
        s.append("\">\u{21a9}</a>");
    }
    assert(s@ =~= backlink(name@, usage as int, numbered));
    s
}

/// Builds all backlinks of a footnote.
fn backlinks_string(name: &String, uses: usize) -> (r: String)
    ensures
        r@ == backlinks_of(name@, uses as int),
{
    if uses == 1 {
        backlink_string(name, 1, false)
    } else {
        let mut s = String::new();
        let mut k: usize = 0;
        proof {
            assert(s@ =~= backlinks_upto(name@, 0));
        }
        while k < uses
            invariant
                k <= uses,
                s@ == backlinks_upto(name@, k as int),
            decreases uses - k,
        {
            let b = backlink_string(name, k + 1, true);
            s.append(b.as_str());
            k = k + 1;
        }
        s
    }
}

/// Rewrites one definition's buffered events for the rendered list.
fn rewrite_def_exec(events: &Vec<MdEvent>, name: &String, uses: usize) -> (r: Vec<MdEvent>)
    ensures
        evs_view(r@) == rewrite_def(evs_view(events@), name@, uses as int),
{
    let ghost all = evs_view(events@);
    let n = events.len();
    let mut out: Vec<MdEvent> = Vec::new();
    let mut written = false;
    let mut i: usize = 0;
    proof {
        assert(evs_view(out@) =~= Seq::<MdEventV>::empty());
    }
    while i < n
        invariant
            n == events@.len(),
            i <= n,
            all == evs_view(events@),
            evs_view(out@) + rw(all, name@, uses as int, i as int, written) == rw(
                all,
                name@,
                uses as int,
                0,
                false,
            ),
        decreases n - i,
    {
        let ghost pre_out = evs_view(out@);
        let ghost pre_written = written;
        let ghost gu = uses as int;
        let e = events[i].clone();
        proof {
            assert(e@ == all[i as int]);
        }
        match e {
            MdEvent::FootnoteDefStart(dn) => {
                let mut li = String::from_str("<li id=\"fn-");
                li.append(dn.as_str());
                li.append("\">");
                assert(li@ =~= li_open(dn@));
                out.push(MdEvent::Html(li));
                written = false;
                proof {
                    assert(evs_view(out@) =~~= pre_out + seq![MdEventV::Html(li_open(dn@))]);
                    assert(rw(all, name@, gu, i as int, pre_written) =~~= seq![
                        MdEventV::Html(li_open(dn@)),
                    ] + rw(all, name@, gu, i + 1, false));
                }
            },
            MdEvent::FootnoteDefEnd => {
                if !written && n - i <= 2 {
                    let mut h = backlinks_string(name, uses);
                    h.append("</li>\n");
                    proof {
                        assert(h@ =~= backlinks_of(name@, gu) + "</li>\n"@);
                    }
                    out.push(MdEvent::Html(h));
                    written = true;
                    proof {
                        assert(evs_view(out@) =~~= pre_out + seq![
                            MdEventV::Html(backlinks_of(name@, gu) + "</li>\n"@),
                        ]);
                        assert(rw(all, name@, gu, i as int, pre_written) =~~= seq![
                            MdEventV::Html(backlinks_of(name@, gu) + "</li>\n"@),
                        ] + rw(all, name@, gu, i + 1, true));
                    }
                } else {
                    let h = String::from_str("</li>\n");
                    out.push(MdEvent::Html(h));
                    proof {
                        assert(evs_view(out@) =~~= pre_out + seq![MdEventV::Html("</li>\n"@)]);
                        assert(rw(all, name@, gu, i as int, pre_written) =~~= seq![
                            MdEventV::Html("</li>\n"@),
                        ] + rw(all, name@, gu, i + 1, pre_written));
                    }
                }
            },
            MdEvent::ParagraphEnd => {
                if !written && n - i <= 2 {
                    let mut h = backlinks_string(name, uses);
                    h.append("</p>\n");
                    proof {
                        assert(h@ =~= backlinks_of(name@, gu) + "</p>\n"@);
                    }
                    out.push(MdEvent::Html(h));
                    written = true;
                    proof {
                        assert(evs_view(out@) =~~= pre_out + seq![
                            MdEventV::Html(backlinks_of(name@, gu) + "</p>\n"@),
                        ]);
                        assert(rw(all, name@, gu, i as int, pre_written) =~~= seq![
                            MdEventV::Html(backlinks_of(name@, gu) + "</p>\n"@),
                        ] + rw(all, name@, gu, i + 1, true));
                    }
                } else {
                    out.push(MdEvent::ParagraphEnd);
                    proof {
                        assert(evs_view(out@) =~~= pre_out + seq![all[i as int]]);
                        assert(rw(all, name@, gu, i as int, pre_written) =~~= seq![
                            all[i as int],
                        ] + rw(all, name@, gu, i + 1, pre_written));
                    }
                }
            },
            other => {
                out.push(other);
                proof {
                    assert(evs_view(out@) =~~= pre_out + seq![all[i as int]]);
                    assert(rw(all, name@, gu, i as int, pre_written) =~~= seq![all[i as int]]
                        + rw(all, name@, gu, i + 1, pre_written));
                }
            },
        }
        proof {
            assert(evs_view(out@) + rw(all, name@, gu, i + 1, written) =~~= rw(
                all,
                name@,
                gu,
                0,
                false,
            ));
        }
        i = i + 1;
    }
    proof {
        assert(rw(all, name@, uses as int, n as int, written) =~= Seq::<MdEventV>::empty());
        assert(evs_view(out@) =~~= rewrite_def(all, name@, uses as int));
    }
    out
}

/// Assembles the rendered footnote section from the collected definitions
/// and the numbering table.
pub fn assemble_footnotes(defs: &Vec<FootnoteDef>, nums: &Vec<FootnoteUse>) -> (r: Vec<MdEvent>)
    ensures
        evs_view(r@) == footnote_section(defs_view(defs@), nums_view(nums@)),
{
    let ghost gdefs = defs_view(defs@);
    let ghost gnums = nums_view(nums@);
    let mut out: Vec<MdEvent> = Vec::new();
    if defs.is_empty() {
        proof {
            assert(evs_view(out@) =~= footnote_section(gdefs, gnums));
        }
        return out;
    }
    out.push(MdEvent::Html(String::from_str("<hr><ol class=\"footnotes-list\">\n")));
    let mut k: usize = 0;
    proof {
        assert(evs_view(out@) =~~= seq![
            MdEventV::Html("<hr><ol class=\"footnotes-list\">\n"@),
        ]);
    }
    while k < nums.len()
        invariant
            k <= nums@.len(),
            gdefs == defs_view(defs@),
            gnums == nums_view(nums@),
            evs_view(out@) + items_from(gdefs, gnums, k as int) == seq![
                MdEventV::Html("<hr><ol class=\"footnotes-list\">\n"@),
            ] + items_from(gdefs, gnums, 0),
        decreases nums@.len() - k,
    {
        let ghost pre_out = evs_view(out@);
        let row = &nums[k];
        match crate::transform::find_def_exec(defs, &row.name) {
            Some(j) => {
                let mut part = rewrite_def_exec(&defs[j].events, &row.name, row.uses);
                let ghost gpart = evs_view(part@);
                proof {
                    assert(gdefs[j as int] == defs@[j as int]@);
                    assert(gnums[k as int] == nums@[k as int]@);
                    assert(gpart =~~= rewrite_def(
                        gdefs[j as int].events,
                        gnums[k as int].name,
                        gnums[k as int].uses,
                    ));
                    assert(items_from(gdefs, gnums, k as int) =~~= rewrite_def(
                        gdefs[j as int].events,
                        gnums[k as int].name,
                        gnums[k as int].uses,
                    ) + items_from(gdefs, gnums, k + 1));
                }
                out.append(&mut part);
                proof {
                    assert(evs_view(out@) =~~= pre_out + gpart);
                }
            },
            None => {
                proof {
                    assert(gnums[k as int] == nums@[k as int]@);
                    assert(items_from(gdefs, gnums, k as int) =~~= items_from(gdefs, gnums, k + 1));
                }
            },
        }
        proof {
            assert(evs_view(out@) + items_from(gdefs, gnums, k + 1) =~~= pre_out + items_from(
                gdefs,
                gnums,
                k as int,
            ));
        }
        k = k + 1;
    }
    out.push(MdEvent::Html(String::from_str("</ol>\n")));
    proof {
        assert(items_from(gdefs, gnums, nums@.len() as int) =~= Seq::<MdEventV>::empty());
        assert(evs_view(out@) =~~= footnote_section(gdefs, gnums));
    }
    out
}

} // verus!
