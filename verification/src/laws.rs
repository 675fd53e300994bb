//! Document-wide properties of the transformer, stated and proved once.
//!
//! Each public proof function here states one property of a whole
//! compilation pass over the spec-level model (`run`, the numbering table,
//! the metadata resolution) that the executable functions are proved
//! against.

use vstd::prelude::*;
use crate::events::MdEventV;
use crate::footnotes::{items_from, li_open, rewrite_def, rw};
use crate::meta::{MetaV, meta_of_text, resolve_meta_spec};
use crate::text::trim_seq;
use crate::transform::{FootnoteDefV, FootnoteUseV, TransStateV, bump_nums, find_def, find_num,
    find_num_from, lemma_find_def_from_in_range, lemma_find_num_from_in_range,
    lemma_run_from_append, run, run_from, step};

verus! {

/// Whether an event opens a front-matter block.
pub open spec fn is_meta_block_start(e: MdEventV) -> bool {
    match e {
        MdEventV::CodeStart(tag) => trim_seq(tag) == "meta"@,
        _ => false,
    }
}

/// The three events a front-matter block arrives as.
pub open spec fn meta_block(tag: Seq<char>, text: Seq<char>) -> Seq<MdEventV> {
    seq![MdEventV::CodeStart(tag), MdEventV::Text(text), MdEventV::CodeEnd]
}

/// How often `name` is referenced among the events.
pub open spec fn count_refs(evs: Seq<MdEventV>, name: Seq<char>) -> int
    decreases evs.len(),
{
    if evs.len() == 0 {
        0
    } else {
        (if evs.first() == MdEventV::FootnoteRef(name) {
            1int
        } else {
            0int
        }) + count_refs(evs.drop_first(), name)
    }
}

/// The names of the numbering table's rows, in table order.
pub open spec fn names_of(nums: Seq<FootnoteUseV>) -> Seq<Seq<char>> {
    nums.map_values(|u: FootnoteUseV| u.name)
}

/// The distinct referenced names in first-reference order, continuing from
/// the names already seen.
pub open spec fn first_refs_from(acc: Seq<Seq<char>>, evs: Seq<MdEventV>) -> Seq<Seq<char>>
    decreases evs.len(),
{
    if evs.len() == 0 {
        acc
    } else {
        let acc2 = match evs.first() {
            MdEventV::FootnoteRef(name) => if acc.contains(name) {
                acc
            } else {
                acc.push(name)
            },
            _ => acc,
        };
        first_refs_from(acc2, evs.drop_first())
    }
}

/// The distinct referenced names of a document, in first-reference order.
pub open spec fn first_refs(evs: Seq<MdEventV>) -> Seq<Seq<char>> {
    first_refs_from(Seq::empty(), evs)
}

/// A name is found in the table exactly when some row at or after `k`
/// carries it.
proof fn lemma_find_num_exists(nums: Seq<FootnoteUseV>, name: Seq<char>, k: int)
    requires
        0 <= k <= nums.len(),
    ensures
        find_num_from(nums, name, k) is Some <==> exists|j: int|
            k <= j < nums.len() && (#[trigger] nums[j]).name == name,
    decreases nums.len() - k,
{
    if k < nums.len() {
        lemma_find_num_exists(nums, name, k + 1);
        if nums[k].name == name {
        } else {
            if exists|j: int| k <= j < nums.len() && (#[trigger] nums[j]).name == name {
                let j = choose|j: int| k <= j < nums.len() && (#[trigger] nums[j]).name == name;
                assert(k + 1 <= j < nums.len() && nums[j].name == name);
            }
        }
    }
}

/// Searching depends only on the rows' names.
proof fn lemma_find_num_names(a: Seq<FootnoteUseV>, b: Seq<FootnoteUseV>, name: Seq<char>, k: int)
    requires
        names_of(a) == names_of(b),
    ensures
        find_num_from(a, name, k) == find_num_from(b, name, k),
    decreases a.len() - k,
{
    assert(a.len() == names_of(a).len());
    assert(b.len() == names_of(b).len());
    if 0 <= k < a.len() {
        assert(names_of(a)[k] == a[k].name);
        assert(names_of(b)[k] == b[k].name);
        lemma_find_num_names(a, b, name, k + 1);
    }
}

/// Searching a table with one more row at the end: the old result stands;
/// a previously absent name is found at the end exactly when the new row
/// carries it.
proof fn lemma_find_num_push(nums: Seq<FootnoteUseV>, x: FootnoteUseV, name: Seq<char>, k: int)
    requires
        0 <= k <= nums.len(),
    ensures
        find_num_from(nums.push(x), name, k) == (match find_num_from(nums, name, k) {
            Some(i) => Some(i),
            None => if x.name == name {
                Some(nums.len() as int)
            } else {
                None
            },
        }),
    decreases nums.len() - k,
{
    assert(nums.push(x).len() == nums.len() + 1);
    if k < nums.len() {
        assert(nums.push(x)[k] == nums[k]);
        lemma_find_num_push(nums, x, name, k + 1);
    } else {
        assert(nums.push(x)[k] == x);
    }
}

/// One reference to `name2` changes no other name's row, creates `name2`'s
/// row with one use when absent, and raises it by one when present.
proof fn lemma_bump_effect(nums: Seq<FootnoteUseV>, name2: Seq<char>, name: Seq<char>)
    ensures
        ({
            let nums2 = bump_nums(nums, name2).0;
            if name == name2 {
                match find_num(nums, name) {
                    Some(i) => find_num(nums2, name) == Some(i) && nums2[i].uses == nums[i].uses
                        + 1,
                    None => find_num(nums2, name) == Some(nums.len() as int)
                        && nums2[nums.len() as int].uses == 1,
                }
            } else {
                match find_num(nums, name) {
                    Some(i) => find_num(nums2, name) == Some(i) && nums2[i] == nums[i],
                    None => find_num(nums2, name) is None,
                }
            }
        }),
{
    let nums2 = bump_nums(nums, name2).0;
    lemma_find_num_from_in_range(nums, name2, 0);
    lemma_find_num_from_in_range(nums, name, 0);
    match find_num(nums, name2) {
        Some(i2) => {
            assert(names_of(nums2) =~= names_of(nums));
            lemma_find_num_names(nums2, nums, name, 0);
            if name == name2 {
            } else {
                if find_num(nums, name) is Some {
                    let i = find_num(nums, name).unwrap();
                    assert(nums[i].name == name);
                    assert(nums[i2].name == name2);
                    assert(i != i2);
                    assert(nums2[i] == nums[i]);
                }
            }
        },
        None => {
            lemma_find_num_push(nums, FootnoteUseV { name: name2, uses: 1 }, name, 0);
            lemma_find_num_exists(nums, name2, 0);
            if name == name2 {
                assert(find_num(nums, name) is None);
            }
        },
    }
}

/// Only a reference event touches the numbering table.
proof fn lemma_step_nums(st: TransStateV, e: MdEventV)
    ensures
        step(st, e).nums == (match e {
            MdEventV::FootnoteRef(name) => bump_nums(st.nums, name).0,
            _ => st.nums,
        }),
{
}

/// The usage tally of a name: the count its row carries, if it has one.
pub open spec fn uses_of(nums: Seq<FootnoteUseV>, name: Seq<char>) -> Option<int> {
    match find_num(nums, name) {
        Some(i) => Some(nums[i].uses),
        None => None,
    }
}

/// Running adds each name's reference count to its usage tally: a row
/// present before keeps growing, and a row absent before appears exactly
/// when the name is referenced.
pub proof fn lemma_run_from_usage(st: TransStateV, evs: Seq<MdEventV>, name: Seq<char>)
    ensures
        uses_of(run_from(st, evs).nums, name) == (match uses_of(st.nums, name) {
            Some(u) => Some(u + count_refs(evs, name)),
            None => if count_refs(evs, name) == 0 {
                None::<int>
            } else {
                Some(count_refs(evs, name))
            },
        }),
    decreases evs.len(),
{
    lemma_find_num_from_in_range(st.nums, name, 0);
    lemma_count_refs_nonneg(evs, name);
    if evs.len() > 0 {
        lemma_count_refs_nonneg(evs.drop_first(), name);
        let e = evs.first();
        let st2 = step(st, e);
        lemma_step_nums(st, e);
        if let MdEventV::FootnoteRef(name2) = e {
            lemma_bump_effect(st.nums, name2, name);
            if name2 == name {
                assert(evs.first() == MdEventV::FootnoteRef(name));
                match find_num(st.nums, name) {
                    Some(i) => {
                        assert(uses_of(st2.nums, name) == Some(st.nums[i].uses + 1));
                    },
                    None => {
                        assert(uses_of(st2.nums, name) == Some(1int));
                    },
                }
            } else {
                assert(evs.first() != MdEventV::FootnoteRef(name));
                assert(uses_of(st2.nums, name) == uses_of(st.nums, name));
            }
        } else {
            assert(evs.first() != MdEventV::FootnoteRef(name));
            assert(uses_of(st2.nums, name) == uses_of(st.nums, name));
        }
        lemma_run_from_usage(st2, evs.drop_first(), name);
        assert(run_from(st, evs) == run_from(st2, evs.drop_first()));
    }
}

/// The usage tally of a whole document: a referenced name's row counts its
/// references exactly; an unreferenced name has no row.
pub proof fn lemma_usage_counts(evs: Seq<MdEventV>, name: Seq<char>)
    ensures
        count_refs(evs, name) == 0 ==> uses_of(run(evs).nums, name) is None,
        count_refs(evs, name) > 0 ==> uses_of(run(evs).nums, name) == Some(count_refs(evs, name)),
{
    lemma_run_from_usage(crate::transform::init_state(), evs, name);
    lemma_count_refs_nonneg(evs, name);
}

/// A reference count is never negative.
proof fn lemma_count_refs_nonneg(evs: Seq<MdEventV>, name: Seq<char>)
    ensures
        count_refs(evs, name) >= 0,
    decreases evs.len(),
{
    if evs.len() > 0 {
        lemma_count_refs_nonneg(evs.drop_first(), name);
    }
}

/// A footnote defined but never referenced has no row in the numbering
/// table, so the rendered footnote list holds no item for it.
pub proof fn lemma_unused_footnote_suppressed(evs: Seq<MdEventV>, name: Seq<char>)
    requires
        count_refs(evs, name) == 0,
    ensures
        find_num(run(evs).nums, name) is None,
{
    lemma_usage_counts(evs, name);
}

/// Running lists the referenced names in first-reference order, continuing
/// from whatever the table already holds.
proof fn lemma_run_from_order(st: TransStateV, evs: Seq<MdEventV>)
    ensures
        names_of(run_from(st, evs).nums) == first_refs_from(names_of(st.nums), evs),
    decreases evs.len(),
{
    if evs.len() > 0 {
        let e = evs.first();
        let st2 = step(st, e);
        lemma_step_nums(st, e);
        if let MdEventV::FootnoteRef(name) = e {
            lemma_find_num_from_in_range(st.nums, name, 0);
            lemma_find_num_exists(st.nums, name, 0);
            match find_num(st.nums, name) {
                Some(i) => {
                    assert(names_of(st.nums).contains(name)) by {
                        assert(names_of(st.nums)[i] == name);
                    }
                    assert(names_of(st2.nums) =~= names_of(st.nums));
                },
                None => {
                    assert(!names_of(st.nums).contains(name)) by {
                        if names_of(st.nums).contains(name) {
                            let j = choose|j: int|
                                0 <= j < names_of(st.nums).len() && names_of(st.nums)[j] == name;
                            assert(st.nums[j].name == name);
                        }
                    }
                    assert(names_of(st2.nums) =~= names_of(st.nums).push(name));
                },
            }
        }
        lemma_run_from_order(st2, evs.drop_first());
    }
}

/// Presentation numbers follow first-reference order: the numbering table
/// lists exactly the distinct referenced names, in the order of their first
/// reference, whatever order the definitions appear in.
pub proof fn lemma_numbering_order(evs: Seq<MdEventV>)
    ensures
        names_of(run(evs).nums) == first_refs(evs),
{
    lemma_run_from_order(crate::transform::init_state(), evs);
    assert(names_of(Seq::<FootnoteUseV>::empty()) =~= Seq::<Seq<char>>::empty());
}

/// With an embedded record found, the resolution ignores the inferred
/// record entirely, field by field.
pub proof fn lemma_meta_override(evs: Seq<MdEventV>, m: MetaV, inferred: MetaV)
    requires
        run(evs).meta == Some(m),
    ensures
        resolve_meta_spec(run(evs).meta, inferred) == m,
{
}

/// What one front-matter block does to the run's state: it emits nothing,
/// leaves the footnote state alone, ends outside any capture, and updates
/// the metadata exactly when the buffered text parses.
proof fn lemma_meta_block_run(pre: Seq<MdEventV>, tag: Seq<char>, text: Seq<char>)
    requires
        run(pre).stack.len() == 0,
        trim_seq(tag) == "meta"@,
    ensures
        run(pre + meta_block(tag, text)).out == run(pre).out,
        run(pre + meta_block(tag, text)).defs == run(pre).defs,
        run(pre + meta_block(tag, text)).nums == run(pre).nums,
        run(pre + meta_block(tag, text)).stack == run(pre).stack,
        !(run(pre + meta_block(tag, text)).mode is MetaCapture),
        run(pre + meta_block(tag, text)).meta == (match meta_of_text(run(pre).mbuf + text) {
            Some(m) => Some(m),
            None => run(pre).meta,
        }),
{
    lemma_run_from_append(crate::transform::init_state(), pre, meta_block(tag, text));
    let st0 = run(pre);
    let block = meta_block(tag, text);
    let st1 = step(st0, block[0]);
    let st2 = step(st1, block[1]);
    let st3 = step(st2, block[2]);
    assert(block.drop_first() =~= seq![MdEventV::Text(text), MdEventV::CodeEnd]);
    assert(block.drop_first().drop_first() =~= seq![MdEventV::CodeEnd]);
    assert(block.drop_first().drop_first().drop_first() =~= Seq::<MdEventV>::empty());
    assert(block.first() == block[0] && block.drop_first().first() == block[1]
        && block.drop_first().drop_first().first() == block[2]);
    assert(run_from(st0, block) == run_from(st1, block.drop_first()));
    assert(run_from(st1, block.drop_first()) == run_from(st2, block.drop_first().drop_first()));
    assert(run_from(st2, block.drop_first().drop_first()) == run_from(
        st3,
        block.drop_first().drop_first().drop_first(),
    ));
    assert(run_from(st0, block) == st3);
    assert(st1.mode is MetaCapture);
    assert(st2.mbuf == st0.mbuf + text);
}

/// A well-formed front-matter block at the end of a document overrides the
/// metadata: whatever the caller inferred, the block's parsed record is
/// what the document resolves to. (No footnote definition and no capture
/// may still be open where the block begins.)
pub proof fn lemma_meta_block_overrides(
    pre: Seq<MdEventV>,
    tag: Seq<char>,
    text: Seq<char>,
    m: MetaV,
    inferred: MetaV,
)
    requires
        run(pre).stack.len() == 0,
        run(pre).mbuf.len() == 0,
        trim_seq(tag) == "meta"@,
        meta_of_text(text) == Some(m),
    ensures
        resolve_meta_spec(run(pre + meta_block(tag, text)).meta, inferred) == m,
{
    lemma_meta_block_run(pre, tag, text);
    assert(run(pre).mbuf + text =~= text);
}

/// The last parsing front-matter block wins: wherever in the document such
/// a block stands, if no further block opens after it, the resolved
/// metadata is its parsed record, whatever the caller inferred.
pub proof fn lemma_last_meta_block_wins(
    pre: Seq<MdEventV>,
    tag: Seq<char>,
    text: Seq<char>,
    post: Seq<MdEventV>,
    m: MetaV,
    inferred: MetaV,
)
    requires
        run(pre).stack.len() == 0,
        run(pre).mbuf.len() == 0,
        trim_seq(tag) == "meta"@,
        meta_of_text(text) == Some(m),
        forall|i: int| 0 <= i < post.len() ==> !is_meta_block_start(#[trigger] post[i]),
    ensures
        resolve_meta_spec(run(pre + meta_block(tag, text) + post).meta, inferred) == m,
{
    lemma_meta_block_run(pre, tag, text);
    assert(run(pre).mbuf + text =~= text);
    let mid = pre + meta_block(tag, text);
    lemma_run_from_append(crate::transform::init_state(), mid, post);
    lemma_run_from_meta_stable(run(mid), post);
}

/// A front-matter block emits nothing: its raw text reaches neither the
/// output events nor any footnote buffer, and the collected footnotes and
/// the numbering table are untouched by it.
pub proof fn lemma_meta_block_invisible(pre: Seq<MdEventV>, tag: Seq<char>, text: Seq<char>)
    requires
        run(pre).stack.len() == 0,
        trim_seq(tag) == "meta"@,
    ensures
        run(pre + meta_block(tag, text)).out == run(pre).out,
        run(pre + meta_block(tag, text)).defs == run(pre).defs,
        run(pre + meta_block(tag, text)).nums == run(pre).nums,
{
    lemma_meta_block_run(pre, tag, text);
}

/// Metadata can change only where a front-matter block opens: over any
/// stretch of events with no front-matter start, the metadata stands.
pub proof fn lemma_run_from_meta_stable(st: TransStateV, evs: Seq<MdEventV>)
    requires
        !(st.mode is MetaCapture),
        forall|i: int| 0 <= i < evs.len() ==> !is_meta_block_start(#[trigger] evs[i]),
    ensures
        run_from(st, evs).meta == st.meta,
        !(run_from(st, evs).mode is MetaCapture),
    decreases evs.len(),
{
    if evs.len() > 0 {
        let e = evs.first();
        let st2 = step(st, e);
        assert(!is_meta_block_start(evs[0]));
        assert(st2.meta == st.meta && !(st2.mode is MetaCapture));
        assert(forall|i: int|
            0 <= i < evs.drop_first().len() ==> !is_meta_block_start(
                #[trigger] evs.drop_first()[i],
            ));
        lemma_run_from_meta_stable(st2, evs.drop_first());
    }
}

/// With no front-matter block anywhere in the document, the resolved
/// metadata is exactly the caller's inferred record.
pub proof fn lemma_meta_fallback(evs: Seq<MdEventV>, inferred: MetaV)
    requires
        forall|i: int| 0 <= i < evs.len() ==> !is_meta_block_start(#[trigger] evs[i]),
    ensures
        run(evs).meta is None,
        resolve_meta_spec(run(evs).meta, inferred) == inferred,
{
    lemma_run_from_meta_stable(crate::transform::init_state(), evs);
}

/// A collected definition buffer is well formed: it begins with the
/// definition-start event carrying its own name.
pub open spec fn def_wf(d: FootnoteDefV) -> bool {
    d.events.len() >= 1 && d.events.first() == MdEventV::FootnoteDefStart(d.name)
}

/// All buffers in a sequence are well formed.
pub open spec fn defs_wf(ds: Seq<FootnoteDefV>) -> bool {
    forall|j: int| 0 <= j < ds.len() ==> def_wf(#[trigger] ds[j])
}

/// One step keeps every buffer well formed.
proof fn lemma_step_wf(st: TransStateV, e: MdEventV)
    requires
        defs_wf(st.stack),
        defs_wf(st.defs),
    ensures
        defs_wf(step(st, e).stack),
        defs_wf(step(st, e).defs),
{
    let st2 = step(st, e);
    assert forall|j: int| 0 <= j < st2.stack.len() implies def_wf(#[trigger] st2.stack[j]) by {
        if j < st.stack.len() - 1 {
            assert(st2.stack[j] == st.stack[j]);
        }
    }
    assert forall|j: int| 0 <= j < st2.defs.len() implies def_wf(#[trigger] st2.defs[j]) by {
        if let MdEventV::FootnoteDefEnd = e {
            if st.stack.len() > 0 {
                let d = st.stack.last();
                assert(def_wf(d));
                let done = FootnoteDefV { name: d.name, events: d.events.push(e) };
                assert(done.events.first() == d.events.first());
                assert(def_wf(done));
                match find_def(st.defs, d.name) {
                    Some(i) => {
                        lemma_find_def_from_in_range(st.defs, d.name, 0);
                        if j == i {
                            assert(st2.defs[j] == done);
                        } else {
                            assert(st2.defs[j] == st.defs[j]);
                        }
                    },
                    None => {
                        if j < st.defs.len() {
                            assert(st2.defs[j] == st.defs[j]);
                        } else {
                            assert(st2.defs[j] == done);
                        }
                    },
                }
            }
        }
    }
}

/// Running keeps every buffer well formed.
proof fn lemma_run_from_wf(st: TransStateV, evs: Seq<MdEventV>)
    requires
        defs_wf(st.stack),
        defs_wf(st.defs),
    ensures
        defs_wf(run_from(st, evs).stack),
        defs_wf(run_from(st, evs).defs),
    decreases evs.len(),
{
    if evs.len() > 0 {
        lemma_step_wf(st, evs.first());
        lemma_run_from_wf(step(st, evs.first()), evs.drop_first());
    }
}

/// Every definition a document's run collects is well formed.
pub proof fn lemma_run_defs_wf(evs: Seq<MdEventV>)
    ensures
        defs_wf(run(evs).defs),
{
    lemma_run_from_wf(crate::transform::init_state(), evs);
}

/// The rendered list follows the numbering table's order: the items for
/// rows `k` onward open with row `k`'s own anchor whenever row `k` has a
/// collected definition — so the list is in presentation-number order,
/// whatever order the definitions appeared in.
pub proof fn lemma_list_leads_with_row_anchor(
    defs: Seq<FootnoteDefV>,
    nums: Seq<FootnoteUseV>,
    k: int,
)
    requires
        defs_wf(defs),
        0 <= k < nums.len(),
        find_def(defs, nums[k].name) is Some,
    ensures
        items_from(defs, nums, k).len() >= 1,
        items_from(defs, nums, k).first() == MdEventV::Html(li_open(nums[k].name)),
{
    let j = find_def(defs, nums[k].name).unwrap();
    lemma_find_def_from_in_range(defs, nums[k].name, 0);
    assert(def_wf(defs[j]));
    let evs = defs[j].events;
    let item = rewrite_def(evs, nums[k].name, nums[k].uses);
    assert(evs[0] == MdEventV::FootnoteDefStart(defs[j].name));
    assert(item == seq![MdEventV::Html(li_open(defs[j].name))] + rw(
        evs,
        nums[k].name,
        nums[k].uses,
        1,
        false,
    ));
    assert(item.first() == MdEventV::Html(li_open(nums[k].name)));
    assert(items_from(defs, nums, k) == item + items_from(defs, nums, k + 1));
    assert(items_from(defs, nums, k).first() == item.first());
}

} // verus!
