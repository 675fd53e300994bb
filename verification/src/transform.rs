//! The single filtering pass over the markdown event stream.
//!
//! The transformer walks the events once, in order, with an explicit state:
//! a capture mode (`Normal`, collecting a front-matter block, or collecting
//! a fenced code block), a stack of open footnote-definition buffers, the
//! completed footnote definitions in definition order, and the footnote
//! numbering table in first-reference order. Text captured for a
//! front-matter block or a code block never reaches the output; a code
//! block leaves behind one raw-HTML event holding its highlighted form, and
//! a footnote reference leaves behind one raw-HTML event holding a numbered
//! link.

use vstd::prelude::*;
use crate::events::{MdEvent, MdEventV, evs_view};
use crate::highlight::{highlight, highlight_of};
use crate::meta::{Meta, MetaV, meta_of_text, parse_meta_text};
use crate::text::{dec_str, dec_string, trim, trim_seq};

verus! {

/// What the transformer is currently capturing.
pub enum Mode {
    /// Events pass through.
    Normal,
    /// Inside a front-matter block: text goes to the metadata buffer.
    MetaCapture,
    /// Inside a fenced code block with the given (trimmed) language tag:
    /// text goes to the code buffer.
    CodeCapture(String),
}

/// The mathematical shape of the capture mode.
#[verifier::ext_equal]
pub ghost enum ModeV {
    Normal,
    MetaCapture,
    CodeCapture(Seq<char>),
}

impl View for Mode {
    type V = ModeV;

    open spec fn view(&self) -> ModeV {
        match self {
            Mode::Normal => ModeV::Normal,
            Mode::MetaCapture => ModeV::MetaCapture,
            Mode::CodeCapture(s) => ModeV::CodeCapture(s@),
        }
    }
}

/// One collected footnote definition: its name and its buffered events
/// (the definition-start event first, the definition-end event last).
pub struct FootnoteDef {
    pub name: String,
    pub events: Vec<MdEvent>,
}

/// The mathematical shape of a collected footnote definition.
#[verifier::ext_equal]
pub ghost struct FootnoteDefV {
    pub name: Seq<char>,
    pub events: Seq<MdEventV>,
}

impl View for FootnoteDef {
    type V = FootnoteDefV;

    open spec fn view(&self) -> FootnoteDefV {
        FootnoteDefV { name: self.name@, events: evs_view(self.events@) }
    }
}

/// One row of the numbering table: a footnote name and how often it has
/// been referenced. The row's position gives the presentation number: the
/// row at index `i` is footnote number `i + 1`.
pub struct FootnoteUse {
    pub name: String,
    pub uses: usize,
}

/// The mathematical shape of a numbering-table row.
#[verifier::ext_equal]
pub ghost struct FootnoteUseV {
    pub name: Seq<char>,
    pub uses: int,
}

impl View for FootnoteUse {
    type V = FootnoteUseV;

    open spec fn view(&self) -> FootnoteUseV {
        FootnoteUseV { name: self.name@, uses: self.uses as int }
    }
}

/// A sequence of footnote definitions, viewed one by one.
pub open spec fn defs_view(s: Seq<FootnoteDef>) -> Seq<FootnoteDefV> {
    s.map_values(|d: FootnoteDef| d@)
}

/// A numbering table, viewed one by one.
pub open spec fn nums_view(s: Seq<FootnoteUse>) -> Seq<FootnoteUseV> {
    s.map_values(|u: FootnoteUse| u@)
}

/// The transformer's full state.
pub struct TransState {
    /// Events already emitted.
    pub out: Vec<MdEvent>,
    /// The capture mode.
    pub mode: Mode,
    /// Buffered code-block text.
    pub code: String,
    /// Buffered front-matter text.
    pub mbuf: String,
    /// The last successfully parsed front-matter record, if any.
    pub meta: Option<Meta>,
    /// Open footnote-definition buffers, innermost last.
    pub stack: Vec<FootnoteDef>,
    /// Completed footnote definitions, in definition order, one per name.
    pub defs: Vec<FootnoteDef>,
    /// The numbering table, in first-reference order.
    pub nums: Vec<FootnoteUse>,
}

/// The mathematical shape of the transformer state.
#[verifier::ext_equal]
pub ghost struct TransStateV {
    pub out: Seq<MdEventV>,
    pub mode: ModeV,
    pub code: Seq<char>,
    pub mbuf: Seq<char>,
    pub meta: Option<MetaV>,
    pub stack: Seq<FootnoteDefV>,
    pub defs: Seq<FootnoteDefV>,
    pub nums: Seq<FootnoteUseV>,
}

impl View for TransState {
    type V = TransStateV;

    open spec fn view(&self) -> TransStateV {
        TransStateV {
            out: evs_view(self.out@),
            mode: self.mode@,
            code: self.code@,
            mbuf: self.mbuf@,
            meta: match self.meta {
                Some(m) => Some(m@),
                None => None,
            },
            stack: defs_view(self.stack@),
            defs: defs_view(self.defs@),
            nums: nums_view(self.nums@),
        }
    }
}

/// The state everything starts from: nothing emitted, nothing captured.
pub open spec fn init_state() -> TransStateV {
    TransStateV {
        out: Seq::empty(),
        mode: ModeV::Normal,
        code: Seq::empty(),
        mbuf: Seq::empty(),
        meta: None,
        stack: Seq::empty(),
        defs: Seq::empty(),
        nums: Seq::empty(),
    }
}

/// The first index at or after `k` whose row carries `name`.
pub open spec fn find_num_from(nums: Seq<FootnoteUseV>, name: Seq<char>, k: int) -> Option<int>
    decreases nums.len() - k,
{
    if k < 0 || k >= nums.len() {
        None
    } else if nums[k].name == name {
        Some(k)
    } else {
        find_num_from(nums, name, k + 1)
    }
}

/// The presentation index of a name in the numbering table, if assigned.
pub open spec fn find_num(nums: Seq<FootnoteUseV>, name: Seq<char>) -> Option<int> {
    find_num_from(nums, name, 0)
}

/// The first index at or after `k` whose definition carries `name`.
pub open spec fn find_def_from(defs: Seq<FootnoteDefV>, name: Seq<char>, k: int) -> Option<int>
    decreases defs.len() - k,
{
    if k < 0 || k >= defs.len() {
        None
    } else if defs[k].name == name {
        Some(k)
    } else {
        find_def_from(defs, name, k + 1)
    }
}

/// The index of a name among the collected definitions, if present.
pub open spec fn find_def(defs: Seq<FootnoteDefV>, name: Seq<char>) -> Option<int> {
    find_def_from(defs, name, 0)
}

/// Records one more reference to `name`: the updated table, the reference's
/// presentation number, and its usage ordinal.
pub open spec fn bump_nums(nums: Seq<FootnoteUseV>, name: Seq<char>) -> (Seq<FootnoteUseV>, int, int) {
    match find_num(nums, name) {
        Some(i) => (
            nums.update(i, FootnoteUseV { name: name, uses: nums[i].uses + 1 }),
            i + 1,
            nums[i].uses + 1,
        ),
        None => (nums.push(FootnoteUseV { name: name, uses: 1 }), nums.len() as int + 1, 1),
    }
}

/// The inline fragment emitted for a footnote reference: a numbered,
/// uniquely identified link to the footnote's anchor. `number` is the
/// footnote's presentation number, `usage` the ordinal of this reference.
pub open spec fn ref_fragment(name: Seq<char>, number: int, usage: int) -> Seq<char> {
    "<sup class=\"footnote-reference\" id=\"fr-"@ + name + "-"@ + dec_str(usage)
        + "\"><a href=\"#fn-"@ + name + "\">["@ + dec_str(number) + "]</a></sup>"@
}

/// A definition buffer with one more event appended to the innermost open
/// buffer.
pub open spec fn push_top(stack: Seq<FootnoteDefV>, e: MdEventV) -> Seq<FootnoteDefV>
    recommends
        stack.len() > 0,
{
    let d = stack.last();
    stack.drop_last().push(FootnoteDefV { name: d.name, events: d.events.push(e) })
}

/// One step of the transformer.
pub open spec fn step(st: TransStateV, e: MdEventV) -> TransStateV {
    match e {
        MdEventV::FootnoteDefStart(name) => TransStateV {
            stack: st.stack.push(FootnoteDefV { name: name, events: seq![e] }),
            ..st
        },
        MdEventV::FootnoteDefEnd => {
            if st.stack.len() > 0 {
                let d = st.stack.last();
                let done = FootnoteDefV { name: d.name, events: d.events.push(e) };
                let defs2 = match find_def(st.defs, d.name) {
                    Some(j) => st.defs.update(j, done),
                    None => st.defs.push(done),
                };
                TransStateV { stack: st.stack.drop_last(), defs: defs2, ..st }
            } else {
                st
            }
        },
        MdEventV::FootnoteRef(name) => {
            let (nums2, number, usage) = bump_nums(st.nums, name);
            let frag = MdEventV::Html(ref_fragment(name, number, usage));
            if st.stack.len() == 0 {
                TransStateV { nums: nums2, out: st.out.push(frag), ..st }
            } else {
                TransStateV { nums: nums2, stack: push_top(st.stack, frag), ..st }
            }
        },
        _ => {
            if st.stack.len() > 0 {
                TransStateV { stack: push_top(st.stack, e), ..st }
            } else {
                match e {
                    MdEventV::CodeStart(tag) => {
                        if trim_seq(tag) == "meta"@ {
                            TransStateV { mode: ModeV::MetaCapture, ..st }
                        } else {
                            TransStateV { mode: ModeV::CodeCapture(trim_seq(tag)), ..st }
                        }
                    },
                    MdEventV::CodeEnd => match st.mode {
                        ModeV::Normal => TransStateV { out: st.out.push(e), ..st },
                        ModeV::MetaCapture => TransStateV {
                            mode: ModeV::Normal,
                            mbuf: Seq::empty(),
                            meta: match meta_of_text(st.mbuf) {
                                Some(m) => Some(m),
                                None => st.meta,
                            },
                            ..st
                        },
                        ModeV::CodeCapture(lang) => TransStateV {
                            mode: ModeV::Normal,
                            code: Seq::empty(),
                            out: st.out.push(MdEventV::Html(highlight_of(st.code, lang))),
                            ..st
                        },
                    },
                    MdEventV::Text(t) => match st.mode {
                        ModeV::Normal => TransStateV { out: st.out.push(e), ..st },
                        ModeV::MetaCapture => TransStateV { mbuf: st.mbuf + t, ..st },
                        ModeV::CodeCapture(_) => TransStateV { code: st.code + t, ..st },
                    },
                    _ => TransStateV { out: st.out.push(e), ..st },
                }
            }
        },
    }
}

/// The transformer run from a given state over a sequence of events.
pub open spec fn run_from(st: TransStateV, evs: Seq<MdEventV>) -> TransStateV
    decreases evs.len(),
{
    if evs.len() == 0 {
        st
    } else {
        run_from(step(st, evs.first()), evs.drop_first())
    }
}

/// The transformer run over a whole document's events.
pub open spec fn run(evs: Seq<MdEventV>) -> TransStateV {
    run_from(init_state(), evs)
}

/// Running over a sequence with one more event at the end takes one more
/// step.
pub proof fn lemma_run_from_snoc(st: TransStateV, evs: Seq<MdEventV>, e: MdEventV)
    ensures
        run_from(st, evs.push(e)) == step(run_from(st, evs), e),
    decreases evs.len(),
{
    reveal_with_fuel(run_from, 3);
    if evs.len() == 0 {
        assert(evs.push(e).first() == e);
        assert(evs.push(e).drop_first() =~= Seq::<MdEventV>::empty());
    } else {
        assert(evs.push(e).first() == evs.first());
        assert(evs.push(e).drop_first() =~= evs.drop_first().push(e));
        lemma_run_from_snoc(step(st, evs.first()), evs.drop_first(), e);
    }
}

/// Running over a concatenation runs over the parts in turn.
pub proof fn lemma_run_from_append(st: TransStateV, a: Seq<MdEventV>, b: Seq<MdEventV>)
    ensures
        run_from(st, a + b) == run_from(run_from(st, a), b),
    decreases a.len(),
{
    if a.len() == 0 {
        assert(a + b =~= b);
    } else {
        assert((a + b).first() == a.first());
        assert((a + b).drop_first() =~= a.drop_first() + b);
        lemma_run_from_append(step(st, a.first()), a.drop_first(), b);
    }
}

/// A found index lies in range and carries the name searched for.
pub proof fn lemma_find_num_from_in_range(nums: Seq<FootnoteUseV>, name: Seq<char>, k: int)
    ensures
        match find_num_from(nums, name, k) {
            Some(i) => k <= i < nums.len() && nums[i].name == name,
            None => true,
        },
    decreases nums.len() - k,
{
    if 0 <= k < nums.len() && nums[k].name != name {
        lemma_find_num_from_in_range(nums, name, k + 1);
    }
}

/// A found definition index lies in range and carries the name searched
/// for.
pub proof fn lemma_find_def_from_in_range(defs: Seq<FootnoteDefV>, name: Seq<char>, k: int)
    ensures
        match find_def_from(defs, name, k) {
            Some(i) => k <= i < defs.len() && defs[i].name == name,
            None => true,
        },
    decreases defs.len() - k,
{
    if 0 <= k < defs.len() && defs[k].name != name {
        lemma_find_def_from_in_range(defs, name, k + 1);
    }
}

/// The presentation index of `name` in the table, if assigned.
fn find_num_exec(nums: &Vec<FootnoteUse>, name: &String) -> (r: Option<usize>)
    ensures
        match r {
            Some(i) => find_num(nums_view(nums@), name@) == Some(i as int) && i < nums@.len(),
            None => find_num(nums_view(nums@), name@) is None,
        },
{
    let ghost gnums = nums_view(nums@);
    let mut i: usize = 0;
    while i < nums.len()
        invariant
            i <= nums@.len(),
            gnums == nums_view(nums@),
            find_num(gnums, name@) == find_num_from(gnums, name@, i as int),
        decreases nums@.len() - i,
    {
        if nums[i].name.eq(name) {
            return Some(i);
        }
        i = i + 1;
    }
    None
}

/// The index of `name` among the collected definitions, if present.
pub fn find_def_exec(defs: &Vec<FootnoteDef>, name: &String) -> (r: Option<usize>)
    ensures
        match r {
            Some(i) => find_def(defs_view(defs@), name@) == Some(i as int) && i < defs@.len(),
            None => find_def(defs_view(defs@), name@) is None,
        },
{
    let ghost gdefs = defs_view(defs@);
    let mut i: usize = 0;
    while i < defs.len()
        invariant
            i <= defs@.len(),
            gdefs == defs_view(defs@),
            find_def(gdefs, name@) == find_def_from(gdefs, name@, i as int),
        decreases defs@.len() - i,
    {
        if defs[i].name.eq(name) {
            return Some(i);
        }
        i = i + 1;
    }
    None
}

/// Builds the inline reference fragment.
fn ref_fragment_exec(name: &String, number: usize, usage: usize) -> (r: String)
    ensures
        r@ == ref_fragment(name@, number as int, usage as int),
{
    let mut s = String::from_str("<sup class=\"footnote-reference\" id=\"fr-");
    s.append(name.as_str());
    s.append("-");
    let u = dec_string(usage);
    s.append(u.as_str());
    s.append("\"><a href=\"#fn-");
    s.append(name.as_str());
    s.append("\">[");
    let n = dec_string(number);
    s.append(n.as_str());
    s.append("]</a></sup>");
    assert(s@ =~= ref_fragment(name@, number as int, usage as int));
    s
}

/// Appends an event to the innermost open buffer.
fn push_top_exec(stack: &mut Vec<FootnoteDef>, e: MdEvent)
    requires
        old(stack)@.len() > 0,
    ensures
        defs_view(final(stack)@) == push_top(defs_view(old(stack)@), e@),
{
    let d_opt = stack.pop();
    match d_opt {
        Some(mut d) => {
            d.events.push(e);
            stack.push(d);
            assert(defs_view(final(stack)@) =~~= push_top(defs_view(old(stack)@), e@));
        },
        None => {
            // A pop from a vector known non-empty cannot come back empty.
            proof {
                assert(false);
            }
        },
    }
}

/// Consumes one event, updating the state as [`step`] says.
fn apply_event(st: &mut TransState, e: MdEvent)
    requires
        old(st).nums@.len() < usize::MAX,
        forall|j: int|
            0 <= j < old(st).nums@.len() ==> #[trigger] old(st).nums@[j].uses < usize::MAX,
    ensures
        final(st)@ == step(old(st)@, e@),
{
    let ghost gst = st@;
    let ghost ge = e@;
    match e {
        MdEvent::FootnoteDefStart(name) => {
            let buf = vec![MdEvent::FootnoteDefStart(name.clone())];
            st.stack.push(FootnoteDef { name, events: buf });
            assert(defs_view(st.stack@) =~~= step(gst, ge).stack);
            assert(st@ =~~= step(gst, ge));
        },
        MdEvent::FootnoteDefEnd => {
            if st.stack.len() > 0 {
                let d_opt = st.stack.pop();
                match d_opt {
                    Some(mut d) => {
                        d.events.push(MdEvent::FootnoteDefEnd);
                        match find_def_exec(&st.defs, &d.name) {
                            Some(j) => {
                                proof {
                                    lemma_find_def_from_in_range(defs_view(st.defs@), d.name@, 0);
                                }
                                st.defs.remove(j);
                                st.defs.insert(j, d);
                                assert(defs_view(st.defs@) =~~= step(gst, ge).defs);
                            },
                            None => {
                                st.defs.push(d);
                                assert(defs_view(st.defs@) =~~= step(gst, ge).defs);
                            },
                        }
                        assert(defs_view(st.stack@) =~~= step(gst, ge).stack);
                        assert(st@ =~~= step(gst, ge));
                    },
                    None => {
                        // A pop from a vector known non-empty cannot come
                        // back empty.
                        proof {
                            assert(false);
                        }
                    },
                }
            } else {
                assert(st@ =~~= step(gst, ge));
            }
        },
        MdEvent::FootnoteRef(name) => {
            let (number, usage): (usize, usize) = match find_num_exec(&st.nums, &name) {
                Some(i) => {
                    proof {
                        lemma_find_num_from_in_range(nums_view(st.nums@), name@, 0);
                    }
                    let row = st.nums.remove(i);
                    let u = row.uses + 1;
                    st.nums.insert(i, FootnoteUse { name: row.name, uses: u });
                    assert(nums_view(st.nums@) =~= bump_nums(gst.nums, name@).0);
                    (i + 1, u)
                },
                None => {
                    let n = st.nums.len() + 1;
                    st.nums.push(FootnoteUse { name: name.clone(), uses: 1 });
                    assert(nums_view(st.nums@) =~= bump_nums(gst.nums, name@).0);
                    (n, 1)
                },
            };
            let frag = ref_fragment_exec(&name, number, usage);
            let ev = MdEvent::Html(frag);
            assert(ev@ == MdEventV::Html(
                ref_fragment(name@, bump_nums(gst.nums, name@).1, bump_nums(gst.nums, name@).2),
            ));
            if st.stack.len() == 0 {
                st.out.push(ev);
                assert(evs_view(st.out@) =~~= step(gst, ge).out);
                assert(st@ =~~= step(gst, ge));
            } else {
                push_top_exec(&mut st.stack, ev);
                assert(st@ =~~= step(gst, ge));
            }
        },
        e => {
            if st.stack.len() > 0 {
                push_top_exec(&mut st.stack, e);
                assert(st@ =~~= step(gst, ge));
            } else {
                match e {
                    MdEvent::CodeStart(tag) => {
                        let t = trim(tag.as_str());
                        let is_meta = t.eq(&String::from_str("meta"));
                        if is_meta {
                            st.mode = Mode::MetaCapture;
                        } else {
                            st.mode = Mode::CodeCapture(t);
                        }
                        assert(st@ =~~= step(gst, ge));
                    },
                    MdEvent::CodeEnd => {
                        let mut mode = Mode::Normal;
                        core::mem::swap(&mut mode, &mut st.mode);
                        match mode {
                            Mode::Normal => {
                                st.out.push(MdEvent::CodeEnd);
                                assert(evs_view(st.out@) =~~= step(gst, ge).out);
                                assert(st@ =~~= step(gst, ge));
                            },
                            Mode::MetaCapture => {
                                match parse_meta_text(st.mbuf.as_str()) {
                                    Some(m) => {
                                        st.meta = Some(m);
                                    },
                                    None => {},
                                }
                                st.mbuf = String::new();
                                assert(st@ =~~= step(gst, ge));
                            },
                            Mode::CodeCapture(lang) => {
                                let html = highlight(st.code.as_str(), lang.as_str());
                                st.out.push(MdEvent::Html(html));
                                st.code = String::new();
                                assert(evs_view(st.out@) =~~= step(gst, ge).out);
                                assert(st@ =~~= step(gst, ge));
                            },
                        }
                    },
                    MdEvent::Text(t) => {
                        match &st.mode {
                            Mode::Normal => {
                                st.out.push(MdEvent::Text(t));
                                assert(evs_view(st.out@) =~~= step(gst, ge).out);
                                assert(st@ =~~= step(gst, ge));
                            },
                            Mode::MetaCapture => {
                                st.mbuf.append(t.as_str());
                                assert(st@ =~~= step(gst, ge));
                            },
                            Mode::CodeCapture(_) => {
                                st.code.append(t.as_str());
                                assert(st@ =~~= step(gst, ge));
                            },
                        }
                    },
                    other => {
                        st.out.push(other);
                        assert(evs_view(st.out@) =~~= step(gst, ge).out);
                        assert(st@ =~~= step(gst, ge));
                    },
                }
            }
        },
    }
}

/// Runs the transformer over a whole document's events.
pub fn transform_events(events: &Vec<MdEvent>) -> (r: TransState)
    ensures
        r@ == run(evs_view(events@)),
{
    let mut st = TransState {
        out: Vec::new(),
        mode: Mode::Normal,
        code: String::new(),
        mbuf: String::new(),
        meta: None,
        stack: Vec::new(),
        defs: Vec::new(),
        nums: Vec::new(),
    };
    let ghost all = evs_view(events@);
    proof {
        assert(evs_view(Seq::<MdEvent>::empty()) =~= Seq::<MdEventV>::empty());
        assert(st@ =~~= init_state());
        assert(all.take(0) =~= Seq::<MdEventV>::empty());
    }
    let n = events.len();
    let mut i: usize = 0;
    while i < n
        invariant
            n == events@.len(),
            i <= n,
            all == evs_view(events@),
            st@ == run(all.take(i as int)),
            st.nums@.len() <= i,
            forall|j: int| 0 <= j < st.nums@.len() ==> #[trigger] st.nums@[j].uses <= i,
        decreases n - i,
    {
        let e = events[i].clone();
        let ghost pre = run(all.take(i as int));
        let ghost pre_nums = st.nums@;
        proof {
            lemma_run_from_snoc(init_state(), all.take(i as int), all[i as int]);
            assert(all.take(i + 1) =~= all.take(i as int).push(all[i as int]));
            assert(e@ == all[i as int]);
            assert forall|j: int| 0 <= j < pre.nums.len() implies #[trigger] pre.nums[j].uses
                <= i by {
                assert(pre.nums[j] == pre_nums[j]@);
            }
            lemma_step_uses_growth(pre, all[i as int], i as int);
        }
        apply_event(&mut st, e);
        proof {
            assert(st@ == run(all.take(i + 1)));
            assert(nums_view(st.nums@) == st@.nums);
            assert(st.nums@.len() == st@.nums.len());
            assert forall|j: int| 0 <= j < st.nums@.len() implies #[trigger] st.nums@[j].uses <= i
                + 1 by {
                assert(st@.nums[j] == st.nums@[j]@);
                assert(st@.nums == step(pre, all[i as int]).nums);
                assert(step(pre, all[i as int]).nums[j].uses <= i + 1);
            }
        }
        i = i + 1;
    }
    proof {
        assert(all.take(n as int) =~= all);
    }
    st
}

/// One step raises no usage count above one more than the old bound.
proof fn lemma_step_uses_growth(st: TransStateV, e: MdEventV, b: int)
    requires
        b >= 0,
        forall|j: int| 0 <= j < st.nums.len() ==> #[trigger] st.nums[j].uses <= b,
    ensures
        step(st, e).nums.len() <= st.nums.len() + 1,
        forall|j: int| 0 <= j < step(st, e).nums.len() ==> #[trigger] step(st, e).nums[j].uses <= b
            + 1,
{
    if let MdEventV::FootnoteRef(name) = e {
        lemma_find_num_from_in_range(st.nums, name, 0);
    }
}

} // verus!
