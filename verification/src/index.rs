//! The document index: one entry per note, ordered newest first, and the
//! markdown list the index page is generated from.

use vstd::prelude::*;
use vstd::multiset::Multiset;
use crate::date::{DateVal, date_le, date_le_exec, date_str, push_date};

verus! {

broadcast use vstd::seq_lib::group_to_multiset_ensures;

/// One indexed note: its display title, its creation date, and its path
/// relative to the content root.
pub struct IndexedDocument {
    pub title: String,
    pub created: DateVal,
    pub rel_path: String,
}

/// The mathematical shape of an index entry.
#[verifier::ext_equal]
pub ghost struct IndexedDocumentV {
    pub title: Seq<char>,
    pub created: DateVal,
    pub rel_path: Seq<char>,
}

impl View for IndexedDocument {
    type V = IndexedDocumentV;

    open spec fn view(&self) -> IndexedDocumentV {
        IndexedDocumentV { title: self.title@, created: self.created, rel_path: self.rel_path@ }
    }
}

impl Clone for IndexedDocument {
    fn clone(&self) -> (r: Self)
        ensures
            r@ == self@,
    {
        IndexedDocument {
            title: self.title.clone(),
            created: self.created,
            rel_path: self.rel_path.clone(),
        }
    }
}

/// Newest first: every entry's date is at most every earlier entry's date.
pub open spec fn sorted_newest_first(s: Seq<IndexedDocument>) -> bool {
    forall|a: int, b: int|
        0 <= a < b < s.len() ==> date_le(#[trigger] s[b].created, #[trigger] s[a].created)
}

/// The first position holding a maximal date: every entry's date is at
/// most the found one, and every earlier entry's date is strictly smaller.
fn find_newest(v: &Vec<IndexedDocument>) -> (m: usize)
    requires
        v@.len() > 0,
    ensures
        m < v@.len(),
        forall|j: int| 0 <= j < v@.len() ==> date_le((#[trigger] v@[j]).created, v@[m as int].created),
        forall|k: int| 0 <= k < m ==> !date_le(v@[m as int].created, (#[trigger] v@[k]).created),
{
    let mut m: usize = 0;
    let mut j: usize = 1;
    while j < v.len()
        invariant
            m < j <= v@.len(),
            forall|k: int| 0 <= k < j ==> date_le((#[trigger] v@[k]).created, v@[m as int].created),
            forall|k: int| 0 <= k < m ==> !date_le(v@[m as int].created, (#[trigger] v@[k]).created),
        decreases v@.len() - j,
    {
        if !date_le_exec(&v[j].created, &v[m].created) {
            m = j;
        }
        j = j + 1;
    }
    m
}

/// The entries carrying one given date, in their order of appearance.
pub open spec fn with_date(s: Seq<IndexedDocument>, d: DateVal) -> Seq<IndexedDocument> {
    s.filter(|x: IndexedDocument| x.created == d)
}

proof fn lemma_with_date_empty(d: DateVal)
    ensures
        with_date(Seq::empty(), d) == Seq::<IndexedDocument>::empty(),
{
    reveal(Seq::filter);
}

proof fn lemma_with_date_singleton(x: IndexedDocument, d: DateVal)
    ensures
        with_date(seq![x], d) == if x.created == d {
            seq![x]
        } else {
            Seq::<IndexedDocument>::empty()
        },
{
    reveal(Seq::filter);
    lemma_with_date_empty(d);
    assert(seq![x].drop_last() =~= Seq::<IndexedDocument>::empty());
    assert(seq![x].last() == x);
    if x.created == d {
        assert(with_date(seq![x], d) =~= seq![x]);
    } else {
        assert(with_date(seq![x], d) =~= Seq::<IndexedDocument>::empty());
    }
}

proof fn lemma_with_date_add(a: Seq<IndexedDocument>, b: Seq<IndexedDocument>, d: DateVal)
    ensures
        with_date(a + b, d) == with_date(a, d) + with_date(b, d),
{
    Seq::filter_distributes_over_add(a, b, |x: IndexedDocument| x.created == d);
}

proof fn lemma_with_date_none(s: Seq<IndexedDocument>, d: DateVal)
    requires
        forall|i: int| 0 <= i < s.len() ==> (#[trigger] s[i]).created != d,
    ensures
        with_date(s, d) == Seq::<IndexedDocument>::empty(),
    decreases s.len(),
{
    reveal(Seq::filter);
    if s.len() > 0 {
        lemma_with_date_none(s.drop_last(), d);
        assert(s.last() == s[s.len() - 1]);
    }
}

/// Orders the index newest first. The result holds exactly the entries
/// given, as a multiset, and the sort is stable: the entries carrying any
/// one date keep their input order.
pub fn sort_index(v: Vec<IndexedDocument>) -> (r: Vec<IndexedDocument>)
    ensures
        r@.len() == v@.len(),
        sorted_newest_first(r@),
        r@.to_multiset() == v@.to_multiset(),
        forall|d: DateVal| #[trigger] with_date(r@, d) == with_date(v@, d),
{
    let mut rest = v;
    let ghost orig = rest@;
    let mut out: Vec<IndexedDocument> = Vec::new();
    proof {
        assert(out@.to_multiset().add(rest@.to_multiset()) =~= orig.to_multiset());
        assert forall|d: DateVal| #[trigger] with_date(out@, d) + with_date(rest@, d)
            == with_date(orig, d) by {
            lemma_with_date_empty(d);
            assert(Seq::<IndexedDocument>::empty() + with_date(orig, d) =~= with_date(orig, d));
        }
    }
    while rest.len() > 0
        invariant
            out@.len() + rest@.len() == orig.len(),
            sorted_newest_first(out@),
            forall|a: int, b: int|
                0 <= a < out@.len() && 0 <= b < rest@.len() ==> date_le(
                    (#[trigger] rest@[b]).created,
                    (#[trigger] out@[a]).created,
                ),
            out@.to_multiset().add(rest@.to_multiset()) == orig.to_multiset(),
            forall|d: DateVal| #[trigger] with_date(out@, d) + with_date(rest@, d) == with_date(
                orig,
                d,
            ),
        decreases rest@.len(),
    {
        let ghost pre_out = out@;
        let ghost pre_rest = rest@;
        let m = find_newest(&rest);
        let x = rest.remove(m);
        out.push(x);
        proof {
            assert(pre_rest.remove(m as int).to_multiset() =~= pre_rest.to_multiset().remove(
                pre_rest[m as int],
            ));
            assert(out@.to_multiset() =~= pre_out.to_multiset().insert(pre_rest[m as int]));
            assert(out@.to_multiset().add(rest@.to_multiset()) =~= orig.to_multiset());
            assert forall|a: int, b: int|
                0 <= a < out@.len() && 0 <= b < rest@.len() implies date_le(
                (#[trigger] rest@[b]).created,
                (#[trigger] out@[a]).created,
            ) by {
                if b < m {
                    assert(rest@[b] == pre_rest[b]);
                } else {
                    assert(rest@[b] == pre_rest[b + 1]);
                }
            }
            let head = pre_rest.take(m as int);
            let tail = pre_rest.skip(m + 1);
            assert(pre_rest =~= head + seq![x] + tail);
            assert(rest@ =~= head + tail);
            assert(out@ =~= pre_out + seq![x]);
            assert forall|d: DateVal| #[trigger] with_date(out@, d) + with_date(rest@, d)
                == with_date(orig, d) by {
                lemma_with_date_add(head + seq![x], tail, d);
                lemma_with_date_add(head, seq![x], d);
                lemma_with_date_add(head, tail, d);
                lemma_with_date_add(pre_out, seq![x], d);
                lemma_with_date_singleton(x, d);
                if x.created == d {
                    // Every entry ahead of the extracted one carries a
                    // strictly smaller date, so none carries this one.
                    assert forall|i: int| 0 <= i < head.len() implies (#[trigger] head[i]).created
                        != d by {
                        assert(head[i] == pre_rest[i]);
                        assert(!date_le(x.created, pre_rest[i].created));
                    }
                    lemma_with_date_none(head, d);
                    assert(with_date(out@, d) + with_date(rest@, d) =~= (with_date(pre_out, d)
                        + with_date(pre_rest, d)));
                } else {
                    assert(with_date(out@, d) + with_date(rest@, d) =~= (with_date(pre_out, d)
                        + with_date(pre_rest, d)));
                }
            }
        }
    }
    proof {
        assert(rest@.to_multiset() =~= Multiset::<IndexedDocument>::empty());
        assert(out@.to_multiset() =~= orig.to_multiset());
        assert forall|d: DateVal| #[trigger] with_date(out@, d) == with_date(orig, d) by {
            assert(rest@ =~= Seq::<IndexedDocument>::empty());
            lemma_with_date_empty(d);
            assert(with_date(out@, d) + Seq::<IndexedDocument>::empty() =~= with_date(out@, d));
        }
    }
    out
}

/// One line of the index list.
pub open spec fn index_item(d: IndexedDocumentV) -> Seq<char> {
    "<li> <time datetime=\""@ + date_str(d.created) + "\">"@ + date_str(d.created)
        + "</time> - <a href=\"/note/"@ + d.rel_path + "\">"@ + d.title + "</a></li>"@
}

/// The index list lines for entries `k` onward.
pub open spec fn index_items_from(s: Seq<IndexedDocumentV>, k: int) -> Seq<char>
    decreases s.len() - k,
{
    if k < 0 || k >= s.len() {
        Seq::empty()
    } else {
        index_item(s[k]) + index_items_from(s, k + 1)
    }
}

/// The index page's markdown: a bare list holding one dated link per note.
pub open spec fn index_markdown(s: Seq<IndexedDocumentV>) -> Seq<char> {
    "<ol style=\"list-style-type: none\">"@ + index_items_from(s, 0) + "</ol>"@
}

/// The entries viewed one by one.
pub open spec fn index_view(s: Seq<IndexedDocument>) -> Seq<IndexedDocumentV> {
    s.map_values(|d: IndexedDocument| d@)
}

/// Generates the index page's markdown from the (already ordered) index.
pub fn index_list_html(index: &Vec<IndexedDocument>) -> (r: String)
    ensures
        r@ == index_markdown(index_view(index@)),
{
    let ghost all = index_view(index@);
    let mut s = String::from_str("<ol style=\"list-style-type: none\">");
    let ghost head = s@;
    let mut k: usize = 0;
    while k < index.len()
        invariant
            k <= index@.len(),
            all == index_view(index@),
            head == "<ol style=\"list-style-type: none\">"@,
            s@ + index_items_from(all, k as int) == head + index_items_from(all, 0),
        decreases index@.len() - k,
    {
        let ghost pre = s@;
        let d = &index[k];
        s.append("<li> <time datetime=\"");
        push_date(&mut s, &d.created);
        s.append("\">");
        push_date(&mut s, &d.created);
        s.append("</time> - <a href=\"/note/");
        s.append(d.rel_path.as_str());
        s.append("\">");
        s.append(d.title.as_str());
        s.append("</a></li>");
        proof {
            assert(all[k as int] == index@[k as int]@);
            assert(s@ =~= pre + index_item(all[k as int]));
            assert(s@ + index_items_from(all, k + 1) =~= pre + index_items_from(all, k as int));
        }
        k = k + 1;
    }
    s.append("</ol>");
    proof {
        assert(index_items_from(all, index@.len() as int) =~= Seq::<char>::empty());
        assert(s@ =~= index_markdown(all));
    }
    s
}

} // verus!
