//! Document metadata and the embedded front-matter block.
//!
//! A fenced code block whose language tag is `meta` carries a key/value
//! record. Its text is parsed by the `toml` crate behind a trusted wrapper;
//! the recognized keys — `title` (string, required), `date` (date or
//! date-time, required), `lang` (string, optional), `desc` (string,
//! optional) — are then validated by verified code. Any unrecognized key,
//! missing required key, or wrongly typed value makes the whole block
//! invalid, and the caller's inferred metadata stays in force.

use vstd::prelude::*;
use crate::date::{DateTimeVal, DateVal};

verus! {

/// Resolved document metadata.
pub struct Meta {
    pub title: String,
    pub date: DateTimeVal,
    pub lang: Option<String>,
    pub desc: Option<String>,
}

/// The mathematical shape of a metadata record.
#[verifier::ext_equal]
pub ghost struct MetaV {
    pub title: Seq<char>,
    pub date: DateTimeVal,
    pub lang: Option<Seq<char>>,
    pub desc: Option<Seq<char>>,
}

impl View for Meta {
    type V = MetaV;

    open spec fn view(&self) -> MetaV {
        MetaV {
            title: self.title@,
            date: self.date,
            lang: match self.lang {
                Some(s) => Some(s@),
                None => None,
            },
            desc: match self.desc {
                Some(s) => Some(s@),
                None => None,
            },
        }
    }
}

impl Clone for Meta {
    fn clone(&self) -> (r: Self)
        ensures
            r@ == self@,
    {
        Meta {
            title: self.title.clone(),
            date: self.date,
            lang: match &self.lang {
                Some(s) => Some(s.clone()),
                None => None,
            },
            desc: match &self.desc {
                Some(s) => Some(s.clone()),
                None => None,
            },
        }
    }
}

impl Meta {
    /// The fallback metadata a caller infers for a document: a title and a
    /// creation date, with no language or description.
    pub fn inferred(title: String, created: DateVal) -> (r: Meta)
        ensures
            r@ == (MetaV {
                title: title@,
                date: DateTimeVal {
                    year: created.year,
                    month: created.month,
                    day: created.day,
                    hour: 0,
                    minute: 0,
                    second: 0,
                },
                lang: None,
                desc: None,
            }),
    {
        Meta { title, date: DateTimeVal::from_date(created), lang: None, desc: None }
    }
}

/// A raw calendar date as the TOML parser hands it out.
#[derive(Clone, Copy, PartialEq, Eq, Structural, Debug)]
pub struct RawDate {
    pub year: u16,
    pub month: u8,
    pub day: u8,
}

/// A raw time of day as the TOML parser hands it out; the seconds may be
/// omitted in the source text.
#[derive(Clone, Copy, PartialEq, Eq, Structural, Debug)]
pub struct RawTime {
    pub hour: u8,
    pub minute: u8,
    pub second: Option<u8>,
}

/// A raw TOML value: a string, a timestamp (with its optional date and time
/// parts), or anything else.
pub enum RawVal {
    Str(String),
    Stamp(Option<RawDate>, Option<RawTime>),
    Other,
}

/// One key/value pair of a parsed TOML table.
pub struct RawEntry {
    pub key: String,
    pub val: RawVal,
}

/// The mathematical shape of a raw TOML value.
#[verifier::ext_equal]
pub ghost enum RawValV {
    Str(Seq<char>),
    Stamp(Option<RawDate>, Option<RawTime>),
    Other,
}

/// The mathematical shape of one table entry.
#[verifier::ext_equal]
pub ghost struct RawEntryV {
    pub key: Seq<char>,
    pub val: RawValV,
}

impl View for RawVal {
    type V = RawValV;

    open spec fn view(&self) -> RawValV {
        match self {
            RawVal::Str(s) => RawValV::Str(s@),
            RawVal::Stamp(d, t) => RawValV::Stamp(*d, *t),
            RawVal::Other => RawValV::Other,
        }
    }
}

impl View for RawEntry {
    type V = RawEntryV;

    open spec fn view(&self) -> RawEntryV {
        RawEntryV { key: self.key@, val: self.val@ }
    }
}

/// The entries of a parsed table, viewed one by one.
pub open spec fn entries_view(v: Seq<RawEntry>) -> Seq<RawEntryV> {
    v.map_values(|e: RawEntry| e@)
}

/// What the TOML parser makes of a text: its table's entries in table
/// order, or nothing when the text is not a well-formed TOML document.
pub uninterp spec fn toml_table_of(s: Seq<char>) -> Option<Seq<RawEntryV>>;

#[verifier::external_type_specification]
#[verifier::external_body]
pub struct ExTomlValue(toml::Value);

/// The conversion [`parse_toml_table`] applies to each table value: string
/// and datetime values are carried over as plain fields, values of any
/// other type are kept only as `Other`. A datetime's offset and fractional
/// seconds are dropped: an offset date-time is taken at face value.
#[verifier::external_body]
fn convert_toml_value(v: toml::Value) -> RawVal {
    match v {
        toml::Value::String(s) => RawVal::Str(s),
        toml::Value::Datetime(d) => RawVal::Stamp(
            d.date.map(|x| RawDate { year: x.year, month: x.month, day: x.day }),
            d.time.map(|t| RawTime { hour: t.hour, minute: t.minute, second: t.second }),
        ),
        _ => RawVal::Other,
    }
}

/// Relies on `toml::from_str::<toml::Table>`: parses TOML text into a
/// key/value table, or fails; each value is converted by
/// [`convert_toml_value`].
#[verifier::external_body]
fn parse_toml_table(text: &str) -> (r: Option<Vec<RawEntry>>)
    ensures
        match r {
            Some(v) => toml_table_of(text@) == Some(entries_view(v@)),
            None => toml_table_of(text@) is None,
        },
{
    let table: toml::Table = match toml::from_str(text) {
        Ok(t) => t,
        Err(_) => return None,
    };
    let mut out = Vec::new();
    for (key, v) in table {
        out.push(RawEntry { key, val: convert_toml_value(v) });
    }
    Some(out)
}

/// The first value under the given key, if any.
pub open spec fn spec_lookup(entries: Seq<RawEntryV>, key: Seq<char>) -> Option<RawValV>
    decreases entries.len(),
{
    if entries.len() == 0 {
        None
    } else if entries.first().key == key {
        Some(entries.first().val)
    } else {
        spec_lookup(entries.drop_first(), key)
    }
}

/// Whether a key is one this format recognizes.
pub open spec fn recognized_key(key: Seq<char>) -> bool {
    key == "title"@ || key == "date"@ || key == "lang"@ || key == "desc"@
}

/// The metadata named by a parsed table, when the table is a valid
/// front-matter record: every key recognized, `title` a string, `date` a
/// timestamp with a date part, `lang` and `desc` strings when present.
pub open spec fn meta_from_entries_spec(entries: Seq<RawEntryV>) -> Option<MetaV> {
    if !(forall|i: int| 0 <= i < entries.len() ==> recognized_key(entries[i].key)) {
        None
    } else {
        match (spec_lookup(entries, "title"@), spec_lookup(entries, "date"@)) {
            (Some(RawValV::Str(title)), Some(RawValV::Stamp(Some(d), t))) => {
                let lang = match spec_lookup(entries, "lang"@) {
                    Some(RawValV::Str(s)) => Some(Some(s)),
                    Some(_) => None,
                    None => Some(None),
                };
                let desc = match spec_lookup(entries, "desc"@) {
                    Some(RawValV::Str(s)) => Some(Some(s)),
                    Some(_) => None,
                    None => Some(None),
                };
                match (lang, desc) {
                    (Some(lang), Some(desc)) => Some(
                        MetaV {
                            title: title,
                            date: DateTimeVal {
                                year: d.year as i32,
                                month: d.month,
                                day: d.day,
                                hour: match t {
                                    Some(tv) => tv.hour,
                                    None => 0,
                                },
                                minute: match t {
                                    Some(tv) => tv.minute,
                                    None => 0,
                                },
                                second: match t {
                                    Some(tv) => match tv.second {
                                        Some(sec) => sec,
                                        None => 0,
                                    },
                                    None => 0,
                                },
                            },
                            lang: lang,
                            desc: desc,
                        },
                    ),
                    _ => None,
                }
            },
            _ => None,
        }
    }
}

/// What a front-matter block's text resolves to: the metadata when the text
/// is a valid record, nothing otherwise.
pub open spec fn meta_of_text(s: Seq<char>) -> Option<MetaV> {
    match toml_table_of(s) {
        Some(entries) => meta_from_entries_spec(entries),
        None => None,
    }
}

fn key_is(entry: &RawEntry, name: &str) -> (r: bool)
    ensures
        r == (entry.key@ == name@),
{
    let n = String::from_str(name);
    entry.key.eq(&n)
}

/// The first value under `name` among the entries.
fn lookup<'a>(entries: &'a Vec<RawEntry>, name: &str) -> (r: Option<&'a RawVal>)
    ensures
        match r {
            Some(v) => spec_lookup(entries_view(entries@), name@) == Some(v@),
            None => spec_lookup(entries_view(entries@), name@) is None,
        },
{
    let mut i: usize = 0;
    proof {
        assert(entries_view(entries@).skip(0) =~= entries_view(entries@));
    }
    while i < entries.len()
        invariant
            i <= entries@.len(),
            forall|k: int| 0 <= k < i ==> entries@[k].key@ != name@,
            spec_lookup(entries_view(entries@), name@) == spec_lookup(
                entries_view(entries@).skip(i as int),
                name@,
            ),
        decreases entries@.len() - i,
    {
        let ghost pre = entries_view(entries@).skip(i as int);
        if key_is(&entries[i], name) {
            proof {
                assert(pre.first() == entries@[i as int]@);
                reveal_with_fuel(spec_lookup, 2);
            }
            return Some(&entries[i].val);
        }
        proof {
            assert(pre.first() == entries@[i as int]@);
            reveal_with_fuel(spec_lookup, 2);
            assert(pre.drop_first() =~= entries_view(entries@).skip(i + 1));
        }
        i = i + 1;
    }
    proof {
        assert(entries_view(entries@).skip(i as int) =~= Seq::<RawEntryV>::empty());
    }
    None
}

/// Validates a parsed table as a front-matter record.
pub fn meta_from_entries(entries: &Vec<RawEntry>) -> (r: Option<Meta>)
    ensures
        match r {
            Some(m) => meta_from_entries_spec(entries_view(entries@)) == Some(m@),
            None => meta_from_entries_spec(entries_view(entries@)) is None,
        },
{
    let mut i: usize = 0;
    while i < entries.len()
        invariant
            i <= entries@.len(),
            forall|k: int| 0 <= k < i ==> recognized_key(#[trigger] entries@[k]@.key),
        decreases entries@.len() - i,
    {
        let e = &entries[i];
        if !(key_is(e, "title") || key_is(e, "date") || key_is(e, "lang") || key_is(e, "desc")) {
            assert(!recognized_key(entries_view(entries@)[i as int].key));
            return None;
        }
        i = i + 1;
    }
    assert(forall|k: int|
        0 <= k < entries_view(entries@).len() ==> recognized_key(
            #[trigger] entries_view(entries@)[k].key,
        ));
    let title: String = match lookup(entries, "title") {
        Some(RawVal::Str(s)) => s.clone(),
        _ => {
            return None;
        },
    };
    let (d, t): (RawDate, Option<RawTime>) = match lookup(entries, "date") {
        Some(RawVal::Stamp(Some(d), t)) => (*d, *t),
        _ => {
            return None;
        },
    };
    let lang: Option<String> = match lookup(entries, "lang") {
        Some(RawVal::Str(s)) => Some(s.clone()),
        None => None,
        Some(_) => {
            return None;
        },
    };
    let desc: Option<String> = match lookup(entries, "desc") {
        Some(RawVal::Str(s)) => Some(s.clone()),
        None => None,
        Some(_) => {
            return None;
        },
    };
    let date = DateTimeVal {
        year: d.year as i32,
        month: d.month,
        day: d.day,
        hour: match t {
            Some(tv) => tv.hour,
            None => 0,
        },
        minute: match t {
            Some(tv) => tv.minute,
            None => 0,
        },
        second: match t {
            Some(tv) => match tv.second {
                Some(sec) => sec,
                None => 0,
            },
            None => 0,
        },
    };
    Some(Meta { title, date, lang, desc })
}

/// Parses a front-matter block's text: TOML first, then validation.
pub fn parse_meta_text(text: &str) -> (r: Option<Meta>)
    ensures
        match r {
            Some(m) => meta_of_text(text@) == Some(m@),
            None => meta_of_text(text@) is None,
        },
{
    match parse_toml_table(text) {
        Some(entries) => meta_from_entries(&entries),
        None => None,
    }
}

/// The metadata the renderer gets: the embedded record when one was found,
/// the caller's inferred record otherwise.
pub open spec fn resolve_meta_spec(found: Option<MetaV>, inferred: MetaV) -> MetaV {
    match found {
        Some(m) => m,
        None => inferred,
    }
}

/// Resolves the metadata for a document.
pub fn resolve_meta(found: Option<Meta>, inferred: Meta) -> (r: Meta)
    ensures
        r@ == resolve_meta_spec(
            match found {
                Some(m) => Some(m@),
                None => None,
            },
            inferred@,
        ),
{
    match found {
        Some(m) => m,
        None => inferred,
    }
}

} // verus!
