//! Lock entries and their line codec.
//!
//! An entry is serialized as exactly one line of four `key=value` fields in
//! fixed order, with the labels `straight`, `depName`, `datasource`, `value`
//! (the label for the id is `straight` by design). Parsing splits the line
//! at the first occurrence of each label token in that order; values are not
//! escaped, so values containing a label token are outside the codec's
//! defined domain.

use crate::strutil;
use crate::strutil::{contains_sub, first_match_from, match_at, unique_head};
use vstd::prelude::*;
use vstd::string::StrSliceExecFns;
use vstd::string::StringExecFns;

verus! {

/// Label token opening a line.
pub open spec fn tok_head() -> Seq<char> {
    "straight="@
}

/// Label token before the dependency name.
pub open spec fn tok_dep() -> Seq<char> {
    " depName="@
}

/// Label token before the datasource.
pub open spec fn tok_source() -> Seq<char> {
    " datasource="@
}

/// Label token before the version value.
pub open spec fn tok_value() -> Seq<char> {
    " value="@
}

/// Mathematical model of a lock entry: the four field contents.
#[verifier::ext_equal]
pub ghost struct EntryV {
    pub value: Seq<char>,
    pub datasource: Seq<char>,
    pub dep_name: Seq<char>,
    pub id: Seq<char>,
}

/// One persisted lock entry: a tracked dependency id, the version pin
/// recorded for it, and the provenance of the dependency.
#[derive(Debug)]
pub struct Entry {
    value: String,
    datasource: String,
    dep_name: String,
    id: String,
}

/// A lock-file line that does not have the four-field shape; carries the
/// offending line for diagnostics.
#[derive(Debug)]
pub struct ParseEntryError(pub String);

impl View for ParseEntryError {
    type V = Seq<char>;

    open spec fn view(&self) -> Seq<char> {
        self.0@
    }
}

impl View for Entry {
    type V = EntryV;

    closed spec fn view(&self) -> EntryV {
        EntryV { value: self.value@, datasource: self.datasource@, dep_name: self.dep_name@, id: self.id@ }
    }
}

impl DeepView for Entry {
    type V = EntryV;

    open spec fn deep_view(&self) -> EntryV {
        self.view()
    }
}

impl PartialEq for Entry {
    fn eq(&self, other: &Entry) -> (r: bool) {
        self.value == other.value && self.datasource == other.datasource && self.dep_name
            == other.dep_name && self.id == other.id
    }
}

impl vstd::std_specs::cmp::PartialEqSpecImpl for Entry {
    open spec fn obeys_eq_spec() -> bool {
        true
    }

    open spec fn eq_spec(&self, other: &Entry) -> bool {
        self@ == other@
    }
}

/// The serialized form of an entry: the four fields joined by the label
/// tokens, in fixed order.
pub open spec fn line_of(e: EntryV) -> Seq<char> {
    tok_head() + e.id + tok_dep() + e.dep_name + tok_source() + e.datasource + tok_value()
        + e.value
}

/// The parse of one line: the line must open with the `straight=` label;
/// each further label token is located at its first occurrence, in order;
/// every field must be nonempty. `None` when the line fails this shape.
pub open spec fn parse_line(s: Seq<char>) -> Option<EntryV> {
    if !match_at(s, tok_head(), 0) {
        None
    } else {
        match first_match_from(s, tok_dep(), tok_head().len() as int) {
            None => None,
            Some(i1) => match first_match_from(s, tok_source(), i1 + tok_dep().len()) {
                None => None,
                Some(i2) => match first_match_from(s, tok_value(), i2 + tok_source().len()) {
                    None => None,
                    Some(i3) => {
                        let id = s.subrange(tok_head().len() as int, i1);
                        let dep_name = s.subrange(i1 + tok_dep().len(), i2);
                        let datasource = s.subrange(i2 + tok_source().len(), i3);
                        let value = s.skip(i3 + tok_value().len());
                        if id.len() == 0 || dep_name.len() == 0 || datasource.len() == 0
                            || value.len() == 0 {
                            None
                        } else {
                            Some(EntryV { value, datasource, dep_name, id })
                        }
                    },
                },
            },
        }
    }
}

/// A field value the codec can round-trip: nonempty, free of the three
/// label tokens, and without newlines (the lock file is line-oriented).
pub open spec fn field_clean(f: Seq<char>) -> bool {
    &&& f.len() > 0
    &&& !contains_sub(f, tok_dep())
    &&& !contains_sub(f, tok_source())
    &&& !contains_sub(f, tok_value())
    &&& forall|i: int| 0 <= i < f.len() ==> #[trigger] f[i] != '\n'
}

/// Every field of the entry is clean in the sense of [`field_clean`].
pub open spec fn entry_clean(e: EntryV) -> bool {
    &&& field_clean(e.id)
    &&& field_clean(e.dep_name)
    &&& field_clean(e.datasource)
    &&& field_clean(e.value)
}

proof fn lemma_tok_dep_unique()
    ensures
        unique_head(tok_dep()),
        tok_dep().len() == 9,
{
    reveal_strlit(" depName=");
}

proof fn lemma_tok_source_unique()
    ensures
        unique_head(tok_source()),
        tok_source().len() == 12,
{
    reveal_strlit(" datasource=");
}

proof fn lemma_tok_value_unique()
    ensures
        unique_head(tok_value()),
        tok_value().len() == 7,
{
    reveal_strlit(" value=");
}

/// Codec round trip: parsing the serialized form of an entry yields the
/// entry back, for every entry whose field values are nonempty and free of
/// the label tokens and newlines.
pub proof fn lemma_parse_serialize(e: EntryV)
    requires
        entry_clean(e),
    ensures
        parse_line(line_of(e)) == Some(e),
{
    lemma_tok_dep_unique();
    lemma_tok_source_unique();
    lemma_tok_value_unique();
    let line = line_of(e);
    let hn = tok_head().len() as int;
    assert(match_at(line, tok_head(), 0)) by {
        assert(line.subrange(0, hn) =~= tok_head());
    }
    let b1 = e.dep_name + tok_source() + e.datasource + tok_value() + e.value;
    assert(line =~= tok_head() + e.id + tok_dep() + b1);
    strutil::lemma_first_match_seam(tok_head(), e.id, tok_dep(), b1);
    let i1 = hn + e.id.len() as int;
    assert(first_match_from(line, tok_dep(), hn) == Some(i1));
    let pre2 = tok_head() + e.id + tok_dep();
    let b2 = e.datasource + tok_value() + e.value;
    assert(line =~= pre2 + e.dep_name + tok_source() + b2);
    strutil::lemma_first_match_seam(pre2, e.dep_name, tok_source(), b2);
    let i2 = i1 + tok_dep().len() + e.dep_name.len() as int;
    assert(first_match_from(line, tok_source(), i1 + tok_dep().len()) == Some(i2));
    let pre3 = pre2 + e.dep_name + tok_source();
    assert(line =~= pre3 + e.datasource + tok_value() + e.value);
    strutil::lemma_first_match_seam(pre3, e.datasource, tok_value(), e.value);
    let i3 = i2 + tok_source().len() + e.datasource.len() as int;
    assert(first_match_from(line, tok_value(), i2 + tok_source().len()) == Some(i3));
    assert(line.subrange(hn, i1) =~= e.id);
    assert(line.subrange(i1 + tok_dep().len(), i2) =~= e.dep_name);
    assert(line.subrange(i2 + tok_source().len(), i3) =~= e.datasource);
    assert(line.skip(i3 + tok_value().len()) =~= e.value);
    assert(parse_line(line) == Some(e)) by {
        assert(EntryV {
            value: line.skip(i3 + tok_value().len()),
            datasource: line.subrange(i2 + tok_source().len(), i3),
            dep_name: line.subrange(i1 + tok_dep().len(), i2),
            id: line.subrange(hn, i1),
        } =~= e);
    }
}

impl Entry {
    /// Build an entry from its four field values.
    pub fn new(value: String, datasource: String, dep_name: String, id: String) -> (e: Entry)
        ensures
            e@ == (EntryV { value: value@, datasource: datasource@, dep_name: dep_name@, id: id@ }),
    {
        Entry { value, datasource, dep_name, id }
    }

    /// Whether this entry is the one recorded for `id`.
    pub fn has_id(&self, id: &str) -> (r: bool)
        ensures
            r == (self@.id == id@),
    {
        strutil::str_eq(id, self.id.as_str())
    }

    /// The tracked dependency identifier.
    pub fn get_id(&self) -> (r: String)
        ensures
            r@ == self@.id,
    {
        self.id.clone()
    }

    /// The version pin recorded for the id.
    pub fn get_value(&self) -> (r: String)
        ensures
            r@ == self@.value,
    {
        self.value.clone()
    }

    /// Serialize the entry as its single lock-file line.
    pub fn serialize(&self) -> (r: String)
        ensures
            r@ == line_of(self@),
    {
        let mut out = String::from_str("straight=");
        out.append(self.id.as_str());
        out.append(" depName=");
        out.append(self.dep_name.as_str());
        out.append(" datasource=");
        out.append(self.datasource.as_str());
        out.append(" value=");
        out.append(self.value.as_str());
        out
    }

    /// Parse one lock-file line. Returns the entry exactly when the line
    /// has the four-field shape; otherwise the error carries the line.
    pub fn parse(s: &str) -> (r: Result<Entry, ParseEntryError>)
        ensures
            match parse_line(s@) {
                Some(ev) => r matches Ok(e) && e@ == ev,
                None => r matches Err(pe) && pe@ == s@,
            },
    {
        proof {
            reveal_strlit("straight=");
            reveal_strlit(" depName=");
            reveal_strlit(" datasource=");
            reveal_strlit(" value=");
        }
        let slen: usize = s.unicode_len();
        let head = "straight=";
        let hlen: usize = head.unicode_len();
        if !strutil::str_starts_with(s, head) {
            proof {
                assert(s@.subrange(0, tok_head().len() as int) == s@.take(tok_head().len() as int));
            }
            return Err(ParseEntryError(s.to_owned()));
        }
        proof {
            assert(s@.subrange(0, tok_head().len() as int) == s@.take(tok_head().len() as int));
        }
        let d1 = " depName=";
        let i1 = match strutil::find_from(s, d1, hlen) {
            Some(i) => i,
            None => {
                return Err(ParseEntryError(s.to_owned()));
            },
        };
        proof {
            strutil::lemma_first_match_some(s@, tok_dep(), hlen as int, i1 as int);
        }
        let d2 = " datasource=";
        let i2 = match strutil::find_from(s, d2, i1 + d1.unicode_len()) {
            Some(i) => i,
            None => {
                return Err(ParseEntryError(s.to_owned()));
            },
        };
        proof {
            strutil::lemma_first_match_some(s@, tok_source(), i1 + tok_dep().len(), i2 as int);
        }
        let d3 = " value=";
        let i3 = match strutil::find_from(s, d3, i2 + d2.unicode_len()) {
            Some(i) => i,
            None => {
                return Err(ParseEntryError(s.to_owned()));
            },
        };
        proof {
            strutil::lemma_first_match_some(s@, tok_value(), i2 + tok_source().len(), i3 as int);
        }
        let id_start = hlen;
        let dep_start = i1 + d1.unicode_len();
        let source_start = i2 + d2.unicode_len();
        let value_start = i3 + d3.unicode_len();
        if i1 == id_start || i2 == dep_start || i3 == source_start || value_start == slen {
            return Err(ParseEntryError(s.to_owned()));
        }
        let id = strutil::substring(s, id_start, i1);
        let dep_name = strutil::substring(s, dep_start, i2);
        let datasource = strutil::substring(s, source_start, i3);
        let value = strutil::substring(s, value_start, slen);
        proof {
            assert(s@.subrange(value_start as int, slen as int) == s@.skip(
                i3 + tok_value().len(),
            ));
        }
        Ok(Entry { value, datasource, dep_name, id })
    }
}

} // verus!
