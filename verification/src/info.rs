//! The info mapping of a record: an ordered list of entries with distinct
//! keys, each holding values of one kind that may change from write to write.

use vstd::prelude::*;
use vstd::string::*;
use crate::text::{copy_texts, texts};
use crate::value::{copy_bits, copy_ints, Value, ValueView};

verus! {

/// How many values an entry is declared to hold.
#[derive(Clone, Copy, PartialEq, Eq, Structural, Debug)]
pub enum TagLength {
    /// Exactly this many values.
    Fixed(u32),
    /// One value per alternate allele.
    AltAlleles,
    /// One value per allele.
    Alleles,
    /// One value per genotype.
    Genotypes,
    /// Any number of values.
    Variable,
}

/// The values of one entry.
#[derive(Debug, PartialEq, Eq)]
pub enum InfoValues {
    Flag,
    Integer(Vec<i64>),
    Float(Vec<u64>),
    Text(Vec<String>),
}

/// The mathematical content of [`InfoValues`].
pub enum InfoValuesView {
    Flag,
    Integer(Seq<i64>),
    Float(Seq<u64>),
    Text(Seq<Seq<char>>),
}

impl View for InfoValues {
    type V = InfoValuesView;

    open spec fn view(&self) -> InfoValuesView {
        match self {
            InfoValues::Flag => InfoValuesView::Flag,
            InfoValues::Integer(v) => InfoValuesView::Integer(v@),
            InfoValues::Float(v) => InfoValuesView::Float(v@),
            InfoValues::Text(v) => InfoValuesView::Text(texts(v@)),
        }
    }
}

/// One entry of the info mapping.
#[derive(Debug, PartialEq, Eq)]
pub struct InfoEntry {
    pub key: String,
    pub length: TagLength,
    pub values: InfoValues,
}

/// The mathematical content of an [`InfoEntry`].
pub struct InfoEntryView {
    pub key: Seq<char>,
    pub length: TagLength,
    pub values: InfoValuesView,
}

impl View for InfoEntry {
    type V = InfoEntryView;

    open spec fn view(&self) -> InfoEntryView {
        InfoEntryView { key: self.key@, length: self.length, values: self.values@ }
    }
}

/// The contents of the entries of a mapping, in order.
pub open spec fn entries_view(entries: Seq<InfoEntry>) -> Seq<InfoEntryView> {
    entries.map_values(|e: InfoEntry| e@)
}

/// First character of a key: a letter or an underscore.
pub open spec fn key_head(c: char) -> bool {
    ('a' <= c <= 'z') || ('A' <= c <= 'Z') || c == '_'
}

/// Later character of a key: a letter, a digit, an underscore or a dot.
pub open spec fn key_tail(c: char) -> bool {
    key_head(c) || ('0' <= c <= '9') || c == '.'
}

/// A well-formed info key: not empty, a head character, then tail characters.
pub open spec fn key_valid(key: Seq<char>) -> bool {
    &&& key.len() > 0
    &&& key_head(key[0])
    &&& forall|i: int| 1 <= i < key.len() ==> key_tail(#[trigger] key[i])
}

/// What a script reads from an entry: the single value where the entry is
/// declared to hold exactly one and holds at least one, else the whole list.
/// A flag reads as null.
pub open spec fn info_value(length: TagLength, values: InfoValuesView) -> ValueView {
    match values {
        InfoValuesView::Flag => ValueView::Null,
        InfoValuesView::Integer(v) => if length == TagLength::Fixed(1) && v.len() > 0 {
            ValueView::Int(v[0])
        } else {
            ValueView::IntList(v)
        },
        InfoValuesView::Float(v) => if length == TagLength::Fixed(1) && v.len() > 0 {
            ValueView::Float(v[0])
        } else {
            ValueView::FloatList(v)
        },
        InfoValuesView::Text(v) => if length == TagLength::Fixed(1) && v.len() > 0 {
            ValueView::Str(v[0])
        } else {
            ValueView::StrList(v)
        },
    }
}

/// Whether a script value can be stored in an entry.
pub open spec fn storable(value: ValueView) -> bool {
    match value {
        ValueView::Int(_) => true,
        ValueView::Float(_) => true,
        ValueView::Str(_) => true,
        ValueView::IntList(_) => true,
        ValueView::FloatList(_) => true,
        ValueView::StrList(_) => true,
        _ => false,
    }
}

/// The declared length under which a script value is stored: one for a
/// scalar, any number for a list.
pub open spec fn stored_length(value: ValueView) -> TagLength {
    match value {
        ValueView::Int(_) => TagLength::Fixed(1),
        ValueView::Float(_) => TagLength::Fixed(1),
        ValueView::Str(_) => TagLength::Fixed(1),
        _ => TagLength::Variable,
    }
}

/// The values under which a script value is stored.
pub open spec fn stored_values(value: ValueView) -> InfoValuesView {
    match value {
        ValueView::Int(i) => InfoValuesView::Integer(seq![i]),
        ValueView::Float(f) => InfoValuesView::Float(seq![f]),
        ValueView::Str(s) => InfoValuesView::Text(seq![s]),
        ValueView::IntList(v) => InfoValuesView::Integer(v),
        ValueView::FloatList(v) => InfoValuesView::Float(v),
        ValueView::StrList(v) => InfoValuesView::Text(v),
        _ => InfoValuesView::Flag,
    }
}

/// Whether some entry has the key.
pub open spec fn has_key(entries: Seq<InfoEntryView>, key: Seq<char>) -> bool {
    exists|i: int| 0 <= i < entries.len() && (#[trigger] entries[i]).key == key
}

/// The index of an entry with the key; meaningful where `has_key` holds.
pub open spec fn key_index(entries: Seq<InfoEntryView>, key: Seq<char>) -> int {
    choose|i: int| 0 <= i < entries.len() && (#[trigger] entries[i]).key == key
}

/// No two entries share a key.
pub open spec fn keys_distinct(entries: Seq<InfoEntryView>) -> bool {
    forall|i: int, j: int|
        0 <= i < j < entries.len() ==> (#[trigger] entries[i]).key != (#[trigger] entries[j]).key
}

/// Every entry has a well-formed key.
pub open spec fn keys_valid(entries: Seq<InfoEntryView>) -> bool {
    forall|i: int| 0 <= i < entries.len() ==> key_valid((#[trigger] entries[i]).key)
}

/// What a script reads under a key: the entry's value, or null where no
/// entry has the key.
pub open spec fn lookup(entries: Seq<InfoEntryView>, key: Seq<char>) -> ValueView {
    if has_key(entries, key) {
        let e = entries[key_index(entries, key)];
        info_value(e.length, e.values)
    } else {
        ValueView::Null
    }
}

/// The mapping after an entry was put into it: the entry with the same key
/// is replaced in place, or the new entry is added at the end.
pub open spec fn placed(entries: Seq<InfoEntryView>, entry: InfoEntryView) -> Seq<InfoEntryView> {
    if has_key(entries, entry.key) {
        entries.update(key_index(entries, entry.key), entry)
    } else {
        entries.push(entry)
    }
}

/// The mapping after a script value was written under a key.
pub open spec fn stored(entries: Seq<InfoEntryView>, key: Seq<char>, value: ValueView) -> Seq<
    InfoEntryView,
> {
    placed(
        entries,
        InfoEntryView { key, length: stored_length(value), values: stored_values(value) },
    )
}

/// Putting an entry into a mapping keeps the keys distinct and well formed;
/// the entry is then found under its key, and every other key is found as
/// before.
pub proof fn lemma_placed(entries: Seq<InfoEntryView>, entry: InfoEntryView, other: Seq<char>)
    requires
        keys_distinct(entries),
    ensures
        keys_distinct(placed(entries, entry)),
        keys_valid(entries) && key_valid(entry.key) ==> keys_valid(placed(entries, entry)),
        has_key(placed(entries, entry), entry.key),
        placed(entries, entry)[key_index(placed(entries, entry), entry.key)] == entry,
        has_key(placed(entries, entry), other) == (other == entry.key || has_key(entries, other)),
        other != entry.key && has_key(entries, other) ==> placed(entries, entry)[key_index(
            placed(entries, entry),
            other,
        )] == entries[key_index(entries, other)],
{
    let after = placed(entries, entry);
    let key = entry.key;
    if has_key(entries, key) {
        let k = key_index(entries, key);
        assert(after[k] == entry);
        assert forall|i: int| 0 <= i < after.len() implies (#[trigger] after[i]).key
            == entries[i].key by {}
        assert(has_key(after, key));
        let k2 = key_index(after, key);
        assert(entries[k2].key == key);
        assert(k2 == k);
        if other != key {
            if has_key(entries, other) {
                let o = key_index(entries, other);
                assert(after[o].key == other);
                assert(has_key(after, other));
                let o2 = key_index(after, other);
                assert(entries[o2].key == other);
                assert(o2 == o);
            } else {
                if has_key(after, other) {
                    let o2 = key_index(after, other);
                    assert(entries[o2].key == other);
                }
            }
        }
    } else {
        let n = entries.len() as int;
        assert(after[n] == entry);
        assert forall|i: int| 0 <= i < n implies (#[trigger] after[i]) == entries[i] by {}
        assert(has_key(after, key));
        let k2 = key_index(after, key);
        if k2 < n {
            assert(entries[k2].key == key);
        }
        assert(k2 == n);
        if other != key {
            if has_key(entries, other) {
                let o = key_index(entries, other);
                assert(after[o].key == other);
                assert(has_key(after, other));
                let o2 = key_index(after, other);
                assert(o2 < n);
                assert(entries[o2].key == other);
                assert(o2 == o);
            } else {
                if has_key(after, other) {
                    let o2 = key_index(after, other);
                    assert(o2 < n);
                    assert(entries[o2].key == other);
                }
            }
        }
    }
}

/// Reading a stored script value gives it back unchanged.
pub proof fn lemma_stored_value_reads_back(value: ValueView)
    requires
        storable(value),
    ensures
        info_value(stored_length(value), stored_values(value)) == value,
{
}

/// A write keeps the keys distinct and well formed, and a read of the
/// written key gives the written value; every other key reads as before.
pub proof fn lemma_stored_then_lookup(
    entries: Seq<InfoEntryView>,
    key: Seq<char>,
    value: ValueView,
    other: Seq<char>,
)
    requires
        keys_distinct(entries),
        storable(value),
    ensures
        keys_distinct(stored(entries, key, value)),
        keys_valid(entries) && key_valid(key) ==> keys_valid(stored(entries, key, value)),
        lookup(stored(entries, key, value), key) == value,
        other != key ==> lookup(stored(entries, key, value), other) == lookup(entries, other),
        has_key(stored(entries, key, value), other) == (other == key || has_key(entries, other)),
{
    lemma_stored_value_reads_back(value);
    lemma_placed(
        entries,
        InfoEntryView { key, length: stored_length(value), values: stored_values(value) },
        other,
    );
}

/// Whether the text is a well-formed info key.
pub fn key_is_valid(key: &str) -> (out: bool)
    ensures
        out == key_valid(key@),
{
    if !key.is_ascii() {
        proof {
            if key_valid(key@) {
                assert forall|i: int| 0 <= i < key@.len() implies '\0' <= #[trigger] key@[i]
                    <= '\u{7f}' by {}
            }
        }
        return false;
    }
    let bytes = key.as_bytes();
    proof {
        is_ascii_spec_bytes(key);
    }
    let n = bytes.len();
    if n == 0 {
        return false;
    }
    let first = bytes[0];
    let head = (0x61 <= first && first <= 0x7a) || (0x41 <= first && first <= 0x5a) || first
        == 0x5f;
    if !head {
        return false;
    }
    let mut i: usize = 1;
    while i < n
        invariant
            1 <= i <= n,
            n == key@.len(),
            n == bytes@.len(),
            is_ascii(key),
            forall|j: int| 0 <= j < n ==> bytes@[j] == key@[j] as u8,
            forall|j: int| 1 <= j < i ==> key_tail(#[trigger] key@[j]),
        decreases n - i,
    {
        let b = bytes[i];
        let tail = (0x61 <= b && b <= 0x7a) || (0x41 <= b && b <= 0x5a) || b == 0x5f || (0x30 <= b
            && b <= 0x39) || b == 0x2e;
        if !tail {
            return false;
        }
        i += 1;
    }
    true
}

/// What a script reads from an entry.
pub fn read_entry(entry: &InfoEntry) -> (out: Value)
    ensures
        out@ == info_value(entry.length, entry.values@),
{
    let single = match entry.length {
        TagLength::Fixed(n) => n == 1,
        _ => false,
    };
    match &entry.values {
        InfoValues::Flag => Value::Null,
        InfoValues::Integer(v) => if single && v.len() > 0 {
            Value::Int(v[0])
        } else {
            Value::IntList(copy_ints(v))
        },
        InfoValues::Float(v) => if single && v.len() > 0 {
            Value::Float(v[0])
        } else {
            Value::FloatList(copy_bits(v))
        },
        InfoValues::Text(v) => if single && v.len() > 0 {
            Value::Str(v[0].clone())
        } else {
            Value::StrList(copy_texts(v))
        },
    }
}

/// The entry under which a script value is stored, or `None` where the
/// value is of a kind that no entry holds.
pub fn entry_for(key: &str, value: &Value) -> (out: Option<InfoEntry>)
    ensures
        out.is_some() == storable(value@),
        out matches Some(e) ==> e@ == (InfoEntryView {
            key: key@,
            length: stored_length(value@),
            values: stored_values(value@),
        }),
{
    let values = match value {
        Value::Int(i) => {
            let mut v: Vec<i64> = Vec::new();
            v.push(*i);
            InfoValues::Integer(v)
        },
        Value::Float(f) => {
            let mut v: Vec<u64> = Vec::new();
            v.push(*f);
            InfoValues::Float(v)
        },
        Value::Str(s) => {
            let mut v: Vec<String> = Vec::new();
            v.push(s.clone());
            assert(texts(v@) =~= seq![s@]);
            InfoValues::Text(v)
        },
        Value::IntList(v) => InfoValues::Integer(copy_ints(v)),
        Value::FloatList(v) => InfoValues::Float(copy_bits(v)),
        Value::StrList(v) => InfoValues::Text(copy_texts(v)),
        _ => {
            return None;
        },
    };
    let length = match value {
        Value::Int(_) => TagLength::Fixed(1),
        Value::Float(_) => TagLength::Fixed(1),
        Value::Str(_) => TagLength::Fixed(1),
        _ => TagLength::Variable,
    };
    Some(InfoEntry { key: String::from_str(key), length, values })
}

/// The index of the entry with the key, if there is one.
pub fn find_key(entries: &Vec<InfoEntry>, key: &str) -> (out: Option<usize>)
    ensures
        out.is_some() == has_key(entries_view(entries@), key@),
        out matches Some(i) ==> i < entries.len() && entries[i as int].key@ == key@,
        out matches Some(i) ==> keys_distinct(entries_view(entries@)) ==> i == key_index(
            entries_view(entries@),
            key@,
        ),
{
    let wanted = String::from_str(key);
    let ghost view = entries_view(entries@);
    let mut i: usize = 0;
    while i < entries.len()
        invariant
            i <= entries.len(),
            wanted@ == key@,
            view == entries_view(entries@),
            forall|j: int| 0 <= j < i ==> (#[trigger] view[j]).key != key@,
        decreases entries.len() - i,
    {
        if entries[i].key == wanted {
            assert(view[i as int].key == key@);
            return Some(i);
        }
        i += 1;
    }
    None
}

} // verus!
