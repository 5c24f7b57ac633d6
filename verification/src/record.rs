//! The host-owned variant record, as the bridge sees it: plain values with
//! read accessors and validating write accessors.

use vstd::prelude::*;
use vstd::string::*;
use crate::error::{done_view, BridgeError, ErrorView};
use crate::info::{
    entries_view, entry_for, find_key, key_is_valid, key_valid, keys_distinct, keys_valid,
    lemma_placed, lookup, placed, read_entry, storable, stored, InfoEntry, InfoEntryView,
    InfoValues,
};
use crate::text::{copy_texts, join, joined, texts};
use crate::value::{copy_bits, copy_ints, Allele, Value, ValueView};

verus! {

/// The largest 0-based position a record can have.
pub const MAX_POSITION: i64 = 0x7fff_ffff;

/// The rows of a genotype matrix, each as a sequence of calls.
pub open spec fn rows_view(rows: Seq<Vec<Allele>>) -> Seq<Seq<Allele>> {
    rows.map_values(|r: Vec<Allele>| r@)
}

/// A variant record.
#[derive(Debug)]
pub struct Record {
    id: String,
    chrom: Option<String>,
    pos: i64,
    rlen: i64,
    reference: String,
    alternates: Vec<String>,
    filters: Vec<String>,
    info: Vec<InfoEntry>,
    genotypes: Vec<Vec<Allele>>,
}

/// The mathematical content of a [`Record`].
pub struct RecordView {
    pub id: Seq<char>,
    /// The name of the contig, where the record refers to one.
    pub chrom: Option<Seq<char>>,
    /// The 0-based position of the first base.
    pub pos: int,
    /// The number of reference bases the record spans.
    pub rlen: int,
    pub reference: Seq<char>,
    pub alternates: Seq<Seq<char>>,
    pub filters: Seq<Seq<char>>,
    pub info: Seq<InfoEntryView>,
    /// One row per sample, one call per allele.
    pub genotypes: Seq<Seq<Allele>>,
}

impl RecordView {
    /// The invariant of a record: position and length within range, an
    /// info mapping with distinct, well-formed keys, and a genotype matrix
    /// that fits in memory.
    pub open spec fn wf(self) -> bool {
        &&& 0 <= self.pos <= MAX_POSITION
        &&& 0 <= self.rlen <= MAX_POSITION
        &&& keys_distinct(self.info)
        &&& keys_valid(self.info)
        &&& self.genotypes.len() <= usize::MAX
        &&& forall|i: int|
            0 <= i < self.genotypes.len() ==> (#[trigger] self.genotypes[i]).len() <= usize::MAX
    }

    /// The 1-based position of the first base.
    pub open spec fn start(self) -> int {
        self.pos + 1
    }

    /// The 1-based position of the last base the record spans.
    pub open spec fn stop(self) -> int {
        self.pos + self.rlen
    }

    /// The contig name, or a dot where the record refers to none.
    pub open spec fn chrom_text(self) -> Seq<char> {
        match self.chrom {
            Some(name) => name,
            None => seq!['.'],
        }
    }

    /// The filter names, separated by commas.
    pub open spec fn filter_text(self) -> Seq<char> {
        joined(self.filters, seq![','])
    }
}

impl View for Record {
    type V = RecordView;

    closed spec fn view(&self) -> RecordView {
        RecordView {
            id: self.id@,
            chrom: match self.chrom {
                Some(name) => Some(name@),
                None => None,
            },
            pos: self.pos as int,
            rlen: self.rlen as int,
            reference: self.reference@,
            alternates: texts(self.alternates@),
            filters: texts(self.filters@),
            info: entries_view(self.info@),
            genotypes: rows_view(self.genotypes@),
        }
    }
}

impl Record {
    /// Whether the record meets its invariant.
    pub open spec fn wf(&self) -> bool {
        self@.wf()
    }

    /// A record without info entries and without samples, or `None` where
    /// the position or the length is out of range.
    pub fn new(
        id: &str,
        chrom: Option<&str>,
        pos: i64,
        rlen: i64,
        reference: &str,
        alternates: Vec<String>,
        filters: Vec<String>,
    ) -> (out: Option<Record>)
        ensures
            out.is_some() == (0 <= pos <= MAX_POSITION && 0 <= rlen <= MAX_POSITION),
            out matches Some(r) ==> r.wf() && r@ == (RecordView {
                id: id@,
                chrom: match chrom {
                    Some(name) => Some(name@),
                    None => None,
                },
                pos: pos as int,
                rlen: rlen as int,
                reference: reference@,
                alternates: texts(alternates@),
                filters: texts(filters@),
                info: Seq::empty(),
                genotypes: Seq::empty(),
            }),
    {
        if pos < 0 || pos > MAX_POSITION || rlen < 0 || rlen > MAX_POSITION {
            return None;
        }
        let chrom = match chrom {
            Some(name) => Some(String::from_str(name)),
            None => None,
        };
        let r = Record {
            id: String::from_str(id),
            chrom,
            pos,
            rlen,
            reference: String::from_str(reference),
            alternates,
            filters,
            info: Vec::new(),
            genotypes: Vec::new(),
        };
        assert(r@.info =~= Seq::empty());
        assert(r@.genotypes =~= Seq::empty());
        Some(r)
    }

    /// The identifier.
    pub fn id(&self) -> (out: String)
        ensures
            out@ == self@.id,
    {
        self.id.clone()
    }

    /// The contig name, or a dot where the record refers to none.
    pub fn chrom(&self) -> (out: String)
        ensures
            out@ == self@.chrom_text(),
    {
        match &self.chrom {
            Some(name) => name.clone(),
            None => {
                proof {
                    reveal_strlit(".");
                }
                String::from_str(".")
            },
        }
    }

    /// The 1-based position of the first base.
    pub fn start(&self) -> (out: i64)
        requires
            self.wf(),
        ensures
            out == self@.start(),
    {
        self.pos + 1
    }

    /// The 1-based position of the last base.
    pub fn stop(&self) -> (out: i64)
        requires
            self.wf(),
        ensures
            out == self@.stop(),
    {
        self.pos + self.rlen
    }

    /// The reference allele.
    pub fn reference(&self) -> (out: String)
        ensures
            out@ == self@.reference,
    {
        self.reference.clone()
    }

    /// The alternate alleles.
    pub fn alternates(&self) -> (out: Vec<String>)
        ensures
            texts(out@) == self@.alternates,
    {
        copy_texts(&self.alternates)
    }

    /// The filter names, separated by commas.
    pub fn filter(&self) -> (out: String)
        ensures
            out@ == self@.filter_text(),
    {
        proof {
            reveal_strlit(",");
        }
        assert(","@ =~= seq![',']);
        join(&self.filters, ",")
    }

    /// Moves the record to the contig of that name. An empty name is
    /// refused and leaves the record as it was.
    pub fn set_chrom(&mut self, name: &str) -> (out: Result<(), BridgeError>)
        ensures
            name@.len() > 0 ==> out is Ok && final(self)@ == (RecordView {
                chrom: Some(name@),
                ..old(self)@
            }),
            name@.len() == 0 ==> out == Err::<(), BridgeError>(BridgeError::TypeMismatch)
                && final(self)@ == old(self)@,
    {
        if name.is_empty() {
            return Err(BridgeError::TypeMismatch);
        }
        self.chrom = Some(String::from_str(name));
        Ok(())
    }

    /// Moves the record so that its first base is at the 1-based `start`.
    /// A start outside `1..=MAX_POSITION + 1` is refused and leaves the
    /// record as it was.
    pub fn set_start(&mut self, start: i64) -> (out: Result<(), BridgeError>)
        ensures
            1 <= start <= MAX_POSITION + 1 ==> out is Ok && final(self)@ == (RecordView {
                pos: start - 1,
                ..old(self)@
            }),
            !(1 <= start <= MAX_POSITION + 1) ==> out == Err::<(), BridgeError>(
                BridgeError::TypeMismatch,
            ) && final(self)@ == old(self)@,
    {
        if start < 1 || start > MAX_POSITION + 1 {
            return Err(BridgeError::TypeMismatch);
        }
        self.pos = start - 1;
        Ok(())
    }

    /// Replaces the identifier.
    pub fn set_id(&mut self, id: &str)
        ensures
            final(self)@ == (RecordView { id: id@, ..old(self)@ }),
    {
        self.id = String::from_str(id);
    }

    /// The number of info entries.
    pub fn info_len(&self) -> (out: usize)
        ensures
            out == self@.info.len(),
    {
        self.info.len()
    }

    /// The info keys, in the order of the entries.
    pub fn info_keys(&self) -> (out: Vec<String>)
        ensures
            texts(out@) == self@.info.map_values(|e: InfoEntryView| e.key),
    {
        let mut out: Vec<String> = Vec::new();
        let mut i: usize = 0;
        while i < self.info.len()
            invariant
                i <= self.info.len(),
                out.len() == i,
                forall|j: int| 0 <= j < i ==> out[j]@ == self.info[j].key@,
            decreases self.info.len() - i,
        {
            out.push(self.info[i].key.clone());
            i += 1;
        }
        out
    }

    /// What a script reads under an info key: the entry's value, or null
    /// where no entry has the key.
    pub fn info_get(&self, key: &str) -> (out: Value)
        requires
            self.wf(),
        ensures
            out@ == lookup(self@.info, key@),
    {
        match find_key(&self.info, key) {
            Some(i) => read_entry(&self.info[i]),
            None => Value::Null,
        }
    }

    /// Stores a script value under an info key, replacing the entry with
    /// that key or adding one at the end. A malformed key is refused with
    /// `InvalidKey`, a value of a kind that no entry holds with
    /// `TypeMismatch`; either leaves the record as it was.
    pub fn info_put(&mut self, key: &str, value: &Value) -> (out: Result<(), BridgeError>)
        requires
            old(self).wf(),
        ensures
            final(self).wf(),
            done_view(out) == put_result(key@, value@),
            final(self)@ == put_record(old(self)@, key@, value@),
    {
        if !key_is_valid(key) {
            return Err(BridgeError::InvalidKey { key: String::from_str(key) });
        }
        let entry = match entry_for(key, value) {
            Some(e) => e,
            None => {
                return Err(BridgeError::TypeMismatch);
            },
        };
        self.info_insert(entry)
    }

    /// Puts an entry into the info mapping as the host declares it, with
    /// its length and its values, replacing the entry with the same key or
    /// adding one at the end. A malformed key is refused with `InvalidKey`
    /// and leaves the record as it was.
    pub fn info_insert(&mut self, entry: InfoEntry) -> (out: Result<(), BridgeError>)
        requires
            old(self).wf(),
        ensures
            final(self).wf(),
            done_view(out) == if key_valid(entry@.key) {
                Ok::<(), ErrorView>(())
            } else {
                Err::<(), ErrorView>(ErrorView::InvalidKey { key: entry@.key })
            },
            final(self)@ == if key_valid(entry@.key) {
                RecordView { info: placed(old(self)@.info, entry@), ..old(self)@ }
            } else {
                old(self)@
            },
    {
        if !key_is_valid(entry.key.as_str()) {
            return Err(BridgeError::InvalidKey { key: entry.key });
        }
        proof {
            lemma_placed(old(self)@.info, entry@, entry@.key);
        }
        let ghost before = entries_view(self.info@);
        match find_key(&self.info, entry.key.as_str()) {
            Some(i) => {
                self.info[i] = entry;
                assert(entries_view(self.info@) =~= before.update(i as int, entry@));
            },
            None => {
                self.info.push(entry);
                assert(entries_view(self.info@) =~= before.push(entry@));
            },
        }
        Ok(())
    }

    /// Adds the genotype row of one more sample.
    pub fn push_sample(&mut self, calls: Vec<Allele>)
        requires
            old(self).wf(),
        ensures
            final(self).wf(),
            final(self)@ == (RecordView {
                genotypes: old(self)@.genotypes.push(calls@),
                ..old(self)@
            }),
    {
        let ghost before = rows_view(self.genotypes@);
        self.genotypes.push(calls);
        assert(rows_view(self.genotypes@) =~= before.push(calls@));
        assert forall|i: int| 0 <= i < self@.genotypes.len() implies (
        #[trigger] self@.genotypes[i]).len() <= usize::MAX by {
            assert(self.genotypes[i]@.len() == self.genotypes[i].len());
        }
        assert(self@.genotypes.len() == self.genotypes.len());
    }

    /// The number of samples.
    pub fn sample_count(&self) -> (out: usize)
        ensures
            out == self@.genotypes.len(),
    {
        self.genotypes.len()
    }

    /// The number of calls in the row of a sample, or `None` where there is
    /// no such sample.
    pub fn allele_count(&self, sample: usize) -> (out: Option<usize>)
        ensures
            out == if sample < self@.genotypes.len() {
                Some(self@.genotypes[sample as int].len() as usize)
            } else {
                None
            },
    {
        if sample < self.genotypes.len() {
            Some(self.genotypes[sample].len())
        } else {
            None
        }
    }

    /// The call at a 0-based place in the row of a sample, or `None` where
    /// there is no such sample or no such place.
    pub fn allele(&self, sample: usize, place: usize) -> (out: Option<Allele>)
        ensures
            out == if sample < self@.genotypes.len() && place
                < self@.genotypes[sample as int].len() {
                Some(self@.genotypes[sample as int][place as int])
            } else {
                None
            },
    {
        if sample < self.genotypes.len() {
            if place < self.genotypes[sample].len() {
                return Some(self.genotypes[sample][place]);
            }
        }
        None
    }

    /// An independent copy with the same content.
    pub fn duplicate(&self) -> (out: Record)
        ensures
            out@ == self@,
    {
        let mut info: Vec<InfoEntry> = Vec::new();
        let mut i: usize = 0;
        while i < self.info.len()
            invariant
                i <= self.info.len(),
                info.len() == i,
                forall|j: int| 0 <= j < i ==> info[j]@ == self.info[j]@,
            decreases self.info.len() - i,
        {
            let e = &self.info[i];
            let values = match &e.values {
                InfoValues::Flag => InfoValues::Flag,
                InfoValues::Integer(v) => InfoValues::Integer(
                    copy_ints(v),
                ),
                InfoValues::Float(v) => InfoValues::Float(
                    copy_bits(v),
                ),
                InfoValues::Text(v) => InfoValues::Text(copy_texts(v)),
            };
            info.push(InfoEntry { key: e.key.clone(), length: e.length, values });
            i += 1;
        }
        assert(entries_view(info@) =~= entries_view(self.info@));
        let mut genotypes: Vec<Vec<Allele>> = Vec::new();
        let mut s: usize = 0;
        while s < self.genotypes.len()
            invariant
                s <= self.genotypes.len(),
                genotypes.len() == s,
                forall|j: int| 0 <= j < s ==> genotypes[j]@ == self.genotypes[j]@,
            decreases self.genotypes.len() - s,
        {
            let row = &self.genotypes[s];
            let mut copy: Vec<Allele> = Vec::new();
            let mut k: usize = 0;
            while k < row.len()
                invariant
                    k <= row.len(),
                    copy.len() == k,
                    forall|j: int| 0 <= j < k ==> copy[j] == row[j],
                decreases row.len() - k,
            {
                copy.push(row[k]);
                k += 1;
            }
            genotypes.push(copy);
            s += 1;
        }
        assert(rows_view(genotypes@) =~= rows_view(self.genotypes@));
        Record {
            id: self.id.clone(),
            chrom: match &self.chrom {
                Some(name) => Some(name.clone()),
                None => None,
            },
            pos: self.pos,
            rlen: self.rlen,
            reference: self.reference.clone(),
            alternates: copy_texts(&self.alternates),
            filters: copy_texts(&self.filters),
            info,
            genotypes,
        }
    }
}

/// What a write to the info mapping returns.
pub open spec fn put_result(key: Seq<char>, value: ValueView) -> Result<(), ErrorView> {
    if !key_valid(key) {
        Err(ErrorView::InvalidKey { key })
    } else if !storable(value) {
        Err(ErrorView::TypeMismatch)
    } else {
        Ok(())
    }
}

/// The record after a write to the info mapping.
pub open spec fn put_record(record: RecordView, key: Seq<char>, value: ValueView) -> RecordView {
    if put_result(key, value) is Ok {
        RecordView { info: stored(record.info, key, value), ..record }
    } else {
        record
    }
}

} // verus!
