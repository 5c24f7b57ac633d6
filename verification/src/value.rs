//! Values that cross the boundary between the host and the script.

use vstd::prelude::*;
use vstd::string::*;
use crate::text::{copy_texts, signed_decimal, signed_text, texts};

verus! {

/// One allele call of a genotype, with the phase mark that precedes it.
#[derive(Clone, Copy, PartialEq, Eq, Structural, Debug)]
pub enum Allele {
    /// An allele index that is not phased with its predecessor.
    Unphased(i32),
    /// An allele index that is phased with its predecessor.
    Phased(i32),
    /// A missing call, not phased.
    UnphasedMissing,
    /// A missing call, phased.
    PhasedMissing,
}

impl Allele {
    /// The allele index, if the call is not missing.
    pub open spec fn index_spec(self) -> Option<i32> {
        match self {
            Allele::Unphased(i) => Some(i),
            Allele::Phased(i) => Some(i),
            Allele::UnphasedMissing => None,
            Allele::PhasedMissing => None,
        }
    }

    /// Whether the call carries the phased separator.
    pub open spec fn phased_spec(self) -> bool {
        match self {
            Allele::Unphased(_) => false,
            Allele::Phased(_) => true,
            Allele::UnphasedMissing => false,
            Allele::PhasedMissing => true,
        }
    }

    /// The call as text: the allele index, or a dot for a missing call,
    /// after a bar where the call is phased.
    pub open spec fn text(self) -> Seq<char> {
        match self {
            Allele::Unphased(i) => signed_decimal(i as int),
            Allele::Phased(i) => seq!['|'] + signed_decimal(i as int),
            Allele::UnphasedMissing => seq!['.'],
            Allele::PhasedMissing => seq!['|', '.'],
        }
    }

    /// Writes the call as text.
    pub fn render(&self) -> (out: String)
        ensures
            out@ == self.text(),
    {
        proof {
            reveal_strlit("|");
            reveal_strlit(".");
            reveal_strlit("|.");
        }
        match self {
            Allele::Unphased(i) => signed_text(*i as i64),
            Allele::Phased(i) => {
                let mut out = String::from_str("|");
                let digits = signed_text(*i as i64);
                out.append(digits.as_str());
                out
            },
            Allele::UnphasedMissing => {
                String::from_str(".")
            },
            Allele::PhasedMissing => {
                String::from_str("|.")
            },
        }
    }

    /// The allele index, if the call is not missing.
    pub fn index(&self) -> (out: Option<i32>)
        ensures
            out == self.index_spec(),
    {
        match self {
            Allele::Unphased(i) => Some(*i),
            Allele::Phased(i) => Some(*i),
            Allele::UnphasedMissing => None,
            Allele::PhasedMissing => None,
        }
    }

    /// Whether the call carries the phased separator.
    pub fn is_phased(&self) -> (out: bool)
        ensures
            out == self.phased_spec(),
    {
        match self {
            Allele::Unphased(_) => false,
            Allele::Phased(_) => true,
            Allele::UnphasedMissing => false,
            Allele::PhasedMissing => true,
        }
    }
}

/// A value a script can hold. A floating-point number is carried as the bit
/// pattern of an IEEE-754 double, so that the bridge never does arithmetic on it.
#[derive(Debug, PartialEq, Eq)]
pub enum Value {
    Null,
    Bool(bool),
    Int(i64),
    Float(u64),
    Str(String),
    IntList(Vec<i64>),
    FloatList(Vec<u64>),
    StrList(Vec<String>),
    Allele(Allele),
    /// A handle to a bridged object, by its index in the handle table.
    Handle(usize),
}

/// The mathematical content of a [`Value`].
pub enum ValueView {
    Null,
    Bool(bool),
    Int(i64),
    Float(u64),
    Str(Seq<char>),
    IntList(Seq<i64>),
    FloatList(Seq<u64>),
    StrList(Seq<Seq<char>>),
    Allele(Allele),
    Handle(usize),
}

impl View for Value {
    type V = ValueView;

    open spec fn view(&self) -> ValueView {
        match self {
            Value::Null => ValueView::Null,
            Value::Bool(b) => ValueView::Bool(*b),
            Value::Int(i) => ValueView::Int(*i),
            Value::Float(f) => ValueView::Float(*f),
            Value::Str(s) => ValueView::Str(s@),
            Value::IntList(v) => ValueView::IntList(v@),
            Value::FloatList(v) => ValueView::FloatList(v@),
            Value::StrList(v) => ValueView::StrList(texts(v@)),
            Value::Allele(a) => ValueView::Allele(*a),
            Value::Handle(h) => ValueView::Handle(*h),
        }
    }
}

/// An independent copy of a list of integers.
pub fn copy_ints(list: &Vec<i64>) -> (out: Vec<i64>)
    ensures
        out@ == list@,
{
    let mut out: Vec<i64> = Vec::new();
    let mut i: usize = 0;
    while i < list.len()
        invariant
            i <= list.len(),
            out@ == list@.take(i as int),
        decreases list.len() - i,
    {
        out.push(list[i]);
        i += 1;
    }
    out
}

/// An independent copy of a list of bit patterns.
pub fn copy_bits(list: &Vec<u64>) -> (out: Vec<u64>)
    ensures
        out@ == list@,
{
    let mut out: Vec<u64> = Vec::new();
    let mut i: usize = 0;
    while i < list.len()
        invariant
            i <= list.len(),
            out@ == list@.take(i as int),
        decreases list.len() - i,
    {
        out.push(list[i]);
        i += 1;
    }
    out
}

impl Value {
    /// An independent copy with the same content.
    pub fn duplicate(&self) -> (out: Value)
        ensures
            out@ == self@,
    {
        match self {
            Value::Null => Value::Null,
            Value::Bool(b) => Value::Bool(*b),
            Value::Int(i) => Value::Int(*i),
            Value::Float(f) => Value::Float(*f),
            Value::Str(s) => Value::Str(s.clone()),
            Value::IntList(v) => Value::IntList(copy_ints(v)),
            Value::FloatList(v) => Value::FloatList(copy_bits(v)),
            Value::StrList(v) => Value::StrList(copy_texts(v)),
            Value::Allele(a) => Value::Allele(*a),
            Value::Handle(h) => Value::Handle(*h),
        }
    }
}

} // verus!
