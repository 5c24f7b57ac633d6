//! The accessors: what each getter, setter, method and reserved slot does to
//! the part of a record that a handle stands for.

use vstd::prelude::*;
use vstd::string::*;
use crate::cell::Projection;
use crate::descriptor::{Buffer, Getter, Method, Setter};
use crate::error::{done_view, BridgeError, ErrorView};
use crate::info::{key_is_valid, key_valid, lookup, InfoEntryView};
use crate::record::{put_record, put_result, MAX_POSITION, Record, RecordView};
use crate::value::{Value, ValueView};

verus! {

/// What an accessor hands to the dispatcher: a value for the script, the
/// part of the object for which the dispatcher is to make a child handle, or
/// a copy of the record for which it is to make a shared cell and a handle.
#[derive(Debug)]
pub enum Fetched {
    Value(Value),
    Child(Projection),
    Copy(Record),
}

/// The mathematical content of [`Fetched`].
pub enum FetchedView {
    Value(ValueView),
    Child(Projection),
    Copy(RecordView),
}

impl View for Fetched {
    type V = FetchedView;

    open spec fn view(&self) -> FetchedView {
        match self {
            Fetched::Value(v) => FetchedView::Value(v@),
            Fetched::Child(p) => FetchedView::Child(*p),
            Fetched::Copy(r) => FetchedView::Copy(r@),
        }
    }
}

/// The mathematical content of the result of an accessor.
pub open spec fn fetched_view(result: Result<Fetched, BridgeError>) -> Result<
    FetchedView,
    ErrorView,
> {
    match result {
        Ok(f) => Ok(f@),
        Err(e) => Err(e@),
    }
}

/// The mathematical content of the result of a call that returns a value.
pub open spec fn value_view(result: Result<Value, BridgeError>) -> Result<ValueView, ErrorView> {
    match result {
        Ok(v) => Ok(v@),
        Err(e) => Err(e@),
    }
}

/// What a getter reads from a part of a record. A getter that does not
/// apply to the part fails with `TypeMismatch`.
pub open spec fn read_of(record: RecordView, part: Option<Projection>, getter: Getter) -> Result<
    FetchedView,
    ErrorView,
> {
    match (part, getter) {
        (None, Getter::Chrom) => Ok(FetchedView::Value(ValueView::Str(record.chrom_text()))),
        (None, Getter::Start) => Ok(FetchedView::Value(ValueView::Int(record.start() as i64))),
        (None, Getter::Stop) => Ok(FetchedView::Value(ValueView::Int(record.stop() as i64))),
        (None, Getter::Id) => Ok(FetchedView::Value(ValueView::Str(record.id))),
        (None, Getter::Reference) => Ok(FetchedView::Value(ValueView::Str(record.reference))),
        (None, Getter::Alternates) => Ok(
            FetchedView::Value(ValueView::StrList(record.alternates)),
        ),
        (None, Getter::Filter) => Ok(FetchedView::Value(ValueView::Str(record.filter_text()))),
        (None, Getter::Info) => Ok(FetchedView::Child(Projection::Info)),
        (None, Getter::Genotypes) => Ok(FetchedView::Child(Projection::Genotypes)),
        (None, Getter::Copy) => Ok(FetchedView::Copy(record)),
        (Some(Projection::Info), Getter::Keys) => Ok(
            FetchedView::Value(
                ValueView::StrList(record.info.map_values(|e: InfoEntryView| e.key)),
            ),
        ),
        _ => Err(ErrorView::TypeMismatch),
    }
}

/// What a setter returns for a value. A setter that does not apply to the
/// part, or a value that the field cannot hold, fails with `TypeMismatch`.
pub open spec fn write_result(
    part: Option<Projection>,
    setter: Setter,
    value: ValueView,
) -> Result<(), ErrorView> {
    match (part, setter, value) {
        (None, Setter::Chrom, ValueView::Str(name)) => if name.len() > 0 {
            Ok(())
        } else {
            Err(ErrorView::TypeMismatch)
        },
        (None, Setter::Start, ValueView::Int(start)) => if 1 <= start <= MAX_POSITION + 1 {
            Ok(())
        } else {
            Err(ErrorView::TypeMismatch)
        },
        (None, Setter::Id, ValueView::Str(_)) => Ok(()),
        _ => Err(ErrorView::TypeMismatch),
    }
}

/// The record after a setter ran: changed in the one field where the setter
/// succeeds, unchanged where it fails.
pub open spec fn written(
    record: RecordView,
    part: Option<Projection>,
    setter: Setter,
    value: ValueView,
) -> RecordView {
    if write_result(part, setter, value) is Ok {
        match (setter, value) {
            (Setter::Chrom, ValueView::Str(name)) => RecordView { chrom: Some(name), ..record },
            (Setter::Start, ValueView::Int(start)) => RecordView { pos: start - 1, ..record },
            (Setter::Id, ValueView::Str(id)) => RecordView { id, ..record },
            _ => record,
        }
    } else {
        record
    }
}

/// The number of elements that the reserved slots of a buffer type see in a
/// part of a record. A buffer that does not apply to the part fails with
/// `TypeMismatch`.
pub open spec fn extent_of(record: RecordView, part: Option<Projection>, buffer: Buffer) -> Result<
    usize,
    ErrorView,
> {
    match (part, buffer) {
        (Some(Projection::Genotypes), Buffer::Samples) => Ok(record.genotypes.len() as usize),
        (Some(Projection::Sample(i)), Buffer::Alleles) => if i < record.genotypes.len() {
            Ok(record.genotypes[i as int].len() as usize)
        } else {
            Err(ErrorView::TypeMismatch)
        },
        _ => Err(ErrorView::TypeMismatch),
    }
}

/// The element at a 0-based host index of a buffer: a sample row as a
/// child, a call as a value. Meaningful where the index is below the extent.
pub open spec fn element_of(
    record: RecordView,
    part: Option<Projection>,
    buffer: Buffer,
    host: usize,
) -> FetchedView {
    match (part, buffer) {
        (Some(Projection::Sample(i)), Buffer::Alleles) => FetchedView::Value(
            ValueView::Allele(record.genotypes[i as int][host as int]),
        ),
        _ => FetchedView::Child(Projection::Sample(host)),
    }
}

/// The key that a method call names: its first argument, where that is a
/// string.
pub open spec fn key_argument(args: Seq<ValueView>) -> Option<Seq<char>> {
    if args.len() >= 1 {
        match args[0] {
            ValueView::Str(key) => Some(key),
            _ => None,
        }
    } else {
        None
    }
}

/// What a method returns. A read takes a key and gives the value stored
/// under it, or null where there is none; a write takes a key and a value
/// and gives null. A malformed key fails with `InvalidKey`; a method that
/// does not apply to the part, a wrong number of arguments, a key that is
/// no string or a value that no entry holds fails with `TypeMismatch`.
pub open spec fn invoke_result(
    record: RecordView,
    part: Option<Projection>,
    method: Method,
    args: Seq<ValueView>,
) -> Result<ValueView, ErrorView> {
    let reads = (part is None && method == Method::RecordInfo) || (part == Some(Projection::Info)
        && method == Method::InfoGet);
    let writes = part == Some(Projection::Info) && method == Method::InfoSet;
    if reads && args.len() == 1 && key_argument(args) is Some {
        let key = key_argument(args).unwrap();
        if key_valid(key) {
            Ok(lookup(record.info, key))
        } else {
            Err(ErrorView::InvalidKey { key })
        }
    } else if writes && args.len() == 2 && key_argument(args) is Some {
        match put_result(key_argument(args).unwrap(), args[1]) {
            Ok(_) => Ok(ValueView::Null),
            Err(e) => Err(e),
        }
    } else {
        Err(ErrorView::TypeMismatch)
    }
}

/// The record after a method ran: changed by a successful write, unchanged
/// otherwise.
pub open spec fn invoked(
    record: RecordView,
    part: Option<Projection>,
    method: Method,
    args: Seq<ValueView>,
) -> RecordView {
    if part == Some(Projection::Info) && method == Method::InfoSet && args.len() == 2
        && key_argument(args) is Some {
        put_record(record, key_argument(args).unwrap(), args[1])
    } else {
        record
    }
}

/// The contents of a list of arguments, in order.
pub open spec fn args_view(args: Seq<Value>) -> Seq<ValueView> {
    args.map_values(|v: Value| v@)
}

/// Runs a getter on a part of a record.
pub fn read(record: &Record, part: Option<Projection>, getter: Getter) -> (out: Result<
    Fetched,
    BridgeError,
>)
    requires
        record.wf(),
    ensures
        fetched_view(out) == read_of(record@, part, getter),
{
    match (part, getter) {
        (None, Getter::Chrom) => Ok(Fetched::Value(Value::Str(record.chrom()))),
        (None, Getter::Start) => Ok(Fetched::Value(Value::Int(record.start()))),
        (None, Getter::Stop) => Ok(Fetched::Value(Value::Int(record.stop()))),
        (None, Getter::Id) => Ok(Fetched::Value(Value::Str(record.id()))),
        (None, Getter::Reference) => Ok(Fetched::Value(Value::Str(record.reference()))),
        (None, Getter::Alternates) => Ok(Fetched::Value(Value::StrList(record.alternates()))),
        (None, Getter::Filter) => Ok(Fetched::Value(Value::Str(record.filter()))),
        (None, Getter::Info) => Ok(Fetched::Child(Projection::Info)),
        (None, Getter::Genotypes) => Ok(Fetched::Child(Projection::Genotypes)),
        (None, Getter::Copy) => Ok(Fetched::Copy(record.duplicate())),
        (Some(Projection::Info), Getter::Keys) => Ok(
            Fetched::Value(Value::StrList(record.info_keys())),
        ),
        _ => Err(BridgeError::TypeMismatch),
    }
}

/// Runs a setter on a part of a record.
pub fn assign(record: &mut Record, part: Option<Projection>, setter: Setter, value: &Value) -> (out:
    Result<(), BridgeError>)
    requires
        old(record).wf(),
    ensures
        final(record).wf(),
        done_view(out) == write_result(part, setter, value@),
        final(record)@ == written(old(record)@, part, setter, value@),
{
    match (part, setter, value) {
        (None, Setter::Chrom, Value::Str(name)) => record.set_chrom(name.as_str()),
        (None, Setter::Start, Value::Int(start)) => record.set_start(*start),
        (None, Setter::Id, Value::Str(id)) => {
            record.set_id(id.as_str());
            Ok(())
        },
        _ => Err(BridgeError::TypeMismatch),
    }
}

/// The number of elements that the reserved slots see in a part of a record.
pub fn extent(record: &Record, part: Option<Projection>, buffer: Buffer) -> (out: Result<
    usize,
    BridgeError,
>)
    ensures
        match out {
            Ok(n) => extent_of(record@, part, buffer) == Ok::<usize, ErrorView>(n),
            Err(e) => extent_of(record@, part, buffer) == Err::<usize, ErrorView>(e@),
        },
{
    match (part, buffer) {
        (Some(Projection::Genotypes), Buffer::Samples) => Ok(record.sample_count()),
        (Some(Projection::Sample(i)), Buffer::Alleles) => match record.allele_count(i) {
            Some(n) => Ok(n),
            None => Err(BridgeError::TypeMismatch),
        },
        _ => Err(BridgeError::TypeMismatch),
    }
}

/// The element at a 0-based host index of a buffer, or `None` where the
/// buffer does not apply to the part or has no such element.
pub fn element(record: &Record, part: Option<Projection>, buffer: Buffer, host: usize) -> (out:
    Option<Fetched>)
    requires
        record.wf(),
    ensures
        match out {
            Some(f) => extent_of(record@, part, buffer) matches Ok(n) && host < n && f@
                == element_of(record@, part, buffer, host),
            None => !(extent_of(record@, part, buffer) matches Ok(n) && host < n),
        },
{
    match (part, buffer) {
        (Some(Projection::Genotypes), Buffer::Samples) => if host < record.sample_count() {
            Some(Fetched::Child(Projection::Sample(host)))
        } else {
            None
        },
        (Some(Projection::Sample(i)), Buffer::Alleles) => match record.allele(i, host) {
            Some(a) => Some(Fetched::Value(Value::Allele(a))),
            None => None,
        },
        _ => None,
    }
}

/// Runs a method on a part of a record.
pub fn invoke(record: &mut Record, part: Option<Projection>, method: Method, args: &Vec<Value>) -> (out:
    Result<Value, BridgeError>)
    requires
        old(record).wf(),
    ensures
        final(record).wf(),
        value_view(out) == invoke_result(old(record)@, part, method, args_view(args@)),
        final(record)@ == invoked(old(record)@, part, method, args_view(args@)),
{
    let reads = match (part, method) {
        (None, Method::RecordInfo) => true,
        (Some(Projection::Info), Method::InfoGet) => true,
        _ => false,
    };
    let writes = match (part, method) {
        (Some(Projection::Info), Method::InfoSet) => true,
        _ => false,
    };
    if reads && args.len() == 1 {
        match &args[0] {
            Value::Str(key) => {
                if key_is_valid(key.as_str()) {
                    Ok(record.info_get(key.as_str()))
                } else {
                    Err(BridgeError::InvalidKey { key: key.clone() })
                }
            },
            _ => Err(BridgeError::TypeMismatch),
        }
    } else if writes && args.len() == 2 {
        match &args[0] {
            Value::Str(key) => match record.info_put(key.as_str(), &args[1]) {
                Ok(_) => Ok(Value::Null),
                Err(e) => Err(e),
            },
            _ => Err(BridgeError::TypeMismatch),
        }
    } else {
        Err(BridgeError::TypeMismatch)
    }
}

} // verus!
