use variant_bridge::bridge::Bridge;
use variant_bridge::cell::{LockState, OwnershipMode, Target};
use variant_bridge::descriptor::{
    Buffer, DescriptorTable, Getter, Method, Setter, TypeTag, ValueKind,
};
use variant_bridge::dispatch::{host_index, script_index};
use variant_bridge::error::{BridgeError, ErrorClass, ErrorKind, ScriptError};
use variant_bridge::record::Record;
use variant_bridge::value::{Allele, Value};

fn text(s: &str) -> String {
    s.to_string()
}

fn record() -> Record {
    let mut r = Record::new("rs9", Some("2"), 41, 3, "ACG", vec![text("A")], vec![text("PASS")])
        .unwrap();
    r.push_sample(vec![Allele::Unphased(0), Allele::Phased(1), Allele::PhasedMissing]);
    r.push_sample(vec![Allele::UnphasedMissing]);
    r
}

fn handle(v: Result<Value, BridgeError>) -> usize {
    match v {
        Ok(Value::Handle(h)) => h,
        other => panic!("not a handle: {:?}", other),
    }
}

#[test]
fn unknown_field_carries_the_name() {
    let mut b = Bridge::standard();
    let h = b.wrap(record(), OwnershipMode::OwnedShared).unwrap();
    let before = b.handle_count();
    assert_eq!(
        b.get_property(h, "quality"),
        Err(BridgeError::UnknownField { name: text("quality"), type_tag: TypeTag::Record })
    );
    assert_eq!(
        b.set_property(h, "quality", &Value::Int(1)),
        Err(BridgeError::UnknownField { name: text("quality"), type_tag: TypeTag::Record })
    );
    assert_eq!(
        b.call_method(h, "annotate", &vec![]),
        Err(BridgeError::UnknownField { name: text("annotate"), type_tag: TypeTag::Record })
    );
    assert_eq!(
        b.get_property(h, ""),
        Err(BridgeError::UnknownField { name: text(""), type_tag: TypeTag::Record })
    );
    let info = handle(b.get_property(h, "INFO"));
    assert_eq!(
        b.get_property(info, "start"),
        Err(BridgeError::UnknownField { name: text("start"), type_tag: TypeTag::Info })
    );
    assert_eq!(
        b.get_index(h, 1),
        Err(BridgeError::UnknownField { name: text("index"), type_tag: TypeTag::Record })
    );
    assert_eq!(
        b.length(info),
        Err(BridgeError::UnknownField { name: text("length"), type_tag: TypeTag::Info })
    );
    assert_eq!(b.handle_count(), before + 1);
}

#[test]
fn unregistered_type_has_no_fields() {
    let mut b = Bridge::new();
    let h = b.wrap(record(), OwnershipMode::OwnedShared).unwrap();
    assert_eq!(
        b.get_property(h, "start"),
        Err(BridgeError::UnknownField { name: text("start"), type_tag: TypeTag::Record })
    );
}

#[test]
fn script_indices_are_one_based() {
    assert_eq!(host_index(1, 3), Ok(0));
    assert_eq!(host_index(3, 3), Ok(2));
    assert_eq!(host_index(0, 3), Err(BridgeError::IndexOutOfBounds { index: 0, length: 3 }));
    assert_eq!(host_index(4, 3), Err(BridgeError::IndexOutOfBounds { index: 4, length: 3 }));
    assert_eq!(host_index(-1, 3), Err(BridgeError::IndexOutOfBounds { index: -1, length: 3 }));
    assert_eq!(host_index(1, 0), Err(BridgeError::IndexOutOfBounds { index: 1, length: 0 }));
    assert_eq!(
        host_index(i64::MIN, 3),
        Err(BridgeError::IndexOutOfBounds { index: i64::MIN, length: 3 })
    );
    assert_eq!(host_index(i64::MAX, usize::MAX), Ok((i64::MAX - 1) as usize));
    assert_eq!(script_index(0), 1);
    assert_eq!(script_index(41), 42);
    assert_eq!(script_index(usize::MAX), i64::MAX);
}

#[test]
fn buffer_edges_through_the_bridge() {
    let mut b = Bridge::standard();
    let h = b.wrap(record(), OwnershipMode::OwnedShared).unwrap();
    let matrix = handle(b.get_property(h, "genotypes"));
    assert_eq!(b.length(matrix), Ok(Value::Int(2)));
    assert_eq!(
        b.get_index(matrix, 0),
        Err(BridgeError::IndexOutOfBounds { index: 0, length: 2 })
    );
    assert_eq!(
        b.get_index(matrix, 3),
        Err(BridgeError::IndexOutOfBounds { index: 3, length: 2 })
    );
    let first = handle(b.get_index(matrix, 1));
    let last = handle(b.get_index(matrix, 2));
    assert_eq!(b.length(first), Ok(Value::Int(3)));
    assert_eq!(b.length(last), Ok(Value::Int(1)));
    assert_eq!(b.get_index(first, 1), Ok(Value::Allele(Allele::Unphased(0))));
    assert_eq!(b.get_index(first, 3), Ok(Value::Allele(Allele::PhasedMissing)));
    assert_eq!(b.get_index(first, 0), Err(BridgeError::IndexOutOfBounds { index: 0, length: 3 }));
    assert_eq!(b.get_index(first, 4), Err(BridgeError::IndexOutOfBounds { index: 4, length: 3 }));
    assert_eq!(b.get_index(last, 1), Ok(Value::Allele(Allele::UnphasedMissing)));
    assert_eq!(b.get_index(last, 2), Err(BridgeError::IndexOutOfBounds { index: 2, length: 1 }));
}

#[test]
fn borrowed_handle_expires_with_its_scope() {
    let mut b = Bridge::standard();
    let h = b.wrap(record(), OwnershipMode::BorrowedScoped).unwrap();
    let info = handle(b.get_property(h, "INFO"));
    let matrix = handle(b.get_property(h, "genotypes"));
    assert_eq!(b.get_property(h, "start"), Ok(Value::Int(42)));
    assert_eq!(b.set_property(h, "id", &Value::Str(text("renamed"))), Ok(()));
    assert_eq!(b.borrowers(h), Some(1));
    assert_eq!(b.borrowers(info), None);
    let back = b.end_scope(h).unwrap();
    assert_eq!(back.id(), "renamed");
    assert!(b.end_scope(h).is_none());
    for _ in 0..100 {
        assert_eq!(b.get_property(h, "start"), Err(BridgeError::Expired));
        assert_eq!(b.set_property(h, "id", &Value::Str(text("x"))), Err(BridgeError::Expired));
        assert_eq!(
            b.call_method(info, "get", &vec![Value::Str(text("DP"))]),
            Err(BridgeError::Expired)
        );
        assert_eq!(b.get_index(matrix, 1), Err(BridgeError::Expired));
        assert_eq!(b.length(matrix), Err(BridgeError::Expired));
        assert_eq!(b.enter(h), Err(BridgeError::Expired));
    }
    assert_eq!(
        b.get_property(h, "nope"),
        Err(BridgeError::UnknownField { name: text("nope"), type_tag: TypeTag::Record })
    );
    assert!(b.finalize(info));
    assert!(b.finalize(matrix));
    assert_eq!(b.borrowers(h), Some(1));
    assert!(b.finalize(h));
    assert_eq!(b.borrowers(h), Some(0));
    assert_eq!(b.get_property(h, "start"), Err(BridgeError::StaleHandle));
    assert!(b.end_scope(77).is_none());
}

#[test]
fn end_scope_is_refused_for_a_shared_handle() {
    let mut b = Bridge::standard();
    let h = b.wrap(record(), OwnershipMode::OwnedShared).unwrap();
    assert!(b.end_scope(h).is_none());
    assert_eq!(b.get_property(h, "start"), Ok(Value::Int(42)));
}

#[test]
fn write_through_one_handle_is_seen_through_another() {
    let mut b = Bridge::standard();
    let h = b.wrap(record(), OwnershipMode::OwnedShared).unwrap();
    let a = handle(b.get_property(h, "INFO"));
    assert_eq!(
        b.call_method(a, "set", &vec![Value::Str(text("AF")), Value::Float(0.5f64.to_bits())]),
        Ok(Value::Null)
    );
    let c = handle(b.get_property(h, "INFO"));
    assert_ne!(a, c);
    assert_eq!(
        b.call_method(c, "get", &vec![Value::Str(text("AF"))]),
        Ok(Value::Float(0.5f64.to_bits()))
    );
    assert_eq!(
        b.call_method(h, "info", &vec![Value::Str(text("AF"))]),
        Ok(Value::Float(0.5f64.to_bits()))
    );
    assert_eq!(
        b.call_method(c, "set", &vec![Value::Str(text("AF")), Value::IntList(vec![1, 2])]),
        Ok(Value::Null)
    );
    assert_eq!(
        b.call_method(a, "get", &vec![Value::Str(text("AF"))]),
        Ok(Value::IntList(vec![1, 2]))
    );
    assert_eq!(b.get_property(a, "keys"), Ok(Value::StrList(vec![text("AF")])));
    assert_eq!(
        b.call_method(a, "set", &vec![Value::Str(text("DP")), Value::StrList(vec![])]),
        Ok(Value::Null)
    );
    assert_eq!(b.get_property(c, "keys"), Ok(Value::StrList(vec![text("AF"), text("DP")])));
}

#[test]
fn setters_validate_and_leave_the_record_on_failure() {
    let mut b = Bridge::standard();
    let h = b.wrap(record(), OwnershipMode::OwnedShared).unwrap();
    assert_eq!(b.set_property(h, "start", &Value::Int(7)), Ok(()));
    assert_eq!(b.get_property(h, "start"), Ok(Value::Int(7)));
    assert_eq!(b.get_property(h, "stop"), Ok(Value::Int(9)));
    assert_eq!(b.set_property(h, "start", &Value::Int(0)), Err(BridgeError::TypeMismatch));
    assert_eq!(
        b.set_property(h, "start", &Value::Int(0x8000_0001)),
        Err(BridgeError::TypeMismatch)
    );
    assert_eq!(b.set_property(h, "start", &Value::Int(0x8000_0000)), Ok(()));
    assert_eq!(b.get_property(h, "start"), Ok(Value::Int(0x8000_0000)));
    assert_eq!(b.set_property(h, "start", &Value::Int(1)), Ok(()));
    assert_eq!(
        b.set_property(h, "start", &Value::Str(text("7"))),
        Err(BridgeError::TypeMismatch)
    );
    assert_eq!(b.get_property(h, "start"), Ok(Value::Int(1)));
    assert_eq!(b.set_property(h, "chrom", &Value::Str(text("X"))), Ok(()));
    assert_eq!(b.get_property(h, "chrom"), Ok(Value::Str(text("X"))));
    assert_eq!(b.set_property(h, "chrom", &Value::Str(text(""))), Err(BridgeError::TypeMismatch));
    assert_eq!(b.set_property(h, "chrom", &Value::Null), Err(BridgeError::TypeMismatch));
    assert_eq!(b.get_property(h, "chrom"), Ok(Value::Str(text("X"))));
    assert_eq!(b.set_property(h, "id", &Value::Str(text("rs10"))), Ok(()));
    assert_eq!(b.get_property(h, "id"), Ok(Value::Str(text("rs10"))));
    assert_eq!(
        b.set_property(h, "stop", &Value::Int(9)),
        Err(BridgeError::ReadOnly { name: text("stop") })
    );
    assert_eq!(b.get_property(h, "ref"), Ok(Value::Str(text("ACG"))));
    assert_eq!(b.get_property(h, "alt"), Ok(Value::StrList(vec![text("A")])));
}

#[test]
fn info_methods_check_key_and_value() {
    let mut b = Bridge::standard();
    let h = b.wrap(record(), OwnershipMode::OwnedShared).unwrap();
    let info = handle(b.get_property(h, "INFO"));
    for bad in ["", "1DP", "D P", "D;P", "DP=", "d\u{e9}"] {
        assert_eq!(
            b.call_method(info, "get", &vec![Value::Str(text(bad))]),
            Err(BridgeError::InvalidKey { key: text(bad) })
        );
        assert_eq!(
            b.call_method(info, "set", &vec![Value::Str(text(bad)), Value::Int(1)]),
            Err(BridgeError::InvalidKey { key: text(bad) })
        );
    }
    for good in ["DP", "_x", "A.b_9", "z"] {
        assert_eq!(
            b.call_method(info, "set", &vec![Value::Str(text(good)), Value::Int(1)]),
            Ok(Value::Null)
        );
    }
    for value in [Value::Null, Value::Bool(true), Value::Handle(0), Value::Allele(Allele::Phased(1))]
    {
        assert_eq!(
            b.call_method(info, "set", &vec![Value::Str(text("DP")), value]),
            Err(BridgeError::TypeMismatch)
        );
    }
    assert_eq!(b.call_method(info, "get", &vec![Value::Int(1)]), Err(BridgeError::TypeMismatch));
    assert_eq!(b.call_method(info, "get", &vec![]), Err(BridgeError::TypeMismatch));
    assert_eq!(
        b.call_method(info, "get", &vec![Value::Str(text("DP")), Value::Int(1)]),
        Err(BridgeError::TypeMismatch)
    );
    assert_eq!(
        b.call_method(info, "set", &vec![Value::Str(text("DP"))]),
        Err(BridgeError::TypeMismatch)
    );
    assert_eq!(b.call_method(info, "get", &vec![Value::Str(text("DP"))]), Ok(Value::Int(1)));
}

#[test]
fn host_lock_makes_the_script_wait_and_poison_fails_it() {
    let mut b = Bridge::standard();
    let h = b.wrap(record(), OwnershipMode::OwnedShared).unwrap();
    let info = handle(b.get_property(h, "INFO"));
    assert!(b.host_lock(0));
    assert!(!b.host_lock(0));
    assert_eq!(b.lock_state(0), Some(LockState::HostHeld));
    assert_eq!(b.get_property(h, "start"), Err(BridgeError::Busy));
    assert_eq!(b.set_property(h, "id", &Value::Str(text("x"))), Err(BridgeError::Busy));
    assert_eq!(
        b.call_method(info, "get", &vec![Value::Str(text("DP"))]),
        Err(BridgeError::Busy)
    );
    let mut next = record();
    next.set_id("swapped");
    let former = b.host_replace(0, next).ok().unwrap();
    assert_eq!(former.id(), "rs9");
    assert!(b.host_unlock(0));
    assert!(!b.host_unlock(0));
    assert_eq!(b.get_property(h, "id"), Ok(Value::Str(text("swapped"))));
    assert!(b.host_replace(0, record()).is_err());
    assert!(b.host_snapshot(0).is_none());
    assert!(!b.host_poison(0));
    assert!(b.host_lock(0));
    assert!(b.host_poison(0));
    assert_eq!(b.lock_state(0), Some(LockState::Poisoned));
    assert_eq!(b.get_property(h, "start"), Err(BridgeError::LockFailed));
    assert_eq!(b.enter(h), Err(BridgeError::LockFailed));
    assert!(!b.host_unlock(0));
    assert!(b.finalize(info));
    assert!(b.finalize(h));
    assert_eq!(b.owners(0), Some(0));
}

#[test]
fn nested_calls_reuse_the_lock() {
    let mut b = Bridge::standard();
    let h = b.wrap(record(), OwnershipMode::OwnedShared).unwrap();
    let info = handle(b.get_property(h, "INFO"));
    assert_eq!(b.lock_state(0), Some(LockState::Free));
    assert_eq!(b.enter(h), Ok(Target::Shared(0)));
    assert_eq!(b.lock_state(0), Some(LockState::Held(1)));
    assert_eq!(b.enter(info), Ok(Target::Shared(0)));
    assert_eq!(b.lock_state(0), Some(LockState::Held(2)));
    assert_eq!(b.get_property(h, "start"), Ok(Value::Int(42)));
    assert_eq!(b.lock_state(0), Some(LockState::Held(2)));
    assert!(!b.host_lock(0));
    b.leave(Target::Shared(0));
    assert_eq!(b.lock_state(0), Some(LockState::Held(1)));
    b.leave(Target::Shared(0));
    assert_eq!(b.lock_state(0), Some(LockState::Free));
    b.leave(Target::Shared(0));
    b.leave(Target::Shared(9));
    b.leave(Target::Scoped(0));
    assert_eq!(b.lock_state(0), Some(LockState::Free));
    assert_eq!(b.enter(99), Err(BridgeError::StaleHandle));
    assert_eq!(b.get_property(h, "nope").unwrap_err().kind(), ErrorKind::UnknownField);
    assert_eq!(b.lock_state(0), Some(LockState::Free));
}

#[test]
fn sample_row_follows_the_current_record() {
    let mut b = Bridge::standard();
    let h = b.wrap(record(), OwnershipMode::OwnedShared).unwrap();
    let root = b.host_retain(h).unwrap();
    let matrix = handle(b.get_property(h, "genotypes"));
    let second = handle(b.get_index(matrix, 2));
    assert_eq!(b.get_index(second, 1), Ok(Value::Allele(Allele::UnphasedMissing)));
    let mut shorter = Record::new("rs9", Some("2"), 41, 3, "ACG", vec![], vec![]).unwrap();
    shorter.push_sample(vec![Allele::Phased(2)]);
    assert!(b.host_lock(root));
    assert!(b.host_replace(root, shorter).is_ok());
    assert!(b.host_unlock(root));
    assert_eq!(b.length(matrix), Ok(Value::Int(1)));
    assert_eq!(b.get_index(second, 1), Err(BridgeError::IndexOutOfBounds { index: 2, length: 1 }));
    assert_eq!(b.length(second), Err(BridgeError::IndexOutOfBounds { index: 2, length: 1 }));
    let first = handle(b.get_index(matrix, 1));
    assert_eq!(b.get_index(first, 1), Ok(Value::Allele(Allele::Phased(2))));
}

#[test]
fn registering_twice_keeps_the_first_table() {
    let mut b = Bridge::new();
    let mut first = DescriptorTable::new();
    first.register("pos", Getter::Start, Some(Setter::Start));
    first.register("pos", Getter::Stop, None);
    first.register("name", Getter::Id, None);
    assert_eq!(first.field_count(), 2);
    assert_eq!(first.field("pos"), Some((Getter::Stop, None)));
    assert_eq!(first.field("name"), Some((Getter::Id, None)));
    assert_eq!(first.field("x"), None);
    first.register_method("lookup", Method::RecordInfo);
    first.register_method("lookup", Method::InfoGet);
    assert_eq!(first.method("lookup"), Some(Method::InfoGet));
    assert_eq!(first.method("pos"), None);
    assert_eq!(first.buffer(), None);
    first.register_buffer(Buffer::Samples);
    assert_eq!(first.buffer(), Some(Buffer::Samples));
    assert!(b.register_type(TypeTag::Record, first));
    let mut second = DescriptorTable::new();
    second.register("other", Getter::Id, None);
    assert!(!b.register_type(TypeTag::Record, second));
    let h = b.wrap(record(), OwnershipMode::OwnedShared).unwrap();
    assert_eq!(b.get_property(h, "pos"), Ok(Value::Int(44)));
    assert_eq!(
        b.get_property(h, "other"),
        Err(BridgeError::UnknownField { name: text("other"), type_tag: TypeTag::Record })
    );
    assert_eq!(b.call_method(h, "lookup", &vec![Value::Str(text("DP"))]), Err(BridgeError::TypeMismatch));
    assert_eq!(b.get_index(h, 1), Err(BridgeError::TypeMismatch));
    assert_eq!(b.length(h), Err(BridgeError::TypeMismatch));
}

#[test]
fn getter_kinds() {
    assert_eq!(Getter::Start.kind(), ValueKind::Scalar);
    assert_eq!(Getter::Filter.kind(), ValueKind::Scalar);
    assert_eq!(Getter::Info.kind(), ValueKind::Child);
    assert_eq!(Getter::Genotypes.kind(), ValueKind::Buffer);
    assert_eq!(Getter::Copy.kind(), ValueKind::Child);
    assert_eq!(Method::InfoSet.kind(), ValueKind::Fallible);
    assert_eq!(Method::RecordInfo.kind(), ValueKind::Fallible);
}

#[test]
fn errors_as_the_script_sees_them() {
    let e = BridgeError::UnknownField { name: text("quality"), type_tag: TypeTag::Record };
    assert_eq!(
        e.to_script(),
        ScriptError {
            kind: ErrorKind::UnknownField,
            class: ErrorClass::Error,
            message: text("unknown field: quality"),
        }
    );
    assert_eq!(e.class(), ErrorClass::Error);
    assert_eq!(BridgeError::IndexOutOfBounds { index: 0, length: 1 }.class(), ErrorClass::RangeError);
    assert_eq!(BridgeError::TypeMismatch.class(), ErrorClass::TypeError);
    assert_eq!(BridgeError::InvalidKey { key: text("") }.class(), ErrorClass::TypeError);
    assert_eq!(BridgeError::Expired.class(), ErrorClass::Error);
    assert_eq!(BridgeError::Busy.class(), ErrorClass::Error);
    assert_eq!(BridgeError::LockFailed.to_script().class, ErrorClass::Error);
    assert_eq!(BridgeError::StaleHandle.class(), ErrorClass::Error);
    assert_eq!(BridgeError::ReadOnly { name: text("x") }.class(), ErrorClass::Error);
    assert_eq!(BridgeError::Exhausted.class(), ErrorClass::Error);
    let e = BridgeError::IndexOutOfBounds { index: -12, length: 305 };
    assert_eq!(e.kind(), ErrorKind::IndexOutOfBounds);
    assert_eq!(e.message(), "index out of bounds: -12 of 305");
    let e = BridgeError::IndexOutOfBounds { index: i64::MIN, length: 0 };
    assert_eq!(e.message(), "index out of bounds: -9223372036854775808 of 0");
    assert_eq!(BridgeError::TypeMismatch.message(), "type mismatch");
    assert_eq!(BridgeError::Expired.message(), "handle used after its scope ended");
    assert_eq!(BridgeError::Expired.kind(), ErrorKind::Expired);
    assert_eq!(BridgeError::LockFailed.message(), "lock failed");
    assert_eq!(BridgeError::LockFailed.kind(), ErrorKind::LockFailed);
    assert_eq!(BridgeError::Busy.message(), "busy");
    assert_eq!(BridgeError::Busy.kind(), ErrorKind::Busy);
    assert_eq!(BridgeError::InvalidKey { key: text("1x") }.message(), "invalid key: 1x");
    assert_eq!(BridgeError::InvalidKey { key: text("1x") }.kind(), ErrorKind::InvalidKey);
    assert_eq!(BridgeError::StaleHandle.message(), "stale handle");
    assert_eq!(BridgeError::StaleHandle.kind(), ErrorKind::StaleHandle);
    assert_eq!(BridgeError::ReadOnly { name: text("stop") }.message(), "read-only field: stop");
    assert_eq!(BridgeError::ReadOnly { name: text("stop") }.kind(), ErrorKind::ReadOnly);
    assert_eq!(BridgeError::Exhausted.message(), "handle table exhausted");
    assert_eq!(BridgeError::Exhausted.kind(), ErrorKind::Exhausted);
    assert_eq!(BridgeError::TypeMismatch.kind(), ErrorKind::TypeMismatch);
}

#[test]
fn tables_list_their_names() {
    let b = Bridge::standard();
    assert_eq!(
        b.field_names(TypeTag::Record),
        vec!["chrom", "start", "stop", "id", "ref", "alt", "filter", "INFO", "genotypes", "copy"]
    );
    assert_eq!(b.method_names(TypeTag::Record), vec!["info"]);
    assert_eq!(b.field_names(TypeTag::Info), vec!["keys"]);
    assert_eq!(b.method_names(TypeTag::Info), vec!["get", "set"]);
    assert!(b.field_names(TypeTag::Genotypes).is_empty());
    assert!(b.method_names(TypeTag::Sample).is_empty());
    assert_eq!(b.buffer(TypeTag::Record), None);
    assert_eq!(b.buffer(TypeTag::Genotypes), Some(Buffer::Samples));
    assert_eq!(b.buffer(TypeTag::Sample), Some(Buffer::Alleles));
    assert!(b.is_writable(TypeTag::Record, "chrom"));
    assert!(b.is_writable(TypeTag::Record, "start"));
    assert!(b.is_writable(TypeTag::Record, "id"));
    assert!(!b.is_writable(TypeTag::Record, "stop"));
    assert!(!b.is_writable(TypeTag::Record, "nope"));
    assert!(!b.is_writable(TypeTag::Info, "chrom"));
    let empty = Bridge::new();
    assert!(empty.field_names(TypeTag::Record).is_empty());
    assert!(empty.method_names(TypeTag::Record).is_empty());
    assert_eq!(empty.buffer(TypeTag::Sample), None);
    assert!(!empty.is_writable(TypeTag::Record, "chrom"));
    let small = variant_bridge::tables::variant_table();
    assert_eq!(small.field_names(), vec!["start", "stop", "chrom", "filter"]);
    assert_eq!(small.method_names(), vec!["info"]);
}

#[test]
fn copy_is_a_record_of_its_own() {
    let mut b = Bridge::standard();
    let h = b.wrap(record(), OwnershipMode::OwnedShared).unwrap();
    let copy = handle(b.get_property(h, "copy"));
    assert_eq!(b.root(h), Some(Target::Shared(0)));
    assert_eq!(b.root(copy), Some(Target::Shared(1)));
    assert_eq!(b.handle(copy).unwrap().mode(), OwnershipMode::OwnedShared);
    assert_eq!(b.handle(h).unwrap().children, 0);
    assert_eq!(b.owners(0), Some(1));
    assert_eq!(b.owners(1), Some(1));
    assert_eq!(b.set_property(h, "id", &Value::Str(text("changed"))), Ok(()));
    assert_eq!(b.get_property(copy, "id"), Ok(Value::Str(text("rs9"))));
    assert_eq!(b.set_property(copy, "start", &Value::Int(5)), Ok(()));
    assert_eq!(b.get_property(h, "start"), Ok(Value::Int(42)));
    assert_eq!(b.get_property(copy, "start"), Ok(Value::Int(5)));
    assert!(b.finalize(h));
    assert_eq!(b.owners(0), Some(0));
    assert_eq!(b.owners(1), Some(1));
    assert_eq!(b.get_property(copy, "chrom"), Ok(Value::Str(text("2"))));
    let matrix = handle(b.get_property(copy, "genotypes"));
    assert_eq!(b.length(matrix), Ok(Value::Int(2)));
    let info = handle(b.get_property(copy, "INFO"));
    assert_eq!(
        b.get_property(info, "copy"),
        Err(BridgeError::UnknownField { name: text("copy"), type_tag: TypeTag::Info })
    );
}
