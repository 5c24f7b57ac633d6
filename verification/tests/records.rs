use variant_bridge::access::{assign, element, extent, invoke, read, Fetched};
use variant_bridge::cell::Projection;
use variant_bridge::descriptor::{Buffer, Getter, Method, Setter};
use variant_bridge::dispatch::{check_part, element_at};
use variant_bridge::error::BridgeError;
use variant_bridge::info::{
    entry_for, find_key, key_is_valid, read_entry, InfoEntry, InfoValues, TagLength,
};
use variant_bridge::record::{MAX_POSITION, Record};
use variant_bridge::text::{copy_texts, decimal_text, join, signed_text};
use variant_bridge::value::{copy_bits, copy_ints, Allele, Value};

fn text(s: &str) -> String {
    s.to_string()
}

#[test]
fn record_new_checks_ranges() {
    assert!(Record::new("a", None, 0, 0, "", vec![], vec![]).is_some());
    assert!(Record::new("a", None, MAX_POSITION, MAX_POSITION, "", vec![], vec![]).is_some());
    assert!(Record::new("a", None, -1, 0, "", vec![], vec![]).is_none());
    assert!(Record::new("a", None, 0, -1, "", vec![], vec![]).is_none());
    assert!(Record::new("a", None, MAX_POSITION + 1, 0, "", vec![], vec![]).is_none());
    assert!(Record::new("a", None, 0, MAX_POSITION + 1, "", vec![], vec![]).is_none());
    let r = Record::new("a", Some("7"), MAX_POSITION, MAX_POSITION, "G", vec![text("C")], vec![])
        .unwrap();
    assert_eq!(r.start(), 0x8000_0000);
    assert_eq!(r.stop(), 0xffff_fffe);
    assert_eq!(r.id(), "a");
    assert_eq!(r.chrom(), "7");
    assert_eq!(r.reference(), "G");
    assert_eq!(r.alternates(), vec![text("C")]);
    assert_eq!(r.filter(), "");
    assert_eq!(r.info_len(), 0);
    assert_eq!(r.sample_count(), 0);
}

#[test]
fn record_setters() {
    let mut r = Record::new("a", None, 10, 2, "AC", vec![], vec![text("q")]).unwrap();
    assert_eq!(r.chrom(), ".");
    assert_eq!(r.set_chrom(""), Err(BridgeError::TypeMismatch));
    assert_eq!(r.chrom(), ".");
    assert_eq!(r.set_chrom("chrX"), Ok(()));
    assert_eq!(r.chrom(), "chrX");
    assert_eq!(r.set_start(0), Err(BridgeError::TypeMismatch));
    assert_eq!(r.set_start(MAX_POSITION + 2), Err(BridgeError::TypeMismatch));
    assert_eq!(r.start(), 11);
    assert_eq!(r.set_start(MAX_POSITION + 1), Ok(()));
    assert_eq!(r.start(), MAX_POSITION + 1);
    assert_eq!(r.set_start(1), Ok(()));
    assert_eq!(r.start(), 1);
    assert_eq!(r.stop(), 2);
    r.set_id("b");
    assert_eq!(r.id(), "b");
    assert_eq!(r.filter(), "q");
}

#[test]
fn record_info_put_and_get() {
    let mut r = Record::new("a", None, 0, 1, "A", vec![], vec![]).unwrap();
    assert_eq!(r.info_get("DP"), Value::Null);
    assert_eq!(r.info_put("DP", &Value::Int(10)), Ok(()));
    assert_eq!(r.info_put("AF", &Value::FloatList(vec![1, 2])), Ok(()));
    assert_eq!(r.info_put("DP", &Value::Str(text("hello"))), Ok(()));
    assert_eq!(r.info_keys(), vec![text("DP"), text("AF")]);
    assert_eq!(r.info_get("DP"), Value::Str(text("hello")));
    assert_eq!(r.info_get("AF"), Value::FloatList(vec![1, 2]));
    assert_eq!(r.info_put("", &Value::Int(1)), Err(BridgeError::InvalidKey { key: text("") }));
    assert_eq!(r.info_put("DP", &Value::Null), Err(BridgeError::TypeMismatch));
    assert_eq!(
        r.info_put("9", &Value::Null),
        Err(BridgeError::InvalidKey { key: text("9") })
    );
    assert_eq!(r.info_len(), 2);
    assert_eq!(
        r.info_insert(InfoEntry { key: text("a b"), length: TagLength::Variable, values: InfoValues::Flag }),
        Err(BridgeError::InvalidKey { key: text("a b") })
    );
    assert_eq!(
        r.info_insert(InfoEntry { key: text("AF"), length: TagLength::Fixed(1), values: InfoValues::Flag }),
        Ok(())
    );
    assert_eq!(r.info_get("AF"), Value::Null);
    assert_eq!(r.info_keys(), vec![text("DP"), text("AF")]);
    let copy = r.duplicate();
    assert_eq!(copy.info_get("DP"), Value::Str(text("hello")));
    assert_eq!(copy.info_keys(), vec![text("DP"), text("AF")]);
    assert_eq!(copy.id(), "a");
}

#[test]
fn record_genotypes() {
    let mut r = Record::new("a", None, 0, 1, "A", vec![], vec![]).unwrap();
    r.push_sample(vec![Allele::Unphased(0), Allele::Phased(1)]);
    r.push_sample(vec![]);
    assert_eq!(r.sample_count(), 2);
    assert_eq!(r.allele_count(0), Some(2));
    assert_eq!(r.allele_count(1), Some(0));
    assert_eq!(r.allele_count(2), None);
    assert_eq!(r.allele(0, 1), Some(Allele::Phased(1)));
    assert_eq!(r.allele(0, 2), None);
    assert_eq!(r.allele(1, 0), None);
    assert_eq!(r.allele(2, 0), None);
    let copy = r.duplicate();
    assert_eq!(copy.sample_count(), 2);
    assert_eq!(copy.allele(0, 0), Some(Allele::Unphased(0)));
}

#[test]
fn info_key_rule() {
    for good in ["A", "_", "DP", "a1", "A.B", "x_y.9"] {
        assert!(key_is_valid(good), "{}", good);
    }
    for bad in ["", "1", ".A", "A B", "A-B", "A,B", "\u{e9}", "A\u{e9}", "A=", "9A"] {
        assert!(!key_is_valid(bad), "{}", bad);
    }
}

#[test]
fn info_entries() {
    let e = entry_for("DP", &Value::Int(4)).unwrap();
    assert_eq!(
        e,
        InfoEntry { key: text("DP"), length: TagLength::Fixed(1), values: InfoValues::Integer(vec![4]) }
    );
    assert_eq!(read_entry(&e), Value::Int(4));
    let e = entry_for("L", &Value::IntList(vec![4])).unwrap();
    assert_eq!(e.length, TagLength::Variable);
    assert_eq!(read_entry(&e), Value::IntList(vec![4]));
    let e = entry_for("S", &Value::StrList(vec![text("a"), text("b")])).unwrap();
    assert_eq!(read_entry(&e), Value::StrList(vec![text("a"), text("b")]));
    let e = entry_for("F", &Value::Float(9)).unwrap();
    assert_eq!(read_entry(&e), Value::Float(9));
    assert!(entry_for("B", &Value::Bool(false)).is_none());
    assert!(entry_for("H", &Value::Handle(3)).is_none());
    let list = vec![entry_for("A", &Value::Int(1)).unwrap(), entry_for("B", &Value::Int(2)).unwrap()];
    assert_eq!(find_key(&list, "B"), Some(1));
    assert_eq!(find_key(&list, "A"), Some(0));
    assert_eq!(find_key(&list, "C"), None);
}

#[test]
fn text_helpers() {
    assert_eq!(join(&vec![], ","), "");
    assert_eq!(join(&vec![text("a")], ","), "a");
    assert_eq!(join(&vec![text("a"), text(""), text("c")], ", "), "a, , c");
    assert_eq!(copy_texts(&vec![text("a"), text("b")]), vec![text("a"), text("b")]);
    assert_eq!(copy_ints(&vec![1, -2]), vec![1, -2]);
    assert_eq!(copy_bits(&vec![1, 2]), vec![1, 2]);
    assert_eq!(decimal_text(0), "0");
    assert_eq!(decimal_text(7), "7");
    assert_eq!(decimal_text(10), "10");
    assert_eq!(decimal_text(1234567890), "1234567890");
    assert_eq!(decimal_text(u64::MAX), "18446744073709551615");
    assert_eq!(signed_text(0), "0");
    assert_eq!(signed_text(-1), "-1");
    assert_eq!(signed_text(i64::MAX), "9223372036854775807");
    assert_eq!(signed_text(i64::MIN), "-9223372036854775808");
}

#[test]
fn allele_text() {
    assert_eq!(Allele::Unphased(0).render(), "0");
    assert_eq!(Allele::Unphased(12).render(), "12");
    assert_eq!(Allele::Phased(3).render(), "|3");
    assert_eq!(Allele::UnphasedMissing.render(), ".");
    assert_eq!(Allele::PhasedMissing.render(), "|.");
    assert_eq!(Allele::Unphased(-1).render(), "-1");
    assert_eq!(Allele::UnphasedMissing.index(), None);
    assert_eq!(Allele::PhasedMissing.index(), None);
    assert!(Allele::PhasedMissing.is_phased());
    assert!(!Allele::UnphasedMissing.is_phased());
}

#[test]
fn value_duplicate() {
    for v in [
        Value::Null,
        Value::Bool(true),
        Value::Int(-3),
        Value::Float(7),
        Value::Str(text("s")),
        Value::IntList(vec![1]),
        Value::FloatList(vec![2]),
        Value::StrList(vec![text("t")]),
        Value::Allele(Allele::Phased(1)),
        Value::Handle(4),
    ] {
        assert_eq!(v.duplicate(), v);
    }
}

#[test]
fn accessors_on_parts() {
    let mut r = Record::new("a", Some("1"), 4, 2, "AC", vec![text("G")], vec![text("PASS")]).unwrap();
    r.push_sample(vec![Allele::Phased(1)]);
    let value = |f: Result<Fetched, BridgeError>| match f {
        Ok(Fetched::Value(v)) => v,
        other => panic!("not a value: {:?}", other),
    };
    assert_eq!(value(read(&r, None, Getter::Start)), Value::Int(5));
    assert_eq!(value(read(&r, None, Getter::Stop)), Value::Int(6));
    assert_eq!(value(read(&r, None, Getter::Id)), Value::Str(text("a")));
    assert!(matches!(read(&r, None, Getter::Info), Ok(Fetched::Child(Projection::Info))));
    assert!(matches!(read(&r, None, Getter::Genotypes), Ok(Fetched::Child(Projection::Genotypes))));
    assert!(matches!(read(&r, None, Getter::Keys), Err(BridgeError::TypeMismatch)));
    assert!(matches!(read(&r, None, Getter::Copy), Ok(Fetched::Copy(c)) if c.id() == "a"));
    assert!(matches!(read(&r, Some(Projection::Info), Getter::Copy), Err(BridgeError::TypeMismatch)));
    assert!(matches!(read(&r, Some(Projection::Info), Getter::Start), Err(BridgeError::TypeMismatch)));
    assert_eq!(value(read(&r, Some(Projection::Info), Getter::Keys)), Value::StrList(vec![]));
    assert_eq!(assign(&mut r, Some(Projection::Info), Setter::Id, &Value::Str(text("b"))), Err(BridgeError::TypeMismatch));
    assert_eq!(assign(&mut r, None, Setter::Id, &Value::Int(1)), Err(BridgeError::TypeMismatch));
    assert_eq!(assign(&mut r, None, Setter::Id, &Value::Str(text("b"))), Ok(()));
    assert_eq!(r.id(), "b");
    assert_eq!(extent(&r, Some(Projection::Genotypes), Buffer::Samples), Ok(1));
    assert_eq!(extent(&r, Some(Projection::Sample(0)), Buffer::Alleles), Ok(1));
    assert_eq!(extent(&r, Some(Projection::Sample(1)), Buffer::Alleles), Err(BridgeError::TypeMismatch));
    assert_eq!(extent(&r, None, Buffer::Samples), Err(BridgeError::TypeMismatch));
    assert_eq!(extent(&r, Some(Projection::Genotypes), Buffer::Alleles), Err(BridgeError::TypeMismatch));
    assert!(matches!(element(&r, Some(Projection::Genotypes), Buffer::Samples, 0), Some(Fetched::Child(Projection::Sample(0)))));
    assert!(element(&r, Some(Projection::Genotypes), Buffer::Samples, 1).is_none());
    assert!(matches!(element(&r, Some(Projection::Sample(0)), Buffer::Alleles, 0), Some(Fetched::Value(Value::Allele(Allele::Phased(1))))));
    assert!(element(&r, Some(Projection::Sample(0)), Buffer::Alleles, 1).is_none());
    assert!(element(&r, None, Buffer::Alleles, 0).is_none());
    assert!(matches!(element_at(&r, Some(Projection::Sample(0)), Buffer::Alleles, 1), Ok(Fetched::Value(Value::Allele(Allele::Phased(1))))));
    assert!(matches!(element_at(&r, Some(Projection::Sample(0)), Buffer::Alleles, 2), Err(BridgeError::IndexOutOfBounds { index: 2, length: 1 })));
    assert!(matches!(element_at(&r, None, Buffer::Alleles, 1), Err(BridgeError::TypeMismatch)));
    assert_eq!(check_part(&r, None), Ok(()));
    assert_eq!(check_part(&r, Some(Projection::Info)), Ok(()));
    assert_eq!(check_part(&r, Some(Projection::Sample(0))), Ok(()));
    assert_eq!(check_part(&r, Some(Projection::Sample(1))), Err(BridgeError::IndexOutOfBounds { index: 2, length: 1 }));
    assert_eq!(invoke(&mut r, None, Method::InfoSet, &vec![Value::Str(text("DP")), Value::Int(1)]), Err(BridgeError::TypeMismatch));
    assert_eq!(invoke(&mut r, Some(Projection::Info), Method::InfoSet, &vec![Value::Str(text("DP")), Value::Int(1)]), Ok(Value::Null));
    assert_eq!(invoke(&mut r, None, Method::RecordInfo, &vec![Value::Str(text("DP"))]), Ok(Value::Int(1)));
    assert_eq!(invoke(&mut r, Some(Projection::Info), Method::InfoGet, &vec![Value::Str(text("DP"))]), Ok(Value::Int(1)));
    assert_eq!(invoke(&mut r, Some(Projection::Info), Method::RecordInfo, &vec![Value::Str(text("DP"))]), Err(BridgeError::TypeMismatch));
}
