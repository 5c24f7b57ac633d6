use variant_bridge::bridge::Bridge;
use variant_bridge::cell::OwnershipMode;
use variant_bridge::descriptor::TypeTag;
use variant_bridge::error::BridgeError;
use variant_bridge::info::{InfoEntry, InfoValues, TagLength};
use variant_bridge::record::Record;
use variant_bridge::tables::variant_table;
use variant_bridge::value::{Allele, Value};

fn text(s: &str) -> String {
    s.to_string()
}

fn variant() -> Record {
    let mut r = Record::new(
        "rs1",
        Some("chr1"),
        99,
        5,
        "ACGTA",
        vec![text("A")],
        vec![text("PASS"), text("q10")],
    )
    .unwrap();
    r.info_insert(InfoEntry {
        key: text("DP"),
        length: TagLength::Fixed(1),
        values: InfoValues::Integer(vec![10]),
    })
    .unwrap();
    r.push_sample(vec![Allele::Unphased(0), Allele::Phased(1), Allele::Unphased(1)]);
    r
}

fn info_handle(b: &mut Bridge, record: usize) -> usize {
    match b.get_property(record, "INFO").unwrap() {
        Value::Handle(h) => h,
        other => panic!("not a handle: {:?}", other),
    }
}

#[test]
fn info_slot_is_dynamically_typed() {
    let mut b = Bridge::standard();
    let rec = b.wrap(variant(), OwnershipMode::OwnedShared).unwrap();
    let info = info_handle(&mut b, rec);
    assert_eq!(b.call_method(info, "get", &vec![Value::Str(text("DP"))]), Ok(Value::Int(10)));
    assert_eq!(
        b.call_method(info, "set", &vec![Value::Str(text("DP")), Value::Int(99)]),
        Ok(Value::Null)
    );
    assert_eq!(b.call_method(info, "get", &vec![Value::Str(text("DP"))]), Ok(Value::Int(99)));
    assert_eq!(
        b.call_method(info, "set", &vec![Value::Str(text("DP")), Value::Str(text("hello"))]),
        Ok(Value::Null)
    );
    assert_eq!(
        b.call_method(info, "get", &vec![Value::Str(text("DP"))]),
        Ok(Value::Str(text("hello")))
    );
}

#[test]
fn genotype_row_is_an_indexable_sequence() {
    let mut b = Bridge::standard();
    let rec = b.wrap(variant(), OwnershipMode::OwnedShared).unwrap();
    let matrix = match b.get_property(rec, "genotypes").unwrap() {
        Value::Handle(h) => h,
        other => panic!("not a handle: {:?}", other),
    };
    assert_eq!(b.length(matrix), Ok(Value::Int(1)));
    let row = match b.get_index(matrix, 1).unwrap() {
        Value::Handle(h) => h,
        other => panic!("not a handle: {:?}", other),
    };
    assert_eq!(b.handle(row).unwrap().mode(), OwnershipMode::ChildReference);
    assert_eq!(b.length(row), Ok(Value::Int(3)));
    assert_eq!(b.get_index(row, 1), Ok(Value::Allele(Allele::Unphased(0))));
    assert_eq!(b.get_index(row, 2), Ok(Value::Allele(Allele::Phased(1))));
    assert_eq!(b.get_index(row, 3), Ok(Value::Allele(Allele::Unphased(1))));
    assert_eq!(Allele::Unphased(0).render(), "0");
    assert_eq!(Allele::Phased(1).render(), "|1");
    assert!(!Allele::Unphased(0).is_phased());
    assert!(Allele::Phased(1).is_phased());
    assert_eq!(Allele::Phased(1).index(), Some(1));
}

#[test]
fn variant_template_reads_start_stop_chrom_filter() {
    let mut b = Bridge::new();
    assert!(b.register_type(TypeTag::Record, variant_table()));
    let h = b.wrap(variant(), OwnershipMode::OwnedShared).unwrap();
    assert_eq!(b.get_property(h, "start"), Ok(Value::Int(100)));
    assert_eq!(b.get_property(h, "stop"), Ok(Value::Int(104)));
    assert_eq!(b.get_property(h, "chrom"), Ok(Value::Str(text("chr1"))));
    assert_eq!(b.get_property(h, "filter"), Ok(Value::Str(text("PASS,q10"))));
    assert_eq!(b.call_method(h, "info", &vec![Value::Str(text("DP"))]), Ok(Value::Int(10)));
    assert_eq!(b.call_method(h, "info", &vec![Value::Str(text("AF"))]), Ok(Value::Null));
    assert_eq!(b.call_method(h, "info", &vec![]), Err(BridgeError::TypeMismatch));
}

#[test]
fn chrom_without_contig_reads_as_dot() {
    let mut b = Bridge::new();
    b.register_type(TypeTag::Record, variant_table());
    let r = Record::new("", None, 0, 0, "", vec![], vec![]).unwrap();
    let h = b.wrap(r, OwnershipMode::OwnedShared).unwrap();
    assert_eq!(b.get_property(h, "chrom"), Ok(Value::Str(text("."))));
    assert_eq!(b.get_property(h, "filter"), Ok(Value::Str(text(""))));
    assert_eq!(b.get_property(h, "start"), Ok(Value::Int(1)));
    assert_eq!(b.get_property(h, "stop"), Ok(Value::Int(0)));
}

#[test]
fn info_reads_scalar_only_for_one_declared_value() {
    let mut r = variant();
    let put = |r: &mut Record, key: &str, length: TagLength, values: InfoValues| {
        r.info_insert(InfoEntry { key: text(key), length, values }).unwrap();
    };
    put(&mut r, "ONE", TagLength::Fixed(1), InfoValues::Integer(vec![7]));
    put(&mut r, "VAR", TagLength::Variable, InfoValues::Integer(vec![7]));
    put(&mut r, "TWO", TagLength::Fixed(2), InfoValues::Integer(vec![1, 2]));
    put(&mut r, "NONE", TagLength::Fixed(1), InfoValues::Integer(vec![]));
    put(&mut r, "ALT", TagLength::AltAlleles, InfoValues::Float(vec![0.5f64.to_bits()]));
    put(&mut r, "F", TagLength::Fixed(1), InfoValues::Float(vec![0.25f64.to_bits()]));
    put(&mut r, "S", TagLength::Fixed(1), InfoValues::Text(vec![text("x")]));
    put(&mut r, "SS", TagLength::Alleles, InfoValues::Text(vec![text("x"), text("y")]));
    put(&mut r, "G", TagLength::Genotypes, InfoValues::Text(vec![]));
    put(&mut r, "FLAG", TagLength::Fixed(0), InfoValues::Flag);
    assert_eq!(r.info_get("ONE"), Value::Int(7));
    assert_eq!(r.info_get("VAR"), Value::IntList(vec![7]));
    assert_eq!(r.info_get("TWO"), Value::IntList(vec![1, 2]));
    assert_eq!(r.info_get("NONE"), Value::IntList(vec![]));
    assert_eq!(r.info_get("ALT"), Value::FloatList(vec![0.5f64.to_bits()]));
    assert_eq!(r.info_get("F"), Value::Float(0.25f64.to_bits()));
    assert_eq!(r.info_get("S"), Value::Str(text("x")));
    assert_eq!(r.info_get("SS"), Value::StrList(vec![text("x"), text("y")]));
    assert_eq!(r.info_get("G"), Value::StrList(vec![]));
    assert_eq!(r.info_get("FLAG"), Value::Null);
    assert_eq!(r.info_get("MISSING"), Value::Null);
    assert_eq!(r.info_get("DP"), Value::Int(10));
    assert_eq!(r.info_len(), 11);
}
