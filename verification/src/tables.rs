//! Ready-made descriptor tables for the four types of the bridge.

use vstd::prelude::*;
use crate::descriptor::{
    has_field, has_method, Buffer, DescriptorTable, FieldView, Getter, Method, MethodView, Setter,
    TableView,
};

verus! {

/// The small table of a variant: the properties `start`, `stop`, `chrom`
/// and `filter`, all read-only, and the method `info`.
pub open spec fn variant_table_view() -> TableView {
    TableView {
        fields: seq![
            FieldView { name: "start"@, getter: Getter::Start, setter: None },
            FieldView { name: "stop"@, getter: Getter::Stop, setter: None },
            FieldView { name: "chrom"@, getter: Getter::Chrom, setter: None },
            FieldView { name: "filter"@, getter: Getter::Filter, setter: None },
        ],
        methods: seq![MethodView { name: "info"@, method: Method::RecordInfo }],
        buffer: None,
    }
}

/// The full table of a record: every property of a record, those that can
/// be written with their setter, the info mapping and the genotype matrix
/// as children, a copy of the record, and the method `info`.
pub open spec fn record_table_view() -> TableView {
    TableView {
        fields: seq![
            FieldView { name: "chrom"@, getter: Getter::Chrom, setter: Some(Setter::Chrom) },
            FieldView { name: "start"@, getter: Getter::Start, setter: Some(Setter::Start) },
            FieldView { name: "stop"@, getter: Getter::Stop, setter: None },
            FieldView { name: "id"@, getter: Getter::Id, setter: Some(Setter::Id) },
            FieldView { name: "ref"@, getter: Getter::Reference, setter: None },
            FieldView { name: "alt"@, getter: Getter::Alternates, setter: None },
            FieldView { name: "filter"@, getter: Getter::Filter, setter: None },
            FieldView { name: "INFO"@, getter: Getter::Info, setter: None },
            FieldView { name: "genotypes"@, getter: Getter::Genotypes, setter: None },
            FieldView { name: "copy"@, getter: Getter::Copy, setter: None },
        ],
        methods: seq![MethodView { name: "info"@, method: Method::RecordInfo }],
        buffer: None,
    }
}

/// The table of an info mapping: the property `keys` and the methods `get`
/// and `set`.
pub open spec fn info_table_view() -> TableView {
    TableView {
        fields: seq![FieldView { name: "keys"@, getter: Getter::Keys, setter: None }],
        methods: seq![
            MethodView { name: "get"@, method: Method::InfoGet },
            MethodView { name: "set"@, method: Method::InfoSet },
        ],
        buffer: None,
    }
}

/// The table of a buffer type: no names, only the reserved slots.
pub open spec fn buffer_table_view(buffer: Buffer) -> TableView {
    TableView { fields: Seq::empty(), methods: Seq::empty(), buffer: Some(buffer) }
}

/// Builds the small table of a variant.
pub fn variant_table() -> (out: DescriptorTable)
    ensures
        out.wf(),
        out@ == variant_table_view(),
{
    proof {
        reveal_strlit("start");
        reveal_strlit("stop");
        reveal_strlit("chrom");
        reveal_strlit("filter");
        reveal_strlit("info");
    }
    let ghost goal = variant_table_view().fields;
    let mut t = DescriptorTable::new();
    t.register("start", Getter::Start, None);
    assert(t@.fields =~= goal.take(1));
    assert(!has_field(goal.take(1), "stop"@)) by {
        assert("start"@.len() != "stop"@.len());
    }
    t.register("stop", Getter::Stop, None);
    assert(t@.fields =~= goal.take(2));
    assert(!has_field(goal.take(2), "chrom"@)) by {
        assert("start"@[0] != "chrom"@[0]);
        assert("stop"@.len() != "chrom"@.len());
    }
    t.register("chrom", Getter::Chrom, None);
    assert(t@.fields =~= goal.take(3));
    assert(!has_field(goal.take(3), "filter"@)) by {
        assert("start"@.len() != "filter"@.len());
        assert("stop"@.len() != "filter"@.len());
        assert("chrom"@.len() != "filter"@.len());
    }
    t.register("filter", Getter::Filter, None);
    assert(t@.fields =~= goal);
    t.register_method("info", Method::RecordInfo);
    assert(t@.methods =~= variant_table_view().methods);
    t
}

/// Builds the full table of a record.
pub fn record_table() -> (out: DescriptorTable)
    ensures
        out.wf(),
        out@ == record_table_view(),
{
    proof {
        reveal_strlit("chrom");
        reveal_strlit("start");
        reveal_strlit("stop");
        reveal_strlit("id");
        reveal_strlit("ref");
        reveal_strlit("alt");
        reveal_strlit("filter");
        reveal_strlit("INFO");
        reveal_strlit("genotypes");
        reveal_strlit("copy");
        reveal_strlit("info");
    }
    let ghost fields = record_table_view().fields;
    let ghost methods = record_table_view().methods;
    let mut t = DescriptorTable::new();
    t.register("chrom", Getter::Chrom, Some(Setter::Chrom));
    assert(t@.fields =~= fields.take(1));
    assert(!has_field(fields.take(1), "start"@)) by {
        assert("chrom"@[0] != "start"@[0]);
    }
    t.register("start", Getter::Start, Some(Setter::Start));
    assert(t@.fields =~= fields.take(2));
    assert(!has_field(fields.take(2), "stop"@)) by {
        assert("chrom"@.len() != "stop"@.len());
        assert("start"@.len() != "stop"@.len());
    }
    t.register("stop", Getter::Stop, None);
    assert(t@.fields =~= fields.take(3));
    assert(!has_field(fields.take(3), "id"@)) by {
        assert("chrom"@.len() != "id"@.len());
        assert("start"@.len() != "id"@.len());
        assert("stop"@.len() != "id"@.len());
    }
    t.register("id", Getter::Id, Some(Setter::Id));
    assert(t@.fields =~= fields.take(4));
    assert(!has_field(fields.take(4), "ref"@)) by {
        assert("chrom"@.len() != "ref"@.len());
        assert("start"@.len() != "ref"@.len());
        assert("stop"@.len() != "ref"@.len());
        assert("id"@.len() != "ref"@.len());
    }
    t.register("ref", Getter::Reference, None);
    assert(t@.fields =~= fields.take(5));
    assert(!has_field(fields.take(5), "alt"@)) by {
        assert("chrom"@.len() != "alt"@.len());
        assert("start"@.len() != "alt"@.len());
        assert("stop"@.len() != "alt"@.len());
        assert("id"@.len() != "alt"@.len());
        assert("ref"@[0] != "alt"@[0]);
    }
    t.register("alt", Getter::Alternates, None);
    assert(t@.fields =~= fields.take(6));
    assert(!has_field(fields.take(6), "filter"@)) by {
        assert("chrom"@.len() != "filter"@.len());
        assert("start"@.len() != "filter"@.len());
        assert("stop"@.len() != "filter"@.len());
        assert("id"@.len() != "filter"@.len());
        assert("ref"@.len() != "filter"@.len());
        assert("alt"@.len() != "filter"@.len());
    }
    t.register("filter", Getter::Filter, None);
    assert(t@.fields =~= fields.take(7));
    assert(!has_field(fields.take(7), "INFO"@)) by {
        assert("chrom"@.len() != "INFO"@.len());
        assert("start"@.len() != "INFO"@.len());
        assert("stop"@[0] != "INFO"@[0]);
        assert("id"@.len() != "INFO"@.len());
        assert("ref"@.len() != "INFO"@.len());
        assert("alt"@.len() != "INFO"@.len());
        assert("filter"@.len() != "INFO"@.len());
    }
    t.register("INFO", Getter::Info, None);
    assert(t@.fields =~= fields.take(8));
    assert(!has_field(fields.take(8), "genotypes"@)) by {
        assert("chrom"@.len() != "genotypes"@.len());
        assert("start"@.len() != "genotypes"@.len());
        assert("stop"@.len() != "genotypes"@.len());
        assert("id"@.len() != "genotypes"@.len());
        assert("ref"@.len() != "genotypes"@.len());
        assert("alt"@.len() != "genotypes"@.len());
        assert("filter"@.len() != "genotypes"@.len());
        assert("INFO"@.len() != "genotypes"@.len());
    }
    t.register("genotypes", Getter::Genotypes, None);
    assert(t@.fields =~= fields.take(9));
    assert(!has_field(fields.take(9), "copy"@)) by {
        assert("chrom"@.len() != "copy"@.len());
        assert("start"@.len() != "copy"@.len());
        assert("stop"@[0] != "copy"@[0]);
        assert("id"@.len() != "copy"@.len());
        assert("ref"@.len() != "copy"@.len());
        assert("alt"@.len() != "copy"@.len());
        assert("filter"@.len() != "copy"@.len());
        assert("INFO"@[0] != "copy"@[0]);
        assert("genotypes"@.len() != "copy"@.len());
    }
    t.register("copy", Getter::Copy, None);
    assert(t@.fields =~= fields.take(10));
    assert(fields.take(10) =~= fields);
    t.register_method("info", Method::RecordInfo);
    assert(t@.methods =~= methods.take(1));
    assert(methods.take(1) =~= methods);
    t
}

/// Builds the table of an info mapping.
pub fn info_table() -> (out: DescriptorTable)
    ensures
        out.wf(),
        out@ == info_table_view(),
{
    proof {
        reveal_strlit("keys");
        reveal_strlit("get");
        reveal_strlit("set");
    }
    let ghost fields = info_table_view().fields;
    let ghost methods = info_table_view().methods;
    let mut t = DescriptorTable::new();
    t.register("keys", Getter::Keys, None);
    assert(t@.fields =~= fields.take(1));
    assert(fields.take(1) =~= fields);
    t.register_method("get", Method::InfoGet);
    assert(t@.methods =~= methods.take(1));
    assert(!has_method(methods.take(1), "set"@)) by {
        assert("get"@[0] != "set"@[0]);
    }
    t.register_method("set", Method::InfoSet);
    assert(t@.methods =~= methods.take(2));
    assert(methods.take(2) =~= methods);
    t
}

/// Builds the table of a buffer type.
pub fn buffer_table(buffer: Buffer) -> (out: DescriptorTable)
    ensures
        out.wf(),
        out@ == buffer_table_view(buffer),
{
    let mut t = DescriptorTable::new();
    t.register_buffer(buffer);
    t
}

} // verus!
