//! Field descriptor tables: which names a script may use on an object of a
//! type, and which accessor stands behind each.

use vstd::prelude::*;
use vstd::string::*;
use crate::text::texts;

verus! {

/// The type of a bridged object, as the scripting runtime knows it.
#[derive(Clone, Copy, PartialEq, Eq, Structural, Debug)]
pub enum TypeTag {
    /// A variant record.
    Record,
    /// The key to value mapping of a record.
    Info,
    /// The genotype matrix of a record, one row per sample.
    Genotypes,
    /// The genotype row of one sample.
    Sample,
}

/// How the dispatcher hands the result of an accessor to the script.
#[derive(Clone, Copy, PartialEq, Eq, Structural, Debug)]
pub enum ValueKind {
    /// A number, a string, a boolean, or a list of them: handed over as it is.
    Scalar,
    /// A part of the object, handed over as a handle that refers to its
    /// parent, or a declared copy, handed over as a handle of its own.
    Child,
    /// An indexable part of the object: a handle whose type has a length and
    /// an indexed getter.
    Buffer,
    /// A call that may fail with an error of its own.
    Fallible,
}

/// The read accessors of the bridge.
#[derive(Clone, Copy, PartialEq, Eq, Structural, Debug)]
pub enum Getter {
    /// The contig name of a record.
    Chrom,
    /// The 1-based position of the first base of a record.
    Start,
    /// The 1-based position of the last base of a record.
    Stop,
    /// The identifier of a record.
    Id,
    /// The reference allele of a record.
    Reference,
    /// The alternate alleles of a record.
    Alternates,
    /// The filter names of a record, separated by commas.
    Filter,
    /// The info mapping of a record.
    Info,
    /// The genotype matrix of a record.
    Genotypes,
    /// The keys of an info mapping, in order.
    Keys,
    /// A copy of a record in a shared cell of its own, which later changes
    /// of the record do not reach.
    Copy,
}

/// The write accessors of the bridge.
#[derive(Clone, Copy, PartialEq, Eq, Structural, Debug)]
pub enum Setter {
    /// Moves a record to the contig of the given name.
    Chrom,
    /// Moves a record to the given 1-based start.
    Start,
    /// Replaces the identifier of a record.
    Id,
}

/// The methods of the bridge.
#[derive(Clone, Copy, PartialEq, Eq, Structural, Debug)]
pub enum Method {
    /// Reads an info key of a record.
    RecordInfo,
    /// Reads a key of an info mapping.
    InfoGet,
    /// Writes a key of an info mapping.
    InfoSet,
}

/// What an indexable type is a buffer of.
#[derive(Clone, Copy, PartialEq, Eq, Structural, Debug)]
pub enum Buffer {
    /// The rows of a genotype matrix, one per sample.
    Samples,
    /// The calls of one genotype row.
    Alleles,
}

impl Getter {
    /// How the result of the getter reaches the script.
    pub open spec fn kind_spec(self) -> ValueKind {
        match self {
            Getter::Info => ValueKind::Child,
            Getter::Copy => ValueKind::Child,
            Getter::Genotypes => ValueKind::Buffer,
            _ => ValueKind::Scalar,
        }
    }

    /// How the result of the getter reaches the script.
    pub fn kind(&self) -> (out: ValueKind)
        ensures
            out == self.kind_spec(),
    {
        match self {
            Getter::Info => ValueKind::Child,
            Getter::Copy => ValueKind::Child,
            Getter::Genotypes => ValueKind::Buffer,
            _ => ValueKind::Scalar,
        }
    }
}

impl Method {
    /// How the result of the method reaches the script: every method takes
    /// arguments that it may refuse.
    pub open spec fn kind_spec(self) -> ValueKind {
        ValueKind::Fallible
    }

    /// How the result of the method reaches the script.
    pub fn kind(&self) -> (out: ValueKind)
        ensures
            out == self.kind_spec(),
    {
        ValueKind::Fallible
    }
}

/// One named property of a type.
#[derive(Debug)]
pub struct FieldDescriptor {
    pub name: String,
    pub getter: Getter,
    pub setter: Option<Setter>,
}

/// The mathematical content of a [`FieldDescriptor`].
pub struct FieldView {
    pub name: Seq<char>,
    pub getter: Getter,
    pub setter: Option<Setter>,
}

impl View for FieldDescriptor {
    type V = FieldView;

    open spec fn view(&self) -> FieldView {
        FieldView { name: self.name@, getter: self.getter, setter: self.setter }
    }
}

/// One named method of a type.
#[derive(Debug)]
pub struct MethodDescriptor {
    pub name: String,
    pub method: Method,
}

/// The mathematical content of a [`MethodDescriptor`].
pub struct MethodView {
    pub name: Seq<char>,
    pub method: Method,
}

impl View for MethodDescriptor {
    type V = MethodView;

    open spec fn view(&self) -> MethodView {
        MethodView { name: self.name@, method: self.method }
    }
}

/// The contents of a list of field descriptors, in order.
pub open spec fn fields_view(fields: Seq<FieldDescriptor>) -> Seq<FieldView> {
    fields.map_values(|d: FieldDescriptor| d@)
}

/// The contents of a list of method descriptors, in order.
pub open spec fn methods_view(methods: Seq<MethodDescriptor>) -> Seq<MethodView> {
    methods.map_values(|d: MethodDescriptor| d@)
}

/// Whether some field has the name.
pub open spec fn has_field(fields: Seq<FieldView>, name: Seq<char>) -> bool {
    exists|i: int| 0 <= i < fields.len() && (#[trigger] fields[i]).name == name
}

/// The index of a field with the name; meaningful where `has_field` holds.
pub open spec fn field_index(fields: Seq<FieldView>, name: Seq<char>) -> int {
    choose|i: int| 0 <= i < fields.len() && (#[trigger] fields[i]).name == name
}

/// No two fields share a name.
pub open spec fn fields_distinct(fields: Seq<FieldView>) -> bool {
    forall|i: int, j: int|
        0 <= i < j < fields.len() ==> (#[trigger] fields[i]).name != (#[trigger] fields[j]).name
}

/// Whether some method has the name.
pub open spec fn has_method(methods: Seq<MethodView>, name: Seq<char>) -> bool {
    exists|i: int| 0 <= i < methods.len() && (#[trigger] methods[i]).name == name
}

/// The index of a method with the name; meaningful where `has_method` holds.
pub open spec fn method_index(methods: Seq<MethodView>, name: Seq<char>) -> int {
    choose|i: int| 0 <= i < methods.len() && (#[trigger] methods[i]).name == name
}

/// No two methods share a name.
pub open spec fn methods_distinct(methods: Seq<MethodView>) -> bool {
    forall|i: int, j: int|
        0 <= i < j < methods.len() ==> (#[trigger] methods[i]).name != (
        #[trigger] methods[j]).name
}

/// The descriptor table of one type.
#[derive(Debug)]
pub struct DescriptorTable {
    fields: Vec<FieldDescriptor>,
    methods: Vec<MethodDescriptor>,
    buffer: Option<Buffer>,
}

/// The mathematical content of a [`DescriptorTable`].
pub struct TableView {
    pub fields: Seq<FieldView>,
    pub methods: Seq<MethodView>,
    /// What the reserved index and length slots read, where the type has them.
    pub buffer: Option<Buffer>,
}

impl TableView {
    /// The invariant of a table: a name stands for one field and one method
    /// at most.
    pub open spec fn wf(self) -> bool {
        fields_distinct(self.fields) && methods_distinct(self.methods)
    }

    /// The property of that name, if the table has one.
    pub open spec fn field(self, name: Seq<char>) -> Option<FieldView> {
        if has_field(self.fields, name) {
            Some(self.fields[field_index(self.fields, name)])
        } else {
            None
        }
    }

    /// The method of that name, if the table has one.
    pub open spec fn method(self, name: Seq<char>) -> Option<Method> {
        if has_method(self.methods, name) {
            Some(self.methods[method_index(self.methods, name)].method)
        } else {
            None
        }
    }

    /// The table after a property was registered: a property of the same
    /// name is replaced in place, a new one is added at the end.
    pub open spec fn with_field(self, field: FieldView) -> TableView {
        if has_field(self.fields, field.name) {
            TableView {
                fields: self.fields.update(field_index(self.fields, field.name), field),
                ..self
            }
        } else {
            TableView { fields: self.fields.push(field), ..self }
        }
    }

    /// The table after a method was registered: a method of the same name is
    /// replaced in place, a new one is added at the end.
    pub open spec fn with_method(self, method: MethodView) -> TableView {
        if has_method(self.methods, method.name) {
            TableView {
                methods: self.methods.update(method_index(self.methods, method.name), method),
                ..self
            }
        } else {
            TableView { methods: self.methods.push(method), ..self }
        }
    }
}

impl View for DescriptorTable {
    type V = TableView;

    closed spec fn view(&self) -> TableView {
        TableView {
            fields: fields_view(self.fields@),
            methods: methods_view(self.methods@),
            buffer: self.buffer,
        }
    }
}

impl DescriptorTable {
    /// Whether the table meets its invariant.
    pub open spec fn wf(&self) -> bool {
        self@.wf()
    }

    /// A table without properties, methods or reserved slots.
    pub fn new() -> (out: DescriptorTable)
        ensures
            out.wf(),
            out@ == (TableView { fields: Seq::empty(), methods: Seq::empty(), buffer: None }),
    {
        let out = DescriptorTable { fields: Vec::new(), methods: Vec::new(), buffer: None };
        assert(out@.fields =~= Seq::empty());
        assert(out@.methods =~= Seq::empty());
        out
    }

    fn find_field(&self, name: &str) -> (out: Option<usize>)
        ensures
            out.is_some() == has_field(self@.fields, name@),
            out matches Some(i) ==> i < self.fields.len() && self.fields[i as int].name@ == name@,
            out matches Some(i) ==> fields_distinct(self@.fields) ==> i == field_index(
                self@.fields,
                name@,
            ),
    {
        let wanted = String::from_str(name);
        let ghost view = fields_view(self.fields@);
        let mut i: usize = 0;
        while i < self.fields.len()
            invariant
                i <= self.fields.len(),
                wanted@ == name@,
                view == fields_view(self.fields@),
                forall|j: int| 0 <= j < i ==> (#[trigger] view[j]).name != name@,
            decreases self.fields.len() - i,
        {
            if self.fields[i].name == wanted {
                assert(view[i as int].name == name@);
                return Some(i);
            }
            i += 1;
        }
        None
    }

    fn find_method(&self, name: &str) -> (out: Option<usize>)
        ensures
            out.is_some() == has_method(self@.methods, name@),
            out matches Some(i) ==> i < self.methods.len() && self.methods[i as int].name@
                == name@,
            out matches Some(i) ==> methods_distinct(self@.methods) ==> i == method_index(
                self@.methods,
                name@,
            ),
    {
        let wanted = String::from_str(name);
        let ghost view = methods_view(self.methods@);
        let mut i: usize = 0;
        while i < self.methods.len()
            invariant
                i <= self.methods.len(),
                wanted@ == name@,
                view == methods_view(self.methods@),
                forall|j: int| 0 <= j < i ==> (#[trigger] view[j]).name != name@,
            decreases self.methods.len() - i,
        {
            if self.methods[i].name == wanted {
                assert(view[i as int].name == name@);
                return Some(i);
            }
            i += 1;
        }
        None
    }

    /// Registers a property under a name, with its getter and, where the
    /// property can be written, its setter.
    pub fn register(&mut self, name: &str, getter: Getter, setter: Option<Setter>)
        requires
            old(self).wf(),
        ensures
            final(self).wf(),
            final(self)@ == old(self)@.with_field(FieldView { name: name@, getter, setter }),
    {
        let field = FieldDescriptor { name: String::from_str(name), getter, setter };
        let ghost before = fields_view(self.fields@);
        match self.find_field(name) {
            Some(i) => {
                self.fields[i] = field;
                assert(fields_view(self.fields@) =~= before.update(i as int, field@));
            },
            None => {
                self.fields.push(field);
                assert(fields_view(self.fields@) =~= before.push(field@));
            },
        }
    }

    /// Registers a method under a name.
    pub fn register_method(&mut self, name: &str, method: Method)
        requires
            old(self).wf(),
        ensures
            final(self).wf(),
            final(self)@ == old(self)@.with_method(MethodView { name: name@, method }),
    {
        let entry = MethodDescriptor { name: String::from_str(name), method };
        let ghost before = methods_view(self.methods@);
        match self.find_method(name) {
            Some(i) => {
                self.methods[i] = entry;
                assert(methods_view(self.methods@) =~= before.update(i as int, entry@));
            },
            None => {
                self.methods.push(entry);
                assert(methods_view(self.methods@) =~= before.push(entry@));
            },
        }
    }

    /// Fills the reserved index and length slots.
    pub fn register_buffer(&mut self, buffer: Buffer)
        ensures
            final(self)@ == (TableView { buffer: Some(buffer), ..old(self)@ }),
    {
        self.buffer = Some(buffer);
    }

    /// The getter and the setter of the property of that name, or `None`
    /// where the table has no such property.
    pub fn field(&self, name: &str) -> (out: Option<(Getter, Option<Setter>)>)
        requires
            self.wf(),
        ensures
            out == match self@.field(name@) {
                Some(f) => Some((f.getter, f.setter)),
                None => None,
            },
    {
        match self.find_field(name) {
            Some(i) => {
                Some((self.fields[i].getter, self.fields[i].setter))
            },
            None => None,
        }
    }

    /// The method of that name, or `None` where the table has none.
    pub fn method(&self, name: &str) -> (out: Option<Method>)
        requires
            self.wf(),
        ensures
            out == self@.method(name@),
    {
        match self.find_method(name) {
            Some(i) => {
                Some(self.methods[i].method)
            },
            None => None,
        }
    }

    /// What the reserved index and length slots read, where they are filled.
    pub fn buffer(&self) -> (out: Option<Buffer>)
        ensures
            out == self@.buffer,
    {
        self.buffer
    }

    /// The names of the properties, in the order of the table.
    pub fn field_names(&self) -> (out: Vec<String>)
        ensures
            texts(out@) == self@.fields.map_values(|f: FieldView| f.name),
    {
        let mut out: Vec<String> = Vec::new();
        let mut i: usize = 0;
        while i < self.fields.len()
            invariant
                i <= self.fields.len(),
                out.len() == i,
                forall|j: int| 0 <= j < i ==> out[j]@ == self.fields[j].name@,
            decreases self.fields.len() - i,
        {
            out.push(self.fields[i].name.clone());
            i += 1;
        }
        assert(texts(out@) =~= self@.fields.map_values(|f: FieldView| f.name));
        out
    }

    /// The names of the methods, in the order of the table.
    pub fn method_names(&self) -> (out: Vec<String>)
        ensures
            texts(out@) == self@.methods.map_values(|m: MethodView| m.name),
    {
        let mut out: Vec<String> = Vec::new();
        let mut i: usize = 0;
        while i < self.methods.len()
            invariant
                i <= self.methods.len(),
                out.len() == i,
                forall|j: int| 0 <= j < i ==> out[j]@ == self.methods[j].name@,
            decreases self.methods.len() - i,
        {
            out.push(self.methods[i].name.clone());
            i += 1;
        }
        assert(texts(out@) =~= self@.methods.map_values(|m: MethodView| m.name));
        out
    }

    /// The number of properties.
    pub fn field_count(&self) -> (out: usize)
        ensures
            out == self@.fields.len(),
    {
        self.fields.len()
    }
}

} // verus!
