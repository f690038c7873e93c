//! Data types of plan values: atomic types and structs of named fields.

use vstd::prelude::*;
use vstd::string::StringExecFns;
use crate::text::{join_lines, join_with_newlines, views};

verus! {

/// Model of a data type.
pub enum TypeModel {
    Boolean,
    Byte,
    Short,
    Integer,
    Long,
    Float,
    Double,
    Str,
    Struct(Seq<FieldModel>),
}

/// Model of a struct field.
pub struct FieldModel {
    pub name: Seq<char>,
    pub data_type: TypeModel,
    pub nullable: bool,
}

/// The data types supported by the optimizer.
#[derive(Debug)]
pub enum DataType {
    BooleanType,
    ByteType,
    ShortType,
    IntegerType,
    LongType,
    FloatType,
    DoubleType,
    StringType,
    StructType(Vec<StructField>),
}

/// A named field of a struct type, with its type and whether it may hold null.
#[derive(Debug)]
pub struct StructField {
    pub name: String,
    pub data_type: DataType,
    pub nullable: bool,
}

/// The short name of a type.
pub open spec fn type_name_of(t: DataType) -> Seq<char> {
    match t {
        DataType::BooleanType => "bool"@,
        DataType::ByteType => "byte"@,
        DataType::ShortType => "short"@,
        DataType::IntegerType => "int"@,
        DataType::LongType => "long"@,
        DataType::FloatType => "float"@,
        DataType::DoubleType => "double"@,
        DataType::StringType => "string"@,
        DataType::StructType(_) => "struct"@,
    }
}

/// The default size in bytes of a value of type `t`: a struct is the sum of
/// its fields.
pub open spec fn size_of(t: DataType) -> nat
    decreases t, 0nat,
{
    match t {
        DataType::BooleanType => 1,
        DataType::ByteType => 1,
        DataType::ShortType => 2,
        DataType::IntegerType => 4,
        DataType::LongType => 8,
        DataType::FloatType => 4,
        DataType::DoubleType => 8,
        DataType::StringType => 20,
        DataType::StructType(fields) => fields_size(fields@, fields@.len()),
    }
}

/// The summed sizes of the first `k` fields.
pub open spec fn fields_size(fields: Seq<StructField>, k: nat) -> nat
    decreases fields, k,
{
    if k == 0 || k > fields.len() {
        0
    } else {
        fields_size(fields, (k - 1) as nat) + size_of(fields[k - 1].data_type)
    }
}

/// `"true"` or `"false"`.
pub open spec fn bool_text(b: bool) -> Seq<char> {
    if b {
        "true"@
    } else {
        "false"@
    }
}

/// The schema lines of the fields of `t` (none for an atomic type), each
/// field line starting with `prefix`; nested fields get three more spaces.
pub open spec fn schema_lines(t: DataType, prefix: Seq<char>) -> Seq<Seq<char>>
    decreases t, 0nat,
{
    match t {
        DataType::StructType(fields) => field_lines(fields@, prefix, fields@.len()),
        _ => Seq::empty(),
    }
}

/// The schema lines of the first `k` fields.
pub open spec fn field_lines(fields: Seq<StructField>, prefix: Seq<char>, k: nat) -> Seq<
    Seq<char>,
>
    decreases fields, k,
{
    if k == 0 || k > fields.len() {
        Seq::empty()
    } else {
        let f = fields[k - 1];
        field_lines(fields, prefix, (k - 1) as nat) + seq![
            prefix + "- "@ + f.name@ + ": "@ + type_name_of(f.data_type) + " (nullable = "@
                + bool_text(f.nullable) + ")"@,
        ] + schema_lines(f.data_type, "   "@ + prefix)
    }
}

/// The compact text of a type: its short name, or `struct<name:type,...>`.
pub open spec fn type_text(t: DataType) -> Seq<char>
    decreases t, 0nat,
{
    match t {
        DataType::StructType(fields) => "struct<"@ + fields_text(fields@, fields@.len()) + ">"@,
        _ => type_name_of(t),
    }
}

/// The text of the first `k` fields, separated by commas.
pub open spec fn fields_text(fields: Seq<StructField>, k: nat) -> Seq<char>
    decreases fields, k,
{
    if k == 0 || k > fields.len() {
        Seq::empty()
    } else {
        let f = fields[k - 1];
        let item = f.name@ + ":"@ + type_text(f.data_type);
        if k == 1 {
            item
        } else {
            fields_text(fields, (k - 1) as nat) + ","@ + item
        }
    }
}

impl DataType {
    /// The model of this type.
    pub open spec fn model(self) -> TypeModel
        decreases self,
    {
        match self {
            DataType::BooleanType => TypeModel::Boolean,
            DataType::ByteType => TypeModel::Byte,
            DataType::ShortType => TypeModel::Short,
            DataType::IntegerType => TypeModel::Integer,
            DataType::LongType => TypeModel::Long,
            DataType::FloatType => TypeModel::Float,
            DataType::DoubleType => TypeModel::Double,
            DataType::StringType => TypeModel::Str,
            DataType::StructType(fields) => TypeModel::Struct(
                Seq::new(
                    fields.len() as nat,
                    |i: int|
                        if 0 <= i < fields.len() {
                            FieldModel {
                                name: fields@[i].name@,
                                data_type: fields@[i].data_type.model(),
                                nullable: fields@[i].nullable,
                            }
                        } else {
                            FieldModel { name: Seq::empty(), data_type: TypeModel::Boolean, nullable: false }
                        },
                ),
            ),
        }
    }

    /// The fields of a struct type, empty for any other type.
    pub open spec fn fields(self) -> Seq<StructField> {
        match self {
            DataType::StructType(fields) => fields@,
            _ => Seq::empty(),
        }
    }

    /// A struct type with the given fields, in order.
    pub fn struct_type(fields: Vec<StructField>) -> (r: DataType)
        ensures
            r == DataType::StructType(fields),
    {
        DataType::StructType(fields)
    }

    /// This struct type with `field` appended.
    pub fn add(self, field: StructField) -> (r: DataType)
        requires
            self is StructType,
        ensures
            r is StructType,
            r.fields() == self.fields().push(field),
    {
        match self {
            DataType::StructType(mut fields) => {
                fields.push(field);
                DataType::StructType(fields)
            },
            _ => self,
        }
    }

    /// This struct type with a nullable field of the given name and type appended.
    pub fn add_field(self, name: &str, data_type: DataType) -> (r: DataType)
        requires
            self is StructType,
        ensures
            r is StructType,
            r.fields().len() == self.fields().len() + 1,
            r.fields().drop_last() == self.fields(),
            r.fields().last().name@ == name@,
            r.fields().last().data_type == data_type,
            r.fields().last().nullable,
    {
        self.add(StructField::new(name.to_owned(), data_type))
    }

    /// This struct type with a field of the given name, type and nullability appended.
    pub fn add_field_n(self, name: &str, data_type: DataType, nullable: bool) -> (r: DataType)
        requires
            self is StructType,
        ensures
            r is StructType,
            r.fields().len() == self.fields().len() + 1,
            r.fields().drop_last() == self.fields(),
            r.fields().last().name@ == name@,
            r.fields().last().data_type == data_type,
            r.fields().last().nullable == nullable,
    {
        self.add(StructField::new(name.to_owned(), data_type).with_nullable(nullable))
    }

    /// The default size in bytes of a value of this type, used for size estimates.
    pub fn default_size(&self) -> (r: usize)
        requires
            size_of(*self) <= usize::MAX,
        ensures
            r == size_of(*self),
        decreases self,
    {
        match self {
            DataType::BooleanType => 1,
            DataType::ByteType => 1,
            DataType::ShortType => 2,
            DataType::IntegerType => 4,
            DataType::LongType => 8,
            DataType::FloatType => 4,
            DataType::DoubleType => 8,
            DataType::StringType => 20,
            DataType::StructType(fields) => {
                let n = fields.len();
                let mut total: usize = 0;
                let mut i: usize = 0;
                while i < n
                    invariant
                        n == fields.len(),
                        0 <= i <= n,
                        total == fields_size(fields@, i as nat),
                        fields_size(fields@, n as nat) <= usize::MAX,
                        *self == DataType::StructType(*fields),
                    decreases n - i,
                {
                    proof {
                        lemma_fields_size_monotone(fields@, (i + 1) as nat, n as nat);
                        assert(decreases_to!(*self => self->StructType_0));
                        assert(decreases_to!(*fields => fields[i as int]));
                        assert(decreases_to!(fields[i as int] => fields[i as int].data_type));
                        assert(decreases_to!(*self => fields[i as int].data_type));
                    }
                    let s = fields[i].data_type.default_size();
                    total = total + s;
                    i += 1;
                }
                total
            },
        }
    }

    /// Number of fields of this struct type.
    pub fn num_fields(&self) -> (r: usize)
        requires
            self is StructType,
        ensures
            r == self.fields().len(),
    {
        match self {
            DataType::StructType(fields) => fields.len(),
            _ => 0,
        }
    }

    /// Returns `true` iff this is a struct type.
    pub fn is_struct(&self) -> (r: bool)
        ensures
            r == (self is StructType),
    {
        match self {
            DataType::StructType(_) => true,
            _ => false,
        }
    }

    /// Returns `true` iff this is an atomic type: anything but a struct.
    pub fn is_atomic(&self) -> (r: bool)
        ensures
            r == !(self is StructType),
    {
        match self {
            DataType::StructType(_) => false,
            _ => true,
        }
    }

    /// The short name of this type.
    pub fn short_name(&self) -> (r: &'static str)
        ensures
            r@ == type_name_of(*self),
    {
        proof {
            reveal_strlit("bool");
            reveal_strlit("byte");
            reveal_strlit("short");
            reveal_strlit("int");
            reveal_strlit("long");
            reveal_strlit("float");
            reveal_strlit("double");
            reveal_strlit("string");
            reveal_strlit("struct");
        }
        match self {
            DataType::BooleanType => "bool",
            DataType::ByteType => "byte",
            DataType::ShortType => "short",
            DataType::IntegerType => "int",
            DataType::LongType => "long",
            DataType::FloatType => "float",
            DataType::DoubleType => "double",
            DataType::StringType => "string",
            DataType::StructType(_) => "struct",
        }
    }
}

proof fn lemma_fields_size_monotone(fields: Seq<StructField>, j: nat, k: nat)
    requires
        j <= k <= fields.len(),
    ensures
        fields_size(fields, j) <= fields_size(fields, k),
    decreases k - j,
{
    if j < k {
        lemma_fields_size_monotone(fields, j, (k - 1) as nat);
    }
}

impl StructField {
    /// The model of this field.
    pub open spec fn model(self) -> FieldModel {
        FieldModel { name: self.name@, data_type: self.data_type.model(), nullable: self.nullable }
    }

    /// A nullable field of the given name and type.
    pub fn new(name: String, data_type: DataType) -> (r: StructField)
        ensures
            r.name == name,
            r.data_type == data_type,
            r.nullable,
    {
        StructField { name, data_type, nullable: true }
    }

    /// The name of this field.
    pub fn name(&self) -> (r: &str)
        ensures
            r@ == self.name@,
    {
        self.name.as_str()
    }

    /// The type of this field.
    pub fn data_type(&self) -> (r: &DataType)
        ensures
            *r == self.data_type,
    {
        &self.data_type
    }

    /// Whether this field may hold null.
    pub fn is_nullable(&self) -> (r: bool)
        ensures
            r == self.nullable,
    {
        self.nullable
    }

    /// This field with its nullability set to `is_nullable`.
    pub fn with_nullable(self, is_nullable: bool) -> (r: StructField)
        ensures
            r.name == self.name,
            r.data_type == self.data_type,
            r.nullable == is_nullable,
    {
        StructField { name: self.name, data_type: self.data_type, nullable: is_nullable }
    }
}

impl DataType {
    fn same_as(&self, other: &DataType) -> (r: bool)
        ensures
            r == (self.model() == other.model()),
        decreases self,
    {
        match (self, other) {
            (DataType::StructType(fa), DataType::StructType(fb)) => {
                let n = fa.len();
                if n != fb.len() {
                    assert(self.model()->Struct_0.len() != other.model()->Struct_0.len());
                    return false;
                }
                let mut i: usize = 0;
                while i < n
                    invariant
                        n == fa.len(),
                        n == fb.len(),
                        0 <= i <= n,
                        *self == DataType::StructType(*fa),
                        *other == DataType::StructType(*fb),
                        forall|j: int| 0 <= j < i ==> (#[trigger] fa@[j]).model() == fb@[j].model(),
                    decreases n - i,
                {
                    proof {
                        assert(decreases_to!(*self => self->StructType_0));
                        assert(decreases_to!(*fa => fa[i as int]));
                        assert(decreases_to!(fa[i as int] => fa[i as int].data_type));
                    }
                    let same = fa[i].name == fb[i].name && fa[i].nullable == fb[i].nullable
                        && fa[i].data_type.same_as(&fb[i].data_type);
                    if !same {
                        assert(self.model()->Struct_0[i as int] != other.model()->Struct_0[i as int]);
                        return false;
                    }
                    i += 1;
                }
                assert(self.model()->Struct_0 =~= other.model()->Struct_0);
                true
            },
            (DataType::BooleanType, DataType::BooleanType) => true,
            (DataType::ByteType, DataType::ByteType) => true,
            (DataType::ShortType, DataType::ShortType) => true,
            (DataType::IntegerType, DataType::IntegerType) => true,
            (DataType::LongType, DataType::LongType) => true,
            (DataType::FloatType, DataType::FloatType) => true,
            (DataType::DoubleType, DataType::DoubleType) => true,
            (DataType::StringType, DataType::StringType) => true,
            _ => false,
        }
    }

    fn push_schema_lines(&self, prefix: &str, buf: &mut Vec<String>)
        ensures
            views(final(buf)@) == views(old(buf)@) + schema_lines(*self, prefix@),
        decreases self,
    {
        match self {
            DataType::StructType(fields) => {
                proof {
                    reveal_strlit("- ");
                    reveal_strlit(": ");
                    reveal_strlit(" (nullable = ");
                    reveal_strlit("true");
                    reveal_strlit("false");
                    reveal_strlit(")");
                    reveal_strlit("   ");
                }
                let nested = "   ".to_owned().concat(prefix);
                let n = fields.len();
                let mut i: usize = 0;
                while i < n
                    invariant
                        n == fields.len(),
                        0 <= i <= n,
                        *self == DataType::StructType(*fields),
                        nested@ == "   "@ + prefix@,
                        views(buf@) == views(old(buf)@) + field_lines(fields@, prefix@, i as nat),
                    decreases n - i,
                {
                    proof {
                        assert(decreases_to!(*self => self->StructType_0));
                        assert(decreases_to!(*fields => fields[i as int]));
                        assert(decreases_to!(fields[i as int] => fields[i as int].data_type));
                    }
                    let f = &fields[i];
                    let flag = if f.nullable {
                        "true"
                    } else {
                        "false"
                    };
                    let line = prefix.to_owned().concat("- ").concat(f.name.as_str()).concat(
                        ": ",
                    ).concat(f.data_type.short_name()).concat(" (nullable = ").concat(flag).concat(
                        ")",
                    );
                    let ghost prev = buf@;
                    buf.push(line);
                    assert(views(buf@) =~= views(prev) + seq![line@]);
                    f.data_type.push_schema_lines(nested.as_str(), buf);
                    assert(views(buf@) =~= views(old(buf)@) + field_lines(fields@, prefix@, (i + 1) as nat));
                    i += 1;
                }
                assert(field_lines(fields@, prefix@, n as nat) == schema_lines(*self, prefix@));
            },
            _ => {
                assert(views(buf@) =~= views(old(buf)@) + schema_lines(*self, prefix@));
            },
        }
    }

    /// The schema of this struct type: a `root` line, then one line per
    /// field, nested fields indented under their struct.
    pub fn tree_string(&self) -> (r: String)
        requires
            self is StructType,
        ensures
            r@ == join_lines(seq!["root"@] + schema_lines(*self, " |"@)),
    {
        proof {
            reveal_strlit("root");
            reveal_strlit(" |");
        }
        let mut buf: Vec<String> = Vec::new();
        buf.push("root".to_owned());
        assert(views(buf@) =~= seq!["root"@]);
        self.push_schema_lines(" |", &mut buf);
        join_with_newlines(&buf)
    }

    /// The compact text of this type, such as `struct<a:int,b:string>`.
    pub fn type_string(&self) -> (r: String)
        ensures
            r@ == type_text(*self),
        decreases self,
    {
        match self {
            DataType::StructType(fields) => {
                proof {
                    reveal_strlit("struct<");
                    reveal_strlit(">");
                    reveal_strlit(":");
                    reveal_strlit(",");
                    reveal_strlit("");
                }
                let mut body = "".to_owned();
                let n = fields.len();
                let mut i: usize = 0;
                while i < n
                    invariant
                        n == fields.len(),
                        0 <= i <= n,
                        *self == DataType::StructType(*fields),
                        body@ == fields_text(fields@, i as nat),
                    decreases n - i,
                {
                    proof {
                        assert(decreases_to!(*self => self->StructType_0));
                        assert(decreases_to!(*fields => fields[i as int]));
                        assert(decreases_to!(fields[i as int] => fields[i as int].data_type));
                    }
                    let f = &fields[i];
                    let item = f.name.clone().concat(":").concat(f.data_type.type_string().as_str());
                    if i == 0 {
                        body = item;
                        assert(body@ =~= fields_text(fields@, 1));
                    } else {
                        body = body.concat(",").concat(item.as_str());
                        assert(body@ =~= fields_text(fields@, (i + 1) as nat));
                    }
                    i += 1;
                }
                let r = "struct<".to_owned().concat(body.as_str()).concat(">");
                assert(r@ =~= type_text(*self));
                r
            },
            _ => self.short_name().to_owned(),
        }
    }
}

impl PartialEq for DataType {
    fn eq(&self, other: &DataType) -> (r: bool) {
        self.same_as(other)
    }
}

impl vstd::std_specs::cmp::PartialEqSpecImpl for DataType {
    open spec fn obeys_eq_spec() -> bool {
        true
    }

    open spec fn eq_spec(&self, other: &DataType) -> bool {
        self.model() == other.model()
    }
}

impl PartialEq for StructField {
    fn eq(&self, other: &StructField) -> (r: bool) {
        self.name == other.name && self.nullable == other.nullable && self.data_type.same_as(
            &other.data_type,
        )
    }
}

impl vstd::std_specs::cmp::PartialEqSpecImpl for StructField {
    open spec fn obeys_eq_spec() -> bool {
        true
    }

    open spec fn eq_spec(&self, other: &StructField) -> bool {
        self.model() == other.model()
    }
}

} // verus!
