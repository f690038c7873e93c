use catalyst::types::{DataType, StructField};

#[test]
fn test_datatype_is_atomic() {
    assert_eq!(DataType::BooleanType.is_atomic(), true);
    assert_eq!(DataType::ByteType.is_atomic(), true);
    assert_eq!(DataType::ShortType.is_atomic(), true);
    assert_eq!(DataType::IntegerType.is_atomic(), true);
    assert_eq!(DataType::LongType.is_atomic(), true);
    assert_eq!(DataType::FloatType.is_atomic(), true);
    assert_eq!(DataType::DoubleType.is_atomic(), true);
    assert_eq!(DataType::StringType.is_atomic(), true);
    assert_eq!(DataType::struct_type(vec![]).is_atomic(), false);
}

#[test]
fn test_datatype_is_struct() {
    assert_eq!(DataType::BooleanType.is_struct(), false);
    assert_eq!(DataType::ByteType.is_struct(), false);
    assert_eq!(DataType::ShortType.is_struct(), false);
    assert_eq!(DataType::IntegerType.is_struct(), false);
    assert_eq!(DataType::LongType.is_struct(), false);
    assert_eq!(DataType::FloatType.is_struct(), false);
    assert_eq!(DataType::DoubleType.is_struct(), false);
    assert_eq!(DataType::StringType.is_struct(), false);
    assert_eq!(DataType::struct_type(vec![]).is_struct(), true);
}

#[test]
fn test_datatype_type_name() {
    assert_eq!(DataType::BooleanType.short_name(), "bool");
    assert_eq!(DataType::ByteType.short_name(), "byte");
    assert_eq!(DataType::ShortType.short_name(), "short");
    assert_eq!(DataType::IntegerType.short_name(), "int");
    assert_eq!(DataType::LongType.short_name(), "long");
    assert_eq!(DataType::FloatType.short_name(), "float");
    assert_eq!(DataType::DoubleType.short_name(), "double");
    assert_eq!(DataType::StringType.short_name(), "string");
    assert_eq!(DataType::struct_type(vec![]).short_name(), "struct");
}

#[test]
fn test_datatype_struct() {
    let schema = DataType::struct_type(vec![])
        .add_field("a", DataType::IntegerType)
        .add_field_n("b", DataType::IntegerType, false)
        .add(StructField::new("c".to_owned(), DataType::IntegerType));

    assert_eq!(
        schema,
        DataType::struct_type(vec![
            StructField::new("a".to_owned(), DataType::IntegerType).with_nullable(true),
            StructField::new("b".to_owned(), DataType::IntegerType).with_nullable(false),
            StructField::new("c".to_owned(), DataType::IntegerType).with_nullable(true)
        ])
    );
}

#[test]
fn test_datatype_struct_num_fields() {
    let schema = DataType::struct_type(vec![]);
    assert_eq!(schema.num_fields(), 0);

    let schema = schema
        .add_field("a", DataType::IntegerType)
        .add_field("b", DataType::StringType);
    assert_eq!(schema.num_fields(), 2);
}

#[test]
fn test_datatype_display() {
    let schema = DataType::struct_type(vec![])
        .add_field("a", DataType::IntegerType)
        .add_field("b", DataType::struct_type(vec![])
            .add_field("c", DataType::StringType)
            .add_field("d", DataType::DoubleType)
        );

    assert_eq!(schema.type_string(), "struct<a:int,b:struct<c:string,d:double>>");
}

#[test]
fn test_datatype_tree_string() {
    let schema = DataType::struct_type(vec![])
        .add_field("a", DataType::IntegerType)
        .add_field("b", DataType::DoubleType)
        .add_field("c", DataType::StringType)
        .add_field("d", DataType::struct_type(vec![])
            .add_field("x", DataType::ByteType)
            .add_field("y", DataType::ShortType)
            .add_field_n("z", DataType::BooleanType, false)
        )
        .add_field_n("e", DataType::FloatType, false)
        .add_field_n("f", DataType::LongType, false);

    let expected_tree = vec![
        "root",
        " |- a: int (nullable = true)",
        " |- b: double (nullable = true)",
        " |- c: string (nullable = true)",
        " |- d: struct (nullable = true)",
        "    |- x: byte (nullable = true)",
        "    |- y: short (nullable = true)",
        "    |- z: bool (nullable = false)",
        " |- e: float (nullable = false)",
        " |- f: long (nullable = false)"
    ].join("\n");

    assert_eq!(schema.tree_string(), expected_tree)
}

#[test]
fn test_structfield() {
    let field = StructField::new("field_name".to_owned(), DataType::IntegerType);
    assert_eq!(field.name(), "field_name");
    assert_eq!(field.data_type(), &DataType::IntegerType);
    assert_eq!(field.is_nullable(), true);

    let field = field.with_nullable(false);
    assert_eq!(field.is_nullable(), false);
}

#[test]
fn datatype_default_size() {
    assert_eq!(DataType::BooleanType.default_size(), 1);
    assert_eq!(DataType::StringType.default_size(), 20);
    let schema = DataType::struct_type(vec![])
        .add_field("a", DataType::IntegerType)
        .add_field("b", DataType::struct_type(vec![])
            .add_field("c", DataType::StringType)
            .add_field("d", DataType::DoubleType));
    assert_eq!(schema.default_size(), 32);
    assert_eq!(DataType::struct_type(vec![]).default_size(), 0);
}
