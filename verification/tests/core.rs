use spacetime_schema::detect::{
    detect_spacetimedb_sum_type, detect_spacetimedb_type, get_option_inner_type, is_option_type,
};
use spacetime_schema::format::format_type;
use spacetime_schema::model::{
    AlgebraicType, Element, NamedType, OptionalName, ProductType, SatsSchema, SumType, TableInfo,
    TypeDef, TypeName, TypeSpace, Variant,
};
use spacetime_schema::names::NameMap;
use spacetime_schema::query::{
    display_schema_pretty, lookup_enum, lookup_table, lookup_type, schema_overview, search_schema,
    suggest_enum_types, suggest_similar_types, EnumLookup, SchemaReport, TableLookup, TypeEntryView,
    TypeLookup, TypeMatch,
};

fn named(s: &str) -> OptionalName {
    OptionalName::Named(s.to_string())
}

fn elem(name: Option<&str>, ty: AlgebraicType) -> Element {
    Element {
        name: match name {
            Some(n) => named(n),
            None => OptionalName::Unnamed,
        },
        algebraic_type: ty,
    }
}

fn var(name: Option<&str>, ty: AlgebraicType) -> Variant {
    Variant {
        name: match name {
            Some(n) => named(n),
            None => OptionalName::Unnamed,
        },
        algebraic_type: ty,
    }
}

fn product(elements: Vec<Element>) -> ProductType {
    ProductType { elements }
}

fn sum(variants: Vec<Variant>) -> SumType {
    SumType { variants }
}

fn unit() -> AlgebraicType {
    AlgebraicType::Product(product(vec![]))
}

fn named_type(name: &str, ty: usize) -> NamedType {
    NamedType {
        name: TypeName { scope: vec![], name: name.to_string() },
        ty,
        custom_ordering: false,
    }
}

fn empty_names() -> NameMap {
    NameMap::build(&vec![])
}

fn table(name: &str, row: usize, pk: Vec<usize>) -> TableInfo {
    TableInfo { name: name.to_string(), product_type_ref: row, primary_key: pk }
}

#[test]
fn format_scalars() {
    let names = empty_names();
    assert_eq!(format_type(&AlgebraicType::Bool, &names), "bool");
    assert_eq!(format_type(&AlgebraicType::I8, &names), "i8");
    assert_eq!(format_type(&AlgebraicType::U8, &names), "u8");
    assert_eq!(format_type(&AlgebraicType::I16, &names), "i16");
    assert_eq!(format_type(&AlgebraicType::U16, &names), "u16");
    assert_eq!(format_type(&AlgebraicType::I32, &names), "i32");
    assert_eq!(format_type(&AlgebraicType::U32, &names), "u32");
    assert_eq!(format_type(&AlgebraicType::I64, &names), "i64");
    assert_eq!(format_type(&AlgebraicType::U64, &names), "u64");
    assert_eq!(format_type(&AlgebraicType::I128, &names), "i128");
    assert_eq!(format_type(&AlgebraicType::U128, &names), "u128");
    assert_eq!(format_type(&AlgebraicType::I256, &names), "i256");
    assert_eq!(format_type(&AlgebraicType::U256, &names), "u256");
    assert_eq!(format_type(&AlgebraicType::F32, &names), "f32");
    assert_eq!(format_type(&AlgebraicType::F64, &names), "f64");
    assert_eq!(format_type(&AlgebraicType::Str, &names), "String");
}

#[test]
fn format_is_deterministic() {
    let names = NameMap::build(&vec![named_type("Point", 0)]);
    let t = AlgebraicType::Array(Box::new(AlgebraicType::Ref(0)));
    let a = format_type(&t, &names);
    let b = format_type(&t, &names);
    assert_eq!(a, b);
    assert_eq!(a, "Vec<Point>");
}

#[test]
fn nested_arrays_compose() {
    let names = empty_names();
    let t = AlgebraicType::Array(Box::new(AlgebraicType::Array(Box::new(AlgebraicType::I32))));
    assert_eq!(format_type(&t, &names), "Vec<Vec<i32>>");
}

#[test]
fn ref_renders_placeholder_without_recursion() {
    // The typespace slot 0 is a product that references itself; the
    // formatter must stop at the name and never expand the cycle.
    let names = empty_names();
    let t = AlgebraicType::Ref(0);
    assert_eq!(format_type(&t, &names), "Type_0");
    let cyclic = AlgebraicType::Product(product(vec![elem(Some("next"), AlgebraicType::Ref(0))]));
    assert_eq!(format_type(&cyclic, &names), "Product(1 fields)");
    assert_eq!(format_type(&AlgebraicType::Ref(12345), &names), "Type_12345");
}

#[test]
fn ref_renders_mapped_name() {
    let names = NameMap::build(&vec![named_type("Player", 3)]);
    assert_eq!(format_type(&AlgebraicType::Ref(3), &names), "Player");
}

#[test]
fn tuple_and_struct_rendering() {
    let names = empty_names();
    assert_eq!(format_type(&unit(), &names), "()");
    let tuple = AlgebraicType::Product(product(vec![
        elem(None, AlgebraicType::I32),
        elem(None, AlgebraicType::Str),
    ]));
    assert_eq!(format_type(&tuple, &names), "(i32, String)");
    let named_struct = AlgebraicType::Product(product(vec![
        elem(Some("x"), AlgebraicType::I32),
        elem(Some("y"), AlgebraicType::I32),
    ]));
    assert_eq!(format_type(&named_struct, &names), "Product(2 fields)");
}

#[test]
fn identity_requires_the_exact_scalar() {
    let names = empty_names();
    let good = product(vec![elem(Some("__identity__"), AlgebraicType::U256)]);
    assert_eq!(detect_spacetimedb_type(&good), Some("Identity".to_string()));
    assert_eq!(format_type(&AlgebraicType::Product(good), &names), "Identity");

    let bad = product(vec![elem(Some("__identity__"), AlgebraicType::I64)]);
    assert_eq!(detect_spacetimedb_type(&bad), None);
    assert_eq!(format_type(&AlgebraicType::Product(bad), &names), "Product(1 fields)");
}

#[test]
fn timestamp_and_duration_detection() {
    let ts = product(vec![elem(
        Some("__timestamp_micros_since_unix_epoch__"),
        AlgebraicType::I64,
    )]);
    assert_eq!(detect_spacetimedb_type(&ts), Some("Timestamp".to_string()));
    let dur = product(vec![elem(Some("__time_duration_micros__"), AlgebraicType::I64)]);
    assert_eq!(detect_spacetimedb_type(&dur), Some("Duration".to_string()));
    let wrong = product(vec![elem(Some("__time_duration_micros__"), AlgebraicType::U64)]);
    assert_eq!(detect_spacetimedb_type(&wrong), None);
}

#[test]
fn scheduled_at_requires_exact_name_set() {
    let names = empty_names();
    let good = sum(vec![
        var(Some("Interval"), AlgebraicType::U64),
        var(Some("Time"), AlgebraicType::I64),
    ]);
    assert_eq!(detect_spacetimedb_sum_type(&good), Some("ScheduledAt".to_string()));
    assert_eq!(format_type(&AlgebraicType::Sum(good), &names), "ScheduledAt");

    let reordered = sum(vec![
        var(Some("Time"), AlgebraicType::I64),
        var(Some("Interval"), AlgebraicType::U64),
    ]);
    assert_eq!(detect_spacetimedb_sum_type(&reordered), Some("ScheduledAt".to_string()));

    let other = sum(vec![
        var(Some("Start"), AlgebraicType::U64),
        var(Some("End"), AlgebraicType::I64),
    ]);
    assert_eq!(detect_spacetimedb_sum_type(&other), None);
    assert_eq!(format_type(&AlgebraicType::Sum(other), &names), "Sum(2 variants)");
}

#[test]
fn option_detection_is_symmetric() {
    let names = empty_names();
    let a = AlgebraicType::Sum(sum(vec![
        var(Some("None"), unit()),
        var(Some("Some"), AlgebraicType::U32),
    ]));
    let b = AlgebraicType::Sum(sum(vec![
        var(Some("Some"), AlgebraicType::U32),
        var(Some("None"), unit()),
    ]));
    let fa = format_type(&a, &names);
    let fb = format_type(&b, &names);
    assert_eq!(fa, fb);
    assert_eq!(fa, "Option<u32>");
}

#[test]
fn option_by_shape_unwraps_single_element_product() {
    let names = empty_names();
    let shaped = sum(vec![
        var(None, unit()),
        var(None, AlgebraicType::Product(product(vec![elem(None, AlgebraicType::U32)]))),
    ]);
    assert!(is_option_type(&shaped));
    match get_option_inner_type(&shaped) {
        Some(AlgebraicType::U32) => {}
        other => panic!("unexpected inner type: {:?}", other.is_some()),
    }
    assert_eq!(format_type(&AlgebraicType::Sum(shaped), &names), "Option<u32>");

    let two_field = sum(vec![
        var(None, unit()),
        var(
            None,
            AlgebraicType::Product(product(vec![
                elem(None, AlgebraicType::I32),
                elem(None, AlgebraicType::I64),
            ])),
        ),
    ]);
    assert_eq!(format_type(&AlgebraicType::Sum(two_field), &names), "Option<(i32, i64)>");
}

#[test]
fn sum_without_option_shape_is_generic() {
    let names = empty_names();
    let s = sum(vec![
        var(Some("A"), AlgebraicType::I32),
        var(Some("B"), AlgebraicType::I64),
        var(Some("C"), AlgebraicType::Str),
    ]);
    assert!(!is_option_type(&s));
    assert_eq!(format_type(&AlgebraicType::Sum(s), &names), "Sum(3 variants)");
}

#[test]
fn as_option_views() {
    let n = named("field");
    assert_eq!(n.as_option(), Some("field"));
    assert_eq!(OptionalName::Unnamed.as_option(), None);
}

#[test]
fn name_map_keeps_last_entry_for_an_index() {
    let names = NameMap::build(&vec![
        named_type("First", 2),
        named_type("Other", 3),
        named_type("Second", 2),
    ]);
    assert_eq!(names.lookup(2).map(|s| s.as_str()), Some("Second"));
    assert_eq!(names.lookup(3).map(|s| s.as_str()), Some("Other"));
    assert_eq!(names.lookup(9), None);
    assert_eq!(names.display_name(9), "Type_9");
    assert_eq!(names.display_name(2), "Second");
}

fn sample_schema() -> (SatsSchema, NameMap) {
    // 0: UserRow (product, used by table `users`)
    // 1: UserSettings (standalone struct)
    // 2: Color (standalone enum)
    // 3: a builtin slot named Opaque
    let schema = SatsSchema {
        typespace: TypeSpace {
            types: vec![
                TypeDef::Product(product(vec![
                    elem(Some("id"), AlgebraicType::U64),
                    elem(Some("name"), AlgebraicType::Str),
                ])),
                TypeDef::Product(product(vec![elem(Some("theme"), AlgebraicType::Str)])),
                TypeDef::Sum(sum(vec![
                    var(Some("Red"), unit()),
                    var(Some("Blue"), AlgebraicType::U8),
                ])),
                TypeDef::Ref(0),
            ],
        },
        tables: vec![table("users", 0, vec![0])],
        types: vec![
            named_type("UserRow", 0),
            named_type("UserSettings", 1),
            named_type("Color", 2),
            named_type("Opaque", 3),
        ],
    };
    let names = NameMap::build(&schema.types);
    (schema, names)
}

#[test]
fn table_lookup_is_case_insensitive_and_exact() {
    let schema = SatsSchema {
        typespace: TypeSpace {
            types: vec![TypeDef::Product(product(vec![elem(Some("id"), AlgebraicType::U64)]))],
        },
        tables: vec![table("Users", 0, vec![])],
        types: vec![named_type("UsersRow", 0)],
    };
    let names = NameMap::build(&schema.types);

    for q in ["users", "USERS", "Users"] {
        match lookup_table(&schema, &names, q) {
            TableLookup::Found { table, field_count, .. } => {
                assert_eq!(table.name, "Users");
                assert_eq!(table.row_type, "UsersRow");
                assert_eq!(field_count, Some(1));
                assert_eq!(table.fields.len(), 1);
                assert_eq!(table.fields[0].name, "id");
                assert_eq!(table.fields[0].ty, "u64");
            }
            TableLookup::NotFound { .. } => panic!("expected a match for {q}"),
        }
    }

    match lookup_table(&schema, &names, "User") {
        TableLookup::Found { .. } => panic!("partial name must not match"),
        TableLookup::NotFound { name, available } => {
            assert_eq!(name, "User");
            assert_eq!(available, vec!["Users".to_string()]);
        }
    }
}

#[test]
fn search_excludes_table_row_types() {
    let (schema, names) = sample_schema();
    let r = search_schema(&schema, &names, "user");

    assert_eq!(r.tables.len(), 1);
    assert_eq!(r.tables[0].name, "users");
    assert_eq!(r.tables[0].row_type, "UserRow");

    assert_eq!(r.types.len(), 1);
    match &r.types[0] {
        TypeMatch::StructSummary { name, field_count } => {
            assert_eq!(name, "UserSettings");
            assert_eq!(*field_count, 1);
        }
        TypeMatch::EnumSummary { .. } => panic!("UserSettings is a struct"),
    }
    assert_eq!(r.name_match_count, 1);
}

#[test]
fn search_without_matches_reports_none() {
    let (schema, names) = sample_schema();
    let r = search_schema(&schema, &names, "zzz");
    assert!(r.tables.is_empty());
    assert!(r.types.is_empty());
    assert_eq!(r.name_match_count, 0);
}

#[test]
fn type_lookup_struct_enum_and_misses() {
    let (schema, names) = sample_schema();

    match lookup_type(&schema, &names, "usersettings") {
        TypeLookup::StructFound(v) => {
            assert_eq!(v.name, "UserSettings");
            assert_eq!(v.special, None);
            assert_eq!(v.field_count, 1);
            assert_eq!(v.fields[0].name, "theme");
            assert_eq!(v.fields[0].ty, "String");
        }
        _ => panic!("expected a struct"),
    }

    match lookup_type(&schema, &names, "color") {
        TypeLookup::EnumFound(v) => {
            assert_eq!(v.name, "Color");
            assert_eq!(v.special, None);
            assert_eq!(v.variant_count, 2);
            assert_eq!(v.variants[0].name, "Red");
            assert_eq!(v.variants[0].payload, None);
            assert_eq!(v.variants[1].name, "Blue");
            assert_eq!(v.variants[1].payload, Some("u8".to_string()));
        }
        _ => panic!("expected an enum"),
    }

    match lookup_type(&schema, &names, "opaque") {
        TypeLookup::NotRenderable { name } => assert_eq!(name, "opaque"),
        _ => panic!("a ref slot is not a struct or enum"),
    }

    match lookup_type(&schema, &names, "missing") {
        TypeLookup::NotFound { name, suggestions } => {
            assert_eq!(name, "missing");
            assert!(suggestions.is_empty());
        }
        _ => panic!("expected a miss"),
    }
}

#[test]
fn enum_lookup_and_alternatives() {
    let (schema, names) = sample_schema();

    match lookup_enum(&schema, &names, "COLOR") {
        EnumLookup::Found(v) => {
            assert_eq!(v.name, "Color");
            assert_eq!(v.variant_count, 2);
        }
        _ => panic!("expected the enum"),
    }

    match lookup_enum(&schema, &names, "UserSettings") {
        EnumLookup::NotAnEnum { name, enums } => {
            assert_eq!(name, "UserSettings");
            assert_eq!(enums, vec!["Color".to_string()]);
        }
        _ => panic!("a struct is not an enum"),
    }

    match lookup_enum(&schema, &names, "nothing") {
        EnumLookup::NotFound { enums, .. } => {
            assert_eq!(enums, vec!["Color".to_string()]);
        }
        _ => panic!("expected a miss"),
    }
}

#[test]
fn suggestions_are_capped_sorted_and_both_kinds() {
    // Contains-either-direction and three-character-prefix matches are
    // all offered, capped at five, sorted.
    let names = NameMap::build(&vec![
        named_type("UserData", 0),
        named_type("DataUser", 1),
        named_type("Useful", 2),
        named_type("us", 3),
        named_type("Zebra", 4),
        named_type("UserE", 5),
        named_type("UserF", 6),
    ]);
    let got = suggest_similar_types(&names, "user");
    // Matches in entry order: UserData (contains), DataUser (contains),
    // Useful (prefix "use"), us (contained in "user"), UserE (contains),
    // UserF (arrives after the cap of five).
    let mut expected = vec![
        "UserData".to_string(),
        "DataUser".to_string(),
        "Useful".to_string(),
        "us".to_string(),
        "UserE".to_string(),
    ];
    expected.sort();
    assert_eq!(got, expected);
    assert_eq!(got.len(), 5);
    for w in got.windows(2) {
        assert!(w[0] <= w[1]);
    }
}

#[test]
fn enum_suggestions_sorted_and_capped() {
    let mut types = Vec::new();
    let mut defs = Vec::new();
    for (i, n) in ["Nu", "Mu", "Xi", "Pi", "Rho", "Eta", "Psi", "Chi", "Phi", "Tau", "Alpha"]
        .iter()
        .enumerate()
    {
        defs.push(TypeDef::Sum(sum(vec![var(Some("A"), unit())])));
        types.push(named_type(n, i));
    }
    let schema = SatsSchema {
        typespace: TypeSpace { types: defs },
        tables: vec![],
        types,
    };
    let names = NameMap::build(&schema.types);
    let got = suggest_enum_types(&schema, &names);
    assert_eq!(got.len(), 10);
    assert_eq!(got[0], "Alpha");
    for w in got.windows(2) {
        assert!(w[0] <= w[1]);
    }
    // "Xi" sorts last of the eleven and is cut by the cap of ten.
    assert!(!got.contains(&"Xi".to_string()));
}

#[test]
fn overview_lists_tables_and_sorted_standalone_types() {
    let (schema, names) = sample_schema();
    let o = schema_overview(&schema, &names);
    assert_eq!(o.table_count, 1);
    assert_eq!(o.type_count, 4);
    assert_eq!(o.enum_count, 1);

    assert_eq!(o.tables.len(), 1);
    assert_eq!(o.tables[0].name, "users");
    assert_eq!(o.tables[0].row_type, "UserRow");
    assert_eq!(o.tables[0].fields.len(), 2);
    assert_eq!(o.tables[0].fields[0].name, "id");
    assert_eq!(o.tables[0].fields[0].ty, "u64");

    // UserRow is a table's row type and the Ref slot is not renderable:
    // only Color and UserSettings remain, sorted case-insensitively.
    assert_eq!(o.types.len(), 2);
    match &o.types[0] {
        TypeEntryView::EnumEntry(e) => {
            assert_eq!(e.name, "Color");
            assert_eq!(e.variant_count, 2);
        }
        _ => panic!("expected the Color enum first"),
    }
    match &o.types[1] {
        TypeEntryView::StructEntry(s) => {
            assert_eq!(s.name, "UserSettings");
            assert_eq!(s.field_count, 1);
        }
        _ => panic!("expected the UserSettings struct second"),
    }
}

#[test]
fn overview_tags_special_types() {
    let schema = SatsSchema {
        typespace: TypeSpace {
            types: vec![TypeDef::Product(product(vec![elem(
                Some("__identity__"),
                AlgebraicType::U256,
            )]))],
        },
        tables: vec![],
        types: vec![named_type("Identity", 0)],
    };
    let names = NameMap::build(&schema.types);
    let o = schema_overview(&schema, &names);
    assert_eq!(o.types.len(), 1);
    match &o.types[0] {
        TypeEntryView::Special { name, tag, .. } => {
            assert_eq!(name, "Identity");
            assert_eq!(tag, "Identity");
        }
        _ => panic!("expected a special tag"),
    }
}

#[test]
fn dispatch_prefers_table_then_type_then_enum_then_search() {
    let (schema, names) = sample_schema();
    let r = display_schema_pretty(&schema, &names, Some("users"), Some("Color"), None, None);
    assert!(matches!(r, SchemaReport::TableReport(_)));
    let r = display_schema_pretty(&schema, &names, None, Some("Color"), None, Some("user"));
    assert!(matches!(r, SchemaReport::TypeReport(_)));
    let r = display_schema_pretty(&schema, &names, None, None, Some("Color"), Some("user"));
    assert!(matches!(r, SchemaReport::EnumReport(_)));
    let r = display_schema_pretty(&schema, &names, None, None, None, Some("user"));
    assert!(matches!(r, SchemaReport::SearchReport { .. }));
    let r = display_schema_pretty(&schema, &names, None, None, None, None);
    assert!(matches!(r, SchemaReport::FullReport(_)));
}

#[test]
fn table_with_dangling_row_type_still_renders() {
    let schema = SatsSchema {
        typespace: TypeSpace { types: vec![] },
        tables: vec![table("ghost", 5, vec![])],
        types: vec![],
    };
    let names = NameMap::build(&schema.types);
    match lookup_table(&schema, &names, "ghost") {
        TableLookup::Found { table, field_count, primary_key } => {
            assert_eq!(table.name, "ghost");
            assert_eq!(table.row_type, "Type_5");
            assert_eq!(field_count, None);
            assert!(table.fields.is_empty());
            assert!(primary_key.is_empty());
        }
        TableLookup::NotFound { .. } => panic!("the table exists"),
    }
}

#[test]
fn two_unit_variants_are_not_an_option() {
    let s = sum(vec![var(Some("A"), unit()), var(Some("B"), unit())]);
    assert!(!is_option_type(&s));
    let names = empty_names();
    assert_eq!(format_type(&AlgebraicType::Sum(s), &names), "Sum(2 variants)");
}

#[test]
fn short_search_term_uses_its_whole_prefix() {
    let names = NameMap::build(&vec![named_type("Usable", 0), named_type("Zebra", 1)]);
    let got = suggest_similar_types(&names, "us");
    assert_eq!(got, vec!["Usable".to_string()]);
}

#[test]
fn unnamed_fields_show_positions_in_overview() {
    let schema = SatsSchema {
        typespace: TypeSpace {
            types: vec![TypeDef::Product(product(vec![
                elem(None, AlgebraicType::I32),
                elem(Some("b"), AlgebraicType::Bool),
            ]))],
        },
        tables: vec![],
        types: vec![named_type("Pair", 0)],
    };
    let names = NameMap::build(&schema.types);
    let o = schema_overview(&schema, &names);
    match &o.types[0] {
        TypeEntryView::StructEntry(s) => {
            assert_eq!(s.fields[0].name, "0");
            assert_eq!(s.fields[0].ty, "i32");
            assert_eq!(s.fields[1].name, "b");
            assert_eq!(s.fields[1].ty, "bool");
        }
        _ => panic!("expected a struct entry"),
    }
}
