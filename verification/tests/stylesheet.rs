use cobweb_asset_format::constants::CafConstants;
use cobweb_asset_format::de::{NewtypeSource, StructSource, TupleSource, Unexpected, VariantRefAccess};
use cobweb_asset_format::document::Caf;
use cobweb_asset_format::fill::CafFill;
use cobweb_asset_format::from_json::{JsonError, JsonErrorKind};
use cobweb_asset_format::json::CafError;
use cobweb_asset_format::macros::{CafLoadableMacroCall, CafLoadableMacroDef, CobMacroParamDef};
use cobweb_asset_format::registry::{
    FieldShape, ScalarKind, TypeRegistration, TypeRegistry, TypeShape, VariantKind, VariantShape,
};
use cobweb_asset_format::span::Span;
use cobweb_asset_format::style::{get_inherited_style_value, is_style_entry, is_using_entry};
use cobweb_asset_format::stylesheet::{parse_stylesheet_file, LoadedStyle};
use cobweb_asset_format::typed::{NameShortcuts, Shortcut, TypedError, UnknownType};
use cobweb_asset_format::value::{CafEnumVariant, CafMap, CafValue, CobMacroParam};

fn value(text: &str) -> CafValue {
    match Caf::parse(text.as_bytes()) {
        Ok(Caf { value: Some(value), .. }) => value,
        other => panic!("{:?} is no value: {:?}", text, other),
    }
}

fn written(value: &CafValue) -> String {
    let mut out = Vec::new();
    value.write_to(&mut out);
    String::from_utf8(out).unwrap()
}

fn registration(path: &str, shape: TypeShape) -> TypeRegistration {
    let ident = path.rsplit("::").next().unwrap().to_string();
    TypeRegistration { path: path.to_string(), ident, shape }
}

const NUMBER: usize = 0;
const NUMBERS: usize = 1;
const DIMS: usize = 2;
const COLOR: usize = 3;
const OTHER_COLOR: usize = 4;

fn registry() -> TypeRegistry {
    TypeRegistry {
        types: vec![
            registration("f32", TypeShape::Scalar(ScalarKind::Number)),
            registration("alloc::vec::Vec<f32>", TypeShape::List(NUMBER)),
            registration(
                "ui::Dims",
                TypeShape::Enum(vec![
                    VariantShape { name: "Percent".to_string(), kind: VariantKind::Tuple(vec![NUMBERS]) },
                    VariantShape { name: "Fill".to_string(), kind: VariantKind::Unit },
                ]),
            ),
            registration(
                "pkg::Color",
                TypeShape::Struct(vec![FieldShape { name: "hue".to_string(), type_id: NUMBER }]),
            ),
            registration("other::Color", TypeShape::Scalar(ScalarKind::Number)),
        ],
    }
}

fn path(keys: &[&str]) -> Vec<String> {
    keys.iter().map(|key| key.to_string()).collect()
}

fn summary(styles: &[LoadedStyle]) -> Vec<(Vec<String>, usize, String)> {
    styles.iter().map(|s| (s.path.clone(), s.type_id, written(&s.value))).collect()
}

#[test]
fn inherited_style_takes_the_value_of_the_branch_around_it() {
    let doc = value(
        "{ using: [\"pkg::Color\"] node1: { Dims: {Percent: [50.0, 50.0]} node2: { Dims: \"inherited\" } } }",
    );
    let sheet = parse_stylesheet_file(&registry(), &doc);
    assert_eq!(
        summary(&sheet.styles),
        vec![
            (path(&["node1"]), DIMS, " {Percent: [50.0, 50.0]}".to_string()),
            (path(&["node1", "node2"]), DIMS, " {Percent: [50.0, 50.0]}".to_string()),
        ]
    );
    let inherited = &sheet.styles[1].value;
    assert_eq!(inherited, &sheet.styles[0].value);
    assert_eq!(
        inherited.to_typed_json(DIMS, &registry()).map(|j| j == value("{Percent:[50.0 50.0]}").to_json().unwrap()),
        Ok(true)
    );
}

#[test]
fn styles_are_inherited_inside_their_branch_only() {
    let doc = value(
        "{a:{Dims:Fill b:{Dims:\"inherited\" Dims:{Percent:[1]} c:{Dims:\"inherited\"}} d:{Dims:\"inherited\"}} e:{Dims:\"inherited\"} Dims:\"inherited\"}",
    );
    let sheet = parse_stylesheet_file(&registry(), &doc);
    assert_eq!(
        summary(&sheet.styles),
        vec![
            (path(&["a"]), DIMS, "Fill".to_string()),
            (path(&["a", "b"]), DIMS, "Fill".to_string()),
            (path(&["a", "b"]), DIMS, "{Percent:[1]}".to_string()),
            (path(&["a", "b", "c"]), DIMS, "{Percent:[1]}".to_string()),
            (path(&["a", "d"]), DIMS, "Fill".to_string()),
        ]
    );
}

#[test]
fn using_settles_a_short_name_that_two_types_share() {
    let reg = registry();
    let without = parse_stylesheet_file(&reg, &value("{x:{Color:{hue:1}}}"));
    assert!(without.styles.is_empty());
    let with = parse_stylesheet_file(&reg, &value("{using:[\"pkg::Color\" 5 \"no::Such\"] x:{Color:{hue:1}}}"));
    assert_eq!(summary(&with.styles), vec![(path(&["x"]), COLOR, "{hue:1}".to_string())]);
    let other = parse_stylesheet_file(&reg, &value("{\"using\":[\"pkg::Color\" \"other::Color\"] x:{Color:2}}"));
    assert_eq!(summary(&other.styles), vec![(path(&["x"]), OTHER_COLOR, "2".to_string())]);
    let late = parse_stylesheet_file(&reg, &value("{x:{Color:1} using:[\"pkg::Color\"]}"));
    assert!(late.styles.is_empty());
    let nested = parse_stylesheet_file(&reg, &value("{x:{using:[\"pkg::Color\"] Color:1}}"));
    assert!(nested.styles.is_empty());
}

#[test]
fn what_is_no_sheet_holds_no_styles() {
    let reg = registry();
    assert!(parse_stylesheet_file(&reg, &value("[1]")).styles.is_empty());
    assert!(parse_stylesheet_file(&reg, &value("{}")).styles.is_empty());
    assert!(parse_stylesheet_file(&reg, &value("{a:1 2:{Dims:Fill} Unknown:3 b:[{Dims:Fill}]}")).styles.is_empty());
    assert_eq!(
        summary(&parse_stylesheet_file(&reg, &value("{\"a b\":{Dims:Fill}}")).styles),
        vec![(path(&["a b"]), DIMS, "Fill".to_string())]
    );
}

#[test]
fn entries_are_sorted_by_their_key() {
    assert!(is_using_entry(0, 0, "using"));
    assert!(!is_using_entry(1, 0, "using"));
    assert!(!is_using_entry(0, 1, "using"));
    assert!(!is_using_entry(0, 0, "usin"));
    assert!(!is_using_entry(0, 0, "using2"));
    assert!(!is_using_entry(0, 0, "Using"));
    assert!(is_style_entry("Dims"));
    assert!(is_style_entry("\u{c9}cran"));
    assert!(!is_style_entry("dims"));
    assert!(!is_style_entry("_Dims"));
    assert!(!is_style_entry(""));
    assert!(!is_style_entry("1"));
}

#[test]
fn inherited_value_is_the_last_of_the_stack() {
    assert_eq!(get_inherited_style_value::<u32>(&vec![]), None);
    assert_eq!(get_inherited_style_value(&vec![1u32]), Some(1));
    assert_eq!(get_inherited_style_value(&vec!["a".to_string(), "b".to_string()]), Some("b".to_string()));
}

#[test]
fn names_are_resolved_by_short_name_then_by_shortcut() {
    let reg = registry();
    let mut shortcuts = NameShortcuts::new();
    assert_eq!(reg.resolve("Dims", &shortcuts), Ok(DIMS));
    assert_eq!(reg.resolve("Color", &shortcuts), Err(UnknownType));
    assert_eq!(reg.resolve("Missing", &shortcuts), Err(UnknownType));
    shortcuts.insert("Color".to_string(), "pkg::Color".to_string());
    shortcuts.insert("Missing".to_string(), "no::Such".to_string());
    assert_eq!(shortcuts.find("Color"), Some(0));
    assert_eq!(shortcuts.find("Dims"), None);
    assert_eq!(reg.resolve("Color", &shortcuts), Ok(COLOR));
    assert_eq!(reg.resolve("Missing", &shortcuts), Err(UnknownType));
    shortcuts.insert("Color".to_string(), "other::Color".to_string());
    assert_eq!(
        shortcuts.entries,
        vec![
            Shortcut { short: "Color".to_string(), long: "other::Color".to_string() },
            Shortcut { short: "Missing".to_string(), long: "no::Such".to_string() },
        ]
    );
    assert_eq!(reg.resolve("Color", &shortcuts), Ok(OTHER_COLOR));
    shortcuts.insert("Dims".to_string(), "pkg::Color".to_string());
    assert_eq!(reg.resolve("Dims", &shortcuts), Ok(DIMS));
}

#[test]
fn typed_json_holds_the_value_against_the_type() {
    let reg = registry();
    assert!(value("Percent[1 2]").to_typed_json(DIMS, &reg).is_ok());
    assert!(value("Fill").to_typed_json(DIMS, &reg).is_ok());
    assert!(value("{hue:1}").to_typed_json(COLOR, &reg).is_ok());
    assert_eq!(
        value("Percent[1 true]").to_typed_json(DIMS, &reg),
        Err(TypedError::Shape(JsonError { kind: JsonErrorKind::ShapeMismatch, type_id: NUMBER }))
    );
    assert_eq!(
        value("Missing").to_typed_json(DIMS, &reg),
        Err(TypedError::Shape(JsonError { kind: JsonErrorKind::UnknownVariant, type_id: DIMS }))
    );
    assert_eq!(
        value("{shade:1}").to_typed_json(COLOR, &reg),
        Err(TypedError::Shape(JsonError { kind: JsonErrorKind::UnknownField, type_id: COLOR }))
    );
    assert_eq!(
        value("{none:1}").to_typed_json(COLOR, &reg),
        Err(TypedError::Convert(CafError::MapKey))
    );
}

fn variant(text: &str) -> CafEnumVariant {
    match value(text) {
        CafValue::EnumVariant(variant) => variant,
        other => panic!("expected a variant, found {:?}", other),
    }
}

#[test]
fn variant_access_decides_where_a_payload_is_read_from() {
    let unit = variant("A");
    let single = variant("A(1)");
    let pair = variant("A(1 2)");
    let empty = variant("A()");
    let array = variant("A[1 2]");
    let map = variant("A{x:1}");
    assert_eq!(unit.name(), "A");
    assert_eq!(map.name(), "A");

    assert_eq!(unit.unexpected(), Unexpected::UnitVariant);
    assert_eq!(single.unexpected(), Unexpected::NewtypeVariant);
    assert_eq!(pair.unexpected(), Unexpected::TupleVariant);
    assert_eq!(empty.unexpected(), Unexpected::TupleVariant);
    assert_eq!(array.unexpected(), Unexpected::NewtypeVariant);
    assert_eq!(map.unexpected(), Unexpected::StructVariant);

    assert_eq!(VariantRefAccess::new(&unit).unit_variant(), Ok(()));
    assert_eq!(VariantRefAccess::new(&single).unit_variant(), Err(Unexpected::NewtypeVariant));
    assert_eq!(VariantRefAccess::new(&pair).unit_variant(), Err(Unexpected::TupleVariant));
    assert_eq!(VariantRefAccess::new(&array).unit_variant(), Err(Unexpected::NewtypeVariant));
    assert_eq!(VariantRefAccess::new(&map).unit_variant(), Err(Unexpected::StructVariant));

    assert!(matches!(VariantRefAccess::new(&single).newtype_variant(), NewtypeSource::Entry(v) if written(v) == "1"));
    assert!(matches!(VariantRefAccess::new(&pair).newtype_variant(), NewtypeSource::Tuple(t) if t.entries.len() == 2));
    assert!(matches!(VariantRefAccess::new(&empty).newtype_variant(), NewtypeSource::Tuple(t) if t.entries.is_empty()));
    assert!(matches!(VariantRefAccess::new(&array).newtype_variant(), NewtypeSource::Array(a) if a.entries.len() == 2));
    assert!(matches!(VariantRefAccess::new(&map).newtype_variant(), NewtypeSource::Mapping(m) if m.entries.len() == 1));
    assert!(matches!(VariantRefAccess::new(&unit).newtype_variant(), NewtypeSource::Erased));

    assert!(matches!(VariantRefAccess::new(&pair).tuple_variant(2), Ok(TupleSource::Entries(es)) if es.len() == 2));
    assert!(matches!(VariantRefAccess::new(&unit).tuple_variant(0), Ok(TupleSource::Empty)));
    assert!(matches!(VariantRefAccess::new(&unit).tuple_variant(1), Ok(TupleSource::WrappedErased)));
    assert!(matches!(VariantRefAccess::new(&unit).tuple_variant(2), Err(Unexpected::UnitVariant)));
    assert!(matches!(VariantRefAccess::new(&array).tuple_variant(2), Err(Unexpected::NewtypeVariant)));
    assert!(matches!(VariantRefAccess::new(&map).tuple_variant(1), Err(Unexpected::StructVariant)));

    assert!(matches!(VariantRefAccess::new(&map).struct_variant(), Ok(StructSource::Entries(es)) if es.len() == 1));
    assert!(matches!(VariantRefAccess::new(&unit).struct_variant(), Ok(StructSource::Empty)));
    assert!(matches!(VariantRefAccess::new(&pair).struct_variant(), Err(Unexpected::TupleVariant)));
    assert!(matches!(VariantRefAccess::new(&single).struct_variant(), Err(Unexpected::NewtypeVariant)));
    assert!(matches!(VariantRefAccess::new(&array).struct_variant(), Err(Unexpected::NewtypeVariant)));
}

#[test]
fn macro_nodes_have_no_text_and_are_never_read() {
    let mut out = b"x".to_vec();
    CafLoadableMacroCall.write_to(&mut out);
    CafLoadableMacroCall.write_to_with_space(&mut out, " ");
    CafLoadableMacroDef.write_to(&mut out);
    CafLoadableMacroDef.write_to_with_space(&mut out, " ");
    CobMacroParam.write_to(&mut out);
    CobMacroParam.write_to_with_space(&mut out, " ");
    CobMacroParamDef.write_to(&mut out);
    CobMacroParamDef.write_to_with_space(&mut out, " ");
    assert_eq!(out, b"x");

    let text = b"@param $macro(1)";
    let content = Span::new(text);
    assert_eq!(
        CafLoadableMacroCall::try_parse(CafFill::space(), content),
        Ok((None, CafFill::space(), content))
    );
    assert_eq!(
        CobMacroParam::try_parse(CafFill::newline(), content),
        Ok((None, CafFill::newline(), content))
    );
    assert!(!CobMacroParam.is_required());
    assert!(!CobMacroParam.is_catch_all());

    let mut call = CafLoadableMacroCall;
    call.recover_fill(&CafLoadableMacroCall);
    assert_eq!(call, CafLoadableMacroCall);
    let mut def = CafLoadableMacroDef;
    def.recover_fill(&CafLoadableMacroDef);
    assert_eq!(def, CafLoadableMacroDef);
    let mut param = CobMacroParam;
    param.recover_fill(&CobMacroParam);
    assert_eq!(param, CobMacroParam);
    let mut param_def = CobMacroParamDef;
    param_def.recover_fill(&CobMacroParamDef);
    assert_eq!(param_def, CobMacroParamDef);
}

#[test]
fn constants_hold_their_fill() {
    let constants = CafConstants { start_fill: CafFill::comment("// consts") };
    let mut out = Vec::new();
    constants.write_to(&mut out);
    CafConstants::default().write_to(&mut out);
    assert_eq!(out, b"// consts");
    assert!(constants.eq_ignore_whitespace(&CafConstants::default()));
}

#[test]
fn struct_like_maps() {
    let map = |text: &str| match value(text) {
        CafValue::Mapping(map) => map,
        other => panic!("expected a map, found {:?}", other),
    };
    assert!(map("{}").is_structlike());
    assert!(map("{a:1 b:{\"x\":2}}").is_structlike());
    assert!(!map("{a:1 \"b\":2}").is_structlike());
    assert!(!map("{1:1}").is_structlike());
    assert!(!map("{A:1}").is_structlike());
    let entries = map("{a:1 \"b\":2}").entries;
    assert!(entries[0].is_struct_field() && entries[0].is_keyvalue());
    assert!(!entries[1].is_struct_field() && entries[1].is_keyvalue());
    let with_param = CafMap::from(vec![cobweb_asset_format::value::CafMapEntry::MacroParam(CobMacroParam)]);
    assert!(!with_param.entries[0].is_keyvalue());
    assert!(!with_param.entries[0].is_struct_field());
    assert!(!with_param.is_structlike());
    let mut out = Vec::new();
    with_param.write_to(&mut out);
    assert_eq!(out, b"{}");
}
