use cobweb_asset_format::builtin::to_hex_int;
use cobweb_asset_format::document::Caf;
use cobweb_asset_format::fill::CafFill;
use cobweb_asset_format::from_json::{JsonError, JsonErrorKind};
use cobweb_asset_format::json::{CafError, JsonEntry, JsonValue};
use cobweb_asset_format::registry::{
    FieldShape, ScalarKind, TypeRegistration, TypeRegistry, TypeShape, VariantKind, VariantShape,
};
use cobweb_asset_format::value::{
    CafBuiltin, CafEnumVariant, CafEnumVariantIdentifier, CafHexColor, CafMap, CafMapEntry,
    CafMapKey, CafNone, CafValue, CobMacroParam, HexColor, ValKind,
};

fn to_serde(value: &JsonValue) -> serde_json::Value {
    match value {
        JsonValue::Null => serde_json::Value::Null,
        JsonValue::Bool(b) => serde_json::Value::Bool(*b),
        JsonValue::Number(n) => serde_json::Value::Number(n.clone()),
        JsonValue::String(s) => serde_json::Value::String(s.clone()),
        JsonValue::Array(items) => serde_json::Value::Array(items.iter().map(to_serde).collect()),
        JsonValue::Object(members) => {
            let mut map = serde_json::Map::new();
            for member in members {
                map.insert(member.key.clone(), to_serde(&member.value));
            }
            serde_json::Value::Object(map)
        }
    }
}

fn from_serde(value: &serde_json::Value) -> JsonValue {
    match value {
        serde_json::Value::Null => JsonValue::Null,
        serde_json::Value::Bool(b) => JsonValue::Bool(*b),
        serde_json::Value::Number(n) => JsonValue::Number(n.clone()),
        serde_json::Value::String(s) => JsonValue::String(s.clone()),
        serde_json::Value::Array(items) => JsonValue::Array(items.iter().map(from_serde).collect()),
        serde_json::Value::Object(map) => JsonValue::Object(
            map.iter()
                .map(|(key, value)| JsonEntry { key: key.clone(), value: from_serde(value) })
                .collect(),
        ),
    }
}

fn json(text: &str) -> JsonValue {
    from_serde(&serde_json::from_str::<serde_json::Value>(text).unwrap())
}

fn value(text: &str) -> CafValue {
    match Caf::parse(text.as_bytes()) {
        Ok(Caf { value: Some(value), .. }) => value,
        other => panic!("{:?} is no value: {:?}", text, other),
    }
}

fn written(value: &CafValue) -> String {
    let mut out = Vec::new();
    value.write_to(&mut out);
    String::from_utf8(out).unwrap()
}

fn check_json(text: &str, expected: &str) {
    let found = value(text).to_json().unwrap();
    assert_eq!(to_serde(&found), serde_json::from_str::<serde_json::Value>(expected).unwrap());
}

fn registration(path: &str, shape: TypeShape) -> TypeRegistration {
    let ident = path.rsplit("::").next().unwrap().to_string();
    TypeRegistration { path: path.to_string(), ident, shape }
}

fn field(name: &str, type_id: usize) -> FieldShape {
    FieldShape { name: name.to_string(), type_id }
}

fn variant(name: &str, kind: VariantKind) -> VariantShape {
    VariantShape { name: name.to_string(), kind }
}

const NUMBER: usize = 0;
const TEXT: usize = 1;
const BOOL: usize = 2;
const NUMBERS: usize = 3;
const SHAPE: usize = 4;
const OPTION: usize = 5;
const POINT: usize = 6;
const PAIR: usize = 7;
const NAMES: usize = 8;
const OTHER_POINT: usize = 9;

fn registry() -> TypeRegistry {
    TypeRegistry {
        types: vec![
            registration("f32", TypeShape::Scalar(ScalarKind::Number)),
            registration("alloc::string::String", TypeShape::Scalar(ScalarKind::Text)),
            registration("bool", TypeShape::Scalar(ScalarKind::Bool)),
            registration("alloc::vec::Vec<f32>", TypeShape::List(NUMBER)),
            registration(
                "demo::Shape",
                TypeShape::Enum(vec![
                    variant("Empty", VariantKind::Unit),
                    variant("Single", VariantKind::Tuple(vec![NUMBER])),
                    variant("Listed", VariantKind::Tuple(vec![NUMBERS])),
                    variant("Both", VariantKind::Tuple(vec![NUMBER, TEXT])),
                    variant("Nothing", VariantKind::Tuple(vec![])),
                    variant("Named", VariantKind::Struct(vec![field("x", NUMBER), field("on", BOOL)])),
                    variant("Maybe", VariantKind::Tuple(vec![OPTION])),
                ]),
            ),
            registration(
                "core::option::Option<f32>",
                TypeShape::Enum(vec![
                    variant("None", VariantKind::Unit),
                    variant("Some", VariantKind::Tuple(vec![NUMBER])),
                ]),
            ),
            registration("demo::Point", TypeShape::Struct(vec![field("x", NUMBER), field("y", NUMBER)])),
            registration("demo::Pair", TypeShape::TupleStruct(vec![NUMBER, TEXT])),
            registration("demo::Names", TypeShape::MapOf(TEXT, NUMBER)),
            registration("other::Point", TypeShape::Struct(vec![field("a", BOOL)])),
        ],
    }
}

fn check_from_json(text: &str, type_id: usize, expected: &str) {
    let input = json(text);
    let found = CafValue::from_json(&input, type_id, &registry()).unwrap();
    assert_eq!(written(&found), expected);
    assert_eq!(found.to_json().unwrap(), input);
    let parsed = value(expected);
    let mut formatted = found.clone();
    formatted.recover_fill(&parsed);
    assert_eq!(formatted, parsed);
}

#[test]
fn scalars_to_json() {
    check_json("1", "1");
    check_json("-2.5e3", "-2500.0");
    check_json("true", "true");
    check_json("false", "false");
    check_json("none", "null");
    check_json("\"a\\\"b\\\\c\\nd\\te\\rf\"", "\"a\\\"b\\\\c\\nd\\te\\rf\"");
    check_json("\"h\u{e9}llo\"", "\"h\u{e9}llo\"");
}

#[test]
fn containers_to_json() {
    check_json("[1 \"a\" [true]]", "[1, \"a\", [true]]");
    check_json("(1 2)", "[1, 2]");
    check_json("(1)", "[1]");
    check_json("{a:1 \"b c\":2 3:4}", "{\"a\": 1, \"b c\": 2, \"3\": 4}");
    check_json("{a:1 b:2 a:3}", "{\"a\": 3, \"b\": 2}");
    check_json("{Percent: [50.0, 50.0]}", "{\"Percent\": [50.0, 50.0]}");
}

#[test]
fn a_repeated_key_takes_the_place_of_the_first() {
    let found = value("{a:1 b:2 a:3}").to_json().unwrap();
    let JsonValue::Object(members) = found else { panic!("expected an object") };
    let keys: Vec<&str> = members.iter().map(|m| m.key.as_str()).collect();
    assert_eq!(keys, vec!["a", "b"]);
    assert_eq!(to_serde(&members[0].value), serde_json::Value::from(3u64));
}

#[test]
fn enum_variants_to_json() {
    check_json("Unit", "\"Unit\"");
    check_json("Single(5)", "{\"Single\": 5}");
    check_json("Pair(5 6)", "{\"Pair\": [5, 6]}");
    check_json("Nothing()", "{\"Nothing\": []}");
    check_json("Listed[1 2 3]", "{\"Listed\": [1, 2, 3]}");
    check_json("Wrapped([1 2 3])", "{\"Wrapped\": [1, 2, 3]}");
    check_json("Named{x:1 on:true}", "{\"Named\": {\"x\": 1, \"on\": true}}");
}

#[test]
fn builtins_to_json() {
    check_json("auto", "\"Auto\"");
    check_json("5px", "{\"Px\": 5}");
    check_json("12.5%", "{\"Percent\": 12.5}");
    check_json("1vw", "{\"Vw\": 1}");
    check_json("1vh", "{\"Vh\": 1}");
    check_json("1vmin", "{\"VMin\": 1}");
    check_json("1vmax", "{\"VMax\": 1}");
    check_json(
        "#FF0080",
        "{\"Srgba\": {\"red\": 1.0, \"green\": 0.00390625, \"blue\": 0.50390625, \"alpha\": 1.0}}",
    );
    check_json(
        "#7FFF3F0F",
        "{\"Srgba\": {\"red\": 1.0, \"green\": 0.25, \"blue\": 0.0625, \"alpha\": 0.5}}",
    );
    let found = value("#FF0080").to_json().unwrap();
    let JsonValue::Object(outer) = found else { panic!("expected an object") };
    let JsonValue::Object(channels) = &outer[0].value else { panic!("expected an object") };
    let keys: Vec<&str> = channels.iter().map(|m| m.key.as_str()).collect();
    assert_eq!(keys, vec!["red", "green", "blue", "alpha"]);
}

#[test]
fn to_json_errors() {
    assert_eq!(value("{true:1}").to_json(), Err(CafError::MapKey));
    assert_eq!(value("{A(1):1}").to_json(), Err(CafError::MapKey));
    assert_eq!(value("{[1]:1}").to_json(), Err(CafError::MapKey));
    assert_eq!(value("[1 {a:{none:2}}]").to_json(), Err(CafError::MapKey));
    let map = CafMap::from(vec![CafMapEntry::MacroParam(CobMacroParam)]);
    assert_eq!(map.to_json(), Err(CafError::MacroParam));
    let unitless = CafBuiltin::Val { fill: CafFill::default(), number: None, val: ValKind::Px };
    assert_eq!(unitless.to_json(), Err(CafError::MalformedBuiltin));
}

#[test]
fn map_keys_to_json() {
    assert_eq!(CafMapKey::field_name("abc").to_json_map_key(), Ok("abc".to_string()));
    assert_eq!(CafMapKey::value(value("\"a\\nb\"")).to_json_map_key(), Ok("a\nb".to_string()));
    assert_eq!(CafMapKey::value(value("1.50")).to_json_map_key(), Ok("1.50".to_string()));
    assert_eq!(CafMapKey::value(value("none")).to_json_map_key(), Err(CafError::MapKey));
}

#[test]
fn identifiers_and_none() {
    let id = CafEnumVariantIdentifier::from_json_string(&"Name".to_string()).unwrap();
    assert_eq!(id.name, "Name");
    assert_eq!(id.fill, CafFill::default());
    assert_eq!(id.to_json_string(), Ok("Name".to_string()));
    let mut out = Vec::new();
    id.write_to(&mut out);
    assert_eq!(out, b"Name");

    let none = CafNone::from_json_null().unwrap();
    assert_eq!(none.fill, CafFill::default());
    assert_eq!(none.to_json(), Ok(JsonValue::Null));
    let mut recovered = none.clone();
    recovered.recover_fill(&CafNone { fill: CafFill::newline() });
    let mut out = Vec::new();
    recovered.write_to(&mut out);
    none.write_to(&mut out);
    assert_eq!(out, b"\nnonenone");
}

#[test]
fn scalars_from_json() {
    check_from_json("1.5", NUMBER, "1.5");
    check_from_json("-3", NUMBER, "-3");
    check_from_json("\"a\\\"b\\nc\"", TEXT, "\"a\\\"b\\nc\"");
    check_from_json("true", BOOL, "true");
}

#[test]
fn containers_from_json() {
    check_from_json("[1, 2, 3]", NUMBERS, "[1 2 3]");
    check_from_json("[]", NUMBERS, "[]");
    check_from_json("{\"x\": 1, \"y\": 2}", POINT, "{x:1 y:2}");
    check_from_json("[1, \"a\"]", PAIR, "(1 \"a\")");
    check_from_json("{\"a b\": 1, \"c\": 2}", NAMES, "{\"a b\":1 \"c\":2}");
}

#[test]
fn enum_shorthand_symmetry() {
    let input = json("{\"Listed\": [1, 2, 3]}");
    let found = CafValue::from_json(&input, SHAPE, &registry()).unwrap();
    match &found {
        CafValue::EnumVariant(CafEnumVariant::Array { id, array }) => {
            assert_eq!(id.name, "Listed");
            assert_eq!(array.entries.len(), 3);
        }
        other => panic!("expected the array shorthand, found {:?}", other),
    }
    assert_eq!(written(&found), "Listed[1 2 3]");
    assert_eq!(found.to_json().unwrap(), input);
    assert_eq!(
        to_serde(&found.to_json().unwrap()),
        serde_json::from_str::<serde_json::Value>("{\"Listed\": [1, 2, 3]}").unwrap()
    );
}

#[test]
fn single_field_tuple_variant_is_unwrapped() {
    let input = json("{\"Single\": 5}");
    let found = CafValue::from_json(&input, SHAPE, &registry()).unwrap();
    match &found {
        CafValue::EnumVariant(CafEnumVariant::Tuple { id, tuple }) => {
            assert_eq!(id.name, "Single");
            assert_eq!(tuple.entries.len(), 1);
        }
        other => panic!("expected a tuple variant, found {:?}", other),
    }
    assert_eq!(written(&found), "Single(5)");
    assert_eq!(found.to_json().unwrap(), input);
    assert_eq!(
        CafValue::from_json(&json("{\"Single\": [5]}"), SHAPE, &registry()),
        Err(JsonError { kind: JsonErrorKind::ShapeMismatch, type_id: NUMBER })
    );
}

#[test]
fn enum_variants_from_json() {
    check_from_json("\"Empty\"", SHAPE, "Empty");
    check_from_json("{\"Both\": [1, \"a\"]}", SHAPE, "Both(1 \"a\")");
    check_from_json("{\"Nothing\": []}", SHAPE, "Nothing()");
    check_from_json("{\"Named\": {\"on\": false, \"x\": 2}}", SHAPE, "Named{on:false x:2}");
    check_from_json("{\"Maybe\": null}", SHAPE, "Maybe(none)");
    check_from_json("{\"Maybe\": 4}", SHAPE, "Maybe(4)");
}

#[test]
fn options_are_not_there_in_json() {
    check_from_json("null", OPTION, "none");
    check_from_json("2.5", OPTION, "2.5");
    let reg = registry();
    assert_eq!(CafEnumVariant::try_from_json_option(&json("null"), SHAPE, &reg), Ok(None));
    assert_eq!(CafEnumVariant::try_from_json_option(&json("1"), NUMBER, &reg), Ok(None));
    assert_eq!(
        CafEnumVariant::try_from_json_option(&json("null"), OPTION, &reg),
        Ok(Some(CafValue::Nothing(CafNone { fill: CafFill::default() })))
    );
    assert_eq!(
        CafEnumVariant::try_from_json_option(&json("7"), OPTION, &reg).map(|v| v.map(|v| written(&v))),
        Ok(Some("7".to_string()))
    );
    assert_eq!(
        CafEnumVariant::try_from_json_option(&json("\"x\""), OPTION, &reg),
        Err(JsonError { kind: JsonErrorKind::ShapeMismatch, type_id: NUMBER })
    );
}

#[test]
fn nested_options_end() {
    let mut reg = registry();
    let looped = reg.types.len();
    reg.types.push(registration(
        "demo::Looped",
        TypeShape::Enum(vec![
            variant("None", VariantKind::Unit),
            variant("Some", VariantKind::Tuple(vec![looped])),
        ]),
    ));
    assert_eq!(CafValue::from_json(&json("null"), looped, &reg).map(|v| written(&v)), Ok("none".to_string()));
    assert_eq!(
        CafValue::from_json(&json("1"), looped, &reg),
        Err(JsonError { kind: JsonErrorKind::OptionDepth, type_id: looped })
    );
}

#[test]
fn from_json_errors() {
    let reg = registry();
    let err = |text: &str, type_id: usize| CafValue::from_json(&json(text), type_id, &reg).unwrap_err();
    assert_eq!(err("1", 99), JsonError { kind: JsonErrorKind::UnknownType, type_id: 99 });
    assert_eq!(err("\"x\"", NUMBER), JsonError { kind: JsonErrorKind::ShapeMismatch, type_id: NUMBER });
    assert_eq!(err("1", TEXT), JsonError { kind: JsonErrorKind::ShapeMismatch, type_id: TEXT });
    assert_eq!(err("1", BOOL), JsonError { kind: JsonErrorKind::ShapeMismatch, type_id: BOOL });
    assert_eq!(err("{}", NUMBERS), JsonError { kind: JsonErrorKind::ShapeMismatch, type_id: NUMBERS });
    assert_eq!(err("[1, true]", NUMBERS), JsonError { kind: JsonErrorKind::ShapeMismatch, type_id: NUMBER });
    assert_eq!(err("[1]", PAIR), JsonError { kind: JsonErrorKind::WrongArity, type_id: PAIR });
    assert_eq!(err("[1]", POINT), JsonError { kind: JsonErrorKind::ShapeMismatch, type_id: POINT });
    assert_eq!(err("{\"z\": 1}", POINT), JsonError { kind: JsonErrorKind::UnknownField, type_id: POINT });
    assert_eq!(err("\"Missing\"", SHAPE), JsonError { kind: JsonErrorKind::UnknownVariant, type_id: SHAPE });
    assert_eq!(err("{\"Missing\": 1}", SHAPE), JsonError { kind: JsonErrorKind::UnknownVariant, type_id: SHAPE });
    assert_eq!(err("\"Single\"", SHAPE), JsonError { kind: JsonErrorKind::NotUnitVariant, type_id: SHAPE });
    assert_eq!(err("{\"Empty\": 1}", SHAPE), JsonError { kind: JsonErrorKind::UnitVariantWithValue, type_id: SHAPE });
    assert_eq!(err("{}", SHAPE), JsonError { kind: JsonErrorKind::NotOneEntry, type_id: SHAPE });
    assert_eq!(err("{\"Empty\": 1, \"Single\": 2}", SHAPE), JsonError { kind: JsonErrorKind::NotOneEntry, type_id: SHAPE });
    assert_eq!(err("5", SHAPE), JsonError { kind: JsonErrorKind::NotStringOrObject, type_id: SHAPE });
    assert_eq!(err("{\"Both\": [1]}", SHAPE), JsonError { kind: JsonErrorKind::WrongArity, type_id: SHAPE });
    assert_eq!(err("{\"Both\": 1}", SHAPE), JsonError { kind: JsonErrorKind::ShapeMismatch, type_id: SHAPE });
    assert_eq!(err("{\"Named\": [1]}", SHAPE), JsonError { kind: JsonErrorKind::ShapeMismatch, type_id: SHAPE });
    assert_eq!(err("{\"Named\": {\"q\": 1}}", SHAPE), JsonError { kind: JsonErrorKind::UnknownField, type_id: SHAPE });
    assert_eq!(err("{\"Listed\": 1}", SHAPE), JsonError { kind: JsonErrorKind::ShapeMismatch, type_id: NUMBERS });
    assert_eq!(
        CafEnumVariant::from_json(&json("\"Empty\""), NUMBER, &reg),
        Err(JsonError { kind: JsonErrorKind::ShapeMismatch, type_id: NUMBER })
    );
    assert_eq!(
        CafEnumVariant::from_json(&json("\"Empty\""), 99, &reg),
        Err(JsonError { kind: JsonErrorKind::UnknownType, type_id: 99 })
    );
}

#[test]
fn registry_lookups() {
    let reg = registry();
    assert_eq!(reg.get_with_type_path("demo::Point"), Some(POINT));
    assert_eq!(reg.get_with_type_path("other::Point"), Some(OTHER_POINT));
    assert_eq!(reg.get_with_type_path("Point"), None);
    assert_eq!(reg.get_with_short_type_path("Shape"), Some(SHAPE));
    assert_eq!(reg.get_with_short_type_path("Point"), None);
    assert_eq!(reg.get_with_short_type_path("Missing"), None);
    assert_eq!(TypeRegistry::new().get_with_short_type_path("Point"), None);
}

fn float_to_hex_int(num: f64) -> Option<u8> {
    let converted = (num * 256.0f64 - 1.0) as u8;
    if num as f32 != ((converted as f64 + 1.0) / (256.0f64)) as f32 {
        return None;
    }
    Some(converted)
}

#[test]
fn hex_color_precision() {
    for k in 0..=255u8 {
        let channel = (k as f32 + 1.0) / 256.0;
        assert_eq!(to_hex_int(channel.to_bits()), Some(k));
        let above = f32::from_bits(channel.to_bits() + 1);
        let below = f32::from_bits(channel.to_bits() - 1);
        assert_eq!(to_hex_int(above.to_bits()), None);
        assert_eq!(to_hex_int(below.to_bits()), None);
    }
    assert_eq!(to_hex_int(1.0f32.to_bits()), Some(255));
    assert_eq!(to_hex_int(0.5f32.to_bits()), Some(127));
    assert_eq!(to_hex_int(0.00390625f32.to_bits()), Some(0));
    for other in [0.0f32, -0.0, -0.5, 0.3, 2.0, 1.5, 1e-40, f32::NAN, f32::INFINITY, f32::MIN_POSITIVE, f32::MAX] {
        assert_eq!(to_hex_int(other.to_bits()), None, "{}", other);
    }
    let mut bits: u32 = 0x9E37_79B9;
    for _ in 0..200_000 {
        bits = bits.wrapping_mul(1_664_525).wrapping_add(1_013_904_223);
        let channel = f32::from_bits(bits);
        assert_eq!(to_hex_int(bits), float_to_hex_int(channel as f64), "{}", channel);
    }
    for bits in 0x3B00_0000u32..0x3B00_4000 {
        assert_eq!(to_hex_int(bits), float_to_hex_int(f32::from_bits(bits) as f64));
    }
}

#[test]
fn hex_color_from_channels() {
    let bits = |x: f32| x.to_bits();
    let color = CafHexColor::try_from_bits(bits(1.0), bits(0.5), bits(0.25), bits(1.0)).unwrap();
    assert_eq!(color.color, HexColor { red: 255, green: 127, blue: 63, alpha: None });
    assert_eq!(color.fill, CafFill::default());
    let mut out = Vec::new();
    color.write_to(&mut out);
    assert_eq!(out, b"#FF7F3F");
    let color = CafHexColor::try_from_bits(bits(1.0), bits(0.5), bits(0.25), bits(0.5)).unwrap();
    assert_eq!(color.color, HexColor { red: 255, green: 127, blue: 63, alpha: Some(127) });
    let mut out = Vec::new();
    color.write_to_with_space(&mut out, " ");
    assert_eq!(out, b" #7FFF7F3F");
    assert_eq!(CafHexColor::try_from_bits(bits(0.3), bits(0.5), bits(0.25), bits(1.0)), Err(()));
    assert_eq!(CafHexColor::try_from_bits(bits(1.0), bits(0.0), bits(0.25), bits(1.0)), Err(()));
    assert_eq!(CafHexColor::try_from_bits(bits(1.0), bits(0.5), bits(0.1), bits(1.0)), Err(()));
    assert_eq!(CafHexColor::try_from_bits(bits(1.0), bits(0.5), bits(0.25), bits(2.0)), Err(()));
}

#[test]
fn builtins_from_variants() {
    assert_eq!(
        CafBuiltin::try_from_unit_variant("Val", "Auto"),
        Ok(Some(CafBuiltin::Val { fill: CafFill::default(), number: None, val: ValKind::Auto }))
    );
    assert_eq!(CafBuiltin::try_from_unit_variant("Val", "Px"), Ok(None));
    assert_eq!(CafBuiltin::try_from_unit_variant("Other", "Auto"), Ok(None));

    for (name, unit, text) in [
        ("Px", ValKind::Px, "5px"),
        ("Percent", ValKind::Percent, "5%"),
        ("Vw", ValKind::Vw, "5vw"),
        ("Vh", ValKind::Vh, "5vh"),
        ("VMin", ValKind::VMin, "5vmin"),
        ("VMax", ValKind::VMax, "5vmax"),
    ] {
        let found = CafBuiltin::try_from_newtype_variant("Val", name, &value("5")).unwrap().unwrap();
        assert!(matches!(&found, CafBuiltin::Val { val, number: Some(n), .. } if *val == unit && n.original == "5"));
        assert_eq!(written(&CafValue::Builtin(found)), text);
    }
    assert_eq!(CafBuiltin::try_from_newtype_variant("Val", "Px", &value("\"5\"")), Ok(None));
    assert_eq!(CafBuiltin::try_from_newtype_variant("Other", "Px", &value("5")), Ok(None));
    assert_eq!(
        CafBuiltin::try_from_newtype_variant("Val", "Furlong", &value("5")),
        Err(CafError::MalformedBuiltin)
    );
}

#[test]
fn color_channels_from_variants() {
    let numbers = CafBuiltin::srgba_numbers(
        "Color",
        "Srgba",
        &value("Srgba{red:1.0 blue:0.25 green:0.5 red:0.125}"),
    )
    .unwrap()
    .unwrap();
    assert_eq!(numbers.red.map(|n| n.original.to_string()), Some("0.125".to_string()));
    assert_eq!(numbers.green.map(|n| n.original.to_string()), Some("0.5".to_string()));
    assert_eq!(numbers.blue.map(|n| n.original.to_string()), Some("0.25".to_string()));
    assert!(numbers.alpha.is_none());

    let none = |text: &str| CafBuiltin::srgba_numbers("Color", "Srgba", &value(text)).map(|n| n.is_none());
    assert_eq!(none("Srgba{red:\"x\"}"), Ok(true));
    assert_eq!(none("Srgba{hue:1}"), Ok(true));
    assert_eq!(none("Hsla{red:1}"), Ok(true));
    assert_eq!(none("Srgba(1 1 1)"), Ok(true));
    assert_eq!(none("5"), Ok(true));
    assert_eq!(none("Srgba{\"red\":1}"), Err(CafError::MalformedBuiltin));
    assert_eq!(none("Srgba{red:1 1:2}"), Err(CafError::MalformedBuiltin));
    assert!(CafBuiltin::srgba_numbers("Color", "Hsla", &value("Srgba{red:1}")).unwrap().is_none());
    assert!(CafBuiltin::srgba_numbers("Paint", "Srgba", &value("Srgba{red:1}")).unwrap().is_none());
}
