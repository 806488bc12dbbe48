use cobweb_asset_format::document::Caf;
use cobweb_asset_format::fill::{CafFill, CafFillSegment};
use cobweb_asset_format::span::{Span, SpanError, SpanErrorKind};
use cobweb_asset_format::value::{
    CafArray, CafBuiltin, CafEnumVariant, CafMap, CafMapEntry, CafMapKey, CafNumber, CafTuple,
    CafValue, HexColor, ValKind,
};

fn parse(text: &str) -> Caf {
    match Caf::parse(text.as_bytes()) {
        Ok(doc) => doc,
        Err(err) => panic!("parsing {:?} failed: {:?}", text, err),
    }
}

fn round_trip(text: &str) {
    let doc = parse(text);
    let mut out = Vec::new();
    doc.write_to(&mut out);
    assert_eq!(String::from_utf8(out).unwrap(), text);
    assert_eq!(Caf::rewrite(text.as_bytes()).unwrap(), text.as_bytes());
}

fn root_map(doc: &Caf) -> &CafMap {
    match &doc.value {
        Some(CafValue::Mapping(map)) => map,
        other => panic!("expected a map, found {:?}", other),
    }
}

fn key_value(entry: &CafMapEntry) -> (&CafMapKey, &CafValue) {
    match entry {
        CafMapEntry::KeyValue(kv) => (&kv.key, &kv.value),
        other => panic!("expected a key with its value, found {:?}", other),
    }
}

fn field_name(key: &CafMapKey) -> &str {
    match key {
        CafMapKey::FieldName { name, .. } => name.as_str(),
        other => panic!("expected a field name, found {:?}", other),
    }
}

#[test]
fn map_entries_separated_by_one_space() {
    let doc = parse("{a:1 b:2}");
    let map = root_map(&doc);
    assert_eq!(map.entries.len(), 2);
    let (key, value) = key_value(&map.entries[0]);
    assert_eq!(field_name(key), "a");
    match value {
        CafValue::Number(n) => {
            assert_eq!(n.number.original.as_str(), "1");
            assert_eq!(n.number.deserialized.as_u64(), Some(1));
            assert_eq!(n.fill, CafFill::default());
        }
        other => panic!("expected a number, found {:?}", other),
    }
    let (key, value) = key_value(&map.entries[1]);
    match key {
        CafMapKey::FieldName { fill, name } => {
            assert_eq!(name.as_str(), "b");
            assert_eq!(fill, &CafFill::space());
        }
        other => panic!("expected a field name, found {:?}", other),
    }
    match value {
        CafValue::Number(n) => assert_eq!(n.number.original.as_str(), "2"),
        other => panic!("expected a number, found {:?}", other),
    }
    round_trip("{a:1 b:2}");
}

#[test]
fn map_entries_without_separator_fail() {
    assert_eq!(
        Caf::parse(b"{a:1b:2}"),
        Err(SpanError { offset: 0, kind: SpanErrorKind::Verify })
    );
}

#[test]
fn map_try_parse_reports_the_map_start() {
    let text = b"  {a:1b:2}";
    let (fill, content) = CafFill::parse(Span::new(text));
    assert_eq!(content.offset, 2);
    assert_eq!(
        CafMap::try_parse(fill, content),
        Err(SpanError { offset: 2, kind: SpanErrorKind::Verify })
    );
}

#[test]
fn map_try_parse_skips_what_is_no_map() {
    let text = b"[1]";
    let fill = CafFill::space();
    let (node, fill_back, rest) = CafMap::try_parse(fill, Span::new(text)).unwrap();
    assert_eq!(node, None);
    assert_eq!(fill_back, CafFill::space());
    assert_eq!(rest, Span::new(text));
}

#[test]
fn missing_closing_brace_is_an_error_where_it_should_stand() {
    assert_eq!(
        Caf::parse(b"{a:1 "),
        Err(SpanError { offset: 5, kind: SpanErrorKind::Char })
    );
    assert_eq!(Caf::parse(b"[1 2"), Err(SpanError { offset: 4, kind: SpanErrorKind::Char }));
    assert_eq!(Caf::parse(b"(1"), Err(SpanError { offset: 2, kind: SpanErrorKind::Char }));
}

#[test]
fn missing_colon_and_missing_value_are_errors() {
    assert_eq!(Caf::parse(b"{a 1}"), Err(SpanError { offset: 3, kind: SpanErrorKind::Char }));
    assert_eq!(Caf::parse(b"{a:}"), Err(SpanError { offset: 1, kind: SpanErrorKind::Verify }));
}

#[test]
fn leftover_input_is_an_error() {
    assert_eq!(Caf::parse(b"1 }"), Err(SpanError { offset: 2, kind: SpanErrorKind::Verify }));
    assert_eq!(Caf::parse(b"?"), Err(SpanError { offset: 0, kind: SpanErrorKind::Verify }));
}

#[test]
fn unclosed_string_and_bad_escape_are_errors() {
    assert_eq!(Caf::parse(b"\"abc"), Err(SpanError { offset: 0, kind: SpanErrorKind::Verify }));
    assert_eq!(
        Caf::parse(b" \"a\\qb\""),
        Err(SpanError { offset: 1, kind: SpanErrorKind::Verify })
    );
}

#[test]
fn number_that_is_no_json_number_is_an_error() {
    assert_eq!(Caf::parse(b"01"), Err(SpanError { offset: 0, kind: SpanErrorKind::Verify }));
    assert_eq!(Caf::parse(b"1e999"), Err(SpanError { offset: 0, kind: SpanErrorKind::Verify }));
}

#[test]
fn keywords_are_values_and_longer_words_are_field_names() {
    let doc = parse("{true:1 truth:2 none:3 nonempty:4 auto:5 auto_fill:6}");
    let map = root_map(&doc);
    assert_eq!(map.entries.len(), 6);
    assert!(matches!(key_value(&map.entries[0]).0, CafMapKey::Value(CafValue::Bool(b)) if b.value));
    assert_eq!(field_name(key_value(&map.entries[1]).0), "truth");
    assert!(matches!(key_value(&map.entries[2]).0, CafMapKey::Value(CafValue::Nothing(_))));
    assert_eq!(field_name(key_value(&map.entries[3]).0), "nonempty");
    assert!(matches!(
        key_value(&map.entries[4]).0,
        CafMapKey::Value(CafValue::Builtin(CafBuiltin::Val { val: ValKind::Auto, number: None, .. }))
    ));
    assert_eq!(field_name(key_value(&map.entries[5]).0), "auto_fill");
}

#[test]
fn lengths_and_colors() {
    let doc = parse("[5px 10% -1.5vw 2vh 3vmin 4vmax auto #FF0080 #7F000000]");
    let Some(CafValue::Array(array)) = &doc.value else { panic!("expected an array") };
    let units: Vec<ValKind> = array
        .entries
        .iter()
        .filter_map(|v| match v {
            CafValue::Builtin(CafBuiltin::Val { val, .. }) => Some(*val),
            _ => None,
        })
        .collect();
    assert_eq!(
        units,
        vec![
            ValKind::Px,
            ValKind::Percent,
            ValKind::Vw,
            ValKind::Vh,
            ValKind::VMin,
            ValKind::VMax,
            ValKind::Auto
        ]
    );
    match &array.entries[2] {
        CafValue::Builtin(CafBuiltin::Val { number: Some(n), .. }) => {
            assert_eq!(n.original.as_str(), "-1.5");
            assert_eq!(n.deserialized.as_f64(), Some(-1.5));
        }
        other => panic!("expected a length, found {:?}", other),
    }
    match &array.entries[7] {
        CafValue::Builtin(CafBuiltin::Color(c)) => {
            assert_eq!(c.color, HexColor { red: 255, green: 0, blue: 128, alpha: None });
        }
        other => panic!("expected a colour, found {:?}", other),
    }
    match &array.entries[8] {
        CafValue::Builtin(CafBuiltin::Color(c)) => {
            assert_eq!(c.color, HexColor { red: 0, green: 0, blue: 0, alpha: Some(127) });
        }
        other => panic!("expected a colour, found {:?}", other),
    }
    round_trip("[5px 10% -1.5vw 2vh 3vmin 4vmax auto #FF0080 #7F000000]");
    assert_eq!(Caf::parse(b"#FFF"), Err(SpanError { offset: 0, kind: SpanErrorKind::Verify }));
    assert_eq!(Caf::parse(b"#ff0080"), Err(SpanError { offset: 0, kind: SpanErrorKind::Verify }));
}

#[test]
fn enum_variants_take_their_payload_right_behind_the_name() {
    let doc = parse("[Unit Tuple(1 \"a\") List[1 2] Fields{a:1} Spaced (1)]");
    let Some(CafValue::Array(array)) = &doc.value else { panic!("expected an array") };
    assert_eq!(array.entries.len(), 6);
    assert!(matches!(&array.entries[0], CafValue::EnumVariant(CafEnumVariant::Unit { id }) if id.name == "Unit"));
    assert!(matches!(&array.entries[1], CafValue::EnumVariant(CafEnumVariant::Tuple { id, tuple }) if id.name == "Tuple" && tuple.entries.len() == 2));
    assert!(matches!(&array.entries[2], CafValue::EnumVariant(CafEnumVariant::Array { id, array }) if id.name == "List" && array.entries.len() == 2));
    assert!(matches!(&array.entries[3], CafValue::EnumVariant(CafEnumVariant::Mapping { id, map }) if id.name == "Fields" && map.entries.len() == 1));
    assert!(matches!(&array.entries[4], CafValue::EnumVariant(CafEnumVariant::Unit { id }) if id.name == "Spaced"));
    assert!(matches!(&array.entries[5], CafValue::Tuple(t) if t.entries.len() == 1));
}

#[test]
fn round_trips_keep_every_byte() {
    round_trip("");
    round_trip("\n// only a comment");
    round_trip("{ }");
    round_trip("// header\n{\n  a: 1, // one\n  b : [ 1,2 , 3 ]\n\n  c:\"x\\\"y\\n\" ,\n}\n");
    round_trip("{ using: [\"pkg::Color\"] node1: { Dims: {Percent: [50.0, 50.0]} node2: { Dims: \"inherited\" } } }");
    round_trip("Variant{x:(1 , 2) y:Other[ ] z:none w:true v:false}");
    round_trip("[1e5 -0.25 12E-3 7 \"\" \"\\\\\"]");
    round_trip("((()) [[]] {a:{}})");
}

#[test]
fn end_to_end_scenario() {
    let text = "{ using: [\"pkg::Color\"] node1: { Dims: {Percent: [50.0, 50.0]} node2: { Dims: \"inherited\" } } }";
    let doc = parse(text);
    let root = root_map(&doc);
    assert_eq!(root.entries.len(), 2);
    let (key, using) = key_value(&root.entries[0]);
    assert_eq!(field_name(key), "using");
    match using {
        CafValue::Array(a) => match &a.entries[..] {
            [CafValue::String(s)] => assert_eq!(s.raw, b"pkg::Color"),
            other => panic!("unexpected using entries {:?}", other),
        },
        other => panic!("expected an array, found {:?}", other),
    }
    let (key, node1) = key_value(&root.entries[1]);
    assert_eq!(field_name(key), "node1");
    let CafValue::Mapping(node1) = node1 else { panic!("node1 is no map") };
    assert_eq!(node1.entries.len(), 2);
    let (key, dims) = key_value(&node1.entries[0]);
    assert!(matches!(key, CafMapKey::Value(CafValue::EnumVariant(CafEnumVariant::Unit { id })) if id.name == "Dims"));
    let CafValue::Mapping(dims) = dims else { panic!("Dims is no map") };
    let (key, percent) = key_value(&dims.entries[0]);
    assert!(matches!(key, CafMapKey::Value(CafValue::EnumVariant(CafEnumVariant::Unit { id })) if id.name == "Percent"));
    match percent {
        CafValue::Array(a) => {
            assert_eq!(a.entries.len(), 2);
            for entry in a.entries.iter() {
                match entry {
                    CafValue::Number(n) => {
                        assert_eq!(n.number.original.as_str(), "50.0");
                        assert_eq!(n.number.deserialized.as_f64(), Some(50.0));
                    }
                    other => panic!("expected a number, found {:?}", other),
                }
            }
            match &a.entries[1] {
                CafValue::Number(n) => assert_eq!(
                    n.fill.segments,
                    vec![CafFillSegment::Comma, CafFillSegment::Space]
                ),
                other => panic!("expected a number, found {:?}", other),
            }
        }
        other => panic!("expected an array, found {:?}", other),
    }
    let (key, node2) = key_value(&node1.entries[1]);
    assert_eq!(field_name(key), "node2");
    let CafValue::Mapping(node2) = node2 else { panic!("node2 is no map") };
    let (key, inherited) = key_value(&node2.entries[0]);
    assert!(matches!(key, CafMapKey::Value(CafValue::EnumVariant(CafEnumVariant::Unit { id })) if id.name == "Dims"));
    match inherited {
        CafValue::String(s) => {
            assert_eq!(s.raw, b"inherited");
            assert_eq!(s.text(), "inherited");
        }
        other => panic!("expected a string, found {:?}", other),
    }
}

#[test]
fn fill_writes_itself_or_the_fallback() {
    let mut out = Vec::new();
    CafFill::default().write_to_or_else(&mut out, " ");
    CafFill::newline().write_to_or_else(&mut out, " ");
    CafFill::comment("//x").write_to(&mut out);
    CafFill::default().write_to(&mut out);
    assert_eq!(out, b" \n//x");
}

#[test]
fn fill_parse_stops_at_the_first_token() {
    let text = b" ,\n//c\n x //d";
    let (fill, rest) = CafFill::parse(Span::new(text));
    assert_eq!(
        fill.segments,
        vec![
            CafFillSegment::Space,
            CafFillSegment::Comma,
            CafFillSegment::Newline,
            CafFillSegment::comment("//c"),
            CafFillSegment::Newline,
            CafFillSegment::Space,
        ]
    );
    assert_eq!(rest.location(), 8);
    let (none, same) = CafFill::parse(rest);
    assert!(none.is_empty());
    assert_eq!(same, rest);
    let (_, slash) = CafFill::parse(Span::new(b"/ /"));
    assert_eq!(slash.location(), 0);
}

fn number(n: u64) -> CafValue {
    CafValue::Number(CafNumber::from_json_number(&serde_json::Number::from(n)))
}

fn list(entries: Vec<CafValue>) -> CafArray {
    CafArray { start_fill: CafFill::default(), entries, end_fill: CafFill::default() }
}

#[test]
fn written_separators_for_nodes_without_fill() {
    let tuple = CafTuple {
        start_fill: CafFill::default(),
        entries: vec![number(3), number(4)],
        end_fill: CafFill::default(),
    };
    let map = CafMap::from(vec![
        CafMapEntry::struct_field("a", CafValue::Array(list(vec![number(1), number(2)]))),
        CafMapEntry::struct_field("b", CafValue::Tuple(tuple)),
    ]);
    let mut made = Caf { value: Some(CafValue::Mapping(map)), end_fill: CafFill::default() };
    let mut out = Vec::new();
    made.write_to(&mut out);
    assert_eq!(String::from_utf8(out).unwrap(), "{a:[1 2] b:(3 4)}");
    assert_eq!(made.clone(), made);

    let formatted = "{ a : [ 1 , 2 ]\nb : ( 3 4 ) }// end";
    made.recover_fill(&parse(formatted));
    let mut out = Vec::new();
    made.write_to(&mut out);
    assert_eq!(String::from_utf8(out).unwrap(), formatted);
    assert_eq!(made, parse(formatted));
}

#[test]
fn recover_fill_keeps_what_does_not_match() {
    let mut made = number(7);
    let other = match parse(" \"x\"").value {
        Some(value) => value,
        None => panic!("expected a value"),
    };
    made.recover_fill(&other);
    assert_eq!(made, number(7));

    let mut longer = CafValue::Array(list(vec![number(1), number(2), number(3)]));
    let shorter = match parse(" [ 9 \"s\" ] ").value {
        Some(value) => value,
        None => panic!("expected a value"),
    };
    longer.recover_fill(&shorter);
    let mut out = Vec::new();
    longer.write_to(&mut out);
    assert_eq!(String::from_utf8(out).unwrap(), " [ 1 2 3 ]");
}

#[test]
fn random_inputs_are_read_exactly_or_not_at_all() {
    let pieces: [&str; 40] = [
        " ", "\n", ",", "// c\n", "//", "{", "}", "[", "]", "(", ")", ":", "a", "b_1", "Name",
        "X9", "1", "-2", "3.5", "1e3", "0", "01", "true", "false", "none", "auto", "5px", "2%",
        "1vw", "3vh", "4vmin", "7vmax", "#FF00FF", "#0A0B0C0D", "#12", "\"s\"", "\"\\n\\\"\"",
        "\"", "-", "\u{e9}",
    ];
    let mut state: u32 = 12345;
    let mut next = |bound: usize| {
        state = state.wrapping_mul(1_664_525).wrapping_add(1_013_904_223);
        (state >> 8) as usize % bound
    };
    let mut parsed = 0;
    for _ in 0..20_000 {
        let len = next(12);
        let mut text = String::new();
        for _ in 0..len {
            text.push_str(pieces[next(pieces.len())]);
        }
        match Caf::parse(text.as_bytes()) {
            Ok(doc) => {
                parsed += 1;
                let mut out = Vec::new();
                doc.write_to(&mut out);
                assert_eq!(out, text.as_bytes(), "{:?}", text);
                let mut copy = doc.clone();
                copy.recover_fill(&doc);
                assert_eq!(copy, doc);
                if let Some(value) = &doc.value {
                    if let Ok(json) = value.to_json() {
                        assert_eq!(value.clone().to_json(), Ok(json));
                    }
                }
            }
            Err(err) => assert!(err.offset <= text.len(), "{:?}", text),
        }
    }
    assert!(parsed > 1_000);
}
