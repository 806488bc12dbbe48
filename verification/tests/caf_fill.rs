use cobweb_asset_format::document::Caf;
use cobweb_asset_format::fill::{CafFill, CafFillSegment};

fn caf_parse_test(text: &str, expected: Caf) {
    let parsed = match Caf::parse(text.as_bytes()) {
        Ok(parsed) => parsed,
        Err(err) => panic!("parsing {:?} failed: {:?}", text, err),
    };
    assert_eq!(parsed, expected);
    let mut written = Vec::new();
    parsed.write_to(&mut written);
    assert_eq!(written.as_slice(), text.as_bytes());
}

#[test]
fn whitespace() {
    caf_parse_test(" ", Caf { end_fill: CafFill::space(), ..Default::default() });
    caf_parse_test("  ", Caf { end_fill: CafFill::spaces(2), ..Default::default() });
    caf_parse_test("\n", Caf { end_fill: CafFill::newline(), ..Default::default() });
    caf_parse_test("\n\n", Caf { end_fill: CafFill::newlines(2), ..Default::default() });
    caf_parse_test(
        " \n",
        Caf {
            end_fill: CafFill {
                segments: vec![CafFillSegment::space(), CafFillSegment::newline()],
            },
            ..Default::default()
        },
    );
}

#[test]
fn comments() {
    caf_parse_test("//", Caf { end_fill: CafFill::comment("//"), ..Default::default() });
    caf_parse_test("// ", Caf { end_fill: CafFill::comment("// "), ..Default::default() });
    caf_parse_test("//a", Caf { end_fill: CafFill::comment("//a"), ..Default::default() });
    caf_parse_test(
        " //a",
        Caf {
            end_fill: CafFill {
                segments: vec![CafFillSegment::space(), CafFillSegment::comment("//a")],
            },
            ..Default::default()
        },
    );
    caf_parse_test(
        " // a\n",
        Caf {
            end_fill: CafFill {
                segments: vec![
                    CafFillSegment::space(),
                    CafFillSegment::comment("// a"),
                    CafFillSegment::newline(),
                ],
            },
            ..Default::default()
        },
    );
}

#[test]
fn two_spaces_are_two_segments() {
    let doc = Caf::parse(b"  ").unwrap();
    assert_eq!(doc.end_fill.segments, vec![CafFillSegment::Space, CafFillSegment::Space]);
}

#[test]
fn comment_then_newline() {
    let doc = Caf::parse(b"// a\n").unwrap();
    assert_eq!(
        doc.end_fill.segments,
        vec![CafFillSegment::comment("// a"), CafFillSegment::Newline]
    );
}
