use cobweb_asset_format::cursor::{
    hover_cursor, press_cursor, refresh_cursor_icon, same_request, CursorRequest, Hotspot,
    InteractiveCursors, LoadableCursor,
};
use cobweb_asset_format::document::Caf;
use cobweb_asset_format::from_json::{JsonError, JsonErrorKind};
use cobweb_asset_format::loadable_sheet::{
    LoadableRef, LoadableSheet, PendingUpdate, ReflectedLoadable, RefSubscription, UpdateCall,
};
use cobweb_asset_format::loaders::{bundle_loader, reactive_loader, LoaderAction, LoaderCallbacks};
use cobweb_asset_format::macros::CobMacroParamDef;
use cobweb_asset_format::span::{Span, SpanError, SpanErrorKind};
use cobweb_asset_format::typed::TypedError;
use cobweb_asset_format::ui::{
    apply_to_content_flex, apply_to_dims, apply_to_self_flex, initialize_absolute_style,
    initialize_flex_style, SetFocusPolicy, SetZIndex, StyleTarget,
};
use cobweb_asset_format::value::{CafValue, CobMacroParam};

fn doc(text: &str) -> Caf {
    Caf::parse(text.as_bytes()).unwrap()
}

fn value(text: &str) -> CafValue {
    doc(text).value.unwrap()
}

fn loaded(text: &str) -> ReflectedLoadable {
    ReflectedLoadable::Value(value(text))
}

fn at(file: &str, path: &str) -> LoadableRef {
    LoadableRef { file: file.to_string(), path: path.to_string() }
}

#[test]
fn values_are_compared_whatever_their_fill() {
    let same = [
        ("{a:1 b:[1 2]}", " { a : 1 ,\n b:[ 1, 2 ] // c\n}"),
        ("Name(1 \"x\")", " Name( 1  \"x\" )"),
        ("#FF0000", "\n#FF0000"),
        ("5px", " 5px"),
        ("none", " none"),
        ("[true {x:Y{z:auto}}]", "[ true { x : Y{ z : auto } } ]"),
    ];
    for (a, b) in same {
        assert!(value(a).eq_ignore_whitespace(&value(b)), "{} {}", a, b);
        assert!(doc(a).eq_ignore_whitespace(&doc(b)));
        let mut made = value(a);
        made.recover_fill(&value(b));
        assert_eq!(made, value(b));
    }
    let differ = [
        ("{a:1}", "{a:2}"),
        ("{a:1}", "{b:1}"),
        ("{a:1}", "{\"a\":1}"),
        ("[1 2]", "[1]"),
        ("[1 2]", "(1 2)"),
        ("1", "1.0"),
        ("1.0", "1.00"),
        ("\"a\"", "\"b\""),
        ("\"\\n\"", "\"\\r\""),
        ("true", "false"),
        ("A", "B"),
        ("A", "A()"),
        ("A(1)", "A[1]"),
        ("A{x:1}", "A{x:2}"),
        ("#FF0000", "#FF0001"),
        ("#FF0000", "#FFFF0000"),
        ("5px", "5%"),
        ("5px", "6px"),
        ("auto", "5px"),
        ("none", "1"),
    ];
    for (a, b) in differ {
        assert!(!value(a).eq_ignore_whitespace(&value(b)), "{} {}", a, b);
        assert!(!value(b).eq_ignore_whitespace(&value(a)), "{} {}", a, b);
    }
    assert!(doc("").eq_ignore_whitespace(&doc(" // x")));
    assert!(!doc("").eq_ignore_whitespace(&doc("1")));
}

#[test]
fn loadables_are_equal_where_their_values_are() {
    let failed = ReflectedLoadable::DeserializationFailed(TypedError::Shape(JsonError {
        kind: JsonErrorKind::ShapeMismatch,
        type_id: 1,
    }));
    assert_eq!(loaded("{a:1}").equals(&loaded("{ a : 1 }")), Some(true));
    assert_eq!(loaded("{a:1}").equals(&loaded("{a:2}")), Some(false));
    assert_eq!(loaded("1").equals(&failed), Some(false));
    assert_eq!(failed.equals(&failed), Some(false));
    assert_eq!(loaded("1").get_value(), Some(&value("1")));
    assert_eq!(failed.get_value(), None);
    assert_eq!(failed.duplicate(), failed);
}

#[test]
fn loading_progress_counts_the_files_that_are_not_read() {
    let mut sheet = LoadableSheet::default();
    assert_eq!(sheet.loading_progress(), (0, 0));
    sheet.prepare_file("a.caf".to_string());
    sheet.prepare_file("b.caf".to_string());
    assert_eq!(sheet.loading_progress(), (2, 2));
    sheet.initialize_file("a.caf");
    sheet.initialize_file("a.caf");
    sheet.initialize_file("c.caf");
    assert_eq!(sheet.loading_progress(), (1, 2));
    assert_eq!(sheet.pending, vec!["b.caf".to_string()]);
    sheet.prepare_file("b.caf".to_string());
    assert_eq!(sheet.loading_progress(), (1, 3));
}

#[test]
fn inserting_tells_the_subscribers_of_what_changed() {
    let mut sheet = LoadableSheet::default();
    let root = at("a.caf", "root");
    let other = at("a.caf", "other");

    assert!(!sheet.insert(&root, loaded("1"), 7));
    assert_eq!(sheet.loadables.len(), 1);
    assert!(sheet.needs_updates.is_empty());

    assert_eq!(sheet.track_entity(10, &root), vec![7]);
    assert_eq!(sheet.track_entity(11, &other), Vec::<usize>::new());
    assert_eq!(sheet.track_entity(12, &root), vec![7]);
    assert_eq!(sheet.subscribers(&root), vec![10, 12]);
    assert_eq!(sheet.needs_updates.len(), 2);
    assert_eq!(
        sheet.needs_updates[0],
        PendingUpdate { type_id: 7, loadable: loaded("1"), key: root.clone(), entities: vec![10] }
    );
    assert!(sheet.cleanup_pending());
    assert!(!sheet.cleanup_pending());

    assert!(!sheet.insert(&root, loaded(" 1 "), 7));
    assert!(sheet.needs_updates.is_empty());
    assert_eq!(sheet.loadables[0].loadable, loaded("1"));

    assert!(sheet.insert(&root, loaded("2"), 7));
    assert!(sheet.insert(&root, loaded("\"x\""), 8));
    assert!(sheet.insert(&other, loaded("3"), 7));
    assert!(!sheet.insert(&at("b.caf", "root"), loaded("4"), 7));
    assert_eq!(sheet.loadables.len(), 4);
    assert_eq!(sheet.loadables[0].loadable, loaded("2"));

    assert_eq!(
        sheet.update_loadables(7),
        vec![
            UpdateCall { entity: 10, key: root.clone(), loadable: loaded("2") },
            UpdateCall { entity: 12, key: root.clone(), loadable: loaded("2") },
            UpdateCall { entity: 11, key: other.clone(), loadable: loaded("3") },
        ]
    );
    assert_eq!(sheet.needs_updates.len(), 1);
    assert_eq!(sheet.update_loadables(7), vec![]);
    assert_eq!(
        sheet.update_loadables(8),
        vec![
            UpdateCall { entity: 10, key: root.clone(), loadable: loaded("\"x\"") },
            UpdateCall { entity: 12, key: root.clone(), loadable: loaded("\"x\"") },
        ]
    );
    assert!(sheet.needs_updates.is_empty());
    assert_eq!(sheet.track_entity(13, &root), vec![7, 8]);
}

#[test]
fn removed_entities_wait_no_longer() {
    let mut sheet = LoadableSheet::default();
    let root = at("a.caf", "root");
    let other = at("a.caf", "other");
    sheet.track_entity(1, &root);
    sheet.track_entity(2, &root);
    sheet.track_entity(1, &other);
    assert_eq!(
        sheet.subscriptions_rev,
        vec![
            RefSubscription { key: other.clone(), entity: 1 },
            RefSubscription { key: root.clone(), entity: 2 },
        ]
    );
    sheet.remove_entity(3);
    assert_eq!(sheet.subscriptions.len(), 3);
    sheet.remove_entity(1);
    assert_eq!(sheet.subscribers(&other), Vec::<u64>::new());
    assert_eq!(sheet.subscribers(&root), vec![1, 2]);
    sheet.remove_entity(1);
    assert_eq!(sheet.subscribers(&root), vec![1, 2]);
    sheet.remove_entity(2);
    assert_eq!(sheet.subscribers(&root), vec![1]);
    assert!(sheet.subscriptions_rev.is_empty());
    assert!(at("a", "b").same(&at("a", "b")));
    assert!(!at("a", "b").same(&at("a", "c")));
    assert!(!at("a", "b").same(&at("x", "b")));
    assert_eq!(at("a", "b").duplicate(), at("a", "b"));
}

#[test]
fn callbacks_are_registered_once() {
    let mut callbacks = LoaderCallbacks::default();
    assert_eq!(callbacks.get(1), None);
    assert!(callbacks.register(1, 100));
    assert!(callbacks.register(2, 200));
    assert!(!callbacks.register(1, 300));
    assert_eq!(callbacks.get(1), Some(100));
    assert_eq!(callbacks.get(2), Some(200));
    assert_eq!(callbacks.scheduled(&vec![2, 3, 1, 2]), vec![200, 100, 200]);
    assert_eq!(callbacks.scheduled(&vec![]), Vec::<u64>::new());
}

#[test]
fn what_a_loader_does() {
    assert_eq!(reactive_loader(false, true, true), LoaderAction::Nothing);
    assert_eq!(reactive_loader(true, false, true), LoaderAction::Nothing);
    assert_eq!(reactive_loader(true, true, true), LoaderAction::Replace);
    assert_eq!(reactive_loader(true, true, false), LoaderAction::Insert);
    assert_eq!(bundle_loader(true, true), LoaderAction::Insert);
    assert_eq!(bundle_loader(false, true), LoaderAction::Nothing);
    assert_eq!(bundle_loader(true, false), LoaderAction::Nothing);
}

#[test]
fn where_style_changes_go() {
    assert_eq!(initialize_absolute_style(false, false), StyleTarget::InsertAbsolute);
    assert_eq!(initialize_absolute_style(true, false), StyleTarget::Nothing);
    assert_eq!(initialize_absolute_style(false, true), StyleTarget::Nothing);
    assert_eq!(initialize_flex_style(false, false), StyleTarget::InsertFlex);
    assert_eq!(initialize_flex_style(true, false), StyleTarget::Nothing);
    assert_eq!(initialize_flex_style(false, true), StyleTarget::Nothing);
    assert_eq!(apply_to_dims(true, true), StyleTarget::Absolute);
    assert_eq!(apply_to_dims(false, true), StyleTarget::Flex);
    assert_eq!(apply_to_dims(false, false), StyleTarget::InsertAbsolute);
    assert_eq!(apply_to_content_flex(true, false), StyleTarget::Absolute);
    assert_eq!(apply_to_content_flex(false, true), StyleTarget::Flex);
    assert_eq!(apply_to_content_flex(false, false), StyleTarget::InsertAbsolute);
    assert_eq!(apply_to_self_flex(true, true), StyleTarget::Nothing);
    assert_eq!(apply_to_self_flex(false, true), StyleTarget::Flex);
    assert_eq!(apply_to_self_flex(false, false), StyleTarget::InsertFlex);
    assert_eq!(SetFocusPolicy::default(), SetFocusPolicy::Pass);
    assert_eq!(SetZIndex::default(), SetZIndex::Local(0));
}

#[test]
fn cursors_of_hovered_and_pressed_elements() {
    let hand = LoadableCursor::System(2);
    assert_eq!(
        hover_cursor(hand.clone()),
        InteractiveCursors {
            idle: LoadableCursor::Ignored,
            hover: Some(hand.clone()),
            press: None,
            cancel: None
        }
    );
    assert_eq!(
        press_cursor(hand.clone()),
        InteractiveCursors {
            idle: LoadableCursor::Ignored,
            hover: None,
            press: Some(hand),
            cancel: None
        }
    );
}

#[test]
fn the_cursor_is_refreshed_where_it_differs() {
    let spot = Hotspot { x: 0, y: 0 };
    let image = CursorRequest::Image { image: "a.png".to_string(), hotspot: spot };
    let moved = CursorRequest::Image { image: "a.png".to_string(), hotspot: Hotspot { x: 1, y: 0 } };
    let url = CursorRequest::Url { url: "a.png".to_string(), hotspot: spot };
    assert!(same_request(&image, &image.clone()));
    assert!(!same_request(&image, &moved));
    assert!(!same_request(&image, &url));
    assert!(same_request(&CursorRequest::System(1), &CursorRequest::System(1)));
    assert!(!same_request(&CursorRequest::System(1), &CursorRequest::System(2)));
    assert_eq!(refresh_cursor_icon(None, None), None);
    assert_eq!(refresh_cursor_icon(Some(&image), None), None);
    assert_eq!(refresh_cursor_icon(Some(&image), Some(image.clone())), None);
    assert_eq!(refresh_cursor_icon(Some(&image), Some(url.clone())), Some(url.clone()));
    assert_eq!(refresh_cursor_icon(None, Some(url.clone())), Some(url));
}

#[test]
fn a_macro_parameter_cannot_be_read_where_one_must_stand() {
    let content = Span::new(b"  @x").at(2);
    assert_eq!(
        CobMacroParam::parse_nomlike(content),
        Err(SpanError { offset: 2, kind: SpanErrorKind::Verify })
    );
    assert_eq!(CobMacroParamDef, CobMacroParamDef.clone());
}
