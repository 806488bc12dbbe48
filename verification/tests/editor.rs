use cobweb_asset_format::cursor::{CursorRequest, CursorSource, Hotspot, LoadableCursor};
use cobweb_asset_format::document::Caf;
use cobweb_asset_format::editor::{CobEditor, CobFileData, CobFileHash, EditorEvent, SaveJob};
use cobweb_asset_format::theme::{Contrast, Scheme};
use cobweb_asset_format::typed::NameShortcuts;

fn doc(text: &str) -> Caf {
    Caf::parse(text.as_bytes()).unwrap()
}

fn hash(text: &str) -> CobFileHash {
    CobFileHash::new(text.as_bytes())
}

#[test]
fn file_hash_is_fnv1a() {
    assert_eq!(CobFileHash::new(b""), CobFileHash(0xcbf2_9ce4_8422_2325));
    assert_eq!(CobFileHash::new(b"a"), CobFileHash(0xaf63_dc4c_8601_ec8c));
    assert_eq!(CobFileHash::new(b"foobar"), CobFileHash(0x8594_4171_f739_67e8));
    assert_ne!(hash("{a:1}"), hash("{a: 1}"));
}

#[test]
fn a_new_file_is_tracked() {
    let mut editor = CobEditor::new(true);
    assert!(!editor.any_unsaved());
    assert!(editor.get_file("a.caf").is_none());
    let events = editor.add_processed(hash("{a:1}"), "a.caf", &doc("{a:1}"), &NameShortcuts::new());
    assert_eq!(events, vec![EditorEvent::NewFile { file: "a.caf".to_string() }]);
    let held = editor.get_file("a.caf").unwrap();
    assert_eq!(held.last_save_hash, hash("{a:1}"));
    assert_eq!(held.data, doc("{a:1}"));
    assert!(held.is_editable());
    assert_eq!(editor.find_file("a.caf"), Some(0));
    assert_eq!(editor.find_file("b.caf"), None);
}

#[test]
fn a_reloaded_file_takes_new_data_where_the_hash_differs() {
    let mut editor = CobEditor::new(true);
    editor.add_processed(hash("{a:1}"), "a.caf", &doc("{a:1}"), &NameShortcuts::new());
    let mut using = NameShortcuts::new();
    using.insert("Color".to_string(), "pkg::Color".to_string());

    let events = editor.add_processed(hash("{a:1}"), "a.caf", &doc("{a:2}"), &using);
    assert_eq!(events, vec![EditorEvent::FileExternalChange { file: "a.caf".to_string() }]);
    let held = editor.get_file("a.caf").unwrap();
    assert_eq!(held.data, doc("{a:1}"));
    assert_eq!(held.using, using);

    let events = editor.add_processed(hash("{a:3}"), "a.caf", &doc("{a:3}"), &NameShortcuts::new());
    assert_eq!(events, vec![EditorEvent::FileExternalChange { file: "a.caf".to_string() }]);
    let held = editor.get_file("a.caf").unwrap();
    assert_eq!(held.data, doc("{a:3}"));
    assert_eq!(held.last_save_hash, hash("{a:3}"));
    assert_eq!(held.using, NameShortcuts::new());
    assert_eq!(editor.files.len(), 1);
}

#[test]
fn a_reloaded_file_discards_unsaved_changes() {
    let mut editor = CobEditor::new(true);
    editor.add_processed(hash("{a:1}"), "a.caf", &doc("{a:1}"), &NameShortcuts::new());
    editor.files[0].data = doc("{a:9}");
    assert_eq!(
        editor.mark_unsaved("a.caf".to_string()),
        EditorEvent::SaveStatus { file: "a.caf".to_string(), unsaved: true }
    );
    editor.mark_unsaved("a.caf".to_string());
    assert_eq!(editor.unsaved, vec!["a.caf".to_string()]);
    assert!(editor.any_unsaved());

    let events = editor.add_processed(hash("{a:1}"), "a.caf", &doc("{a:1}"), &NameShortcuts::new());
    assert_eq!(
        events,
        vec![
            EditorEvent::FileExternalChange { file: "a.caf".to_string() },
            EditorEvent::SaveStatus { file: "a.caf".to_string(), unsaved: false },
        ]
    );
    assert!(!editor.any_unsaved());
    assert_eq!(editor.get_file("a.caf").unwrap().data, doc("{a:1}"));
}

#[test]
fn saving_writes_what_changed() {
    let mut editor = CobEditor::new(true);
    editor.add_processed(hash("{a:1}"), "a.caf", &doc("{a:1}"), &NameShortcuts::new());
    editor.add_processed(hash("{b:1}"), "b.caf", &doc("{b:1}"), &NameShortcuts::new());
    editor.files[0].data = doc("{a: 2}");
    editor.mark_unsaved("b.caf".to_string());
    editor.mark_unsaved("a.caf".to_string());
    editor.mark_unsaved("gone.caf".to_string());

    let (events, jobs) = editor.save();
    assert_eq!(
        events,
        vec![
            EditorEvent::SaveStatus { file: "b.caf".to_string(), unsaved: false },
            EditorEvent::SaveStatus { file: "a.caf".to_string(), unsaved: false },
            EditorEvent::SaveStatus { file: "gone.caf".to_string(), unsaved: false },
        ]
    );
    assert_eq!(
        jobs,
        vec![SaveJob {
            file: "a.caf".to_string(),
            bytes: b"{a: 2}".to_vec(),
            old_hash: hash("{a:1}"),
            new_hash: hash("{a: 2}"),
        }]
    );
    assert!(!editor.any_unsaved());
    assert_eq!(editor.get_file("a.caf").unwrap().last_save_hash, hash("{a: 2}"));
    assert_eq!(editor.get_file("b.caf").unwrap().last_save_hash, hash("{b:1}"));

    let (events, jobs) = editor.save();
    assert!(events.is_empty() && jobs.is_empty());
}

#[test]
fn saving_without_a_directory_writes_nothing() {
    let mut editor = CobEditor::new(false);
    editor.add_processed(hash("{a:1}"), "a.caf", &doc("{a:1}"), &NameShortcuts::new());
    editor.files[0].data = doc("{a:2}");
    editor.mark_unsaved("a.caf".to_string());
    let (events, jobs) = editor.save();
    assert!(events.is_empty() && jobs.is_empty());
    assert!(!editor.any_unsaved());
    assert_eq!(editor.get_file("a.caf").unwrap().last_save_hash, hash("{a:1}"));
}

#[test]
fn files_of_another_asset_source_are_not_editable() {
    let file = |name: &str| CobFileData {
        file: name.to_string(),
        last_save_hash: hash(""),
        data: Caf::default(),
        using: NameShortcuts::new(),
    };
    assert!(file("ui/main.caf").is_editable());
    assert!(file("").is_editable());
    assert!(file(":/").is_editable());
    assert!(file("a:/b//c").is_editable());
    assert!(!file("embedded://ui/main.caf").is_editable());
    assert!(!file("://").is_editable());
    assert!(!file("x://").is_editable());
}

#[test]
fn the_temporary_cursor_goes_before_the_primary() {
    let arrow = LoadableCursor::System(3);
    let hand = LoadableCursor::Custom { image: "hand.png".to_string(), hotspot: Hotspot { x: 1, y: 2 } };
    let mut source = CursorSource::new();
    assert_eq!(source.get_next_cursor(), None);
    source.primary = Some(arrow.clone());
    assert_eq!(source.get_next_cursor(), Some(arrow.clone()));
    source.get_temp_cursor(&vec![LoadableCursor::Ignored, hand.clone(), arrow.clone()]);
    assert_eq!(source.temporary, Some(hand.clone()));
    assert_eq!(source.get_next_cursor(), Some(hand.clone()));
    assert_eq!(source.temporary, None);
    assert_eq!(source.get_next_cursor(), Some(arrow.clone()));
    source.temporary = Some(hand.clone());
    source.get_temp_cursor(&vec![LoadableCursor::Ignored, LoadableCursor::default()]);
    assert_eq!(source.temporary, Some(hand));
    source.get_temp_cursor(&vec![]);
    assert_eq!(source.primary, Some(arrow));
}

#[test]
fn what_a_cursor_asks_for() {
    let spot = Hotspot { x: 4, y: 5 };
    assert_eq!(LoadableCursor::Ignored.into_cursor_icon(true), None);
    assert_eq!(LoadableCursor::System(7).into_cursor_icon(false), Some(CursorRequest::System(7)));
    assert_eq!(
        LoadableCursor::Custom { image: "a.png".to_string(), hotspot: spot }.into_cursor_icon(false),
        Some(CursorRequest::Image { image: "a.png".to_string(), hotspot: spot })
    );
    let url = LoadableCursor::Url { url: "https://x/y.png".to_string(), hotspot: spot };
    assert_eq!(url.duplicate(), url);
    assert_eq!(url.clone().into_cursor_icon(false), None);
    assert_eq!(
        url.into_cursor_icon(true),
        Some(CursorRequest::Url { url: "https://x/y.png".to_string(), hotspot: spot })
    );
}

#[test]
fn schemes() {
    assert_eq!(Scheme::default(), Scheme::Dark(Contrast::Standard));
    assert_eq!(Contrast::default(), Contrast::Standard);
    assert!(Scheme::Light(Contrast::High).is_light());
    assert!(!Scheme::Light(Contrast::Medium).is_dark());
    assert!(Scheme::Dark(Contrast::Medium).is_dark());
    assert!(!Scheme::default().is_light());
}
