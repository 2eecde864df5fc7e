use registers::clipboard::{contents_are_saved, read_from_clipboard, save_to_clipboard};
use registers::{
    Clipboard, ClipboardError, ClipboardType, Editor, Register, RegisterError, Registers,
};

fn editor_with(line_ending: &str) -> Editor {
    Editor {
        selections: Vec::new(),
        path: None,
        line_ending: line_ending.to_string(),
        clipboard: Clipboard::new(),
    }
}

fn strings(values: &[&str]) -> Vec<String> {
    values.iter().map(|value| value.to_string()).collect()
}

#[test]
fn clipboard_round_trip() {
    let mut registers = Registers::default();
    let mut editor = editor_with("\n");
    assert_eq!(registers.write('*', &mut editor, strings(&["a", "b"])), Ok(()));
    assert_eq!(editor.clipboard.get_contents(ClipboardType::Clipboard), Ok("a\nb".to_string()));
    assert!(editor.clipboard.written(ClipboardType::Clipboard));
    assert_eq!(registers.read('*', &editor), Some(strings(&["a", "b"])));
    editor.clipboard.load(ClipboardType::Clipboard, Some("zzz".to_string()));
    assert_eq!(registers.read('*', &editor), Some(strings(&["zzz"])));
}

#[test]
fn the_two_channels_are_apart() {
    let mut registers = Registers::default();
    let mut editor = editor_with("\n");
    registers.write('*', &mut editor, strings(&["system"])).unwrap();
    registers.write('+', &mut editor, strings(&["primary", "second"])).unwrap();
    assert_eq!(editor.clipboard.get_contents(ClipboardType::Clipboard), Ok("system".to_string()));
    assert_eq!(
        editor.clipboard.get_contents(ClipboardType::Selection),
        Ok("primary\nsecond".to_string())
    );
    assert_eq!(registers.read('*', &editor), Some(strings(&["system"])));
    assert_eq!(registers.read('+', &editor), Some(strings(&["primary", "second"])));
    editor.clipboard.load(ClipboardType::Selection, Some("other".to_string()));
    assert_eq!(registers.read('*', &editor), Some(strings(&["system"])));
    assert_eq!(registers.read('+', &editor), Some(strings(&["other"])));
}

#[test]
fn clipboard_push_joins_all_that_is_saved() {
    let mut registers = Registers::default();
    let mut editor = editor_with("\r\n");
    registers.write('+', &mut editor, strings(&["a", "b"])).unwrap();
    assert_eq!(registers.push('+', &mut editor, "c".to_string()), Ok(()));
    assert_eq!(
        editor.clipboard.get_contents(ClipboardType::Selection),
        Ok("a\r\nb\r\nc".to_string())
    );
    assert_eq!(registers.read('+', &editor), Some(strings(&["a", "b", "c"])));
    assert_eq!(registers.first('+', &editor), Some("a".to_string()));
    assert_eq!(registers.last('+', &editor), Some("c".to_string()));
}

#[test]
fn clipboard_text_with_more_behind_it_still_matches() {
    let mut registers = Registers::default();
    let mut editor = editor_with("\n");
    registers.write('*', &mut editor, strings(&["a", "b"])).unwrap();
    editor.clipboard.load(ClipboardType::Clipboard, Some("a\nb and more".to_string()));
    assert_eq!(registers.read('*', &editor), Some(strings(&["a", "b"])));
    editor.clipboard.load(ClipboardType::Clipboard, Some("a\n".to_string()));
    assert_eq!(registers.read('*', &editor), Some(strings(&["a\n"])));
}

#[test]
fn a_write_of_no_values_reads_back_as_one_empty_text() {
    let mut registers = Registers::default();
    let mut editor = editor_with("\n");
    assert_eq!(registers.write('*', &mut editor, Vec::new()), Ok(()));
    assert_eq!(editor.clipboard.get_contents(ClipboardType::Clipboard), Ok(String::new()));
    assert_eq!(registers.read('*', &editor), Some(strings(&[""])));
}

#[test]
fn an_untouched_clipboard_register_yields_the_channel_text() {
    let registers = Registers::default();
    let mut editor = editor_with("\n");
    assert_eq!(registers.read('*', &editor), Some(strings(&[""])));
    editor.clipboard.load(ClipboardType::Clipboard, Some("from elsewhere\nline".to_string()));
    assert_eq!(registers.read('*', &editor), Some(strings(&["from elsewhere\nline"])));
    assert_eq!(registers.read('+', &editor), Some(strings(&[""])));
}

#[test]
fn an_unreachable_channel_reads_as_nothing() {
    let mut registers = Registers::default();
    let mut editor = editor_with("\n");
    registers.write('*', &mut editor, strings(&["a", "b"])).unwrap();
    editor.clipboard.load(ClipboardType::Clipboard, None);
    assert_eq!(registers.read('*', &editor), Some(Vec::new()));
    assert_eq!(registers.first('*', &editor), None);
    assert_eq!(
        editor.clipboard.get_contents(ClipboardType::Clipboard),
        Err(ClipboardError { clipboard_type: ClipboardType::Clipboard })
    );
}

#[test]
fn an_unreachable_channel_fails_writes_and_pushes() {
    let mut registers = Registers::default();
    let mut editor = editor_with("\n");
    editor.clipboard.load(ClipboardType::Selection, None);
    let unreachable =
        Err(RegisterError::Clipboard(ClipboardError { clipboard_type: ClipboardType::Selection }));
    assert_eq!(registers.write('+', &mut editor, strings(&["a"])), unreachable);
    assert_eq!(registers.push('+', &mut editor, "b".to_string()), unreachable);
    assert!(!editor.clipboard.written(ClipboardType::Selection));
    assert_eq!(registers.write('*', &mut editor, strings(&["fine"])), Ok(()));
    // What was saved before the channel failed is still there once the
    // channel holds it.
    editor.clipboard.load(ClipboardType::Selection, Some("a\nb".to_string()));
    assert_eq!(registers.read('+', &editor), Some(strings(&["a", "b"])));
}

#[test]
fn load_forgets_that_a_channel_was_written() {
    let mut clipboard = Clipboard::new();
    assert!(!clipboard.written(ClipboardType::Clipboard));
    assert_eq!(clipboard.set_contents("text".to_string(), ClipboardType::Clipboard), Ok(()));
    assert!(clipboard.written(ClipboardType::Clipboard));
    assert!(!clipboard.written(ClipboardType::Selection));
    assert_eq!(clipboard.get_contents(ClipboardType::Clipboard), Ok("text".to_string()));
    assert_eq!(clipboard.get_contents(ClipboardType::Selection), Ok(String::new()));
    clipboard.load(ClipboardType::Clipboard, Some("loaded".to_string()));
    assert!(!clipboard.written(ClipboardType::Clipboard));
    assert_eq!(clipboard.get_contents(ClipboardType::Clipboard), Ok("loaded".to_string()));
    clipboard.load(ClipboardType::Clipboard, None);
    assert_eq!(
        clipboard.set_contents("lost".to_string(), ClipboardType::Clipboard),
        Err(ClipboardError { clipboard_type: ClipboardType::Clipboard })
    );
    assert!(!clipboard.written(ClipboardType::Clipboard));
}

#[test]
fn contents_are_saved_on_a_prefix_match() {
    let editor = editor_with("\n");
    let saved = strings(&["hello"]);
    assert!(contents_are_saved(&saved, &editor, "hello"));
    assert!(contents_are_saved(&saved, &editor, "hello world"));
    assert!(!contents_are_saved(&saved, &editor, "goodbye"));
    assert!(!contents_are_saved(&saved, &editor, "hell"));
    assert!(!contents_are_saved(&saved, &editor, ""));
}

#[test]
fn contents_are_never_saved_by_an_empty_cache() {
    let editor = editor_with("\n");
    assert!(!contents_are_saved(&[], &editor, ""));
    assert!(!contents_are_saved(&[], &editor, "anything"));
}

#[test]
fn contents_are_saved_value_by_value() {
    let editor = editor_with("\r\n");
    let saved = strings(&["a", "bb", "", "c"]);
    assert!(contents_are_saved(&saved, &editor, "a\r\nbb\r\n\r\nc"));
    assert!(contents_are_saved(&saved, &editor, "a\r\nbb\r\n\r\ncdef"));
    assert!(!contents_are_saved(&saved, &editor, "a\r\nbb\r\n\r\n"));
    assert!(!contents_are_saved(&saved, &editor, "a\nbb\n\nc"));
    assert!(!contents_are_saved(&saved, &editor, "a\r\nbx\r\n\r\nc"));
    assert!(!contents_are_saved(&saved, &editor, "a\r\nbb"));
    assert!(!contents_are_saved(&saved, &editor, "a"));
    let empty = strings(&["", ""]);
    assert!(contents_are_saved(&empty, &editor, "\r\n"));
    assert!(!contents_are_saved(&empty, &editor, "\r"));
}

#[test]
fn contents_are_saved_beyond_ascii() {
    let editor = editor_with("\n");
    let saved = strings(&["\u{e9}t\u{e9}", "\u{65e5}\u{672c}"]);
    assert!(contents_are_saved(&saved, &editor, "\u{e9}t\u{e9}\n\u{65e5}\u{672c}"));
    assert!(contents_are_saved(&saved, &editor, "\u{e9}t\u{e9}\n\u{65e5}\u{672c}\u{8a9e}"));
    assert!(!contents_are_saved(&saved, &editor, "\u{e9}t\u{e9}\n\u{65e5}"));
    assert!(!contents_are_saved(&saved, &editor, "ete\n\u{65e5}\u{672c}"));
    assert!(!contents_are_saved(&strings(&["\u{e9}"]), &editor, "\u{e8}"));
}

#[test]
fn save_to_clipboard_joins_by_the_line_ending() {
    let mut editor = editor_with("\r\n");
    let values = strings(&["one", "two", "three"]);
    assert_eq!(save_to_clipboard(&values, &mut editor, ClipboardType::Selection), Ok(()));
    assert_eq!(
        editor.clipboard.get_contents(ClipboardType::Selection),
        Ok("one\r\ntwo\r\nthree".to_string())
    );
    assert_eq!(editor.clipboard.get_contents(ClipboardType::Clipboard), Ok(String::new()));
    assert_eq!(editor.line_ending, "\r\n");
    editor.clipboard.load(ClipboardType::Clipboard, None);
    assert_eq!(
        save_to_clipboard(&values, &mut editor, ClipboardType::Clipboard),
        Err(RegisterError::Clipboard(ClipboardError { clipboard_type: ClipboardType::Clipboard }))
    );
}

#[test]
fn read_from_clipboard_tells_saved_from_foreign_text() {
    let mut editor = editor_with("\n");
    let saved = strings(&["x", "y"]);
    editor.clipboard.load(ClipboardType::Clipboard, Some("x\ny".to_string()));
    assert_eq!(read_from_clipboard(&saved, &editor, ClipboardType::Clipboard), strings(&["x", "y"]));
    editor.clipboard.load(ClipboardType::Clipboard, Some("x y".to_string()));
    assert_eq!(read_from_clipboard(&saved, &editor, ClipboardType::Clipboard), strings(&["x y"]));
    editor.clipboard.load(ClipboardType::Clipboard, None);
    assert_eq!(read_from_clipboard(&saved, &editor, ClipboardType::Clipboard), Vec::<String>::new());
    assert_eq!(read_from_clipboard(&saved, &editor, ClipboardType::Selection), strings(&[""]));
}

#[test]
fn clipboard_registers_keep_their_names() {
    let registers = Registers::default();
    assert_eq!(registers.get('*').unwrap().name(), '*');
    assert_eq!(registers.get('+').unwrap().name(), '+');
}
