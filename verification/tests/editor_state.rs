use tinywrite::editor::{
    detect_language, is_buffer, Delete, Document, EditorError, EditorState, Insert, Language,
    UpdateDocument,
};
use tinywrite::pathutil::{get_home, test_dir_under};

fn home() -> String {
    get_home().unwrap_or(String::from("/root"))
}

fn test_dir() -> String {
    test_dir_under(&home())
}

#[test]
fn test_document() {
    let path = format!("{}/src/index.ts", test_dir());

    let doc = Document {
        path: path.clone(),
        worktree_path: Some(test_dir()),
        language: Some(Language(String::from("javascript"))),
        text: ropey::Rope::new(),
        last_modified: 0,
        version: 0,
    };

    assert_eq!(
        String::from("./src/index.ts"),
        doc.get_relative_path("/somewhere-else", &Some(home()))
    );
}

#[test]
fn editor_state_test_get_document_err() {
    let path = test_dir();

    let editor_state = EditorState::new();
    let doc = editor_state.get_document(&path);

    assert!(doc.is_err());
    assert_eq!(doc.err(), Some(EditorError::DocumentNotFound));
}

#[test]
fn test_buffer() {
    let mut editor_state = EditorState::new();
    let path = "buffer://123";
    assert!(is_buffer(path));

    let created = editor_state.open_document(path, "ignored-on-buffers", 0, None, 1);
    assert!(created);

    let doc = editor_state.get_document(path).unwrap();
    assert_eq!(doc.path, String::from(path));
    assert_eq!(doc.text_string(), String::from(""));
    assert_eq!(doc.language, None);
    assert_eq!(doc.version, 0);

    let language = Language(String::from("typescript"));

    editor_state
        .replace_text(
            path,
            &UpdateDocument { text: String::from("test"), language: Some(language.clone()) },
            2,
        )
        .unwrap();

    let doc = editor_state.get_document(path).unwrap();
    assert_eq!(doc.text_string(), String::from("test"));
    assert_eq!(doc.language, Some(language));
    assert_eq!(doc.version, 1);
}

#[test]
fn editor_state_test_editor_state() {
    let path = format!("{}/README.md", test_dir());

    let mut editor_state = EditorState::new();

    let created = editor_state.open_document(&path, "", 100, Some(test_dir()), 100);
    assert!(created);
    let v0_doc = editor_state.get_document(&path).unwrap();
    assert_eq!(v0_doc.path, path);
    assert_eq!(v0_doc.text_string(), String::from(""));
    assert_eq!(v0_doc.version, 0);

    editor_state
        .insert_text(&path, &Insert { from_a: 0, to_b: 5, text: String::from("test") }, 150)
        .unwrap();

    let v1_doc = editor_state.get_document(&path).unwrap();
    assert_ne!(v1_doc.last_modified, v0_doc.last_modified);
    assert_eq!(v1_doc.version, 1);

    // Re-opening without a newer on-disk copy changes nothing.
    let created = editor_state.open_document(&path, "stale", 100, Some(test_dir()), 160);
    assert!(!created);
    let get_again_doc = editor_state.get_document(&path).unwrap();
    assert_eq!(get_again_doc.text_string(), v1_doc.text_string());
    assert_eq!(get_again_doc.last_modified, v1_doc.last_modified);

    // A newer on-disk copy refreshes the buffer and bumps the version.
    let created = editor_state.open_document(&path, "updated", 300, Some(test_dir()), 310);
    assert!(!created);
    let get_after_write = editor_state.get_document(&path).unwrap();
    assert_ne!(get_after_write.text_string(), v1_doc.text_string());
    assert_eq!(get_after_write.text_string(), String::from("updated"));
    assert_ne!(get_after_write.last_modified, v1_doc.last_modified);
    assert_eq!(get_after_write.version, 2);
}

#[test]
fn test_editor_state_2() {
    let path = format!("{}/README.md", test_dir());

    let mut editor_state = EditorState::new();
    editor_state.open_document(&path, "", 0, Some(test_dir()), 0);
    let doc = editor_state.get_document(&path).unwrap();

    assert_eq!(doc.text_string(), String::from(""));

    editor_state
        .insert_text(&path, &Insert { from_a: 0, to_b: 5, text: String::from("\u{1F9DC}\u{200D}\u{2642}\u{FE0F}") }, 1)
        .unwrap();

    editor_state
        .insert_text(&path, &Insert { from_a: 5, to_b: 6, text: String::from("1") }, 2)
        .unwrap();

    let doc = editor_state.get_document(&path).unwrap();
    assert_eq!(doc.text_string(), String::from("\u{1F9DC}\u{200D}\u{2642}\u{FE0F}1"));
    assert_eq!(doc.version, 2);
}

#[test]
fn version_strictly_increases_per_mutation() {
    let mut st = EditorState::new();
    st.open_document("buffer://v", "", 0, None, 0);
    assert_eq!(st.get_document("buffer://v").unwrap().version, 0);

    st.insert_text("buffer://v", &Insert { from_a: 0, to_b: 2, text: String::from("ab") }, 1)
        .unwrap();
    assert_eq!(st.get_document("buffer://v").unwrap().version, 1);
    assert_eq!(st.get_document("buffer://v").unwrap().text_string(), String::from("ab"));

    st.insert_text("buffer://v", &Insert { from_a: 1, to_b: 2, text: String::from("x") }, 2)
        .unwrap();
    assert_eq!(st.get_document("buffer://v").unwrap().version, 2);
    assert_eq!(st.get_document("buffer://v").unwrap().text_string(), String::from("axb"));

    st.delete_text("buffer://v", &Delete { from_a: 0, to_a: 2 }, 3).unwrap();
    assert_eq!(st.get_document("buffer://v").unwrap().version, 3);
    assert_eq!(st.get_document("buffer://v").unwrap().text_string(), String::from("b"));

    st.replace_text(
        "buffer://v",
        &UpdateDocument { text: String::from("done"), language: None },
        4,
    )
    .unwrap();
    assert_eq!(st.get_document("buffer://v").unwrap().version, 4);
    assert_eq!(st.get_document("buffer://v").unwrap().text_string(), String::from("done"));
}

#[test]
fn detect_language_from_extension() {
    assert_eq!(detect_language("a.ts"), Some(Language(String::from("typescript"))));
    assert_eq!(detect_language("dir/app.tsx"), Some(Language(String::from("typescript"))));
    assert_eq!(detect_language("src/main.rs"), Some(Language(String::from("rust"))));
    assert_eq!(detect_language("script.py"), None);
    assert_eq!(detect_language(".rs"), None);
    assert_eq!(detect_language("dir/.rs"), None);
    assert_eq!(detect_language("noext"), None);
}

#[test]
fn document_text_matches_buffer() {
    let mut st = EditorState::new();
    st.open_document("buffer://w", "", 0, None, 0);
    st.replace_text(
        "buffer://w",
        &UpdateDocument { text: String::from("save me"), language: None },
        1,
    )
    .unwrap();
    assert_eq!(st.document_text("buffer://w").unwrap(), String::from("save me"));
    assert!(st.document_text("buffer://other").is_err());
}
