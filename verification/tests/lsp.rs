use tinywrite::editor::{Document, EditorState, Insert, Language};
use tinywrite::pathutil::{get_home, test_dir_under};
use tinywrite::position::{pos_to_lsp_pos, Position};
use tinywrite::registry::{
    copilot_language_server_id, launch_command, LanguageServerId, LspRegistry, RegistryError,
    ServerConfig, SyncKind, TextDocumentSyncCap,
};
use tinywrite::server::{LifecycleError, LifecycleState, ServerLifecycle};
use tinywrite::service::{
    completion_request, delete_document, get_offset_encoding, insert_document, open_document,
    position_request, register_for_document, update_document, CompletionTriggerKind, LspError,
    RegistrationOutcome,
};
use tinywrite::text::OffsetEncoding;

fn home() -> String {
    get_home().unwrap_or(String::from("/root"))
}

fn test_dir() -> String {
    test_dir_under(&home())
}

fn incremental_config() -> ServerConfig {
    ServerConfig {
        text_document_sync: Some(TextDocumentSyncCap::Kind(SyncKind::Incremental)),
        position_encoding: Some(String::from("utf-16")),
        completion_trigger_characters: Some(vec![String::from("."), String::from(":")]),
    }
}

fn full_config() -> ServerConfig {
    ServerConfig {
        text_document_sync: Some(TextDocumentSyncCap::Options(Some(SyncKind::Full))),
        position_encoding: None,
        completion_trigger_characters: None,
    }
}

#[test]
fn registry_test_lsp_registry() {
    let path = format!("{}/src/index.ts", test_dir());
    let language = Language(String::from("typescript"));

    let doc = Document {
        path,
        worktree_path: Some(test_dir()),
        language: Some(language.clone()),
        text: ropey::Rope::new(),
        last_modified: 0,
        version: 0,
    };

    let mut lsp_registry = LspRegistry::new();
    lsp_registry
        .register_language_server(&doc.get_language_server_id().unwrap())
        .unwrap();

    assert!(lsp_registry
        .get_language_server(&LanguageServerId(test_dir(), language))
        .is_some());
}

#[test]
fn test_pos_to_lsp_pos() {
    let mut doc = ropey::Rope::new();
    let lsp_pos = pos_to_lsp_pos(&doc, 0, OffsetEncoding::Utf16);
    assert_eq!(lsp_pos, Position { line: 0, character: 0 });

    doc.insert(0, "1");
    let lsp_pos = pos_to_lsp_pos(&doc, 0, OffsetEncoding::Utf16);
    assert_eq!(lsp_pos, Position { line: 0, character: 0 });

    doc.insert(1, "2");
    let lsp_pos = pos_to_lsp_pos(&doc, 1, OffsetEncoding::Utf16);
    assert_eq!(lsp_pos, Position { line: 0, character: 1 });

    doc.insert(2, "\n");
    let lsp_pos = pos_to_lsp_pos(&doc, 2, OffsetEncoding::Utf16);
    assert_eq!(lsp_pos, Position { line: 0, character: 2 });

    doc.remove(2..3);
    let lsp_pos = pos_to_lsp_pos(&doc, 1, OffsetEncoding::Utf16);
    assert_eq!(lsp_pos, Position { line: 0, character: 1 });
}

#[test]
fn pos_conversion_all_encodings() {
    // 'é' (1 UTF-16 unit, 2 UTF-8 bytes), '🧜' (2 units, 4 bytes), '\n', 'x'.
    let doc = ropey::Rope::from_str("\u{E9}\u{1F9DC}\nx");

    // Offset 3 is the newline character.
    assert_eq!(pos_to_lsp_pos(&doc, 3, OffsetEncoding::Utf8), Position { line: 0, character: 6 });
    assert_eq!(pos_to_lsp_pos(&doc, 3, OffsetEncoding::Utf16), Position { line: 0, character: 3 });
    assert_eq!(pos_to_lsp_pos(&doc, 3, OffsetEncoding::Utf32), Position { line: 0, character: 2 });

    // Offset 4 is 'x' on the second line.
    assert_eq!(pos_to_lsp_pos(&doc, 4, OffsetEncoding::Utf8), Position { line: 1, character: 0 });
    assert_eq!(pos_to_lsp_pos(&doc, 4, OffsetEncoding::Utf16), Position { line: 1, character: 0 });
    assert_eq!(pos_to_lsp_pos(&doc, 5, OffsetEncoding::Utf8), Position { line: 1, character: 1 });
}

#[test]
fn full_sync_sends_whole_buffer() {
    let mut registry = LspRegistry::new();
    let id = LanguageServerId(String::from("/w"), Language(String::from("rust")));
    registry.register_language_server(&id).unwrap();
    registry.insert_language_server_config(&id, full_config());

    let mut st = EditorState::new();
    st.open_document("buffer://full", "", 0, None, 0);
    st.insert_text("buffer://full", &Insert { from_a: 0, to_b: 5, text: String::from("whole") }, 1)
        .unwrap();
    let doc = st.get_document("buffer://full").unwrap();

    let n = insert_document(
        &registry,
        &id,
        &doc,
        &Insert { from_a: 0, to_b: 5, text: String::from("whole") },
    )
    .unwrap();
    assert_eq!(n.version, 1);
    assert_eq!(n.content_changes.len(), 1);
    assert!(n.content_changes[0].range.is_none());
    assert_eq!(n.content_changes[0].text, String::from("whole"));
}

#[test]
fn incremental_sync_sends_exact_range() {
    let mut registry = LspRegistry::new();
    let id = LanguageServerId(String::from("/w"), Language(String::from("rust")));
    registry.register_language_server(&id).unwrap();
    registry.insert_language_server_config(&id, incremental_config());

    let mut st = EditorState::new();
    st.open_document("buffer://inc", "", 0, None, 0);
    st.replace_text(
        "buffer://inc",
        &tinywrite::editor::UpdateDocument { text: String::from("helloxworld"), language: None },
        1,
    )
    .unwrap();
    let doc = st.get_document("buffer://inc").unwrap();

    let n = insert_document(
        &registry,
        &id,
        &doc,
        &Insert { from_a: 5, to_b: 6, text: String::from("x") },
    )
    .unwrap();
    assert_eq!(n.content_changes.len(), 1);
    let range = n.content_changes[0].range.unwrap();
    assert_eq!(range.start, Position { line: 0, character: 5 });
    assert_eq!(range.end, Position { line: 0, character: 6 });
    assert_eq!(n.content_changes[0].text, String::from("x"));

    let d = delete_document(
        &registry,
        &id,
        &doc,
        &tinywrite::editor::Delete { from_a: 5, to_a: 6 },
    )
    .unwrap();
    let range = d.content_changes[0].range.unwrap();
    assert_eq!(range.start, Position { line: 0, character: 5 });
    assert_eq!(range.end, Position { line: 0, character: 6 });
    assert_eq!(d.content_changes[0].text, String::from(""));
}

#[test]
fn no_sync_capability_sends_nothing() {
    let mut registry = LspRegistry::new();
    let id = LanguageServerId(String::from("/w"), Language(String::from("rust")));
    registry.register_language_server(&id).unwrap();
    registry.insert_language_server_config(
        &id,
        ServerConfig {
            text_document_sync: None,
            position_encoding: None,
            completion_trigger_characters: None,
        },
    );

    let mut st = EditorState::new();
    st.open_document("buffer://quiet", "", 0, None, 0);
    let doc = st.get_document("buffer://quiet").unwrap();

    let n = insert_document(
        &registry,
        &id,
        &doc,
        &Insert { from_a: 0, to_b: 0, text: String::from("") },
    )
    .unwrap();
    assert!(n.content_changes.is_empty());
}

// Scenario: a worktree with version control, an edit inserting "x" at offset
// 5 of src/index.ts; the document's version becomes 1 and the change
// notification carries the range at offset 5 with text "x".
#[test]
fn edit_scenario_emits_versioned_change() {
    let worktree = format!("{}/proj", home());
    let path = format!("{}/src/index.ts", worktree);

    let mut st = EditorState::new();
    let created = st.open_document(&path, "hello", 10, Some(worktree.clone()), 10);
    assert!(created);
    assert_eq!(st.get_document(&path).unwrap().version, 0);

    st.insert_text(&path, &Insert { from_a: 5, to_b: 6, text: String::from("x") }, 20).unwrap();
    let doc = st.get_document(&path).unwrap();
    assert_eq!(doc.version, 1);
    assert_eq!(doc.text_string(), String::from("hellox"));

    let id = doc.get_language_server_id().unwrap();
    assert_eq!(id, LanguageServerId(worktree, Language(String::from("typescript"))));

    let mut registry = LspRegistry::new();
    registry.register_language_server(&id).unwrap();
    registry.insert_language_server_config(&id, incremental_config());

    let n = insert_document(
        &registry,
        &id,
        &doc,
        &Insert { from_a: 5, to_b: 6, text: String::from("x") },
    )
    .unwrap();
    assert_eq!(n.version, 1);
    assert_eq!(n.path, doc.path);
    let range = n.content_changes[0].range.unwrap();
    assert_eq!(range.start.character, 5);
    assert_eq!(n.content_changes[0].text, String::from("x"));
}

// Scenario: two documents under the same worktree with language "rust" share
// one server; removing it shuts it down and a later access spawns a fresh
// one.
#[test]
fn shared_worktree_single_server() {
    let worktree = format!("{}/proj", home());
    let a = Document {
        path: format!("{}/src/a.rs", worktree),
        worktree_path: Some(worktree.clone()),
        language: Some(Language(String::from("rust"))),
        text: ropey::Rope::new(),
        last_modified: 0,
        version: 0,
    };
    let b = Document {
        path: format!("{}/src/b.rs", worktree),
        worktree_path: Some(worktree.clone()),
        language: Some(Language(String::from("rust"))),
        text: ropey::Rope::new(),
        last_modified: 0,
        version: 0,
    };

    let mut registry = LspRegistry::new();
    let first = match register_for_document(&mut registry, &a).unwrap() {
        RegistrationOutcome::Created(h) => h,
        _ => panic!("first registration must create"),
    };
    assert_eq!(first.command, String::from("rust-analyzer"));

    let second = match register_for_document(&mut registry, &b).unwrap() {
        RegistrationOutcome::Existing(h) => h,
        _ => panic!("second registration must reuse"),
    };
    assert_eq!(second.id, first.id);

    let id = a.get_language_server_id().unwrap();
    let removed = registry.remove_language_server(&id).unwrap();
    assert_eq!(removed.id, first.id);
    assert!(registry.get_language_server(&id).is_none());

    let fresh = match register_for_document(&mut registry, &a).unwrap() {
        RegistrationOutcome::Created(h) => h,
        _ => panic!("after removal a registration must create"),
    };
    assert_ne!(fresh.id, first.id);
}

// Scenario: an unsupported language tag is refused, and editing the document
// still succeeds without any server interaction.
#[test]
fn unsupported_language_is_refused() {
    assert!(launch_command(&Language(String::from("python"))).is_none());

    let mut registry = LspRegistry::new();
    let id = LanguageServerId(String::from("/w"), Language(String::from("python")));
    assert_eq!(
        registry.register_language_server(&id).err(),
        Some(RegistryError::UnsupportedLanguage)
    );
    assert!(registry.get_language_server(&id).is_none());

    let mut st = EditorState::new();
    st.open_document("buffer://py", "", 0, None, 0);
    st.insert_text("buffer://py", &Insert { from_a: 0, to_b: 2, text: String::from("ok") }, 1)
        .unwrap();
    assert_eq!(st.get_document("buffer://py").unwrap().text_string(), String::from("ok"));
    assert_eq!(st.get_document("buffer://py").unwrap().version, 1);
}

#[test]
fn registration_no_language_is_noop() {
    let doc = Document {
        path: String::from("buffer://plain"),
        worktree_path: None,
        language: None,
        text: ropey::Rope::new(),
        last_modified: 0,
        version: 0,
    };
    let mut registry = LspRegistry::new();
    assert!(matches!(
        register_for_document(&mut registry, &doc).unwrap(),
        RegistrationOutcome::NoLanguage
    ));
}

#[test]
fn feature_request_error_taxonomy() {
    let mut st = EditorState::new();
    let registry = LspRegistry::new();

    assert_eq!(
        position_request(&registry, &st, "/missing.rs", 0).err(),
        Some(LspError::DocumentNotFound)
    );

    st.open_document("buffer://nolang", "", 0, None, 0);
    assert_eq!(
        position_request(&registry, &st, "buffer://nolang", 0).err(),
        Some(LspError::NoLanguageServer)
    );

    let mut st2 = EditorState::new();
    st2.open_document("/w/main.rs", "fn main() {}", 0, Some(String::from("/w")), 0);
    assert_eq!(
        position_request(&registry, &st2, "/w/main.rs", 0).err(),
        Some(LspError::NoLanguageServer)
    );

    let mut registry2 = LspRegistry::new();
    let id = LanguageServerId(String::from("/w"), Language(String::from("rust")));
    registry2.register_language_server(&id).unwrap();
    assert_eq!(
        position_request(&registry2, &st2, "/w/main.rs", 0).err(),
        Some(LspError::NoServerConfig)
    );

    registry2.insert_language_server_config(&id, incremental_config());
    let req = position_request(&registry2, &st2, "/w/main.rs", 3).unwrap();
    assert_eq!(req.position, Position { line: 0, character: 3 });
    assert_eq!(req.path, String::from("/w/main.rs"));
}

#[test]
fn completion_trigger_selection() {
    let mut st = EditorState::new();
    st.open_document("/w/main.rs", "abc", 0, Some(String::from("/w")), 0);
    let mut registry = LspRegistry::new();
    let id = LanguageServerId(String::from("/w"), Language(String::from("rust")));
    registry.register_language_server(&id).unwrap();
    registry.insert_language_server_config(&id, incremental_config());

    let fired = completion_request(&registry, &st, "/w/main.rs", 3, "foo.").unwrap();
    assert_eq!(fired.context.trigger_kind, CompletionTriggerKind::TriggerCharacter);
    assert_eq!(fired.context.trigger_character, Some(String::from(".")));

    let invoked = completion_request(&registry, &st, "/w/main.rs", 3, "foo").unwrap();
    assert_eq!(invoked.context.trigger_kind, CompletionTriggerKind::Invoked);
    assert_eq!(invoked.context.trigger_character, None);
}

#[test]
fn offset_encoding_selection() {
    let cfg = |enc: Option<&str>| ServerConfig {
        text_document_sync: None,
        position_encoding: enc.map(String::from),
        completion_trigger_characters: None,
    };
    assert_eq!(get_offset_encoding(&cfg(Some("utf-8"))), OffsetEncoding::Utf8);
    assert_eq!(get_offset_encoding(&cfg(Some("utf-16"))), OffsetEncoding::Utf16);
    assert_eq!(get_offset_encoding(&cfg(Some("utf-32"))), OffsetEncoding::Utf32);
    assert_eq!(get_offset_encoding(&cfg(Some("latin-1"))), OffsetEncoding::Utf16);
    assert_eq!(get_offset_encoding(&cfg(None)), OffsetEncoding::Utf16);
}

#[test]
fn update_and_open_notifications() {
    let mut registry = LspRegistry::new();
    let id = LanguageServerId(String::from("/w"), Language(String::from("typescript")));
    let (handle, created) = registry.register_language_server(&id).unwrap();
    assert!(created);

    let mut st = EditorState::new();
    st.open_document("/w/a.ts", "content", 0, Some(String::from("/w")), 0);
    let doc = st.get_document("/w/a.ts").unwrap();

    let opened = open_document(&handle, &doc);
    assert_eq!(opened.language_id, String::from("typescript"));
    assert_eq!(opened.text, String::from("content"));
    assert_eq!(opened.version, 0);

    let n = update_document(&registry, &id, &doc).unwrap();
    assert_eq!(n.content_changes.len(), 1);
    assert!(n.content_changes[0].range.is_none());
    assert_eq!(n.content_changes[0].text, String::from("content"));
}

#[test]
fn server_lifecycle_gates_requests() {
    let mut lc = ServerLifecycle::new();
    assert_eq!(lc.state, LifecycleState::Spawned);
    assert_eq!(lc.check_request().err(), Some(LifecycleError::NotInitialized));

    lc.begin_initialize().unwrap();
    assert_eq!(lc.check_request().err(), Some(LifecycleError::NotInitialized));
    assert_eq!(lc.begin_initialize().err(), Some(LifecycleError::InvalidTransition));

    lc.complete_initialize().unwrap();
    assert!(lc.check_request().is_ok());

    lc.begin_shutdown();
    assert_eq!(lc.check_request().err(), Some(LifecycleError::ServerShutdown));

    lc.complete_exit().unwrap();
    assert_eq!(lc.state, LifecycleState::Exited);
    assert_eq!(lc.check_request().err(), Some(LifecycleError::ServerShutdown));
}

#[test]
fn event_queue_preserves_order() {
    let mut q = tinywrite::events::EventQueue::new();
    assert_eq!(q.next(), None);
    q.publish("/a");
    q.publish("/b");
    q.publish("/a");
    assert_eq!(q.next(), Some(String::from("/a")));
    assert_eq!(q.next(), Some(String::from("/b")));
    assert_eq!(q.next(), Some(String::from("/a")));
    assert_eq!(q.next(), None);
}

#[test]
fn copilot_id_and_shutdown_all() {
    let id = copilot_language_server_id(&Some(String::from("/w")));
    assert_eq!(id, LanguageServerId(String::from("/w"), Language(String::from("copilot"))));
    let fallback = copilot_language_server_id(&None);
    assert_eq!(fallback.0, String::from("/"));

    let mut registry = LspRegistry::new();
    registry.register_language_server(&id).unwrap();
    registry
        .register_language_server(&LanguageServerId(
            String::from("/w"),
            Language(String::from("rust")),
        ))
        .unwrap();
    let handles = registry.shutdown();
    assert_eq!(handles.len(), 2);
    assert!(registry.get_language_server(&id).is_none());
}
