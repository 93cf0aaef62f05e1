//! The translation layer: turns editor operations into the protocol
//! notifications and requests a language server expects, under the sync kind
//! and offset encoding the server negotiated. The functions here only build
//! the messages as plain values; sending them over the process's channel is
//! the caller's job.

use vstd::prelude::*;

use crate::editor::{Delete, Document, DocumentView, EditorState, Insert};
use crate::position::{lsp_col, lsp_line, pos_to_lsp_pos, Position};
use crate::registry::{
    launch_command_of, lsid_of, register_transition, LanguageServerId, LspRegistry, RegistryError,
    ServerConfig, ServerConfigView, ServerHandle, SyncKind, TextDocumentSyncCap,
};
use crate::strutil::{str_ends_with, str_eq};
use crate::text::{utf16_len, OffsetEncoding};

verus! {

/// Why a translation step failed. Every variant is recoverable: the feature
/// yields "unavailable" and nothing else is torn down.
#[derive(Clone, Copy, Debug, PartialEq, Eq, Structural)]
pub enum LspError {
    /// The path has no document in the store.
    DocumentNotFound,
    /// The document has no language, or no server is registered for its id.
    NoLanguageServer,
    /// No negotiated configuration is cached for the server.
    NoServerConfig,
}

/// A protocol range: start and end position.
#[derive(Clone, Copy, Debug, PartialEq, Eq, Structural)]
pub struct Range {
    pub start: Position,
    pub end: Position,
}

/// One content change of a `didChange` notification: the whole new text when
/// `range` is absent, otherwise the replacement for exactly that range.
#[derive(Debug)]
pub struct ChangeEvent {
    pub range: Option<Range>,
    pub text: String,
}

/// The mathematical value of a change event.
pub struct ChangeEventView {
    pub range: Option<Range>,
    pub text: Seq<char>,
}

impl View for ChangeEvent {
    type V = ChangeEventView;

    open spec fn view(&self) -> ChangeEventView {
        ChangeEventView {
            range: self.range,
            text: self.text@,
        }
    }
}

/// The views of a list of change events.
pub open spec fn change_events_view(v: Vec<ChangeEvent>) -> Seq<ChangeEventView> {
    v@.map_values(|c: ChangeEvent| c@)
}

/// The sync kind a configuration declares: a bare kind, or the change field
/// of its sync options.
pub open spec fn sync_kind_of(c: ServerConfigView) -> Option<SyncKind> {
    match c.text_document_sync {
        Some(TextDocumentSyncCap::Kind(k)) => Some(k),
        Some(TextDocumentSyncCap::Options(change)) => change,
        None => None,
    }
}

/// The offset encoding a configuration declares; anything unrecognized or
/// absent falls back to UTF-16 rather than failing.
pub open spec fn encoding_of(c: ServerConfigView) -> OffsetEncoding {
    match c.position_encoding {
        Some(e) => if e == "utf-8"@ {
            OffsetEncoding::Utf8
        } else if e == "utf-32"@ {
            OffsetEncoding::Utf32
        } else {
            OffsetEncoding::Utf16
        },
        None => OffsetEncoding::Utf16,
    }
}

/// The protocol position of UTF-16 offset `cu` in `s` under encoding `e`.
pub open spec fn spec_position(s: Seq<char>, cu: nat, e: OffsetEncoding) -> Position {
    Position { line: lsp_line(s, cu) as usize, character: lsp_col(s, cu, e) as usize }
}

/// The content changes an edit produces under a configuration: the whole
/// buffer for full sync, the edited range with its replacement text for
/// incremental sync, and nothing when the server declared neither.
pub open spec fn edit_change_events(
    text: Seq<char>,
    cfg: ServerConfigView,
    from_cu: nat,
    to_cu: nat,
    replacement: Seq<char>,
) -> Seq<ChangeEventView> {
    match sync_kind_of(cfg) {
        Some(SyncKind::Full) => seq![ChangeEventView { range: None, text: text }],
        Some(SyncKind::Incremental) => seq![
            ChangeEventView {
                range: Some(
                    Range {
                        start: spec_position(text, from_cu, encoding_of(cfg)),
                        end: spec_position(text, to_cu, encoding_of(cfg)),
                    },
                ),
                text: replacement,
            },
        ],
        _ => Seq::<ChangeEventView>::empty(),
    }
}

/// Law: the sync strategy is honored. Under full sync the single change
/// event carries the entire buffer and no range; under incremental sync it
/// carries exactly the edited range and the replacement text; under neither,
/// no change event is produced.
pub proof fn lemma_sync_strategy(
    text: Seq<char>,
    cfg: ServerConfigView,
    from_cu: nat,
    to_cu: nat,
    replacement: Seq<char>,
)
    ensures
        sync_kind_of(cfg) == Some(SyncKind::Full) ==> {
            let evs = edit_change_events(text, cfg, from_cu, to_cu, replacement);
            evs.len() == 1 && evs[0].range is None && evs[0].text == text
        },
        sync_kind_of(cfg) == Some(SyncKind::Incremental) ==> {
            let evs = edit_change_events(text, cfg, from_cu, to_cu, replacement);
            &&& evs.len() == 1
            &&& evs[0].text == replacement
            &&& evs[0].range == Some(
                Range {
                    start: spec_position(text, from_cu, encoding_of(cfg)),
                    end: spec_position(text, to_cu, encoding_of(cfg)),
                },
            )
        },
        (sync_kind_of(cfg) is None || sync_kind_of(cfg) == Some(SyncKind::NoSync))
            ==> edit_change_events(text, cfg, from_cu, to_cu, replacement).len() == 0,
{
}

/// The sync kind `config` declares.
pub fn document_sync_kind(config: &ServerConfig) -> (r: Option<SyncKind>)
    ensures
        r == sync_kind_of(config@),
{
    match config.text_document_sync {
        Some(TextDocumentSyncCap::Kind(k)) => Some(k),
        Some(TextDocumentSyncCap::Options(change)) => change,
        None => None,
    }
}

/// The offset encoding `config` declares, defaulting to UTF-16 when it is
/// absent or unrecognized.
pub fn get_offset_encoding(config: &ServerConfig) -> (r: OffsetEncoding)
    ensures
        r == encoding_of(config@),
{
    match config.position_encoding {
        Some(ref e) => {
            if str_eq(e.as_str(), "utf-8") {
                OffsetEncoding::Utf8
            } else if str_eq(e.as_str(), "utf-32") {
                OffsetEncoding::Utf32
            } else {
                OffsetEncoding::Utf16
            }
        },
        None => OffsetEncoding::Utf16,
    }
}

/// A `didChange` notification, ready to send: the handle of the server it is
/// for, the document's path (the transport derives the URI from it), the
/// document's version, and the content changes.
#[derive(Debug)]
pub struct DidChangeNotification {
    pub server: ServerHandle,
    pub path: String,
    pub version: u64,
    pub content_changes: Vec<ChangeEvent>,
}

/// Builds the content changes for an edit of `doc` whose range, in the
/// current buffer, spans UTF-16 offsets `from_a..to_a` with `replacement` as
/// the new text of that range.
fn build_change_events(
    doc: &Document,
    config: &ServerConfig,
    from_a: usize,
    to_a: usize,
    replacement: &String,
) -> (v: Vec<ChangeEvent>)
    requires
        from_a <= utf16_len(doc@.text),
        to_a <= utf16_len(doc@.text),
    ensures
        change_events_view(v) == edit_change_events(
            doc@.text,
            config@,
            from_a as nat,
            to_a as nat,
            replacement@,
        ),
{
    let ghost spec_events = edit_change_events(
        doc@.text,
        config@,
        from_a as nat,
        to_a as nat,
        replacement@,
    );
    match document_sync_kind(config) {
        Some(SyncKind::Full) => {
            let mut v: Vec<ChangeEvent> = Vec::new();
            v.push(ChangeEvent { range: None, text: doc.text_string() });
            proof {
                assert(change_events_view(v) =~= spec_events);
            }
            v
        },
        Some(SyncKind::Incremental) => {
            let enc = get_offset_encoding(config);
            let from = pos_to_lsp_pos(&doc.text, from_a, enc);
            let to = pos_to_lsp_pos(&doc.text, to_a, enc);
            let mut v: Vec<ChangeEvent> = Vec::new();
            v.push(
                ChangeEvent { range: Some(Range { start: from, end: to }), text: replacement.clone() },
            );
            proof {
                assert(from == spec_position(doc@.text, from_a as nat, enc));
                assert(to == spec_position(doc@.text, to_a as nat, enc));
                assert(change_events_view(v) =~= spec_events);
            }
            v
        },
        _ => {
            let v: Vec<ChangeEvent> = Vec::new();
            proof {
                assert(change_events_view(v) =~= spec_events);
            }
            v
        },
    }
}

/// Translates an insert into the `didChange` notification the server for
/// `id` expects: `data.from_a..data.to_b` is the inserted range in the
/// already-updated buffer of `doc`, and `data.text` its text. Fails with
/// `NoServerConfig` when no configuration was negotiated for `id`, then with
/// `NoLanguageServer` when no server is registered for it.
pub fn insert_document(
    registry: &LspRegistry,
    id: &LanguageServerId,
    doc: &Document,
    data: &Insert,
) -> (r: Result<DidChangeNotification, LspError>)
    requires
        registry.wf(),
        data.from_a <= utf16_len(doc@.text),
        data.to_b <= utf16_len(doc@.text),
    ensures
        match r {
            Ok(n) => {
                &&& registry.has_config(id@)
                &&& registry.has_server(id@)
                &&& n.server@ == registry.server_at(id@)
                &&& n.path@ == doc@.path
                &&& n.version == doc@.version
                &&& change_events_view(n.content_changes) == edit_change_events(
                    doc@.text,
                    registry.config_at(id@),
                    data.from_a as nat,
                    data.to_b as nat,
                    data.text@,
                )
            },
            Err(e) => if e == LspError::NoServerConfig {
                !registry.has_config(id@)
            } else {
                e == LspError::NoLanguageServer && registry.has_config(id@) && !registry.has_server(
                    id@,
                )
            },
        },
{
    let config = match registry.get_language_server_config(id) {
        Some(c) => c,
        None => {
            return Err(LspError::NoServerConfig);
        },
    };
    let server = match registry.get_language_server(id) {
        Some(s) => s,
        None => {
            return Err(LspError::NoLanguageServer);
        },
    };
    let content_changes = build_change_events(doc, &config, data.from_a, data.to_b, &data.text);
    Ok(
        DidChangeNotification {
            server,
            path: doc.path.clone(),
            version: doc.version,
            content_changes,
        },
    )
}

/// Translates a delete into the `didChange` notification the server for
/// `id` expects: `data.from_a..data.to_a` is the removed range in the buffer
/// of `doc` before the removal, and the replacement text is empty. The error
/// order matches `insert_document`.
pub fn delete_document(
    registry: &LspRegistry,
    id: &LanguageServerId,
    doc: &Document,
    data: &Delete,
) -> (r: Result<DidChangeNotification, LspError>)
    requires
        registry.wf(),
        data.from_a <= utf16_len(doc@.text),
        data.to_a <= utf16_len(doc@.text),
    ensures
        match r {
            Ok(n) => {
                &&& registry.has_config(id@)
                &&& registry.has_server(id@)
                &&& n.server@ == registry.server_at(id@)
                &&& n.path@ == doc@.path
                &&& n.version == doc@.version
                &&& change_events_view(n.content_changes) == edit_change_events(
                    doc@.text,
                    registry.config_at(id@),
                    data.from_a as nat,
                    data.to_a as nat,
                    Seq::<char>::empty(),
                )
            },
            Err(e) => if e == LspError::NoServerConfig {
                !registry.has_config(id@)
            } else {
                e == LspError::NoLanguageServer && registry.has_config(id@) && !registry.has_server(
                    id@,
                )
            },
        },
{
    let config = match registry.get_language_server_config(id) {
        Some(c) => c,
        None => {
            return Err(LspError::NoServerConfig);
        },
    };
    let server = match registry.get_language_server(id) {
        Some(s) => s,
        None => {
            return Err(LspError::NoLanguageServer);
        },
    };
    let empty = String::new();
    let content_changes = build_change_events(doc, &config, data.from_a, data.to_a, &empty);
    Ok(
        DidChangeNotification {
            server,
            path: doc.path.clone(),
            version: doc.version,
            content_changes,
        },
    )
}

/// A full-buffer `didChange` notification for `doc`, regardless of the
/// declared sync kind (used to push the whole document before a completion).
pub fn update_document(registry: &LspRegistry, id: &LanguageServerId, doc: &Document) -> (r: Result<
    DidChangeNotification,
    LspError,
>)
    requires
        registry.wf(),
    ensures
        match r {
            Ok(n) => {
                &&& registry.has_server(id@)
                &&& n.server@ == registry.server_at(id@)
                &&& n.path@ == doc@.path
                &&& n.version == doc@.version
                &&& change_events_view(n.content_changes).len() == 1
                &&& change_events_view(n.content_changes)[0].range is None
                &&& change_events_view(n.content_changes)[0].text == doc@.text
            },
            Err(e) => e == LspError::NoLanguageServer && !registry.has_server(id@),
        },
{
    let server = match registry.get_language_server(id) {
        Some(s) => s,
        None => {
            return Err(LspError::NoLanguageServer);
        },
    };
    let mut content_changes: Vec<ChangeEvent> = Vec::new();
    content_changes.push(ChangeEvent { range: None, text: doc.text_string() });
    Ok(
        DidChangeNotification {
            server,
            path: doc.path.clone(),
            version: doc.version,
            content_changes,
        },
    )
}

/// A `didOpen` notification, ready to send: the whole buffer with its
/// language tag and version.
#[derive(Debug)]
pub struct DidOpenNotification {
    pub server: ServerHandle,
    pub path: String,
    pub language_id: String,
    pub version: u64,
    pub text: String,
}

/// The `didOpen` notification announcing `doc` to `server`.
pub fn open_document(server: &ServerHandle, doc: &Document) -> (n: DidOpenNotification)
    ensures
        n.server@ == server@,
        n.path@ == doc@.path,
        match doc@.language {
            Some(l) => n.language_id@ == l,
            None => n.language_id@ == Seq::<char>::empty(),
        },
        n.version == doc@.version,
        n.text@ == doc@.text,
{
    DidOpenNotification {
        server: server.duplicate(),
        path: doc.path.clone(),
        language_id: doc.get_language_id(),
        version: doc.version,
        text: doc.text_string(),
    }
}

/// A positional feature request (hover or goto-definition), ready to send.
#[derive(Debug)]
pub struct PositionRequest {
    pub server: ServerHandle,
    pub path: String,
    pub position: Position,
}

/// Resolves a positional feature request (hover, goto-definition) for the
/// document at `path` and the UTF-16 offset `pos`: looks the document up,
/// resolves its server and configuration, and converts the offset under the
/// negotiated encoding. Fails with `DocumentNotFound` for an unknown path,
/// `NoLanguageServer` for a document without language or registered server,
/// and `NoServerConfig` when no configuration was negotiated.
pub fn position_request(
    registry: &LspRegistry,
    editor: &EditorState,
    path: &str,
    pos: usize,
) -> (r: Result<PositionRequest, LspError>)
    requires
        registry.wf(),
        editor.wf(),
        editor.has_doc(path@) ==> pos <= utf16_len(editor.doc_at(path@).text),
    ensures
        match r {
            Ok(req) => {
                &&& editor.has_doc(path@)
                &&& editor.doc_at(path@).language is Some
                &&& registry.has_server(lsid_of(editor.doc_at(path@)))
                &&& registry.has_config(lsid_of(editor.doc_at(path@)))
                &&& req.server@ == registry.server_at(lsid_of(editor.doc_at(path@)))
                &&& req.path@ == path@
                &&& req.position == spec_position(
                    editor.doc_at(path@).text,
                    pos as nat,
                    encoding_of(registry.config_at(lsid_of(editor.doc_at(path@)))),
                )
            },
            Err(e) => if e == LspError::DocumentNotFound {
                !editor.has_doc(path@)
            } else if e == LspError::NoLanguageServer {
                editor.has_doc(path@) && (editor.doc_at(path@).language is None || !registry
                    .has_server(lsid_of(editor.doc_at(path@))))
            } else {
                &&& e == LspError::NoServerConfig
                &&& editor.has_doc(path@)
                &&& editor.doc_at(path@).language is Some
                &&& registry.has_server(lsid_of(editor.doc_at(path@)))
                &&& !registry.has_config(lsid_of(editor.doc_at(path@)))
            },
        },
{
    let doc = match editor.get_document(path) {
        Ok(d) => d,
        Err(_) => {
            return Err(LspError::DocumentNotFound);
        },
    };
    let id = match doc.get_language_server_id() {
        Some(id) => id,
        None => {
            return Err(LspError::NoLanguageServer);
        },
    };
    let server = match registry.get_language_server(&id) {
        Some(s) => s,
        None => {
            return Err(LspError::NoLanguageServer);
        },
    };
    let config = match registry.get_language_server_config(&id) {
        Some(c) => c,
        None => {
            return Err(LspError::NoServerConfig);
        },
    };
    let enc = get_offset_encoding(&config);
    let position = pos_to_lsp_pos(&doc.text, pos, enc);
    Ok(PositionRequest { server, path: doc.path, position })
}

/// How a completion request was triggered.
#[derive(Clone, Copy, Debug, PartialEq, Eq, Structural)]
pub enum CompletionTriggerKind {
    /// Explicitly invoked by the user.
    Invoked,
    /// Fired because a declared trigger character was just typed.
    TriggerCharacter,
}

/// The trigger context of a completion request.
#[derive(Debug)]
pub struct CompletionContext {
    pub trigger_kind: CompletionTriggerKind,
    pub trigger_character: Option<String>,
}

/// A completion request, ready to send.
#[derive(Debug)]
pub struct CompletionRequest {
    pub server: ServerHandle,
    pub path: String,
    pub position: Position,
    pub context: CompletionContext,
}

/// The first declared trigger character that the just-typed text ends with.
pub open spec fn first_suffix_match(list: Seq<Seq<char>>, typed: Seq<char>) -> Option<Seq<char>>
    decreases list.len(),
{
    if list.len() == 0 {
        None
    } else if list[0].is_suffix_of(typed) {
        Some(list[0])
    } else {
        first_suffix_match(list.skip(1), typed)
    }
}

/// The trigger character a configuration declares for the just-typed text.
pub open spec fn matching_trigger(cfg: ServerConfigView, typed: Seq<char>) -> Option<Seq<char>> {
    match cfg.completion_trigger_characters {
        None => None,
        Some(list) => first_suffix_match(list, typed),
    }
}

/// Finds the trigger character of `config` that `typed` ends with, if any.
fn find_trigger(config: &ServerConfig, typed: &str) -> (r: Option<String>)
    ensures
        match r {
            Some(t) => matching_trigger(config@, typed@) == Some(t@),
            None => matching_trigger(config@, typed@) is None,
        },
{
    match config.completion_trigger_characters {
        Some(ref list) => {
            let ghost lv = list@.map_values(|s: String| s@);
            proof {
                assert(lv.skip(0) =~= lv);
                assert(config@.completion_trigger_characters == Some(lv));
            }
            let n = list.len();
            let mut i: usize = 0;
            while i < n
                invariant
                    n == list@.len(),
                    lv == list@.map_values(|s: String| s@),
                    config@.completion_trigger_characters == Some(lv),
                    i <= n,
                    first_suffix_match(lv, typed@) == first_suffix_match(
                        lv.skip(i as int),
                        typed@,
                    ),
                decreases n - i,
            {
                if str_ends_with(typed, list[i].as_str()) {
                    proof {
                        assert(lv.skip(i as int)[0] == lv[i as int]);
                        assert(lv[i as int] == list@[i as int]@);
                        assert(lv.skip(i as int).len() > 0);
                        assert(first_suffix_match(lv.skip(i as int), typed@) == Some(
                            lv[i as int],
                        ));
                        assert(config@.completion_trigger_characters == Some(lv));
                        assert(matching_trigger(config@, typed@) == first_suffix_match(lv, typed@));
                    }
                    return Some(list[i].clone());
                }
                proof {
                    assert(lv.skip(i as int)[0] == lv[i as int]);
                    assert(lv.skip(i as int).skip(1) =~= lv.skip(i + 1));
                }
                i = i + 1;
            }
            proof {
                assert(lv.skip(n as int) =~= Seq::<Seq<char>>::empty());
            }
            None
        },
        None => None,
    }
}

/// Resolves a completion request for the document at `path`, the UTF-16
/// offset `pos`, and the just-typed text `trigger`. The context fires as a
/// trigger character exactly when `trigger` ends with one of the characters
/// the server declared; otherwise the request counts as invoked. The error
/// order follows the lookup order: unknown path, missing language, missing
/// configuration, missing server.
pub fn completion_request(
    registry: &LspRegistry,
    editor: &EditorState,
    path: &str,
    pos: usize,
    trigger: &str,
) -> (r: Result<CompletionRequest, LspError>)
    requires
        registry.wf(),
        editor.wf(),
        editor.has_doc(path@) ==> pos <= utf16_len(editor.doc_at(path@).text),
    ensures
        match r {
            Ok(req) => {
                &&& editor.has_doc(path@)
                &&& editor.doc_at(path@).language is Some
                &&& registry.has_server(lsid_of(editor.doc_at(path@)))
                &&& registry.has_config(lsid_of(editor.doc_at(path@)))
                &&& req.server@ == registry.server_at(lsid_of(editor.doc_at(path@)))
                &&& req.path@ == path@
                &&& req.position == spec_position(
                    editor.doc_at(path@).text,
                    pos as nat,
                    encoding_of(registry.config_at(lsid_of(editor.doc_at(path@)))),
                )
                &&& ({
                    let m = matching_trigger(
                        registry.config_at(lsid_of(editor.doc_at(path@))),
                        trigger@,
                    );
                    match req.context.trigger_character {
                        Some(t) => m == Some(t@) && req.context.trigger_kind
                            == CompletionTriggerKind::TriggerCharacter,
                        None => m is None && req.context.trigger_kind
                            == CompletionTriggerKind::Invoked,
                    }
                })
            },
            Err(e) => if e == LspError::DocumentNotFound {
                !editor.has_doc(path@)
            } else if e == LspError::NoServerConfig {
                &&& editor.has_doc(path@)
                &&& editor.doc_at(path@).language is Some
                &&& !registry.has_config(lsid_of(editor.doc_at(path@)))
            } else {
                &&& e == LspError::NoLanguageServer
                &&& editor.has_doc(path@)
                &&& (editor.doc_at(path@).language is None || (registry.has_config(
                    lsid_of(editor.doc_at(path@)),
                ) && !registry.has_server(lsid_of(editor.doc_at(path@)))))
            },
        },
{
    let doc = match editor.get_document(path) {
        Ok(d) => d,
        Err(_) => {
            return Err(LspError::DocumentNotFound);
        },
    };
    let id = match doc.get_language_server_id() {
        Some(id) => id,
        None => {
            return Err(LspError::NoLanguageServer);
        },
    };
    let config = match registry.get_language_server_config(&id) {
        Some(c) => c,
        None => {
            return Err(LspError::NoServerConfig);
        },
    };
    let trigger_character = find_trigger(&config, trigger);
    let trigger_kind = match trigger_character {
        Some(_) => CompletionTriggerKind::TriggerCharacter,
        None => CompletionTriggerKind::Invoked,
    };
    let server = match registry.get_language_server(&id) {
        Some(s) => s,
        None => {
            return Err(LspError::NoLanguageServer);
        },
    };
    let enc = get_offset_encoding(&config);
    let position = pos_to_lsp_pos(&doc.text, pos, enc);
    Ok(
        CompletionRequest {
            server,
            path: doc.path,
            position,
            context: CompletionContext { trigger_kind, trigger_character },
        },
    )
}

/// What a registration decided, and so what the caller must do next: spawn
/// and initialize a new process, just announce the document to the existing
/// one, or nothing for a language-less document.
#[derive(Debug)]
pub enum RegistrationOutcome {
    /// The document has no language; registration is a no-op.
    NoLanguage,
    /// A fresh handle was registered: spawn its command, run the initialize
    /// handshake, cache the configuration, send `initialized`, then open the
    /// document.
    Created(ServerHandle),
    /// The server already ran: just open the document against it.
    Existing(ServerHandle),
}

/// Registers the language server a document needs, on its "document opened"
/// event: a no-op without a language, a race-free check-and-insert
/// otherwise. Exactly one registration per id creates a handle; all others
/// reuse it.
pub fn register_for_document(registry: &mut LspRegistry, doc: &Document) -> (r: Result<
    RegistrationOutcome,
    RegistryError,
>)
    requires
        old(registry).wf(),
        old(registry).next_handle_id < u64::MAX,
    ensures
        final(registry).wf(),
        match r {
            Ok(outcome) => match outcome {
                RegistrationOutcome::NoLanguage => doc@.language is None && *final(registry)
                    == *old(registry),
                RegistrationOutcome::Created(h) => doc@.language is Some && register_transition(
                    *old(registry),
                    *final(registry),
                    lsid_of(doc@),
                    h@,
                    true,
                ),
                RegistrationOutcome::Existing(h) => doc@.language is Some && register_transition(
                    *old(registry),
                    *final(registry),
                    lsid_of(doc@),
                    h@,
                    false,
                ),
            },
            Err(e) => {
                &&& e == RegistryError::UnsupportedLanguage
                &&& doc@.language is Some
                &&& launch_command_of(lsid_of(doc@).1) is None
                &&& *final(registry) == *old(registry)
            },
        },
{
    let id = match doc.get_language_server_id() {
        Some(id) => id,
        None => {
            return Ok(RegistrationOutcome::NoLanguage);
        },
    };
    match registry.register_language_server(&id) {
        Ok((handle, true)) => Ok(RegistrationOutcome::Created(handle)),
        Ok((handle, false)) => Ok(RegistrationOutcome::Existing(handle)),
        Err(e) => Err(e),
    }
}

} // verus!
