//! The language-server registry: at most one live server handle per
//! (workspace root, language) pair, plus the capability configuration each
//! server negotiated. Spawning, talking to and killing the actual process is
//! the caller's job; the registry decides when a new process is owed and
//! hands out the launch command.

use vstd::prelude::*;

use crate::editor::{Document, Language};
use crate::pathutil::opt_view;
use crate::strutil::str_eq;

verus! {

/// The registry key: one language server per workspace root and language.
#[derive(Debug, Clone, PartialEq, Hash, Eq)]
pub struct LanguageServerId(pub String, pub Language);

impl View for LanguageServerId {
    type V = (Seq<char>, Seq<char>);

    open spec fn view(&self) -> (Seq<char>, Seq<char>) {
        (self.0@, self.1.0@)
    }
}

/// A handle to a language-server process. `id` is unique across the
/// registry's lifetime; `command` is the shell command the process was (or
/// must be) launched with.
#[derive(Debug)]
pub struct ServerHandle {
    pub id: u64,
    pub command: String,
}

/// The mathematical value of a server handle.
pub struct ServerHandleView {
    pub id: u64,
    pub command: Seq<char>,
}

impl View for ServerHandle {
    type V = ServerHandleView;

    open spec fn view(&self) -> ServerHandleView {
        ServerHandleView { id: self.id, command: self.command@ }
    }
}

impl ServerHandle {
    /// An identical copy of the handle.
    pub fn duplicate(&self) -> (h: ServerHandle)
        ensures
            h@ == self@,
    {
        ServerHandle { id: self.id, command: self.command.clone() }
    }
}

/// How a document's content is synchronized to a server, as the server
/// declared it: a bare kind, or sync options carrying an optional change
/// kind.
#[derive(Clone, Copy, Debug, PartialEq, Eq, Structural)]
pub enum TextDocumentSyncCap {
    Kind(SyncKind),
    Options(Option<SyncKind>),
}

/// The change-synchronization kinds of the protocol.
#[derive(Clone, Copy, Debug, PartialEq, Eq, Structural)]
pub enum SyncKind {
    /// The server wants no change notifications.
    NoSync,
    /// Every change carries the whole buffer.
    Full,
    /// Every change carries the edited range and the replacement text.
    Incremental,
}

/// What the library reads from a server's negotiated capabilities.
#[derive(Debug)]
pub struct ServerConfig {
    pub text_document_sync: Option<TextDocumentSyncCap>,
    pub position_encoding: Option<String>,
    pub completion_trigger_characters: Option<Vec<String>>,
}

/// The mathematical value of a server configuration.
pub struct ServerConfigView {
    pub text_document_sync: Option<TextDocumentSyncCap>,
    pub position_encoding: Option<Seq<char>>,
    pub completion_trigger_characters: Option<Seq<Seq<char>>>,
}

impl View for ServerConfig {
    type V = ServerConfigView;

    open spec fn view(&self) -> ServerConfigView {
        ServerConfigView {
            text_document_sync: self.text_document_sync,
            position_encoding: match self.position_encoding {
                Some(ref e) => Some(e@),
                None => None,
            },
            completion_trigger_characters: match self.completion_trigger_characters {
                Some(ref v) => Some(v@.map_values(|s: String| s@)),
                None => None,
            },
        }
    }
}

impl ServerConfig {
    /// An identical copy of the configuration.
    pub fn duplicate(&self) -> (c: ServerConfig)
        ensures
            c@ == self@,
    {
        let triggers: Option<Vec<String>> = match self.completion_trigger_characters {
            Some(ref v) => {
                let mut out: Vec<String> = Vec::new();
                let n = v.len();
                let mut i: usize = 0;
                while i < n
                    invariant
                        n == v@.len(),
                        i <= n,
                        out@.len() == i,
                        forall|j: int| 0 <= j < i ==> out@[j]@ == v@[j]@,
                    decreases n - i,
                {
                    out.push(v[i].clone());
                    i = i + 1;
                }
                proof {
                    assert(out@.map_values(|s: String| s@) =~= v@.map_values(|s: String| s@));
                }
                Some(out)
            },
            None => None,
        };
        ServerConfig {
            text_document_sync: self.text_document_sync,
            position_encoding: match self.position_encoding {
                Some(ref e) => Some(e.clone()),
                None => None,
            },
            completion_trigger_characters: triggers,
        }
    }
}

/// Why a registration failed.
#[derive(Clone, Copy, Debug, PartialEq, Eq, Structural)]
pub enum RegistryError {
    /// No launch command is known for the language tag.
    UnsupportedLanguage,
}

/// The launch command for a language tag, if the language is supported.
pub open spec fn launch_command_of(lang: Seq<char>) -> Option<Seq<char>> {
    if lang == "typescript"@ {
        Some("typescript-language-server --stdio"@)
    } else if lang == "rust"@ {
        Some("rust-analyzer"@)
    } else if lang == "copilot"@ {
        Some("copilot-language-server --stdio"@)
    } else {
        None
    }
}

/// The closed mapping from language tag to launch command.
pub fn launch_command(language: &Language) -> (r: Option<String>)
    ensures
        match r {
            Some(c) => launch_command_of(language.0@) == Some(c@),
            None => launch_command_of(language.0@) is None,
        },
{
    if str_eq(language.0.as_str(), "typescript") {
        Some("typescript-language-server --stdio".to_owned())
    } else if str_eq(language.0.as_str(), "rust") {
        Some("rust-analyzer".to_owned())
    } else if str_eq(language.0.as_str(), "copilot") {
        Some("copilot-language-server --stdio".to_owned())
    } else {
        None
    }
}

impl LanguageServerId {
    /// An identical copy of the id.
    pub fn duplicate(&self) -> (r: LanguageServerId)
        ensures
            r@ == self@,
    {
        LanguageServerId(self.0.clone(), Language(self.1.0.clone()))
    }

    /// Whether two ids name the same (workspace root, language) pair.
    pub fn same_id(&self, other: &LanguageServerId) -> (r: bool)
        ensures
            r == (self@ == other@),
    {
        str_eq(self.0.as_str(), other.0.as_str()) && str_eq(self.1.0.as_str(), other.1.0.as_str())
    }
}

/// The keys of `entries` are pairwise distinct.
pub open spec fn unique_keys<V>(entries: Seq<(LanguageServerId, V)>) -> bool {
    forall|i: int, j: int| 0 <= i < j < entries.len() ==> entries[i].0@ != entries[j].0@
}

/// `entries` holds key `k`.
pub open spec fn entries_has<V>(entries: Seq<(LanguageServerId, V)>, k: (Seq<char>, Seq<char>)) -> bool {
    exists|i: int| 0 <= i < entries.len() && entries[i].0@ == k
}

/// The value stored under `k` (meaningful when `entries_has`).
pub open spec fn entries_at<V>(entries: Seq<(LanguageServerId, V)>, k: (Seq<char>, Seq<char>)) -> V {
    entries[choose|i: int| 0 <= i < entries.len() && entries[i].0@ == k].1
}

/// Both entry lists agree on every key other than `k`.
pub open spec fn entries_preserved_except<V>(
    pre: Seq<(LanguageServerId, V)>,
    post: Seq<(LanguageServerId, V)>,
    k: (Seq<char>, Seq<char>),
) -> bool {
    &&& forall|q: (Seq<char>, Seq<char>)| #![trigger entries_has(post, q)]
        q != k ==> (entries_has(post, q) <==> entries_has(pre, q))
    &&& forall|q: (Seq<char>, Seq<char>)| #![trigger entries_at(post, q)]
        q != k && entries_has(pre, q) ==> entries_at(post, q) == entries_at(pre, q)
}

/// With unique keys, the witness index of a key is unique, so `entries_at`
/// denotes the value at any witness index.
proof fn lemma_entries_at_index<V>(entries: Seq<(LanguageServerId, V)>, i: int)
    requires
        unique_keys(entries),
        0 <= i < entries.len(),
    ensures
        entries_has(entries, entries[i].0@),
        entries_at(entries, entries[i].0@) == entries[i].1,
{
    let k = entries[i].0@;
    assert(entries_has(entries, k));
    let j = choose|j: int| 0 <= j < entries.len() && entries[j].0@ == k;
    assert(j == i);
}

/// Replacing or keeping the entry at index `i` (same key) touches no other
/// key.
proof fn lemma_entries_update<V>(
    pre: Seq<(LanguageServerId, V)>,
    post: Seq<(LanguageServerId, V)>,
    i: int,
    k: (Seq<char>, Seq<char>),
)
    requires
        unique_keys(pre),
        0 <= i < pre.len(),
        pre[i].0@ == k,
        post.len() == pre.len(),
        post[i].0@ == k,
        forall|j: int| 0 <= j < pre.len() && j != i ==> post[j] == pre[j],
    ensures
        unique_keys(post),
        entries_preserved_except(pre, post, k),
        entries_has(post, k),
        entries_at(post, k) == post[i].1,
        entries_has(pre, k),
        entries_at(pre, k) == pre[i].1,
{
    assert(unique_keys(post)) by {
        assert forall|x: int, y: int| 0 <= x < y < post.len() implies post[x].0@ != post[y].0@ by {
            assert(pre[x].0@ != pre[y].0@);
        }
    }
    assert forall|q: (Seq<char>, Seq<char>)| q != k implies (#[trigger] entries_has(post, q)
        <==> entries_has(pre, q)) by {
        if entries_has(post, q) {
            let j = choose|j: int| 0 <= j < post.len() && post[j].0@ == q;
            assert(j != i);
            assert(pre[j].0@ == q);
        }
        if entries_has(pre, q) {
            let j = choose|j: int| 0 <= j < pre.len() && pre[j].0@ == q;
            assert(j != i);
            assert(post[j].0@ == q);
        }
    }
    assert forall|q: (Seq<char>, Seq<char>)| q != k && entries_has(pre, q) implies #[trigger]
        entries_at(post, q) == entries_at(pre, q) by {
        let jpre = choose|j: int| 0 <= j < pre.len() && pre[j].0@ == q;
        assert(jpre != i);
        assert(post[jpre].0@ == q);
        let jpost = choose|j: int| 0 <= j < post.len() && post[j].0@ == q;
        if jpost != jpre {
            assert(post[jpost].0@ == post[jpre].0@);
            assert(false);
        }
    }
    lemma_entries_at_index(post, i);
    lemma_entries_at_index(pre, i);
}

/// Appending an entry with a fresh key touches no other key.
proof fn lemma_entries_push<V>(
    pre: Seq<(LanguageServerId, V)>,
    post: Seq<(LanguageServerId, V)>,
    k: (Seq<char>, Seq<char>),
)
    requires
        unique_keys(pre),
        !entries_has(pre, k),
        post.len() == pre.len() + 1,
        post[pre.len() as int].0@ == k,
        forall|j: int| 0 <= j < pre.len() ==> post[j] == pre[j],
    ensures
        unique_keys(post),
        entries_preserved_except(pre, post, k),
        entries_has(post, k),
        entries_at(post, k) == post[pre.len() as int].1,
{
    let n = pre.len() as int;
    assert(unique_keys(post)) by {
        assert forall|x: int, y: int| 0 <= x < y < post.len() implies post[x].0@ != post[y].0@ by {
            if y < n {
                assert(pre[x].0@ != pre[y].0@);
            } else {
                assert(post[y].0@ == k);
                if pre[x].0@ == k {
                    assert(entries_has(pre, k));
                }
            }
        }
    }
    assert forall|q: (Seq<char>, Seq<char>)| q != k implies (#[trigger] entries_has(post, q)
        <==> entries_has(pre, q)) by {
        if entries_has(post, q) {
            let j = choose|j: int| 0 <= j < post.len() && post[j].0@ == q;
            assert(j != n);
            assert(pre[j].0@ == q);
        }
        if entries_has(pre, q) {
            let j = choose|j: int| 0 <= j < pre.len() && pre[j].0@ == q;
            assert(post[j].0@ == q);
        }
    }
    assert forall|q: (Seq<char>, Seq<char>)| q != k && entries_has(pre, q) implies #[trigger]
        entries_at(post, q) == entries_at(pre, q) by {
        let jpre = choose|j: int| 0 <= j < pre.len() && pre[j].0@ == q;
        assert(post[jpre].0@ == q);
        let jpost = choose|j: int| 0 <= j < post.len() && post[j].0@ == q;
        if jpost != jpre {
            assert(post[jpost].0@ == post[jpre].0@);
            assert(false);
        }
    }
    lemma_entries_at_index(post, n);
}

/// Removing the entry at index `i` touches no other key.
proof fn lemma_entries_remove<V>(
    pre: Seq<(LanguageServerId, V)>,
    post: Seq<(LanguageServerId, V)>,
    i: int,
    k: (Seq<char>, Seq<char>),
)
    requires
        unique_keys(pre),
        0 <= i < pre.len(),
        pre[i].0@ == k,
        post == pre.remove(i),
    ensures
        unique_keys(post),
        entries_preserved_except(pre, post, k),
        !entries_has(post, k),
        entries_has(pre, k),
        entries_at(pre, k) == pre[i].1,
{
    assert(unique_keys(post)) by {
        assert forall|x: int, y: int| 0 <= x < y < post.len() implies post[x].0@ != post[y].0@ by {
            let px = if x < i { x } else { x + 1 };
            let py = if y < i { y } else { y + 1 };
            assert(post[x] == pre[px]);
            assert(post[y] == pre[py]);
            assert(pre[px].0@ != pre[py].0@);
        }
    }
    assert(!entries_has(post, k)) by {
        if entries_has(post, k) {
            let j = choose|j: int| 0 <= j < post.len() && post[j].0@ == k;
            let pj = if j < i { j } else { j + 1 };
            assert(post[j] == pre[pj]);
            assert(pj != i);
            assert(pre[pj].0@ == pre[i].0@);
        }
    }
    assert forall|q: (Seq<char>, Seq<char>)| q != k implies (#[trigger] entries_has(post, q)
        <==> entries_has(pre, q)) by {
        if entries_has(post, q) {
            let j = choose|j: int| 0 <= j < post.len() && post[j].0@ == q;
            let pj = if j < i { j } else { j + 1 };
            assert(post[j] == pre[pj]);
        }
        if entries_has(pre, q) {
            let j = choose|j: int| 0 <= j < pre.len() && pre[j].0@ == q;
            assert(j != i);
            let pj = if j < i { j } else { j - 1 };
            assert(post[pj] == pre[j]);
        }
    }
    assert forall|q: (Seq<char>, Seq<char>)| q != k && entries_has(pre, q) implies #[trigger]
        entries_at(post, q) == entries_at(pre, q) by {
        let jpre = choose|j: int| 0 <= j < pre.len() && pre[j].0@ == q;
        assert(jpre != i);
        let pj = if jpre < i { jpre } else { jpre - 1 };
        assert(post[pj] == pre[jpre]);
        let jpost = choose|j: int| 0 <= j < post.len() && post[j].0@ == q;
        if jpost != pj {
            assert(post[jpost].0@ == post[pj].0@);
            assert(false);
        }
    }
    lemma_entries_at_index(pre, i);
}

/// The registry key a document resolves to: its worktree root (or the
/// filesystem root when it has none) and its language tag (meaningful when
/// the document has a language).
pub open spec fn lsid_of(d: crate::editor::DocumentView) -> (Seq<char>, Seq<char>) {
    (
        match d.worktree_path {
            Some(w) => w,
            None => "/"@,
        },
        d.language->Some_0,
    )
}

impl Document {
    /// The registry key for this document: its worktree root (or the
    /// filesystem root when it has none) and its language. Untagged
    /// documents have no key.
    pub fn get_language_server_id(&self) -> (r: Option<LanguageServerId>)
        ensures
            match r {
                Some(id) => self@.language is Some && id@ == lsid_of(self@),
                None => self@.language is None,
            },
    {
        match self.language {
            Some(ref l) => {
                let root: String = match self.worktree_path {
                    Some(ref w) => w.clone(),
                    None => "/".to_owned(),
                };
                Some(LanguageServerId(root, Language(l.0.clone())))
            },
            None => None,
        }
    }
}

/// The registry key of the copilot assistant for a worktree: the given root
/// (or the filesystem root) and the `copilot` language tag.
pub fn copilot_language_server_id(worktree_path: &Option<String>) -> (r: LanguageServerId)
    ensures
        r@ == (
            match opt_view(*worktree_path) {
                Some(w) => w,
                None => "/"@,
            },
            "copilot"@,
        ),
{
    let root: String = match worktree_path {
        Some(ref w) => w.clone(),
        None => "/".to_owned(),
    };
    LanguageServerId(root, Language("copilot".to_owned()))
}

/// The registry: the live server handle and the cached configuration per id.
pub struct LspRegistry {
    pub language_servers: Vec<(LanguageServerId, ServerHandle)>,
    pub language_server_configs: Vec<(LanguageServerId, ServerConfig)>,
    pub next_handle_id: u64,
}

/// One step of `register_language_server` that returned `(h, created)`: the
/// server for `id` exists afterwards; a creation allocated the next fresh
/// handle with the language's launch command, and a reuse changed nothing.
/// No other id is touched either way.
pub open spec fn register_transition(
    pre: LspRegistry,
    post: LspRegistry,
    id: (Seq<char>, Seq<char>),
    h: ServerHandleView,
    created: bool,
) -> bool {
    &&& created == !pre.has_server(id)
    &&& post.has_server(id)
    &&& post.server_at(id) == h
    &&& entries_preserved_except(pre.language_servers@, post.language_servers@, id)
    &&& post.language_server_configs@ == pre.language_server_configs@
    &&& (created ==> {
        &&& h.id == pre.next_handle_id
        &&& post.next_handle_id == pre.next_handle_id + 1
        &&& launch_command_of(id.1) == Some(h.command)
        &&& post.language_servers@.len() == pre.language_servers@.len() + 1
    })
    &&& (!created ==> post == pre && h == pre.server_at(id))
}

impl LspRegistry {
    /// Well-formedness: each map has unique keys, and every issued handle id
    /// is below the next one, so a fresh handle equals no live one.
    pub open spec fn wf(&self) -> bool {
        &&& unique_keys(self.language_servers@)
        &&& unique_keys(self.language_server_configs@)
        &&& forall|i: int|
            0 <= i < self.language_servers@.len() ==> self.language_servers@[i].1.id
                < self.next_handle_id
    }

    /// A server is registered for `id`.
    pub open spec fn has_server(&self, id: (Seq<char>, Seq<char>)) -> bool {
        entries_has(self.language_servers@, id)
    }

    /// The handle registered for `id` (meaningful when `has_server`).
    pub open spec fn server_at(&self, id: (Seq<char>, Seq<char>)) -> ServerHandleView {
        entries_at(self.language_servers@, id)@
    }

    /// A configuration is cached for `id`.
    pub open spec fn has_config(&self, id: (Seq<char>, Seq<char>)) -> bool {
        entries_has(self.language_server_configs@, id)
    }

    /// The configuration cached for `id` (meaningful when `has_config`).
    pub open spec fn config_at(&self, id: (Seq<char>, Seq<char>)) -> ServerConfigView {
        entries_at(self.language_server_configs@, id)@
    }

    pub fn new() -> (r: LspRegistry)
        ensures
            r.wf(),
            r.language_servers@.len() == 0,
            r.language_server_configs@.len() == 0,
            forall|id: (Seq<char>, Seq<char>)| !r.has_server(id) && !r.has_config(id),
    {
        LspRegistry {
            language_servers: Vec::new(),
            language_server_configs: Vec::new(),
            next_handle_id: 0,
        }
    }

    /// The index of the server entry for `id`, if one is registered.
    fn find_server_index(&self, id: &LanguageServerId) -> (r: Option<usize>)
        ensures
            match r {
                Some(i) => i < self.language_servers@.len() && self.language_servers@[i as int].0@
                    == id@,
                None => !self.has_server(id@),
            },
    {
        let n = self.language_servers.len();
        let mut i: usize = 0;
        while i < n
            invariant
                n == self.language_servers@.len(),
                i <= n,
                forall|j: int| 0 <= j < i ==> self.language_servers@[j].0@ != id@,
            decreases n - i,
        {
            if self.language_servers[i].0.same_id(id) {
                return Some(i);
            }
            i = i + 1;
        }
        None
    }

    /// The index of the config entry for `id`, if one is cached.
    fn find_config_index(&self, id: &LanguageServerId) -> (r: Option<usize>)
        ensures
            match r {
                Some(i) => i < self.language_server_configs@.len()
                    && self.language_server_configs@[i as int].0@ == id@,
                None => !self.has_config(id@),
            },
    {
        let n = self.language_server_configs.len();
        let mut i: usize = 0;
        while i < n
            invariant
                n == self.language_server_configs@.len(),
                i <= n,
                forall|j: int| 0 <= j < i ==> self.language_server_configs@[j].0@ != id@,
            decreases n - i,
        {
            if self.language_server_configs[i].0.same_id(id) {
                return Some(i);
            }
            i = i + 1;
        }
        None
    }

    /// The handle registered for `id`, if any.
    pub fn get_language_server(&self, id: &LanguageServerId) -> (r: Option<ServerHandle>)
        requires
            self.wf(),
        ensures
            match r {
                Some(h) => self.has_server(id@) && h@ == self.server_at(id@),
                None => !self.has_server(id@),
            },
    {
        match self.find_server_index(id) {
            Some(i) => {
                proof {
                    lemma_entries_at_index(self.language_servers@, i as int);
                }
                Some(self.language_servers[i].1.duplicate())
            },
            None => None,
        }
    }

    /// The configuration cached for `id`, if any.
    pub fn get_language_server_config(&self, id: &LanguageServerId) -> (r: Option<ServerConfig>)
        requires
            self.wf(),
        ensures
            match r {
                Some(c) => self.has_config(id@) && c@ == self.config_at(id@),
                None => !self.has_config(id@),
            },
    {
        match self.find_config_index(id) {
            Some(i) => {
                proof {
                    lemma_entries_at_index(self.language_server_configs@, i as int);
                }
                Some(self.language_server_configs[i].1.duplicate())
            },
            None => None,
        }
    }

    /// The race-free check-and-insert at the registry's heart: if a server
    /// for `id` is already registered it is returned with `created == false`
    /// and nothing changes; otherwise a fresh handle carrying the language's
    /// launch command is registered and returned with `created == true`. An
    /// unknown language is refused and registers nothing.
    pub fn register_language_server(&mut self, id: &LanguageServerId) -> (r: Result<
        (ServerHandle, bool),
        RegistryError,
    >)
        requires
            old(self).wf(),
            old(self).next_handle_id < u64::MAX,
        ensures
            final(self).wf(),
            match r {
                Ok((h, created)) => register_transition(*old(self), *final(self), id@, h@, created),
                Err(e) => {
                    &&& e == RegistryError::UnsupportedLanguage
                    &&& launch_command_of(id@.1) is None
                    &&& !old(self).has_server(id@)
                    &&& *final(self) == *old(self)
                },
            },
    {
        match self.find_server_index(id) {
            Some(i) => {
                proof {
                    lemma_entries_at_index(self.language_servers@, i as int);
                }
                Ok((self.language_servers[i].1.duplicate(), false))
            },
            None => {
                match launch_command(&id.1) {
                    Some(command) => {
                        let ghost pre_state = *self;
                        let handle = ServerHandle { id: self.next_handle_id, command };
                        let out = handle.duplicate();
                        self.language_servers.push((id.duplicate(), handle));
                        self.next_handle_id = self.next_handle_id + 1;
                        proof {
                            lemma_entries_push(
                                pre_state.language_servers@,
                                self.language_servers@,
                                id@,
                            );
                        }
                        Ok((out, true))
                    },
                    None => Err(RegistryError::UnsupportedLanguage),
                }
            },
        }
    }

    /// Caches the configuration a server negotiated, replacing and returning
    /// any earlier one.
    pub fn insert_language_server_config(&mut self, id: &LanguageServerId, config: ServerConfig)
        -> (r: Option<ServerConfig>)
        requires
            old(self).wf(),
        ensures
            final(self).wf(),
            final(self).has_config(id@),
            final(self).config_at(id@) == config@,
            entries_preserved_except(
                old(self).language_server_configs@,
                final(self).language_server_configs@,
                id@,
            ),
            final(self).language_servers@ == old(self).language_servers@,
            final(self).next_handle_id == old(self).next_handle_id,
            match r {
                Some(prev) => old(self).has_config(id@) && prev@ == old(self).config_at(id@),
                None => !old(self).has_config(id@),
            },
    {
        match self.find_config_index(id) {
            Some(i) => {
                let ghost pre_state = *self;
                proof {
                    lemma_entries_at_index(self.language_server_configs@, i as int);
                }
                let (key, prev) = self.language_server_configs.remove(i);
                self.language_server_configs.insert(i, (key, config));
                proof {
                    assert(self.language_server_configs@ =~= pre_state.language_server_configs@
                        .update(i as int, self.language_server_configs@[i as int]));
                    lemma_entries_update(
                        pre_state.language_server_configs@,
                        self.language_server_configs@,
                        i as int,
                        id@,
                    );
                }
                Some(prev)
            },
            None => {
                let ghost pre_state = *self;
                self.language_server_configs.push((id.duplicate(), config));
                proof {
                    lemma_entries_push(
                        pre_state.language_server_configs@,
                        self.language_server_configs@,
                        id@,
                    );
                }
                None
            },
        }
    }

    /// Evicts the server for `id` and hands its handle back so the caller
    /// can shut the process down. Evicting an unknown id changes nothing.
    pub fn remove_language_server(&mut self, id: &LanguageServerId) -> (r: Option<ServerHandle>)
        requires
            old(self).wf(),
        ensures
            final(self).wf(),
            !final(self).has_server(id@),
            entries_preserved_except(
                old(self).language_servers@,
                final(self).language_servers@,
                id@,
            ),
            final(self).language_server_configs@ == old(self).language_server_configs@,
            final(self).next_handle_id == old(self).next_handle_id,
            match r {
                Some(h) => old(self).has_server(id@) && h@ == old(self).server_at(id@),
                None => !old(self).has_server(id@) && *final(self) == *old(self),
            },
    {
        match self.find_server_index(id) {
            Some(i) => {
                let ghost pre_state = *self;
                let (_key, handle) = self.language_servers.remove(i);
                proof {
                    lemma_entries_remove(
                        pre_state.language_servers@,
                        self.language_servers@,
                        i as int,
                        id@,
                    );
                }
                Some(handle)
            },
            None => None,
        }
    }

    /// Evicts every server and hands all handles back for a best-effort
    /// shutdown; the caller shuts each process down independently.
    pub fn shutdown(&mut self) -> (handles: Vec<ServerHandle>)
        requires
            old(self).wf(),
        ensures
            final(self).wf(),
            final(self).language_servers@.len() == 0,
            forall|id: (Seq<char>, Seq<char>)| !final(self).has_server(id),
            final(self).language_server_configs@ == old(self).language_server_configs@,
            handles@.len() == old(self).language_servers@.len(),
            forall|i: int|
                0 <= i < handles@.len() ==> handles@[i]@ == old(self).language_servers@[i].1@,
    {
        let mut handles: Vec<ServerHandle> = Vec::new();
        let ghost pre = self.language_servers@;
        while self.language_servers.len() > 0
            invariant
                pre.len() == handles@.len() + self.language_servers@.len(),
                forall|i: int| 0 <= i < handles@.len() ==> handles@[i]@ == pre[i].1@,
                forall|i: int|
                    0 <= i < self.language_servers@.len() ==> self.language_servers@[i] == pre[i
                        + handles@.len()],
                unique_keys(self.language_servers@),
                unique_keys(self.language_server_configs@),
                forall|i: int|
                    0 <= i < self.language_servers@.len() ==> self.language_servers@[i].1.id
                        < self.next_handle_id,
                self.language_server_configs@ == old(self).language_server_configs@,
            decreases self.language_servers@.len(),
        {
            let (_key, handle) = self.language_servers.remove(0);
            handles.push(handle);
        }
        handles
    }
}

/// Law: two registrations for the same id spawn at most one server. However
/// the first call ended (`created1` may be a reuse too), the second finds
/// the server the first left behind, reuses it, creates nothing and returns
/// the same handle.
pub proof fn lemma_second_registration_reuses(
    r0: LspRegistry,
    r1: LspRegistry,
    r2: LspRegistry,
    id: (Seq<char>, Seq<char>),
    h1: ServerHandleView,
    created1: bool,
    h2: ServerHandleView,
    created2: bool,
)
    requires
        register_transition(r0, r1, id, h1, created1),
        register_transition(r1, r2, id, h2, created2),
    ensures
        !created2,
        h2 == h1,
        r2 == r1,
{
}

/// Law: a registration for one id neither registers nor alters the server
/// of any other id; with `lemma_second_registration_reuses` this gives that
/// any interleaving of N registrations for one id spawns exactly one server
/// and reuses it N-1 times.
pub proof fn lemma_registration_is_isolated(
    r0: LspRegistry,
    r1: LspRegistry,
    other: (Seq<char>, Seq<char>),
    h: ServerHandleView,
    created: bool,
    id: (Seq<char>, Seq<char>),
)
    requires
        register_transition(r0, r1, other, h, created),
        id != other,
    ensures
        r1.has_server(id) == r0.has_server(id),
        r0.has_server(id) ==> r1.server_at(id) == r0.server_at(id),
{
}

} // verus!
