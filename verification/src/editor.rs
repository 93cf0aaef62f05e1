//! The document store: every open text buffer, keyed by path, with a
//! monotonically increasing version per document. Reading files, watching
//! the clock and walking the file system stay with the caller, who hands the
//! results in as plain values (text, modification times, a worktree root).

use vstd::prelude::*;

use crate::rope::{
    rope_chars, rope_clone, rope_from_str, rope_insert, rope_len_utf16, rope_new, rope_remove,
    rope_to_string, rope_utf16_to_char,
};
use crate::strutil::{str_ends_with, str_eq, str_starts_with};
use crate::text::{
    delete_between_utf16, insert_at_utf16, lemma_char_of_utf16_le_len,
    lemma_char_of_utf16_monotone, utf16_len,
};

verus! {

/// A language tag, e.g. `typescript` or `rust`.
#[derive(Debug, Clone, PartialEq, Hash, Eq)]
pub struct Language(pub String);

/// An insert operation: `text` goes in at UTF-16 offset `from_a`; `to_b` is
/// the end of the inserted range in the updated buffer.
#[derive(Clone, Debug)]
pub struct Insert {
    pub from_a: usize,
    pub to_b: usize,
    pub text: String,
}

/// A delete operation: the UTF-16 range `from_a..to_a` is removed.
#[derive(Clone, Debug)]
pub struct Delete {
    pub from_a: usize,
    pub to_a: usize,
}

/// A whole-buffer replacement, optionally retagging the language.
#[derive(Clone, Debug)]
pub struct UpdateDocument {
    pub text: String,
    pub language: Option<Language>,
}

/// Why a store operation failed.
#[derive(Clone, Copy, Debug, PartialEq, Eq, Structural)]
pub enum EditorError {
    /// The path has no document in the store.
    DocumentNotFound,
}

/// An open document: the buffer is the single source of truth for its text,
/// and `version` grows by exactly one on every mutation.
#[derive(Debug)]
pub struct Document {
    pub path: String,
    pub worktree_path: Option<String>,
    pub text: ropey::Rope,
    pub language: Option<Language>,
    pub last_modified: u64,
    pub version: u64,
}

/// The mathematical value of a document.
pub struct DocumentView {
    pub path: Seq<char>,
    pub worktree_path: Option<Seq<char>>,
    pub text: Seq<char>,
    pub language: Option<Seq<char>>,
    pub last_modified: u64,
    pub version: u64,
}

impl View for Document {
    type V = DocumentView;

    open spec fn view(&self) -> DocumentView {
        DocumentView {
            path: self.path@,
            worktree_path: match self.worktree_path {
                Some(ref w) => Some(w@),
                None => None,
            },
            text: rope_chars(&self.text),
            language: match self.language {
                Some(ref l) => Some(l.0@),
                None => None,
            },
            last_modified: self.last_modified,
            version: self.version,
        }
    }
}

/// A path names an ephemeral in-memory buffer rather than a file.
pub open spec fn is_buffer_path(p: Seq<char>) -> bool {
    "buffer://"@.is_prefix_of(p)
}

/// Whether `path` addresses an ephemeral buffer (a `buffer://` address)
/// instead of a file on disk.
pub fn is_buffer(path: &str) -> (r: bool)
    ensures
        r == is_buffer_path(path@),
{
    str_starts_with(path, "buffer://")
}

/// `p` ends in `.` followed by `dot_ext` minus its dot, with a file name
/// that is more than the extension alone.
pub open spec fn has_extension(p: Seq<char>, dot_ext: Seq<char>) -> bool {
    dot_ext.is_suffix_of(p) && p.len() > dot_ext.len() && p[p.len() - dot_ext.len() - 1] != '/'
}

/// The language detected from a path's extension.
pub open spec fn language_of(p: Seq<char>) -> Option<Seq<char>> {
    if has_extension(p, ".ts"@) || has_extension(p, ".tsx"@) {
        Some("typescript"@)
    } else if has_extension(p, ".rs"@) {
        Some("rust"@)
    } else {
        None
    }
}

/// Checks `has_extension` executably.
fn check_extension(path: &str, dot_ext: &str) -> (r: bool)
    ensures
        r == has_extension(path@, dot_ext@),
{
    let n = path.unicode_len();
    let en = dot_ext.unicode_len();
    if !str_ends_with(path, dot_ext) {
        return false;
    }
    if n <= en {
        return false;
    }
    path.get_char(n - en - 1) != '/'
}

/// Detects a document's language from its path: `.ts`/`.tsx` are TypeScript
/// and `.rs` is Rust; anything else is untagged.
pub fn detect_language(path: &str) -> (r: Option<Language>)
    ensures
        match r {
            Some(l) => language_of(path@) == Some(l.0@),
            None => language_of(path@) is None,
        },
{
    if check_extension(path, ".ts") || check_extension(path, ".tsx") {
        Some(Language("typescript".to_owned()))
    } else if check_extension(path, ".rs") {
        Some(Language("rust".to_owned()))
    } else {
        None
    }
}

impl Document {
    /// The language tag to announce to a server, or empty when untagged.
    pub fn get_language_id(&self) -> (r: String)
        ensures
            match self@.language {
                Some(l) => r@ == l,
                None => r@ == Seq::<char>::empty(),
            },
    {
        match self.language {
            Some(ref l) => l.0.clone(),
            None => String::new(),
        }
    }

    /// The buffer's length in UTF-16 code units, the editor's coordinate
    /// space.
    pub fn len_utf16(&self) -> (n: usize)
        ensures
            n == utf16_len(self@.text),
    {
        rope_len_utf16(&self.text)
    }

    /// The buffer's whole text as one string.
    pub fn text_string(&self) -> (s: String)
        ensures
            s@ == self@.text,
    {
        rope_to_string(&self.text)
    }

    /// The document's path relative to its worktree root (`./...`), to the
    /// home directory (`~/...`), or unchanged; `cwd` stands in for a missing
    /// worktree root.
    pub fn get_relative_path(&self, cwd: &str, home: &Option<String>) -> (r: String)
        ensures
            r@ == (match crate::pathutil::relative_of(
                self@.path,
                self@.worktree_path,
                cwd@,
                crate::pathutil::opt_view(*home),
            ) {
                Ok(s) => s,
                Err(_) => self@.path,
            }),
    {
        let base: Option<String> = match self.worktree_path {
            Some(ref w) => Some(w.clone()),
            None => None,
        };
        match crate::pathutil::to_relative_path(self.path.as_str(), &base, cwd, home) {
            Ok(s) => s,
            Err(_) => self.path.clone(),
        }
    }

    /// An identical copy of the document.
    pub fn duplicate(&self) -> (d: Document)
        ensures
            d@ == self@,
    {
        Document {
            path: self.path.clone(),
            worktree_path: match self.worktree_path {
                Some(ref w) => Some(w.clone()),
                None => None,
            },
            text: rope_clone(&self.text),
            language: match self.language {
                Some(ref l) => Some(Language(l.0.clone())),
                None => None,
            },
            last_modified: self.last_modified,
            version: self.version,
        }
    }
}

/// The store of open documents. At most one document exists per path.
pub struct EditorState {
    pub documents: Vec<Document>,
}

impl EditorState {
    /// Well-formedness: paths are unique, so the store is a map.
    pub open spec fn wf(&self) -> bool {
        forall|i: int, j: int|
            0 <= i < j < self.documents@.len() ==> self.documents@[i]@.path
                != self.documents@[j]@.path
    }

    /// The store holds a document for `path`.
    pub open spec fn has_doc(&self, path: Seq<char>) -> bool {
        exists|i: int| 0 <= i < self.documents@.len() && self.documents@[i]@.path == path
    }

    /// The document stored for `path` (meaningful when `has_doc(path)`).
    pub open spec fn doc_at(&self, path: Seq<char>) -> DocumentView {
        self.documents@[choose|i: int|
            0 <= i < self.documents@.len() && self.documents@[i]@.path == path]@
    }

    pub fn new() -> (s: EditorState)
        ensures
            s.wf(),
            s.documents@.len() == 0,
            forall|q: Seq<char>| !s.has_doc(q),
    {
        EditorState { documents: Vec::new() }
    }
}

/// Both stores agree on every path other than `path`.
pub open spec fn preserved_except(pre: EditorState, post: EditorState, path: Seq<char>) -> bool {
    &&& forall|q: Seq<char>| #![trigger post.has_doc(q)]
        q != path ==> (post.has_doc(q) <==> pre.has_doc(q))
    &&& forall|q: Seq<char>| #![trigger post.doc_at(q)]
        q != path && pre.has_doc(q) ==> post.doc_at(q) == pre.doc_at(q)
}

/// In a well-formed store, the witness index of a path is unique.
proof fn lemma_doc_index_unique(st: &EditorState, i: int, j: int)
    requires
        st.wf(),
        0 <= i < st.documents@.len(),
        0 <= j < st.documents@.len(),
        st.documents@[i]@.path == st.documents@[j]@.path,
    ensures
        i == j,
{
}

/// The document at a concrete index is the one `doc_at` denotes.
proof fn lemma_doc_at_index(st: &EditorState, i: int)
    requires
        st.wf(),
        0 <= i < st.documents@.len(),
    ensures
        st.has_doc(st.documents@[i]@.path),
        st.doc_at(st.documents@[i]@.path) == st.documents@[i]@,
{
    let path = st.documents@[i]@.path;
    assert(st.has_doc(path));
    let j = choose|j: int| 0 <= j < st.documents@.len() && st.documents@[j]@.path == path;
    lemma_doc_index_unique(st, i, j);
}

/// Replacing the document at index `i` by one with the same path keeps the
/// store well-formed and leaves every other path untouched.
proof fn lemma_update_preserves(pre: EditorState, post: EditorState, i: int, path: Seq<char>)
    requires
        pre.wf(),
        0 <= i < pre.documents@.len(),
        pre.documents@[i]@.path == path,
        post.documents@.len() == pre.documents@.len(),
        post.documents@[i]@.path == path,
        forall|j: int|
            0 <= j < pre.documents@.len() && j != i ==> post.documents@[j] == pre.documents@[j],
    ensures
        post.wf(),
        preserved_except(pre, post, path),
        post.has_doc(path),
        post.doc_at(path) == post.documents@[i]@,
        pre.has_doc(path),
        pre.doc_at(path) == pre.documents@[i]@,
{
    assert(post.wf()) by {
        assert forall|k: int, l: int|
            0 <= k < l < post.documents@.len() implies post.documents@[k]@.path
            != post.documents@[l]@.path by {
            assert(pre.documents@[k]@.path != pre.documents@[l]@.path);
        }
    }
    assert forall|q: Seq<char>| q != path implies (#[trigger] post.has_doc(q) <==> pre.has_doc(
        q,
    )) by {
        if post.has_doc(q) {
            let j = choose|j: int|
                0 <= j < post.documents@.len() && post.documents@[j]@.path == q;
            assert(j != i);
            assert(pre.documents@[j]@.path == q);
        }
        if pre.has_doc(q) {
            let j = choose|j: int| 0 <= j < pre.documents@.len() && pre.documents@[j]@.path == q;
            assert(j != i);
            assert(post.documents@[j]@.path == q);
        }
    }
    assert forall|q: Seq<char>| q != path && pre.has_doc(q) implies #[trigger] post.doc_at(q)
        == pre.doc_at(q) by {
        let jpre = choose|j: int| 0 <= j < pre.documents@.len() && pre.documents@[j]@.path == q;
        assert(jpre != i);
        assert(post.documents@[jpre]@.path == q);
        let jpost = choose|j: int|
            0 <= j < post.documents@.len() && post.documents@[j]@.path == q;
        assert(post.wf());
        assert(post.documents@[jpost]@.path == q);
        if jpost != jpre {
            assert(post.documents@[jpost]@.path == post.documents@[jpre]@.path);
            assert(false);
        }
    }
    lemma_doc_at_index(&post, i);
    lemma_doc_at_index(&pre, i);
}

/// Appending a document with a fresh path keeps the store well-formed and
/// leaves every other path untouched.
proof fn lemma_push_preserves(pre: EditorState, post: EditorState, path: Seq<char>)
    requires
        pre.wf(),
        !pre.has_doc(path),
        post.documents@.len() == pre.documents@.len() + 1,
        post.documents@[pre.documents@.len() as int]@.path == path,
        forall|j: int| 0 <= j < pre.documents@.len() ==> post.documents@[j] == pre.documents@[j],
    ensures
        post.wf(),
        preserved_except(pre, post, path),
        post.has_doc(path),
        post.doc_at(path) == post.documents@[pre.documents@.len() as int]@,
{
    let n = pre.documents@.len() as int;
    assert(post.wf()) by {
        assert forall|k: int, l: int|
            0 <= k < l < post.documents@.len() implies post.documents@[k]@.path
            != post.documents@[l]@.path by {
            if l < n {
                assert(pre.documents@[k]@.path != pre.documents@[l]@.path);
            } else {
                assert(post.documents@[l]@.path == path);
                assert(post.documents@[k]@.path == pre.documents@[k]@.path);
                if pre.documents@[k]@.path == path {
                    assert(pre.has_doc(path));
                }
            }
        }
    }
    assert forall|q: Seq<char>| q != path implies (#[trigger] post.has_doc(q) <==> pre.has_doc(
        q,
    )) by {
        if post.has_doc(q) {
            let j = choose|j: int|
                0 <= j < post.documents@.len() && post.documents@[j]@.path == q;
            assert(j != n);
            assert(pre.documents@[j]@.path == q);
        }
        if pre.has_doc(q) {
            let j = choose|j: int| 0 <= j < pre.documents@.len() && pre.documents@[j]@.path == q;
            assert(post.documents@[j]@.path == q);
        }
    }
    assert forall|q: Seq<char>| q != path && pre.has_doc(q) implies #[trigger] post.doc_at(q)
        == pre.doc_at(q) by {
        let jpre = choose|j: int| 0 <= j < pre.documents@.len() && pre.documents@[j]@.path == q;
        assert(post.documents@[jpre]@.path == q);
        let jpost = choose|j: int|
            0 <= j < post.documents@.len() && post.documents@[j]@.path == q;
        if jpost != jpre {
            assert(post.documents@[jpost]@.path == post.documents@[jpre]@.path);
            assert(false);
        }
    }
    lemma_doc_at_index(&post, n);
}

impl EditorState {
    /// The index of the document for `path`, if the store has one.
    fn find_index(&self, path: &str) -> (r: Option<usize>)
        ensures
            match r {
                Some(i) => i < self.documents@.len() && self.documents@[i as int]@.path == path@,
                None => !self.has_doc(path@),
            },
    {
        let n = self.documents.len();
        let mut i: usize = 0;
        while i < n
            invariant
                n == self.documents@.len(),
                i <= n,
                forall|j: int| 0 <= j < i ==> self.documents@[j]@.path != path@,
            decreases n - i,
        {
            if str_eq(self.documents[i].path.as_str(), path) {
                return Some(i);
            }
            i = i + 1;
        }
        None
    }

    /// A snapshot of the document for `path`, or `DocumentNotFound`.
    pub fn get_document(&self, path: &str) -> (r: Result<Document, EditorError>)
        requires
            self.wf(),
        ensures
            match r {
                Ok(d) => self.has_doc(path@) && d@ == self.doc_at(path@),
                Err(e) => e == EditorError::DocumentNotFound && !self.has_doc(path@),
            },
    {
        match self.find_index(path) {
            Some(i) => {
                proof {
                    lemma_doc_at_index(self, i as int);
                }
                Ok(self.documents[i].duplicate())
            },
            None => Err(EditorError::DocumentNotFound),
        }
    }

    /// The full text of the document for `path`, ready to be written to
    /// disk, or `DocumentNotFound`.
    pub fn document_text(&self, path: &str) -> (r: Result<String, EditorError>)
        requires
            self.wf(),
        ensures
            match r {
                Ok(s) => self.has_doc(path@) && s@ == self.doc_at(path@).text,
                Err(e) => e == EditorError::DocumentNotFound && !self.has_doc(path@),
            },
    {
        match self.find_index(path) {
            Some(i) => {
                proof {
                    lemma_doc_at_index(self, i as int);
                }
                Ok(rope_to_string(&self.documents[i].text))
            },
            None => Err(EditorError::DocumentNotFound),
        }
    }

    /// Opens the document for `path`, creating it on first access. The
    /// caller supplies what it read from the outside: the on-disk text and
    /// modification time (ignored for `buffer://` addresses), the worktree
    /// root it resolved, and the current time. A fresh document starts at
    /// version 0 with its language detected from the extension; an existing
    /// one is refreshed from `disk_text` only when the on-disk copy is newer,
    /// which bumps its version. Returns whether the document was created,
    /// which is true exactly once per path.
    pub fn open_document(
        &mut self,
        path: &str,
        disk_text: &str,
        disk_modified: u64,
        worktree_path: Option<String>,
        now: u64,
    ) -> (created: bool)
        requires
            old(self).wf(),
            old(self).has_doc(path@) ==> old(self).doc_at(path@).version < u64::MAX,
        ensures
            final(self).wf(),
            created == !old(self).has_doc(path@),
            final(self).has_doc(path@),
            preserved_except(*old(self), *final(self), path@),
            ({
                let d = final(self).doc_at(path@);
                if old(self).has_doc(path@) {
                    let pre = old(self).doc_at(path@);
                    if !is_buffer_path(path@) && disk_modified > pre.last_modified {
                        d == (DocumentView {
                            text: disk_text@,
                            last_modified: disk_modified,
                            version: (pre.version + 1) as u64,
                            ..pre
                        })
                    } else {
                        d == pre
                    }
                } else {
                    d == (DocumentView {
                        path: path@,
                        worktree_path: match worktree_path {
                            Some(w) => Some(w@),
                            None => None,
                        },
                        text: if is_buffer_path(path@) {
                            Seq::<char>::empty()
                        } else {
                            disk_text@
                        },
                        language: language_of(path@),
                        last_modified: now,
                        version: 0,
                    })
                }
            }),
    {
        let buffer = is_buffer(path);
        match self.find_index(path) {
            Some(i) => {
                let ghost pre_state = *self;
                proof {
                    lemma_doc_at_index(self, i as int);
                }
                let mut d = self.documents.remove(i);
                if !buffer && disk_modified > d.last_modified {
                    d.text = rope_from_str(disk_text);
                    d.last_modified = disk_modified;
                    d.version = d.version + 1;
                }
                self.documents.insert(i, d);
                proof {
                    assert(self.documents@ =~= pre_state.documents@.update(
                        i as int,
                        self.documents@[i as int],
                    ));
                    lemma_update_preserves(pre_state, *self, i as int, path@);
                }
                false
            },
            None => {
                let ghost pre_state = *self;
                let text = if buffer {
                    rope_new()
                } else {
                    rope_from_str(disk_text)
                };
                let language = detect_language(path);
                let d = Document {
                    path: path.to_owned(),
                    worktree_path,
                    text,
                    language,
                    last_modified: now,
                    version: 0,
                };
                self.documents.push(d);
                proof {
                    lemma_push_preserves(pre_state, *self, path@);
                }
                true
            },
        }
    }

    /// Applies an insert: resolves the UTF-16 offset to a character index,
    /// splices the text in, stamps the time and bumps the version by one.
    pub fn insert_text(&mut self, path: &str, data: &Insert, now: u64) -> (r: Result<
        (),
        EditorError,
    >)
        requires
            old(self).wf(),
            old(self).has_doc(path@) ==> {
                &&& old(self).doc_at(path@).version < u64::MAX
                &&& data.from_a <= utf16_len(old(self).doc_at(path@).text)
            },
        ensures
            final(self).wf(),
            match r {
                Ok(()) => {
                    &&& old(self).has_doc(path@)
                    &&& final(self).has_doc(path@)
                    &&& preserved_except(*old(self), *final(self), path@)
                    &&& ({
                        let pre = old(self).doc_at(path@);
                        final(self).doc_at(path@) == (DocumentView {
                            text: insert_at_utf16(pre.text, data.from_a as nat, data.text@),
                            last_modified: now,
                            version: (pre.version + 1) as u64,
                            ..pre
                        })
                    })
                },
                Err(e) => {
                    &&& e == EditorError::DocumentNotFound
                    &&& !old(self).has_doc(path@)
                    &&& *final(self) == *old(self)
                },
            },
    {
        match self.find_index(path) {
            Some(i) => {
                let ghost pre_state = *self;
                proof {
                    lemma_doc_at_index(self, i as int);
                }
                let mut d = self.documents.remove(i);
                proof {
                    lemma_char_of_utf16_le_len(rope_chars(&d.text), data.from_a as nat);
                }
                let from = rope_utf16_to_char(&d.text, data.from_a);
                rope_insert(&mut d.text, from, data.text.as_str());
                d.last_modified = now;
                d.version = d.version + 1;
                self.documents.insert(i, d);
                proof {
                    assert(self.documents@ =~= pre_state.documents@.update(
                        i as int,
                        self.documents@[i as int],
                    ));
                    lemma_update_preserves(pre_state, *self, i as int, path@);
                }
                Ok(())
            },
            None => Err(EditorError::DocumentNotFound),
        }
    }

    /// Applies a delete: resolves both UTF-16 offsets to character indices,
    /// removes the range, stamps the time and bumps the version by one.
    pub fn delete_text(&mut self, path: &str, data: &Delete, now: u64) -> (r: Result<
        (),
        EditorError,
    >)
        requires
            old(self).wf(),
            data.from_a <= data.to_a,
            old(self).has_doc(path@) ==> {
                &&& old(self).doc_at(path@).version < u64::MAX
                &&& data.to_a <= utf16_len(old(self).doc_at(path@).text)
            },
        ensures
            final(self).wf(),
            match r {
                Ok(()) => {
                    &&& old(self).has_doc(path@)
                    &&& final(self).has_doc(path@)
                    &&& preserved_except(*old(self), *final(self), path@)
                    &&& ({
                        let pre = old(self).doc_at(path@);
                        final(self).doc_at(path@) == (DocumentView {
                            text: delete_between_utf16(pre.text, data.from_a as nat, data.to_a as nat),
                            last_modified: now,
                            version: (pre.version + 1) as u64,
                            ..pre
                        })
                    })
                },
                Err(e) => {
                    &&& e == EditorError::DocumentNotFound
                    &&& !old(self).has_doc(path@)
                    &&& *final(self) == *old(self)
                },
            },
    {
        match self.find_index(path) {
            Some(i) => {
                let ghost pre_state = *self;
                proof {
                    lemma_doc_at_index(self, i as int);
                }
                let mut d = self.documents.remove(i);
                proof {
                    lemma_char_of_utf16_le_len(rope_chars(&d.text), data.to_a as nat);
                    lemma_char_of_utf16_monotone(
                        rope_chars(&d.text),
                        data.from_a as nat,
                        data.to_a as nat,
                    );
                }
                let from = rope_utf16_to_char(&d.text, data.from_a);
                let to = rope_utf16_to_char(&d.text, data.to_a);
                rope_remove(&mut d.text, from, to);
                d.last_modified = now;
                d.version = d.version + 1;
                self.documents.insert(i, d);
                proof {
                    assert(self.documents@ =~= pre_state.documents@.update(
                        i as int,
                        self.documents@[i as int],
                    ));
                    lemma_update_preserves(pre_state, *self, i as int, path@);
                }
                Ok(())
            },
            None => Err(EditorError::DocumentNotFound),
        }
    }

    /// Replaces the whole buffer (and possibly the language tag), stamps the
    /// time and bumps the version by one.
    pub fn replace_text(&mut self, path: &str, data: &UpdateDocument, now: u64) -> (r: Result<
        (),
        EditorError,
    >)
        requires
            old(self).wf(),
            old(self).has_doc(path@) ==> old(self).doc_at(path@).version < u64::MAX,
        ensures
            final(self).wf(),
            match r {
                Ok(()) => {
                    &&& old(self).has_doc(path@)
                    &&& final(self).has_doc(path@)
                    &&& preserved_except(*old(self), *final(self), path@)
                    &&& ({
                        let pre = old(self).doc_at(path@);
                        final(self).doc_at(path@) == (DocumentView {
                            text: data.text@,
                            language: match data.language {
                                Some(ref l) => Some(l.0@),
                                None => None,
                            },
                            last_modified: now,
                            version: (pre.version + 1) as u64,
                            ..pre
                        })
                    })
                },
                Err(e) => {
                    &&& e == EditorError::DocumentNotFound
                    &&& !old(self).has_doc(path@)
                    &&& *final(self) == *old(self)
                },
            },
    {
        match self.find_index(path) {
            Some(i) => {
                let ghost pre_state = *self;
                proof {
                    lemma_doc_at_index(self, i as int);
                }
                let mut d = self.documents.remove(i);
                d.text = rope_from_str(data.text.as_str());
                d.language = match data.language {
                    Some(ref l) => Some(Language(l.0.clone())),
                    None => None,
                };
                d.last_modified = now;
                d.version = d.version + 1;
                self.documents.insert(i, d);
                proof {
                    assert(self.documents@ =~= pre_state.documents@.update(
                        i as int,
                        self.documents@[i as int],
                    ));
                    lemma_update_preserves(pre_state, *self, i as int, path@);
                }
                Ok(())
            },
            None => Err(EditorError::DocumentNotFound),
        }
    }
}

} // verus!
