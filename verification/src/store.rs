//! The document registry: a bidirectional id/path store with per-document
//! cursor positions.
//!
//! The registry owns all document metadata. Its invariant: ids are unique
//! and paths are unique, so the id-to-path and path-to-id directions are
//! always mutual inverses. Every document carries a cursor position, set to
//! the default at creation.

use vstd::prelude::*;
use crate::utils::{doc_id_of, generate_document_id, str_eq};

verus! {

/// Mathematical model of one registered document.
pub ghost struct DocModel {
    pub id: Seq<char>,
    pub path: Seq<char>,
    pub position: Seq<char>,
}

struct DocRecord {
    id: String,
    path: String,
    position: String,
}

impl View for DocRecord {
    type V = DocModel;

    closed spec fn view(&self) -> DocModel {
        DocModel { id: self.id@, path: self.path@, position: self.position@ }
    }
}

impl DeepView for DocRecord {
    type V = DocModel;

    open spec fn deep_view(&self) -> DocModel {
        self.view()
    }
}

/// The cursor position every document starts with.
pub open spec fn default_position() -> Seq<char> {
    "1:1-1:1"@
}

/// Well-formedness of a registry model: ids pairwise distinct, paths
/// pairwise distinct.
pub open spec fn wf_docs(s: Seq<DocModel>) -> bool {
    forall|i: int, j: int|
        0 <= i < j < s.len() ==> s[i].id != s[j].id && s[i].path != s[j].path
}

/// Some document carries this id.
pub open spec fn has_id_in(s: Seq<DocModel>, id: Seq<char>) -> bool {
    exists|i: int| 0 <= i < s.len() && s[i].id == id
}

/// The index of the document with this id.
pub open spec fn idx_of_id_in(s: Seq<DocModel>, id: Seq<char>) -> int {
    choose|i: int| 0 <= i < s.len() && s[i].id == id
}

/// The path of the document with this id.
pub open spec fn path_of_in(s: Seq<DocModel>, id: Seq<char>) -> Seq<char> {
    s[idx_of_id_in(s, id)].path
}

/// The cursor position of the document with this id.
pub open spec fn pos_of_in(s: Seq<DocModel>, id: Seq<char>) -> Seq<char> {
    s[idx_of_id_in(s, id)].position
}

/// Some document is bound to this path.
pub open spec fn has_path_in(s: Seq<DocModel>, path: Seq<char>) -> bool {
    exists|i: int| 0 <= i < s.len() && s[i].path == path
}

/// The index of the document bound to this path.
pub open spec fn idx_of_path_in(s: Seq<DocModel>, path: Seq<char>) -> int {
    choose|i: int| 0 <= i < s.len() && s[i].path == path
}

/// The id of the document bound to this path.
pub open spec fn id_of_path_in(s: Seq<DocModel>, path: Seq<char>) -> Seq<char> {
    s[idx_of_path_in(s, path)].id
}

/// In a well-formed registry the index of an id is the only one that
/// carries it.
pub proof fn lemma_idx_of_id(s: Seq<DocModel>, i: int, id: Seq<char>)
    requires
        wf_docs(s),
        0 <= i < s.len(),
        s[i].id == id,
    ensures
        has_id_in(s, id),
        idx_of_id_in(s, id) == i,
{
    assert(has_id_in(s, id));
    let j = idx_of_id_in(s, id);
    assert(0 <= j < s.len() && s[j].id == id);
    if i < j {
        assert(s[i].id != s[j].id);
    } else if j < i {
        assert(s[j].id != s[i].id);
    }
}

/// In a well-formed registry the index of a path is the only one that
/// carries it.
pub proof fn lemma_idx_of_path(s: Seq<DocModel>, i: int, path: Seq<char>)
    requires
        wf_docs(s),
        0 <= i < s.len(),
        s[i].path == path,
    ensures
        has_path_in(s, path),
        idx_of_path_in(s, path) == i,
{
    assert(has_path_in(s, path));
    let j = idx_of_path_in(s, path);
    assert(0 <= j < s.len() && s[j].path == path);
    if i < j {
        assert(s[i].path != s[j].path);
    } else if j < i {
        assert(s[j].path != s[i].path);
    }
}

/// What `register` does to the registry model: an already-registered path
/// keeps the registry unchanged and yields its existing id; a new path is
/// appended with its derived id and the default position.
pub open spec fn spec_register(s: Seq<DocModel>, path: Seq<char>) -> (Seq<DocModel>, Seq<char>) {
    if has_path_in(s, path) {
        (s, id_of_path_in(s, path))
    } else {
        (
            s.push(DocModel { id: doc_id_of(path), path: path, position: default_position() }),
            doc_id_of(path),
        )
    }
}

/// What `remove_document` does to the registry model.
pub open spec fn spec_remove(s: Seq<DocModel>, id: Seq<char>) -> (Seq<DocModel>, Option<Seq<char>>) {
    if has_id_in(s, id) {
        (s.remove(idx_of_id_in(s, id)), Some(path_of_in(s, id)))
    } else {
        (s, None)
    }
}

/// What `update_position` does to the registry model: a known id has its
/// position overwritten, an unknown id leaves the registry unchanged.
pub open spec fn spec_update(s: Seq<DocModel>, id: Seq<char>, pos: Seq<char>) -> Seq<DocModel> {
    if has_id_in(s, id) {
        let i = idx_of_id_in(s, id);
        s.update(i, DocModel { id: s[i].id, path: s[i].path, position: pos })
    } else {
        s
    }
}

/// The bidirectional id/path/position store. All mutation preserves `wf`.
pub struct DocumentStore {
    docs: Vec<DocRecord>,
}

impl View for DocumentStore {
    type V = Seq<DocModel>;

    closed spec fn view(&self) -> Seq<DocModel> {
        self.docs.deep_view()
    }
}

impl DocumentStore {
    /// The registry invariant: ids unique, paths unique.
    pub open spec fn wf(&self) -> bool {
        wf_docs(self@)
    }

    /// An empty registry.
    pub fn new() -> (s: Self)
        ensures
            s@ == Seq::<DocModel>::empty(),
            s.wf(),
    {
        let s = DocumentStore { docs: Vec::new() };
        proof {
            assert(s@ =~= Seq::<DocModel>::empty());
        }
        s
    }

    fn find_by_id(&self, id: &str) -> (r: Option<usize>)
        ensures
            match r {
                Some(i) => 0 <= i < self@.len() && self@[i as int].id == id@,
                None => !has_id_in(self@, id@),
            },
    {
        let n = self.docs.len();
        let mut i: usize = 0;
        while i < n
            invariant
                n == self@.len(),
                i <= n,
                forall|k: int| 0 <= k < i ==> self@[k].id != id@,
            decreases n - i,
        {
            if str_eq(self.docs[i].id.as_str(), id) {
                return Some(i);
            }
            i = i + 1;
        }
        None
    }

    fn find_by_path(&self, path: &str) -> (r: Option<usize>)
        ensures
            match r {
                Some(i) => 0 <= i < self@.len() && self@[i as int].path == path@,
                None => !has_path_in(self@, path@),
            },
    {
        let n = self.docs.len();
        let mut i: usize = 0;
        while i < n
            invariant
                n == self@.len(),
                i <= n,
                forall|k: int| 0 <= k < i ==> self@[k].path != path@,
            decreases n - i,
        {
            if str_eq(self.docs[i].path.as_str(), path) {
                return Some(i);
            }
            i = i + 1;
        }
        None
    }

    /// Looks an id up by the path it is bound to; no mutation.
    pub fn get_id_by_filepath(&self, filepath: &str) -> (r: Option<String>)
        requires
            self.wf(),
        ensures
            r is Some <==> has_path_in(self@, filepath@),
            r matches Some(id) ==> id@ == id_of_path_in(self@, filepath@),
    {
        match self.find_by_path(filepath) {
            Some(i) => {
                proof {
                    lemma_idx_of_path(self@, i as int, filepath@);
                }
                Some(self.docs[i].id.clone())
            },
            None => None,
        }
    }

    /// Looks a path up by id; no mutation.
    pub fn get_filepath_by_id(&self, id: &str) -> (r: Option<String>)
        requires
            self.wf(),
        ensures
            r is Some <==> has_id_in(self@, id@),
            r matches Some(p) ==> p@ == path_of_in(self@, id@),
    {
        match self.find_by_id(id) {
            Some(i) => {
                proof {
                    lemma_idx_of_id(self@, i as int, id@);
                }
                Some(self.docs[i].path.clone())
            },
            None => None,
        }
    }

    /// The stored cursor position of a document, or nothing for an unknown
    /// id.
    pub fn get_position(&self, id: &str) -> (r: Option<String>)
        requires
            self.wf(),
        ensures
            r is Some <==> has_id_in(self@, id@),
            r matches Some(p) ==> p@ == pos_of_in(self@, id@),
    {
        match self.find_by_id(id) {
            Some(i) => {
                proof {
                    lemma_idx_of_id(self@, i as int, id@);
                }
                Some(self.docs[i].position.clone())
            },
            None => None,
        }
    }

    /// Inserts a document under a fresh id and path, with the default
    /// cursor position. Freshness keeps the two directions mutual inverses.
    pub fn add_document(&mut self, id: String, filepath: String)
        requires
            old(self).wf(),
            !has_id_in(old(self)@, id@),
            !has_path_in(old(self)@, filepath@),
        ensures
            final(self)@ == old(self)@.push(
                DocModel { id: id@, path: filepath@, position: default_position() },
            ),
            final(self).wf(),
    {
        let ghost m = DocModel { id: id@, path: filepath@, position: default_position() };
        let ghost s0 = self@;
        self.docs.push(DocRecord { id: id, path: filepath, position: "1:1-1:1".to_owned() });
        proof {
            assert(self@ =~= s0.push(m));
            lemma_wf_push(s0, m);
        }
    }

    /// Registers a path: an already-registered path returns its existing id
    /// and changes nothing; a new path is stored under its derived id with
    /// the default position. Idempotent per path.
    ///
    /// The caller keeps derived ids collision-free: a freshly derived id is
    /// not already bound to a different path (given by construction for
    /// content-addressed ids).
    pub fn register(&mut self, filepath: String) -> (id: String)
        requires
            old(self).wf(),
            !has_path_in(old(self)@, filepath@) ==> !has_id_in(old(self)@, doc_id_of(filepath@)),
        ensures
            final(self).wf(),
            final(self)@ == spec_register(old(self)@, filepath@).0,
            id@ == spec_register(old(self)@, filepath@).1,
    {
        match self.get_id_by_filepath(filepath.as_str()) {
            Some(id) => id,
            None => {
                let id = generate_document_id(filepath.as_str());
                self.add_document(id.clone(), filepath);
                id
            },
        }
    }

    /// Removes a document by id, returning its path; safe on unknown ids.
    pub fn remove_document(&mut self, id: &str) -> (r: Option<String>)
        requires
            old(self).wf(),
        ensures
            final(self).wf(),
            final(self)@ == spec_remove(old(self)@, id@).0,
            r.deep_view() == spec_remove(old(self)@, id@).1,
    {
        match self.find_by_id(id) {
            Some(i) => {
                proof {
                    lemma_idx_of_id(self@, i as int, id@);
                }
                let ghost s0 = self@;
                let rec = self.docs.remove(i);
                proof {
                    assert(self@ =~= s0.remove(i as int));
                    lemma_wf_remove(s0, i as int);
                }
                Some(rec.path)
            },
            None => None,
        }
    }

    /// Overwrites the cursor position of a known document; an unknown id is
    /// reported as not found and changes nothing.
    pub fn update_position(&mut self, id: &str, sourcepos: String) -> (found: bool)
        requires
            old(self).wf(),
        ensures
            final(self).wf(),
            found == has_id_in(old(self)@, id@),
            final(self)@ == spec_update(old(self)@, id@, sourcepos@),
    {
        match self.find_by_id(id) {
            Some(i) => {
                proof {
                    lemma_idx_of_id(self@, i as int, id@);
                }
                let ghost s0 = self@;
                self.docs[i].position = sourcepos;
                proof {
                    assert(self@ =~= spec_update(s0, id@, sourcepos@));
                    lemma_wf_update_position(s0, i as int, sourcepos@);
                }
                true
            },
            None => false,
        }
    }

    /// A point-in-time snapshot of all (id, path) bindings. Iteration order
    /// is an artifact of the store and not part of the contract.
    pub fn get_all_documents(&self) -> (r: Vec<(String, String)>)
        ensures
            r@.len() == self@.len(),
            forall|i: int|
                0 <= i < self@.len() ==> r.deep_view()[i] == (self@[i].id, self@[i].path),
    {
        let n = self.docs.len();
        let mut r: Vec<(String, String)> = Vec::new();
        let mut i: usize = 0;
        while i < n
            invariant
                n == self@.len(),
                i <= n,
                r@.len() == i,
                forall|k: int| 0 <= k < i ==> r.deep_view()[k] == (self@[k].id, self@[k].path),
            decreases n - i,
        {
            let ghost prev = r.deep_view();
            r.push((self.docs[i].id.clone(), self.docs[i].path.clone()));
            proof {
                assert(r.deep_view() =~= prev.push((self@[i as int].id, self@[i as int].path)));
            }
            i = i + 1;
        }
        r
    }
}

/// Appending a document with a fresh id and path preserves well-formedness.
pub proof fn lemma_wf_push(s: Seq<DocModel>, m: DocModel)
    requires
        wf_docs(s),
        !has_id_in(s, m.id),
        !has_path_in(s, m.path),
    ensures
        wf_docs(s.push(m)),
{
    let t = s.push(m);
    assert forall|i: int, j: int| 0 <= i < j < t.len() implies t[i].id != t[j].id && t[i].path
        != t[j].path by {
        if j == s.len() {
            assert(t[i] == s[i]);
            if t[i].id == m.id {
                assert(has_id_in(s, m.id));
            }
            if t[i].path == m.path {
                assert(has_path_in(s, m.path));
            }
        } else {
            assert(t[i] == s[i] && t[j] == s[j]);
        }
    }
}

/// Removing a document preserves well-formedness.
pub proof fn lemma_wf_remove(s: Seq<DocModel>, i: int)
    requires
        wf_docs(s),
        0 <= i < s.len(),
    ensures
        wf_docs(s.remove(i)),
{
    let t = s.remove(i);
    assert forall|a: int, b: int| 0 <= a < b < t.len() implies t[a].id != t[b].id && t[a].path
        != t[b].path by {
        let a0 = if a < i { a } else { a + 1 };
        let b0 = if b < i { b } else { b + 1 };
        assert(t[a] == s[a0] && t[b] == s[b0]);
    }
}

/// How many documents are bound to a path.
pub open spec fn count_path(s: Seq<DocModel>, p: Seq<char>) -> nat
    decreases s.len(),
{
    if s.len() == 0 {
        0
    } else {
        count_path(s.drop_last(), p) + (if s.last().path == p {
            1nat
        } else {
            0nat
        })
    }
}

/// A path bound to no document is counted zero times.
pub proof fn lemma_count_path_zero(s: Seq<DocModel>, p: Seq<char>)
    requires
        !has_path_in(s, p),
    ensures
        count_path(s, p) == 0,
    decreases s.len(),
{
    if s.len() > 0 {
        assert forall|i: int| 0 <= i < s.len() - 1 implies s.drop_last()[i].path != p by {
            assert(s.drop_last()[i] == s[i]);
        }
        lemma_count_path_zero(s.drop_last(), p);
        assert(s.last() == s[s.len() - 1]);
    }
}

/// In a well-formed registry a registered path is counted exactly once.
pub proof fn lemma_count_path_one(s: Seq<DocModel>, p: Seq<char>)
    requires
        wf_docs(s),
        has_path_in(s, p),
    ensures
        count_path(s, p) == 1,
    decreases s.len(),
{
    let i = choose|i: int| 0 <= i < s.len() && s[i].path == p;
    let t = s.drop_last();
    assert forall|a: int, b: int| 0 <= a < b < t.len() implies t[a].id != t[b].id && t[a].path
        != t[b].path by {
        assert(t[a] == s[a] && t[b] == s[b]);
    }
    if s.last().path == p {
        assert forall|k: int| 0 <= k < t.len() implies t[k].path != p by {
            assert(t[k] == s[k]);
            assert(s[k].path != s[s.len() - 1].path);
        }
        lemma_count_path_zero(t, p);
    } else {
        assert(i < s.len() - 1);
        assert(t[i] == s[i]);
        assert(has_path_in(t, p));
        lemma_count_path_one(t, p);
    }
}

/// Registering a path twice yields the same id both times, the second call
/// changes nothing, and the path ends bound to exactly one document.
pub proof fn lemma_register_idempotent(s: Seq<DocModel>, p: Seq<char>)
    requires
        wf_docs(s),
        !has_path_in(s, p) ==> !has_id_in(s, doc_id_of(p)),
    ensures
        ({
            let (s1, id1) = spec_register(s, p);
            let (s2, id2) = spec_register(s1, p);
            &&& id2 == id1
            &&& s2 == s1
            &&& count_path(s1, p) == 1
        }),
{
    if has_path_in(s, p) {
        lemma_count_path_one(s, p);
    } else {
        let m = DocModel { id: doc_id_of(p), path: p, position: default_position() };
        let s1 = s.push(m);
        lemma_wf_push(s, m);
        assert(s1[s.len() as int] == m);
        lemma_idx_of_path(s1, s.len() as int, p);
        assert(id_of_path_in(s1, p) == doc_id_of(p));
        lemma_count_path_one(s1, p);
    }
}

/// Bidirectional consistency: for every registered id, resolving its path
/// leads back to the id, and for every registered path, locating its id
/// leads back to the path.
pub proof fn lemma_bidirectional(s: Seq<DocModel>)
    requires
        wf_docs(s),
    ensures
        forall|id: Seq<char>|
            #[trigger] has_id_in(s, id) ==> has_path_in(s, path_of_in(s, id)) && id_of_path_in(
                s,
                path_of_in(s, id),
            ) == id,
        forall|p: Seq<char>|
            #[trigger] has_path_in(s, p) ==> has_id_in(s, id_of_path_in(s, p)) && path_of_in(
                s,
                id_of_path_in(s, p),
            ) == p,
{
    assert forall|id: Seq<char>| #[trigger] has_id_in(s, id) implies has_path_in(
        s,
        path_of_in(s, id),
    ) && id_of_path_in(s, path_of_in(s, id)) == id by {
        let i = idx_of_id_in(s, id);
        assert(0 <= i < s.len() && s[i].id == id);
        lemma_idx_of_path(s, i, s[i].path);
    }
    assert forall|p: Seq<char>| #[trigger] has_path_in(s, p) implies has_id_in(
        s,
        id_of_path_in(s, p),
    ) && path_of_in(s, id_of_path_in(s, p)) == p by {
        let i = idx_of_path_in(s, p);
        assert(0 <= i < s.len() && s[i].path == p);
        lemma_idx_of_id(s, i, s[i].id);
    }
}

/// After a removal the removed id is no longer registered; a later attempt
/// to open a session for it (or to remove it again) reports not-found.
pub proof fn lemma_removed_not_found(s: Seq<DocModel>, id: Seq<char>)
    requires
        wf_docs(s),
    ensures
        !has_id_in(spec_remove(s, id).0, id),
{
    if has_id_in(s, id) {
        let i = idx_of_id_in(s, id);
        let t = s.remove(i);
        assert forall|k: int| 0 <= k < t.len() implies t[k].id != id by {
            let k0 = if k < i {
                k
            } else {
                k + 1
            };
            assert(t[k] == s[k0]);
            if s[k0].id == id {
                lemma_idx_of_id(s, k0, id);
            }
        }
    }
}

/// Overwriting a registered document's position and then reading it back
/// yields exactly the written position.
pub proof fn lemma_update_then_get(s: Seq<DocModel>, id: Seq<char>, pos: Seq<char>)
    requires
        wf_docs(s),
        has_id_in(s, id),
    ensures
        has_id_in(spec_update(s, id, pos), id),
        pos_of_in(spec_update(s, id, pos), id) == pos,
{
    let i = idx_of_id_in(s, id);
    let t = spec_update(s, id, pos);
    lemma_wf_update_position(s, i, pos);
    assert(t[i].id == id);
    lemma_idx_of_id(t, i, id);
}

/// A freshly registered document carries the default cursor position, so a
/// session opened before any position update snapshots the default.
pub proof fn lemma_fresh_document_default_position(s: Seq<DocModel>, p: Seq<char>)
    requires
        wf_docs(s),
        !has_path_in(s, p),
        !has_id_in(s, doc_id_of(p)),
    ensures
        has_id_in(spec_register(s, p).0, spec_register(s, p).1),
        pos_of_in(spec_register(s, p).0, spec_register(s, p).1) == default_position(),
{
    let m = DocModel { id: doc_id_of(p), path: p, position: default_position() };
    let s1 = s.push(m);
    lemma_wf_push(s, m);
    assert(s1[s.len() as int] == m);
    lemma_idx_of_id(s1, s.len() as int, doc_id_of(p));
}

/// Overwriting only the position of one document preserves
/// well-formedness.
pub proof fn lemma_wf_update_position(s: Seq<DocModel>, i: int, pos: Seq<char>)
    requires
        wf_docs(s),
        0 <= i < s.len(),
    ensures
        wf_docs(s.update(i, DocModel { id: s[i].id, path: s[i].path, position: pos })),
{
    let t = s.update(i, DocModel { id: s[i].id, path: s[i].path, position: pos });
    assert forall|a: int, b: int| 0 <= a < b < t.len() implies t[a].id != t[b].id && t[a].path
        != t[b].path by {
        assert(t[a].id == s[a].id && t[a].path == s[a].path);
        assert(t[b].id == s[b].id && t[b].path == s[b].path);
    }
}

} // verus!
