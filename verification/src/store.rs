//! The in-memory relational store.
//!
//! One table per row type, held in insertion order. Server-assigned ids
//! come from per-table counters, so within each table ids are unique and
//! strictly increasing in row order. The well-formedness predicate below
//! also carries the structural invariants of the associations: a document
//! has at most one parent edge (the forest invariant), and a knowledge
//! base is linked to a document by at most one row.

use vstd::prelude::*;

use crate::records::{DialogRecord, DocEdge, DocRecord, KbDocLink, KbRecord, TagRecord, UserRecord};

verus! {

pub struct Store {
    pub users: Vec<UserRecord>,
    pub tags: Vec<TagRecord>,
    pub kbs: Vec<KbRecord>,
    pub docs: Vec<DocRecord>,
    pub dialogs: Vec<DialogRecord>,
    pub doc_edges: Vec<DocEdge>,
    pub kb_links: Vec<KbDocLink>,
    pub next_uid: i64,
    pub next_tid: i64,
    pub next_kb_id: i64,
    pub next_did: i64,
    pub next_dialog_id: i64,
    pub next_edge_id: i64,
    pub next_link_id: i64,
}

pub open spec fn users_wf(users: Seq<UserRecord>, next_uid: i64) -> bool {
    &&& forall|i: int| 0 <= i < users.len() ==> 0 < #[trigger] users[i].uid < next_uid
    &&& forall|i: int, j: int|
        0 <= i < j < users.len() ==> #[trigger] users[i].uid < #[trigger] users[j].uid
}

pub open spec fn tags_wf(tags: Seq<TagRecord>, next_tid: i64) -> bool {
    &&& forall|i: int| 0 <= i < tags.len() ==> 0 < #[trigger] tags[i].tid < next_tid
    &&& forall|i: int, j: int|
        0 <= i < j < tags.len() ==> #[trigger] tags[i].tid < #[trigger] tags[j].tid
}

pub open spec fn kbs_wf(kbs: Seq<KbRecord>, next_kb_id: i64) -> bool {
    &&& forall|i: int| 0 <= i < kbs.len() ==> 0 < #[trigger] kbs[i].kb_id < next_kb_id
    &&& forall|i: int, j: int|
        0 <= i < j < kbs.len() ==> #[trigger] kbs[i].kb_id < #[trigger] kbs[j].kb_id
}

pub open spec fn docs_wf(docs: Seq<DocRecord>, next_did: i64) -> bool {
    &&& forall|i: int| 0 <= i < docs.len() ==> 0 < #[trigger] docs[i].did < next_did
    &&& forall|i: int, j: int|
        0 <= i < j < docs.len() ==> #[trigger] docs[i].did < #[trigger] docs[j].did
}

pub open spec fn dialogs_wf(dialogs: Seq<DialogRecord>, next_dialog_id: i64) -> bool {
    &&& forall|i: int| 0 <= i < dialogs.len() ==> 0 < #[trigger] dialogs[i].dialog_id < next_dialog_id
    &&& forall|i: int, j: int|
        0 <= i < j < dialogs.len() ==> #[trigger] dialogs[i].dialog_id
            < #[trigger] dialogs[j].dialog_id
}

/// Edge rows carry server ids, and no document is the child of two edges:
/// the parent edges form a forest.
pub open spec fn edges_wf(edges: Seq<DocEdge>, next_edge_id: i64) -> bool {
    &&& forall|i: int| 0 <= i < edges.len() ==> 0 < #[trigger] edges[i].id < next_edge_id
    &&& forall|i: int, j: int|
        0 <= i < j < edges.len() ==> #[trigger] edges[i].id < #[trigger] edges[j].id
    &&& forall|i: int, j: int|
        0 <= i < edges.len() && 0 <= j < edges.len() && i != j ==> #[trigger] edges[i].did
            != #[trigger] edges[j].did
}

/// Link rows carry server ids, and a (knowledge base, document) pair has
/// at most one link row.
pub open spec fn links_wf(links: Seq<KbDocLink>, next_link_id: i64) -> bool {
    &&& forall|i: int| 0 <= i < links.len() ==> 0 < #[trigger] links[i].id < next_link_id
    &&& forall|i: int, j: int|
        0 <= i < j < links.len() ==> #[trigger] links[i].id < #[trigger] links[j].id
    &&& forall|i: int, j: int|
        0 <= i < links.len() && 0 <= j < links.len() && i != j ==> !(#[trigger] links[i].kb_id
            == #[trigger] links[j].kb_id && links[i].did == links[j].did)
}

impl Store {
    /// The structural invariants of the store, preserved by every
    /// operation.
    pub open spec fn wf(self) -> bool {
        &&& users_wf(self.users@, self.next_uid)
        &&& tags_wf(self.tags@, self.next_tid)
        &&& kbs_wf(self.kbs@, self.next_kb_id)
        &&& docs_wf(self.docs@, self.next_did)
        &&& dialogs_wf(self.dialogs@, self.next_dialog_id)
        &&& edges_wf(self.doc_edges@, self.next_edge_id)
        &&& links_wf(self.kb_links@, self.next_link_id)
        &&& 0 < self.next_uid
        &&& 0 < self.next_tid
        &&& 0 < self.next_kb_id
        &&& 0 < self.next_did
        &&& 0 < self.next_dialog_id
        &&& 0 < self.next_edge_id
        &&& 0 < self.next_link_id
    }

    /// An empty store.
    pub fn new() -> (s: Store)
        ensures
            s.wf(),
            s.users@ =~= Seq::<UserRecord>::empty(),
            s.tags@ =~= Seq::<TagRecord>::empty(),
            s.kbs@ =~= Seq::<KbRecord>::empty(),
            s.docs@ =~= Seq::<DocRecord>::empty(),
            s.dialogs@ =~= Seq::<DialogRecord>::empty(),
            s.doc_edges@ =~= Seq::<DocEdge>::empty(),
            s.kb_links@ =~= Seq::<KbDocLink>::empty(),
    {
        Store {
            users: Vec::new(),
            tags: Vec::new(),
            kbs: Vec::new(),
            docs: Vec::new(),
            dialogs: Vec::new(),
            doc_edges: Vec::new(),
            kb_links: Vec::new(),
            next_uid: 1,
            next_tid: 1,
            next_kb_id: 1,
            next_did: 1,
            next_dialog_id: 1,
            next_edge_id: 1,
            next_link_id: 1,
        }
    }
}

/// The user table and its counter are the same in both stores.
pub open spec fn same_users(a: Store, b: Store) -> bool {
    a.users@ == b.users@ && a.next_uid == b.next_uid
}

/// The tag table and its counter are the same in both stores.
pub open spec fn same_tags(a: Store, b: Store) -> bool {
    a.tags@ == b.tags@ && a.next_tid == b.next_tid
}

/// The knowledge-base table and its counter are the same in both stores.
pub open spec fn same_kbs(a: Store, b: Store) -> bool {
    a.kbs@ == b.kbs@ && a.next_kb_id == b.next_kb_id
}

/// The document table and its counter are the same in both stores.
pub open spec fn same_docs(a: Store, b: Store) -> bool {
    a.docs@ == b.docs@ && a.next_did == b.next_did
}

/// The dialog table and its counter are the same in both stores.
pub open spec fn same_dialogs(a: Store, b: Store) -> bool {
    a.dialogs@ == b.dialogs@ && a.next_dialog_id == b.next_dialog_id
}

/// The edge table and its counter are the same in both stores.
pub open spec fn same_edges(a: Store, b: Store) -> bool {
    a.doc_edges@ == b.doc_edges@ && a.next_edge_id == b.next_edge_id
}

/// The link table and its counter are the same in both stores.
pub open spec fn same_links(a: Store, b: Store) -> bool {
    a.kb_links@ == b.kb_links@ && a.next_link_id == b.next_link_id
}

/// There is a document row with this id.
pub open spec fn has_doc(docs: Seq<DocRecord>, did: i64) -> bool {
    exists|i: int| 0 <= i < docs.len() && #[trigger] docs[i].did == did
}

/// The index of the document row with this id.
pub open spec fn doc_idx(docs: Seq<DocRecord>, did: i64) -> int {
    choose|i: int| 0 <= i < docs.len() && #[trigger] docs[i].did == did
}

/// The document row with this id.
pub open spec fn doc_of(docs: Seq<DocRecord>, did: i64) -> DocRecord {
    docs[doc_idx(docs, did)]
}

/// There is a user row with this id.
pub open spec fn has_user(users: Seq<UserRecord>, uid: i64) -> bool {
    exists|i: int| 0 <= i < users.len() && #[trigger] users[i].uid == uid
}

/// The index of the user row with this id.
pub open spec fn user_idx(users: Seq<UserRecord>, uid: i64) -> int {
    choose|i: int| 0 <= i < users.len() && #[trigger] users[i].uid == uid
}

/// There is a tag row with this id.
pub open spec fn has_tag(tags: Seq<TagRecord>, tid: i64) -> bool {
    exists|i: int| 0 <= i < tags.len() && #[trigger] tags[i].tid == tid
}

/// The index of the tag row with this id.
pub open spec fn tag_idx(tags: Seq<TagRecord>, tid: i64) -> int {
    choose|i: int| 0 <= i < tags.len() && #[trigger] tags[i].tid == tid
}

/// The tag row with this id.
pub open spec fn tag_of(tags: Seq<TagRecord>, tid: i64) -> TagRecord {
    tags[tag_idx(tags, tid)]
}

/// There is a knowledge-base row with this id.
pub open spec fn has_kb(kbs: Seq<KbRecord>, kb_id: i64) -> bool {
    exists|i: int| 0 <= i < kbs.len() && #[trigger] kbs[i].kb_id == kb_id
}

/// The index of the knowledge-base row with this id.
pub open spec fn kb_idx(kbs: Seq<KbRecord>, kb_id: i64) -> int {
    choose|i: int| 0 <= i < kbs.len() && #[trigger] kbs[i].kb_id == kb_id
}

/// There is a dialog row with this id.
pub open spec fn has_dialog(dialogs: Seq<DialogRecord>, dialog_id: i64) -> bool {
    exists|i: int| 0 <= i < dialogs.len() && #[trigger] dialogs[i].dialog_id == dialog_id
}

/// The index of the dialog row with this id.
pub open spec fn dialog_idx(dialogs: Seq<DialogRecord>, dialog_id: i64) -> int {
    choose|i: int| 0 <= i < dialogs.len() && #[trigger] dialogs[i].dialog_id == dialog_id
}

/// There is a parent edge whose child is this document.
pub open spec fn has_edge_for(edges: Seq<DocEdge>, did: i64) -> bool {
    exists|i: int| 0 <= i < edges.len() && #[trigger] edges[i].did == did
}

/// The index of the parent edge whose child is this document.
pub open spec fn edge_idx_for(edges: Seq<DocEdge>, did: i64) -> int {
    choose|i: int| 0 <= i < edges.len() && #[trigger] edges[i].did == did
}

/// There is a link row for this (knowledge base, document) pair.
pub open spec fn has_link(links: Seq<KbDocLink>, kb_id: i64, did: i64) -> bool {
    exists|i: int|
        0 <= i < links.len() && #[trigger] links[i].kb_id == kb_id && #[trigger] links[i].did
            == did
}

/// The index of the link row for this (knowledge base, document) pair.
pub open spec fn link_idx(links: Seq<KbDocLink>, kb_id: i64, did: i64) -> int {
    choose|i: int|
        0 <= i < links.len() && #[trigger] links[i].kb_id == kb_id && #[trigger] links[i].did
            == did
}

impl Store {
    /// The position of the document row with this id, if any.
    pub fn doc_index(&self, did: i64) -> (r: Option<usize>)
        requires
            self.wf(),
        ensures
            match r {
                Some(i) => 0 <= i < self.docs@.len() && self.docs@[i as int].did == did && doc_idx(
                    self.docs@,
                    did,
                ) == i as int && has_doc(self.docs@, did),
                None => !has_doc(self.docs@, did),
            },
    {
        let mut i: usize = 0;
        while i < self.docs.len()
            invariant
                self.wf(),
                i <= self.docs@.len(),
                forall|j: int| 0 <= j < i ==> #[trigger] self.docs@[j].did != did,
            decreases self.docs@.len() - i,
        {
            if self.docs[i].did == did {
                proof {
                    let k = doc_idx(self.docs@, did);
                    assert(0 <= k < self.docs@.len() && self.docs@[k].did == did);
                }
                return Some(i);
            }
            i += 1;
        }
        None
    }

    /// The position of the user row with this id, if any.
    pub fn user_index(&self, uid: i64) -> (r: Option<usize>)
        requires
            self.wf(),
        ensures
            match r {
                Some(i) => 0 <= i < self.users@.len() && self.users@[i as int].uid == uid
                    && user_idx(self.users@, uid) == i as int && has_user(self.users@, uid),
                None => !has_user(self.users@, uid),
            },
    {
        let mut i: usize = 0;
        while i < self.users.len()
            invariant
                self.wf(),
                i <= self.users@.len(),
                forall|j: int| 0 <= j < i ==> #[trigger] self.users@[j].uid != uid,
            decreases self.users@.len() - i,
        {
            if self.users[i].uid == uid {
                proof {
                    let k = user_idx(self.users@, uid);
                    assert(0 <= k < self.users@.len() && self.users@[k].uid == uid);
                }
                return Some(i);
            }
            i += 1;
        }
        None
    }

    /// The position of the tag row with this id, if any.
    pub fn tag_index(&self, tid: i64) -> (r: Option<usize>)
        requires
            self.wf(),
        ensures
            match r {
                Some(i) => 0 <= i < self.tags@.len() && self.tags@[i as int].tid == tid && tag_idx(
                    self.tags@,
                    tid,
                ) == i as int && has_tag(self.tags@, tid),
                None => !has_tag(self.tags@, tid),
            },
    {
        let mut i: usize = 0;
        while i < self.tags.len()
            invariant
                self.wf(),
                i <= self.tags@.len(),
                forall|j: int| 0 <= j < i ==> #[trigger] self.tags@[j].tid != tid,
            decreases self.tags@.len() - i,
        {
            if self.tags[i].tid == tid {
                proof {
                    let k = tag_idx(self.tags@, tid);
                    assert(0 <= k < self.tags@.len() && self.tags@[k].tid == tid);
                }
                return Some(i);
            }
            i += 1;
        }
        None
    }

    /// The position of the knowledge-base row with this id, if any.
    pub fn kb_index(&self, kb_id: i64) -> (r: Option<usize>)
        requires
            self.wf(),
        ensures
            match r {
                Some(i) => 0 <= i < self.kbs@.len() && self.kbs@[i as int].kb_id == kb_id
                    && kb_idx(self.kbs@, kb_id) == i as int && has_kb(self.kbs@, kb_id),
                None => !has_kb(self.kbs@, kb_id),
            },
    {
        let mut i: usize = 0;
        while i < self.kbs.len()
            invariant
                self.wf(),
                i <= self.kbs@.len(),
                forall|j: int| 0 <= j < i ==> #[trigger] self.kbs@[j].kb_id != kb_id,
            decreases self.kbs@.len() - i,
        {
            if self.kbs[i].kb_id == kb_id {
                proof {
                    let k = kb_idx(self.kbs@, kb_id);
                    assert(0 <= k < self.kbs@.len() && self.kbs@[k].kb_id == kb_id);
                }
                return Some(i);
            }
            i += 1;
        }
        None
    }

    /// The position of the dialog row with this id, if any.
    pub fn dialog_index(&self, dialog_id: i64) -> (r: Option<usize>)
        requires
            self.wf(),
        ensures
            match r {
                Some(i) => 0 <= i < self.dialogs@.len() && self.dialogs@[i as int].dialog_id
                    == dialog_id && dialog_idx(self.dialogs@, dialog_id) == i as int && has_dialog(
                    self.dialogs@,
                    dialog_id,
                ),
                None => !has_dialog(self.dialogs@, dialog_id),
            },
    {
        let mut i: usize = 0;
        while i < self.dialogs.len()
            invariant
                self.wf(),
                i <= self.dialogs@.len(),
                forall|j: int| 0 <= j < i ==> #[trigger] self.dialogs@[j].dialog_id != dialog_id,
            decreases self.dialogs@.len() - i,
        {
            if self.dialogs[i].dialog_id == dialog_id {
                proof {
                    let k = dialog_idx(self.dialogs@, dialog_id);
                    assert(0 <= k < self.dialogs@.len() && self.dialogs@[k].dialog_id == dialog_id);
                }
                return Some(i);
            }
            i += 1;
        }
        None
    }

    /// The position of the parent edge whose child is `did`, if any.
    pub fn edge_index_for(&self, did: i64) -> (r: Option<usize>)
        requires
            self.wf(),
        ensures
            match r {
                Some(i) => 0 <= i < self.doc_edges@.len() && self.doc_edges@[i as int].did == did
                    && edge_idx_for(self.doc_edges@, did) == i as int && has_edge_for(
                    self.doc_edges@,
                    did,
                ),
                None => !has_edge_for(self.doc_edges@, did),
            },
    {
        let mut i: usize = 0;
        while i < self.doc_edges.len()
            invariant
                self.wf(),
                i <= self.doc_edges@.len(),
                forall|j: int| 0 <= j < i ==> #[trigger] self.doc_edges@[j].did != did,
            decreases self.doc_edges@.len() - i,
        {
            if self.doc_edges[i].did == did {
                proof {
                    let k = edge_idx_for(self.doc_edges@, did);
                    assert(0 <= k < self.doc_edges@.len() && self.doc_edges@[k].did == did);
                }
                return Some(i);
            }
            i += 1;
        }
        None
    }

    /// The position of the link row for `(kb_id, did)`, if any.
    pub fn link_index(&self, kb_id: i64, did: i64) -> (r: Option<usize>)
        requires
            self.wf(),
        ensures
            match r {
                Some(i) => 0 <= i < self.kb_links@.len() && self.kb_links@[i as int].kb_id == kb_id
                    && self.kb_links@[i as int].did == did && link_idx(self.kb_links@, kb_id, did)
                    == i as int && has_link(self.kb_links@, kb_id, did),
                None => !has_link(self.kb_links@, kb_id, did),
            },
    {
        let mut i: usize = 0;
        while i < self.kb_links.len()
            invariant
                self.wf(),
                i <= self.kb_links@.len(),
                forall|j: int|
                    0 <= j < i ==> !(#[trigger] self.kb_links@[j].kb_id == kb_id
                        && self.kb_links@[j].did == did),
            decreases self.kb_links@.len() - i,
        {
            if self.kb_links[i].kb_id == kb_id && self.kb_links[i].did == did {
                proof {
                    let k = link_idx(self.kb_links@, kb_id, did);
                    assert(0 <= k < self.kb_links@.len() && self.kb_links@[k].kb_id == kb_id
                        && self.kb_links@[k].did == did);
                }
                return Some(i);
            }
            i += 1;
        }
        None
    }
}

} // verus!
