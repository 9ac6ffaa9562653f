//! Document services: lookups, the folder forest, and filtered listing.

use vstd::prelude::*;

use crate::error::Error;
use crate::pattern::{pattern_found, spec_pattern_found};
use crate::records::{DocEdge, DocRecord, KbDocLink, NewDoc, TagRecord};
use crate::seqtools::{
    contains_i64, in_prefix, lemma_filter_ordered, lemma_filter_take_step, lemma_in_prefix_all,
    lemma_in_prefix_step, lemma_push_keeps_no_duplicates, lemma_take_all, lemma_unique_covered_len,
};
use vstd::multiset::Multiset;
use vstd::seq_lib::lemma_seq_contains_after_push;
use crate::store::{
    doc_idx, doc_of, edge_idx_for, has_doc, has_edge_for, has_tag, same_dialogs, same_docs,
    same_edges, same_kbs, same_links, same_tags, same_users, tag_of, Store,
};
use crate::strutil::{chars_of, contains_seq, spec_contains_seq, str_eq};

verus! {

/// A filtered, sorted, paginated listing request.
#[derive(Debug)]
pub struct ListParams {
    pub uid: i64,
    pub filter: FilterParams,
    /// A sort column, optionally followed by ` asc` or ` desc`; empty or
    /// unrecognized means the default order, `updated_at desc`.
    pub sortby: String,
    /// 0-based page number; `None` means the first page.
    pub page: Option<u32>,
    /// Rows per page; `None` means 30.
    pub per_page: Option<u32>,
}

/// The optional listing filters; absent filters restrict nothing.
#[derive(Debug)]
pub struct FilterParams {
    pub keywords: Option<String>,
    pub folder_id: Option<i64>,
    pub tag_id: Option<i64>,
    pub kb_id: Option<i64>,
}

#[derive(Debug)]
pub struct RmDocsParam {
    pub uid: i64,
    pub dids: Vec<i64>,
}

#[derive(Debug)]
pub struct MvParams {
    pub uid: i64,
    pub dids: Vec<i64>,
    pub dest_did: i64,
}

#[derive(Debug)]
pub struct NewFoldParams {
    pub uid: i64,
    pub parent_id: i64,
    pub name: String,
}

#[derive(Debug)]
pub struct RenameParams {
    pub uid: i64,
    pub did: i64,
    pub name: String,
}

/// The columns a listing can be sorted by.
#[derive(Clone, Copy, Debug, PartialEq, Eq, Structural)]
pub enum SortCol {
    Did,
    Size,
    CreatedAt,
    UpdatedAt,
}

/// A sort column and direction.
#[derive(Clone, Copy, Debug, PartialEq, Eq, Structural)]
pub struct SortKey {
    pub col: SortCol,
    pub desc: bool,
}

/// The sort key a `sortby` string denotes. Empty and unrecognized
/// strings mean the default order, `updated_at desc`.
pub open spec fn spec_parse_sort(s: Seq<char>) -> SortKey {
    if s == "did"@ || s == "did asc"@ {
        SortKey { col: SortCol::Did, desc: false }
    } else if s == "did desc"@ {
        SortKey { col: SortCol::Did, desc: true }
    } else if s == "size"@ || s == "size asc"@ {
        SortKey { col: SortCol::Size, desc: false }
    } else if s == "size desc"@ {
        SortKey { col: SortCol::Size, desc: true }
    } else if s == "created_at"@ || s == "created_at asc"@ {
        SortKey { col: SortCol::CreatedAt, desc: false }
    } else if s == "created_at desc"@ {
        SortKey { col: SortCol::CreatedAt, desc: true }
    } else if s == "updated_at"@ || s == "updated_at asc"@ {
        SortKey { col: SortCol::UpdatedAt, desc: false }
    } else {
        SortKey { col: SortCol::UpdatedAt, desc: true }
    }
}

/// The sort key a `sortby` string denotes.
pub fn parse_sort(s: &str) -> (r: SortKey)
    ensures
        r == spec_parse_sort(s@),
{
    if str_eq(s, "did") || str_eq(s, "did asc") {
        SortKey { col: SortCol::Did, desc: false }
    } else if str_eq(s, "did desc") {
        SortKey { col: SortCol::Did, desc: true }
    } else if str_eq(s, "size") || str_eq(s, "size asc") {
        SortKey { col: SortCol::Size, desc: false }
    } else if str_eq(s, "size desc") {
        SortKey { col: SortCol::Size, desc: true }
    } else if str_eq(s, "created_at") || str_eq(s, "created_at asc") {
        SortKey { col: SortCol::CreatedAt, desc: false }
    } else if str_eq(s, "created_at desc") {
        SortKey { col: SortCol::CreatedAt, desc: true }
    } else if str_eq(s, "updated_at") || str_eq(s, "updated_at asc") {
        SortKey { col: SortCol::UpdatedAt, desc: false }
    } else {
        SortKey { col: SortCol::UpdatedAt, desc: true }
    }
}

/// The sort column's value on the document with this id; zero for an id
/// without a row.
pub open spec fn sort_key_of(docs: Seq<DocRecord>, col: SortCol, d: i64) -> i64 {
    if has_doc(docs, d) {
        let r = doc_of(docs, d);
        match col {
            SortCol::Did => r.did,
            SortCol::Size => r.size,
            SortCol::CreatedAt => r.created_at,
            SortCol::UpdatedAt => r.updated_at,
        }
    } else {
        0
    }
}

/// Listing order on document ids: by the sort column in the requested
/// direction, with the id as tiebreak, so pagination is deterministic.
pub open spec fn doc_le(docs: Seq<DocRecord>, key: SortKey) -> spec_fn(i64, i64) -> bool {
    |a: i64, b: i64|
        {
            let ka = sort_key_of(docs, key.col, a);
            let kb = sort_key_of(docs, key.col, b);
            if ka == kb {
                a <= b
            } else if key.desc {
                kb < ka
            } else {
                ka < kb
            }
        }
}

/// The listing order is a total order.
proof fn lemma_doc_le_total(docs: Seq<DocRecord>, key: SortKey)
    ensures
        vstd::relations::total_ordering(doc_le(docs, key)),
{
    let le = doc_le(docs, key);
    assert forall|a: i64| #[trigger] le(a, a) by {
        assert(doc_le(docs, key)(a, a));
    }
    assert forall|a: i64, b: i64| #[trigger] le(a, b) && #[trigger] le(b, a) implies a == b by {
        assert(doc_le(docs, key)(a, b) && doc_le(docs, key)(b, a));
    }
    assert forall|a: i64, b: i64, c: i64| #[trigger] le(a, b) && #[trigger] le(b, c) implies le(
        a,
        c,
    ) by {
        assert(doc_le(docs, key)(a, b) && doc_le(docs, key)(b, c));
        assert(doc_le(docs, key)(a, c));
    }
    assert forall|a: i64, b: i64| #[trigger] le(a, b) || #[trigger] le(b, a) by {
        if !doc_le(docs, key)(a, b) {
            assert(doc_le(docs, key)(b, a));
        }
    }
}

/// Some active link row ties the knowledge base to the document.
pub open spec fn active_link_exists(links: Seq<KbDocLink>, kb_id: i64, did: i64) -> bool {
    exists|j: int|
        #![trigger links[j]]
        0 <= j < links.len() && links[j].kb_id == kb_id && links[j].did == did
            && !links[j].is_deleted
}

/// A tag's restrictions on a listed document: its folder scope when set,
/// and — when it carries a pattern — a `type` equal to the tag's name or
/// a name the pattern matches.
pub open spec fn tag_restricts(t: TagRecord, d: DocRecord, edges: Seq<DocEdge>) -> bool {
    &&& (t.folder_id > 0 ==> child_step(edges, t.folder_id, d.did))
    &&& (t.regx@.len() > 0 ==> (t.tag_name@ == d.kind.spec_label() || spec_pattern_found(
        t.regx@,
        d.doc_name@,
    )))
}

/// The listing predicate: owned by the requesting user, active, and
/// passing every present filter.
pub open spec fn matches_listing(
    d: DocRecord,
    params: ListParams,
    tag: Option<TagRecord>,
    edges: Seq<DocEdge>,
    links: Seq<KbDocLink>,
) -> bool {
    &&& d.uid == params.uid
    &&& !d.is_deleted
    &&& (match params.filter.kb_id {
        Some(kb) => active_link_exists(links, kb, d.did),
        None => true,
    })
    &&& (match params.filter.folder_id {
        Some(f) => child_step(edges, f, d.did),
        None => true,
    })
    &&& (match tag {
        Some(t) => tag_restricts(t, d, edges),
        None => true,
    })
    &&& (match params.filter.keywords {
        Some(kw) => spec_contains_seq(d.doc_name@, kw@),
        None => true,
    })
}

/// The listing predicate, as a row filter.
pub open spec fn listing_filter(
    params: ListParams,
    tag: Option<TagRecord>,
    edges: Seq<DocEdge>,
    links: Seq<KbDocLink>,
) -> spec_fn(DocRecord) -> bool {
    |d: DocRecord| matches_listing(d, params, tag, edges, links)
}

/// The document row an id of the table denotes.
pub open spec fn record_of(docs: Seq<DocRecord>) -> spec_fn(i64) -> DocRecord {
    |d: i64| doc_of(docs, d)
}

/// A row's id.
pub open spec fn did_of() -> spec_fn(DocRecord) -> i64 {
    |d: DocRecord| d.did
}

/// The rows owned by one user.
pub open spec fn owned_by(uid: i64) -> spec_fn(DocRecord) -> bool {
    |d: DocRecord| d.uid == uid
}

/// The active rows of one user carrying one name that sit under one
/// parent folder.
pub open spec fn named_child_of(
    edges: Seq<DocEdge>,
    uid: i64,
    name: Seq<char>,
    pid: i64,
) -> spec_fn(DocRecord) -> bool {
    |d: DocRecord| d.uid == uid && d.doc_name@ == name && !d.is_deleted && child_step(
        edges,
        pid,
        d.did,
    )
}

/// The rows of one user carrying one name, deleted or not.
pub open spec fn named_of(uid: i64, name: Seq<char>) -> spec_fn(DocRecord) -> bool {
    |d: DocRecord| d.uid == uid && d.doc_name@ == name
}

/// Two documents are siblings: children of the same parent, or both
/// roots without a parent edge.
pub open spec fn sibling_docs(edges: Seq<DocEdge>, a: i64, b: i64) -> bool {
    if has_edge_for(edges, a) {
        has_edge_for(edges, b) && edges[edge_idx_for(edges, a)].parent_id == edges[edge_idx_for(
            edges,
            b,
        )].parent_id
    } else {
        !has_edge_for(edges, b)
    }
}

/// Renaming `did` to `name` would collide: some other active document of
/// the same user and the same parent already carries the name.
pub open spec fn rename_conflict(
    docs: Seq<DocRecord>,
    edges: Seq<DocEdge>,
    uid: i64,
    did: i64,
    name: Seq<char>,
) -> bool {
    exists|j: int|
        #![trigger docs[j]]
        0 <= j < docs.len() && docs[j].uid == uid && docs[j].did != did && !docs[j].is_deleted
            && docs[j].doc_name@ == name && sibling_docs(edges, did, docs[j].did)
}

/// Some active child of `pid` owned by `uid` carries this name.
pub open spec fn name_used_among_children(
    docs: Seq<DocRecord>,
    edges: Seq<DocEdge>,
    uid: i64,
    pid: i64,
    name: Seq<char>,
) -> bool {
    exists|j: int|
        #![trigger docs[j]]
        0 <= j < docs.len() && docs[j].uid == uid && !docs[j].is_deleted && docs[j].doc_name@
            == name && child_step(edges, pid, docs[j].did)
}

/// The position of the last dot of a name, if it has one.
pub open spec fn last_dot(s: Seq<char>) -> Option<int>
    decreases s.len(),
{
    if s.len() == 0 {
        None
    } else if s.last() == '.' {
        Some(s.len() - 1)
    } else {
        last_dot(s.drop_last())
    }
}

/// The file name with a counter spliced in before its extension:
/// `prefix_i.suffix` around the last dot, with an empty prefix and the
/// whole name as the suffix when the name has no dot.
pub open spec fn numbered_name(s: Seq<char>, i: nat) -> Seq<char> {
    match last_dot(s) {
        Some(d) => s.take(d) + seq!['_'] + crate::strutil::spec_dec(i) + seq!['.'] + s.skip(d + 1),
        None => seq!['_'] + crate::strutil::spec_dec(i) + seq!['.'] + s,
    }
}

/// One parent edge leads from `from` down to `to`.
pub open spec fn child_step(edges: Seq<DocEdge>, from: i64, to: i64) -> bool {
    exists|j: int|
        #![trigger edges[j]]
        0 <= j < edges.len() && edges[j].parent_id == from && edges[j].did == to
}

/// `x` is in the root set or below it, within `n` edge steps.
pub open spec fn reach(edges: Seq<DocEdge>, roots: Seq<i64>, x: i64, n: nat) -> bool
    decreases n,
{
    roots.contains(x) || (n > 0 && exists|p: i64|
        #[trigger] child_step(edges, p, x) && reach(edges, roots, p, (n - 1) as nat))
}

/// `x` is in the root set or below it.
pub open spec fn reachable(edges: Seq<DocEdge>, roots: Seq<i64>, x: i64) -> bool {
    exists|n: nat| reach(edges, roots, x, n)
}

/// The edge rows a cascading delete keeps: those touching no deleted id,
/// neither as parent nor as child.
pub open spec fn edge_survives(edges0: Seq<DocEdge>, roots: Seq<i64>) -> spec_fn(DocEdge) -> bool {
    |e: DocEdge| !reachable(edges0, roots, e.parent_id) && !reachable(edges0, roots, e.did)
}

/// The roots of a descendant query are themselves in its reach.
pub proof fn lemma_reachable_roots(edges: Seq<DocEdge>, roots: Seq<i64>, x: i64)
    requires
        roots.contains(x),
    ensures
        reachable(edges, roots, x),
{
    assert(reach(edges, roots, x, 0));
}

/// The reach of a descendant query is closed under child edges: a child
/// of a reachable document is reachable.
pub proof fn lemma_reach_child(edges: Seq<DocEdge>, roots: Seq<i64>, p: i64, x: i64)
    requires
        reachable(edges, roots, p),
        child_step(edges, p, x),
    ensures
        reachable(edges, roots, x),
{
    let n = choose|n: nat| reach(edges, roots, p, n);
    assert(reach(edges, roots, x, n + 1));
}

/// Any id set that holds the roots and is closed under child edges holds
/// every reachable id.
proof fn lemma_closed_set_covers(
    edges: Seq<DocEdge>,
    roots: Seq<i64>,
    out: Seq<i64>,
    x: i64,
    n: nat,
)
    requires
        forall|r: i64| roots.contains(r) ==> out.contains(r),
        forall|j: int|
            #![trigger edges[j]]
            0 <= j < edges.len() && out.contains(edges[j].parent_id) ==> out.contains(edges[j].did),
        reach(edges, roots, x, n),
    ensures
        out.contains(x),
    decreases n,
{
    if !roots.contains(x) {
        let p = choose|p: i64|
            #[trigger] child_step(edges, p, x) && reach(edges, roots, p, (n - 1) as nat);
        lemma_closed_set_covers(edges, roots, out, p, (n - 1) as nat);
        let j = choose|j: int|
            #![trigger edges[j]]
            0 <= j < edges.len() && edges[j].parent_id == p && edges[j].did == x;
        assert(out.contains(edges[j].did));
    }
}

/// The sort column's value on the document with this id.
fn sort_key_exec(store: &Store, col: SortCol, d: i64) -> (k: i64)
    requires
        store.wf(),
    ensures
        k == sort_key_of(store.docs@, col, d),
{
    match store.doc_index(d) {
        Some(i) => match col {
            SortCol::Did => store.docs[i].did,
            SortCol::Size => store.docs[i].size,
            SortCol::CreatedAt => store.docs[i].created_at,
            SortCol::UpdatedAt => store.docs[i].updated_at,
        },
        None => 0,
    }
}

/// Whether `a` comes no later than `b` in the listing order.
fn doc_le_exec(store: &Store, key: SortKey, a: i64, b: i64) -> (r: bool)
    requires
        store.wf(),
    ensures
        r == doc_le(store.docs@, key)(a, b),
{
    let ka = sort_key_exec(store, key.col, a);
    let kb = sort_key_exec(store, key.col, b);
    if ka == kb {
        a <= b
    } else if key.desc {
        kb < ka
    } else {
        ka < kb
    }
}

/// Sorts document ids by the listing order: selection of the least
/// remaining id, so the result is the unique sorted permutation.
fn sort_dids(store: &Store, key: SortKey, v: Vec<i64>) -> (r: Vec<i64>)
    requires
        store.wf(),
    ensures
        r@ == v@.sort_by(doc_le(store.docs@, key)),
{
    let ghost le = doc_le(store.docs@, key);
    proof {
        lemma_doc_le_total(store.docs@, key);
    }
    let mut rest = v;
    let mut out: Vec<i64> = Vec::new();
    let ghost orig = rest@;
    proof {
        broadcast use vstd::seq_lib::group_to_multiset_ensures;
        broadcast use vstd::multiset::group_multiset_axioms;

        assert(out@.to_multiset().add(rest@.to_multiset()) =~= orig.to_multiset());
    }
    while rest.len() > 0
        invariant
            store.wf(),
            le == doc_le(store.docs@, key),
            vstd::relations::total_ordering(le),
            out@.to_multiset().add(rest@.to_multiset()) == orig.to_multiset(),
            vstd::relations::sorted_by(out@, le),
            forall|a: int, b: int|
                0 <= a < out@.len() && 0 <= b < rest@.len() ==> le(
                    #[trigger] out@[a],
                    #[trigger] rest@[b],
                ),
        decreases rest@.len(),
    {
        broadcast use vstd::seq_lib::group_to_multiset_ensures;
        broadcast use vstd::multiset::group_multiset_axioms;

        let mut m: usize = 0;
        let mut t: usize = 1;
        while t < rest.len()
            invariant
                store.wf(),
                le == doc_le(store.docs@, key),
                vstd::relations::total_ordering(le),
                m < t,
                1 <= t <= rest@.len(),
                m < rest@.len(),
                forall|u: int| 0 <= u < t ==> le(rest@[m as int], #[trigger] rest@[u]),
            decreases rest@.len() - t,
        {
            if doc_le_exec(store, key, rest[t], rest[m]) {
                proof {
                    assert forall|u: int| 0 <= u < t + 1 implies le(
                        rest@[t as int],
                        #[trigger] rest@[u],
                    ) by {
                        assert(le(rest@[t as int], rest@[m as int]));
                        if u < t {
                            assert(le(rest@[m as int], rest@[u]));
                        }
                    }
                }
                m = t;
            } else {
                proof {
                    assert(le(rest@[m as int], rest@[t as int]));
                }
            }
            t += 1;
        }
        let ghost pre_rest = rest@;
        let ghost pre_out = out@;
        let x = rest.remove(m);
        out.push(x);
        proof {
            assert(x == pre_rest[m as int]);
            assert(pre_rest.to_multiset().contains(x));
            assert(out@.to_multiset().add(rest@.to_multiset()) =~= orig.to_multiset());
            assert forall|a: int, b: int|
                0 <= a < out@.len() && 0 <= b < rest@.len() implies le(
                #[trigger] out@[a],
                #[trigger] rest@[b],
            ) by {
                let rb = rest@[b];
                if b < m {
                    assert(rest@[b] == pre_rest[b]);
                } else {
                    assert(rest@[b] == pre_rest[b + 1]);
                }
                if a < pre_out.len() {
                    assert(out@[a] == pre_out[a]);
                } else {
                    assert(out@[a] == x);
                }
            }
            assert forall|i: int, j: int| 0 <= i < j < out@.len() implies le(
                #[trigger] out@[i],
                #[trigger] out@[j],
            ) by {
                if j < pre_out.len() {
                    assert(le(pre_out[i], pre_out[j]));
                } else {
                    assert(out@[j] == x);
                    assert(le(pre_out[i], pre_rest[m as int]));
                }
            }
        }
    }
    proof {
        broadcast use vstd::seq_lib::group_to_multiset_ensures;
        broadcast use vstd::multiset::group_multiset_axioms;

        assert(rest@.to_multiset() =~= Multiset::<i64>::empty());
        assert(out@.to_multiset() =~= orig.to_multiset());
        orig.lemma_sort_by_ensures(le);
        vstd::seq_lib::lemma_sorted_unique(out@, orig.sort_by(le), le);
    }
    out
}

/// Whether some active link row ties the knowledge base to the document.
fn has_active_link(store: &Store, kb_id: i64, did: i64) -> (r: bool)
    ensures
        r == active_link_exists(store.kb_links@, kb_id, did),
{
    let mut j: usize = 0;
    while j < store.kb_links.len()
        invariant
            j <= store.kb_links@.len(),
            forall|t: int|
                #![trigger store.kb_links@[t]]
                0 <= t < j ==> !(store.kb_links@[t].kb_id == kb_id && store.kb_links@[t].did == did
                    && !store.kb_links@[t].is_deleted),
        decreases store.kb_links@.len() - j,
    {
        if store.kb_links[j].kb_id == kb_id && store.kb_links[j].did == did
            && !store.kb_links[j].is_deleted {
            return true;
        }
        j += 1;
    }
    false
}

/// Whether the parent-edge table has the edge `(parent, did)`.
fn has_child_edge(store: &Store, parent: i64, did: i64) -> (r: bool)
    ensures
        r == child_step(store.doc_edges@, parent, did),
{
    let mut j: usize = 0;
    while j < store.doc_edges.len()
        invariant
            j <= store.doc_edges@.len(),
            forall|t: int|
                #![trigger store.doc_edges@[t]]
                0 <= t < j ==> !(store.doc_edges@[t].parent_id == parent
                    && store.doc_edges@[t].did == did),
        decreases store.doc_edges@.len() - j,
    {
        if store.doc_edges[j].parent_id == parent && store.doc_edges[j].did == did {
            return true;
        }
        j += 1;
    }
    false
}

/// Whether one document row passes the listing filters.
fn matches_listing_exec(
    store: &Store,
    d: &DocRecord,
    params: &ListParams,
    tag: &Option<TagRecord>,
) -> (r: bool)
    ensures
        r == matches_listing(*d, *params, *tag, store.doc_edges@, store.kb_links@),
{
    if d.uid != params.uid || d.is_deleted {
        return false;
    }
    match &params.filter.kb_id {
        Some(kb) => {
            if !has_active_link(store, *kb, d.did) {
                return false;
            }
        },
        None => {},
    }
    match &params.filter.folder_id {
        Some(f) => {
            if !has_child_edge(store, *f, d.did) {
                return false;
            }
        },
        None => {},
    }
    match tag {
        Some(t) => {
            if t.folder_id > 0 {
                if !has_child_edge(store, t.folder_id, d.did) {
                    return false;
                }
            }
            if !t.regx.as_str().is_empty() {
                let name_hit = str_eq(t.tag_name.as_str(), d.kind.label());
                if !name_hit && !pattern_found(t.regx.as_str(), d.doc_name.as_str()) {
                    return false;
                }
            }
        },
        None => {},
    }
    match &params.filter.keywords {
        Some(kw) => {
            let hay = chars_of(d.doc_name.as_str());
            let needle = chars_of(kw.as_str());
            if !contains_seq(&hay, &needle) {
                return false;
            }
        },
        None => {},
    }
    true
}

pub struct Query;

impl Query {
    /// The document row with this id, deleted or not.
    pub fn find_doc_info_by_id(store: &Store, id: i64) -> (r: Option<DocRecord>)
        requires
            store.wf(),
        ensures
            match r {
                Some(d) => has_doc(store.docs@, id) && d == doc_of(store.docs@, id),
                None => !has_doc(store.docs@, id),
            },
    {
        match store.doc_index(id) {
            Some(i) => Some(store.docs[i].clone()),
            None => None,
        }
    }

    /// Every document row.
    pub fn find_doc_infos(store: &Store) -> (r: Vec<DocRecord>)
        ensures
            r@ == store.docs@,
    {
        let mut out: Vec<DocRecord> = Vec::new();
        let mut i: usize = 0;
        while i < store.docs.len()
            invariant
                i <= store.docs@.len(),
                out@ == store.docs@.take(i as int),
            decreases store.docs@.len() - i,
        {
            out.push(store.docs[i].clone());
            proof {
                assert(out@ =~= store.docs@.take(i + 1));
            }
            i += 1;
        }
        proof {
            lemma_take_all(store.docs@);
        }
        out
    }

    /// Every document row owned by `uid`, in table order.
    pub fn find_doc_infos_by_uid(store: &Store, uid: i64) -> (r: Vec<DocRecord>)
        ensures
            r@ == store.docs@.filter(owned_by(uid)),
    {
        let mut out: Vec<DocRecord> = Vec::new();
        let mut i: usize = 0;
        proof {
            assert(out@ =~= store.docs@.take(0).filter(owned_by(uid)));
        }
        while i < store.docs.len()
            invariant
                i <= store.docs@.len(),
                out@ == store.docs@.take(i as int).filter(owned_by(uid)),
            decreases store.docs@.len() - i,
        {
            proof {
                lemma_filter_take_step(store.docs@, owned_by(uid), i as int);
                assert(owned_by(uid)(store.docs@[i as int]) == (store.docs@[i as int].uid
                    == uid));
            }
            if store.docs[i].uid == uid {
                out.push(store.docs[i].clone());
            }
            i += 1;
        }
        proof {
            lemma_take_all(store.docs@);
        }
        out
    }

    /// The given ids together with every descendant in the folder forest,
    /// each id once: a breadth-first expansion over the parent-edge table
    /// with a visited set, so it terminates even on a cyclic edge table.
    pub fn all_descendent_ids(store: &Store, doc_ids: &Vec<i64>) -> (r: Vec<i64>)
        ensures
            r@.no_duplicates(),
            forall|x: i64| #[trigger] r@.contains(x) <==> reachable(
                store.doc_edges@,
                doc_ids@,
                x,
            ),
    {
        let ghost edges = store.doc_edges@;
        let ghost cover = doc_ids@ + edges.map_values(|e: DocEdge| e.did);
        let mut out: Vec<i64> = Vec::new();
        let mut k: usize = 0;
        while k < doc_ids.len()
            invariant
                k <= doc_ids@.len(),
                out@.no_duplicates(),
                forall|x: i64| #[trigger] out@.contains(x) <==> in_prefix(doc_ids@, k as int, x),
            decreases doc_ids@.len() - k,
        {
            let d = doc_ids[k];
            let ghost pre = out@;
            if !contains_i64(&out, d) {
                out.push(d);
                proof {
                    lemma_push_keeps_no_duplicates(pre, d);
                }
            }
            proof {
                assert forall|x: i64| #[trigger] out@.contains(x) <==> in_prefix(
                    doc_ids@,
                    k + 1,
                    x,
                ) by {
                    lemma_in_prefix_step(doc_ids@, k as int, x);
                    lemma_seq_contains_after_push(pre, d, x);
                }
            }
            k += 1;
        }
        proof {
            lemma_in_prefix_all(doc_ids@);
            assert forall|t: int| 0 <= t < out@.len() implies cover.contains(#[trigger] out@[t]) by {
                assert(out@.contains(out@[t]));
                assert(doc_ids@.contains(out@[t]));
                let w = choose|w: int| 0 <= w < doc_ids@.len() && doc_ids@[w] == out@[t];
                assert(cover[w] == out@[t]);
            }
            lemma_unique_covered_len(out@, cover);
            assert forall|t: int| 0 <= t < out@.len() implies reachable(
                edges,
                doc_ids@,
                #[trigger] out@[t],
            ) by {
                assert(out@.contains(out@[t]));
                assert(doc_ids@.contains(out@[t]));
                assert(reach(edges, doc_ids@, out@[t], 0));
            }
        }
        let mut i: usize = 0;
        while i < out.len()
            invariant
                i <= out@.len(),
                out@.no_duplicates(),
                edges == store.doc_edges@,
                cover == doc_ids@ + edges.map_values(|e: DocEdge| e.did),
                forall|t: int| 0 <= t < out@.len() ==> cover.contains(#[trigger] out@[t]),
                out@.len() <= cover.len(),
                forall|x: i64| doc_ids@.contains(x) ==> out@.contains(x),
                forall|t: int|
                    0 <= t < out@.len() ==> reachable(edges, doc_ids@, #[trigger] out@[t]),
                forall|j: int|
                    #![trigger edges[j]]
                    0 <= j < edges.len() && in_prefix(out@, i as int, edges[j].parent_id)
                        ==> out@.contains(edges[j].did),
            decreases cover.len() - i,
        {
            let cur = out[i];
            let mut j: usize = 0;
            while j < store.doc_edges.len()
                invariant
                    i < out@.len(),
                    out@[i as int] == cur,
                    j <= edges.len(),
                    edges == store.doc_edges@,
                    cover == doc_ids@ + edges.map_values(|e: DocEdge| e.did),
                    out@.no_duplicates(),
                    forall|t: int| 0 <= t < out@.len() ==> cover.contains(#[trigger] out@[t]),
                    out@.len() <= cover.len(),
                    forall|x: i64| doc_ids@.contains(x) ==> out@.contains(x),
                    forall|t: int|
                        0 <= t < out@.len() ==> reachable(edges, doc_ids@, #[trigger] out@[t]),
                    forall|jj: int|
                        #![trigger edges[jj]]
                        0 <= jj < edges.len() && in_prefix(out@, i as int, edges[jj].parent_id)
                            ==> out@.contains(edges[jj].did),
                    forall|jj: int|
                        #![trigger edges[jj]]
                        0 <= jj < j && edges[jj].parent_id == cur ==> out@.contains(edges[jj].did),
                decreases edges.len() - j,
            {
                let e = store.doc_edges[j];
                if e.parent_id == cur {
                    let ghost pre = out@;
                    if !contains_i64(&out, e.did) {
                        out.push(e.did);
                        proof {
                            lemma_push_keeps_no_duplicates(pre, e.did);
                            assert(cover[doc_ids@.len() + j] == e.did);
                            assert(cover.contains(e.did));
                            assert forall|t: int| 0 <= t < out@.len() implies cover.contains(
                                #[trigger] out@[t],
                            ) by {
                                if t < pre.len() {
                                    assert(pre[t] == out@[t]);
                                }
                            }
                            lemma_unique_covered_len(out@, cover);
                            assert(child_step(edges, cur, e.did)) by {
                                assert(edges[j as int].parent_id == cur && edges[j as int].did
                                    == e.did);
                            }
                            lemma_reach_child(edges, doc_ids@, cur, e.did);
                            assert forall|x: i64| doc_ids@.contains(x) implies out@.contains(x) by {
                                lemma_seq_contains_after_push(pre, e.did, x);
                            }
                            assert forall|jj: int|
                                #![trigger edges[jj]]
                                0 <= jj < edges.len() && in_prefix(
                                    out@,
                                    i as int,
                                    edges[jj].parent_id,
                                ) implies out@.contains(edges[jj].did) by {
                                lemma_seq_contains_after_push(pre, e.did, edges[jj].did);
                            }
                            assert forall|jj: int|
                                #![trigger edges[jj]]
                                0 <= jj < j + 1 && edges[jj].parent_id == cur implies out@.contains(
                                edges[jj].did,
                            ) by {
                                lemma_seq_contains_after_push(pre, e.did, edges[jj].did);
                            }
                        }
                    }
                }
                j += 1;
            }
            proof {
                assert forall|jj: int|
                    #![trigger edges[jj]]
                    0 <= jj < edges.len() && in_prefix(out@, i + 1, edges[jj].parent_id) implies out@
                    .contains(edges[jj].did) by {
                    lemma_in_prefix_step(out@, i as int, edges[jj].parent_id);
                }
            }
            i += 1;
        }
        proof {
            lemma_in_prefix_all(out@);
            assert forall|x: i64| #[trigger] out@.contains(x) implies reachable(
                edges,
                doc_ids@,
                x,
            ) by {
                let t = choose|t: int| 0 <= t < out@.len() && out@[t] == x;
                assert(reachable(edges, doc_ids@, out@[t]));
            }
            assert forall|x: i64| reachable(edges, doc_ids@, x) implies out@.contains(x) by {
                let n = choose|n: nat| reach(edges, doc_ids@, x, n);
                lemma_closed_set_covers(edges, doc_ids@, out@, x, n);
            }
        }
        out
    }

    /// The filtered, sorted, paginated listing: the documents of
    /// `params.uid` passing every present filter, in the requested order
    /// with the id as tiebreak, cut to the requested page. Fails with
    /// `NotFound` when `tag_id` names no tag row.
    pub fn find_doc_infos_by_params(store: &Store, params: ListParams) -> (r: Result<
        Vec<DocRecord>,
        Error,
    >)
        requires
            store.wf(),
        ensures
            r is Ok <==> (params.filter.tag_id matches Some(t) ==> has_tag(store.tags@, t)),
            match r {
                Ok(v) => ({
                    let tag = match params.filter.tag_id {
                        Some(tid) => Some(tag_of(store.tags@, tid)),
                        None => None,
                    };
                    let key = spec_parse_sort(params.sortby@);
                    let matching = store.docs@.filter(
                        listing_filter(params, tag, store.doc_edges@, store.kb_links@),
                    );
                    let sorted = matching.map_values(did_of()).sort_by(doc_le(store.docs@, key));
                    let per = (match params.per_page {
                        Some(p) => p as int,
                        None => 30,
                    });
                    let start = (match params.page {
                        Some(p) => p as int,
                        None => 0,
                    }) * per;
                    let lo = if start <= sorted.len() {
                        start
                    } else {
                        sorted.len() as int
                    };
                    let hi = if start + per <= sorted.len() {
                        start + per
                    } else {
                        sorted.len() as int
                    };
                    v@ == sorted.subrange(lo, hi).map_values(record_of(store.docs@))
                }),
                Err(e) => e == Error::NotFound,
            },
    {
        let tag: Option<TagRecord> = match params.filter.tag_id {
            Some(tid) => match crate::tag::Query::find_tag_info_by_id(tid, store) {
                Some(t) => Some(t),
                None => {
                    return Err(Error::NotFound);
                },
            },
            None => None,
        };
        let key = parse_sort(params.sortby.as_str());
        let mut dids: Vec<i64> = Vec::new();
        let mut i: usize = 0;
        proof {
            assert(dids@ =~= store.docs@.take(0).filter(
                listing_filter(params, tag, store.doc_edges@, store.kb_links@),
            ).map_values(did_of()));
        }
        while i < store.docs.len()
            invariant
                store.wf(),
                i <= store.docs@.len(),
                dids@ == store.docs@.take(i as int).filter(
                    listing_filter(params, tag, store.doc_edges@, store.kb_links@),
                ).map_values(did_of()),
                forall|t: int| 0 <= t < dids@.len() ==> has_doc(store.docs@, #[trigger] dids@[t]),
            decreases store.docs@.len() - i,
        {
            proof {
                lemma_filter_take_step(
                    store.docs@,
                    listing_filter(params, tag, store.doc_edges@, store.kb_links@),
                    i as int,
                );
                assert(listing_filter(params, tag, store.doc_edges@, store.kb_links@)(
                    store.docs@[i as int],
                ) == matches_listing(
                    store.docs@[i as int],
                    params,
                    tag,
                    store.doc_edges@,
                    store.kb_links@,
                ));
            }
            let hit = matches_listing_exec(store, &store.docs[i], &params, &tag);
            if hit {
                dids.push(store.docs[i].did);
                proof {
                    assert(store.docs@[i as int].did == dids@.last());
                    assert(has_doc(store.docs@, store.docs@[i as int].did));
                    assert(did_of()(store.docs@[i as int]) == store.docs@[i as int].did);
                    assert(dids@ =~= store.docs@.take(i + 1).filter(
                        listing_filter(params, tag, store.doc_edges@, store.kb_links@),
                    ).map_values(did_of()));
                }
            }
            i += 1;
        }
        proof {
            lemma_take_all(store.docs@);
        }
        let sorted = sort_dids(store, key, dids);
        proof {
            broadcast use vstd::seq_lib::group_to_multiset_ensures;
            broadcast use vstd::multiset::group_multiset_axioms;

            let ghost base = store.docs@.filter(
                listing_filter(params, tag, store.doc_edges@, store.kb_links@),
            ).map_values(did_of());
            base.lemma_sort_by_ensures(doc_le(store.docs@, key));
            assert(sorted@.to_multiset() == base.to_multiset());
            assert forall|t: int| 0 <= t < sorted@.len() implies has_doc(
                store.docs@,
                #[trigger] sorted@[t],
            ) by {
                assert(sorted@.to_multiset().contains(sorted@[t]));
                assert(base.to_multiset().contains(sorted@[t]));
                assert(base.contains(sorted@[t]));
                let w = choose|w: int| 0 <= w < base.len() && base[w] == sorted@[t];
            }
        }
        let per: u32 = match params.per_page {
            Some(p) => p,
            None => 30,
        };
        let page: u32 = match params.page {
            Some(p) => p,
            None => 0,
        };
        proof {
            let ghost a: u64 = page as u64;
            let ghost b: u64 = per as u64;
            assert(a * b <= u64::MAX) by (nonlinear_arith)
                requires
                    a <= 0xffffffff,
                    b <= 0xffffffff,
            ;
        }
        let start: u64 = (page as u64) * (per as u64);
        let n = sorted.len();
        let lo: usize = if start <= n as u64 {
            start as usize
        } else {
            n
        };
        let hi128: u128 = (lo as u128) + (per as u128);
        let hi: usize = if start <= n as u64 && hi128 <= n as u128 {
            hi128 as usize
        } else {
            n
        };
        let mut out: Vec<DocRecord> = Vec::new();
        let mut t: usize = lo;
        proof {
            assert(out@ =~= sorted@.subrange(lo as int, lo as int).map_values(
                record_of(store.docs@),
            ));
        }
        while t < hi
            invariant
                store.wf(),
                lo <= t <= hi <= sorted@.len(),
                forall|u: int|
                    0 <= u < sorted@.len() ==> has_doc(store.docs@, #[trigger] sorted@[u]),
                out@ == sorted@.subrange(lo as int, t as int).map_values(record_of(store.docs@)),
            decreases hi - t,
        {
            let did = sorted[t];
            let idx = match store.doc_index(did) {
                Some(idx) => idx,
                None => {
                    proof {
                        assert(false);
                    }
                    0
                },
            };
            out.push(store.docs[idx].clone());
            proof {
                assert(record_of(store.docs@)(sorted@[t as int]) == doc_of(
                    store.docs@,
                    sorted@[t as int],
                ));
                assert(out@ =~= sorted@.subrange(lo as int, t + 1).map_values(
                    record_of(store.docs@),
                ));
            }
            t += 1;
        }
        Ok(out)
    }

    /// The active documents of `uid` named `name` among the children of
    /// `parent_id` — or, with no parent given, among the siblings of the
    /// first document of `uid` carrying the name.
    pub fn find_doc_infos_by_name(
        store: &Store,
        uid: i64,
        name: &String,
        parent_id: Option<i64>,
    ) -> (r: Vec<DocRecord>)
        requires
            store.wf(),
        ensures
            match parent_id {
                Some(pid) => r@ == store.docs@.filter(
                    named_child_of(store.doc_edges@, uid, name@, pid),
                ),
                None => ({
                    let cands = store.docs@.filter(named_of(uid, name@));
                    if cands.len() == 0 {
                        r@ == Seq::<DocRecord>::empty()
                    } else if !has_edge_for(store.doc_edges@, cands[0].did) {
                        r@ == Seq::<DocRecord>::empty()
                    } else {
                        r@ == store.docs@.filter(
                            named_child_of(
                                store.doc_edges@,
                                uid,
                                name@,
                                store.doc_edges@[edge_idx_for(
                                    store.doc_edges@,
                                    cands[0].did,
                                )].parent_id,
                            ),
                        )
                    }
                }),
            },
    {
        match parent_id {
            Some(pid) => Self::named_children(store, uid, name, pid),
            None => {
                proof {
                    assert(parent_id is None);
                }
                let mut i: usize = 0;
                proof {
                    assert(store.docs@.take(0).filter(named_of(uid, name@)) =~= Seq::<
                        DocRecord,
                    >::empty());
                }
                while i < store.docs.len()
                    invariant
                        store.wf(),
                        parent_id is None,
                        i <= store.docs@.len(),
                        store.docs@.take(i as int).filter(named_of(uid, name@)) == Seq::<
                            DocRecord,
                        >::empty(),
                    decreases store.docs@.len() - i,
                {
                    proof {
                        lemma_filter_take_step(store.docs@, named_of(uid, name@), i as int);
                        assert(named_of(uid, name@)(store.docs@[i as int]) == (store.docs@[i as int].uid
                            == uid && store.docs@[i as int].doc_name@ == name@));
                    }
                    if store.docs[i].uid == uid && str_eq(store.docs[i].doc_name.as_str(), name.as_str()) {
                        proof {
                            let full = store.docs@;
                            assert(full =~= full.take(i + 1) + full.skip(i + 1));
                            Seq::<DocRecord>::filter_distributes_over_add(
                                full.take(i + 1),
                                full.skip(i + 1),
                                named_of(uid, name@),
                            );
                            assert(full.take(i + 1).filter(named_of(uid, name@)) =~= Seq::<
                                DocRecord,
                            >::empty().push(full[i as int]));
                            assert(full.filter(named_of(uid, name@))[0] == full[i as int]);
                        }
                        let first_did = store.docs[i].did;
                        proof {
                            let cands = store.docs@.filter(named_of(uid, name@));
                            assert(cands.len() >= 1);
                            assert(cands[0] == store.docs@[i as int]);
                            assert(cands[0].did == first_did);
                        }
                        match store.edge_index_for(first_did) {
                            None => {
                                let r: Vec<DocRecord> = Vec::new();
                                proof {
                                    assert(r@ =~= Seq::<DocRecord>::empty());
                                    assert(!has_edge_for(store.doc_edges@, first_did));
                                }
                                return r;
                            },
                            Some(ei) => {
                                let pid = store.doc_edges[ei].parent_id;
                                proof {
                                    assert(edge_idx_for(store.doc_edges@, first_did) == ei as int);
                                    assert(store.doc_edges@[edge_idx_for(
                                        store.doc_edges@,
                                        store.docs@.filter(named_of(uid, name@))[0].did,
                                    )].parent_id == pid);
                                }
                                return Self::named_children(store, uid, name, pid);
                            },
                        }
                    }
                    i += 1;
                }
                proof {
                    lemma_take_all(store.docs@);
                }
                let r: Vec<DocRecord> = Vec::new();
                proof {
                    assert(r@ =~= Seq::<DocRecord>::empty());
                }
                r
            },
        }
    }

    /// The active documents of `uid` named `name` under `parent_id`.
    fn named_children(store: &Store, uid: i64, name: &String, pid: i64) -> (r: Vec<DocRecord>)
        ensures
            r@ == store.docs@.filter(named_child_of(store.doc_edges@, uid, name@, pid)),
    {
        let mut out: Vec<DocRecord> = Vec::new();
        let mut i: usize = 0;
        proof {
            assert(out@ =~= store.docs@.take(0).filter(
                named_child_of(store.doc_edges@, uid, name@, pid),
            ));
        }
        while i < store.docs.len()
            invariant
                i <= store.docs@.len(),
                out@ == store.docs@.take(i as int).filter(
                    named_child_of(store.doc_edges@, uid, name@, pid),
                ),
            decreases store.docs@.len() - i,
        {
            proof {
                lemma_filter_take_step(
                    store.docs@,
                    named_child_of(store.doc_edges@, uid, name@, pid),
                    i as int,
                );
                assert(named_child_of(store.doc_edges@, uid, name@, pid)(store.docs@[i as int])
                    == (store.docs@[i as int].uid == uid && store.docs@[i as int].doc_name@ == name@
                    && !store.docs@[i as int].is_deleted && child_step(
                    store.doc_edges@,
                    pid,
                    store.docs@[i as int].did,
                )));
            }
            if store.docs[i].uid == uid && !store.docs[i].is_deleted && str_eq(
                store.docs[i].doc_name.as_str(),
                name.as_str(),
            ) && has_child_edge(store, pid, store.docs[i].did) {
                out.push(store.docs[i].clone());
            }
            i += 1;
        }
        proof {
            lemma_take_all(store.docs@);
        }
        out
    }

    /// One page of the document table in id order, with the page count:
    /// `page` is 1-based, and a page past the end is empty.
    pub fn find_doc_infos_in_page(store: &Store, page: u64, posts_per_page: u64) -> (r: (
        Vec<DocRecord>,
        u64,
    ))
        requires
            1 <= page,
            1 <= posts_per_page,
        ensures
            ({
                let n = store.docs@.len() as int;
                let start = (page - 1) as int * posts_per_page as int;
                let lo = if start <= n {
                    start
                } else {
                    n
                };
                let hi = if start + posts_per_page as int <= n {
                    start + posts_per_page as int
                } else {
                    n
                };
                &&& r.0@ == store.docs@.subrange(lo, hi)
                &&& r.1 as int == n / posts_per_page as int + (if n % posts_per_page as int != 0 {
                    1int
                } else {
                    0int
                })
            }),
    {
        let (lo, hi, num_pages) = crate::paging::page_bounds(store.docs.len(), page, posts_per_page);
        let mut out: Vec<DocRecord> = Vec::new();
        let mut t: usize = lo;
        while t < hi
            invariant
                lo <= t <= hi <= store.docs@.len(),
                out@ == store.docs@.subrange(lo as int, t as int),
            decreases hi - t,
        {
            out.push(store.docs[t].clone());
            proof {
                assert(out@ =~= store.docs@.subrange(lo as int, t + 1));
            }
            t += 1;
        }
        proof {
            assert(out@ =~= store.docs@.subrange(lo as int, hi as int));
        }
        (out, num_pages)
    }
}

pub struct Mutation;

impl Mutation {
    /// Inserts a new document row with a fresh id; the given timestamp
    /// becomes both `created_at` and `updated_at`. Returns the new id.
    pub fn create_doc_info(store: &mut Store, form: NewDoc, now: i64) -> (did: i64)
        requires
            old(store).wf(),
            old(store).next_did < i64::MAX,
        ensures
            final(store).wf(),
            did == old(store).next_did,
            final(store).docs@ == old(store).docs@.push(
                (DocRecord {
                    did,
                    uid: form.uid,
                    doc_name: form.doc_name,
                    size: form.size,
                    kind: form.kind,
                    location: form.location,
                    created_at: now,
                    updated_at: now,
                    is_deleted: false,
                }),
            ),
            final(store).next_did == old(store).next_did + 1,
            same_users(*old(store), *final(store)),
            same_tags(*old(store), *final(store)),
            same_kbs(*old(store), *final(store)),
            same_dialogs(*old(store), *final(store)),
            same_edges(*old(store), *final(store)),
            same_links(*old(store), *final(store)),
    {
        let did = store.next_did;
        let rec = DocRecord {
            did,
            uid: form.uid,
            doc_name: form.doc_name,
            size: form.size,
            kind: form.kind,
            location: form.location,
            created_at: now,
            updated_at: now,
            is_deleted: false,
        };
        store.docs.push(rec);
        store.next_did = did + 1;
        did
    }

    /// Inserts the parent edge `(dest_did, did)`. A document may have only
    /// one parent edge, so a `did` that already has one is rejected.
    pub fn place_doc(store: &mut Store, dest_did: i64, did: i64) -> (r: Result<(), Error>)
        requires
            old(store).wf(),
            old(store).next_edge_id < i64::MAX,
        ensures
            final(store).wf(),
            same_users(*old(store), *final(store)),
            same_tags(*old(store), *final(store)),
            same_kbs(*old(store), *final(store)),
            same_docs(*old(store), *final(store)),
            same_dialogs(*old(store), *final(store)),
            same_links(*old(store), *final(store)),
            r is Ok <==> !has_edge_for(old(store).doc_edges@, did),
            match r {
                Ok(()) => final(store).doc_edges@ == old(store).doc_edges@.push(
                    (DocEdge { id: old(store).next_edge_id, parent_id: dest_did, did }),
                ) && final(store).next_edge_id == old(store).next_edge_id + 1,
                Err(e) => e == Error::Duplicate && *final(store) == *old(store),
            },
    {
        match store.edge_index_for(did) {
            Some(_) => Err(Error::Duplicate),
            None => {
                let id = store.next_edge_id;
                store.doc_edges.push(DocEdge { id, parent_id: dest_did, did });
                store.next_edge_id = id + 1;
                Ok(())
            },
        }
    }

    /// Replaces the caller-supplied fields of the document row with this
    /// id, stamping `updated_at` and keeping `created_at` and the deletion
    /// flag. Fails with `NotFound` when no row has the id.
    pub fn update_doc_info_by_id(store: &mut Store, id: i64, form: NewDoc, now: i64) -> (r: Result<
        DocRecord,
        Error,
    >)
        requires
            old(store).wf(),
        ensures
            final(store).wf(),
            same_users(*old(store), *final(store)),
            same_tags(*old(store), *final(store)),
            same_kbs(*old(store), *final(store)),
            same_dialogs(*old(store), *final(store)),
            same_edges(*old(store), *final(store)),
            same_links(*old(store), *final(store)),
            r is Ok <==> has_doc(old(store).docs@, id),
            match r {
                Ok(d) => {
                    &&& d == (DocRecord {
                        did: id,
                        uid: form.uid,
                        doc_name: form.doc_name,
                        size: form.size,
                        kind: form.kind,
                        location: form.location,
                        created_at: doc_of(old(store).docs@, id).created_at,
                        updated_at: now,
                        is_deleted: doc_of(old(store).docs@, id).is_deleted,
                    })
                    &&& final(store).docs@ == old(store).docs@.update(
                        doc_idx(old(store).docs@, id),
                        d,
                    )
                    &&& final(store).next_did == old(store).next_did
                },
                Err(e) => e == Error::NotFound && *final(store) == *old(store),
            },
    {
        match store.doc_index(id) {
            None => Err(Error::NotFound),
            Some(i) => {
                let prev_created = store.docs[i].created_at;
                let prev_deleted = store.docs[i].is_deleted;
                let rec = DocRecord {
                    did: id,
                    uid: form.uid,
                    doc_name: form.doc_name,
                    size: form.size,
                    kind: form.kind,
                    location: form.location,
                    created_at: prev_created,
                    updated_at: now,
                    is_deleted: prev_deleted,
                };
                let out = rec.clone();
                store.docs[i] = rec;
                Ok(out)
            },
        }
    }

    /// Sets the name of the document row with this id and stamps
    /// `updated_at`. Fails with `NotFound` when no row has the id.
    pub fn rename(store: &mut Store, doc_id: i64, name: String, now: i64) -> (r: Result<
        DocRecord,
        Error,
    >)
        requires
            old(store).wf(),
        ensures
            final(store).wf(),
            same_users(*old(store), *final(store)),
            same_tags(*old(store), *final(store)),
            same_kbs(*old(store), *final(store)),
            same_dialogs(*old(store), *final(store)),
            same_edges(*old(store), *final(store)),
            same_links(*old(store), *final(store)),
            r is Ok <==> has_doc(old(store).docs@, doc_id),
            match r {
                Ok(d) => {
                    &&& d == (DocRecord {
                        doc_name: name,
                        updated_at: now,
                        ..doc_of(old(store).docs@, doc_id)
                    })
                    &&& final(store).docs@ == old(store).docs@.update(
                        doc_idx(old(store).docs@, doc_id),
                        d,
                    )
                    &&& final(store).next_did == old(store).next_did
                },
                Err(e) => e == Error::NotFound && *final(store) == *old(store),
            },
    {
        match store.doc_index(doc_id) {
            None => Err(Error::NotFound),
            Some(i) => {
                let mut rec = store.docs[i].clone();
                rec.doc_name = name;
                rec.updated_at = now;
                let out = rec.clone();
                store.docs[i] = rec;
                Ok(out)
            },
        }
    }

    /// Removes every document row.
    pub fn delete_all_doc_infos(store: &mut Store)
        requires
            old(store).wf(),
        ensures
            final(store).wf(),
            final(store).docs@ =~= Seq::<DocRecord>::empty(),
            final(store).next_did == old(store).next_did,
            same_users(*old(store), *final(store)),
            same_tags(*old(store), *final(store)),
            same_kbs(*old(store), *final(store)),
            same_dialogs(*old(store), *final(store)),
            same_edges(*old(store), *final(store)),
            same_links(*old(store), *final(store)),
    {
        store.docs.clear();
    }

    /// Reparents each of the given documents under `dest_did`: the
    /// document's parent edge is updated, or inserted when it has none
    /// (upsert, so a root can be moved into a folder). Fails with
    /// `NotFound`, changing nothing, when some id has no document row.
    pub fn mv_doc_info(store: &mut Store, dest_did: i64, dids: &Vec<i64>) -> (r: Result<(), Error>)
        requires
            old(store).wf(),
            old(store).next_edge_id + dids@.len() < i64::MAX,
        ensures
            final(store).wf(),
            same_users(*old(store), *final(store)),
            same_tags(*old(store), *final(store)),
            same_kbs(*old(store), *final(store)),
            same_docs(*old(store), *final(store)),
            same_dialogs(*old(store), *final(store)),
            same_links(*old(store), *final(store)),
            final(store).next_edge_id - old(store).next_edge_id == final(store).doc_edges@.len()
                - old(store).doc_edges@.len(),
            r is Ok <==> (forall|k: int|
                0 <= k < dids@.len() ==> has_doc(old(store).docs@, #[trigger] dids@[k])),
            match r {
                Ok(()) => {
                    &&& old(store).doc_edges@.len() <= final(store).doc_edges@.len()
                    &&& forall|j: int|
                        #![trigger final(store).doc_edges@[j]]
                        0 <= j < old(store).doc_edges@.len() ==> final(store).doc_edges@[j].id
                            == old(store).doc_edges@[j].id && final(store).doc_edges@[j].did
                            == old(store).doc_edges@[j].did && final(store).doc_edges@[j].parent_id
                            == (if dids@.contains(old(store).doc_edges@[j].did) {
                            dest_did
                        } else {
                            old(store).doc_edges@[j].parent_id
                        })
                    &&& forall|j: int|
                        #![trigger final(store).doc_edges@[j]]
                        old(store).doc_edges@.len() <= j < final(store).doc_edges@.len()
                            ==> final(store).doc_edges@[j].parent_id == dest_did
                            && dids@.contains(final(store).doc_edges@[j].did) && !has_edge_for(
                            old(store).doc_edges@,
                            final(store).doc_edges@[j].did,
                        )
                    &&& forall|d: i64|
                        dids@.contains(d) ==> has_edge_for(final(store).doc_edges@, d)
                },
                Err(e) => e == Error::NotFound && *final(store) == *old(store),
            },
    {
        let mut k: usize = 0;
        while k < dids.len()
            invariant
                store.wf(),
                k <= dids@.len(),
                forall|j: int| 0 <= j < k ==> has_doc(store.docs@, #[trigger] dids@[j]),
            decreases dids@.len() - k,
        {
            if store.doc_index(dids[k]).is_none() {
                return Err(Error::NotFound);
            }
            k += 1;
        }
        let ghost orig = *store;
        let mut k: usize = 0;
        while k < dids.len()
            invariant
                store.wf(),
                orig.wf(),
                k <= dids@.len(),
                same_users(orig, *store),
                same_tags(orig, *store),
                same_kbs(orig, *store),
                same_docs(orig, *store),
                same_dialogs(orig, *store),
                same_links(orig, *store),
                forall|j: int| 0 <= j < dids@.len() ==> has_doc(orig.docs@, #[trigger] dids@[j]),
                orig.next_edge_id + dids@.len() < i64::MAX,
                orig.doc_edges@.len() <= store.doc_edges@.len(),
                orig.next_edge_id <= store.next_edge_id,
                store.next_edge_id - orig.next_edge_id == store.doc_edges@.len()
                    - orig.doc_edges@.len() <= k,
                forall|j: int|
                    #![trigger store.doc_edges@[j]]
                    0 <= j < orig.doc_edges@.len() ==> store.doc_edges@[j].id
                        == orig.doc_edges@[j].id && store.doc_edges@[j].did
                        == orig.doc_edges@[j].did && store.doc_edges@[j].parent_id == (
                    if in_prefix(dids@, k as int, orig.doc_edges@[j].did) {
                        dest_did
                    } else {
                        orig.doc_edges@[j].parent_id
                    }),
                forall|j: int|
                    #![trigger store.doc_edges@[j]]
                    orig.doc_edges@.len() <= j < store.doc_edges@.len()
                        ==> store.doc_edges@[j].parent_id == dest_did && in_prefix(
                        dids@,
                        k as int,
                        store.doc_edges@[j].did,
                    ) && !has_edge_for(orig.doc_edges@, store.doc_edges@[j].did),
                forall|d2: i64|
                    in_prefix(dids@, k as int, d2) ==> has_edge_for(store.doc_edges@, d2),
            decreases dids@.len() - k,
        {
            let d = dids[k];
            let ghost pre = *store;
            let ghost mut wit: int = 0;
            match store.edge_index_for(d) {
                Some(i) => {
                    let id = store.doc_edges[i].id;
                    store.doc_edges[i] = DocEdge { id, parent_id: dest_did, did: d };
                    proof {
                        wit = i as int;
                        assert(forall|j: int|
                            0 <= j < store.doc_edges@.len() && j != i
                                ==> #[trigger] store.doc_edges@[j] == pre.doc_edges@[j]);
                        assert(store.doc_edges@[i as int].did == pre.doc_edges@[i as int].did);
                        assert(store.doc_edges@[i as int].id == pre.doc_edges@[i as int].id);
                    }
                },
                None => {
                    let id = store.next_edge_id;
                    store.doc_edges.push(DocEdge { id, parent_id: dest_did, did: d });
                    store.next_edge_id = id + 1;
                    proof {
                        wit = store.doc_edges@.len() - 1;
                        assert(forall|j: int|
                            0 <= j < pre.doc_edges@.len() ==> #[trigger] store.doc_edges@[j]
                                == pre.doc_edges@[j]);
                        if has_edge_for(orig.doc_edges@, d) {
                            let w = choose|w: int|
                                0 <= w < orig.doc_edges@.len() && #[trigger] orig.doc_edges@[w].did
                                    == d;
                            assert(pre.doc_edges@[w].did == d);
                        }
                    }
                },
            }
            proof {
                assert forall|j: int| #![trigger store.doc_edges@[j]] 0 <= j
                    < orig.doc_edges@.len() implies store.doc_edges@[j].id
                    == orig.doc_edges@[j].id && store.doc_edges@[j].did
                    == orig.doc_edges@[j].did && store.doc_edges@[j].parent_id == (
                if in_prefix(dids@, k + 1, orig.doc_edges@[j].did) {
                    dest_did
                } else {
                    orig.doc_edges@[j].parent_id
                }) by {
                    lemma_in_prefix_step(dids@, k as int, orig.doc_edges@[j].did);
                    if orig.doc_edges@[j].did == d {
                        assert(has_edge_for(pre.doc_edges@, d)) by {
                            assert(pre.doc_edges@[j].did == d);
                        }
                    }
                }
                assert forall|j: int|
                    #![trigger store.doc_edges@[j]]
                    orig.doc_edges@.len() <= j < store.doc_edges@.len() implies store
                    .doc_edges@[j].parent_id == dest_did && in_prefix(
                    dids@,
                    k + 1,
                    store.doc_edges@[j].did,
                ) && !has_edge_for(orig.doc_edges@, store.doc_edges@[j].did) by {
                    lemma_in_prefix_step(dids@, k as int, store.doc_edges@[j].did);
                    if j < pre.doc_edges@.len() {
                        lemma_in_prefix_step(dids@, k as int, pre.doc_edges@[j].did);
                    }
                }
                assert forall|d2: i64| in_prefix(dids@, k + 1, d2) implies has_edge_for(
                    store.doc_edges@,
                    d2,
                ) by {
                    lemma_in_prefix_step(dids@, k as int, d2);
                    if in_prefix(dids@, k as int, d2) {
                        let w = choose|w: int|
                            0 <= w < pre.doc_edges@.len() && #[trigger] pre.doc_edges@[w].did
                                == d2;
                        assert(store.doc_edges@[w].did == d2);
                    } else {
                        assert(d2 == dids@[k as int]);
                        assert(store.doc_edges@[wit].did == d);
                        assert(has_edge_for(store.doc_edges@, d));
                    }
                }
            }
            k += 1;
        }
        proof {
            lemma_in_prefix_all(dids@);
        }
        Ok(())
    }

    /// Soft-deletes the given documents and every descendant, removes
    /// every parent edge touching a deleted id — as parent or as child —
    /// and soft-deletes the knowledge-base links of all deleted ids.
    /// Fails with `NotFound`, changing nothing, when some id in the
    /// closure has no document row.
    pub fn delete_doc_info(store: &mut Store, doc_ids: &Vec<i64>, now: i64) -> (r: Result<
        (),
        Error,
    >)
        requires
            old(store).wf(),
        ensures
            final(store).wf(),
            same_users(*old(store), *final(store)),
            same_tags(*old(store), *final(store)),
            same_kbs(*old(store), *final(store)),
            same_dialogs(*old(store), *final(store)),
            r is Ok <==> (forall|x: i64|
                reachable(old(store).doc_edges@, doc_ids@, x) ==> has_doc(old(store).docs@, x)),
            match r {
                Ok(()) => {
                    &&& final(store).docs@.len() == old(store).docs@.len()
                    &&& final(store).next_did == old(store).next_did
                    &&& forall|j: int|
                        #![trigger final(store).docs@[j]]
                        0 <= j < old(store).docs@.len() ==> final(store).docs@[j] == (
                        if reachable(old(store).doc_edges@, doc_ids@, old(store).docs@[j].did) {
                            (DocRecord { is_deleted: true, updated_at: now, ..old(store).docs@[j] })
                        } else {
                            old(store).docs@[j]
                        })
                    &&& final(store).doc_edges@ == old(store).doc_edges@.filter(
                        edge_survives(old(store).doc_edges@, doc_ids@),
                    )
                    &&& final(store).next_edge_id == old(store).next_edge_id
                    &&& final(store).kb_links@.len() == old(store).kb_links@.len()
                    &&& final(store).next_link_id == old(store).next_link_id
                    &&& forall|j: int|
                        #![trigger final(store).kb_links@[j]]
                        0 <= j < old(store).kb_links@.len() ==> if reachable(
                            old(store).doc_edges@,
                            doc_ids@,
                            old(store).kb_links@[j].did,
                        ) {
                            let l = final(store).kb_links@[j];
                            &&& l.id == old(store).kb_links@[j].id
                            &&& l.kb_id == old(store).kb_links@[j].kb_id
                            &&& l.did == old(store).kb_links@[j].did
                            &&& l.kb_progress == 0
                            &&& l.kb_progress_msg@ == Seq::<char>::empty()
                            &&& l.updated_at == now
                            &&& l.is_deleted == true
                        } else {
                            final(store).kb_links@[j] == old(store).kb_links@[j]
                        }
                },
                Err(e) => e == Error::NotFound && *final(store) == *old(store) && exists|x: i64|
                    reachable(old(store).doc_edges@, doc_ids@, x) && !has_doc(old(store).docs@, x),
            },
    {
        let ghost edges0 = store.doc_edges@;
        let desc = Query::all_descendent_ids(store, doc_ids);
        let mut t: usize = 0;
        while t < desc.len()
            invariant
                store.wf(),
                t <= desc@.len(),
                forall|j: int| 0 <= j < t ==> has_doc(store.docs@, #[trigger] desc@[j]),
                forall|x: i64| #[trigger] desc@.contains(x) <==> reachable(edges0, doc_ids@, x),
                edges0 == store.doc_edges@,
            decreases desc@.len() - t,
        {
            if store.doc_index(desc[t]).is_none() {
                proof {
                    assert(desc@.contains(desc@[t as int]));
                }
                return Err(Error::NotFound);
            }
            t += 1;
        }
        proof {
            assert forall|x: i64| reachable(edges0, doc_ids@, x) implies has_doc(
                store.docs@,
                x,
            ) by {
                assert(desc@.contains(x) == reachable(edges0, doc_ids@, x));
                let w = choose|w: int| 0 <= w < desc@.len() && desc@[w] == x;
                assert(has_doc(store.docs@, desc@[w]));
            }
        }
        let ghost orig = *store;
        let mut i: usize = 0;
        while i < store.docs.len()
            invariant
                store.wf(),
                i <= store.docs@.len(),
                same_users(orig, *store),
                same_tags(orig, *store),
                same_kbs(orig, *store),
                same_dialogs(orig, *store),
                same_edges(orig, *store),
                same_links(orig, *store),
                store.next_did == orig.next_did,
                store.docs@.len() == orig.docs@.len(),
                forall|x: i64| #[trigger] desc@.contains(x) <==> reachable(edges0, doc_ids@, x),
                edges0 == orig.doc_edges@,
                forall|j: int|
                    #![trigger store.docs@[j]]
                    0 <= j < i ==> store.docs@[j] == (if desc@.contains(orig.docs@[j].did) {
                        (DocRecord { is_deleted: true, updated_at: now, ..orig.docs@[j] })
                    } else {
                        orig.docs@[j]
                    }),
                forall|j: int|
                    #![trigger store.docs@[j]]
                    i <= j < store.docs@.len() ==> store.docs@[j] == orig.docs@[j],
            decreases store.docs@.len() - i,
        {
            let did = store.docs[i].did;
            if contains_i64(&desc, did) {
                let mut rec = store.docs[i].clone();
                rec.is_deleted = true;
                rec.updated_at = now;
                store.docs[i] = rec;
            }
            i += 1;
        }
        let mut kept: Vec<DocEdge> = Vec::new();
        let mut j: usize = 0;
        proof {
            assert(kept@ =~= store.doc_edges@.take(0).filter(edge_survives(edges0, doc_ids@)));
        }
        while j < store.doc_edges.len()
            invariant
                j <= store.doc_edges@.len(),
                edges0 == store.doc_edges@,
                forall|x: i64| #[trigger] desc@.contains(x) <==> reachable(edges0, doc_ids@, x),
                kept@ == store.doc_edges@.take(j as int).filter(edge_survives(edges0, doc_ids@)),
            decreases store.doc_edges@.len() - j,
        {
            let e = store.doc_edges[j];
            proof {
                lemma_filter_take_step(store.doc_edges@, edge_survives(edges0, doc_ids@), j as int);
                assert(edge_survives(edges0, doc_ids@)(store.doc_edges@[j as int]) == (!reachable(
                    edges0,
                    doc_ids@,
                    e.parent_id,
                ) && !reachable(edges0, doc_ids@, e.did)));
                assert(desc@.contains(e.parent_id) == reachable(edges0, doc_ids@, e.parent_id));
                assert(desc@.contains(e.did) == reachable(edges0, doc_ids@, e.did));
            }
            if !contains_i64(&desc, e.parent_id) && !contains_i64(&desc, e.did) {
                kept.push(e);
            }
            j += 1;
        }
        proof {
            lemma_take_all(store.doc_edges@);
            lemma_filter_ordered(
                edges0,
                edge_survives(edges0, doc_ids@),
                |a: DocEdge, b: DocEdge| a.id < b.id && a.did != b.did,
            );
            assert forall|t2: int| 0 <= t2 < kept@.len() implies 0 < #[trigger] kept@[t2].id
                < store.next_edge_id by {
                assert(edges0.contains(kept@[t2]));
                let w = choose|w: int| 0 <= w < edges0.len() && edges0[w] == kept@[t2];
                assert(0 < edges0[w].id < orig.next_edge_id);
            }
        }
        store.doc_edges = kept;
        crate::kb::Mutation::remove_docs(store, &desc, None, now);
        proof {
            assert forall|j2: int|
                #![trigger store.kb_links@[j2]]
                0 <= j2 < old(store).kb_links@.len() implies (if reachable(
                edges0,
                doc_ids@,
                old(store).kb_links@[j2].did,
            ) {
                let l = store.kb_links@[j2];
                &&& l.id == old(store).kb_links@[j2].id
                &&& l.kb_id == old(store).kb_links@[j2].kb_id
                &&& l.did == old(store).kb_links@[j2].did
                &&& l.kb_progress == 0
                &&& l.kb_progress_msg@ == Seq::<char>::empty()
                &&& l.updated_at == now
                &&& l.is_deleted == true
            } else {
                store.kb_links@[j2] == old(store).kb_links@[j2]
            }) by {
                assert(desc@.contains(old(store).kb_links@[j2].did) == reachable(
                    edges0,
                    doc_ids@,
                    old(store).kb_links@[j2].did,
                ));
            }
        }
        Ok(())
    }
}

/// Whether renaming `did` to `name` would collide with an active sibling
/// document of the same user.
fn conflict_scan(store: &Store, uid: i64, did: i64, name: &String) -> (r: bool)
    requires
        store.wf(),
    ensures
        r == rename_conflict(store.docs@, store.doc_edges@, uid, did, name@),
{
    let my_edge = store.edge_index_for(did);
    let mut i: usize = 0;
    while i < store.docs.len()
        invariant
            store.wf(),
            i <= store.docs@.len(),
            match my_edge {
                Some(me) => me < store.doc_edges@.len() && store.doc_edges@[me as int].did == did
                    && edge_idx_for(store.doc_edges@, did) == me as int && has_edge_for(
                    store.doc_edges@,
                    did,
                ),
                None => !has_edge_for(store.doc_edges@, did),
            },
            forall|j: int|
                #![trigger store.docs@[j]]
                0 <= j < i ==> !(store.docs@[j].uid == uid && store.docs@[j].did != did
                    && !store.docs@[j].is_deleted && store.docs@[j].doc_name@ == name@
                    && sibling_docs(store.doc_edges@, did, store.docs@[j].did)),
        decreases store.docs@.len() - i,
    {
        let cand_did = store.docs[i].did;
        if store.docs[i].uid == uid && cand_did != did && !store.docs[i].is_deleted && str_eq(
            store.docs[i].doc_name.as_str(),
            name.as_str(),
        ) {
            let sib = match my_edge {
                Some(me) => match store.edge_index_for(cand_did) {
                    Some(ce) => store.doc_edges[me].parent_id == store.doc_edges[ce].parent_id,
                    None => false,
                },
                None => store.edge_index_for(cand_did).is_none(),
            };
            proof {
                assert(sib == sibling_docs(store.doc_edges@, did, store.docs@[i as int].did));
            }
            if sib {
                return true;
            }
        }
        i += 1;
    }
    false
}

/// Renames a document: a name already used by an active sibling of the
/// same user is rejected with `Duplicate` and nothing changes; a missing
/// document is `NotFound`. On success the row carries the new name and a
/// fresh `updated_at`.
pub fn rename(store: &mut Store, params: RenameParams, now: i64) -> (r: Result<DocRecord, Error>)
    requires
        old(store).wf(),
    ensures
        final(store).wf(),
        same_users(*old(store), *final(store)),
        same_tags(*old(store), *final(store)),
        same_kbs(*old(store), *final(store)),
        same_dialogs(*old(store), *final(store)),
        same_edges(*old(store), *final(store)),
        same_links(*old(store), *final(store)),
        r is Ok <==> (!rename_conflict(
            old(store).docs@,
            old(store).doc_edges@,
            params.uid,
            params.did,
            params.name@,
        ) && has_doc(old(store).docs@, params.did)),
        match r {
            Ok(d) => {
                &&& d == (DocRecord {
                    doc_name: params.name,
                    updated_at: now,
                    ..doc_of(old(store).docs@, params.did)
                })
                &&& final(store).docs@ == old(store).docs@.update(
                    doc_idx(old(store).docs@, params.did),
                    d,
                )
                &&& final(store).next_did == old(store).next_did
            },
            Err(e) => *final(store) == *old(store) && ((e == Error::Duplicate && rename_conflict(
                old(store).docs@,
                old(store).doc_edges@,
                params.uid,
                params.did,
                params.name@,
            )) || (e == Error::NotFound && !rename_conflict(
                old(store).docs@,
                old(store).doc_edges@,
                params.uid,
                params.did,
                params.name@,
            ) && !has_doc(old(store).docs@, params.did))),
        },
{
    if conflict_scan(store, params.uid, params.did, &params.name) {
        return Err(Error::Duplicate);
    }
    Mutation::rename(store, params.did, params.name, now)
}

/// Inserts a new document row and its parent edge under `dest_did` in
/// one step. Rejected with `Duplicate`, before anything changes, in the
/// corner case that some edge already claims the fresh id as a child.
fn create_and_place(store: &mut Store, form: NewDoc, dest_did: i64, now: i64) -> (r: Result<
    i64,
    Error,
>)
    requires
        old(store).wf(),
        old(store).next_did < i64::MAX,
        old(store).next_edge_id < i64::MAX,
    ensures
        final(store).wf(),
        same_users(*old(store), *final(store)),
        same_tags(*old(store), *final(store)),
        same_kbs(*old(store), *final(store)),
        same_dialogs(*old(store), *final(store)),
        same_links(*old(store), *final(store)),
        r is Ok <==> !has_edge_for(old(store).doc_edges@, old(store).next_did),
        match r {
            Ok(did) => {
                &&& did == old(store).next_did
                &&& final(store).docs@ == old(store).docs@.push(
                    (DocRecord {
                        did,
                        uid: form.uid,
                        doc_name: form.doc_name,
                        size: form.size,
                        kind: form.kind,
                        location: form.location,
                        created_at: now,
                        updated_at: now,
                        is_deleted: false,
                    }),
                )
                &&& final(store).next_did == old(store).next_did + 1
                &&& final(store).doc_edges@ == old(store).doc_edges@.push(
                    (DocEdge { id: old(store).next_edge_id, parent_id: dest_did, did }),
                )
                &&& final(store).next_edge_id == old(store).next_edge_id + 1
            },
            Err(e) => e == Error::Duplicate && *final(store) == *old(store),
        },
{
    if store.edge_index_for(store.next_did).is_some() {
        return Err(Error::Duplicate);
    }
    let did = Mutation::create_doc_info(store, form, now);
    match Mutation::place_doc(store, dest_did, did) {
        Ok(()) => Ok(did),
        Err(e) => {
            proof {
                assert(false);
            }
            Err(e)
        },
    }
}

/// Creates a folder document under `parent_id`: an empty location, zero
/// size, and one parent edge. Returns the new folder's id.
pub fn new_folder(store: &mut Store, params: NewFoldParams, now: i64) -> (r: Result<i64, Error>)
    requires
        old(store).wf(),
        old(store).next_did < i64::MAX,
        old(store).next_edge_id < i64::MAX,
    ensures
        final(store).wf(),
        same_users(*old(store), *final(store)),
        same_tags(*old(store), *final(store)),
        same_kbs(*old(store), *final(store)),
        same_dialogs(*old(store), *final(store)),
        same_links(*old(store), *final(store)),
        r is Ok <==> !has_edge_for(old(store).doc_edges@, old(store).next_did),
        match r {
            Ok(did) => {
                &&& did == old(store).next_did
                &&& final(store).docs@.len() == old(store).docs@.len() + 1
                &&& final(store).docs@.subrange(0, old(store).docs@.len() as int) == old(
                    store,
                ).docs@
                &&& ({
                    let d = final(store).docs@.last();
                    &&& d.did == did
                    &&& d.uid == params.uid
                    &&& d.doc_name == params.name
                    &&& d.size == 0
                    &&& d.kind == crate::records::DocKind::Folder
                    &&& d.location@ == Seq::<char>::empty()
                    &&& d.created_at == now
                    &&& d.updated_at == now
                    &&& !d.is_deleted
                })
                &&& final(store).next_did == old(store).next_did + 1
                &&& final(store).doc_edges@ == old(store).doc_edges@.push(
                    (DocEdge { id: old(store).next_edge_id, parent_id: params.parent_id, did }),
                )
                &&& final(store).next_edge_id == old(store).next_edge_id + 1
            },
            Err(e) => e == Error::Duplicate && *final(store) == *old(store),
        },
{
    let r = create_and_place(
        store,
        NewDoc {
            uid: params.uid,
            doc_name: params.name,
            size: 0,
            kind: crate::records::DocKind::Folder,
            location: "".to_owned(),
        },
        params.parent_id,
        now,
    );
    proof {
        if r is Ok {
            reveal_strlit("");
            assert(store.docs@.last().location@ =~= Seq::<char>::empty());
            assert(store.docs@.subrange(0, old(store).docs@.len() as int) =~= old(store).docs@);
        }
    }
    r
}

/// Creates an uploaded document under `dest_did`: the stored name, byte
/// size and storage location are the caller's, and one parent edge is
/// inserted. Returns the new document's id.
pub fn upload_doc(
    store: &mut Store,
    uid: i64,
    dest_did: i64,
    doc_name: String,
    size: i64,
    location: String,
    now: i64,
) -> (r: Result<i64, Error>)
    requires
        old(store).wf(),
        old(store).next_did < i64::MAX,
        old(store).next_edge_id < i64::MAX,
    ensures
        final(store).wf(),
        same_users(*old(store), *final(store)),
        same_tags(*old(store), *final(store)),
        same_kbs(*old(store), *final(store)),
        same_dialogs(*old(store), *final(store)),
        same_links(*old(store), *final(store)),
        r is Ok <==> !has_edge_for(old(store).doc_edges@, old(store).next_did),
        match r {
            Ok(did) => {
                &&& did == old(store).next_did
                &&& final(store).docs@ == old(store).docs@.push(
                    (DocRecord {
                        did,
                        uid,
                        doc_name,
                        size,
                        kind: crate::records::DocKind::Doc,
                        location,
                        created_at: now,
                        updated_at: now,
                        is_deleted: false,
                    }),
                )
                &&& final(store).next_did == old(store).next_did + 1
                &&& final(store).doc_edges@ == old(store).doc_edges@.push(
                    (DocEdge { id: old(store).next_edge_id, parent_id: dest_did, did }),
                )
                &&& final(store).next_edge_id == old(store).next_edge_id + 1
            },
            Err(e) => e == Error::Duplicate && *final(store) == *old(store),
        },
{
    create_and_place(
        store,
        NewDoc { uid, doc_name, size, kind: crate::records::DocKind::Doc, location },
        dest_did,
        now,
    )
}

/// Whether some active child of `pid` owned by `uid` carries this name.
fn name_taken(store: &Store, uid: i64, pid: i64, name: &Vec<char>) -> (r: bool)
    ensures
        r == name_used_among_children(store.docs@, store.doc_edges@, uid, pid, name@),
{
    let mut i: usize = 0;
    while i < store.docs.len()
        invariant
            i <= store.docs@.len(),
            forall|j: int|
                #![trigger store.docs@[j]]
                0 <= j < i ==> !(store.docs@[j].uid == uid && !store.docs@[j].is_deleted
                    && store.docs@[j].doc_name@ == name@ && child_step(
                    store.doc_edges@,
                    pid,
                    store.docs@[j].did,
                )),
        decreases store.docs@.len() - i,
    {
        if store.docs[i].uid == uid && !store.docs[i].is_deleted {
            let dn = chars_of(store.docs[i].doc_name.as_str());
            if crate::strutil::chars_eq(&dn, name) && has_child_edge(
                store,
                pid,
                store.docs[i].did,
            ) {
                return true;
            }
        }
        i += 1;
    }
    false
}

/// A name for a fresh upload among the children of `parent_id`: the
/// file name itself when free; otherwise the name with the least counter
/// `i >= 1` spliced in before the extension (`prefix_i.suffix` around
/// the last dot) that is free. The counter search stops after as many
/// tries as the document table has rows — distinct candidates can never
/// exhaust that bound, but the bound, not that fact, is what terminates
/// the search — and past it the name is padded with underscores until it
/// is longer than every sibling name, which no used name can equal.
pub fn unique_sibling_name(store: &Store, uid: i64, parent_id: i64, file_name: &String) -> (r:
    String)
    ensures
        !name_used_among_children(store.docs@, store.doc_edges@, uid, parent_id, r@),
        !name_used_among_children(store.docs@, store.doc_edges@, uid, parent_id, file_name@)
            ==> r@ == file_name@,
        (exists|i: int|
            1 <= i <= store.docs@.len() && !name_used_among_children(
                store.docs@,
                store.doc_edges@,
                uid,
                parent_id,
                #[trigger] numbered_name(file_name@, i as nat),
            )) && name_used_among_children(
            store.docs@,
            store.doc_edges@,
            uid,
            parent_id,
            file_name@,
        ) ==> (exists|i: int|
            #![trigger numbered_name(file_name@, i as nat)]
            1 <= i <= store.docs@.len() && r@ == numbered_name(file_name@, i as nat)
                && !name_used_among_children(
                store.docs@,
                store.doc_edges@,
                uid,
                parent_id,
                numbered_name(file_name@, i as nat),
            ) && (forall|j: int|
                1 <= j < i ==> name_used_among_children(
                    store.docs@,
                    store.doc_edges@,
                    uid,
                    parent_id,
                    #[trigger] numbered_name(file_name@, j as nat),
                ))),
{
    let fname = chars_of(file_name.as_str());
    if !name_taken(store, uid, parent_id, &fname) {
        return file_name.clone();
    }
    let mut has_dot = false;
    let mut dot: usize = 0;
    let mut k: usize = 0;
    while k < fname.len()
        invariant
            k <= fname@.len(),
            match last_dot(fname@.take(k as int)) {
                Some(d) => has_dot && dot as int == d,
                None => !has_dot,
            },
            has_dot ==> dot < k,
        decreases fname@.len() - k,
    {
        proof {
            assert(fname@.take(k + 1).drop_last() =~= fname@.take(k as int));
            assert(fname@.take(k + 1).last() == fname@[k as int]);
        }
        if fname[k] == '.' {
            has_dot = true;
            dot = k;
        }
        k += 1;
    }
    proof {
        lemma_take_all(fname@);
    }
    let prefix_end: usize = if has_dot {
        dot
    } else {
        0
    };
    let suffix_start: usize = if has_dot {
        dot + 1
    } else {
        0
    };
    let mut t: usize = 0;
    let n = store.docs.len();
    while t < n
        invariant
            t <= n,
            n == store.docs@.len(),
            fname@ == file_name@,
            match last_dot(fname@) {
                Some(d) => has_dot && dot as int == d && 0 <= d < fname@.len(),
                None => !has_dot,
            },
            prefix_end == if has_dot {
                dot
            } else {
                0usize
            },
            suffix_start == if has_dot {
                (dot + 1) as usize
            } else {
                0usize
            },
            prefix_end <= fname@.len(),
            suffix_start <= fname@.len(),
            name_used_among_children(store.docs@, store.doc_edges@, uid, parent_id, file_name@),
            forall|j: int|
                1 <= j <= t ==> name_used_among_children(
                    store.docs@,
                    store.doc_edges@,
                    uid,
                    parent_id,
                    #[trigger] numbered_name(file_name@, j as nat),
                ),
        decreases n - t,
    {
        let num: u64 = (t as u64) + 1;
        let digits = crate::strutil::dec_chars(num);
        let mut cand: Vec<char> = Vec::new();
        let mut p: usize = 0;
        while p < prefix_end
            invariant
                prefix_end <= fname@.len(),
                p <= prefix_end,
                cand@ == fname@.take(p as int),
            decreases prefix_end - p,
        {
            cand.push(fname[p]);
            proof {
                assert(cand@ =~= fname@.take(p + 1));
            }
            p += 1;
        }
        cand.push('_');
        proof {
            assert(cand@ =~= fname@.take(prefix_end as int) + seq!['_']);
        }
        let mut q: usize = 0;
        while q < digits.len()
            invariant
                prefix_end <= fname@.len(),
                q <= digits@.len(),
                cand@ == fname@.take(prefix_end as int) + seq!['_'] + digits@.take(q as int),
            decreases digits@.len() - q,
        {
            cand.push(digits[q]);
            proof {
                assert(cand@ =~= fname@.take(prefix_end as int) + seq!['_'] + digits@.take(q + 1));
            }
            q += 1;
        }
        cand.push('.');
        proof {
            assert(digits@.take(digits@.len() as int) =~= digits@);
            assert(cand@ =~= fname@.take(prefix_end as int) + seq!['_'] + digits@ + seq!['.']);
        }
        let mut sfx: usize = suffix_start;
        while sfx < fname.len()
            invariant
                prefix_end <= fname@.len(),
                suffix_start <= sfx <= fname@.len(),
                digits@ == crate::strutil::spec_dec(num as nat),
                cand@ == fname@.take(prefix_end as int) + seq!['_'] + digits@ + seq!['.']
                    + fname@.subrange(suffix_start as int, sfx as int),
            decreases fname@.len() - sfx,
        {
            cand.push(fname[sfx]);
            proof {
                assert(cand@ =~= fname@.take(prefix_end as int) + seq!['_'] + digits@ + seq!['.']
                    + fname@.subrange(suffix_start as int, sfx + 1));
            }
            sfx += 1;
        }
        proof {
            assert(fname@.subrange(suffix_start as int, fname@.len() as int) =~= fname@.skip(
                suffix_start as int,
            ));
            assert(cand@ =~= numbered_name(file_name@, num as nat));
        }
        if !name_taken(store, uid, parent_id, &cand) {
            let ghost wi: int = num as int;
            proof {
                assert(numbered_name(file_name@, wi as nat) == cand@);
                assert(1 <= wi <= store.docs@.len());
            }
            return crate::strutil::string_of_chars(&cand);
        }
        proof {
            assert forall|j: int| 1 <= j <= t + 1 implies name_used_among_children(
                store.docs@,
                store.doc_edges@,
                uid,
                parent_id,
                #[trigger] numbered_name(file_name@, j as nat),
            ) by {
                if j == t + 1 {
                    assert(numbered_name(file_name@, j as nat) == cand@);
                }
            }
        }
        t += 1;
    }
    proof {
        if exists|i: int|
            1 <= i <= store.docs@.len() && !name_used_among_children(
                store.docs@,
                store.doc_edges@,
                uid,
                parent_id,
                #[trigger] numbered_name(file_name@, i as nat),
            ) {
            let i = choose|i: int|
                1 <= i <= store.docs@.len() && !name_used_among_children(
                    store.docs@,
                    store.doc_edges@,
                    uid,
                    parent_id,
                    #[trigger] numbered_name(file_name@, i as nat),
                );
            assert(name_used_among_children(
                store.docs@,
                store.doc_edges@,
                uid,
                parent_id,
                numbered_name(file_name@, i as nat),
            ));
        }
    }
    let mut maxlen: usize = fname.len();
    let mut i: usize = 0;
    while i < store.docs.len()
        invariant
            i <= store.docs@.len(),
            forall|j: int|
                #![trigger store.docs@[j]]
                0 <= j < i ==> ((store.docs@[j].uid == uid && !store.docs@[j].is_deleted
                    && child_step(store.doc_edges@, parent_id, store.docs@[j].did))
                    ==> store.docs@[j].doc_name@.len() <= maxlen),
        decreases store.docs@.len() - i,
    {
        if store.docs[i].uid == uid && !store.docs[i].is_deleted && has_child_edge(
            store,
            parent_id,
            store.docs[i].did,
        ) {
            let dn = chars_of(store.docs[i].doc_name.as_str());
            if dn.len() > maxlen {
                maxlen = dn.len();
            }
        }
        i += 1;
    }
    let mut cand = chars_of(file_name.as_str());
    while cand.len() <= maxlen
        invariant
            cand@.len() <= maxlen + 1,
        decreases maxlen + 1 - cand@.len(),
    {
        cand.push('_');
    }
    proof {
        if name_used_among_children(store.docs@, store.doc_edges@, uid, parent_id, cand@) {
            let j = choose|j: int|
                #![trigger store.docs@[j]]
                0 <= j < store.docs@.len() && store.docs@[j].uid == uid
                    && !store.docs@[j].is_deleted && store.docs@[j].doc_name@ == cand@
                    && child_step(store.doc_edges@, parent_id, store.docs@[j].did);
            assert(store.docs@[j].doc_name@.len() <= maxlen);
        }
    }
    crate::strutil::string_of_chars(&cand)
}

/// The forest law: within a well-formed store a document is the child of
/// at most one parent edge, so the parent edges form a proper forest.
pub proof fn lemma_single_parent(s: Store)
    requires
        s.wf(),
    ensures
        forall|i: int, j: int|
            0 <= i < s.doc_edges@.len() && 0 <= j < s.doc_edges@.len() && i != j
                ==> (#[trigger] s.doc_edges@[i]).did != (#[trigger] s.doc_edges@[j]).did,
{
}

/// The round-trip law: a row inserted under a fresh id is exactly what a
/// lookup by that id finds afterwards; with both timestamps stamped at
/// insertion, its `created_at` cannot exceed its `updated_at`.
pub proof fn lemma_create_find_round_trip(docs: Seq<DocRecord>, rec: DocRecord)
    requires
        forall|i: int| 0 <= i < docs.len() ==> (#[trigger] docs[i]).did != rec.did,
    ensures
        has_doc(docs.push(rec), rec.did),
        doc_of(docs.push(rec), rec.did) == rec,
{
    let s2 = docs.push(rec);
    assert(s2[docs.len() as int].did == rec.did);
    assert(has_doc(s2, rec.did));
    let k = doc_idx(s2, rec.did);
    assert(0 <= k < s2.len() && s2[k].did == rec.did);
    if k < docs.len() {
        assert(docs[k].did != rec.did);
        assert(s2[k] == docs[k]);
    }
}

} // verus!
