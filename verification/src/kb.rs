//! Knowledge-base services: CRUD and the document links that carry
//! per-pair ingestion state.

use vstd::prelude::*;

use crate::error::Error;
use crate::records::{KbDocLink, KbRecord, NewKb};
use crate::seqtools::{
    in_prefix, lemma_filter_take_step, lemma_in_prefix_all, lemma_in_prefix_step, lemma_take_all,
};
use crate::store::{
    has_kb, has_link, kb_idx, same_dialogs, same_docs, same_edges, same_kbs, same_links, same_tags,
    same_users, Store,
};
use crate::strutil::str_eq;

verus! {

#[derive(Debug)]
pub struct AddDocs2KbParams {
    pub uid: i64,
    pub dids: Vec<i64>,
    pub kb_id: i64,
}

#[derive(Debug)]
pub struct DocIdsParams {
    pub uid: i64,
    pub dids: Vec<i64>,
}

/// The knowledge-base rows owned by one user.
pub open spec fn kb_owned_by(uid: i64) -> spec_fn(KbRecord) -> bool {
    |k: KbRecord| k.uid == uid
}

/// The knowledge-base rows with one name.
pub open spec fn kb_named(name: Seq<char>) -> spec_fn(KbRecord) -> bool {
    |k: KbRecord| k.kb_name@ == name
}

/// Some link row ties this knowledge base to one of the given documents.
pub open spec fn kb_touches(links: Seq<KbDocLink>, dids: Seq<i64>, kb_id: i64) -> bool {
    exists|j: int|
        #![trigger links[j]]
        0 <= j < links.len() && links[j].kb_id == kb_id && dids.contains(links[j].did)
}

/// The knowledge-base rows linked to any of the given documents.
pub open spec fn kb_touching(links: Seq<KbDocLink>, dids: Seq<i64>) -> spec_fn(KbRecord) -> bool {
    |k: KbRecord| kb_touches(links, dids, k.kb_id)
}

pub struct Query;

impl Query {
    /// The knowledge-base row with this id, deleted or not.
    pub fn find_kb_info_by_id(store: &Store, id: i64) -> (r: Option<KbRecord>)
        requires
            store.wf(),
        ensures
            match r {
                Some(k) => has_kb(store.kbs@, id) && k == store.kbs@[kb_idx(store.kbs@, id)],
                None => !has_kb(store.kbs@, id),
            },
    {
        match store.kb_index(id) {
            Some(i) => Some(store.kbs[i].clone()),
            None => None,
        }
    }

    /// Every knowledge-base row.
    pub fn find_kb_infos(store: &Store) -> (r: Vec<KbRecord>)
        ensures
            r@ == store.kbs@,
    {
        let mut out: Vec<KbRecord> = Vec::new();
        let mut i: usize = 0;
        while i < store.kbs.len()
            invariant
                i <= store.kbs@.len(),
                out@ == store.kbs@.take(i as int),
            decreases store.kbs@.len() - i,
        {
            out.push(store.kbs[i].clone());
            proof {
                assert(out@ =~= store.kbs@.take(i + 1));
            }
            i += 1;
        }
        proof {
            lemma_take_all(store.kbs@);
        }
        out
    }

    /// Every knowledge-base row owned by `uid`.
    pub fn find_kb_infos_by_uid(store: &Store, uid: i64) -> (r: Vec<KbRecord>)
        ensures
            r@ == store.kbs@.filter(kb_owned_by(uid)),
    {
        let mut out: Vec<KbRecord> = Vec::new();
        let mut i: usize = 0;
        proof {
            assert(out@ =~= store.kbs@.take(0).filter(kb_owned_by(uid)));
        }
        while i < store.kbs.len()
            invariant
                i <= store.kbs@.len(),
                out@ == store.kbs@.take(i as int).filter(kb_owned_by(uid)),
            decreases store.kbs@.len() - i,
        {
            proof {
                lemma_filter_take_step(store.kbs@, kb_owned_by(uid), i as int);
                assert(kb_owned_by(uid)(store.kbs@[i as int]) == (store.kbs@[i as int].uid == uid));
            }
            if store.kbs[i].uid == uid {
                out.push(store.kbs[i].clone());
            }
            i += 1;
        }
        proof {
            lemma_take_all(store.kbs@);
        }
        out
    }

    /// Every knowledge-base row with this name.
    pub fn find_kb_infos_by_name(store: &Store, name: &String) -> (r: Vec<KbRecord>)
        ensures
            r@ == store.kbs@.filter(kb_named(name@)),
    {
        let mut out: Vec<KbRecord> = Vec::new();
        let mut i: usize = 0;
        proof {
            assert(out@ =~= store.kbs@.take(0).filter(kb_named(name@)));
        }
        while i < store.kbs.len()
            invariant
                i <= store.kbs@.len(),
                out@ == store.kbs@.take(i as int).filter(kb_named(name@)),
            decreases store.kbs@.len() - i,
        {
            proof {
                lemma_filter_take_step(store.kbs@, kb_named(name@), i as int);
                assert(kb_named(name@)(store.kbs@[i as int]) == (store.kbs@[i as int].kb_name@
                    == name@));
            }
            if str_eq(store.kbs[i].kb_name.as_str(), name.as_str()) {
                out.push(store.kbs[i].clone());
            }
            i += 1;
        }
        proof {
            lemma_take_all(store.kbs@);
        }
        out
    }

    /// Every knowledge base linked to any of the given documents, through
    /// any link row, soft-deleted links included.
    pub fn find_kb_by_docs(store: &Store, doc_ids: &Vec<i64>) -> (r: Vec<KbRecord>)
        ensures
            r@ == store.kbs@.filter(kb_touching(store.kb_links@, doc_ids@)),
    {
        let ghost pred = kb_touching(store.kb_links@, doc_ids@);
        let mut out: Vec<KbRecord> = Vec::new();
        let mut i: usize = 0;
        proof {
            assert(out@ =~= store.kbs@.take(0).filter(kb_touching(store.kb_links@, doc_ids@)));
        }
        while i < store.kbs.len()
            invariant
                i <= store.kbs@.len(),
                out@ == store.kbs@.take(i as int).filter(kb_touching(store.kb_links@, doc_ids@)),
            decreases store.kbs@.len() - i,
        {
            proof {
                lemma_filter_take_step(store.kbs@, kb_touching(store.kb_links@, doc_ids@), i as int);
                assert(kb_touching(store.kb_links@, doc_ids@)(store.kbs@[i as int]) == kb_touches(
                    store.kb_links@,
                    doc_ids@,
                    store.kbs@[i as int].kb_id,
                ));
            }
            if Self::linked_to_any(store, store.kbs[i].kb_id, doc_ids) {
                out.push(store.kbs[i].clone());
            }
            i += 1;
        }
        proof {
            lemma_take_all(store.kbs@);
        }
        out
    }


    /// One page of the kb table in id order, with the page count:
    /// `page` is 1-based, and a page past the end is empty.
    pub fn find_kb_infos_in_page(store: &Store, page: u64, posts_per_page: u64) -> (r: (
        Vec<KbRecord>,
        u64,
    ))
        requires
            1 <= page,
            1 <= posts_per_page,
        ensures
            ({
                let n = store.kbs@.len() as int;
                let start = (page - 1) as int * posts_per_page as int;
                let lo = if start <= n {
                    start
                } else {
                    n
                };
                let hi = if start + posts_per_page as int <= n {
                    start + posts_per_page as int
                } else {
                    n
                };
                &&& r.0@ == store.kbs@.subrange(lo, hi)
                &&& r.1 as int == n / posts_per_page as int + (if n % posts_per_page as int != 0 {
                    1int
                } else {
                    0int
                })
            }),
    {
        let (lo, hi, num_pages) = crate::paging::page_bounds(
            store.kbs.len(),
            page,
            posts_per_page,
        );
        let mut out: Vec<KbRecord> = Vec::new();
        let mut t: usize = lo;
        while t < hi
            invariant
                lo <= t <= hi <= store.kbs@.len(),
                out@ == store.kbs@.subrange(lo as int, t as int),
            decreases hi - t,
        {
            out.push(store.kbs[t].clone());
            proof {
                assert(out@ =~= store.kbs@.subrange(lo as int, t + 1));
            }
            t += 1;
        }
        proof {
            assert(out@ =~= store.kbs@.subrange(lo as int, hi as int));
        }
        (out, num_pages)
    }

    /// Whether some link row ties this knowledge base to one of the given
    /// documents.
    fn linked_to_any(store: &Store, kb_id: i64, doc_ids: &Vec<i64>) -> (r: bool)
        ensures
            r == kb_touches(store.kb_links@, doc_ids@, kb_id),
    {
        let mut j: usize = 0;
        while j < store.kb_links.len()
            invariant
                j <= store.kb_links@.len(),
                forall|t: int|
                    #![trigger store.kb_links@[t]]
                    0 <= t < j ==> !(store.kb_links@[t].kb_id == kb_id && doc_ids@.contains(
                        store.kb_links@[t].did,
                    )),
            decreases store.kb_links@.len() - j,
        {
            if store.kb_links[j].kb_id == kb_id && crate::seqtools::contains_i64(
                doc_ids,
                store.kb_links[j].did,
            ) {
                return true;
            }
            j += 1;
        }
        false
    }
}

pub struct Mutation;

impl Mutation {
    /// Inserts a new knowledge-base row with a fresh id; the given
    /// timestamp becomes both `created_at` and `updated_at`. Returns the
    /// new id.
    pub fn create_kb_info(store: &mut Store, form: NewKb, now: i64) -> (kb_id: i64)
        requires
            old(store).wf(),
            old(store).next_kb_id < i64::MAX,
        ensures
            final(store).wf(),
            kb_id == old(store).next_kb_id,
            final(store).kbs@ == old(store).kbs@.push(
                (KbRecord {
                    kb_id,
                    uid: form.uid,
                    kb_name: form.kb_name,
                    icon: form.icon,
                    created_at: now,
                    updated_at: now,
                    is_deleted: false,
                }),
            ),
            final(store).next_kb_id == old(store).next_kb_id + 1,
            same_users(*old(store), *final(store)),
            same_tags(*old(store), *final(store)),
            same_docs(*old(store), *final(store)),
            same_dialogs(*old(store), *final(store)),
            same_edges(*old(store), *final(store)),
            same_links(*old(store), *final(store)),
    {
        let kb_id = store.next_kb_id;
        store.kbs.push(
            KbRecord {
                kb_id,
                uid: form.uid,
                kb_name: form.kb_name,
                icon: form.icon,
                created_at: now,
                updated_at: now,
                is_deleted: false,
            },
        );
        store.next_kb_id = kb_id + 1;
        kb_id
    }

    /// Links each given document to the knowledge base. A pair that
    /// already has a link row, soft-deleted or not, is left as it is; the
    /// others get a fresh row with zeroed ingestion state.
    pub fn add_docs(store: &mut Store, kb_id: i64, doc_ids: &Vec<i64>, now: i64) -> (r: Result<
        (),
        Error,
    >)
        requires
            old(store).wf(),
            old(store).next_link_id + doc_ids@.len() < i64::MAX,
        ensures
            final(store).wf(),
            r is Ok,
            same_users(*old(store), *final(store)),
            same_tags(*old(store), *final(store)),
            same_kbs(*old(store), *final(store)),
            same_docs(*old(store), *final(store)),
            same_dialogs(*old(store), *final(store)),
            same_edges(*old(store), *final(store)),
            old(store).kb_links@.len() <= final(store).kb_links@.len(),
            final(store).next_link_id - old(store).next_link_id == final(store).kb_links@.len()
                - old(store).kb_links@.len(),
            final(store).kb_links@.subrange(0, old(store).kb_links@.len() as int) == old(
                store,
            ).kb_links@,
            forall|j: int|
                #![trigger final(store).kb_links@[j]]
                old(store).kb_links@.len() <= j < final(store).kb_links@.len() ==> ({
                    let l = final(store).kb_links@[j];
                    &&& l.kb_id == kb_id
                    &&& doc_ids@.contains(l.did)
                    &&& !has_link(old(store).kb_links@, kb_id, l.did)
                    &&& l.kb_progress == 0
                    &&& l.kb_progress_msg@ == Seq::<char>::empty()
                    &&& l.updated_at == now
                    &&& l.is_deleted == false
                }),
            forall|d: i64| doc_ids@.contains(d) ==> has_link(final(store).kb_links@, kb_id, d),
    {
        let ghost orig = *store;
        let mut k: usize = 0;
        while k < doc_ids.len()
            invariant
                store.wf(),
                orig.wf(),
                k <= doc_ids@.len(),
                same_users(orig, *store),
                same_tags(orig, *store),
                same_kbs(orig, *store),
                same_docs(orig, *store),
                same_dialogs(orig, *store),
                same_edges(orig, *store),
                orig.next_link_id + doc_ids@.len() < i64::MAX,
                orig.kb_links@.len() <= store.kb_links@.len(),
                orig.next_link_id <= store.next_link_id,
                store.next_link_id - orig.next_link_id == store.kb_links@.len()
                    - orig.kb_links@.len() <= k,
                store.kb_links@.subrange(0, orig.kb_links@.len() as int) == orig.kb_links@,
                forall|j: int|
                    #![trigger store.kb_links@[j]]
                    orig.kb_links@.len() <= j < store.kb_links@.len() ==> ({
                        let l = store.kb_links@[j];
                        &&& l.kb_id == kb_id
                        &&& doc_ids@.contains(l.did)
                        &&& !has_link(orig.kb_links@, kb_id, l.did)
                        &&& l.kb_progress == 0
                        &&& l.kb_progress_msg@ == Seq::<char>::empty()
                        &&& l.updated_at == now
                        &&& l.is_deleted == false
                    }),
                forall|d: i64|
                    in_prefix(doc_ids@, k as int, d) ==> has_link(store.kb_links@, kb_id, d),
            decreases doc_ids@.len() - k,
        {
            let d = doc_ids[k];
            let ghost pre = *store;
            let mut pushed_at: usize = 0;
            let mut pushed = false;
            match store.link_index(kb_id, d) {
                Some(_) => {},
                None => {
                    let id = store.next_link_id;
                    pushed_at = store.kb_links.len();
                    pushed = true;
                    store.kb_links.push(
                        KbDocLink {
                            id,
                            kb_id,
                            did: d,
                            kb_progress: 0,
                            kb_progress_msg: String::new(),
                            updated_at: now,
                            is_deleted: false,
                        },
                    );
                    store.next_link_id = id + 1;
                    proof {
                        assert(store.kb_links@.subrange(0, orig.kb_links@.len() as int)
                            =~= pre.kb_links@.subrange(0, orig.kb_links@.len() as int));
                        if has_link(orig.kb_links@, kb_id, d) {
                            let w = link_witness(orig.kb_links@, kb_id, d);
                            assert(pre.kb_links@.subrange(0, orig.kb_links@.len() as int)[w]
                                == orig.kb_links@[w]);
                            assert(pre.kb_links@[w].kb_id == kb_id && pre.kb_links@[w].did == d);
                        }
                    }
                },
            }
            proof {
                assert forall|d2: i64| in_prefix(doc_ids@, k + 1, d2) implies has_link(
                    store.kb_links@,
                    kb_id,
                    d2,
                ) by {
                    lemma_in_prefix_step(doc_ids@, k as int, d2);
                    if in_prefix(doc_ids@, k as int, d2) {
                        let w = link_witness(pre.kb_links@, kb_id, d2);
                        assert(store.kb_links@[w].kb_id == kb_id && store.kb_links@[w].did == d2);
                    } else {
                        assert(d2 == doc_ids@[k as int]);
                        if pushed {
                            assert(store.kb_links@[pushed_at as int].kb_id == kb_id
                                && store.kb_links@[pushed_at as int].did == d2);
                        } else {
                            let w = link_witness(pre.kb_links@, kb_id, d2);
                            assert(store.kb_links@[w].kb_id == kb_id && store.kb_links@[w].did
                                == d2);
                        }
                    }
                }
            }
            k += 1;
        }
        proof {
            lemma_in_prefix_all(doc_ids@);
        }
        Ok(())
    }

    /// Soft-deletes the link rows for the given documents — all of them,
    /// or only those of one knowledge base — resetting their ingestion
    /// state and stamping `updated_at`.
    pub fn remove_docs(store: &mut Store, doc_ids: &Vec<i64>, kb_id: Option<i64>, now: i64)
        requires
            old(store).wf(),
        ensures
            final(store).wf(),
            same_users(*old(store), *final(store)),
            same_tags(*old(store), *final(store)),
            same_kbs(*old(store), *final(store)),
            same_docs(*old(store), *final(store)),
            same_dialogs(*old(store), *final(store)),
            same_edges(*old(store), *final(store)),
            final(store).next_link_id == old(store).next_link_id,
            final(store).kb_links@.len() == old(store).kb_links@.len(),
            forall|j: int|
                #![trigger final(store).kb_links@[j]]
                0 <= j < old(store).kb_links@.len() ==> if link_hit(
                    old(store).kb_links@[j],
                    doc_ids@,
                    kb_id,
                ) {
                    let l = final(store).kb_links@[j];
                    &&& l.id == old(store).kb_links@[j].id
                    &&& l.kb_id == old(store).kb_links@[j].kb_id
                    &&& l.did == old(store).kb_links@[j].did
                    &&& l.kb_progress == 0
                    &&& l.kb_progress_msg@ == Seq::<char>::empty()
                    &&& l.updated_at == now
                    &&& l.is_deleted == true
                } else {
                    final(store).kb_links@[j] == old(store).kb_links@[j]
                },
    {
        let mut i: usize = 0;
        let ghost orig = *store;
        while i < store.kb_links.len()
            invariant
                store.wf(),
                i <= store.kb_links@.len(),
                same_users(orig, *store),
                same_tags(orig, *store),
                same_kbs(orig, *store),
                same_docs(orig, *store),
                same_dialogs(orig, *store),
                same_edges(orig, *store),
                store.next_link_id == orig.next_link_id,
                store.kb_links@.len() == orig.kb_links@.len(),
                forall|j: int|
                    #![trigger store.kb_links@[j]]
                    0 <= j < i ==> if link_hit(orig.kb_links@[j], doc_ids@, kb_id) {
                        store.kb_links@[j].id == orig.kb_links@[j].id && store.kb_links@[j].kb_id
                            == orig.kb_links@[j].kb_id && store.kb_links@[j].did
                            == orig.kb_links@[j].did && store.kb_links@[j].kb_progress == 0
                            && store.kb_links@[j].kb_progress_msg@ == Seq::<char>::empty()
                            && store.kb_links@[j].updated_at == now && store.kb_links@[j].is_deleted
                            == true
                    } else {
                        store.kb_links@[j] == orig.kb_links@[j]
                    },
                forall|j: int|
                    #![trigger store.kb_links@[j]]
                    i <= j < store.kb_links@.len() ==> store.kb_links@[j] == orig.kb_links@[j],
            decreases store.kb_links@.len() - i,
        {
            let did = store.kb_links[i].did;
            let matches_kb = match kb_id {
                Some(k) => store.kb_links[i].kb_id == k,
                None => true,
            };
            if matches_kb && crate::seqtools::contains_i64(doc_ids, did) {
                let id = store.kb_links[i].id;
                let link_kb = store.kb_links[i].kb_id;
                let upd = store.kb_links[i].updated_at;
                store.kb_links[i] = KbDocLink {
                    id,
                    kb_id: link_kb,
                    did,
                    kb_progress: 0,
                    kb_progress_msg: String::new(),
                    updated_at: now,
                    is_deleted: true,
                };
            }
            i += 1;
        }
    }

    /// Replaces the name and icon of the knowledge-base row with this id,
    /// keeping owner, `created_at` and the deletion flag, and stamping
    /// `updated_at`. Fails with `NotFound` when no row has the id.
    pub fn update_kb_info_by_id(store: &mut Store, id: i64, form: NewKb, now: i64) -> (r: Result<
        KbRecord,
        Error,
    >)
        requires
            old(store).wf(),
        ensures
            final(store).wf(),
            same_users(*old(store), *final(store)),
            same_tags(*old(store), *final(store)),
            same_docs(*old(store), *final(store)),
            same_dialogs(*old(store), *final(store)),
            same_edges(*old(store), *final(store)),
            same_links(*old(store), *final(store)),
            r is Ok <==> has_kb(old(store).kbs@, id),
            match r {
                Ok(k) => {
                    &&& k == (KbRecord {
                        kb_name: form.kb_name,
                        icon: form.icon,
                        updated_at: now,
                        ..old(store).kbs@[kb_idx(old(store).kbs@, id)]
                    })
                    &&& final(store).kbs@ == old(store).kbs@.update(
                        kb_idx(old(store).kbs@, id),
                        k,
                    )
                    &&& final(store).next_kb_id == old(store).next_kb_id
                },
                Err(e) => e == Error::NotFound && *final(store) == *old(store),
            },
    {
        match store.kb_index(id) {
            None => Err(Error::NotFound),
            Some(i) => {
                let mut rec = store.kbs[i].clone();
                rec.kb_name = form.kb_name;
                rec.icon = form.icon;
                rec.updated_at = now;
                let out = rec.clone();
                store.kbs[i] = rec;
                Ok(out)
            },
        }
    }

    /// Soft-deletes the knowledge-base row with this id: the row keeps
    /// its place, its flag is set and `updated_at` is stamped. Fails with
    /// `NotFound` when no row has the id.
    pub fn delete_kb_info(store: &mut Store, kb_id: i64, now: i64) -> (r: Result<(), Error>)
        requires
            old(store).wf(),
        ensures
            final(store).wf(),
            same_users(*old(store), *final(store)),
            same_tags(*old(store), *final(store)),
            same_docs(*old(store), *final(store)),
            same_dialogs(*old(store), *final(store)),
            same_edges(*old(store), *final(store)),
            same_links(*old(store), *final(store)),
            r is Ok <==> has_kb(old(store).kbs@, kb_id),
            match r {
                Ok(()) => final(store).kbs@ == old(store).kbs@.update(
                    kb_idx(old(store).kbs@, kb_id),
                    (KbRecord {
                        is_deleted: true,
                        updated_at: now,
                        ..old(store).kbs@[kb_idx(old(store).kbs@, kb_id)]
                    }),
                ) && final(store).next_kb_id == old(store).next_kb_id,
                Err(e) => e == Error::NotFound && *final(store) == *old(store),
            },
    {
        match store.kb_index(kb_id) {
            None => Err(Error::NotFound),
            Some(i) => {
                let mut rec = store.kbs[i].clone();
                rec.is_deleted = true;
                rec.updated_at = now;
                store.kbs[i] = rec;
                Ok(())
            },
        }
    }

    /// Removes every knowledge-base row.
    pub fn delete_all_kb_infos(store: &mut Store)
        requires
            old(store).wf(),
        ensures
            final(store).wf(),
            final(store).kbs@ =~= Seq::<KbRecord>::empty(),
            final(store).next_kb_id == old(store).next_kb_id,
            same_users(*old(store), *final(store)),
            same_tags(*old(store), *final(store)),
            same_docs(*old(store), *final(store)),
            same_dialogs(*old(store), *final(store)),
            same_edges(*old(store), *final(store)),
            same_links(*old(store), *final(store)),
    {
        store.kbs.clear();
    }
}

/// Some knowledge-base row carries this name.
pub open spec fn kb_name_taken(kbs: Seq<KbRecord>, name: Seq<char>) -> bool {
    exists|i: int| 0 <= i < kbs.len() && #[trigger] kbs[i].kb_name@ == name
}

/// Some link row ties this knowledge base to a document at or below the
/// given roots of the folder forest.
pub open spec fn kb_relevant(
    links: Seq<KbDocLink>,
    edges: Seq<crate::records::DocEdge>,
    roots: Seq<i64>,
) -> spec_fn(KbRecord) -> bool {
    |k: KbRecord|
        exists|j: int|
            #![trigger links[j]]
            0 <= j < links.len() && links[j].kb_id == k.kb_id && crate::doc::reachable(
                edges,
                roots,
                links[j].did,
            )
}

/// Creates a knowledge base, rejecting a name some row already carries —
/// any owner's, deleted or not — with `Duplicate`. Returns the new id.
pub fn create_kb(store: &mut Store, form: NewKb, now: i64) -> (r: Result<i64, Error>)
    requires
        old(store).wf(),
        old(store).next_kb_id < i64::MAX,
    ensures
        final(store).wf(),
        same_users(*old(store), *final(store)),
        same_tags(*old(store), *final(store)),
        same_docs(*old(store), *final(store)),
        same_dialogs(*old(store), *final(store)),
        same_edges(*old(store), *final(store)),
        same_links(*old(store), *final(store)),
        r is Ok <==> !kb_name_taken(old(store).kbs@, form.kb_name@),
        match r {
            Ok(kb_id) => {
                &&& kb_id == old(store).next_kb_id
                &&& final(store).kbs@ == old(store).kbs@.push(
                    (KbRecord {
                        kb_id,
                        uid: form.uid,
                        kb_name: form.kb_name,
                        icon: form.icon,
                        created_at: now,
                        updated_at: now,
                        is_deleted: false,
                    }),
                )
                &&& final(store).next_kb_id == old(store).next_kb_id + 1
            },
            Err(e) => e == Error::Duplicate && *final(store) == *old(store),
        },
{
    let mut i: usize = 0;
    while i < store.kbs.len()
        invariant
            *store == *old(store),
            store.wf(),
            i <= store.kbs@.len(),
            forall|j: int| 0 <= j < i ==> #[trigger] store.kbs@[j].kb_name@ != form.kb_name@,
        decreases store.kbs@.len() - i,
    {
        if str_eq(store.kbs[i].kb_name.as_str(), form.kb_name.as_str()) {
            return Err(Error::Duplicate);
        }
        i += 1;
    }
    Ok(Mutation::create_kb_info(store, form, now))
}

/// The knowledge bases touching a document set or any of its descendants
/// in the folder forest, through any link row.
pub fn all_relevents(store: &Store, doc_ids: &Vec<i64>) -> (r: Vec<KbRecord>)
    ensures
        r@ == store.kbs@.filter(kb_relevant(store.kb_links@, store.doc_edges@, doc_ids@)),
{
    let dids = crate::doc::Query::all_descendent_ids(store, doc_ids);
    let r = Query::find_kb_by_docs(store, &dids);
    proof {
        assert forall|i: int| 0 <= i < store.kbs@.len() implies kb_touching(
            store.kb_links@,
            dids@,
        )(#[trigger] store.kbs@[i]) == kb_relevant(
            store.kb_links@,
            store.doc_edges@,
            doc_ids@,
        )(store.kbs@[i]) by {
            let k = store.kbs@[i];
            if kb_touches(store.kb_links@, dids@, k.kb_id) {
                let j = choose|j: int|
                    #![trigger store.kb_links@[j]]
                    0 <= j < store.kb_links@.len() && store.kb_links@[j].kb_id == k.kb_id
                        && dids@.contains(store.kb_links@[j].did);
                assert(dids@.contains(store.kb_links@[j].did) == crate::doc::reachable(
                    store.doc_edges@,
                    doc_ids@,
                    store.kb_links@[j].did,
                ));
            }
            if kb_relevant(store.kb_links@, store.doc_edges@, doc_ids@)(k) {
                let j = choose|j: int|
                    #![trigger store.kb_links@[j]]
                    0 <= j < store.kb_links@.len() && store.kb_links@[j].kb_id == k.kb_id
                        && crate::doc::reachable(
                        store.doc_edges@,
                        doc_ids@,
                        store.kb_links@[j].did,
                    );
                assert(dids@.contains(store.kb_links@[j].did) == crate::doc::reachable(
                    store.doc_edges@,
                    doc_ids@,
                    store.kb_links@[j].did,
                ));
                assert(kb_touches(store.kb_links@, dids@, k.kb_id));
            }
        }
        crate::seqtools::lemma_filter_congruent(
            store.kbs@,
            kb_touching(store.kb_links@, dids@),
            kb_relevant(store.kb_links@, store.doc_edges@, doc_ids@),
        );
    }
    r
}

/// Whether a link row is selected by `remove_docs`: its document is among
/// the given ids, and it belongs to the given knowledge base if one is
/// given.
pub open spec fn link_hit(link: KbDocLink, doc_ids: Seq<i64>, kb_id: Option<i64>) -> bool {
    doc_ids.contains(link.did) && match kb_id {
        Some(k) => link.kb_id == k,
        None => true,
    }
}

/// The index of a link row for the pair, where one exists.
proof fn link_witness(links: Seq<KbDocLink>, kb_id: i64, did: i64) -> (w: int)
    requires
        has_link(links, kb_id, did),
    ensures
        0 <= w < links.len() && links[w].kb_id == kb_id && links[w].did == did,
{
    choose|i: int|
        0 <= i < links.len() && #[trigger] links[i].kb_id == kb_id && #[trigger] links[i].did
            == did
}

} // verus!
