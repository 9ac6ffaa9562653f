//! Dialog services: named conversation sessions scoped to one knowledge
//! base, with an opaque serialized history blob.

use vstd::prelude::*;

use crate::error::Error;
use crate::records::DialogRecord;
use crate::seqtools::{lemma_filter_take_step, lemma_take_all};
use crate::store::{
    dialog_idx, has_dialog, same_docs, same_edges, same_kbs, same_links, same_tags, same_users,
    Store,
};

verus! {

#[derive(Debug)]
pub struct ListParams {
    pub uid: i64,
    pub dialog_id: Option<i64>,
}

#[derive(Debug)]
pub struct RmParams {
    pub uid: i64,
    pub dialog_id: i64,
}

#[derive(Debug)]
pub struct CreateParams {
    pub uid: i64,
    pub dialog_id: Option<i64>,
    pub kb_id: i64,
    pub name: String,
}

#[derive(Debug)]
pub struct UpdateHistoryParams {
    pub uid: i64,
    pub dialog_id: i64,
    pub history: String,
}

/// The active dialog rows owned by one user.
pub open spec fn dialog_active_of(uid: i64) -> spec_fn(DialogRecord) -> bool {
    |d: DialogRecord| d.uid == uid && !d.is_deleted
}

pub struct Query;

impl Query {
    /// The dialog row with this id, deleted or not.
    pub fn find_dialog_info_by_id(store: &Store, id: i64) -> (r: Option<DialogRecord>)
        requires
            store.wf(),
        ensures
            match r {
                Some(d) => has_dialog(store.dialogs@, id) && d == store.dialogs@[dialog_idx(
                    store.dialogs@,
                    id,
                )],
                None => !has_dialog(store.dialogs@, id),
            },
    {
        match store.dialog_index(id) {
            Some(i) => Some(store.dialogs[i].clone()),
            None => None,
        }
    }

    /// Every dialog row.
    pub fn find_dialog_infos(store: &Store) -> (r: Vec<DialogRecord>)
        ensures
            r@ == store.dialogs@,
    {
        let mut out: Vec<DialogRecord> = Vec::new();
        let mut i: usize = 0;
        while i < store.dialogs.len()
            invariant
                i <= store.dialogs@.len(),
                out@ == store.dialogs@.take(i as int),
            decreases store.dialogs@.len() - i,
        {
            out.push(store.dialogs[i].clone());
            proof {
                assert(out@ =~= store.dialogs@.take(i + 1));
            }
            i += 1;
        }
        proof {
            lemma_take_all(store.dialogs@);
        }
        out
    }

    /// Every active dialog row owned by `uid`.
    pub fn find_dialog_infos_by_uid(store: &Store, uid: i64) -> (r: Vec<DialogRecord>)
        ensures
            r@ == store.dialogs@.filter(dialog_active_of(uid)),
    {
        let mut out: Vec<DialogRecord> = Vec::new();
        let mut i: usize = 0;
        proof {
            assert(out@ =~= store.dialogs@.take(0).filter(dialog_active_of(uid)));
        }
        while i < store.dialogs.len()
            invariant
                i <= store.dialogs@.len(),
                out@ == store.dialogs@.take(i as int).filter(dialog_active_of(uid)),
            decreases store.dialogs@.len() - i,
        {
            proof {
                lemma_filter_take_step(store.dialogs@, dialog_active_of(uid), i as int);
                assert(dialog_active_of(uid)(store.dialogs@[i as int]) == (store.dialogs@[i as int].uid
                    == uid && !store.dialogs@[i as int].is_deleted));
            }
            if store.dialogs[i].uid == uid && !store.dialogs[i].is_deleted {
                out.push(store.dialogs[i].clone());
            }
            i += 1;
        }
        proof {
            lemma_take_all(store.dialogs@);
        }
        out
    }

    /// One page of the dialog table in id order, with the page count:
    /// `page` is 1-based, and a page past the end is empty.
    pub fn find_dialog_infos_in_page(store: &Store, page: u64, posts_per_page: u64) -> (r: (
        Vec<DialogRecord>,
        u64,
    ))
        requires
            1 <= page,
            1 <= posts_per_page,
        ensures
            ({
                let n = store.dialogs@.len() as int;
                let start = (page - 1) as int * posts_per_page as int;
                let lo = if start <= n {
                    start
                } else {
                    n
                };
                let hi = if start + posts_per_page as int <= n {
                    start + posts_per_page as int
                } else {
                    n
                };
                &&& r.0@ == store.dialogs@.subrange(lo, hi)
                &&& r.1 as int == n / posts_per_page as int + (if n % posts_per_page as int != 0 {
                    1int
                } else {
                    0int
                })
            }),
    {
        let (lo, hi, num_pages) = crate::paging::page_bounds(
            store.dialogs.len(),
            page,
            posts_per_page,
        );
        let mut out: Vec<DialogRecord> = Vec::new();
        let mut t: usize = lo;
        while t < hi
            invariant
                lo <= t <= hi <= store.dialogs@.len(),
                out@ == store.dialogs@.subrange(lo as int, t as int),
            decreases hi - t,
        {
            out.push(store.dialogs[t].clone());
            proof {
                assert(out@ =~= store.dialogs@.subrange(lo as int, t + 1));
            }
            t += 1;
        }
        proof {
            assert(out@ =~= store.dialogs@.subrange(lo as int, hi as int));
        }
        (out, num_pages)
    }
}

pub struct Mutation;

impl Mutation {
    /// Inserts a new dialog row with a fresh id, an empty history, and
    /// the given timestamp as `created_at` and `updated_at`. Returns the
    /// new id.
    pub fn create_dialog_info(store: &mut Store, uid: i64, kb_id: i64, name: String, now: i64) -> (dialog_id: i64)
        requires
            old(store).wf(),
            old(store).next_dialog_id < i64::MAX,
        ensures
            final(store).wf(),
            dialog_id == old(store).next_dialog_id,
            final(store).dialogs@.len() == old(store).dialogs@.len() + 1,
            final(store).dialogs@.subrange(0, old(store).dialogs@.len() as int) == old(
                store,
            ).dialogs@,
            ({
                let d = final(store).dialogs@.last();
                &&& d.dialog_id == dialog_id
                &&& d.uid == uid
                &&& d.kb_id == kb_id
                &&& d.dialog_name == name
                &&& d.history@ == Seq::<char>::empty()
                &&& d.created_at == now
                &&& d.updated_at == now
                &&& !d.is_deleted
            }),
            final(store).next_dialog_id == old(store).next_dialog_id + 1,
            same_users(*old(store), *final(store)),
            same_tags(*old(store), *final(store)),
            same_kbs(*old(store), *final(store)),
            same_docs(*old(store), *final(store)),
            same_edges(*old(store), *final(store)),
            same_links(*old(store), *final(store)),
    {
        let dialog_id = store.next_dialog_id;
        store.dialogs.push(
            DialogRecord {
                dialog_id,
                uid,
                kb_id,
                dialog_name: name,
                history: String::new(),
                created_at: now,
                updated_at: now,
                is_deleted: false,
            },
        );
        store.next_dialog_id = dialog_id + 1;
        proof {
            assert(store.dialogs@.subrange(0, old(store).dialogs@.len() as int) =~= old(
                store,
            ).dialogs@);
        }
        dialog_id
    }

    /// Sets the name and history of every dialog row with this id (at
    /// most one, by the id invariant), stamping `updated_at`; a missing
    /// id changes nothing.
    pub fn update_dialog_info_by_id(
        store: &mut Store,
        dialog_id: i64,
        dialog_name: &String,
        history: &String,
        now: i64,
    )
        requires
            old(store).wf(),
        ensures
            final(store).wf(),
            same_users(*old(store), *final(store)),
            same_tags(*old(store), *final(store)),
            same_kbs(*old(store), *final(store)),
            same_docs(*old(store), *final(store)),
            same_edges(*old(store), *final(store)),
            same_links(*old(store), *final(store)),
            final(store).next_dialog_id == old(store).next_dialog_id,
            final(store).dialogs@.len() == old(store).dialogs@.len(),
            forall|j: int|
                #![trigger final(store).dialogs@[j]]
                0 <= j < old(store).dialogs@.len() ==> final(store).dialogs@[j] == (
                if old(store).dialogs@[j].dialog_id == dialog_id {
                    (DialogRecord {
                        dialog_name: *dialog_name,
                        history: *history,
                        updated_at: now,
                        ..old(store).dialogs@[j]
                    })
                } else {
                    old(store).dialogs@[j]
                }),
    {
        let ghost orig = *store;
        let mut i: usize = 0;
        while i < store.dialogs.len()
            invariant
                store.wf(),
                i <= store.dialogs@.len(),
                same_users(orig, *store),
                same_tags(orig, *store),
                same_kbs(orig, *store),
                same_docs(orig, *store),
                same_edges(orig, *store),
                same_links(orig, *store),
                store.next_dialog_id == orig.next_dialog_id,
                store.dialogs@.len() == orig.dialogs@.len(),
                forall|j: int|
                    #![trigger store.dialogs@[j]]
                    0 <= j < i ==> store.dialogs@[j] == (
                    if orig.dialogs@[j].dialog_id == dialog_id {
                        (DialogRecord {
                            dialog_name: *dialog_name,
                            history: *history,
                            updated_at: now,
                            ..orig.dialogs@[j]
                        })
                    } else {
                        orig.dialogs@[j]
                    }),
                forall|j: int|
                    #![trigger store.dialogs@[j]]
                    i <= j < store.dialogs@.len() ==> store.dialogs@[j] == orig.dialogs@[j],
            decreases store.dialogs@.len() - i,
        {
            if store.dialogs[i].dialog_id == dialog_id {
                let mut rec = store.dialogs[i].clone();
                rec.dialog_name = dialog_name.clone();
                rec.history = history.clone();
                rec.updated_at = now;
                store.dialogs[i] = rec;
            }
            i += 1;
        }
    }

    /// Soft-deletes every dialog row with this id (at most one, by the id
    /// invariant); a missing id changes nothing.
    pub fn delete_dialog_info(store: &mut Store, dialog_id: i64)
        requires
            old(store).wf(),
        ensures
            final(store).wf(),
            same_users(*old(store), *final(store)),
            same_tags(*old(store), *final(store)),
            same_kbs(*old(store), *final(store)),
            same_docs(*old(store), *final(store)),
            same_edges(*old(store), *final(store)),
            same_links(*old(store), *final(store)),
            final(store).next_dialog_id == old(store).next_dialog_id,
            final(store).dialogs@.len() == old(store).dialogs@.len(),
            forall|j: int|
                #![trigger final(store).dialogs@[j]]
                0 <= j < old(store).dialogs@.len() ==> final(store).dialogs@[j] == (
                if old(store).dialogs@[j].dialog_id == dialog_id {
                    (DialogRecord { is_deleted: true, ..old(store).dialogs@[j] })
                } else {
                    old(store).dialogs@[j]
                }),
    {
        let ghost orig = *store;
        let mut i: usize = 0;
        while i < store.dialogs.len()
            invariant
                store.wf(),
                i <= store.dialogs@.len(),
                same_users(orig, *store),
                same_tags(orig, *store),
                same_kbs(orig, *store),
                same_docs(orig, *store),
                same_edges(orig, *store),
                same_links(orig, *store),
                store.next_dialog_id == orig.next_dialog_id,
                store.dialogs@.len() == orig.dialogs@.len(),
                forall|j: int|
                    #![trigger store.dialogs@[j]]
                    0 <= j < i ==> store.dialogs@[j] == (
                    if orig.dialogs@[j].dialog_id == dialog_id {
                        (DialogRecord { is_deleted: true, ..orig.dialogs@[j] })
                    } else {
                        orig.dialogs@[j]
                    }),
                forall|j: int|
                    #![trigger store.dialogs@[j]]
                    i <= j < store.dialogs@.len() ==> store.dialogs@[j] == orig.dialogs@[j],
            decreases store.dialogs@.len() - i,
        {
            if store.dialogs[i].dialog_id == dialog_id {
                let mut rec = store.dialogs[i].clone();
                rec.is_deleted = true;
                store.dialogs[i] = rec;
            }
            i += 1;
        }
    }

    /// Removes every dialog row.
    pub fn delete_all_dialog_infos(store: &mut Store)
        requires
            old(store).wf(),
        ensures
            final(store).wf(),
            final(store).dialogs@ =~= Seq::<DialogRecord>::empty(),
            final(store).next_dialog_id == old(store).next_dialog_id,
            same_users(*old(store), *final(store)),
            same_tags(*old(store), *final(store)),
            same_kbs(*old(store), *final(store)),
            same_docs(*old(store), *final(store)),
            same_edges(*old(store), *final(store)),
            same_links(*old(store), *final(store)),
    {
        store.dialogs.clear();
    }
}

/// Creates a dialog, or renames an existing one: with a `dialog_id` the
/// row is looked up — `NotFound` if it is missing — and its name is
/// replaced while its history is kept; without one a fresh dialog is
/// created for the knowledge base. Returns the dialog id either way.
pub fn create(store: &mut Store, params: CreateParams, now: i64) -> (r: Result<i64, Error>)
    requires
        old(store).wf(),
        old(store).next_dialog_id < i64::MAX,
    ensures
        final(store).wf(),
        same_users(*old(store), *final(store)),
        same_tags(*old(store), *final(store)),
        same_kbs(*old(store), *final(store)),
        same_docs(*old(store), *final(store)),
        same_edges(*old(store), *final(store)),
        same_links(*old(store), *final(store)),
        r is Ok <==> (params.dialog_id matches Some(id) ==> has_dialog(old(store).dialogs@, id)),
        match r {
            Ok(out_id) => match params.dialog_id {
                Some(id) => {
                    &&& out_id == id
                    &&& final(store).dialogs@.len() == old(store).dialogs@.len()
                    &&& forall|j: int|
                        #![trigger final(store).dialogs@[j]]
                        0 <= j < old(store).dialogs@.len() ==> final(store).dialogs@[j] == (
                        if old(store).dialogs@[j].dialog_id == id {
                            (DialogRecord {
                                dialog_name: params.name,
                                updated_at: now,
                                ..old(store).dialogs@[j]
                            })
                        } else {
                            old(store).dialogs@[j]
                        })
                },
                None => {
                    &&& out_id == old(store).next_dialog_id
                    &&& final(store).dialogs@.len() == old(store).dialogs@.len() + 1
                    &&& final(store).dialogs@.subrange(0, old(store).dialogs@.len() as int) == old(
                        store,
                    ).dialogs@
                    &&& ({
                        let d = final(store).dialogs@.last();
                        &&& d.dialog_id == out_id
                        &&& d.uid == params.uid
                        &&& d.kb_id == params.kb_id
                        &&& d.dialog_name == params.name
                        &&& d.history@ == Seq::<char>::empty()
                        &&& d.created_at == now
                        &&& d.updated_at == now
                        &&& !d.is_deleted
                    })
                },
            },
            Err(e) => e == Error::NotFound && *final(store) == *old(store),
        },
{
    match params.dialog_id {
        Some(id) => {
            let dia = match Query::find_dialog_info_by_id(store, id) {
                Some(dia) => dia,
                None => {
                    return Err(Error::NotFound);
                },
            };
            Mutation::update_dialog_info_by_id(store, id, &params.name, &dia.history, now);
            proof {
                assert forall|j: int|
                    #![trigger store.dialogs@[j]]
                    0 <= j < old(store).dialogs@.len() implies store.dialogs@[j] == (
                if old(store).dialogs@[j].dialog_id == id {
                    (DialogRecord {
                        dialog_name: params.name,
                        updated_at: now,
                        ..old(store).dialogs@[j]
                    })
                } else {
                    old(store).dialogs@[j]
                }) by {
                    if old(store).dialogs@[j].dialog_id == id {
                        assert(j == dialog_idx(old(store).dialogs@, id));
                    }
                }
            }
            Ok(id)
        },
        None => {
            let id = Mutation::create_dialog_info(store, params.uid, params.kb_id, params.name, now);
            Ok(id)
        },
    }
}

/// Replaces the history of the dialog with this id, keeping its name;
/// fails with `NotFound` when the dialog is missing.
pub fn update_history(store: &mut Store, dialog_id: i64, history: &String, now: i64) -> (r: Result<
    (),
    Error,
>)
    requires
        old(store).wf(),
    ensures
        final(store).wf(),
        same_users(*old(store), *final(store)),
        same_tags(*old(store), *final(store)),
        same_kbs(*old(store), *final(store)),
        same_docs(*old(store), *final(store)),
        same_edges(*old(store), *final(store)),
        same_links(*old(store), *final(store)),
        r is Ok <==> has_dialog(old(store).dialogs@, dialog_id),
        match r {
            Ok(()) => {
                &&& final(store).dialogs@.len() == old(store).dialogs@.len()
                &&& forall|j: int|
                    #![trigger final(store).dialogs@[j]]
                    0 <= j < old(store).dialogs@.len() ==> final(store).dialogs@[j] == (
                    if old(store).dialogs@[j].dialog_id == dialog_id {
                        (DialogRecord {
                            history: *history,
                            updated_at: now,
                            ..old(store).dialogs@[j]
                        })
                    } else {
                        old(store).dialogs@[j]
                    })
            },
            Err(e) => e == Error::NotFound && *final(store) == *old(store),
        },
{
    let dia = match Query::find_dialog_info_by_id(store, dialog_id) {
        Some(dia) => dia,
        None => {
            return Err(Error::NotFound);
        },
    };
    Mutation::update_dialog_info_by_id(store, dialog_id, &dia.dialog_name, history, now);
    proof {
        assert forall|j: int|
            #![trigger store.dialogs@[j]]
            0 <= j < old(store).dialogs@.len() implies store.dialogs@[j] == (
        if old(store).dialogs@[j].dialog_id == dialog_id {
            (DialogRecord { history: *history, updated_at: now, ..old(store).dialogs@[j] })
        } else {
            old(store).dialogs@[j]
        }) by {
            if old(store).dialogs@[j].dialog_id == dialog_id {
                assert(j == dialog_idx(old(store).dialogs@, dialog_id));
            }
        }
    }
    Ok(())
}

} // verus!
