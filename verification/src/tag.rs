//! Tag services: user-defined classifiers combining an optional pattern
//! and an optional folder scope.

use vstd::prelude::*;

use crate::error::Error;
use crate::records::{NewTag, TagRecord};
use crate::seqtools::{lemma_filter_take_step, lemma_take_all};
use crate::store::{
    has_tag, same_dialogs, same_docs, same_edges, same_kbs, same_links, same_users, tag_idx,
    tag_of, Store,
};

verus! {

#[derive(Debug)]
pub struct TagListParams {
    pub uid: i64,
}

/// The tag rows owned by one user.
pub open spec fn tag_owned_by(uid: i64) -> spec_fn(TagRecord) -> bool {
    |t: TagRecord| t.uid == uid
}

pub struct Query;

impl Query {
    /// The tag row with this id.
    pub fn find_tag_info_by_id(id: i64, store: &Store) -> (r: Option<TagRecord>)
        requires
            store.wf(),
        ensures
            match r {
                Some(t) => has_tag(store.tags@, id) && t == tag_of(store.tags@, id),
                None => !has_tag(store.tags@, id),
            },
    {
        match store.tag_index(id) {
            Some(i) => Some(store.tags[i].clone()),
            None => None,
        }
    }

    /// Every tag row owned by `uid`.
    pub fn find_tags_by_uid(uid: i64, store: &Store) -> (r: Vec<TagRecord>)
        ensures
            r@ == store.tags@.filter(tag_owned_by(uid)),
    {
        let mut out: Vec<TagRecord> = Vec::new();
        let mut i: usize = 0;
        proof {
            assert(out@ =~= store.tags@.take(0).filter(tag_owned_by(uid)));
        }
        while i < store.tags.len()
            invariant
                i <= store.tags@.len(),
                out@ == store.tags@.take(i as int).filter(tag_owned_by(uid)),
            decreases store.tags@.len() - i,
        {
            proof {
                lemma_filter_take_step(store.tags@, tag_owned_by(uid), i as int);
                assert(tag_owned_by(uid)(store.tags@[i as int]) == (store.tags@[i as int].uid
                    == uid));
            }
            if store.tags[i].uid == uid {
                out.push(store.tags[i].clone());
            }
            i += 1;
        }
        proof {
            lemma_take_all(store.tags@);
        }
        out
    }

    /// One page of the tag table in id order, with the page count:
    /// `page` is 1-based, and a page past the end is empty.
    pub fn find_tag_infos_in_page(store: &Store, page: u64, posts_per_page: u64) -> (r: (
        Vec<TagRecord>,
        u64,
    ))
        requires
            1 <= page,
            1 <= posts_per_page,
        ensures
            ({
                let n = store.tags@.len() as int;
                let start = (page - 1) as int * posts_per_page as int;
                let lo = if start <= n {
                    start
                } else {
                    n
                };
                let hi = if start + posts_per_page as int <= n {
                    start + posts_per_page as int
                } else {
                    n
                };
                &&& r.0@ == store.tags@.subrange(lo, hi)
                &&& r.1 as int == n / posts_per_page as int + (if n % posts_per_page as int != 0 {
                    1int
                } else {
                    0int
                })
            }),
    {
        let (lo, hi, num_pages) = crate::paging::page_bounds(store.tags.len(), page, posts_per_page);
        let mut out: Vec<TagRecord> = Vec::new();
        let mut t: usize = lo;
        while t < hi
            invariant
                lo <= t <= hi <= store.tags@.len(),
                out@ == store.tags@.subrange(lo as int, t as int),
            decreases hi - t,
        {
            out.push(store.tags[t].clone());
            proof {
                assert(out@ =~= store.tags@.subrange(lo as int, t + 1));
            }
            t += 1;
        }
        proof {
            assert(out@ =~= store.tags@.subrange(lo as int, hi as int));
        }
        (out, num_pages)
    }
}

pub struct Mutation;

impl Mutation {
    /// Inserts a new tag row with a fresh id; the given timestamp becomes
    /// both `created_at` and `updated_at`. A `folder_id` of zero means
    /// the tag is unscoped. Returns the new id.
    pub fn create_tag(store: &mut Store, form: NewTag, now: i64) -> (tid: i64)
        requires
            old(store).wf(),
            old(store).next_tid < i64::MAX,
        ensures
            final(store).wf(),
            tid == old(store).next_tid,
            final(store).tags@ == old(store).tags@.push(
                (TagRecord {
                    tid,
                    uid: form.uid,
                    tag_name: form.tag_name,
                    regx: form.regx,
                    color: form.color,
                    icon: form.icon,
                    folder_id: form.folder_id,
                    created_at: now,
                    updated_at: now,
                }),
            ),
            final(store).next_tid == old(store).next_tid + 1,
            same_users(*old(store), *final(store)),
            same_kbs(*old(store), *final(store)),
            same_docs(*old(store), *final(store)),
            same_dialogs(*old(store), *final(store)),
            same_edges(*old(store), *final(store)),
            same_links(*old(store), *final(store)),
    {
        let tid = store.next_tid;
        store.tags.push(
            TagRecord {
                tid,
                uid: form.uid,
                tag_name: form.tag_name,
                regx: form.regx,
                color: form.color,
                icon: form.icon,
                folder_id: form.folder_id,
                created_at: now,
                updated_at: now,
            },
        );
        store.next_tid = tid + 1;
        tid
    }

    /// Replaces the caller-supplied fields of the tag row with this id,
    /// keeping owner and `created_at` and stamping `updated_at`. Fails
    /// with `NotFound` when no row has the id.
    pub fn update_tag_by_id(store: &mut Store, id: i64, form: NewTag, now: i64) -> (r: Result<
        TagRecord,
        Error,
    >)
        requires
            old(store).wf(),
        ensures
            final(store).wf(),
            same_users(*old(store), *final(store)),
            same_kbs(*old(store), *final(store)),
            same_docs(*old(store), *final(store)),
            same_dialogs(*old(store), *final(store)),
            same_edges(*old(store), *final(store)),
            same_links(*old(store), *final(store)),
            r is Ok <==> has_tag(old(store).tags@, id),
            match r {
                Ok(t) => {
                    &&& t == (TagRecord {
                        tag_name: form.tag_name,
                        regx: form.regx,
                        color: form.color,
                        icon: form.icon,
                        folder_id: form.folder_id,
                        updated_at: now,
                        ..tag_of(old(store).tags@, id)
                    })
                    &&& final(store).tags@ == old(store).tags@.update(
                        tag_idx(old(store).tags@, id),
                        t,
                    )
                    &&& final(store).next_tid == old(store).next_tid
                },
                Err(e) => e == Error::NotFound && *final(store) == *old(store),
            },
    {
        match store.tag_index(id) {
            None => Err(Error::NotFound),
            Some(i) => {
                let mut rec = store.tags[i].clone();
                rec.tag_name = form.tag_name;
                rec.regx = form.regx;
                rec.color = form.color;
                rec.icon = form.icon;
                rec.folder_id = form.folder_id;
                rec.updated_at = now;
                let out = rec.clone();
                store.tags[i] = rec;
                Ok(out)
            },
        }
    }

    /// Removes the tag row with this id. Fails with `NotFound` when no
    /// row has the id.
    pub fn delete_tag(store: &mut Store, tid: i64) -> (r: Result<(), Error>)
        requires
            old(store).wf(),
        ensures
            final(store).wf(),
            same_users(*old(store), *final(store)),
            same_kbs(*old(store), *final(store)),
            same_docs(*old(store), *final(store)),
            same_dialogs(*old(store), *final(store)),
            same_edges(*old(store), *final(store)),
            same_links(*old(store), *final(store)),
            r is Ok <==> has_tag(old(store).tags@, tid),
            match r {
                Ok(()) => final(store).tags@ == old(store).tags@.remove(
                    tag_idx(old(store).tags@, tid),
                ) && final(store).next_tid == old(store).next_tid,
                Err(e) => e == Error::NotFound && *final(store) == *old(store),
            },
    {
        match store.tag_index(tid) {
            None => Err(Error::NotFound),
            Some(i) => {
                store.tags.remove(i);
                Ok(())
            },
        }
    }

    /// Removes every tag row.
    pub fn delete_all_tags(store: &mut Store)
        requires
            old(store).wf(),
        ensures
            final(store).wf(),
            final(store).tags@ =~= Seq::<TagRecord>::empty(),
            final(store).next_tid == old(store).next_tid,
            same_users(*old(store), *final(store)),
            same_kbs(*old(store), *final(store)),
            same_docs(*old(store), *final(store)),
            same_dialogs(*old(store), *final(store)),
            same_edges(*old(store), *final(store)),
            same_links(*old(store), *final(store)),
    {
        store.tags.clear();
    }
}

} // verus!
