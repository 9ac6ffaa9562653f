//! User services: login by credential equality, profile updates, and
//! registration, which seeds a root folder and four stock tags.

use vstd::prelude::*;

use crate::error::Error;
use crate::records::{DocKind, NewDoc, NewTag, NewUser, UserRecord};
use crate::seqtools::lemma_take_all;
use crate::store::{
    has_user, same_dialogs, same_docs, same_edges, same_kbs, same_links, same_tags, user_idx, Store,
};
use crate::strutil::str_eq;

verus! {

/// Some user row carries this email.
pub open spec fn email_taken(users: Seq<UserRecord>, email: Seq<char>) -> bool {
    exists|i: int| 0 <= i < users.len() && #[trigger] users[i].email@ == email
}

/// A user row matches the credential pair.
pub open spec fn credentials_match(u: UserRecord, email: Seq<char>, password: Seq<char>) -> bool {
    u.email@ == email && u.password@ == password
}

pub struct Query;

impl Query {
    /// The user row with this id.
    pub fn find_user_info_by_id(store: &Store, id: i64) -> (r: Option<UserRecord>)
        requires
            store.wf(),
        ensures
            match r {
                Some(u) => has_user(store.users@, id) && u == store.users@[user_idx(
                    store.users@,
                    id,
                )],
                None => !has_user(store.users@, id),
            },
    {
        match store.user_index(id) {
            Some(i) => Some(store.users[i].clone()),
            None => None,
        }
    }

    /// The first user row whose email and password both equal the given
    /// credentials, if any: login is a plain equality lookup.
    pub fn login(store: &Store, email: &str, password: &str) -> (r: Option<UserRecord>)
        ensures
            match r {
                Some(u) => exists|i: int|
                    #![trigger store.users@[i]]
                    0 <= i < store.users@.len() && store.users@[i] == u && credentials_match(
                        u,
                        email@,
                        password@,
                    ) && forall|j: int|
                        0 <= j < i ==> !credentials_match(store.users@[j], email@, password@),
                None => forall|i: int|
                    0 <= i < store.users@.len() ==> !credentials_match(
                        #[trigger] store.users@[i],
                        email@,
                        password@,
                    ),
            },
    {
        let mut i: usize = 0;
        while i < store.users.len()
            invariant
                i <= store.users@.len(),
                forall|j: int|
                    0 <= j < i ==> !credentials_match(#[trigger] store.users@[j], email@, password@),
            decreases store.users@.len() - i,
        {
            if str_eq(store.users[i].email.as_str(), email) && str_eq(
                store.users[i].password.as_str(),
                password,
            ) {
                return Some(store.users[i].clone());
            }
            i += 1;
        }
        None
    }

    /// Every user row.
    pub fn find_user_infos(store: &Store) -> (r: Vec<UserRecord>)
        ensures
            r@ == store.users@,
    {
        let mut out: Vec<UserRecord> = Vec::new();
        let mut i: usize = 0;
        while i < store.users.len()
            invariant
                i <= store.users@.len(),
                out@ == store.users@.take(i as int),
            decreases store.users@.len() - i,
        {
            out.push(store.users[i].clone());
            proof {
                assert(out@ =~= store.users@.take(i + 1));
            }
            i += 1;
        }
        proof {
            lemma_take_all(store.users@);
        }
        out
    }


    /// One page of the user table in id order, with the page count:
    /// `page` is 1-based, and a page past the end is empty.
    pub fn find_user_infos_in_page(store: &Store, page: u64, posts_per_page: u64) -> (r: (
        Vec<UserRecord>,
        u64,
    ))
        requires
            1 <= page,
            1 <= posts_per_page,
        ensures
            ({
                let n = store.users@.len() as int;
                let start = (page - 1) as int * posts_per_page as int;
                let lo = if start <= n {
                    start
                } else {
                    n
                };
                let hi = if start + posts_per_page as int <= n {
                    start + posts_per_page as int
                } else {
                    n
                };
                &&& r.0@ == store.users@.subrange(lo, hi)
                &&& r.1 as int == n / posts_per_page as int + (if n % posts_per_page as int != 0 {
                    1int
                } else {
                    0int
                })
            }),
    {
        let (lo, hi, num_pages) = crate::paging::page_bounds(
            store.users.len(),
            page,
            posts_per_page,
        );
        let mut out: Vec<UserRecord> = Vec::new();
        let mut t: usize = lo;
        while t < hi
            invariant
                lo <= t <= hi <= store.users@.len(),
                out@ == store.users@.subrange(lo as int, t as int),
            decreases hi - t,
        {
            out.push(store.users[t].clone());
            proof {
                assert(out@ =~= store.users@.subrange(lo as int, t + 1));
            }
            t += 1;
        }
        proof {
            assert(out@ =~= store.users@.subrange(lo as int, hi as int));
        }
        (out, num_pages)
    }

    /// Whether some user row carries this email.
    pub fn email_exists(store: &Store, email: &String) -> (r: bool)
        ensures
            r == email_taken(store.users@, email@),
    {
        let mut i: usize = 0;
        while i < store.users.len()
            invariant
                i <= store.users@.len(),
                forall|j: int| 0 <= j < i ==> #[trigger] store.users@[j].email@ != email@,
            decreases store.users@.len() - i,
        {
            if str_eq(store.users[i].email.as_str(), email.as_str()) {
                return true;
            }
            i += 1;
        }
        false
    }
}

pub struct Mutation;

impl Mutation {
    /// Inserts a new user row with a fresh id; the given timestamp
    /// becomes `last_login_at`, `created_at` and `updated_at`. Returns
    /// the new id.
    pub fn create_user(store: &mut Store, form: NewUser, now: i64) -> (uid: i64)
        requires
            old(store).wf(),
            old(store).next_uid < i64::MAX,
        ensures
            final(store).wf(),
            uid == old(store).next_uid,
            final(store).users@ == old(store).users@.push(
                (UserRecord {
                    uid,
                    email: form.email,
                    nickname: form.nickname,
                    avatar_base64: form.avatar_base64,
                    color_scheme: form.color_scheme,
                    list_style: form.list_style,
                    language: form.language,
                    password: form.password,
                    last_login_at: now,
                    created_at: now,
                    updated_at: now,
                }),
            ),
            final(store).next_uid == old(store).next_uid + 1,
            same_tags(*old(store), *final(store)),
            same_kbs(*old(store), *final(store)),
            same_docs(*old(store), *final(store)),
            same_dialogs(*old(store), *final(store)),
            same_edges(*old(store), *final(store)),
            same_links(*old(store), *final(store)),
    {
        let uid = store.next_uid;
        store.users.push(
            UserRecord {
                uid,
                email: form.email,
                nickname: form.nickname,
                avatar_base64: form.avatar_base64,
                color_scheme: form.color_scheme,
                list_style: form.list_style,
                language: form.language,
                password: form.password,
                last_login_at: now,
                created_at: now,
                updated_at: now,
            },
        );
        store.next_uid = uid + 1;
        uid
    }

    /// Replaces the caller-supplied fields of the user row with this id,
    /// keeping `last_login_at` and `created_at` and stamping
    /// `updated_at`. Fails with `NotFound` when no row has the id.
    pub fn update_user_by_id(store: &mut Store, uid: i64, form: NewUser, now: i64) -> (r: Result<
        UserRecord,
        Error,
    >)
        requires
            old(store).wf(),
        ensures
            final(store).wf(),
            same_tags(*old(store), *final(store)),
            same_kbs(*old(store), *final(store)),
            same_docs(*old(store), *final(store)),
            same_dialogs(*old(store), *final(store)),
            same_edges(*old(store), *final(store)),
            same_links(*old(store), *final(store)),
            r is Ok <==> has_user(old(store).users@, uid),
            match r {
                Ok(u) => {
                    &&& u == (UserRecord {
                        email: form.email,
                        nickname: form.nickname,
                        avatar_base64: form.avatar_base64,
                        color_scheme: form.color_scheme,
                        list_style: form.list_style,
                        language: form.language,
                        password: form.password,
                        updated_at: now,
                        ..old(store).users@[user_idx(old(store).users@, uid)]
                    })
                    &&& final(store).users@ == old(store).users@.update(
                        user_idx(old(store).users@, uid),
                        u,
                    )
                    &&& final(store).next_uid == old(store).next_uid
                },
                Err(e) => e == Error::NotFound && *final(store) == *old(store),
            },
    {
        match store.user_index(uid) {
            None => Err(Error::NotFound),
            Some(i) => {
                let mut rec = store.users[i].clone();
                rec.email = form.email;
                rec.nickname = form.nickname;
                rec.avatar_base64 = form.avatar_base64;
                rec.color_scheme = form.color_scheme;
                rec.list_style = form.list_style;
                rec.language = form.language;
                rec.password = form.password;
                rec.updated_at = now;
                let out = rec.clone();
                store.users[i] = rec;
                Ok(out)
            },
        }
    }

    /// Stamps `last_login_at` on every user row with this id (at most
    /// one, by the id invariant); a missing id changes nothing.
    pub fn update_login_status(uid: i64, store: &mut Store, now: i64)
        requires
            old(store).wf(),
        ensures
            final(store).wf(),
            same_tags(*old(store), *final(store)),
            same_kbs(*old(store), *final(store)),
            same_docs(*old(store), *final(store)),
            same_dialogs(*old(store), *final(store)),
            same_edges(*old(store), *final(store)),
            same_links(*old(store), *final(store)),
            final(store).next_uid == old(store).next_uid,
            final(store).users@.len() == old(store).users@.len(),
            forall|j: int|
                #![trigger final(store).users@[j]]
                0 <= j < old(store).users@.len() ==> final(store).users@[j] == (
                if old(store).users@[j].uid == uid {
                    (UserRecord { last_login_at: now, ..old(store).users@[j] })
                } else {
                    old(store).users@[j]
                }),
    {
        let ghost orig = *store;
        let mut i: usize = 0;
        while i < store.users.len()
            invariant
                store.wf(),
                i <= store.users@.len(),
                same_tags(orig, *store),
                same_kbs(orig, *store),
                same_docs(orig, *store),
                same_dialogs(orig, *store),
                same_edges(orig, *store),
                same_links(orig, *store),
                store.next_uid == orig.next_uid,
                store.users@.len() == orig.users@.len(),
                forall|j: int|
                    #![trigger store.users@[j]]
                    0 <= j < i ==> store.users@[j] == (if orig.users@[j].uid == uid {
                        (UserRecord { last_login_at: now, ..orig.users@[j] })
                    } else {
                        orig.users@[j]
                    }),
                forall|j: int|
                    #![trigger store.users@[j]]
                    i <= j < store.users@.len() ==> store.users@[j] == orig.users@[j],
            decreases store.users@.len() - i,
        {
            if store.users[i].uid == uid {
                let mut rec = store.users[i].clone();
                rec.last_login_at = now;
                store.users[i] = rec;
            }
            i += 1;
        }
    }

    /// Removes the user row with this id. Fails with `NotFound` when no
    /// row has the id.
    pub fn delete_user(store: &mut Store, tid: i64) -> (r: Result<(), Error>)
        requires
            old(store).wf(),
        ensures
            final(store).wf(),
            same_tags(*old(store), *final(store)),
            same_kbs(*old(store), *final(store)),
            same_docs(*old(store), *final(store)),
            same_dialogs(*old(store), *final(store)),
            same_edges(*old(store), *final(store)),
            same_links(*old(store), *final(store)),
            r is Ok <==> has_user(old(store).users@, tid),
            match r {
                Ok(()) => final(store).users@ == old(store).users@.remove(
                    user_idx(old(store).users@, tid),
                ) && final(store).next_uid == old(store).next_uid,
                Err(e) => e == Error::NotFound && *final(store) == *old(store),
            },
    {
        match store.user_index(tid) {
            None => Err(Error::NotFound),
            Some(i) => {
                store.users.remove(i);
                Ok(())
            },
        }
    }

    /// Removes every user row.
    pub fn delete_all(store: &mut Store)
        requires
            old(store).wf(),
        ensures
            final(store).wf(),
            final(store).users@ =~= Seq::<UserRecord>::empty(),
            final(store).next_uid == old(store).next_uid,
            same_tags(*old(store), *final(store)),
            same_kbs(*old(store), *final(store)),
            same_docs(*old(store), *final(store)),
            same_dialogs(*old(store), *final(store)),
            same_edges(*old(store), *final(store)),
            same_links(*old(store), *final(store)),
    {
        store.users.clear();
    }
}

/// Registers a new user: rejects a taken email with `Duplicate`, and
/// otherwise inserts the user row, one root folder document named `/`,
/// and four stock tags — video, image, music and document media groups,
/// each with its pattern, unscoped, colored and iconed one through four.
pub fn register(store: &mut Store, form: NewUser, now: i64) -> (r: Result<i64, Error>)
    requires
        old(store).wf(),
        old(store).next_uid < i64::MAX,
        old(store).next_did < i64::MAX,
        old(store).next_tid + 4 <= i64::MAX,
    ensures
        final(store).wf(),
        same_kbs(*old(store), *final(store)),
        same_dialogs(*old(store), *final(store)),
        same_edges(*old(store), *final(store)),
        same_links(*old(store), *final(store)),
        r is Ok <==> !email_taken(old(store).users@, form.email@),
        match r {
            Ok(uid) => {
                &&& uid == old(store).next_uid
                &&& final(store).users@ == old(store).users@.push(
                    (UserRecord {
                        uid,
                        email: form.email,
                        nickname: form.nickname,
                        avatar_base64: form.avatar_base64,
                        color_scheme: form.color_scheme,
                        list_style: form.list_style,
                        language: form.language,
                        password: form.password,
                        last_login_at: now,
                        created_at: now,
                        updated_at: now,
                    }),
                )
                &&& final(store).docs@.len() == old(store).docs@.len() + 1
                &&& final(store).docs@.subrange(0, old(store).docs@.len() as int) == old(
                    store,
                ).docs@
                &&& ({
                    let root = final(store).docs@.last();
                    &&& root.did == old(store).next_did
                    &&& root.uid == uid
                    &&& root.doc_name@ == "/"@
                    &&& root.size == 0
                    &&& root.kind == DocKind::Folder
                    &&& root.location@ == Seq::<char>::empty()
                    &&& root.created_at == now
                    &&& root.updated_at == now
                    &&& !root.is_deleted
                })
                &&& final(store).tags@.len() == old(store).tags@.len() + 4
                &&& final(store).tags@.subrange(0, old(store).tags@.len() as int) == old(
                    store,
                ).tags@
                &&& forall|k: int|
                    #![trigger final(store).tags@[old(store).tags@.len() + k]]
                    0 <= k < 4 ==> {
                        let t = final(store).tags@[old(store).tags@.len() + k];
                        &&& t.tid == old(store).next_tid + k
                        &&& t.uid == uid
                        &&& t.color == k + 1
                        &&& t.icon == k + 1
                        &&& t.folder_id == 0
                        &&& t.created_at == now
                        &&& t.updated_at == now
                    }
                &&& seeded_tag_names(final(store).tags@, old(store).tags@.len() as int)
            },
            Err(e) => e == Error::Duplicate && *final(store) == *old(store),
        },
{
    if Query::email_exists(store, &form.email) {
        return Err(Error::Duplicate);
    }
    let uid = Mutation::create_user(store, form, now);
    let _ = crate::doc::Mutation::create_doc_info(
        store,
        NewDoc {
            uid,
            doc_name: "/".to_owned(),
            size: 0,
            kind: DocKind::Folder,
            location: "".to_owned(),
        },
        now,
    );
    let ghost tags0 = store.tags@;
    let _ = crate::tag::Mutation::create_tag(
        store,
        NewTag {
            uid,
            tag_name: "视频".to_owned(),
            regx: ".*\\.(mpg|mpeg|avi|rm|rmvb|mov|wmv|asf|dat|asx|wvx|mpe|mpa)".to_owned(),
            color: 1,
            icon: 1,
            folder_id: 0,
        },
        now,
    );
    let _ = crate::tag::Mutation::create_tag(
        store,
        NewTag {
            uid,
            tag_name: "图片".to_owned(),
            regx: ".*\\.(png|tif|gif|pcx|tga|exif|fpx|svg|psd|cdr|pcd|dxf|ufo|eps|ai|raw|WMF|webp|avif|apng)".to_owned(),
            color: 2,
            icon: 2,
            folder_id: 0,
        },
        now,
    );
    let _ = crate::tag::Mutation::create_tag(
        store,
        NewTag {
            uid,
            tag_name: "音乐".to_owned(),
            regx: ".*\\.(WAV|FLAC|APE|ALAC|WavPack|WV|MP3|AAC|Ogg|Vorbis|Opus)".to_owned(),
            color: 3,
            icon: 3,
            folder_id: 0,
        },
        now,
    );
    let _ = crate::tag::Mutation::create_tag(
        store,
        NewTag {
            uid,
            tag_name: "文档".to_owned(),
            regx: ".*\\.(pdf|doc|ppt|yml|xml|htm|json|csv|txt|ini|xsl|wps|rtf|hlp)".to_owned(),
            color: 4,
            icon: 4,
            folder_id: 0,
        },
        now,
    );
    proof {
        assert(store.docs@.subrange(0, old(store).docs@.len() as int) =~= old(store).docs@);
        assert(store.tags@.subrange(0, old(store).tags@.len() as int) =~= old(store).tags@);
        reveal_strlit("");
        assert(store.docs@.last().location@ =~= Seq::<char>::empty());
    }
    Ok(uid)
}

/// The seeded tags carry the stock names and patterns, in order: the
/// video, image, music and document groups.
pub open spec fn seeded_tag_names(tags: Seq<crate::records::TagRecord>, base: int) -> bool {
    &&& tags[base + 0].tag_name@ == "视频"@
    &&& tags[base + 0].regx@ == ".*\\.(mpg|mpeg|avi|rm|rmvb|mov|wmv|asf|dat|asx|wvx|mpe|mpa)"@
    &&& tags[base + 1].tag_name@ == "图片"@
    &&& tags[base + 1].regx@
        == ".*\\.(png|tif|gif|pcx|tga|exif|fpx|svg|psd|cdr|pcd|dxf|ufo|eps|ai|raw|WMF|webp|avif|apng)"@
    &&& tags[base + 2].tag_name@ == "音乐"@
    &&& tags[base + 2].regx@ == ".*\\.(WAV|FLAC|APE|ALAC|WavPack|WV|MP3|AAC|Ogg|Vorbis|Opus)"@
    &&& tags[base + 3].tag_name@ == "文档"@
    &&& tags[base + 3].regx@ == ".*\\.(pdf|doc|ppt|yml|xml|htm|json|csv|txt|ini|xsl|wps|rtf|hlp)"@
}

} // verus!
