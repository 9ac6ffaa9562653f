use docbase::error::Error;
use docbase::records::{DocKind, NewKb, NewUser};
use docbase::store::Store;
use docbase::user;

fn new_user(email: &str) -> NewUser {
    NewUser {
        email: email.to_string(),
        nickname: "nick".to_string(),
        avatar_base64: String::new(),
        color_scheme: "dark".to_string(),
        list_style: "list".to_string(),
        language: "chinese".to_string(),
        password: "secret".to_string(),
    }
}

#[test]
fn register_seeds_root_folder_and_four_tags() {
    let mut s = Store::new();
    let uid = user::register(&mut s, new_user("a@b.c"), 42).unwrap();

    assert_eq!(s.users.len(), 1);
    assert_eq!(s.docs.len(), 1);
    let root = &s.docs[0];
    assert_eq!(root.uid, uid);
    assert_eq!(root.doc_name, "/");
    assert_eq!(root.kind, DocKind::Folder);
    assert_eq!(root.location, "");
    assert!(!root.is_deleted);

    assert_eq!(s.tags.len(), 4);
    let names: Vec<&str> = s.tags.iter().map(|t| t.tag_name.as_str()).collect();
    assert_eq!(names, vec!["视频", "图片", "音乐", "文档"]);
    assert_eq!(s.tags[0].regx, ".*\\.(mpg|mpeg|avi|rm|rmvb|mov|wmv|asf|dat|asx|wvx|mpe|mpa)");
    assert_eq!(
        s.tags[1].regx,
        ".*\\.(png|tif|gif|pcx|tga|exif|fpx|svg|psd|cdr|pcd|dxf|ufo|eps|ai|raw|WMF|webp|avif|apng)"
    );
    assert_eq!(s.tags[2].regx, ".*\\.(WAV|FLAC|APE|ALAC|WavPack|WV|MP3|AAC|Ogg|Vorbis|Opus)");
    assert_eq!(s.tags[3].regx, ".*\\.(pdf|doc|ppt|yml|xml|htm|json|csv|txt|ini|xsl|wps|rtf|hlp)");
    for (k, t) in s.tags.iter().enumerate() {
        assert_eq!(t.uid, uid);
        assert_eq!(t.color as usize, k + 1);
        assert_eq!(t.icon as usize, k + 1);
        assert_eq!(t.folder_id, 0);
    }

    // a taken email is rejected and nothing more is seeded
    assert_eq!(user::register(&mut s, new_user("a@b.c"), 43), Err(Error::Duplicate));
    assert_eq!(s.users.len(), 1);
    assert_eq!(s.tags.len(), 4);
}

#[test]
fn login_compares_credentials_by_equality() {
    let mut s = Store::new();
    let uid = user::register(&mut s, new_user("who@x.y"), 7).unwrap();
    let u = user::Query::login(&s, "who@x.y", "secret").unwrap();
    assert_eq!(u.uid, uid);
    assert!(user::Query::login(&s, "who@x.y", "wrong").is_none());
    assert!(user::Query::login(&s, "other@x.y", "secret").is_none());

    user::Mutation::update_login_status(uid, &mut s, 12345);
    let u = user::Query::find_user_info_by_id(&s, uid).unwrap();
    assert_eq!(u.last_login_at, 12345);
}

#[test]
fn settings_update_keeps_created_at() {
    let mut s = Store::new();
    let uid = user::register(&mut s, new_user("p@q.r"), 7).unwrap();
    let mut form = new_user("p@q.r");
    form.nickname = "renamed".to_string();
    let u = user::Mutation::update_user_by_id(&mut s, uid, form, 99).unwrap();
    assert_eq!(u.nickname, "renamed");
    assert_eq!(u.created_at, 7);
    assert_eq!(u.updated_at, 99);
    assert!(user::Mutation::update_user_by_id(&mut s, uid + 5, new_user("z"), 1).is_err());
}

#[test]
fn kb_create_rejects_duplicate_names() {
    let mut s = Store::new();
    let kb = docbase::kb::create_kb(
        &mut s,
        NewKb { uid: 1, kb_name: "base".to_string(), icon: 2 },
        5,
    )
    .unwrap();
    assert_eq!(
        docbase::kb::create_kb(&mut s, NewKb { uid: 2, kb_name: "base".to_string(), icon: 0 }, 6),
        Err(Error::Duplicate)
    );
    let row = docbase::kb::Query::find_kb_info_by_id(&s, kb).unwrap();
    assert_eq!(row.kb_name, "base");
    assert_eq!(row.icon, 2);
}

#[test]
fn kb_links_and_relevants() {
    let mut s = Store::new();
    let folder = docbase::doc::Mutation::create_doc_info(
        &mut s,
        docbase::records::NewDoc {
            uid: 1,
            doc_name: "f".to_string(),
            size: 0,
            kind: DocKind::Folder,
            location: String::new(),
        },
        1,
    );
    let child = docbase::doc::Mutation::create_doc_info(
        &mut s,
        docbase::records::NewDoc {
            uid: 1,
            doc_name: "c.txt".to_string(),
            size: 1,
            kind: DocKind::Doc,
            location: String::new(),
        },
        2,
    );
    docbase::doc::Mutation::place_doc(&mut s, folder, child).unwrap();
    let kb = docbase::kb::Mutation::create_kb_info(
        &mut s,
        NewKb { uid: 1, kb_name: "k".to_string(), icon: 0 },
        3,
    );
    docbase::kb::Mutation::add_docs(&mut s, kb, &vec![child], 4).unwrap();
    // adding the same pair again does not duplicate the link
    docbase::kb::Mutation::add_docs(&mut s, kb, &vec![child], 5).unwrap();
    assert_eq!(s.kb_links.len(), 1);

    // the kb is relevant to the folder through its descendant
    let kbs = docbase::kb::all_relevents(&s, &vec![folder]);
    assert_eq!(kbs.len(), 1);
    assert_eq!(kbs[0].kb_id, kb);

    docbase::kb::Mutation::remove_docs(&mut s, &vec![child], Some(kb), 6);
    let link = &s.kb_links[0];
    assert!(link.is_deleted);
    assert_eq!(link.kb_progress, 0);
    assert_eq!(link.updated_at, 6);
}

#[test]
fn dialog_lifecycle() {
    let mut s = Store::new();
    let id = docbase::dialog::create(
        &mut s,
        docbase::dialog::CreateParams {
            uid: 1,
            dialog_id: None,
            kb_id: 9,
            name: "chat".to_string(),
        },
        10,
    )
    .unwrap();
    let row = docbase::dialog::Query::find_dialog_info_by_id(&s, id).unwrap();
    assert_eq!(row.dialog_name, "chat");
    assert_eq!(row.history, "");
    assert_eq!(row.kb_id, 9);

    // renaming through create keeps the history
    docbase::dialog::update_history(&mut s, id, &"[1,2]".to_string(), 11).unwrap();
    let renamed = docbase::dialog::create(
        &mut s,
        docbase::dialog::CreateParams {
            uid: 1,
            dialog_id: Some(id),
            kb_id: 9,
            name: "renamed".to_string(),
        },
        12,
    )
    .unwrap();
    assert_eq!(renamed, id);
    let row = docbase::dialog::Query::find_dialog_info_by_id(&s, id).unwrap();
    assert_eq!(row.dialog_name, "renamed");
    assert_eq!(row.history, "[1,2]");

    assert_eq!(
        docbase::dialog::update_history(&mut s, id + 7, &String::new(), 13),
        Err(Error::NotFound)
    );

    docbase::dialog::Mutation::delete_dialog_info(&mut s, id);
    assert!(docbase::dialog::Query::find_dialog_info_by_id(&s, id).unwrap().is_deleted);
    assert!(docbase::dialog::Query::find_dialog_infos_by_uid(&s, 1).is_empty());
}

#[test]
fn tag_crud() {
    let mut s = Store::new();
    let tid = docbase::tag::Mutation::create_tag(
        &mut s,
        docbase::records::NewTag {
            uid: 3,
            tag_name: "mine".to_string(),
            regx: String::new(),
            color: 5,
            icon: 6,
            folder_id: 0,
        },
        1,
    );
    assert_eq!(docbase::tag::Query::find_tags_by_uid(3, &s).len(), 1);
    let t = docbase::tag::Mutation::update_tag_by_id(
        &mut s,
        tid,
        docbase::records::NewTag {
            uid: 3,
            tag_name: "ours".to_string(),
            regx: ".*".to_string(),
            color: 7,
            icon: 8,
            folder_id: 2,
        },
        9,
    )
    .unwrap();
    assert_eq!(t.tag_name, "ours");
    assert_eq!(t.created_at, 1);
    assert_eq!(t.updated_at, 9);
    assert_eq!(docbase::tag::Mutation::delete_tag(&mut s, tid), Ok(()));
    assert!(docbase::tag::Query::find_tag_info_by_id(tid, &s).is_none());
    assert_eq!(docbase::tag::Mutation::delete_tag(&mut s, tid), Err(Error::NotFound));
}

#[test]
fn error_status_codes() {
    assert_eq!(Error::NotFound.status_code(), 404);
    assert_eq!(Error::Duplicate.status_code(), 409);
    assert_eq!(Error::LoginFailed.status_code(), 404);
}
