use docbase::records::{DocKind, NewDoc, NewKb, NewUser};
use docbase::store::Store;

fn seed_user(s: &mut Store, email: &str) -> i64 {
    docbase::user::Mutation::create_user(
        s,
        NewUser {
            email: email.to_string(),
            nickname: String::new(),
            avatar_base64: String::new(),
            color_scheme: String::new(),
            list_style: String::new(),
            language: String::new(),
            password: String::new(),
        },
        1,
    )
}

#[test]
fn docs_by_uid_filters_owners() {
    let mut s = Store::new();
    for (uid, name) in [(1, "a"), (2, "b"), (1, "c")] {
        docbase::doc::Mutation::create_doc_info(
            &mut s,
            NewDoc {
                uid,
                doc_name: name.to_string(),
                size: 0,
                kind: DocKind::Doc,
                location: String::new(),
            },
            1,
        );
    }
    let mine = docbase::doc::Query::find_doc_infos_by_uid(&s, 1);
    let names: Vec<&str> = mine.iter().map(|d| d.doc_name.as_str()).collect();
    assert_eq!(names, vec!["a", "c"]);
    assert_eq!(docbase::doc::Query::find_doc_infos(&s).len(), 3);
}

#[test]
fn kb_queries_and_updates() {
    let mut s = Store::new();
    let k1 = docbase::kb::Mutation::create_kb_info(
        &mut s,
        NewKb { uid: 1, kb_name: "alpha".to_string(), icon: 1 },
        1,
    );
    let _k2 = docbase::kb::Mutation::create_kb_info(
        &mut s,
        NewKb { uid: 2, kb_name: "beta".to_string(), icon: 2 },
        2,
    );
    assert_eq!(docbase::kb::Query::find_kb_infos(&s).len(), 2);
    assert_eq!(docbase::kb::Query::find_kb_infos_by_uid(&s, 1).len(), 1);
    let by_name = docbase::kb::Query::find_kb_infos_by_name(&s, &"beta".to_string());
    assert_eq!(by_name.len(), 1);
    assert_eq!(by_name[0].uid, 2);

    let updated = docbase::kb::Mutation::update_kb_info_by_id(
        &mut s,
        k1,
        NewKb { uid: 99, kb_name: "gamma".to_string(), icon: 7 },
        9,
    )
    .unwrap();
    // owner and created_at survive an update
    assert_eq!(updated.uid, 1);
    assert_eq!(updated.created_at, 1);
    assert_eq!(updated.kb_name, "gamma");
    assert_eq!(updated.icon, 7);

    // deletion is soft: the row keeps its place with the flag set
    assert!(docbase::kb::Mutation::delete_kb_info(&mut s, k1, 11).is_ok());
    let gone = docbase::kb::Query::find_kb_info_by_id(&s, k1).unwrap();
    assert!(gone.is_deleted);
    assert_eq!(gone.updated_at, 11);
    assert_eq!(gone.kb_name, "gamma");
    assert!(docbase::kb::Mutation::delete_kb_info(&mut s, 777, 12).is_err());

    // a later field update does not resurrect a deleted knowledge base
    let after = docbase::kb::Mutation::update_kb_info_by_id(
        &mut s,
        k1,
        NewKb { uid: 1, kb_name: "delta".to_string(), icon: 3 },
        13,
    )
    .unwrap();
    assert!(after.is_deleted);
    assert_eq!(after.kb_name, "delta");

    let (page, pages) = docbase::kb::Query::find_kb_infos_in_page(&s, 1, 10);
    assert_eq!(page.len(), 2);
    assert_eq!(pages, 1);
}

#[test]
fn user_table_paging_and_deletion() {
    let mut s = Store::new();
    for k in 0..3 {
        seed_user(&mut s, &format!("u{}@x", k));
    }
    let (rows, pages) = docbase::user::Query::find_user_infos_in_page(&s, 2, 2);
    assert_eq!(rows.len(), 1);
    assert_eq!(pages, 2);
    assert_eq!(docbase::user::Query::find_user_infos(&s).len(), 3);

    let uid = rows[0].uid;
    assert!(docbase::user::Mutation::delete_user(&mut s, uid).is_ok());
    assert!(docbase::user::Query::find_user_info_by_id(&s, uid).is_none());
    docbase::user::Mutation::delete_all(&mut s);
    assert!(docbase::user::Query::find_user_infos(&s).is_empty());
}

#[test]
fn dialog_listing_and_paging() {
    let mut s = Store::new();
    for k in 0..4 {
        docbase::dialog::Mutation::create_dialog_info(&mut s, 1, 5, format!("d{}", k), k);
    }
    docbase::dialog::Mutation::delete_dialog_info(&mut s, 1);
    assert_eq!(docbase::dialog::Query::find_dialog_infos_by_uid(&s, 1).len(), 3);
    assert_eq!(docbase::dialog::Query::find_dialog_infos(&s).len(), 4);
    let (rows, pages) = docbase::dialog::Query::find_dialog_infos_in_page(&s, 1, 3);
    assert_eq!(rows.len(), 3);
    assert_eq!(pages, 2);
    docbase::dialog::Mutation::delete_all_dialog_infos(&mut s);
    assert!(docbase::dialog::Query::find_dialog_infos(&s).is_empty());
}

#[test]
fn tag_paging() {
    let mut s = Store::new();
    for k in 0..5 {
        docbase::tag::Mutation::create_tag(
            &mut s,
            docbase::records::NewTag {
                uid: 1,
                tag_name: format!("t{}", k),
                regx: String::new(),
                color: 0,
                icon: 0,
                folder_id: 0,
            },
            k,
        );
    }
    let (rows, pages) = docbase::tag::Query::find_tag_infos_in_page(&s, 3, 2);
    assert_eq!(rows.len(), 1);
    assert_eq!(pages, 3);
    docbase::tag::Mutation::delete_all_tags(&mut s);
    let (rows, pages) = docbase::tag::Query::find_tag_infos_in_page(&s, 1, 2);
    assert!(rows.is_empty());
    assert_eq!(pages, 0);
}
