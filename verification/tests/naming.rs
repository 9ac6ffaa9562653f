use docbase::doc::{self, Mutation, Query, RenameParams};
use docbase::error::Error;
use docbase::records::{DocKind, NewDoc};
use docbase::store::Store;

fn new_doc(uid: i64, name: &str) -> NewDoc {
    NewDoc {
        uid,
        doc_name: name.to_string(),
        size: 0,
        kind: DocKind::Doc,
        location: String::new(),
    }
}

#[test]
fn rename_rejects_a_sibling_duplicate() {
    let mut s = Store::new();
    let f = Mutation::create_doc_info(
        &mut s,
        NewDoc {
            uid: 1,
            doc_name: "f".to_string(),
            size: 0,
            kind: DocKind::Folder,
            location: String::new(),
        },
        1,
    );
    let a = Mutation::create_doc_info(&mut s, new_doc(1, "a.txt"), 2);
    let b = Mutation::create_doc_info(&mut s, new_doc(1, "b.txt"), 3);
    Mutation::place_doc(&mut s, f, a).unwrap();
    Mutation::place_doc(&mut s, f, b).unwrap();

    // a sibling already carries the name: rejected, nothing changes
    let r = doc::rename(
        &mut s,
        RenameParams { uid: 1, did: b, name: "a.txt".to_string() },
        9,
    );
    assert_eq!(r.unwrap_err(), Error::Duplicate);
    assert_eq!(Query::find_doc_info_by_id(&s, b).unwrap().doc_name, "b.txt");

    // a fresh name goes through
    let renamed = doc::rename(
        &mut s,
        RenameParams { uid: 1, did: b, name: "c.txt".to_string() },
        9,
    )
    .unwrap();
    assert_eq!(renamed.doc_name, "c.txt");
    assert_eq!(renamed.updated_at, 9);
    assert_eq!(Query::find_doc_info_by_id(&s, b).unwrap().doc_name, "c.txt");

    // a missing document is NotFound
    let r = doc::rename(
        &mut s,
        RenameParams { uid: 1, did: 777, name: "zz".to_string() },
        9,
    );
    assert_eq!(r.unwrap_err(), Error::NotFound);
}

#[test]
fn rename_ignores_documents_under_other_parents() {
    let mut s = Store::new();
    let f1 = Mutation::create_doc_info(
        &mut s,
        NewDoc {
            uid: 1,
            doc_name: "f1".to_string(),
            size: 0,
            kind: DocKind::Folder,
            location: String::new(),
        },
        1,
    );
    let a = Mutation::create_doc_info(&mut s, new_doc(1, "same.txt"), 2);
    let b = Mutation::create_doc_info(&mut s, new_doc(1, "other.txt"), 3);
    Mutation::place_doc(&mut s, f1, a).unwrap();
    // b stays a root; renaming it to a non-sibling's name is fine
    let r = doc::rename(
        &mut s,
        RenameParams { uid: 1, did: b, name: "same.txt".to_string() },
        5,
    );
    assert!(r.is_ok());
}

#[test]
fn unique_name_for_uploads() {
    let mut s = Store::new();
    let f = Mutation::create_doc_info(
        &mut s,
        NewDoc {
            uid: 1,
            doc_name: "f".to_string(),
            size: 0,
            kind: DocKind::Folder,
            location: String::new(),
        },
        1,
    );
    // a free name is kept as it is
    let free = doc::unique_sibling_name(&s, 1, f, &"fresh.txt".to_string());
    assert_eq!(free, "fresh.txt");

    let taken = Mutation::create_doc_info(&mut s, new_doc(1, "fresh.txt"), 2);
    Mutation::place_doc(&mut s, f, taken).unwrap();
    let next = doc::unique_sibling_name(&s, 1, f, &"fresh.txt".to_string());
    assert_eq!(next, "fresh_1.txt");

    let taken2 = Mutation::create_doc_info(&mut s, new_doc(1, "fresh_1.txt"), 3);
    Mutation::place_doc(&mut s, f, taken2).unwrap();
    let next = doc::unique_sibling_name(&s, 1, f, &"fresh.txt".to_string());
    assert_eq!(next, "fresh_2.txt");

    // a name without a dot gets an empty prefix and itself as the suffix
    let plain = Mutation::create_doc_info(&mut s, new_doc(1, "README"), 4);
    Mutation::place_doc(&mut s, f, plain).unwrap();
    let next = doc::unique_sibling_name(&s, 1, f, &"README".to_string());
    assert_eq!(next, "_1.README");
}

#[test]
fn upload_creates_and_places_the_document() {
    let mut s = Store::new();
    let f = Mutation::create_doc_info(
        &mut s,
        NewDoc {
            uid: 1,
            doc_name: "f".to_string(),
            size: 0,
            kind: DocKind::Folder,
            location: String::new(),
        },
        1,
    );
    let did = doc::upload_doc(
        &mut s,
        1,
        f,
        "data.bin".to_string(),
        2048,
        "./upload/1/2-data.bin".to_string(),
        7,
    )
    .unwrap();
    let row = Query::find_doc_info_by_id(&s, did).unwrap();
    assert_eq!(row.doc_name, "data.bin");
    assert_eq!(row.size, 2048);
    assert_eq!(row.kind, DocKind::Doc);
    assert_eq!(row.location, "./upload/1/2-data.bin");
    assert!(s.doc_edges.iter().any(|e| e.parent_id == f && e.did == did));
}

#[test]
fn new_folder_has_empty_location() {
    let mut s = Store::new();
    let root = Mutation::create_doc_info(
        &mut s,
        NewDoc {
            uid: 1,
            doc_name: "/".to_string(),
            size: 0,
            kind: DocKind::Folder,
            location: String::new(),
        },
        1,
    );
    let fid = doc::new_folder(
        &mut s,
        doc::NewFoldParams { uid: 1, parent_id: root, name: "pics".to_string() },
        3,
    )
    .unwrap();
    let row = Query::find_doc_info_by_id(&s, fid).unwrap();
    assert_eq!(row.kind, DocKind::Folder);
    assert_eq!(row.location, "");
    assert_eq!(row.size, 0);
    assert!(s.doc_edges.iter().any(|e| e.parent_id == root && e.did == fid));
}

#[test]
fn find_by_name_scopes_to_siblings() {
    let mut s = Store::new();
    let f = Mutation::create_doc_info(
        &mut s,
        NewDoc {
            uid: 1,
            doc_name: "f".to_string(),
            size: 0,
            kind: DocKind::Folder,
            location: String::new(),
        },
        1,
    );
    let a = Mutation::create_doc_info(&mut s, new_doc(1, "x.txt"), 2);
    Mutation::place_doc(&mut s, f, a).unwrap();
    let rows = Query::find_doc_infos_by_name(&s, 1, &"x.txt".to_string(), Some(f));
    assert_eq!(rows.len(), 1);
    assert_eq!(rows[0].did, a);
    // without a parent, the probe looks among the first bearer's siblings
    let rows = Query::find_doc_infos_by_name(&s, 1, &"x.txt".to_string(), None);
    assert_eq!(rows.len(), 1);
    let rows = Query::find_doc_infos_by_name(&s, 1, &"missing".to_string(), None);
    assert!(rows.is_empty());
}
