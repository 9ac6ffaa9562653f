use docbase::doc::{Mutation, MvParams, Query};
use docbase::error::Error;
use docbase::records::{DocKind, NewDoc};
use docbase::store::Store;

fn new_doc(uid: i64, name: &str, kind: DocKind) -> NewDoc {
    NewDoc {
        uid,
        doc_name: name.to_string(),
        size: 0,
        kind,
        location: String::new(),
    }
}

fn sorted(mut v: Vec<i64>) -> Vec<i64> {
    v.sort();
    v
}

#[test]
fn place_and_descendants() {
    let mut s = Store::new();
    let root = Mutation::create_doc_info(&mut s, new_doc(1, "/", DocKind::Folder), 10);
    let a = Mutation::create_doc_info(&mut s, new_doc(1, "a", DocKind::Folder), 11);
    let b = Mutation::create_doc_info(&mut s, new_doc(1, "b.txt", DocKind::Doc), 12);
    let c = Mutation::create_doc_info(&mut s, new_doc(1, "c.txt", DocKind::Doc), 13);
    assert_eq!(Mutation::place_doc(&mut s, root, a), Ok(()));
    assert_eq!(Mutation::place_doc(&mut s, a, b), Ok(()));
    assert_eq!(Mutation::place_doc(&mut s, a, c), Ok(()));

    let down = Query::all_descendent_ids(&s, &vec![root]);
    assert_eq!(sorted(down), vec![root, a, b, c]);

    let down_a = Query::all_descendent_ids(&s, &vec![a]);
    assert_eq!(sorted(down_a), vec![a, b, c]);

    // a second parent edge for the same child is rejected
    assert_eq!(Mutation::place_doc(&mut s, root, b), Err(Error::Duplicate));
}

#[test]
fn descendants_survive_a_cycle() {
    let mut s = Store::new();
    let x = Mutation::create_doc_info(&mut s, new_doc(1, "x", DocKind::Folder), 1);
    let y = Mutation::create_doc_info(&mut s, new_doc(1, "y", DocKind::Folder), 2);
    assert_eq!(Mutation::place_doc(&mut s, x, y), Ok(()));
    // reparenting x under its own child closes a cycle
    assert_eq!(Mutation::mv_doc_info(&mut s, y, &vec![x]), Ok(()));
    let down = Query::all_descendent_ids(&s, &vec![x]);
    assert_eq!(sorted(down), vec![x, y]);
}

#[test]
fn mv_updates_and_upserts_edges() {
    let mut s = Store::new();
    let f1 = Mutation::create_doc_info(&mut s, new_doc(1, "f1", DocKind::Folder), 1);
    let f2 = Mutation::create_doc_info(&mut s, new_doc(1, "f2", DocKind::Folder), 1);
    let d = Mutation::create_doc_info(&mut s, new_doc(1, "d.txt", DocKind::Doc), 1);
    assert_eq!(Mutation::place_doc(&mut s, f1, d), Ok(()));

    let params = MvParams { uid: 1, dids: vec![d, f1], dest_did: f2 };
    assert_eq!(Mutation::mv_doc_info(&mut s, params.dest_did, &params.dids), Ok(()));
    // d's edge was updated, f1 had none and got one
    assert_eq!(sorted(Query::all_descendent_ids(&s, &vec![f2])), vec![f1, f2, d]);

    // a missing document id fails and changes nothing
    let before = s.doc_edges.len();
    assert_eq!(Mutation::mv_doc_info(&mut s, f1, &vec![999]), Err(Error::NotFound));
    assert_eq!(s.doc_edges.len(), before);
}

#[test]
fn delete_cascades_and_cleans_edges_and_links() {
    let mut s = Store::new();
    let root = Mutation::create_doc_info(&mut s, new_doc(1, "/", DocKind::Folder), 1);
    let folder = Mutation::create_doc_info(&mut s, new_doc(1, "docs", DocKind::Folder), 1);
    let leaf = Mutation::create_doc_info(&mut s, new_doc(1, "a.pdf", DocKind::Doc), 1);
    let other = Mutation::create_doc_info(&mut s, new_doc(1, "keep.pdf", DocKind::Doc), 1);
    assert_eq!(Mutation::place_doc(&mut s, root, folder), Ok(()));
    assert_eq!(Mutation::place_doc(&mut s, folder, leaf), Ok(()));
    assert_eq!(Mutation::place_doc(&mut s, root, other), Ok(()));

    let kb = docbase::kb::Mutation::create_kb_info(
        &mut s,
        docbase::records::NewKb { uid: 1, kb_name: "kb".to_string(), icon: 0 },
        5,
    );
    assert_eq!(docbase::kb::Mutation::add_docs(&mut s, kb, &vec![leaf, other], 6), Ok(()));

    assert_eq!(Mutation::delete_doc_info(&mut s, &vec![folder], 99), Ok(()));

    // folder and its descendant are soft-deleted, the sibling is not
    assert!(Query::find_doc_info_by_id(&s, folder).unwrap().is_deleted);
    let leaf_row = Query::find_doc_info_by_id(&s, leaf).unwrap();
    assert!(leaf_row.is_deleted);
    assert_eq!(leaf_row.updated_at, 99);
    assert!(!Query::find_doc_info_by_id(&s, other).unwrap().is_deleted);

    // every edge touching a deleted id is gone, as parent and as child
    for e in s.doc_edges.iter() {
        assert!(e.parent_id != folder && e.did != folder);
        assert!(e.parent_id != leaf && e.did != leaf);
    }
    // the sibling's edge survives
    assert!(s.doc_edges.iter().any(|e| e.did == other));

    // the deleted document's knowledge-base link is soft-marked and reset
    let leaf_link = s.kb_links.iter().find(|l| l.did == leaf).unwrap();
    assert!(leaf_link.is_deleted);
    assert_eq!(leaf_link.kb_progress, 0);
    assert_eq!(leaf_link.kb_progress_msg, "");
    let other_link = s.kb_links.iter().find(|l| l.did == other).unwrap();
    assert!(!other_link.is_deleted);

    // deleting a missing id reports it
    assert_eq!(Mutation::delete_doc_info(&mut s, &vec![12345], 1), Err(Error::NotFound));
}

#[test]
fn create_then_find_round_trip() {
    let mut s = Store::new();
    let now = docbase::clock::now_millis();
    let did = Mutation::create_doc_info(
        &mut s,
        NewDoc {
            uid: 7,
            doc_name: "notes.txt".to_string(),
            size: 123,
            kind: DocKind::Doc,
            location: "/tmp/notes.txt".to_string(),
        },
        now,
    );
    let row = Query::find_doc_info_by_id(&s, did).unwrap();
    assert_eq!(row.uid, 7);
    assert_eq!(row.doc_name, "notes.txt");
    assert_eq!(row.size, 123);
    assert_eq!(row.kind, DocKind::Doc);
    assert_eq!(row.location, "/tmp/notes.txt");
    assert!(row.created_at <= row.updated_at);
    assert!(!row.is_deleted);
    assert!(Query::find_doc_info_by_id(&s, did + 1).is_none());
}

#[test]
fn update_doc_keeps_created_at() {
    let mut s = Store::new();
    let did = Mutation::create_doc_info(&mut s, new_doc(1, "old", DocKind::Doc), 10);
    let updated = Mutation::update_doc_info_by_id(
        &mut s,
        did,
        NewDoc {
            uid: 1,
            doc_name: "new".to_string(),
            size: 9,
            kind: DocKind::Doc,
            location: String::new(),
        },
        20,
    )
    .unwrap();
    assert_eq!(updated.doc_name, "new");
    assert_eq!(updated.created_at, 10);
    assert_eq!(updated.updated_at, 20);
    assert!(Mutation::update_doc_info_by_id(&mut s, 999, new_doc(1, "x", DocKind::Doc), 1).is_err());
}
