use docbase::doc::{FilterParams, ListParams, Mutation, Query};
use docbase::error::Error;
use docbase::records::{DocKind, NewDoc, NewTag};
use docbase::store::Store;

fn add_doc(s: &mut Store, uid: i64, name: &str, size: i64, parent: Option<i64>, now: i64) -> i64 {
    let did = Mutation::create_doc_info(
        s,
        NewDoc {
            uid,
            doc_name: name.to_string(),
            size,
            kind: DocKind::Doc,
            location: String::new(),
        },
        now,
    );
    if let Some(p) = parent {
        Mutation::place_doc(s, p, did).unwrap();
    }
    did
}

fn params(uid: i64, filter: FilterParams, sortby: &str) -> ListParams {
    ListParams { uid, filter, sortby: sortby.to_string(), page: None, per_page: None }
}

fn no_filter() -> FilterParams {
    FilterParams { keywords: None, folder_id: None, tag_id: None, kb_id: None }
}

fn names(rows: &Vec<docbase::records::DocRecord>) -> Vec<String> {
    rows.iter().map(|d| d.doc_name.clone()).collect()
}

#[test]
fn folder_filter_returns_exactly_the_children() {
    let mut s = Store::new();
    let f = Mutation::create_doc_info(
        &mut s,
        NewDoc {
            uid: 1,
            doc_name: "f".to_string(),
            size: 0,
            kind: DocKind::Folder,
            location: String::new(),
        },
        1,
    );
    let in1 = add_doc(&mut s, 1, "in1.txt", 1, Some(f), 2);
    let _in2 = add_doc(&mut s, 1, "in2.txt", 2, Some(f), 3);
    let _out = add_doc(&mut s, 1, "out.txt", 3, None, 4);
    let _foreign = add_doc(&mut s, 2, "in3.txt", 4, Some(f), 5);
    // a soft-deleted child must not be listed
    Mutation::delete_doc_info(&mut s, &vec![in1], 9).unwrap();

    let mut filter = no_filter();
    filter.folder_id = Some(f);
    let rows = Query::find_doc_infos_by_params(&s, params(1, filter, "did")).unwrap();
    assert_eq!(names(&rows), vec!["in2.txt"]);
}

#[test]
fn tag_pattern_filter_selects_matching_names() {
    let mut s = Store::new();
    add_doc(&mut s, 1, "paper.pdf", 1, None, 1);
    add_doc(&mut s, 1, "image.png", 2, None, 2);
    add_doc(&mut s, 1, "draft.pdf", 3, None, 3);
    let tid = docbase::tag::Mutation::create_tag(
        &mut s,
        NewTag {
            uid: 1,
            tag_name: "documents".to_string(),
            regx: ".*\\.pdf".to_string(),
            color: 1,
            icon: 1,
            folder_id: 0,
        },
        4,
    );

    let mut filter = no_filter();
    filter.tag_id = Some(tid);
    let rows = Query::find_doc_infos_by_params(&s, params(1, filter, "did")).unwrap();
    assert_eq!(names(&rows), vec!["paper.pdf", "draft.pdf"]);

    // an unknown tag id is a typed error
    let mut missing = no_filter();
    missing.tag_id = Some(tid + 50);
    assert_eq!(
        Query::find_doc_infos_by_params(&s, params(1, missing, "")).unwrap_err(),
        Error::NotFound
    );
}

#[test]
fn tag_name_matches_the_type_column() {
    let mut s = Store::new();
    let folder = Mutation::create_doc_info(
        &mut s,
        NewDoc {
            uid: 1,
            doc_name: "stuff".to_string(),
            size: 0,
            kind: DocKind::Folder,
            location: String::new(),
        },
        1,
    );
    let _ = folder;
    add_doc(&mut s, 1, "plain.bin", 1, None, 2);
    // the tag's pattern matches nothing, but `type == tag_name` does
    let tid = docbase::tag::Mutation::create_tag(
        &mut s,
        NewTag {
            uid: 1,
            tag_name: "folder".to_string(),
            regx: "zzz".to_string(),
            color: 1,
            icon: 1,
            folder_id: 0,
        },
        3,
    );
    let mut filter = no_filter();
    filter.tag_id = Some(tid);
    let rows = Query::find_doc_infos_by_params(&s, params(1, filter, "did")).unwrap();
    assert_eq!(names(&rows), vec!["stuff"]);
}

#[test]
fn keyword_filter_is_a_substring_test() {
    let mut s = Store::new();
    add_doc(&mut s, 1, "annual report.pdf", 1, None, 1);
    add_doc(&mut s, 1, "notes.txt", 2, None, 2);
    let mut filter = no_filter();
    filter.keywords = Some("report".to_string());
    let rows = Query::find_doc_infos_by_params(&s, params(1, filter, "did")).unwrap();
    assert_eq!(names(&rows), vec!["annual report.pdf"]);
}

#[test]
fn kb_filter_uses_active_links_only() {
    let mut s = Store::new();
    let a = add_doc(&mut s, 1, "a".to_string().as_str(), 1, None, 1);
    let b = add_doc(&mut s, 1, "b", 2, None, 2);
    let kb = docbase::kb::Mutation::create_kb_info(
        &mut s,
        docbase::records::NewKb { uid: 1, kb_name: "k".to_string(), icon: 0 },
        3,
    );
    docbase::kb::Mutation::add_docs(&mut s, kb, &vec![a, b], 4).unwrap();
    docbase::kb::Mutation::remove_docs(&mut s, &vec![b], Some(kb), 5);

    let mut filter = no_filter();
    filter.kb_id = Some(kb);
    let rows = Query::find_doc_infos_by_params(&s, params(1, filter, "did")).unwrap();
    assert_eq!(names(&rows), vec!["a"]);
}

#[test]
fn sorting_and_pagination() {
    let mut s = Store::new();
    add_doc(&mut s, 1, "small", 10, None, 5);
    add_doc(&mut s, 1, "large", 30, None, 6);
    add_doc(&mut s, 1, "mid", 20, None, 7);

    let rows = Query::find_doc_infos_by_params(&s, params(1, no_filter(), "size asc")).unwrap();
    assert_eq!(names(&rows), vec!["small", "mid", "large"]);

    let rows = Query::find_doc_infos_by_params(&s, params(1, no_filter(), "size desc")).unwrap();
    assert_eq!(names(&rows), vec!["large", "mid", "small"]);

    // default order is updated_at desc
    let rows = Query::find_doc_infos_by_params(&s, params(1, no_filter(), "")).unwrap();
    assert_eq!(names(&rows), vec!["mid", "large", "small"]);

    let mut p = params(1, no_filter(), "size asc");
    p.per_page = Some(2);
    p.page = Some(0);
    let rows = Query::find_doc_infos_by_params(&s, p).unwrap();
    assert_eq!(names(&rows), vec!["small", "mid"]);

    let mut p = params(1, no_filter(), "size asc");
    p.per_page = Some(2);
    p.page = Some(1);
    let rows = Query::find_doc_infos_by_params(&s, p).unwrap();
    assert_eq!(names(&rows), vec!["large"]);

    let mut p = params(1, no_filter(), "size asc");
    p.per_page = Some(2);
    p.page = Some(7);
    let rows = Query::find_doc_infos_by_params(&s, p).unwrap();
    assert!(rows.is_empty());
}

#[test]
fn pages_over_the_table() {
    let mut s = Store::new();
    for k in 0..5 {
        add_doc(&mut s, 1, &format!("d{}", k), k, None, k);
    }
    let (rows, pages) = Query::find_doc_infos_in_page(&s, 1, 2);
    assert_eq!(rows.len(), 2);
    assert_eq!(pages, 3);
    let (rows, _) = Query::find_doc_infos_in_page(&s, 3, 2);
    assert_eq!(rows.len(), 1);
    let (rows, _) = Query::find_doc_infos_in_page(&s, 9, 2);
    assert!(rows.is_empty());
}
