use docbase::frame::split_upload_frame;
use docbase::pattern::pattern_found;

#[test]
fn plain_patterns() {
    assert!(pattern_found("abc", "xxabcxx"));
    assert!(!pattern_found("abc", "abXc"));
    assert!(pattern_found("a.c", "zzavczz"));
    assert!(pattern_found("", ""));
}

#[test]
fn pdf_pattern_matches_pdf_names_only() {
    assert!(pattern_found(".*\\.pdf", "report.pdf"));
    assert!(pattern_found(".*\\.pdf", "deep.dir.pdf"));
    assert!(!pattern_found(".*\\.pdf", "image.png"));
    assert!(!pattern_found(".*\\.pdf", "pdf"));
}

#[test]
fn alternation_groups_and_postfix_operators() {
    let video = ".*\\.(mpg|mpeg|avi|rm|rmvb|mov|wmv|asf|dat|asx|wvx|mpe|mpa)";
    assert!(pattern_found(video, "movie.avi"));
    assert!(pattern_found(video, "clip.rmvb"));
    assert!(!pattern_found(video, "song.mp3"));

    assert!(pattern_found("ab+c", "xabbbcx"));
    assert!(!pattern_found("ab+c", "ac"));
    assert!(pattern_found("ab?c", "ac"));
    assert!(pattern_found("ab?c", "abc"));
    assert!(!pattern_found("ab?c", "abbc"));
}

#[test]
fn escapes_stand_for_themselves() {
    assert!(pattern_found("a\\.b", "xa.bx"));
    assert!(!pattern_found("a\\.b", "aXb"));
    assert!(pattern_found("a\\\\b", "a\\b"));
}

#[test]
fn malformed_patterns_match_nothing() {
    assert!(!pattern_found("[abc]", "a"));
    assert!(!pattern_found("(unclosed", "unclosed"));
    assert!(!pattern_found("*front", "front"));
    assert!(!pattern_found("a{2}", "aa"));
}

#[test]
fn upload_frame_split() {
    let mut bytes: Vec<u8> = Vec::new();
    bytes.extend_from_slice(&7i64.to_be_bytes());
    bytes.extend_from_slice(&1234i64.to_be_bytes());
    bytes.extend_from_slice(b"payload");
    let (uid, did, rest) = split_upload_frame(&bytes).unwrap();
    assert_eq!(uid, 7);
    assert_eq!(did, 1234);
    assert_eq!(rest, b"payload".to_vec());

    let (uid, did, rest) = split_upload_frame(&(-5i64)
        .to_be_bytes()
        .iter()
        .chain((-9i64).to_be_bytes().iter())
        .cloned()
        .collect::<Vec<u8>>())
    .unwrap();
    assert_eq!(uid, -5);
    assert_eq!(did, -9);
    assert!(rest.is_empty());

    assert!(split_upload_frame(&vec![0u8; 15]).is_none());
}
