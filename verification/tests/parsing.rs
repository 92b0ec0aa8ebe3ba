use proxy_bench::source::{
    process_ips_file, process_url_file, shuffle_candidates, split_first_slash, split_lines,
    SourceError,
};

#[test]
fn candidate_list_strips_suffixes() {
    let content = b"1.1.1.1/24\n2.2.2.2/24\n".to_vec();
    let got = process_ips_file(&content).unwrap();
    assert_eq!(got, vec![b"1.1.1.1".to_vec(), b"2.2.2.2".to_vec()]);
}

#[test]
fn candidate_list_keeps_bare_addresses_and_order() {
    let content = b"9.9.9.9\n8.8.8.8/12\n7.7.7.7".to_vec();
    let got = process_ips_file(&content).unwrap();
    assert_eq!(
        got,
        vec![b"9.9.9.9".to_vec(), b"8.8.8.8".to_vec(), b"7.7.7.7".to_vec()]
    );
}

#[test]
fn candidate_list_accepts_crlf_endings() {
    let content = b"1.1.1.1/24\r\n2.2.2.2\r\n".to_vec();
    let got = process_ips_file(&content).unwrap();
    assert_eq!(got, vec![b"1.1.1.1".to_vec(), b"2.2.2.2".to_vec()]);
}

#[test]
fn candidate_list_keeps_blank_lines_as_empty_addresses() {
    let content = b"1.1.1.1\n\n2.2.2.2\n".to_vec();
    let got = process_ips_file(&content).unwrap();
    assert_eq!(
        got,
        vec![b"1.1.1.1".to_vec(), b"".to_vec(), b"2.2.2.2".to_vec()]
    );
}

#[test]
fn empty_candidate_source_is_missing_data() {
    let content = Vec::new();
    assert_eq!(
        process_ips_file(&content).unwrap_err(),
        SourceError::MissingData
    );
}

#[test]
fn parsing_twice_yields_the_same_sequence() {
    let content = b"3.3.3.3/8\n1.1.1.1/24\n2.2.2.2\n".to_vec();
    let first = process_ips_file(&content).unwrap();
    let second = process_ips_file(&content).unwrap();
    assert_eq!(first, second);
}

#[test]
fn target_splits_on_first_slash() {
    let content = b"example.com/file.bin\n".to_vec();
    let target = process_url_file(&content).unwrap();
    assert_eq!(target.domain, b"example.com".to_vec());
    assert_eq!(target.path, b"file.bin".to_vec());
}

#[test]
fn target_path_keeps_later_slashes() {
    let content = b"example.com/a/b/file.bin".to_vec();
    let target = process_url_file(&content).unwrap();
    assert_eq!(target.domain, b"example.com".to_vec());
    assert_eq!(target.path, b"a/b/file.bin".to_vec());
}

#[test]
fn target_without_slash_has_empty_path() {
    let content = b"example.com".to_vec();
    let target = process_url_file(&content).unwrap();
    assert_eq!(target.domain, b"example.com".to_vec());
    assert_eq!(target.path, b"".to_vec());
}

#[test]
fn empty_target_source_is_missing_data() {
    let content = Vec::new();
    assert_eq!(
        process_url_file(&content).unwrap_err(),
        SourceError::MissingData
    );
}

#[test]
fn split_lines_has_no_trailing_empty_line() {
    let content = b"a\nb\n".to_vec();
    assert_eq!(split_lines(&content), vec![b"a".to_vec(), b"b".to_vec()]);
    let content = b"a\nb".to_vec();
    assert_eq!(split_lines(&content), vec![b"a".to_vec(), b"b".to_vec()]);
}

#[test]
fn split_first_slash_on_slashless_line() {
    let (head, tail) = split_first_slash(&b"10.0.0.1".to_vec());
    assert_eq!(head, b"10.0.0.1".to_vec());
    assert_eq!(tail, b"".to_vec());
}

#[test]
fn shuffle_keeps_exactly_the_same_addresses() {
    let original: Vec<Vec<u8>> = vec![
        b"1.1.1.1".to_vec(),
        b"2.2.2.2".to_vec(),
        b"3.3.3.3".to_vec(),
        b"4.4.4.4".to_vec(),
        b"2.2.2.2".to_vec(),
        b"5.5.5.5".to_vec(),
    ];
    let mut shuffled = original.clone();
    shuffle_candidates(&mut shuffled);
    assert_eq!(shuffled.len(), original.len());
    let mut a = original.clone();
    let mut b = shuffled.clone();
    a.sort();
    b.sort();
    assert_eq!(a, b);
}
