use securitytxtcrawl::source::acquire;
use securitytxtcrawl::source::parse_list_bytes;
use securitytxtcrawl::source::shuffle_domains;
use securitytxtcrawl::DomainListError;

#[test]
fn parse_keeps_file_order() {
    let text = b"10,one.test\n20,two.test\n30,three.test\n".to_vec();
    let domains = parse_list_bytes(&text).unwrap();
    assert_eq!(
        domains,
        vec!["one.test".to_string(), "two.test".to_string(), "three.test".to_string()]
    );
}

#[test]
fn parse_handles_crlf_and_blank_lines() {
    let text = b"1,a.test\r\n\r\n2,b.test\r\n".to_vec();
    let domains = parse_list_bytes(&text).unwrap();
    assert_eq!(domains, vec!["a.test".to_string(), "b.test".to_string()]);
}

#[test]
fn parse_takes_second_column_only() {
    let text = b"1,a.test,extra-column\n".to_vec();
    let domains = parse_list_bytes(&text).unwrap();
    assert_eq!(domains, vec!["a.test".to_string()]);
}

#[test]
fn parse_without_trailing_newline() {
    let text = b"1,a.test".to_vec();
    let domains = parse_list_bytes(&text).unwrap();
    assert_eq!(domains, vec!["a.test".to_string()]);
}

#[test]
fn empty_text_is_an_empty_list() {
    let domains = parse_list_bytes(&Vec::new()).unwrap();
    assert!(domains.is_empty());
}

#[test]
fn short_record_rejects_the_whole_list() {
    let text = b"1,a.test\nno-second-column\n2,b.test\n".to_vec();
    assert_eq!(parse_list_bytes(&text).unwrap_err(), DomainListError::Malformed);
}

#[test]
fn non_utf8_rejects_the_list() {
    let text = vec![0xff, 0xfe, 0x2c, 0x41];
    assert_eq!(parse_list_bytes(&text).unwrap_err(), DomainListError::Malformed);
}

#[test]
fn shuffle_keeps_length_and_elements() {
    let mut domains: Vec<String> = (0..50).map(|i| format!("d{}.test", i)).collect();
    let mut expected = domains.clone();
    expected.sort();
    shuffle_domains(&mut domains);
    assert_eq!(domains.len(), 50);
    let mut sorted = domains.clone();
    sorted.sort();
    assert_eq!(sorted, expected);
}

#[test]
fn acquire_local_list_is_a_permutation() {
    let r = acquire(Some(b"1,a.test\n2,b.test\n".to_vec()), None);
    match r {
        Ok(a) => {
            assert!(a.cache.is_none());
            let mut domains = a.domains;
            domains.sort();
            assert_eq!(domains, vec!["a.test".to_string(), "b.test".to_string()]);
        }
        Err(_) => panic!("a well-formed local list must parse"),
    }
}

#[test]
fn acquire_malformed_local_list_fails() {
    match acquire(Some(b"only-one-column\n".to_vec()), None) {
        Err(e) => assert_eq!(e, DomainListError::Malformed),
        Ok(_) => panic!("a one-column record must reject the list"),
    }
}

#[test]
fn no_source_is_a_setup_error() {
    match acquire(None, None) {
        Err(e) => assert_eq!(e, DomainListError::NoSource),
        Ok(_) => panic!("nothing to acquire from"),
    }
}

fn zip_of(name: &str, contents: &[u8]) -> Vec<u8> {
    let mut writer = zip::ZipWriter::new(std::io::Cursor::new(Vec::new()));
    writer
        .start_file(name, zip::write::SimpleFileOptions::default())
        .unwrap();
    std::io::Write::write_all(&mut writer, contents).unwrap();
    writer.finish().unwrap().into_inner()
}

#[test]
fn acquire_from_archive_decompresses_and_caches() {
    let csv = b"1,a.test\n2,b.test\n";
    let archive = zip_of("top.csv", csv);
    assert_ne!(archive.as_slice(), csv.as_slice());
    match acquire(None, Some(archive)) {
        Ok(a) => {
            assert_eq!(a.cache.as_deref(), Some(csv.as_slice()));
            let mut domains = a.domains;
            domains.sort();
            assert_eq!(domains, vec!["a.test".to_string(), "b.test".to_string()]);
        }
        Err(_) => panic!("a readable archive must parse"),
    }
}

#[test]
fn unreadable_archive_is_an_error() {
    match acquire(None, Some(vec![1, 2, 3, 4])) {
        Err(e) => assert_eq!(e, DomainListError::Archive),
        Ok(_) => panic!("garbage is not an archive"),
    }
}
