use cert_machine::config_parser::{ca_key_size, cert_key_size, find_instance, out_dir, overwrite_false, Instance};

fn host(hostname: &str, filename: Option<&str>, san: &[&str]) -> Instance {
    Instance {
        filename: filename.map(|s| s.to_string()),
        hostname: hostname.to_string(),
        san: san.iter().map(|s| s.to_string()).collect(),
    }
}

#[test]
fn defaults() {
    assert_eq!(cert_key_size(), 2048);
    assert_eq!(ca_key_size(), 4096);
    assert!(!overwrite_false());
    assert_eq!(out_dir(), "certs");
}

#[test]
fn directory_name_of_a_host() {
    assert_eq!(host("node1.example.org", None, &[]).dir_name(), "node1.example.org");
    assert_eq!(host("node1.example.org", Some("node1"), &[]).dir_name(), "node1");
    assert_eq!(host("node1", Some(""), &[]).dir_name(), "");
}

#[test]
fn find_instance_by_hostname() {
    let list = vec![host("node1", None, &["a"]), host("node2", None, &["b"]), host("node3", None, &["c"])];
    assert_eq!(find_instance(&list, "node2"), Some(&list[1]));
    assert_eq!(find_instance(&list, "node1"), Some(&list[0]));
    assert_eq!(find_instance(&list, "node3"), Some(&list[2]));
    assert_eq!(find_instance(&list, "node4"), None);
    assert_eq!(find_instance(&list, "Node1"), None);
    assert_eq!(find_instance(&list, ""), None);
    assert_eq!(find_instance(&Vec::new(), "node1"), None);
}

#[test]
fn find_instance_takes_the_last_of_a_name() {
    let list = vec![host("node1", None, &["first"]), host("node2", None, &[]), host("node1", Some("x"), &["last"])];
    let found = find_instance(&list, "node1").unwrap();
    assert_eq!(found.san, vec!["last".to_string()]);
    assert!(std::ptr::eq(found, &list[2]));
}

#[test]
fn find_instance_ignores_the_file_name() {
    let list = vec![host("node1.example.org", Some("node1"), &[])];
    assert_eq!(find_instance(&list, "node1"), None);
    assert_eq!(find_instance(&list, "node1.example.org"), Some(&list[0]));
}
