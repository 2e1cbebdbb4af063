use cert_machine::cert::Bundle;
use cert_machine::kubeconfig::{create_kubeconfig, encodable, KubeconfigParameters};

#[test]
fn kubeconfig_values() {
    let client = Box::new(Bundle { cert: b"hello".to_vec(), key: b"key".to_vec(), serial_number: Some(1), issuer: None });
    let authority = Box::new(Bundle { cert: b"authority".to_vec(), key: Vec::new(), serial_number: Some(0), issuer: None });
    let params = KubeconfigParameters {
        apiserver_address: "10.0.0.1:6443",
        cluster_name: "test",
        username: "admin",
        cert: &client,
        ca_cert: &authority,
        kubeconfig_filename: "admin.kubeconfig",
    };
    let k = create_kubeconfig(&params).unwrap();
    assert_eq!(k.server, "https://10.0.0.1:6443");
    assert_eq!(k.cluster_name, "test");
    assert_eq!(k.username, "admin");
    assert_eq!(k.client_certificate_data, "aGVsbG8=");
    assert_eq!(k.client_key_data, "a2V5");
    assert_eq!(k.certificate_authority_data, "YXV0aG9yaXR5");
}

#[test]
fn kubeconfig_of_empty_bundles() {
    let empty = Box::new(Bundle { cert: Vec::new(), key: Vec::new(), serial_number: Some(0), issuer: None });
    let params = KubeconfigParameters {
        apiserver_address: "",
        cluster_name: "",
        username: "",
        cert: &empty,
        ca_cert: &empty,
        kubeconfig_filename: "",
    };
    let k = create_kubeconfig(&params).unwrap();
    assert_eq!(k.server, "https://");
    assert_eq!(k.client_certificate_data, "");
    assert_eq!(k.client_key_data, "");
    assert_eq!(k.certificate_authority_data, "");
}

#[test]
fn every_vector_that_fits_memory_is_encodable() {
    assert!(encodable(&Vec::new()));
    assert!(encodable(&vec![0u8; 1000]));
    assert!(encodable(&b"\xff\xfe\xfd".to_vec()));
}
