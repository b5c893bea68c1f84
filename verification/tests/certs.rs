use privaxy::authority::Authority;
use privaxy::ca::make_ca_certificate;
use privaxy::cert::CertCache;

fn authority(host: &str, port: u16) -> Authority {
    Authority { host: host.to_string(), port: Some(port) }
}

#[test]
fn the_generated_ca_is_a_pem_pair() {
    let (cert_pem, key_pem) = make_ca_certificate().unwrap();
    assert!(cert_pem.starts_with("-----BEGIN CERTIFICATE-----"));
    assert!(key_pem.contains("PRIVATE KEY-----"));
}

#[test]
fn over_long_hosts_get_the_stand_in_common_name() {
    let long_host = "a".repeat(65);
    assert_eq!(
        privaxy::cert::common_name_for_host(&long_host),
        "privaxy_cn_too_long.local"
    );
    let ok_host = "b".repeat(64);
    assert_eq!(privaxy::cert::common_name_for_host(&ok_host), ok_host);
}

#[test]
fn the_cache_rejects_garbage_ca_material() {
    let (cert_pem, key_pem) = make_ca_certificate().unwrap();
    assert!(CertCache::new("not a pem", &key_pem).is_err());
    assert!(CertCache::new(&cert_pem, "not a pem").is_err());
    assert!(CertCache::new("", "").is_err());
}

#[test]
fn lookup_misses_before_and_hits_after_a_get() {
    let (cert_pem, key_pem) = make_ca_certificate().unwrap();
    let mut cache = CertCache::new(&cert_pem, &key_pem).unwrap();
    assert!(cache.lookup(&authority("www.example.com", 443)).is_none());
    let first = cache.get(&authority("www.example.com", 443)).unwrap();
    let looked = cache.lookup(&authority("www.example.com", 443)).unwrap();
    assert_eq!(first.leaf_der, looked.leaf_der);
}

#[test]
fn two_consecutive_lookups_return_the_same_leaf_bytes() {
    let (cert_pem, key_pem) = make_ca_certificate().unwrap();
    let mut cache = CertCache::new(&cert_pem, &key_pem).unwrap();
    let first = cache.get(&authority("www.example.com", 443)).unwrap();
    let second = cache.get(&authority("www.example.com", 443)).unwrap();
    assert_eq!(first.leaf_der, second.leaf_der);
    assert_eq!(first.authority.host, "www.example.com");
    assert_eq!(second.authority.port, Some(443));
}

#[test]
fn distinct_authorities_get_distinct_leaves() {
    let (cert_pem, key_pem) = make_ca_certificate().unwrap();
    let mut cache = CertCache::new(&cert_pem, &key_pem).unwrap();
    let a = cache.get(&authority("a.example.com", 443)).unwrap();
    let b = cache.get(&authority("b.example.com", 443)).unwrap();
    assert_ne!(a.leaf_der, b.leaf_der);
    // Both stay cached: looking either up again changes nothing.
    let a2 = cache.get(&authority("a.example.com", 443)).unwrap();
    assert_eq!(a.leaf_der, a2.leaf_der);
}

#[test]
fn ip_hosts_are_minted_too() {
    let (cert_pem, key_pem) = make_ca_certificate().unwrap();
    let mut cache = CertCache::new(&cert_pem, &key_pem).unwrap();
    let entry = cache.get(&authority("192.168.0.1", 443)).unwrap();
    assert!(!entry.leaf_der.is_empty());
}
