use vault_benchmarks::all_targets;
use vault_benchmarks::list_benchmark_ids;
use vault_benchmarks::target_by_id;
use vault_benchmarks::targets_by_prefix;
use vault_benchmarks::BenchTarget;

#[test]
fn test_all_targets_not_empty() {
    let targets = all_targets();
    assert!(!targets.is_empty());
}

#[test]
fn test_targets_have_unique_ids() {
    let targets = all_targets();
    let mut ids: Vec<&str> = targets.iter().map(|t| t.id()).collect();
    let original_len = ids.len();
    ids.sort();
    ids.dedup();
    assert_eq!(ids.len(), original_len, "Duplicate target IDs found");
}

#[test]
fn test_target_by_prefix() {
    let encryption_targets = targets_by_prefix("encryption");
    assert!(!encryption_targets.is_empty());
    assert!(encryption_targets.iter().all(|t| t.id().starts_with("encryption")));
}

#[test]
fn test_target_by_id() {
    let target = target_by_id("encryption-1kb");
    assert!(target.is_some());
    assert_eq!(target.unwrap().id(), "encryption-1kb");
}

#[test]
fn test_list_benchmark_ids() {
    let ids = list_benchmark_ids();
    assert!(!ids.is_empty());
    assert!(ids.contains(&"encryption-1kb"));
    assert!(ids.contains(&"hashing-blake3-1mb"));
}

#[test]
fn catalog_is_in_canonical_order() {
    let ids: Vec<String> = all_targets().iter().map(|t| t.id().to_string()).collect();
    assert_eq!(
        ids,
        vec![
            "encryption-1kb",
            "encryption-1mb",
            "encryption-10mb",
            "hashing-blake3-1mb",
            "hashing-sha256-1mb",
            "checksum-verification-1mb",
            "anonymization-100-records",
            "anonymization-1000-records",
            "pii-detection-1000-records",
            "storage-write-1mb",
            "storage-read-1mb",
            "content-addressing-1mb",
        ]
    );
    assert_eq!(list_benchmark_ids(), ids);
}

#[test]
fn catalog_entries_have_their_configuration() {
    let targets = all_targets();
    match &targets[2] {
        vault_benchmarks::Target::Encryption(t) => {
            assert_eq!(t.data_size(), 10 * 1024 * 1024);
            assert_eq!(t.iterations(), 100);
        }
        other => panic!("unexpected {:?}", other),
    }
    match &targets[4] {
        vault_benchmarks::Target::Hashing(t) => {
            assert_eq!(t.data_size(), 1024 * 1024);
            assert_eq!(t.iterations(), 1000);
            assert_eq!(t.name(), "SHA-256 Hashing");
        }
        other => panic!("unexpected {:?}", other),
    }
    match &targets[8] {
        vault_benchmarks::Target::Anonymization(t) => {
            assert_eq!(t.record_count(), 1000);
            assert_eq!(t.iterations(), 10);
            assert_eq!(t.name(), "PII Detection");
        }
        other => panic!("unexpected {:?}", other),
    }
    match &targets[11] {
        vault_benchmarks::Target::Storage(t) => {
            assert_eq!(t.data_size(), 1024 * 1024);
            assert_eq!(t.name(), "Content Addressing");
        }
        other => panic!("unexpected {:?}", other),
    }
    assert_eq!(targets[0].name(), "AES-256-GCM Encryption");
    assert_eq!(targets[9].description(), "Measures storage write throughput");
}

#[test]
fn prefix_filter_is_case_sensitive_and_keeps_order() {
    let ids: Vec<String> = targets_by_prefix("anonymization-1").iter().map(|t| t.id().to_string()).collect();
    assert_eq!(ids, vec!["anonymization-100-records", "anonymization-1000-records"]);
    assert!(targets_by_prefix("Encryption").is_empty());
    assert!(targets_by_prefix("ncryption").is_empty());
    assert!(targets_by_prefix("encryption-1kbx").is_empty());
    assert_eq!(targets_by_prefix("").len(), 12);
    assert_eq!(targets_by_prefix("c").len(), 2);
}

#[test]
fn lookup_needs_the_whole_identifier() {
    assert!(target_by_id("encryption").is_none());
    assert!(target_by_id("encryption-1kb ").is_none());
    assert!(target_by_id("").is_none());
    assert_eq!(target_by_id("content-addressing-1mb").unwrap().id(), "content-addressing-1mb");
}

#[test]
fn every_catalog_identifier_is_found_and_not_empty() {
    for id in list_benchmark_ids() {
        assert!(!id.is_empty());
        assert_eq!(target_by_id(id).unwrap().id(), id);
    }
}

struct Bare {
    id: String,
}

impl BenchTarget for Bare {
    fn target(&self) -> vault_benchmarks::adapters::TargetView {
        unreachable!()
    }

    fn id(&self) -> &str {
        &self.id
    }
}

#[test]
fn a_target_without_a_name_of_its_own_shows_its_identifier() {
    let bare = Bare { id: "bare-target".to_string() };
    assert_eq!(bare.name(), "bare-target");
    assert_eq!(bare.description(), "");
}

#[test]
fn every_catalog_target_has_its_name_and_description() {
    let expected = [
        ("AES-256-GCM Encryption", "Measures AES-256-GCM encryption and decryption throughput"),
        ("AES-256-GCM Encryption", "Measures AES-256-GCM encryption and decryption throughput"),
        ("AES-256-GCM Encryption", "Measures AES-256-GCM encryption and decryption throughput"),
        ("BLAKE3 Hashing", "Measures BLAKE3 hashing throughput"),
        ("SHA-256 Hashing", "Measures SHA-256 hashing throughput"),
        ("Checksum Verification", "Measures checksum computation and verification"),
        ("Full Anonymization Pipeline", "Measures full PII detection and anonymization pipeline latency"),
        ("Full Anonymization Pipeline", "Measures full PII detection and anonymization pipeline latency"),
        ("PII Detection", "Measures PII detection throughput"),
        ("Storage Write", "Measures storage write throughput"),
        ("Storage Read", "Measures storage read throughput"),
        ("Content Addressing", "Measures content addressing (hash + store) throughput"),
    ];
    let targets = all_targets();
    assert_eq!(targets.len(), expected.len());
    for (target, (name, description)) in targets.iter().zip(expected) {
        assert_eq!(BenchTarget::name(target), name);
        assert_eq!(BenchTarget::description(target), description);
    }
}
