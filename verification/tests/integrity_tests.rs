use lib::linux_integrity::{
    check_linux_kernel_text_hash, check_linux_module_text_hashes, check_text_hashes,
    LinuxTextHashStatus,
};
use lib::linux_vmi::{LinuxTextRange, LinuxVmiError, MemoryReadError, SyntheticLinuxVirtualMemory};
use lib::sha256::{sha256_bytes, sha256_hex};

const ABC: &str = "ba7816bf8f01cfea414140de5dae2223b00361a396177a9cb410ff61f20015ad";

fn range(owner: &str, start: u64, end: u64) -> LinuxTextRange {
    LinuxTextRange { owner: owner.to_string(), start, end }
}

#[test]
fn sha256_matches_known_digests() {
    assert_eq!(
        sha256_hex(b""),
        "e3b0c44298fc1c149afbf4c8996fb92427ae41e4649b934ca495991b7852b855"
    );
    assert_eq!(sha256_hex(b"abc"), ABC);
    assert_eq!(
        sha256_hex(b"abcdbcdecdefdefgefghfghighijhijkijkljklmklmnlmnomnopnopq"),
        "248d6a61d20638b8e5c026930c3e6039a33ce45964ff2167f6ecedd419db06c1"
    );
    let many = vec![b'a'; 1000];
    assert_eq!(
        sha256_hex(&many),
        "41edece42d63e8d9bf515a9ba6932e1c20cbc9f5a5d134645adb5db1b9737ea3"
    );
    assert_eq!(sha256_bytes(b"abc").len(), 32);
}

#[test]
fn text_hash_check_reports_match_mismatch_and_unknown_baselines() {
    let mut mem = SyntheticLinuxVirtualMemory::new();
    mem.map_range(0x1000, b"abc".to_vec()).unwrap();
    mem.map_range(0x2000, b"xyz".to_vec()).unwrap();
    let ranges = vec![range("vmlinux", 0x1000, 0x1003), range("ext4", 0x2000, 0x2003), range("nf", 0x1000, 0x1002)];
    let baselines = vec![
        ("vmlinux".to_string(), ABC.to_uppercase()),
        ("nf".to_string(), "00".to_string()),
    ];
    let report = check_text_hashes(&mem, &ranges, &baselines).unwrap();
    assert!(!report.ok);
    assert_eq!(report.results[0].status, LinuxTextHashStatus::Match);
    assert_eq!(report.results[0].sha256, ABC);
    assert_eq!(report.results[1].status, LinuxTextHashStatus::UnknownBaseline);
    assert_eq!(report.results[2].status, LinuxTextHashStatus::Mismatch);
    assert_eq!(
        report.findings,
        vec![
            "text range 'ext4' hash status is unknown_baseline".to_string(),
            "text range 'nf' hash status is mismatch".to_string(),
        ]
    );

    let kernel = check_linux_kernel_text_hash(&mem, &ranges, &baselines).unwrap();
    assert!(kernel.ok);
    assert_eq!(kernel.results.len(), 1);
    let modules = check_linux_module_text_hashes(&mem, &ranges, &baselines).unwrap();
    assert_eq!(modules.results.len(), 2);
}

#[test]
fn text_hash_check_rejects_inverted_and_unmapped_ranges() {
    let mut mem = SyntheticLinuxVirtualMemory::new();
    mem.map_range(0x1000, b"abc".to_vec()).unwrap();
    let err = check_text_hashes(&mem, &[range("vmlinux", 0x1003, 0x1003)], &Vec::new()).unwrap_err();
    assert_eq!(
        err,
        LinuxVmiError::InconsistentSnapshot { detail: "text range 'vmlinux' is empty or inverted".to_string() }
    );
    let err = check_text_hashes(&mem, &[range("vmlinux", 0x1000, 0x1005)], &Vec::new()).unwrap_err();
    assert_eq!(err, LinuxVmiError::Memory(MemoryReadError::Unmapped { gpa: 0x1003, len: 2 }));
}
