use std::collections::HashSet;

use ipc_bootstrap::names::{generated_path, socket_file_name, u64_to_decimal};

#[test]
fn decimal_zero() {
    assert_eq!(u64_to_decimal(0), "0");
}

#[test]
fn decimal_single_digits() {
    let expected = ["0", "1", "2", "3", "4", "5", "6", "7", "8", "9"];
    for d in 0..10u64 {
        assert_eq!(u64_to_decimal(d), expected[d as usize]);
    }
}

#[test]
fn decimal_multi_digit() {
    assert_eq!(u64_to_decimal(10), "10");
    assert_eq!(u64_to_decimal(100), "100");
    assert_eq!(u64_to_decimal(1600000000), "1600000000");
}

#[test]
fn decimal_max_u64() {
    assert_eq!(u64_to_decimal(u64::MAX), "18446744073709551615");
}

#[test]
fn socket_file_name_format() {
    assert_eq!(socket_file_name(5, 7), ".rust-unix-ipc.5-7.sock");
    assert_eq!(
        socket_file_name(1600000000, 4242424242),
        ".rust-unix-ipc.1600000000-4242424242.sock"
    );
}

#[test]
fn generated_path_format() {
    assert_eq!(
        generated_path("/tmp", 1600000000, 42),
        "/tmp/.rust-unix-ipc.1600000000-42.sock"
    );
}

#[test]
fn generated_paths_pairwise_distinct_within_one_second() {
    let mut seen: HashSet<String> = HashSet::new();
    for token in 0..1000u64 {
        let p = generated_path("/tmp", 12345, token);
        assert!(seen.insert(p), "generated paths must be pairwise distinct");
    }
}
