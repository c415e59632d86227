use hodu::device::{device_type, host_triple, parse_device_id, BuildTarget};

#[test]
fn test_parse_device_id() {
    assert_eq!(parse_device_id("cuda::0"), Some(0));
    assert_eq!(parse_device_id("cuda::1"), Some(1));
    assert_eq!(parse_device_id("rocm::2"), Some(2));
    assert_eq!(parse_device_id("cpu"), None);
    assert_eq!(parse_device_id("metal"), None);
    assert_eq!(parse_device_id("cuda::invalid"), None);
}

#[test]
fn test_device_type() {
    assert_eq!(device_type("cuda::0"), "cuda");
    assert_eq!(device_type("cuda::1"), "cuda");
    assert_eq!(device_type("rocm::0"), "rocm");
    assert_eq!(device_type("cpu"), "cpu");
    assert_eq!(device_type("metal"), "metal");
    assert_eq!(device_type("webgpu"), "webgpu");
}

#[test]
fn test_build_target_new() {
    let target = BuildTarget::new("x86_64-unknown-linux-gnu", "cuda::0");
    assert_eq!(target.triple, "x86_64-unknown-linux-gnu");
    assert_eq!(target.device, "cuda::0");
}

#[test]
fn test_build_target_host() {
    let target = BuildTarget::for_host("x86_64", "linux", "cpu");
    assert_eq!(target.device, "cpu");
    assert!(!target.triple.is_empty());
}

#[test]
fn test_current_host_triple() {
    let triple = host_triple("aarch64", "macos");
    assert!(!triple.is_empty());
    // Should contain architecture and OS
    assert!(triple.contains('-'));
}

#[test]
fn device_id_large_and_edge_indices() {
    assert_eq!(parse_device_id("cuda::42"), Some(42));
    assert_eq!(parse_device_id("rocm::18446744073709551615"), Some(usize::MAX));
    assert_eq!(parse_device_id("rocm::18446744073709551616"), None);
    assert_eq!(parse_device_id("cuda::"), None);
    assert_eq!(parse_device_id("cuda::3::1"), Some(3));
    assert_eq!(parse_device_id("cuda::-1"), None);
}

#[test]
fn device_type_with_extra_segments() {
    assert_eq!(device_type("vulkan::0::1"), "vulkan");
    assert_eq!(device_type(""), "");
    assert_eq!(device_type("::0"), "");
}

#[test]
fn host_triples_of_the_supported_matrix() {
    assert_eq!(host_triple("x86_64", "linux"), "x86_64-unknown-linux-gnu");
    assert_eq!(host_triple("aarch64", "linux"), "aarch64-unknown-linux-gnu");
    assert_eq!(host_triple("x86_64", "macos"), "x86_64-apple-darwin");
    assert_eq!(host_triple("aarch64", "macos"), "aarch64-apple-darwin");
    assert_eq!(host_triple("x86_64", "windows"), "x86_64-pc-windows-msvc");
    assert_eq!(host_triple("riscv64", "linux"), "unknown");
}
