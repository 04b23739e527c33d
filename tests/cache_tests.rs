use machina::bytes::{find_subsequence, le_bytes};
use machina::cache::{Cache, STUB};
use machina::error::CacheError;

// `mov rax, imm32` for x86-64: REX.W C7 /0 followed by the immediate.
fn mov_rax(imm: u32) -> Vec<u8> {
    let mut v = vec![0x48, 0xc7, 0xc0];
    v.extend_from_slice(&imm.to_le_bytes());
    v
}

#[test]
fn insert() {
    let mut cache = Cache::new(false);
    cache.insert("mov_rax_3".to_string(), mov_rax(3));
    let code = cache.get("mov_rax_3".to_string()).unwrap();
    assert_eq!(code, mov_rax(3));
}

#[test]
fn insert_with_stub() {
    let mut cache = Cache::new(false);
    cache.insert_with_stub("mov_rax_x".to_string(), mov_rax(STUB as u32));
    let code = cache.get("mov_rax_x".to_string()).unwrap();
    assert_eq!(code, mov_rax(STUB as u32));
}

#[test]
fn get_stub() {
    let mut cache = Cache::new(false);
    cache.insert_with_stub("mov_rax_x".to_string(), mov_rax(STUB as u32));
    let code = cache.get_stub("mov_rax_x".to_string(), 0x00000000).unwrap();
    assert_eq!(code, mov_rax(0x00000000));
}

#[test]
fn insert_bytes_read_back() {
    let mut cache = Cache::new(true);
    cache.insert("a".to_string(), vec![]);
    assert_eq!(cache.get("a".to_string()).unwrap(), Vec::<u8>::new());
    cache.insert("a".to_string(), vec![0x00, 0xff, 0x13, 0x37]);
    assert_eq!(cache.get("a".to_string()).unwrap(), vec![0x00, 0xff, 0x13, 0x37]);
}

#[test]
fn template_bytes_are_literal() {
    assert_eq!(mov_rax(STUB as u32), vec![0x48, 0xc7, 0xc0, 0x37, 0x13, 0x37, 0x13]);
    assert_eq!(STUB, 0x13371337);
}

#[test]
fn get_missing_name_fails() {
    let cache = Cache::new(false);
    assert_eq!(cache.get("nothing".to_string()), Err(CacheError::NotFound));
}

#[test]
fn get_stub_patches_other_value() {
    let mut cache = Cache::new(false);
    cache.insert_with_stub("mov_rax_x".to_string(), mov_rax(STUB as u32));
    let code = cache.get_stub("mov_rax_x".to_string(), 0x69696969).unwrap();
    assert_eq!(code, vec![0x48, 0xc7, 0xc0, 0x69, 0x69, 0x69, 0x69]);
    // The stored template stays as it was.
    assert_eq!(cache.get("mov_rax_x".to_string()).unwrap(), mov_rax(STUB as u32));
}

#[test]
fn get_stub_patches_first_occurrence_only() {
    let mut cache = Cache::new(false);
    let template = vec![0x90, 0x37, 0x13, 0x37, 0x13, 0x37, 0x13, 0x37, 0x13, 0xc3];
    cache.insert_with_stub("twice".to_string(), template);
    let code = cache.get_stub("twice".to_string(), 0x04030201).unwrap();
    assert_eq!(code, vec![0x90, 0x01, 0x02, 0x03, 0x04, 0x37, 0x13, 0x37, 0x13, 0xc3]);
}

#[test]
fn get_stub_missing_name_fails() {
    let mut cache = Cache::new(true);
    assert_eq!(cache.get_stub("missing".to_string(), 0), Err(CacheError::NotFound));
}

#[test]
fn get_stub_without_marker_bytes_fails() {
    let mut cache = Cache::new(false);
    // The marker's bytes were altered: 0x13371338 no longer matches.
    cache.insert_with_stub("x".to_string(), mov_rax(0x13371338));
    assert_eq!(cache.get_stub("x".to_string(), 5), Err(CacheError::MarkerNotFound));
}

#[test]
fn get_stub_on_untagged_entry_fails() {
    let mut cache = Cache::new(false);
    cache.insert("plain".to_string(), mov_rax(STUB as u32));
    assert_eq!(
        cache.get_stub("plain".to_string(), 5),
        Err(CacheError::InvalidOperationForEntry)
    );
}

#[test]
fn set_stub_applies_to_later_inserts_only() {
    let mut cache = Cache::new(false);
    cache.insert_with_stub("old".to_string(), mov_rax(STUB as u32));
    cache.set_stub(0x31313131);
    cache.insert_with_stub("new".to_string(), mov_rax(0x31313131));
    assert_eq!(cache.get_stub("old".to_string(), 7).unwrap(), mov_rax(7));
    assert_eq!(cache.get_stub("new".to_string(), 9).unwrap(), mov_rax(9));
}

#[test]
fn marker_uses_low_four_bytes_of_value() {
    let mut cache = Cache::new(false);
    cache.insert_with_stub("x".to_string(), mov_rax(STUB as u32));
    let code = cache.get_stub("x".to_string(), 0xaabbccdd).unwrap();
    assert_eq!(code, mov_rax(0xaabbccdd));
}

#[test]
fn optimized_get_stub_repeats_result() {
    let mut cache = Cache::new(true);
    cache.insert_with_stub("x".to_string(), mov_rax(STUB as u32));
    let first = cache.get_stub("x".to_string(), 0x1234).unwrap();
    let second = cache.get_stub("x".to_string(), 0x1234).unwrap();
    assert_eq!(first, second);
    assert_eq!(first, mov_rax(0x1234));
    let other = cache.get_stub("x".to_string(), 0x99).unwrap();
    assert_eq!(other, mov_rax(0x99));
}

#[test]
fn optimized_get_stub_serves_kept_result() {
    let mut cache = Cache::new(true);
    cache.insert_with_stub("x".to_string(), mov_rax(STUB as u32));
    let first = cache.get_stub("x".to_string(), 0x1234).unwrap();
    // The kept result is served even once the template is replaced.
    cache.insert("x".to_string(), vec![0xc3]);
    assert_eq!(cache.get_stub("x".to_string(), 0x1234).unwrap(), first);
    assert_eq!(cache.get_stub("x".to_string(), 0x1), Err(CacheError::InvalidOperationForEntry));
}

#[test]
fn find_subsequence_lowest_index() {
    let hay = [1u8, 2, 3, 1, 2, 3];
    assert_eq!(find_subsequence(&hay, &[2, 3]), Some(1));
    assert_eq!(find_subsequence(&hay, &[3, 1, 2, 3]), Some(2));
    assert_eq!(find_subsequence(&hay, &[3, 2]), None);
    assert_eq!(find_subsequence(&hay, &[]), Some(0));
    assert_eq!(find_subsequence(&[1u8, 2], &[1, 2, 3]), None);
    assert_eq!(find_subsequence(&hay, &hay), Some(0));
}

#[test]
fn le_bytes_low_four_bytes() {
    assert_eq!(le_bytes(0x13371337), vec![0x37, 0x13, 0x37, 0x13]);
    assert_eq!(le_bytes(0x1122334455667788), vec![0x88, 0x77, 0x66, 0x55]);
    assert_eq!(le_bytes(0), vec![0, 0, 0, 0]);
}
