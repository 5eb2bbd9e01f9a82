use bevy_benchmark_games::random::FakeRand;

#[test]
fn fresh_sources_yield_the_same_bytes() {
    let mut a = FakeRand::new();
    let mut b = FakeRand::new();
    assert_eq!(a.next_bytes(16), b.next_bytes(16));
}

#[test]
fn fresh_sources_agree_across_wrap_arounds() {
    let mut a = FakeRand::new();
    let mut b = FakeRand::default();
    let x = a.next_bytes(500);
    let y = b.next_bytes(500);
    assert_eq!(x.len(), 500);
    assert_eq!(x, y);
}

#[test]
fn stream_cycles_through_the_buffer() {
    let mut a = FakeRand::new();
    let first = a.next_bytes(64);
    let second = a.next_bytes(64);
    assert_eq!(first, second);
    assert_eq!(first[0], 25);
    assert_eq!(first[63], 187);
}

#[test]
fn skip_then_read_matches_tail_of_longer_read() {
    for k in [0usize, 1, 5, 63, 64, 65, 200] {
        for n in [0usize, 1, 7, 64, 130] {
            let mut a = FakeRand::new();
            a.skip(k);
            let tail = a.next_bytes(n);
            let mut b = FakeRand::new();
            let whole = b.next_bytes(k + n);
            assert_eq!(tail, whole[k..].to_vec());
        }
    }
}

#[test]
fn next_u32_reads_four_little_endian_bytes() {
    let mut a = FakeRand::new();
    let mut b = FakeRand::new();
    let bytes = b.next_bytes(4);
    let expected = u32::from_le_bytes([bytes[0], bytes[1], bytes[2], bytes[3]]);
    assert_eq!(a.next_u32(), expected);
    assert_eq!(a.next_u32(), 0x7cd5ae01);
}

#[test]
fn next_u64_reads_eight_little_endian_bytes() {
    let mut a = FakeRand::new();
    a.skip(60);
    let mut b = FakeRand::new();
    b.skip(60);
    let bytes = b.next_bytes(8);
    let mut arr = [0u8; 8];
    arr.copy_from_slice(&bytes);
    assert_eq!(a.next_u64(), u64::from_le_bytes(arr));
}

#[test]
fn fill_bytes_matches_next_bytes() {
    let mut a = FakeRand::new();
    let mut b = FakeRand::new();
    let mut buf = [0u8; 100];
    a.fill_bytes(&mut buf);
    assert_eq!(buf.to_vec(), b.next_bytes(100));
    assert_eq!(a.next_bytes(3), b.next_bytes(3));
}

#[test]
fn cloned_source_continues_identically() {
    let mut a = FakeRand::new();
    a.skip(10);
    let mut b = a.clone();
    assert_eq!(a.next_bytes(20), b.next_bytes(20));
}
