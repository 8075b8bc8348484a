use counting_bloom_filter::hashing::{hash_probe, leading_word, slot_from_digest, to_le_bytes};
use counting_bloom_filter::CountingBloomFilter;
use std::collections::hash_map::DefaultHasher;
use std::hash::{Hash, Hasher};

fn expected_slot(item: &[u8], probe: usize, size: usize) -> usize {
    let mut hasher = DefaultHasher::new();
    hasher.write(item);
    hasher.write(&(probe as u64).to_le_bytes());
    let digest = md5::compute(hasher.finish().to_le_bytes());
    let mut head = [0u8; 8];
    head.copy_from_slice(&digest.0[..8]);
    (u64::from_le_bytes(head) as usize) % size
}

#[test]
fn le_bytes_of_known_values() {
    assert_eq!(to_le_bytes(0), [0u8; 8]);
    assert_eq!(to_le_bytes(0x0102), [2, 1, 0, 0, 0, 0, 0, 0]);
    assert_eq!(to_le_bytes(0x0102_0304_0506_0708), [8, 7, 6, 5, 4, 3, 2, 1]);
    assert_eq!(to_le_bytes(u64::MAX), [0xff; 8]);
}

#[test]
fn le_bytes_agree_with_std() {
    for x in [1u64, 255, 256, 65_535, 65_536, 0xdead_beef, 0x8000_0000_0000_0000, u64::MAX - 1] {
        assert_eq!(to_le_bytes(x), x.to_le_bytes());
    }
}

#[test]
fn leading_word_of_known_digests() {
    let mut digest = [9u8; 16];
    digest[..8].copy_from_slice(&[1, 1, 0, 0, 0, 0, 0, 0]);
    assert_eq!(leading_word(&digest), 257);
    assert_eq!(leading_word(&[0xff; 16]), u64::MAX);
    assert_eq!(leading_word(&[0; 16]), 0);
    let mut high = [0u8; 16];
    high[7] = 0x80;
    assert_eq!(leading_word(&high), 0x8000_0000_0000_0000);
}

#[test]
fn leading_word_ignores_the_tail() {
    let mut a = [0u8; 16];
    let mut b = [0u8; 16];
    a[8] = 1;
    b[15] = 200;
    assert_eq!(leading_word(&a), leading_word(&b));
}

#[test]
fn slot_from_digest_of_known_values() {
    let mut digest = [9u8; 16];
    digest[..8].copy_from_slice(&[1, 1, 0, 0, 0, 0, 0, 0]);
    assert_eq!(slot_from_digest(&digest, 10), 7);
    assert_eq!(slot_from_digest(&digest, 1), 0);
    assert_eq!(slot_from_digest(&digest, 1000), 257);
    assert_eq!(slot_from_digest(&[0xff; 16], 1000), (u64::MAX % 1000) as usize);
    assert_eq!(slot_from_digest(&[0xff; 16], 1000), 615);
}

#[test]
fn hash_probe_feeds_item_then_probe_number() {
    for (item, probe) in [(&b"a"[..], 0usize), (&b"a"[..], 1), (&b""[..], 0), (&b"hello world"[..], 41)] {
        let mut hasher = DefaultHasher::new();
        hasher.write(item);
        hasher.write(&(probe as u64).to_le_bytes());
        assert_eq!(hash_probe(item, probe), hasher.finish());
    }
}

#[test]
fn hash_probe_tells_probes_apart() {
    assert_ne!(hash_probe(b"a", 0), hash_probe(b"a", 1));
    assert_ne!(hash_probe(b"a", 0), hash_probe(b"b", 0));
}

#[test]
fn get_hash_runs_the_digest() {
    for size in [1usize, 2, 7, 1000, 1_000_000] {
        let filter = CountingBloomFilter::new(size, 5);
        for probe in 0..5usize {
            for item in [&b"a"[..], &b"b"[..], &b"counting"[..], &b""[..]] {
                let slot = filter.get_hash(item, probe);
                assert!(slot < size);
                assert_eq!(slot, expected_slot(item, probe, size));
            }
        }
    }
}

#[test]
fn get_hash_is_not_the_plain_hash() {
    // The digest step matters: reducing the hasher's output directly gives
    // other positions for at least one of these probes.
    let size = 1_000_003usize;
    let filter = CountingBloomFilter::new(size, 16);
    let differs = (0..16usize).any(|probe| {
        filter.get_hash(b"digest", probe) != (hash_probe(b"digest", probe) as usize) % size
    });
    assert!(differs);
}

#[test]
fn get_hash_is_stable() {
    let filter = CountingBloomFilter::new(4096, 5);
    for probe in 0..5usize {
        assert_eq!(filter.get_hash(b"stable", probe), filter.get_hash(b"stable", probe));
    }
}

#[test]
fn uuid_bytes_hash_as_the_uuid_does() {
    let id = uuid::Uuid::from_bytes([
        0x12, 0x34, 0x56, 0x78, 0x9a, 0xbc, 0x4d, 0xef, 0x80, 0x01, 0x02, 0x03, 0x04, 0x05, 0x06,
        0x07,
    ]);
    // The standard hasher is fed a `usize` in the machine's own layout, which
    // is eight little-endian bytes on the machines this comparison is for.
    let same_layout = std::mem::size_of::<usize>() == 8 && u16::from_ne_bytes([1, 0]) == 1;
    for probe in 0..5usize {
        let mut hasher = DefaultHasher::new();
        id.hash(&mut hasher);
        probe.hash(&mut hasher);
        if same_layout {
            assert_eq!(hash_probe(id.as_bytes(), probe), hasher.finish());
        }
    }
}
