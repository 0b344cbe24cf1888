use std::hash::{Hash, Hasher};

use shardlabel::identity::identity_bytes;
use shardlabel::shard::{identity_hash, label_value, shard_index, shard_label};

fn fnv1a_by_hand(bytes: &[u8]) -> u64 {
    let mut state: u64 = 0xcbf2_9ce4_8422_2325;
    for byte in bytes {
        state ^= u64::from(*byte);
        state = state.wrapping_mul(0x0000_0100_0000_01b3);
    }
    state
}

#[test]
fn encodes_namespace_then_name() {
    let mut expected = vec![1u8, 0, 0, 0, 0, 0, 0, 0];
    expected.extend_from_slice(b"ns1");
    expected.push(0xff);
    expected.extend_from_slice(&[1, 0, 0, 0, 0, 0, 0, 0]);
    expected.extend_from_slice(b"foo");
    expected.push(0xff);
    assert_eq!(identity_bytes(Some("ns1"), "foo"), expected);
}

#[test]
fn encodes_a_missing_namespace_as_a_zero_word() {
    let mut expected = vec![0u8; 8];
    expected.extend_from_slice(&[1, 0, 0, 0, 0, 0, 0, 0]);
    expected.extend_from_slice("n\u{e9}".as_bytes());
    expected.push(0xff);
    assert_eq!(identity_bytes(None, "n\u{e9}"), expected);
}

#[test]
fn keeps_missing_and_empty_namespace_apart() {
    assert_ne!(identity_bytes(None, "foo"), identity_bytes(Some(""), "foo"));
    assert_ne!(identity_hash(None, "foo"), identity_hash(Some(""), "foo"));
}

#[test]
fn keeps_field_boundaries_apart() {
    assert_ne!(identity_bytes(Some("a"), "bc"), identity_bytes(Some("ab"), "c"));
    assert_ne!(identity_bytes(Some(""), "abc"), identity_bytes(Some("abc"), ""));
    assert_ne!(identity_hash(Some("a"), "bc"), identity_hash(Some("ab"), "c"));
}

#[test]
fn hashes_the_encoding_with_fnv1a() {
    assert_eq!(identity_hash(Some("ns1"), "foo"), 0xed41_9185_2ecc_12bb);
    assert_eq!(identity_hash(None, "foo"), 0xbf19_8c40_d959_f069);
    assert_eq!(identity_hash(Some(""), "foo"), 0xeca5_b5b2_3db5_48e5);
    for (namespace, name) in [(Some("kube-system"), "coredns"), (None, "node-1"), (Some(""), "")] {
        let bytes = identity_bytes(namespace, name);
        assert_eq!(identity_hash(namespace, name), fnv1a_by_hand(&bytes));
    }
}

#[test]
fn hashes_like_the_pair_of_optional_strings() {
    for (namespace, name) in [(Some("ns1"), "foo"), (None, "foo"), (Some(""), "x")] {
        let mut hasher = fnv::FnvHasher::default();
        (namespace, Some(name)).hash(&mut hasher);
        assert_eq!(identity_hash(namespace, name), hasher.finish());
    }
}

#[test]
fn deployment_in_four_shards() {
    assert_eq!(shard_index(Some("ns1"), "foo", 4), 3);
    assert_eq!(shard_label(Some("ns1"), "foo", 4), "3/4");
}

#[test]
fn single_shard_labels_everything_zero_of_one() {
    for (namespace, name) in [(Some("ns1"), "foo"), (None, "node-1"), (Some(""), ""), (Some("a"), "b")] {
        assert_eq!(shard_index(namespace, name, 1), 0);
        assert_eq!(shard_label(namespace, name, 1), "0/1");
    }
}

#[test]
fn index_is_hash_modulo_count() {
    let hash = identity_hash(Some("ns1"), "foo");
    for count in [1, 2, 3, 4, 7, 10, 256, 1000, i32::MAX] {
        let index = shard_index(Some("ns1"), "foo", count);
        assert_eq!(index as u64, hash % (count as u64));
    }
}

#[test]
fn same_identity_same_shard() {
    for count in [1, 2, 5, 64] {
        let first = shard_index(Some("default"), "web", count);
        let second = shard_index(Some("default"), "web", count);
        assert_eq!(first, second);
        assert_eq!(shard_label(Some("default"), "web", count), shard_label(Some("default"), "web", count));
    }
}

#[test]
fn index_stays_in_range() {
    for count in [1, 2, 3, 16, 1000, i32::MAX] {
        for i in 0..200 {
            let name = format!("object-{i}");
            let index = shard_index(Some("ns"), &name, count);
            assert!(0 <= index && index < count);
        }
    }
}

#[test]
fn spreads_identities_over_shards() {
    let count = 8;
    let mut seen = vec![0u32; count as usize];
    for i in 0..8000 {
        let name = format!("pod-{i}");
        let namespace = format!("team-{}", i % 40);
        seen[shard_index(Some(&namespace), &name, count) as usize] += 1;
    }
    for hits in seen {
        assert!(800 <= hits && hits <= 1200);
    }
}

#[test]
fn renders_labels_in_decimal() {
    assert_eq!(label_value(2, 4), "2/4");
    assert_eq!(label_value(0, 1), "0/1");
    assert_eq!(label_value(10, 100), "10/100");
    assert_eq!(label_value(907, 1000), "907/1000");
    assert_eq!(label_value(2147483646, i32::MAX), "2147483646/2147483647");
}

#[test]
fn renders_negative_numbers_with_a_sign() {
    assert_eq!(label_value(-5, -12), "-5/-12");
    assert_eq!(label_value(i32::MIN, 0), "-2147483648/0");
}
