use rhythm::store::{record_key, Tree};

#[test]
fn keys_are_big_endian() {
    assert_eq!(record_key(0), vec![0; 8]);
    assert_eq!(record_key(258), vec![0, 0, 0, 0, 0, 0, 1, 2]);
    assert_eq!(record_key(u64::MAX), vec![255; 8]);
    for id in [0u64, 1, 255, 256, 65535, 1 << 40, u64::MAX - 1] {
        assert_eq!(record_key(id), id.to_be_bytes().to_vec());
    }
}

#[test]
fn keys_sort_like_ids() {
    let ids = [0u64, 1, 255, 256, 257, 65536, 1 << 33, u64::MAX];
    for a in ids {
        for b in ids {
            assert_eq!(a < b, record_key(a) < record_key(b));
        }
    }
}

#[test]
fn tree_names() {
    assert_eq!(Tree::RequestHead.name(), "req");
    assert_eq!(Tree::RequestBody.name(), "reqbod");
    assert_eq!(Tree::ResponseHead.name(), "resp");
    assert_eq!(Tree::ResponseBody.name(), "respbod");
}
