use record_linker::shard::hex_val;
use record_linker::shard::shard_file_name;
use record_linker::shard::shard_key;
use record_linker::shard::ShardRouter;

#[test]
fn shard_key_is_the_leading_character() {
    assert_eq!(shard_key("abc123"), 'a');
    assert_eq!(shard_key("0ff"), '0');
}

#[test]
fn digests_with_equal_leading_character_share_a_file() {
    let k1 = shard_key("a1b2");
    let k2 = shard_key("affe");
    assert_eq!(k1, k2);
    assert_eq!(
        shard_file_name(k1, "run1"),
        shard_file_name(k2, "run1")
    );
}

#[test]
fn shard_file_name_holds_key_suffix_and_extension() {
    assert_eq!(shard_file_name('a', "xyz123"), "a_xyz123.csv");
    assert_eq!(shard_file_name('0', ""), "0_.csv");
}

#[test]
fn router_opens_each_shard_once() {
    let mut router = ShardRouter::new("r1".to_string());
    assert_eq!(router.acquire('a'), Some("a_r1.csv".to_string()));
    assert_eq!(router.acquire('a'), None);
    assert_eq!(router.acquire('b'), Some("b_r1.csv".to_string()));
    assert_eq!(router.acquire('a'), None);
    assert_eq!(router.acquire('b'), None);
}

#[test]
fn hex_values_index_the_sixteen_shards() {
    assert_eq!(hex_val('0'), 0);
    assert_eq!(hex_val('9'), 9);
    assert_eq!(hex_val('a'), 10);
    assert_eq!(hex_val('f'), 15);
}
