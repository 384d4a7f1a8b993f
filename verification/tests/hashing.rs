use libmeld::hash_contents;
use libmeld::hash_path;
use libmeld::numtext::u32_to_string;

const SHA512_ABC: &str = "ddaf35a193617abacc417349ae20413112e6fa4e89a97ea20a9eeee64b55d39a2192992a274fc1a836ba3c23a3feebbd454d4423643ce80e2a9ac94fa54ca49f";

const SHA512_EMPTY: &str = "cf83e1357eefb8bdf1542850d66d8007d620e4050b5715dc83f4a921d36ce9ce47d0d13c5d85f2b0ff8318d2877eec2f63b931bd47417a81a538327af927da3e";

#[test]
fn hash_path_known_digest() {
    assert_eq!(hash_path("abc"), SHA512_ABC);
}

#[test]
fn hash_path_is_deterministic() {
    let a = hash_path("/etc/fstab");
    let b = hash_path("/etc/fstab");
    assert_eq!(a, b);
    assert_eq!(a.len(), 128);
    let c = hash_path("/etc/fstac");
    assert_ne!(a, c);
}

#[test]
fn hash_contents_of_file_bytes() {
    assert_eq!(hash_contents(&Some(b"abc".to_vec())), SHA512_ABC);
    assert_eq!(hash_contents(&Some(Vec::new())), SHA512_EMPTY);
}

#[test]
fn hash_contents_of_directory_is_sentinel() {
    assert_eq!(hash_contents(&None), "DIR");
}

#[test]
fn decimal_rendering() {
    assert_eq!(u32_to_string(0), "0");
    assert_eq!(u32_to_string(7), "7");
    assert_eq!(u32_to_string(10), "10");
    assert_eq!(u32_to_string(12345), "12345");
    assert_eq!(u32_to_string(u32::MAX), "4294967295");
}
