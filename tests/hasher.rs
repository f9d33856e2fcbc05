use nx_hasher::decimal::decimal_string;
use nx_hasher::joined::comma_joined_bytes;
use nx_hasher::{hash, hash_array, hash_file};

fn strings(items: &[&str]) -> Vec<String> {
    items.iter().map(|s| s.to_string()).collect()
}

#[test]
fn it_hashes_a_file() {
    // a file that cannot be opened gives no digest
    let content = hash_file(None);
    assert!(content.is_none());

    let content = hash_file(Some(b"content".as_slice()));
    assert_eq!(content.unwrap(), "6193209363630369380");
}

#[test]
fn hashes_bytes_to_the_frozen_value() {
    assert_eq!(hash(b"content"), "6193209363630369380");
}

#[test]
fn hashes_the_empty_byte_sequence() {
    assert_eq!(hash(b""), "3244421341483603138");
}

#[test]
fn hashing_twice_gives_the_same_digest() {
    let data: Vec<u8> = (0..1000u32).map(|i| (i * 7 % 251) as u8).collect();
    assert_eq!(hash(&data), hash(&data));
    assert_eq!(hash(b"abc"), hash(b"abc"));
}

#[test]
fn array_hash_equals_joined_text_hash() {
    assert_eq!(hash_array(strings(&["foo", "bar"])), hash(b"foo,bar"));
}

#[test]
fn empty_array_hashes_like_empty_bytes() {
    assert_eq!(hash_array(Vec::new()), hash(b""));
    assert_eq!(hash_array(Vec::new()), "3244421341483603138");
}

#[test]
fn single_element_array_has_no_separator() {
    assert_eq!(hash_array(strings(&["content"])), "6193209363630369380");
}

#[test]
fn comma_inside_an_element_looks_like_a_boundary() {
    assert_eq!(hash_array(strings(&["a,b"])), hash_array(strings(&["a", "b"])));
}

#[test]
fn empty_elements_keep_their_separators() {
    assert_eq!(hash_array(strings(&["", ""])), hash(b","));
    assert_eq!(hash_array(strings(&["", "", "x"])), hash(b",,x"));
}

#[test]
fn non_ascii_elements_hash_as_utf8() {
    assert_eq!(hash_array(strings(&["é", "日本"])), hash("é,日本".as_bytes()));
}

#[test]
fn array_hash_is_order_sensitive() {
    assert_ne!(hash_array(strings(&["a", "b"])), hash_array(strings(&["b", "a"])));
}

#[test]
fn file_hash_covers_only_the_sample() {
    let full: Vec<u8> = (0..10000u32).map(|i| if i < 8192 { b'a' } else { b'z' }).collect();
    let sample = &full[..8192];
    let digest = hash_file(Some(sample)).unwrap();
    assert_eq!(digest, hash(sample));
    assert_ne!(digest, hash(&full));
}

#[test]
fn empty_file_sample_hashes_like_empty_bytes() {
    assert_eq!(hash_file(Some(b"".as_slice())).unwrap(), "3244421341483603138");
}

#[test]
fn joins_strings_into_utf8_bytes() {
    assert_eq!(comma_joined_bytes(&strings(&["foo", "bar"])), b"foo,bar".to_vec());
    assert_eq!(comma_joined_bytes(&strings(&[])), Vec::<u8>::new());
    assert_eq!(comma_joined_bytes(&strings(&["ß"])), "ß".as_bytes().to_vec());
}

#[test]
fn renders_decimal_text() {
    assert_eq!(decimal_string(0), "0");
    assert_eq!(decimal_string(9), "9");
    assert_eq!(decimal_string(10), "10");
    assert_eq!(decimal_string(907), "907");
    assert_eq!(decimal_string(u64::MAX), "18446744073709551615");
}
