use inference_gateway::cache::{cache_key, key_hash};
use sha2::{Digest, Sha256};

#[test]
fn keys_are_digests_of_the_model_and_the_prefix() {
    let digest = Sha256::digest(b"model-a\0hello");
    let hex: String = digest.iter().map(|byte| format!("{byte:02x}")).collect();
    assert_eq!(cache_key("model-a", "hello"), format!("sha256:{hex}"));
    assert_ne!(cache_key("model-a", "hello"), cache_key("model-ahello", ""));
    assert_ne!(cache_key("model-a", "b"), cache_key("model-b", "a"));
}

#[test]
fn api_keys_are_hashed() {
    assert_eq!(
        key_hash("abc"),
        "ba7816bf8f01cfea414140de5dae2223b00361a396177a9cb410ff61f20015ad"
    );
}

#[test]
fn a_zero_character_in_a_model_can_shift_the_boundary() {
    assert_eq!(cache_key("a\0b", "c"), cache_key("a", "b\0c"));
}

#[test]
fn keys_have_a_fixed_length() {
    assert_eq!(cache_key("", "").len(), 71);
    assert_eq!(cache_key("model", "a long prefix").len(), 71);
    assert_eq!(key_hash("").len(), 64);
}
