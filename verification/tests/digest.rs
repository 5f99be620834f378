use agy_statusline::crypto::{sha256, sha256_hex};

#[test]
fn sha256_of_empty_text() {
    assert_eq!(
        sha256_hex(""),
        "e3b0c44298fc1c149afbf4c8996fb92427ae41e4649b934ca495991b7852b855"
    );
}

#[test]
fn sha256_of_abc() {
    assert_eq!(
        sha256_hex("abc"),
        "ba7816bf8f01cfea414140de5dae2223b00361a396177a9cb410ff61f20015ad"
    );
    let d = sha256(b"abc");
    assert_eq!(d[0], 0xba);
    assert_eq!(d[31], 0xad);
}

#[test]
fn sha256_of_two_blocks() {
    assert_eq!(
        sha256_hex("abcdbcdecdefdefgefghfghighijhijkijkljklmklmnlmnomnopnopq"),
        "248d6a61d20638b8e5c026930c3e6039a33ce45964ff2167f6ecedd419db06c1"
    );
}

#[test]
fn sha256_of_block_sized_text() {
    let text = "a".repeat(64);
    assert_eq!(
        sha256_hex(&text),
        "ffe054fe7ae0cb6dc65c3af9b61d5209f439851db43d0ba5997337df154668eb"
    );
    assert_eq!(sha256_hex("token-1").len(), 64);
    assert_ne!(sha256_hex("token-1"), sha256_hex("token-2"));
}
