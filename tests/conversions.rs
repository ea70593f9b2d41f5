use text_tools::base64::{base64url_decode, base64url_encode, decode, encode, url_decode, url_encode};
use text_tools::case::{alternating, camel, kebab, lower, pascal, screaming, snake, title, upper};
use text_tools::formats::{json_to_toml, toml_to_json};
use text_tools::hash::{bcrypt, md5, sha1, sha256, sha512};

#[test]
fn case_conventions() {
    assert_eq!(upper("hello world"), "HELLO WORLD");
    assert_eq!(lower("Hello World"), "hello world");
    assert_eq!(title("hello world"), "Hello World");
    assert_eq!(alternating("hello"), "hElLo");
    assert_eq!(camel("hello world"), "helloWorld");
    assert_eq!(pascal("hello world"), "HelloWorld");
    assert_eq!(snake("Hello World"), "hello_world");
    assert_eq!(screaming("hello world"), "HELLO_WORLD");
    assert_eq!(kebab("Hello World"), "hello-world");
}

#[test]
fn base64_round_trip() {
    assert_eq!(encode("hello"), "aGVsbG8=");
    assert_eq!(decode("aGVsbG8=").unwrap(), "hello");
    assert!(decode("not base64!").is_err());
}

#[test]
fn base64url_round_trip() {
    assert_eq!(base64url_encode("??>"), "Pz8-");
    assert_eq!(base64url_encode("hello"), "aGVsbG8");
    assert_eq!(base64url_decode("aGVsbG8").unwrap(), "hello");
    assert!(base64url_decode("aGVsbG8=").is_err());
}

#[test]
fn url_round_trip() {
    assert_eq!(url_encode("a b&c"), "a%20b%26c");
    assert_eq!(url_decode("a%20b%26c").unwrap(), "a b&c");
    assert!(url_decode("%FF").is_err());
}

#[test]
fn digests_of_abc() {
    assert_eq!(md5("abc"), "900150983cd24fb0d6963f7d28e17f72");
    assert_eq!(sha1("abc"), "a9993e364706816aba3e25717850c26c9cd0d89d");
    assert_eq!(sha256("abc"), "ba7816bf8f01cfea414140de5dae2223b00361a396177a9cb410ff61f20015ad");
    assert_eq!(
        sha512("abc"),
        "ddaf35a193617abacc417349ae20413112e6fa4e89a97ea20a9eeee64b55d39a2192992a274fc1a836ba3c23a3feebbd454d4423643ce80e2a9ac94fa54ca49f"
    );
}

#[test]
fn bcrypt_hash_shape() {
    let h = bcrypt("secret").unwrap();
    assert_eq!(h.len(), 60);
    assert!(h.starts_with("$2b$12$"));
}

#[test]
fn json_and_toml() {
    assert_eq!(toml_to_json("a = 1").unwrap(), "{\"a\":1}");
    let t = json_to_toml("{\"a\":1}").unwrap();
    assert!(t.contains("a = 1"));
    assert!(json_to_toml("null").is_err());
    assert!(toml_to_json("= =").is_err());
}
