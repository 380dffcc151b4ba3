use twapi::signer::{
    add_query, build_base_string, build_header, encode_form, make_signing_key, sign,
    sign_base_string, sign_with,
};

const CONSUMER_KEY: &str = "xvz1evFS4wEEPTGEFPHBog";
const CONSUMER_SECRET: &str = "kAcSOqF21Fu85e7zjz7ZN2U4ZRhfV3WpwPAoE3Z7kBw";
const TOKEN: &str = "370773112-GmHxMAgYyLbNEtIKZeRNFsMKPR9EyMZeS9weJAEb";
const TOKEN_SECRET: &str = "LswwdoUaIvS8ltyTt5jkRh4J50vUPVVHtR2YPi5kE";
const NONCE: &str = "kYjzVBB8Y0ZFabxSWbWovY3uYSQ2pTgmZeNu2VS4cg";
const TIMESTAMP: i64 = 1318622958;
const STATUS: &str = "Hello Ladies + Gentlemen, a signed OAuth request!";

#[test]
fn base_string_of_the_documented_request() {
    let base = build_base_string(
        CONSUMER_KEY,
        &vec![("oauth_token", TOKEN)],
        "post",
        "https://api.twitter.com/1.1/statuses/update.json",
        &vec![("include_entities", "true"), ("status", STATUS)],
        NONCE,
        TIMESTAMP,
    );
    assert_eq!(
        base,
        "POST&https%3A%2F%2Fapi.twitter.com%2F1.1%2Fstatuses%2Fupdate.json&include_entities%3Dtrue%26oauth_consumer_key%3Dxvz1evFS4wEEPTGEFPHBog%26oauth_nonce%3DkYjzVBB8Y0ZFabxSWbWovY3uYSQ2pTgmZeNu2VS4cg%26oauth_signature_method%3DHMAC-SHA1%26oauth_timestamp%3D1318622958%26oauth_token%3D370773112-GmHxMAgYyLbNEtIKZeRNFsMKPR9EyMZeS9weJAEb%26oauth_version%3D1.0%26status%3DHello%2520Ladies%2520%252B%2520Gentlemen%252C%2520a%2520signed%2520OAuth%2520request%2521"
    );
}

#[test]
fn signature_of_the_documented_request() {
    let key = make_signing_key(CONSUMER_SECRET, TOKEN_SECRET);
    assert_eq!(
        key,
        "kAcSOqF21Fu85e7zjz7ZN2U4ZRhfV3WpwPAoE3Z7kBw&LswwdoUaIvS8ltyTt5jkRh4J50vUPVVHtR2YPi5kE"
    );
    let base = build_base_string(
        CONSUMER_KEY,
        &vec![("oauth_token", TOKEN)],
        "POST",
        "https://api.twitter.com/1.1/statuses/update.json",
        &vec![("include_entities", "true"), ("status", STATUS)],
        NONCE,
        TIMESTAMP,
    );
    assert_eq!(sign_base_string(&key, &base), "hCtSmYh+iHYCEqBWrE7C7hYmtUk=");
}

#[test]
fn header_of_the_documented_request() {
    let key = make_signing_key(CONSUMER_SECRET, TOKEN_SECRET);
    let header = sign_with(
        &key,
        CONSUMER_KEY,
        &vec![("oauth_token", TOKEN)],
        "POST",
        "https://api.twitter.com/1.1/statuses/update.json",
        &vec![("include_entities", "true"), ("status", STATUS)],
        NONCE,
        TIMESTAMP,
    );
    assert_eq!(
        header.unwrap(),
        "OAuth oauth_consumer_key=\"xvz1evFS4wEEPTGEFPHBog\", oauth_nonce=\"kYjzVBB8Y0ZFabxSWbWovY3uYSQ2pTgmZeNu2VS4cg\", oauth_signature=\"hCtSmYh%2BiHYCEqBWrE7C7hYmtUk%3D\", oauth_signature_method=\"HMAC-SHA1\", oauth_timestamp=\"1318622958\", oauth_version=\"1.0\", oauth_token=\"370773112-GmHxMAgYyLbNEtIKZeRNFsMKPR9EyMZeS9weJAEb\""
    );
}

#[test]
fn signature_of_the_documented_request_to_the_earlier_address() {
    let key = make_signing_key(CONSUMER_SECRET, TOKEN_SECRET);
    let base = build_base_string(
        CONSUMER_KEY,
        &vec![("oauth_token", TOKEN)],
        "POST",
        "https://api.twitter.com/1/statuses/update.json",
        &vec![("include_entities", "true"), ("status", STATUS)],
        NONCE,
        TIMESTAMP,
    );
    assert_eq!(sign_base_string(&key, &base), "tnnArxj06cWHq44gCs1OSKk/jLY=");
}

#[test]
fn signing_is_repeatable() {
    let key = make_signing_key(CONSUMER_SECRET, TOKEN_SECRET);
    let sign_once = || {
        sign_with(
            &key,
            CONSUMER_KEY,
            &vec![("oauth_token", TOKEN)],
            "POST",
            "https://api.twitter.com/1.1/statuses/update.json",
            &vec![("include_entities", "true"), ("status", STATUS)],
            NONCE,
            TIMESTAMP,
        )
    };
    assert_eq!(sign_once(), sign_once());
}

#[test]
fn signing_key_is_made_of_the_encoded_secrets() {
    assert_eq!(make_signing_key("cs", ""), "cs&");
    assert_eq!(make_signing_key("", ""), "&");
    assert_eq!(make_signing_key("s/ec ret", "t&k"), "s%2Fec%20ret&t%26k");
}

#[test]
fn names_and_values_are_encoded_and_sorted_by_their_encoded_form() {
    let base = build_base_string(
        "c k",
        &vec![("oauth_token", "a b")],
        "get",
        "http://example.com/r?x=1&y=2",
        &vec![("b", "2"), ("a", "z"), ("a", "b c"), ("A", "1"), ("a b", "="), ("é", "ü")],
        "NONCE",
        -5,
    );
    assert_eq!(
        base,
        "GET&http%3A%2F%2Fexample.com%2Fr&%25C3%25A9%3D%25C3%25BC%26A%3D1%26a%3Db%2520c%26a%3Dz%26a%2520b%3D%253D%26b%3D2%26oauth_consumer_key%3Dc%2520k%26oauth_nonce%3DNONCE%26oauth_signature_method%3DHMAC-SHA1%26oauth_timestamp%3D-5%26oauth_token%3Da%2520b%26oauth_version%3D1.0"
    );
}

#[test]
fn request_parameters_are_signed_but_stay_out_of_the_header() {
    let key = make_signing_key("s/ec ret", "t&k");
    let header = sign_with(
        &key,
        "c k",
        &vec![("oauth_token", "a b")],
        "get",
        "http://example.com/r?x=1&y=2",
        &vec![("b", "2"), ("a", "z"), ("a", "b c"), ("A", "1"), ("a b", "="), ("é", "ü")],
        "NONCE",
        -5,
    )
    .unwrap();
    assert_eq!(
        header,
        "OAuth oauth_consumer_key=\"c%20k\", oauth_nonce=\"NONCE\", oauth_signature=\"IdrePUfmYj3597JhAs4NSNGS2Uo%3D\", oauth_signature_method=\"HMAC-SHA1\", oauth_timestamp=\"-5\", oauth_version=\"1.0\", oauth_token=\"a%20b\""
    );
    let without = sign_with(
        &key,
        "c k",
        &vec![("oauth_token", "a b")],
        "get",
        "http://example.com/r",
        &vec![],
        "NONCE",
        -5,
    )
    .unwrap();
    assert_ne!(header, without);
    assert!(!without.contains("b=\"2\""));
    assert!(!header.contains("b=\"2\""));
}

#[test]
fn the_method_is_signed_in_upper_case() {
    let lower = build_base_string("ck", &vec![], "delete", "http://h/p", &vec![], "n", 1);
    let upper = build_base_string("ck", &vec![], "DELETE", "http://h/p", &vec![], "n", 1);
    assert_eq!(lower, upper);
    assert!(lower.starts_with("DELETE&http%3A%2F%2Fh%2Fp&"));
}

#[test]
fn the_query_of_the_uri_is_not_signed() {
    let with_query = build_base_string("ck", &vec![], "GET", "http://h/p?a=1", &vec![], "n", 1);
    let without = build_base_string("ck", &vec![], "GET", "http://h/p", &vec![], "n", 1);
    assert_eq!(with_query, without);
}

#[test]
fn a_fresh_header_verifies_under_its_own_nonce_and_time() {
    let key = make_signing_key(CONSUMER_SECRET, TOKEN_SECRET);
    let params = vec![("include_entities", "true"), ("status", STATUS)];
    let header = sign(
        &key,
        CONSUMER_KEY,
        &vec![("oauth_token", TOKEN)],
        "POST",
        "https://api.twitter.com/1.1/statuses/update.json",
        &params,
    )
    .unwrap();
    let field = |name: &str| -> String {
        let start = header.find(&format!("{}=\"", name)).unwrap() + name.len() + 2;
        let end = start + header[start..].find('"').unwrap();
        header[start..end].to_string()
    };
    let nonce = field("oauth_nonce");
    assert_eq!(nonce.len(), 32);
    assert!(nonce.chars().all(|c| c.is_ascii_alphanumeric()));
    let timestamp: i64 = field("oauth_timestamp").parse().unwrap();
    assert!(timestamp > 1_600_000_000);
    let again = sign_with(
        &key,
        CONSUMER_KEY,
        &vec![("oauth_token", TOKEN)],
        "POST",
        "https://api.twitter.com/1.1/statuses/update.json",
        &params,
        &nonce,
        timestamp,
    )
    .unwrap();
    assert_eq!(header, again);
}

#[test]
fn two_fresh_headers_differ_in_their_nonce() {
    let key = make_signing_key("cs", "ts");
    let first = sign(&key, "ck", &vec![], "GET", "http://h/p", &vec![]).unwrap();
    let second = sign(&key, "ck", &vec![], "GET", "http://h/p", &vec![]).unwrap();
    assert_ne!(first, second);
}

#[test]
fn hmac_sha1_of_a_published_case() {
    assert_eq!(
        sign_base_string("Jefe", "what do ya want for nothing?"),
        "7/zfauXrL6LSdBbV8YTfnCWafHk="
    );
}

#[test]
fn a_signature_depends_on_key_and_base_string() {
    let signature = sign_base_string("key&", "GET&a&b");
    assert_eq!(signature.len(), 28);
    assert_eq!(signature, sign_base_string("key&", "GET&a&b"));
    assert_ne!(signature, sign_base_string("key&", "GET&a&c"));
    assert_ne!(signature, sign_base_string("kez&", "GET&a&b"));
    assert_ne!(signature, "GET&a&b");
}

#[test]
fn a_form_is_encoded_in_the_order_given() {
    assert_eq!(encode_form(&vec![]), "");
    assert_eq!(encode_form(&vec![("status", "a b")]), "status=a%20b");
    assert_eq!(
        encode_form(&vec![("b", "2"), ("a", "1&1"), ("a b", "=")]),
        "b=2&a=1%261&a%20b=%3D"
    );
}

#[test]
fn a_query_is_appended_after_a_question_mark() {
    assert_eq!(add_query("http://h/p", &vec![]), "http://h/p");
    assert_eq!(add_query("http://h/p", &vec![("q", "rust lang")]), "http://h/p?q=rust%20lang");
    assert_eq!(
        add_query("http://h/p", &vec![("command", "STATUS"), ("media_id", "1")]),
        "http://h/p?command=STATUS&media_id=1"
    );
}

#[test]
fn a_header_is_built_around_a_given_signature() {
    assert_eq!(
        build_header("ck", &vec![], "n", 7, "a+b/c="),
        "OAuth oauth_consumer_key=\"ck\", oauth_nonce=\"n\", oauth_signature=\"a%2Bb%2Fc%3D\", oauth_signature_method=\"HMAC-SHA1\", oauth_timestamp=\"7\", oauth_version=\"1.0\""
    );
    assert_eq!(
        build_header("c k", &vec![("oauth_token", "t"), ("x y", "\"")], "", -1, ""),
        "OAuth oauth_consumer_key=\"c%20k\", oauth_nonce=\"\", oauth_signature=\"\", oauth_signature_method=\"HMAC-SHA1\", oauth_timestamp=\"-1\", oauth_version=\"1.0\", oauth_token=\"t\", x%20y=\"%22\""
    );
}

#[test]
fn signatures_agree_with_those_of_twapi_oauth() {
    let cases: Vec<(&str, &str, Vec<(&str, &str)>)> = vec![
        ("GET", "https://api.twitter.com/1.1/search/tweets.json", vec![("q", "rust lang"), ("count", "2")]),
        ("POST", "https://api.twitter.com/1.1/statuses/update.json", vec![("status", STATUS)]),
        (
            "POST",
            "https://api.twitter.com/1.1/statuses/update.json",
            vec![("status", "!\"'#$%&\\()+,/:;<=>?@[\\]^{|}~;-._* 全部4`"), ("b", "2"), ("a", "z"), ("a", "b")],
        ),
        ("DELETE", "https://api.twitter.com/1.1/direct_messages/welcome_messages/destroy.json", vec![("id", "1")]),
        ("PUT", "https://api.twitter.com/1.1/account_activity/webhooks.json", vec![]),
    ];
    for (method, uri, options) in cases {
        let theirs = twapi_oauth::calc_oauth_header(
            "consumerSecret&tokenSecret",
            "consumerKey",
            &vec![("oauth_token", "token-1")],
            method,
            uri,
            &options,
        );
        let field = |name: &str| -> String {
            let item = theirs.split(", ").find(|item| item.starts_with(&format!("{}=", name)));
            item.unwrap()[name.len() + 1..].to_string()
        };
        let nonce = field("oauth_nonce");
        let timestamp: i64 = field("oauth_timestamp").parse().unwrap();
        let ours = sign_with(
            &make_signing_key("consumerSecret", "tokenSecret"),
            "consumerKey",
            &vec![("oauth_token", "token-1")],
            method,
            uri,
            &options,
            &nonce,
            timestamp,
        )
        .unwrap();
        let expected = format!("oauth_signature=\"{}\"", field("oauth_signature"));
        assert!(ours.contains(&expected), "{} lacks {}", ours, expected);
    }
}
