use aes::cipher::{BlockEncryptMut, KeyIvInit};
use ec::client::{session_cookie, user_info_url, answer_body, check_status, encrypted_part_from_body, key_from_body, seed_from_body, seed_from_override};
use ec::{ClientConfig, ClientError, Event, InputFetch, Quest, Setup};

const KEY: &str = "0123456789abcdefghijklmnopqrstuv";

fn encrypt(plain: &str) -> String {
    let k = KEY.as_bytes();
    let enc = cbc::Encryptor::<aes::Aes256>::new(k.into(), k[..16].into());
    hex::encode(enc.encrypt_padded_vec_mut::<block_padding::Pkcs7>(plain.as_bytes()))
}

fn is_http_error<T>(r: &Result<T, ClientError>) -> bool {
    matches!(r, Err(ClientError::HttpError(_)))
}

#[test]
fn override_seed_skips_remote() {
    match ClientConfig::begin("token\n", Some(" 123 ")).unwrap() {
        Setup::Ready(c) => {
            assert_eq!(c.seed(), 123);
            assert_eq!(c.cookie(), "everybody-codes=token");
        }
        Setup::NeedSeed(_) => panic!("the override should be used"),
    }
}

#[test]
fn blank_or_absent_override_fetches_once() {
    for value in [None, Some(""), Some("   "), Some("\u{3000}\t\u{a0}")] {
        match ClientConfig::begin(" token ", value).unwrap() {
            Setup::NeedSeed(session) => {
                assert_eq!(session, "token");
                let c = ClientConfig::from_seed_response(session, 200, "{\"seed\":77}").unwrap();
                assert_eq!(c.seed(), 77);
                let e = Event::Event(2025);
                let q = Quest::try_new(1).unwrap();
                assert_eq!(c.asset_url(e, q), "https://everybody.codes/assets/2025/1/input/77.json");
                assert_eq!(c.asset_url(e, q), "https://everybody.codes/assets/2025/1/input/77.json");
            }
            Setup::Ready(_) => panic!("no usable override"),
        }
    }
}

#[test]
fn invalid_override_is_refused_without_fetch() {
    for value in ["abc", " -1 ", "4294967296", "12x"] {
        match ClientConfig::begin("token", Some(value)) {
            Err(ClientError::InvalidSeed(m)) => assert_eq!(m, format!("Invalid seed override: {}", value.trim())),
            _ => panic!("a set, non-blank override must not lead to a fetch: {value}"),
        }
    }
}

#[test]
fn seed_response_errors() {
    assert!(is_http_error(&ClientConfig::from_seed_response("t".to_string(), 401, "{\"seed\":1}")));
    assert_eq!(
        seed_from_body("{}"),
        Err(ClientError::HttpError("user response holds no valid seed".to_string()))
    );
    assert!(is_http_error(&ClientConfig::from_seed_response("t".to_string(), 200, "{}")));
    assert!(is_http_error(&seed_from_body("{\"seed\":4294967296}")));
    assert!(is_http_error(&seed_from_body("{\"seed\":-1}")));
    assert!(is_http_error(&seed_from_body("not json")));
    assert_eq!(seed_from_body("{\"seed\":4294967295}"), Ok(u32::MAX));
    assert_eq!(seed_from_override(Some("42")), Some(42));
    assert_eq!(seed_from_override(Some("\t42\n")), Some(42));
    assert_eq!(seed_from_override(Some("\u{2003}42\u{3000}")), Some(42));
    assert_eq!(seed_from_override(Some(" ")), None);
    assert_eq!(seed_from_override(None), None);
}

#[test]
fn endpoint_addresses() {
    let c = ClientConfig::new("abc", 9);
    let e = Event::Story(1);
    let q = Quest::try_new(12).unwrap();
    assert_eq!(c.user_url(), "https://everybody.codes/api/user/me");
    assert_eq!(c.quest_url(e, q), "https://everybody.codes/api/event/1/quest/12");
    assert_eq!(c.answer_url(e, q, 3), "https://everybody.codes/api/event/1/quest/12/part/3/answer");
    assert_eq!(c.asset_url(e, q), "https://everybody.codes/assets/1/12/input/9.json");
    assert_eq!(c.cookie(), "everybody-codes=abc");
}

#[test]
fn session_helpers() {
    assert_eq!(session_cookie("s3cr"), "everybody-codes=s3cr");
    assert_eq!(user_info_url(), "https://everybody.codes/api/user/me");
}

#[test]
fn answer_payload_is_json() {
    assert_eq!(answer_body("42"), "{\"answer\":\"42\"}");
    assert_eq!(answer_body("a\"b"), "{\"answer\":\"a\\\"b\"}");
}

#[test]
fn status_check() {
    assert_eq!(check_status(200, "x".to_string()), Ok("x".to_string()));
    assert_eq!(check_status(204, String::new()), Ok(String::new()));
    assert_eq!(check_status(404, "x".to_string()), Err(ClientError::HttpError("HTTP status 404".to_string())));
    assert!(is_http_error(&check_status(302, String::new())));
}

#[test]
fn parts_and_keys_from_bodies() {
    let body = "{\"1\":\"aa\",\"2\":null,\"3\":\"cc\"}";
    assert_eq!(encrypted_part_from_body(body, 1), Ok("aa".to_string()));
    assert_eq!(encrypted_part_from_body(body, 3), Ok("cc".to_string()));
    assert_eq!(
        encrypted_part_from_body(body, 2),
        Err(ClientError::HttpError("Part 2 not found in response".to_string()))
    );
    assert!(is_http_error(&encrypted_part_from_body(body, 4)));
    assert!(is_http_error(&encrypted_part_from_body(body, 0)));
    let keys = "{\"key1\":\"k1\",\"key2\":\"k2\"}";
    assert_eq!(key_from_body(keys, 2), Ok("k2".to_string()));
    assert_eq!(
        key_from_body(keys, 3),
        Err(ClientError::HttpError("Key for part 3 not available (possibly not solved yet)".to_string()))
    );
    assert!(is_http_error(&key_from_body("<html>", 1)));
}

#[test]
fn fetch_and_decrypt_with_stub_responses() {
    let plain = "Vyrdax,Drakzyph,Fyrryn,Elarzris\n\nR3,L2,R3,L1";
    let payload = format!("{{\"1\":\"{}\",\"2\":null}}", encrypt(plain));
    let keys = format!("{{\"key1\":\"{KEY}\"}}");
    let step = InputFetch::start();
    let step = step.on_response(200, &payload, 1);
    assert!(matches!(step, InputFetch::NeedKey(_)));
    match step.on_response(200, &keys, 1) {
        InputFetch::Finished(r) => assert_eq!(r, Ok(plain.to_string())),
        _ => panic!("should be finished"),
    }
}

#[test]
fn fetch_and_decrypt_stops_on_key_404() {
    let payload = format!("{{\"1\":\"{}\"}}", encrypt("text"));
    let step = InputFetch::start().on_response(200, &payload, 1);
    match step.on_response(404, "not found", 1) {
        InputFetch::Finished(Err(ClientError::HttpError(m))) => assert_eq!(m, "HTTP status 404"),
        _ => panic!("the key fetch failure should end the run"),
    }
}

#[test]
fn fetch_and_decrypt_failures() {
    match InputFetch::start().on_response(500, "", 1) {
        InputFetch::Finished(Err(ClientError::HttpError(_))) => {}
        _ => panic!("payload failure should end the run"),
    }
    match InputFetch::start().on_response(200, "{\"1\":\"aa\"}", 2) {
        InputFetch::Finished(Err(ClientError::HttpError(m))) => assert_eq!(m, "Part 2 not found in response"),
        _ => panic!("a missing part should end the run"),
    }
    let step = InputFetch::start().on_response(200, "{\"1\":\"0011\"}", 1);
    match step.on_response(200, &format!("{{\"key1\":\"{KEY}\"}}"), 1) {
        InputFetch::Finished(Err(ClientError::DecryptionError(m))) => assert_eq!(m, "Decryption failed"),
        _ => panic!("bad ciphertext should fail decryption"),
    }
    let done = InputFetch::Finished(Ok("x".to_string()));
    match done.on_response(500, "", 1) {
        InputFetch::Finished(Ok(s)) => assert_eq!(s, "x"),
        _ => panic!("a finished run stays finished"),
    }
}
