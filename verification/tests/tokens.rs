use points_service::token::SessionToken;
use rand_chacha::rand_core::SeedableRng;

#[test]
fn cookie_value_round_trip() {
    let values: Vec<u128> = vec![
        0,
        1,
        9,
        10,
        12345678901234567890,
        u128::MAX - 1,
        u128::MAX,
    ];
    for v in values {
        let t = SessionToken { value: v };
        let s = t.into_cookie_value();
        let back = SessionToken::from_cookie_value(s.as_str());
        assert_eq!(back, Some(t));
    }
}

#[test]
fn cookie_value_formats_decimal() {
    let t = SessionToken { value: 1234567890 };
    assert_eq!(t.into_cookie_value().as_str(), "1234567890");
    let z = SessionToken { value: 0 };
    assert_eq!(z.into_cookie_value().as_str(), "0");
    let m = SessionToken { value: u128::MAX };
    assert_eq!(
        m.into_cookie_value().as_str(),
        "340282366920938463463374607431768211455"
    );
}

#[test]
fn parse_rejects_garbage() {
    assert_eq!(SessionToken::from_cookie_value(""), None);
    assert_eq!(SessionToken::from_cookie_value("abc"), None);
    assert_eq!(SessionToken::from_cookie_value("12a4"), None);
    assert_eq!(SessionToken::from_cookie_value("-5"), None);
    assert_eq!(SessionToken::from_cookie_value("12 4"), None);
    // one past u128::MAX
    assert_eq!(
        SessionToken::from_cookie_value("340282366920938463463374607431768211456"),
        None
    );
    // much too long
    assert_eq!(
        SessionToken::from_cookie_value("9999999999999999999999999999999999999999999"),
        None
    );
}

#[test]
fn parse_accepts_max_and_leading_zeros() {
    assert_eq!(
        SessionToken::from_cookie_value("340282366920938463463374607431768211455"),
        Some(SessionToken { value: u128::MAX })
    );
    assert_eq!(
        SessionToken::from_cookie_value("007"),
        Some(SessionToken { value: 7 })
    );
}

#[test]
fn database_value_little_endian() {
    let t = SessionToken { value: 0x0102030405060708090a0b0c0d0e0f10 };
    let b = t.into_database_value();
    assert_eq!(
        b,
        vec![
            0x10, 0x0f, 0x0e, 0x0d, 0x0c, 0x0b, 0x0a, 0x09, 0x08, 0x07, 0x06, 0x05, 0x04, 0x03,
            0x02, 0x01
        ]
    );
    assert_eq!(SessionToken::from_database_value(&b), t);
}

#[test]
fn database_value_round_trip() {
    for v in [0u128, 1, 255, 256, u128::MAX, 0xdeadbeefcafebabe] {
        let t = SessionToken { value: v };
        let b = t.into_database_value();
        assert_eq!(b.len(), 16);
        assert_eq!(SessionToken::from_database_value(&b), t);
    }
}

#[test]
fn to_response_sets_cookie() {
    let t = SessionToken { value: 42 };
    let r = t.to_response();
    assert_eq!(r.status, 200);
    assert_eq!(r.location.as_str(), "/");
    assert_eq!(r.set_cookie.as_str(), "user_token=42; Max-Age=9999999; Path=/");
    assert_eq!(r.body.as_str(), "");
}

#[test]
fn generated_tokens_round_trip() {
    let mut rng = rand_chacha::ChaCha8Rng::seed_from_u64(7);
    for _ in 0..16 {
        let t = SessionToken::generate_new(&mut rng);
        let s = t.into_cookie_value();
        assert_eq!(SessionToken::from_cookie_value(s.as_str()), Some(t));
        let b = t.into_database_value();
        assert_eq!(SessionToken::from_database_value(&b), t);
    }
}
