use matetech_engine::MatetechError;
use matetech_engine::classify_login_status;
use matetech_engine::classify_status;
use matetech_engine::parse_solve;
use matetech_engine::u32_to_string;

#[test]
fn a_bare_number_is_the_attempt_id() {
    assert_eq!(parse_solve("123"), Some(123));
    assert_eq!(parse_solve("0"), Some(0));
    assert_eq!(parse_solve("+123"), Some(123));
    assert_eq!(parse_solve("4294967295"), Some(u32::MAX));
}

#[test]
fn a_number_that_does_not_fit_is_rejected() {
    assert_eq!(parse_solve("4294967296"), None);
    assert_eq!(parse_solve("99999999999"), None);
}

#[test]
fn a_test_url_yields_its_attempt_id() {
    assert_eq!(
        parse_solve("https://lk.example/tests?attempt_id=456&tab=2"),
        Some(456)
    );
    assert_eq!(parse_solve("attempt_id=7"), Some(7));
}

#[test]
fn the_first_marker_followed_by_digits_wins() {
    assert_eq!(parse_solve("attempt_id=&attempt_id=7"), Some(7));
    assert_eq!(parse_solve("attempt_id=12&attempt_id=9"), Some(12));
}

#[test]
fn the_digit_run_is_maximal() {
    assert_eq!(parse_solve("x attempt_id=12ab"), Some(12));
    assert_eq!(parse_solve("attempt_id=4294967296z"), None);
}

#[test]
fn text_without_an_id_is_rejected() {
    assert_eq!(parse_solve(""), None);
    assert_eq!(parse_solve("abc"), None);
    assert_eq!(parse_solve("attempt_id="), None);
    assert_eq!(parse_solve("12abc"), None);
    assert_eq!(parse_solve("+"), None);
}

fn category(e: &MatetechError) -> &'static str {
    match e {
        MatetechError::InvalidCredentials(_) => "credentials",
        MatetechError::Forbidden(_) => "forbidden",
        MatetechError::NotFound(_) => "notfound",
        MatetechError::Unknown(_) => "unknown",
        MatetechError::Other(_) => "other",
    }
}

#[test]
fn transport_statuses_map_to_the_taxonomy() {
    assert_eq!(category(&classify_status(401, "d".to_string())), "forbidden");
    assert_eq!(category(&classify_status(403, "d".to_string())), "forbidden");
    assert_eq!(category(&classify_status(404, "d".to_string())), "notfound");
    assert_eq!(category(&classify_status(500, "d".to_string())), "other");
    assert_eq!(category(&classify_status(422, "d".to_string())), "other");
}

#[test]
fn login_statuses_map_to_the_taxonomy() {
    assert_eq!(
        category(&classify_login_status(401, "d".to_string())),
        "credentials"
    );
    assert_eq!(
        category(&classify_login_status(422, "d".to_string())),
        "credentials"
    );
    assert_eq!(
        category(&classify_login_status(403, "d".to_string())),
        "forbidden"
    );
    assert_eq!(
        category(&classify_login_status(404, "d".to_string())),
        "notfound"
    );
    assert_eq!(category(&classify_login_status(500, "d".to_string())), "other");
}

#[test]
fn error_messages_carry_their_category_prefix() {
    assert_eq!(
        MatetechError::InvalidCredentials("boom".to_string()).message(),
        "invalid credentials: boom"
    );
    assert_eq!(
        MatetechError::Forbidden("boom".to_string()).message(),
        "forbidden: boom"
    );
    assert_eq!(
        MatetechError::NotFound("boom".to_string()).message(),
        "not found: boom"
    );
    assert_eq!(
        MatetechError::Unknown("boom".to_string()).message(),
        "unknown error: boom"
    );
    assert_eq!(MatetechError::Other("boom".to_string()).message(), "boom");
}

#[test]
fn numbers_render_in_plain_decimal() {
    assert_eq!(u32_to_string(0), "0");
    assert_eq!(u32_to_string(7), "7");
    assert_eq!(u32_to_string(1234567890), "1234567890");
    assert_eq!(u32_to_string(u32::MAX), "4294967295");
}
