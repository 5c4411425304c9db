use trs::dates::parse_date;

#[test]
fn parse_date_accepts_rfc2822() {
    assert_eq!(parse_date("Mon, 02 Jan 2006 15:04:05 -0700"), Ok(1136239445));
}

#[test]
fn parse_date_accepts_rfc3339() {
    assert_eq!(parse_date("2006-01-02T15:04:05Z"), Ok(1136214245));
}

#[test]
fn parse_date_accepts_literal_utc_fallback() {
    assert_eq!(parse_date("Mon, 02 Jan 2006 15:04:05 UTC"), Ok(1136214245));
}

#[test]
fn parse_date_honours_offsets() {
    assert_eq!(parse_date("Mon, 02 Jan 2006 15:04:05 +0000"), Ok(1136214245));
    assert_eq!(parse_date("2006-01-02T15:04:05+02:00"), Ok(1136207045));
}

#[test]
fn parse_date_rejects_unrecognized_text() {
    let err = parse_date("yesterday at noon").unwrap_err();
    assert_eq!(err.text, "yesterday at noon");
    assert!(parse_date("").is_err());
    assert!(parse_date("2006-13-45").is_err());
}
