use upsclr_server::models::parse_bool_from_int_optional_query;

#[test]
fn test_deserialize_bool_from_int_optional_query() {
    assert_eq!(parse_bool_from_int_optional_query(Some("1")).unwrap(), Some(true));
    assert_eq!(parse_bool_from_int_optional_query(Some("true")).unwrap(), Some(true));
    assert_eq!(parse_bool_from_int_optional_query(Some("0")).unwrap(), Some(false));
    assert_eq!(parse_bool_from_int_optional_query(Some("false")).unwrap(), Some(false));
    assert_eq!(parse_bool_from_int_optional_query(None).unwrap(), None);
}

#[test]
fn test_create_instance_query_dry_run_parsing() {
    assert_eq!(parse_bool_from_int_optional_query(Some("1")).unwrap(), Some(true));
    assert_eq!(parse_bool_from_int_optional_query(Some("0")).unwrap(), Some(false));
    assert_eq!(parse_bool_from_int_optional_query(None).unwrap(), None);
}

#[test]
fn bool_query_refuses_other_text() {
    assert_eq!(parse_bool_from_int_optional_query(Some("yes")).unwrap_err(), "yes");
    assert_eq!(parse_bool_from_int_optional_query(Some("TRUE")).unwrap_err(), "TRUE");
}
