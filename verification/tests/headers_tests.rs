use upsclr_server::headers::{Accept, MediaType};

fn values(v: &str) -> Vec<Option<String>> {
    vec![Some(v.to_string())]
}

fn media(text: &str) -> MediaType {
    MediaType::parse(text).unwrap()
}

#[test]
fn test_accept_header_single_mime() {
    let accept = Accept::decode(&values("image/png")).unwrap();
    assert_eq!(accept.0.len(), 1);
    assert_eq!(accept.0[0].type_, "image");
    assert_eq!(accept.0[0].subtype, "png");
}

#[test]
fn test_accept_header_multiple_mimes() {
    let accept = Accept::decode(&values("image/png, image/jpeg, image/webp")).unwrap();
    assert_eq!(accept.0.len(), 3);

    assert_eq!(accept.0[0].type_, "image");
    assert_eq!(accept.0[0].subtype, "png");

    assert_eq!(accept.0[1].type_, "image");
    assert_eq!(accept.0[1].subtype, "jpeg");

    assert_eq!(accept.0[2].type_, "image");
    assert_eq!(accept.0[2].subtype, "webp");
}

#[test]
fn test_accept_header_with_whitespace() {
    let accept = Accept::decode(&values("  image/png  ,  image/jpeg  ")).unwrap();
    assert_eq!(accept.0.len(), 2);
    assert_eq!(accept.0[0].subtype, "png");
    assert_eq!(accept.0[1].subtype, "jpeg");
}

#[test]
fn test_accept_header_empty_segments() {
    let accept = Accept::decode(&values("image/png,,image/jpeg,")).unwrap();
    assert_eq!(accept.0.len(), 2);
    assert_eq!(accept.0[0].subtype, "png");
    assert_eq!(accept.0[1].subtype, "jpeg");
}

#[test]
fn test_accept_header_invalid_mime() {
    assert!(Accept::decode(&values("invalid-mime-type")).is_none());
}

#[test]
fn test_accept_header_empty() {
    assert!(Accept::decode(&values("")).is_none());
}

#[test]
fn test_accept_header_encode_single() {
    let accept = Accept(vec![media("image/png")]);
    let encoded = accept.encode();
    assert!(encoded.is_some());
    assert_eq!(encoded.unwrap(), "image/png");
}

#[test]
fn test_accept_header_encode_multiple() {
    let accept = Accept(vec![media("image/png"), media("image/jpeg"), media("image/webp")]);
    let encoded = accept.encode();
    assert!(encoded.is_some());
    assert_eq!(encoded.unwrap(), "image/png, image/jpeg, image/webp");
}

#[test]
fn test_accept_header_round_trip() {
    let accept = Accept::decode(&values("image/png, image/jpeg, application/json")).unwrap();
    let encoded = accept.encode();
    assert!(encoded.is_some());
    let encoded = encoded.unwrap();
    assert!(encoded.contains("image/png"));
    assert!(encoded.contains("image/jpeg"));
    assert!(encoded.contains("application/json"));
}

#[test]
fn accept_header_several_values_are_joined() {
    let v = vec![Some("image/png".to_string()), Some("image/jpeg;q=0.5".to_string())];
    let accept = Accept::decode(&v).unwrap();
    assert_eq!(accept.0.len(), 2);
    assert_eq!(accept.0[1].subtype, "jpeg");
    assert_eq!(accept.0[1].params, vec![("q".to_string(), "0.5".to_string())]);
}

#[test]
fn accept_header_value_that_is_not_text_is_refused() {
    let v = vec![Some("image/png".to_string()), None];
    assert!(Accept::decode(&v).is_none());
}

#[test]
fn media_type_parse_reads_type_subtype_and_parameters() {
    let m = MediaType::parse("image/x-raw-bitmap; format=bgr").unwrap();
    assert_eq!(m.type_, "image");
    assert_eq!(m.subtype, "x-raw-bitmap");
    assert_eq!(m.params, vec![("format".to_string(), "bgr".to_string())]);
    assert!(MediaType::parse("not a media type").is_none());
}

#[test]
fn accept_encode_refuses_a_value_with_control_characters() {
    let mut m = media("image/png");
    m.text = "image/png\n".to_string();
    assert!(Accept(vec![m]).encode().is_none());
}
