use inference_gateway::reply::{
    parse_autoclaim_payload, parse_entry, parse_text_field, parse_xread_payload, Reply, ReplyError,
};

fn bulk(bytes: &[u8]) -> Reply {
    Reply::BulkString(bytes.to_vec())
}

fn entry(id: &[u8], fields: Vec<Reply>) -> Reply {
    Reply::Array(vec![bulk(id), Reply::Array(fields)])
}

fn xread(entries: Vec<Reply>) -> Reply {
    Reply::Array(vec![Reply::Array(vec![bulk(b"stream"), Reply::Array(entries)])])
}

#[test]
fn the_first_payload_of_the_first_entry_is_taken() {
    let reply = xread(vec![
        entry(
            b"1-0",
            vec![
                bulk(b"other"),
                bulk(b"x"),
                bulk(b"payload"),
                Reply::Other,
                bulk(b"payload"),
                bulk(b"\x00\xff"),
                bulk(b"payload"),
                bulk(b"later"),
            ],
        ),
        entry(b"2-0", vec![bulk(b"payload"), bulk(b"second")]),
    ]);
    assert_eq!(
        parse_xread_payload(&reply),
        Ok(Some(("1-0".to_string(), b"\x00\xff".to_vec())))
    );
}

#[test]
fn claims_are_read_one_level_up() {
    let reply = Reply::Array(vec![
        bulk(b"0-0"),
        Reply::Array(vec![entry(b"5-1", vec![bulk(b"payload"), bulk(b"job")])]),
    ]);
    assert_eq!(
        parse_autoclaim_payload(&reply),
        Ok(Some(("5-1".to_string(), b"job".to_vec())))
    );
    let none = Reply::Array(vec![bulk(b"0-0"), Reply::Array(vec![])]);
    assert_eq!(parse_autoclaim_payload(&none), Ok(None));
}

#[test]
fn replies_without_an_entry_are_nothing() {
    for reply in [
        Reply::Other,
        Reply::Array(vec![]),
        Reply::Array(vec![Reply::Other]),
        xread(vec![]),
        xread(vec![Reply::Array(vec![Reply::Other, Reply::Array(vec![])])]),
        xread(vec![Reply::Array(vec![bulk(b"1-0")])]),
    ] {
        assert_eq!(parse_xread_payload(&reply), Ok(None));
        assert_eq!(parse_text_field(&reply, "event"), Ok(None));
    }
    assert_eq!(parse_entry(None), Ok(None));
}

#[test]
fn entries_without_a_payload_are_errors() {
    let reply = xread(vec![entry(b"1-0", vec![bulk(b"payload")])]);
    let error = parse_xread_payload(&reply).unwrap_err();
    assert_eq!(error, ReplyError::NoPayload);
    assert_eq!(error.message(), "Stream entry has no protobuf payload field");
    let reply = xread(vec![entry(b"\xff", vec![bulk(b"payload"), bulk(b"x")])]);
    assert_eq!(parse_xread_payload(&reply), Err(ReplyError::NotUtf8));
}

#[test]
fn the_last_text_field_is_taken() {
    let reply = xread(vec![entry(
        b"1-0",
        vec![
            bulk(b"event"),
            bulk("früh".as_bytes()),
            bulk(b"event"),
            bulk(b"late"),
            bulk(b"event"),
        ],
    )]);
    assert_eq!(
        parse_text_field(&reply, "event"),
        Ok(Some(("1-0".to_string(), "late".to_string())))
    );
    assert_eq!(parse_text_field(&reply, "job"), Ok(None));
}

#[test]
fn a_text_field_that_is_no_text_is_an_error() {
    let reply = xread(vec![entry(
        b"1-0",
        vec![bulk(b"job"), bulk(b"\xff"), bulk(b"job"), bulk(b"fine")],
    )]);
    assert_eq!(parse_text_field(&reply, "job"), Err(ReplyError::NotUtf8));
    let reply = xread(vec![entry(b"\xff", vec![bulk(b"job"), bulk(b"fine")])]);
    assert_eq!(parse_text_field(&reply, "job"), Err(ReplyError::NotUtf8));
    assert_eq!(ReplyError::NotUtf8.message(), "Stream entry is not valid UTF-8");
}
