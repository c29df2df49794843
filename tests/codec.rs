use registry_check::codec::{decode_value, encode_value};
use registry_check::value::Document;

fn text(s: &str) -> Document {
    Document::String(s.to_string())
}

#[test]
fn rmp() {
    let value = Document::Object(vec![(text("url"), text("https://google.com"))]);
    let buf = encode_value(&value);

    println!("{:x?}", buf.clone());

    let result = decode_value(&buf).unwrap();
    let fields = match &result {
        Document::Object(fields) => fields,
        _ => panic!("not a map"),
    };
    assert_eq!(1, fields.len());
    assert_eq!(text("url"), fields[0].0);
    assert_eq!(text("https://google.com"), fields[0].1);
}

#[test]
fn round_trip_nested() {
    let value = Document::Object(vec![
        (text("complete"), Document::Boolean(true)),
        (text("latestImage"), text("sha256:xyz")),
        (
            text("headers"),
            Document::Object(vec![(text("authorization"), text("Bearer abc"))]),
        ),
        (text("empty"), Document::Object(vec![])),
        (text("flag"), Document::Boolean(false)),
    ]);
    let bytes = encode_value(&value);
    assert_eq!(Some(value), decode_value(&bytes));
}

#[test]
fn round_trip_numbers_and_nil() {
    let value = Document::Object(vec![
        (text("status"), Document::Integer(401)),
        (text("big"), Document::Integer(u64::MAX)),
        (text("none"), Document::Nil),
    ]);
    let bytes = encode_value(&value);
    assert_eq!(Some(value), decode_value(&bytes));
}

#[test]
fn encoding_is_msgpack() {
    let bytes = encode_value(&Document::Object(vec![(text("a"), Document::Boolean(true))]));
    assert_eq!(vec![0x81, 0xa1, b'a', 0xc3], bytes);
}

#[test]
fn decode_malformed() {
    assert_eq!(None, decode_value(&[]));
    assert_eq!(None, decode_value(&[0x81, 0xa1]));
}

#[test]
fn decode_unread_kinds() {
    // an array and a negative number
    assert_eq!(Some(Document::Other), decode_value(&[0x91, 0x01]));
    assert_eq!(Some(Document::Other), decode_value(&[0xff]));
}
