use ciborium::value::Value;
use monch::codec::{InputParser, StreamError};

fn encode(v: &Value) -> Vec<u8> {
    let mut out = Vec::new();
    ciborium::ser::into_writer(v, &mut out).unwrap();
    out
}

fn decode(b: &[u8]) -> Value {
    ciborium::de::from_reader(b).unwrap()
}

fn samples() -> Vec<Value> {
    vec![
        Value::Text("hello".into()),
        Value::Integer(42.into()),
        Value::Array(vec![Value::Bool(true), Value::Null, Value::Float(1.5)]),
        Value::Map(vec![(Value::Text("name".into()), Value::Text("Cargo.toml".into()))]),
        Value::Tag(1, Box::new(Value::Integer((-7).into()))),
        Value::Bytes(vec![0, 1, 2, 255]),
    ]
}

#[test]
fn empty_input_yields_nothing() {
    let mut p = InputParser::new();
    assert!(p.push(&[]).is_empty());
    assert_eq!(p.finish(), None);
}

#[test]
fn concatenated_records_round_trip() {
    let values = samples();
    let mut bytes = Vec::new();
    for v in &values {
        bytes.extend(encode(v));
    }
    let mut p = InputParser::new();
    let items = p.push(&bytes);
    assert_eq!(p.finish(), None);
    assert_eq!(items.len(), values.len());
    for (item, v) in items.iter().zip(values.iter()) {
        let frame = item.as_ref().unwrap();
        assert_eq!(frame, &encode(v));
        assert_eq!(&decode(frame), v);
    }
}

#[test]
fn records_split_across_chunks() {
    let values = samples();
    let mut bytes = Vec::new();
    for v in &values {
        bytes.extend(encode(v));
    }
    let mut p = InputParser::new();
    let mut frames = Vec::new();
    for chunk in bytes.chunks(3) {
        for item in p.push(chunk) {
            frames.push(item.unwrap());
        }
    }
    assert_eq!(p.finish(), None);
    let decoded: Vec<Value> = frames.iter().map(|f| decode(f)).collect();
    assert_eq!(decoded, values);
}

#[test]
fn truncated_record_gives_one_error() {
    let a = encode(&Value::Text("first".into()));
    let b = encode(&Value::Array(vec![Value::Integer(1.into()), Value::Integer(2.into())]));
    let mut bytes = a.clone();
    bytes.extend(&b[..b.len() - 1]);
    let mut p = InputParser::new();
    let items = p.push(&bytes);
    assert_eq!(items.len(), 1);
    assert_eq!(items[0].as_ref().unwrap(), &a);
    assert_eq!(p.finish(), Some(StreamError::Truncated));
    // the stream has ended
    assert!(p.push(&b).is_empty());
    assert_eq!(p.finish(), None);
}

#[test]
fn malformed_bytes_end_the_stream() {
    let a = encode(&Value::Integer(5.into()));
    let mut bytes = a.clone();
    bytes.push(0xff); // a lone "break" is not a record
    bytes.extend(encode(&Value::Integer(6.into())));
    let mut p = InputParser::new();
    let items = p.push(&bytes);
    assert_eq!(items.len(), 2);
    assert_eq!(items[0].as_ref().unwrap(), &a);
    assert_eq!(items[1], Err(StreamError::Malformed));
    assert!(p.push(&a).is_empty());
    assert_eq!(p.finish(), None);
}
