use scuffle_media::amf0::de::Deserializer;
use scuffle_media::amf0::decoder::Amf0Decoder;
use scuffle_media::amf0::encoder::{to_bytes, Amf0Encoder};
use scuffle_media::amf0::error::Amf0Error;
use scuffle_media::amf0::marker::{Amf0Marker, Amf0MarkerSet};
use scuffle_media::amf0::value::Amf0Value;

fn marker(m: Amf0Marker) -> u8 {
    m.value()
}

fn number(x: f64) -> Amf0Value {
    Amf0Value::Number(x.to_bits())
}

#[test]
fn series() {
    let mut bytes = vec![
        marker(Amf0Marker::String),
        0,
        5, // length
        b'h',
        b'e',
        b'l',
        b'l',
        b'o',
        marker(Amf0Marker::Boolean),
        1,
        marker(Amf0Marker::Number),
    ];
    bytes.extend_from_slice(&std::f64::consts::PI.to_be_bytes());

    let mut de = Deserializer::new(bytes);
    let value: String = de.read_string().unwrap();
    assert_eq!(value, "hello");
    let value: bool = de.deserialize_bool().unwrap();
    assert!(value);
    let value: f64 = f64::from_bits(de.read_number().unwrap());
    assert_eq!(value, std::f64::consts::PI);
}

#[test]
fn de_string() {
    let bytes = vec![marker(Amf0Marker::String), 0, 5, b'h', b'e', b'l', b'l', b'o'];
    let value: String = Deserializer::new(bytes).read_string().unwrap();
    assert_eq!(value, "hello");
}

#[test]
fn de_bool() {
    let bytes = vec![marker(Amf0Marker::Boolean), 1];
    let value: bool = Deserializer::new(bytes).deserialize_bool().unwrap();
    assert!(value);
}

#[test]
fn de_numbers() {
    let mut bytes = vec![marker(Amf0Marker::Number)];
    bytes.extend_from_slice(&1.0f64.to_be_bytes());
    let value = f64::from_bits(Deserializer::new(bytes).read_number().unwrap());
    assert_eq!(value, 1.0);
    assert_eq!(value as u8, 1u8);
    assert_eq!(value as i64, 1i64);
}

#[test]
fn remaining() {
    let bytes = vec![
        marker(Amf0Marker::String),
        0,
        5, // length
        b'h',
        b'e',
        b'l',
        b'l',
        b'o',
        marker(Amf0Marker::Boolean),
        1,
        marker(Amf0Marker::Object),
        0,
        1, // length
        b'a',
        marker(Amf0Marker::Boolean),
        1,
        0,
        0,
        marker(Amf0Marker::ObjectEnd),
    ];

    let mut de = Deserializer::new(bytes);
    let values = de.deserialize_all().unwrap();
    assert_eq!(
        values,
        vec![
            Amf0Value::String("hello".to_string()),
            Amf0Value::Boolean(true),
            Amf0Value::Object(vec![("a".to_owned(), Amf0Value::Boolean(true))]),
        ]
    );
}

#[test]
fn ser_string() {
    let bytes = to_bytes(&Amf0Value::String("hello".to_string())).unwrap();
    assert_eq!(bytes, [marker(Amf0Marker::String), 0, 5, b'h', b'e', b'l', b'l', b'o']);

    let value = "a".repeat(u16::MAX as usize + 1);
    let bytes = to_bytes(&Amf0Value::String(value.clone())).unwrap();

    let mut expected = vec![marker(Amf0Marker::LongString)];
    expected.extend_from_slice(&(value.len() as u32).to_be_bytes());
    expected.extend(value.as_bytes());
    assert_eq!(bytes, expected);
}

#[test]
fn char() {
    let value = 'a';
    let bytes = to_bytes(&number(value as u8 as f64)).unwrap();

    let mut expected = vec![marker(Amf0Marker::Number)];
    expected.extend((b'a' as f64).to_be_bytes());
    assert_eq!(bytes, expected);
}

#[test]
fn ser_bool() {
    let bytes = to_bytes(&Amf0Value::Boolean(true)).unwrap();
    assert_eq!(bytes, [marker(Amf0Marker::Boolean), 1]);

    let bytes = to_bytes(&Amf0Value::Boolean(false)).unwrap();
    assert_eq!(bytes, [marker(Amf0Marker::Boolean), 0]);
}

#[test]
fn ser_array() {
    let vec = vec![false, true, false];
    let bytes = to_bytes(&Amf0Value::Array(vec.iter().map(|b| Amf0Value::Boolean(*b)).collect())).unwrap();
    assert_eq!(
        bytes,
        [
            marker(Amf0Marker::StrictArray),
            0,
            0,
            0,
            3, // array length
            marker(Amf0Marker::Boolean),
            0,
            marker(Amf0Marker::Boolean),
            1,
            marker(Amf0Marker::Boolean),
            0,
        ]
    );

    let byte_vec = vec![0u8, 1]; // 2 bytes
    let bytes = to_bytes(&Amf0Value::Array(byte_vec.iter().map(|b| number(*b as f64)).collect())).unwrap();

    let mut expected = vec![
        marker(Amf0Marker::StrictArray),
        0,
        0,
        0,
        2, // array length
        marker(Amf0Marker::Number),
    ];
    expected.extend(&0.0f64.to_be_bytes());
    expected.push(marker(Amf0Marker::Number));
    expected.extend(&1.0f64.to_be_bytes());
    assert_eq!(bytes, expected);

    let bytes = to_bytes(&Amf0Value::Array(vec![
        Amf0Value::String("a".to_string()),
        Amf0Value::Boolean(false),
        Amf0Value::Boolean(true),
    ]))
    .unwrap();
    assert_eq!(
        bytes,
        [
            marker(Amf0Marker::StrictArray),
            0,
            0,
            0,
            3, // array length
            marker(Amf0Marker::String),
            0,
            1, // length
            b'a',
            marker(Amf0Marker::Boolean),
            0,
            marker(Amf0Marker::Boolean),
            1,
        ]
    );
}

#[test]
fn unsupported_marker() {
    let bytes = vec![marker(Amf0Marker::MovieClipMarker)];

    let err = Amf0Decoder::new(bytes).decode_value().unwrap_err();
    assert!(matches!(err, Amf0Error::UnsupportedMarker(Amf0Marker::MovieClipMarker)));
}

#[test]
fn value_string() {
    let bytes = vec![marker(Amf0Marker::String), 0, 3, b'a', b'b', b'c'];

    let value = Amf0Decoder::new(bytes).decode_value().unwrap();
    assert_eq!(value, Amf0Value::String("abc".into()));
}

#[test]
fn value_bool() {
    let bytes = vec![marker(Amf0Marker::Boolean), 0];

    let value = Amf0Decoder::new(bytes).decode_value().unwrap();
    assert_eq!(value, Amf0Value::Boolean(false));
}

#[test]
fn object() {
    let bytes = vec![
        marker(Amf0Marker::Object),
        0,
        1,
        b'a',
        marker(Amf0Marker::Boolean),
        1,
        0,
        0,
        marker(Amf0Marker::ObjectEnd),
    ];

    let value = Amf0Decoder::new(bytes).decode_value().unwrap();
    assert_eq!(value, Amf0Value::Object(vec![("a".into(), Amf0Value::Boolean(true))]));
}

#[test]
fn value_array() {
    let bytes = vec![marker(Amf0Marker::StrictArray), 0, 0, 0, 1, marker(Amf0Marker::Boolean), 1];

    let value = Amf0Decoder::new(bytes.clone()).decode_value().unwrap();
    assert_eq!(value, Amf0Value::Array(vec![Amf0Value::Boolean(true)]));

    let mut encoder = Amf0Encoder::new(vec![]);
    value.encode(&mut encoder).unwrap();
    assert_eq!(encoder.writer, bytes);
}

#[test]
fn null() {
    let bytes = vec![marker(Amf0Marker::Null)];

    let value = Amf0Decoder::new(bytes.clone()).decode_value().unwrap();
    assert_eq!(value, Amf0Value::Null);

    let mut encoder = Amf0Encoder::new(vec![]);
    value.encode(&mut encoder).unwrap();
    assert_eq!(encoder.writer, bytes);
}

#[test]
fn value_into_owned() {
    let value = number(1.0);
    let owned_value = value.deep_clone().into_owned();
    assert_eq!(owned_value, value);

    let value = Amf0Value::Boolean(true);
    let owned_value = value.deep_clone().into_owned();
    assert_eq!(owned_value, value);

    let value = Amf0Value::String("abc".into());
    let owned_value = value.deep_clone().into_owned();
    assert_eq!(owned_value, value);

    let value = Amf0Value::Object(vec![("a".into(), Amf0Value::Boolean(true))]);
    let owned_value = value.deep_clone().into_owned();
    assert_eq!(owned_value, value,);

    let value = Amf0Value::Null;
    let owned_value = value.deep_clone().into_owned();
    assert_eq!(owned_value, value);

    let value = Amf0Value::Array(vec![Amf0Value::Boolean(true)]);
    let owned_value = value.deep_clone().into_owned();
    assert_eq!(owned_value, value);
}

#[test]
fn decode_roundtrip_nested() {
    let value = Amf0Value::Object(vec![
        ("n".to_string(), number(2.5)),
        ("list".to_string(), Amf0Value::Array(vec![Amf0Value::Null, Amf0Value::String("x".to_string())])),
        ("".to_string(), Amf0Value::Boolean(true)),
    ]);
    let bytes = to_bytes(&value).unwrap();
    let back = Amf0Decoder::new(bytes).decode_value().unwrap();
    assert_eq!(back, value);
}

#[test]
fn duplicate_keys_keep_first_place_and_last_value() {
    let bytes = vec![
        marker(Amf0Marker::Object),
        0,
        1,
        b'a',
        marker(Amf0Marker::Boolean),
        1,
        0,
        1,
        b'b',
        marker(Amf0Marker::Null),
        0,
        1,
        b'a',
        marker(Amf0Marker::Boolean),
        0,
        0,
        0,
        marker(Amf0Marker::ObjectEnd),
    ];
    let value = Amf0Decoder::new(bytes).decode_value().unwrap();
    assert_eq!(
        value,
        Amf0Value::Object(vec![
            ("a".to_string(), Amf0Value::Boolean(false)),
            ("b".to_string(), Amf0Value::Null),
        ])
    );
}

#[test]
fn errors() {
    assert!(matches!(Amf0Decoder::new(vec![]).decode_value(), Err(Amf0Error::Io(_))));
    assert!(matches!(Amf0Decoder::new(vec![0x20]).decode_value(), Err(Amf0Error::UnknownMarker(0x20))));
    assert!(matches!(
        Amf0Decoder::new(vec![marker(Amf0Marker::String), 0, 1, 0xff]).decode_value(),
        Err(Amf0Error::StringParseError)
    ));
    assert!(matches!(
        Deserializer::new(vec![marker(Amf0Marker::Null)]).read_string(),
        Err(Amf0Error::UnexpectedType { expected: Amf0MarkerSet::StringOrLongString, got: Amf0Marker::Null })
    ));
    assert_eq!(Amf0MarkerSet::NumberOrDate.markers(), vec![Amf0Marker::Number, Amf0Marker::Date]);
}

#[test]
fn date_and_ecma_array() {
    let mut bytes = vec![marker(Amf0Marker::Date)];
    bytes.extend_from_slice(&3.0f64.to_be_bytes());
    bytes.extend_from_slice(&[0, 0]);
    bytes.extend_from_slice(&[marker(Amf0Marker::EcmaArray), 0, 0, 0, 1, 0, 1, b'k', marker(Amf0Marker::Null), 9]);
    let mut decoder = Amf0Decoder::new(bytes);
    let values = decoder.decode_all().unwrap();
    assert_eq!(values, vec![number(3.0), Amf0Value::Object(vec![("k".to_string(), Amf0Value::Null)])]);
}

#[test]
fn encoder_writes_each_kind_of_value() {
    let mut encoder = Amf0Encoder::new(Vec::new());
    encoder.encode_boolean(true).unwrap();
    encoder.encode_number(1.0f64.to_bits()).unwrap();
    encoder.encode_string("ab").unwrap();
    encoder.encode_null().unwrap();
    encoder.encode_undefined().unwrap();
    encoder.encode_object_header().unwrap();
    encoder.encode_object_key("k").unwrap();
    encoder.encode_boolean(false).unwrap();
    encoder.encode_object_trailer().unwrap();
    encoder.encode_array(&vec![Amf0Value::Null]).unwrap();
    encoder.encode_object(&vec![("x".to_string(), Amf0Value::Null)]).unwrap();
    let one = 1.0f64.to_be_bytes();
    let mut expected = vec![marker(Amf0Marker::Boolean), 1, marker(Amf0Marker::Number)];
    expected.extend_from_slice(&one);
    expected.extend_from_slice(&[marker(Amf0Marker::String), 0, 2, b'a', b'b']);
    expected.extend_from_slice(&[marker(Amf0Marker::Null), marker(Amf0Marker::Undefined)]);
    expected.extend_from_slice(&[marker(Amf0Marker::Object), 0, 1, b'k', marker(Amf0Marker::Boolean), 0]);
    expected.extend_from_slice(&[0, 0, marker(Amf0Marker::ObjectEnd)]);
    expected.extend_from_slice(&[marker(Amf0Marker::StrictArray), 0, 0, 0, 1, marker(Amf0Marker::Null)]);
    expected.extend_from_slice(&[marker(Amf0Marker::Object), 0, 1, b'x', marker(Amf0Marker::Null)]);
    expected.extend_from_slice(&[0, 0, marker(Amf0Marker::ObjectEnd)]);
    assert_eq!(encoder.writer, expected);
}

#[test]
fn object_key_too_long_is_refused() {
    let key: String = std::iter::repeat('k').take(0x1_0000).collect();
    let mut encoder = Amf0Encoder::new(Vec::new());
    assert_eq!(encoder.encode_object_key(&key), Err(Amf0Error::TooLong));
    assert!(encoder.writer.is_empty());
}
