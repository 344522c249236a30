use hyperwasm::serializer::Bincode;
use hyperwasm::serializer::DecodeError;
use hyperwasm::serializer::Json;
use hyperwasm::serializer::MessagePack;
use hyperwasm::serializer::MessageRw;
use hyperwasm::serializer::Serializer;
use hyperwasm::serializer::round_trip;

#[test]
fn bincode_round_trips_integers() {
    assert_eq!(round_trip::<i64, Bincode>(0), 0);
    assert_eq!(round_trip::<i64, Bincode>(7), 7);
    assert_eq!(round_trip::<i64, Bincode>(-1), -1);
    assert_eq!(round_trip::<i64, Bincode>(i64::MAX), i64::MAX);
    assert_eq!(round_trip::<i64, Bincode>(i64::MIN), i64::MIN);
}

#[test]
fn bincode_round_trips_strings() {
    assert_eq!(round_trip::<String, Bincode>(String::new()), "");
    assert_eq!(
        round_trip::<String, Bincode>("hello world".to_string()),
        "hello world"
    );
    assert_eq!(
        round_trip::<String, Bincode>("snowman \u{2603}".to_string()),
        "snowman \u{2603}"
    );
}

#[test]
fn json_round_trips_integers() {
    assert_eq!(round_trip::<i64, Json>(7), 7);
    assert_eq!(round_trip::<i64, Json>(-42), -42);
    assert_eq!(round_trip::<i64, Json>(i64::MAX), i64::MAX);
}

#[test]
fn msgpack_round_trips_integers() {
    assert_eq!(round_trip::<i64, MessagePack>(7), 7);
    assert_eq!(round_trip::<i64, MessagePack>(-42), -42);
    assert_eq!(round_trip::<i64, MessagePack>(i64::MIN), i64::MIN);
}

#[test]
fn bincode_writes_eight_bytes_per_integer() {
    let mut w = MessageRw::new();
    <Bincode as Serializer<i64>>::encode(&7i64, &mut w).unwrap();
    assert_eq!(w.data.len(), 8);
    assert_eq!(w.pos, 0);
}

#[test]
fn json_writes_the_number_literal() {
    let mut w = MessageRw::new();
    <Json as Serializer<i64>>::encode(&-42i64, &mut w).unwrap();
    assert_eq!(w.data, b"-42".to_vec());
}

#[test]
fn bincode_decode_of_empty_buffer_reports_the_codec() {
    let mut w = MessageRw::new();
    let r = <Bincode as Serializer<i64>>::decode(&mut w);
    assert!(matches!(r, Err(DecodeError::Bincode(_))));
}

#[test]
fn json_decode_of_garbage_reports_the_codec() {
    let mut w = MessageRw { data: b"not a number".to_vec(), pos: 0 };
    let r = <Json as Serializer<i64>>::decode(&mut w);
    assert!(matches!(r, Err(DecodeError::Json(_))));
}

#[test]
fn msgpack_decode_of_empty_buffer_reports_the_codec() {
    let mut w = MessageRw::new();
    let r = <MessagePack as Serializer<i64>>::decode(&mut w);
    assert!(matches!(r, Err(DecodeError::MessagePack(_))));
}

#[test]
fn message_buffer_reads_back_what_was_written() {
    let mut w = MessageRw::new();
    let n = w.write(&[1, 2, 3, 4, 5]);
    assert_eq!(n, 5);
    assert_eq!(w.pos, 0);
    let first = w.read(2);
    assert_eq!(first, vec![1, 2]);
    assert_eq!(w.pos, 2);
    let rest = w.read(100);
    assert_eq!(rest, vec![3, 4, 5]);
    assert_eq!(w.pos, 5);
    let nothing = w.read(1);
    assert!(nothing.is_empty());
    w.flush();
    assert_eq!(w.data, vec![1, 2, 3, 4, 5]);
}

#[test]
fn decoding_consumes_the_buffer() {
    let mut w = MessageRw::new();
    <Bincode as Serializer<i64>>::encode(&1234567890123i64, &mut w).unwrap();
    let got = <Bincode as Serializer<i64>>::decode(&mut w).unwrap();
    assert_eq!(got, 1234567890123);
    assert_eq!(w.pos, w.data.len());
}
