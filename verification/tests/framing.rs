use framed::frame::decode_header;
use framed::frame::encode_header;
use framed::Error;
use framed::InputStream;
use framed::OutputStream;

#[test]
fn round_trip_u32() {
    let mut out = OutputStream::new();
    out.write_serde(42u32).unwrap();
    let mut inp = InputStream::new(out.into_vec());
    let v: u32 = inp.read_serde().unwrap();
    assert_eq!(v, 42u32);
    assert_eq!(inp.remaining(), 0);
}

#[test]
fn round_trip_string() {
    let mut out = OutputStream::new();
    out.write_serde(String::from("hello frames")).unwrap();
    let mut inp = InputStream::new(out.into_vec());
    let v: String = inp.read_serde().unwrap();
    assert_eq!(v, "hello frames");
}

#[test]
fn round_trip_vec_of_bytes() {
    let payload: Vec<u8> = vec![0u8, 255u8, 7u8, 7u8];
    let mut out = OutputStream::new();
    out.write_serde(payload.clone()).unwrap();
    let mut inp = InputStream::new(out.into_vec());
    let v: Vec<u8> = inp.read_serde().unwrap();
    assert_eq!(v, payload);
}

#[test]
fn frame_round_trip_raw_bytes() {
    let mut out = OutputStream::new();
    out.write_frame(&[1u8, 2u8, 3u8]);
    let mut inp = InputStream::new(out.into_vec());
    let payload = inp.read_frame().unwrap();
    assert_eq!(payload, vec![1u8, 2u8, 3u8]);
    assert_eq!(inp.position(), 11);
}

#[test]
fn length_exactness_u32() {
    let mut out = OutputStream::new();
    out.write_serde(42u32).unwrap();
    // postcard encodes 42u32 as the single varint byte 0x2A
    assert_eq!(out.len(), 9);
    let data = out.into_vec();
    assert_eq!(decode_header(&data[..8]), 1);
}

#[test]
fn length_exactness_raw_frame() {
    let payload = vec![9u8; 300];
    let mut out = OutputStream::new();
    out.write_frame(&payload);
    assert_eq!(out.len(), 308);
    let data = out.into_vec();
    assert_eq!(decode_header(&data[..8]), 300);
    assert_eq!(&data[8..], &payload[..]);
}

#[test]
fn concatenation_three_values() {
    let mut out = OutputStream::new();
    out.write_serde(1u32).unwrap();
    out.write_serde(String::from("two")).unwrap();
    out.write_serde(vec![3u8, 3u8, 3u8]).unwrap();
    let mut inp = InputStream::new(out.into_vec());
    let a: u32 = inp.read_serde().unwrap();
    let b: String = inp.read_serde().unwrap();
    let c: Vec<u8> = inp.read_serde().unwrap();
    assert_eq!(a, 1u32);
    assert_eq!(b, "two");
    assert_eq!(c, vec![3u8, 3u8, 3u8]);
    assert_eq!(inp.remaining(), 0);
}

#[test]
fn relay_fidelity() {
    let mut out = OutputStream::new();
    out.write_serde(7u64).unwrap();
    out.write_serde(String::from("second")).unwrap();
    let source = out.into_vec();

    let mut inp = InputStream::new(source.clone());
    let mut relay = OutputStream::new();
    inp.read_serde_into_writer(&mut relay).unwrap();
    let first_frame_len = inp.position();
    assert_eq!(relay.into_vec(), source[..first_frame_len].to_vec());

    // the second frame is untouched and still reads back
    let v: String = inp.read_serde().unwrap();
    assert_eq!(v, "second");
}

#[test]
fn relay_fidelity_empty_payload() {
    let mut out = OutputStream::new();
    out.write_frame(&[]);
    let source = out.into_vec();
    let mut inp = InputStream::new(source.clone());
    let mut relay = OutputStream::new();
    inp.read_serde_into_writer(&mut relay).unwrap();
    assert_eq!(relay.into_vec(), source);
    assert_eq!(inp.remaining(), 0);
}

#[test]
fn relay_truncated_payload_fails() {
    let mut data = encode_header(4);
    data.extend_from_slice(&[1u8, 2u8]);
    let mut inp = InputStream::new(data);
    let mut relay = OutputStream::new();
    let r = inp.read_serde_into_writer(&mut relay);
    assert!(matches!(r, Err(Error::IO(_))));
    // the header had already been copied when the payload fell short
    assert_eq!(relay.len(), 8);
}

#[test]
fn truncation_detected() {
    // a full header declaring 5 payload bytes, but only 2 present
    let mut data = encode_header(5);
    data.extend_from_slice(&[1u8, 2u8]);
    let mut inp = InputStream::new(data);
    let r: Result<u32, Error> = inp.read_serde();
    assert!(matches!(r, Err(Error::IO(_))));
    // the header was consumed; the truncated payload was not
    assert_eq!(inp.position(), 8);
}

#[test]
fn short_header_detected() {
    let mut inp = InputStream::new(vec![1u8, 2u8, 3u8]);
    let r: Result<u32, Error> = inp.read_serde();
    assert!(matches!(r, Err(Error::IO(_))));
    assert_eq!(inp.position(), 0);
}

#[test]
fn empty_stream_reports_io_error() {
    let mut inp = InputStream::new(Vec::new());
    let r: Result<u32, Error> = inp.read_serde();
    assert!(matches!(r, Err(Error::IO(_))));
}

#[test]
fn empty_payload_unit() {
    let mut out = OutputStream::new();
    out.write_serde(()).unwrap();
    assert_eq!(out.len(), 8);
    let data = out.into_vec();
    assert_eq!(data, vec![0u8; 8]);
    let mut inp = InputStream::new(data);
    let v: () = inp.read_serde().unwrap();
    assert_eq!(v, ());
}

#[test]
fn concrete_scenario_forty_two() {
    let mut out = OutputStream::new();
    out.write_serde(42u32).unwrap();
    let data = out.into_vec();
    assert_eq!(data, vec![0x01, 0x00, 0x00, 0x00, 0x00, 0x00, 0x00, 0x00, 0x2A]);
    let mut inp = InputStream::new(data);
    let v: u32 = inp.read_serde().unwrap();
    assert_eq!(v, 42u32);
}

#[test]
fn malformed_payload_reports_codec_error() {
    // a whole frame whose single payload byte is no valid bool encoding
    let mut data = encode_header(1);
    data.push(0xFFu8);
    let mut inp = InputStream::new(data);
    let r: Result<bool, Error> = inp.read_serde();
    assert!(matches!(r, Err(Error::Postcard(_))));
    // the frame was consumed in full all the same
    assert_eq!(inp.position(), 9);
}

#[test]
fn header_helpers_round_trip() {
    for n in [0u64, 1u64, 255u64, 256u64, 300u64, u64::MAX] {
        let h = encode_header(n);
        assert_eq!(h.len(), 8);
        assert_eq!(decode_header(&h), n);
    }
    assert_eq!(encode_header(1), vec![1u8, 0, 0, 0, 0, 0, 0, 0]);
    assert_eq!(encode_header(258), vec![2u8, 1, 0, 0, 0, 0, 0, 0]);
}

#[test]
fn read_exact_consumes_only_on_success() {
    let mut inp = InputStream::new(vec![10u8, 20u8, 30u8]);
    let first = inp.read_exact(2).unwrap();
    assert_eq!(first, vec![10u8, 20u8]);
    assert_eq!(inp.position(), 2);
    let r = inp.read_exact(2);
    assert!(matches!(r, Err(Error::IO(_))));
    assert_eq!(inp.position(), 2);
    let rest = inp.read_exact(1).unwrap();
    assert_eq!(rest, vec![30u8]);
}

#[test]
fn error_from_underlying_causes() {
    let io = std::io::Error::new(std::io::ErrorKind::UnexpectedEof, "short");
    assert!(matches!(Error::from(io), Error::IO(_)));
    let pc = postcard::Error::DeserializeUnexpectedEnd;
    assert!(matches!(Error::from(pc), Error::Postcard(_)));
}
