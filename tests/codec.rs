use std::io::{BufRead, Read};

use protobuf::well_known_types::{Api, Empty, FieldMask, Int64Value, Method, SourceContext, StringValue};
use protobuf::Message as PbMessage;
use tower_grpc::{
    from_decode_error, unimplemented, Code, Codec, DataPoll, DecodeBuf, Decoder, Encode, EncodeBuf,
    Encoder, Message, SourceEvent, Status, CONTENT_TYPE,
};

/// A protocol-buffer message carried by the codec.
#[derive(Debug, PartialEq, Clone)]
struct Pb<M>(M);

/// Reads a window for the protocol-buffer parser.
struct Reader<'a>(&'a mut DecodeBuf);

impl<'a> Read for Reader<'a> {
    fn read(&mut self, out: &mut [u8]) -> std::io::Result<usize> {
        let span = self.0.bytes();
        let n = std::cmp::min(span.len(), out.len());
        out[..n].copy_from_slice(&span[..n]);
        self.0.advance(n);
        Ok(n)
    }
}

impl<'a> BufRead for Reader<'a> {
    fn fill_buf(&mut self) -> std::io::Result<&[u8]> {
        Ok(self.0.bytes())
    }

    fn consume(&mut self, amt: usize) {
        self.0.advance(amt)
    }
}

impl<M: PbMessage> Message for Pb<M> {
    fn new() -> Self {
        Pb(M::new())
    }

    fn compute_size(&self) -> u32 {
        self.0.compute_size()
    }

    fn write_to(&self, out: &mut Vec<u8>) -> Result<(), String> {
        self.0.write_to_vec(out).map_err(|e| e.to_string())
    }

    fn merge_from(&mut self, input: &mut DecodeBuf) -> Result<(), String> {
        let mut reader = Reader(input);
        let mut is = protobuf::CodedInputStream::from_buffered_reader(&mut reader);
        self.0.merge_from(&mut is).map_err(|e| e.to_string())
    }
}

/// A message whose writer produces fewer bytes than its size says.
struct ShortWriter;

impl Message for ShortWriter {
    fn new() -> Self {
        ShortWriter
    }

    fn compute_size(&self) -> u32 {
        5
    }

    fn write_to(&self, out: &mut Vec<u8>) -> Result<(), String> {
        out.extend_from_slice(&[1, 2, 3]);
        Ok(())
    }

    fn merge_from(&mut self, _input: &mut DecodeBuf) -> Result<(), String> {
        Ok(())
    }
}

/// A message whose writer fails.
struct BrokenWriter;

impl Message for BrokenWriter {
    fn new() -> Self {
        BrokenWriter
    }

    fn compute_size(&self) -> u32 {
        0
    }

    fn write_to(&self, _out: &mut Vec<u8>) -> Result<(), String> {
        Err(String::from("message state is broken"))
    }

    fn merge_from(&mut self, _input: &mut DecodeBuf) -> Result<(), String> {
        Ok(())
    }
}

/// A message whose parser reads nothing.
struct Lazy;

impl Message for Lazy {
    fn new() -> Self {
        Lazy
    }

    fn compute_size(&self) -> u32 {
        0
    }

    fn write_to(&self, _out: &mut Vec<u8>) -> Result<(), String> {
        Ok(())
    }

    fn merge_from(&mut self, _input: &mut DecodeBuf) -> Result<(), String> {
        Ok(())
    }
}

fn encode_one<M: PbMessage + Clone>(m: &M) -> Vec<u8> {
    let mut enc = Encoder::<Pb<M>>::new();
    let mut buf = EncodeBuf::new();
    enc.encode(Pb(m.clone()), &mut buf).unwrap();
    buf.to_vec()
}

fn decode_segments<M: PbMessage>(segments: Vec<Vec<u8>>) -> Result<M, Status> {
    let mut dec = Decoder::<Pb<M>>::new();
    let mut buf = DecodeBuf::new(segments);
    dec.decode(&mut buf).map(|p| p.0)
}

fn scalar() -> Int64Value {
    let mut m = Int64Value::new();
    m.value = -1234567;
    m
}

fn text() -> StringValue {
    let mut m = StringValue::new();
    m.value = String::from("hello");
    m
}

fn nested() -> Api {
    let mut m = Api::new();
    m.name = String::from("svc");
    let mut ctx = SourceContext::new();
    ctx.file_name = String::from("svc.proto");
    m.set_source_context(ctx);
    m
}

fn repeated() -> FieldMask {
    let mut m = FieldMask::new();
    m.paths.push(String::from("a.b"));
    m.paths.push(String::from("c"));
    m.paths.push(String::from("d.e.f"));
    m
}

fn nested_repeated() -> Api {
    let mut m = nested();
    for name in ["One", "Two"] {
        let mut meth = Method::new();
        meth.name = String::from(name);
        meth.request_streaming = true;
        m.methods.push(meth);
    }
    m
}

#[test]
fn content_type_is_proto() {
    assert_eq!(CONTENT_TYPE, "application/grpc+proto");
    let codec = Codec::<Pb<Empty>, Pb<Empty>>::new();
    assert_eq!(codec.content_type(), "application/grpc+proto");
    let enc = Encoder::<Pb<Empty>>::new();
    assert_eq!(enc.content_type(), "application/grpc+proto");
}

#[test]
fn round_trip_empty() {
    let m = Empty::new();
    let bytes = encode_one(&m);
    assert!(bytes.is_empty());
    assert_eq!(decode_segments::<Empty>(vec![bytes]).unwrap(), m);
}

#[test]
fn round_trip_scalar() {
    let m = scalar();
    let bytes = encode_one(&m);
    assert_eq!(decode_segments::<Int64Value>(vec![bytes]).unwrap(), m);
    let t = text();
    let bytes = encode_one(&t);
    assert_eq!(bytes, vec![0x0a, 0x05, b'h', b'e', b'l', b'l', b'o']);
    assert_eq!(decode_segments::<StringValue>(vec![bytes]).unwrap(), t);
}

#[test]
fn round_trip_nested() {
    let m = nested();
    let bytes = encode_one(&m);
    assert_eq!(decode_segments::<Api>(vec![bytes]).unwrap(), m);
}

#[test]
fn round_trip_repeated() {
    let m = repeated();
    let bytes = encode_one(&m);
    assert_eq!(decode_segments::<FieldMask>(vec![bytes]).unwrap(), m);
    let m = nested_repeated();
    let bytes = encode_one(&m);
    assert_eq!(decode_segments::<Api>(vec![bytes]).unwrap(), m);
}

#[test]
fn encoded_length_equals_computed_size() {
    let sizes = [
        (encode_one(&Empty::new()).len(), Empty::new().compute_size()),
        (encode_one(&scalar()).len(), scalar().compute_size()),
        (encode_one(&nested()).len(), nested().compute_size()),
        (encode_one(&repeated()).len(), repeated().compute_size()),
    ];
    for (written, computed) in sizes.iter() {
        assert_eq!(*written, *computed as usize);
    }
}

#[test]
fn encode_appends_after_prior_content() {
    let mut enc = Encoder::<Pb<StringValue>>::new();
    let mut buf = EncodeBuf::with_capacity(2);
    assert_eq!(buf.len(), 0);
    enc.encode(Pb(text()), &mut buf).unwrap();
    enc.encode(Pb(text()), &mut buf).unwrap();
    let one = encode_one(&text());
    let mut two = one.clone();
    two.extend_from_slice(&one);
    assert_eq!(buf.to_vec(), two);
    assert_eq!(buf.as_slice(), &two[..]);
    assert_eq!(buf.len(), 14);
}

#[test]
fn encode_size_mismatch_is_internal() {
    let mut enc = Encoder::<ShortWriter>::new();
    let mut buf = EncodeBuf::new();
    let err = enc.encode(ShortWriter, &mut buf).unwrap_err();
    assert_eq!(err.code(), Code::Internal);
    assert_eq!(buf.len(), 0);
}

#[test]
fn encode_writer_failure_is_internal() {
    let mut enc = Encoder::<BrokenWriter>::new();
    let mut buf = EncodeBuf::new();
    let err = enc.encode(BrokenWriter, &mut buf).unwrap_err();
    assert_eq!(err.code(), Code::Internal);
    assert_eq!(err.message(), "message state is broken");
}

#[test]
fn commit_checks_length() {
    let mut buf = EncodeBuf::new();
    buf.commit(2, &[7, 8]).unwrap();
    let err = buf.commit(3, &[9]).unwrap_err();
    assert_eq!(err.code(), Code::Internal);
    buf.reserve(10);
    assert_eq!(buf.to_vec(), vec![7, 8]);
    assert!(buf.remaining_mut() >= 10);
}

#[test]
fn fragmented_decode_matches_contiguous() {
    let m = nested_repeated();
    let bytes = encode_one(&m);
    let whole = decode_segments::<Api>(vec![bytes.clone()]).unwrap();
    let mut segments = Vec::new();
    for chunk in bytes.chunks(3) {
        segments.push(chunk.to_vec());
        segments.push(Vec::new());
    }
    let split = decode_segments::<Api>(segments).unwrap();
    assert_eq!(split, whole);
    let singles: Vec<Vec<u8>> = bytes.iter().map(|b| vec![*b]).collect();
    assert_eq!(decode_segments::<Api>(singles).unwrap(), m);
}

#[test]
fn invalid_tag_is_internal() {
    let err = decode_segments::<StringValue>(vec![vec![0x00, 0x01]]).unwrap_err();
    assert_eq!(err.code(), Code::Internal);
    assert_eq!(err.code().value(), 13);
}

#[test]
fn truncated_field_is_internal() {
    let err = decode_segments::<StringValue>(vec![vec![0x0a, 0x05], vec![b'h', b'e']]).unwrap_err();
    assert_eq!(err.code(), Code::Internal);
    assert!(!err.message().is_empty());
}

#[test]
fn unread_bytes_are_internal() {
    let mut dec = Decoder::<Lazy>::new();
    let mut buf = DecodeBuf::new(vec![vec![1, 2]]);
    let err = dec.decode(&mut buf).err().unwrap();
    assert_eq!(err.code(), Code::Internal);
    let mut buf = DecodeBuf::new(vec![]);
    assert!(dec.decode(&mut buf).is_ok());
}

#[test]
fn decode_error_maps_to_internal() {
    let s = from_decode_error(String::from("unexpected EOF"));
    assert_eq!(s.code(), Code::Internal);
    assert_eq!(s.message(), "unexpected EOF");
}

#[test]
fn decode_buf_reads_across_segments() {
    let mut buf = DecodeBuf::new(vec![vec![], vec![1, 2], vec![], vec![3], vec![4, 5, 6]]);
    assert_eq!(buf.remaining(), 6);
    assert_eq!(buf.bytes(), &[1, 2]);
    buf.advance(3);
    assert_eq!(buf.bytes(), &[4, 5, 6]);
    let mut out = vec![9];
    assert_eq!(buf.read(&mut out, 2), 2);
    assert_eq!(out, vec![9, 4, 5]);
    assert_eq!(buf.drain(), vec![6]);
    assert_eq!(buf.remaining(), 0);
    assert!(buf.bytes().is_empty());
}

#[test]
fn decode_buf_drain_joins_segments() {
    let mut buf = DecodeBuf::new(vec![vec![1], vec![2, 3], vec![4]]);
    assert_eq!(buf.drain(), vec![1, 2, 3, 4]);
}

#[test]
fn adapter_orders_and_suspends() {
    let m1 = text();
    let mut m2 = StringValue::new();
    m2.value = String::from("second");
    let mut m3 = StringValue::new();
    m3.value = String::from("third");
    let mut body = Encode::new(Encoder::<Pb<StringValue>>::new());
    assert!(!body.is_end_stream());
    let events = vec![
        SourceEvent::Item(Pb(m1.clone())),
        SourceEvent::NotReady,
        SourceEvent::Item(Pb(m2.clone())),
        SourceEvent::Item(Pb(m3.clone())),
        SourceEvent::Done,
    ];
    let mut outs = Vec::new();
    for e in events {
        outs.push(body.poll_data(e));
    }
    assert_eq!(outs.len(), 5);
    match &outs[0] {
        DataPoll::Chunk(c) => assert_eq!(*c, encode_one(&m1)),
        _ => panic!("expected a chunk"),
    }
    assert!(matches!(outs[1], DataPoll::NotReady));
    match &outs[2] {
        DataPoll::Chunk(c) => assert_eq!(*c, encode_one(&m2)),
        _ => panic!("expected a chunk"),
    }
    match &outs[3] {
        DataPoll::Chunk(c) => assert_eq!(*c, encode_one(&m3)),
        _ => panic!("expected a chunk"),
    }
    assert!(matches!(outs[4], DataPoll::End));
    assert!(!body.is_end_stream());
}

#[test]
fn trailers_only_after_end_of_data() {
    let mut body = Encode::new(Encoder::<Pb<StringValue>>::new());
    assert!(body.poll_trailers().is_none());
    assert!(matches!(body.poll_data(SourceEvent::Item(Pb(text()))), DataPoll::Chunk(_)));
    assert!(body.poll_trailers().is_none());
    assert!(matches!(body.poll_data(SourceEvent::Done), DataPoll::End));
    let t = body.poll_trailers().unwrap();
    assert_eq!(t.code(), Code::OK);
    assert!(body.poll_trailers().is_none());
    assert!(matches!(body.poll_data(SourceEvent::NotReady), DataPoll::End));
}

#[test]
fn source_failure_ends_data_with_its_status() {
    let mut body = Encode::new(Encoder::<Pb<StringValue>>::new());
    let failed = Status::new(Code::Unavailable, String::from("gone"));
    assert!(matches!(body.poll_data(SourceEvent::Failed(failed)), DataPoll::End));
    let t = body.poll_trailers().unwrap();
    assert_eq!(t.code(), Code::Unavailable);
    assert_eq!(t.message(), "gone");
}

#[test]
fn encode_failure_ends_data_with_internal() {
    let mut body = Encode::new(Encoder::<ShortWriter>::new());
    assert!(matches!(body.poll_data(SourceEvent::Item(ShortWriter)), DataPoll::End));
    assert_eq!(body.poll_trailers().unwrap().code(), Code::Internal);
}

#[test]
fn codec_hands_out_encoder_and_decoder() {
    let mut codec = Codec::<Pb<StringValue>, Pb<Int64Value>>::new();
    let copy = codec.clone();
    assert_eq!(copy.content_type(), CONTENT_TYPE);
    let mut enc = codec.encoder();
    let dec = codec.decoder();
    let mut out = EncodeBuf::new();
    enc.clone().encode(Pb(text()), &mut out).unwrap();
    enc.encode(Pb(text()), &mut out).unwrap();
    assert_eq!(out.len(), 14);
    let bytes = encode_one(&scalar());
    let mut inb = DecodeBuf::new(vec![bytes]);
    assert_eq!(dec.clone().decode(&mut inb).unwrap().0, scalar());
}

#[test]
fn unimplemented_carries_message() {
    let f = unimplemented(String::from("no such method"));
    assert_eq!(f.status().code(), Code::Unimplemented);
    assert_eq!(f.status().message(), "no such method");
    let s = f.into_status();
    assert_eq!(s.code().value(), 12);
}

#[test]
fn status_values() {
    assert_eq!(Code::OK.value(), 0);
    assert_eq!(Code::Internal.value(), 13);
    assert_eq!(Code::ResourceExhausted.value(), 8);
    let s = Status::ok();
    assert_eq!(s.code(), Code::OK);
    assert_eq!(s.message(), "");
}

#[test]
fn encoder_finish_settles_each_outcome() {
    let mut buf = EncodeBuf::new();
    let err = Encoder::<Lazy>::finish(2, Err(String::from("bad state")), &mut buf).unwrap_err();
    assert_eq!(err.code(), Code::Internal);
    assert_eq!(err.message(), "bad state");
    let err = Encoder::<Lazy>::finish(2, Ok(vec![1]), &mut buf).unwrap_err();
    assert_eq!(err.code(), Code::Internal);
    assert_eq!(buf.len(), 0);
    Encoder::<Lazy>::finish(2, Ok(vec![1, 2]), &mut buf).unwrap();
    assert_eq!(buf.to_vec(), vec![1, 2]);
}

#[test]
fn decoder_finish_settles_each_outcome() {
    let empty = DecodeBuf::new(vec![vec![]]);
    let full = DecodeBuf::new(vec![vec![5]]);
    let err = Decoder::<Pb<Int64Value>>::finish(Pb(scalar()), Err(String::from("bad tag")), &empty)
        .unwrap_err();
    assert_eq!(err.code(), Code::Internal);
    assert_eq!(err.message(), "bad tag");
    let err = Decoder::<Pb<Int64Value>>::finish(Pb(scalar()), Ok(()), &full).unwrap_err();
    assert_eq!(err.code(), Code::Internal);
    let ok = Decoder::<Pb<Int64Value>>::finish(Pb(scalar()), Ok(()), &empty).unwrap();
    assert_eq!(ok.0, scalar());
}

#[test]
fn library_error_messages_are_fixed() {
    let mut buf = EncodeBuf::new();
    let err = buf.commit(3, &[9]).unwrap_err();
    assert_eq!(err.message(), tower_grpc::SIZE_MISMATCH);
    let mut dec = Decoder::<Lazy>::new();
    let mut window = DecodeBuf::from_vec(vec![1]);
    let err = dec.decode(&mut window).err().unwrap();
    assert_eq!(err.message(), tower_grpc::UNREAD_BYTES);
    assert_eq!(window.remaining(), 1);
}
