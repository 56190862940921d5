use pyattrs::encode::{
    encoder_source, registry_result, CodecEntry, CodecReturn, CodecValue, EncoderCall, EncoderSource,
};
use pyattrs::error::PyError;

#[test]
fn encoder_comes_from_tuple_or_attribute() {
    assert_eq!(encoder_source(Some(CodecEntry::Tuple(4))), EncoderSource::TupleFirst);
    assert_eq!(encoder_source(Some(CodecEntry::Tuple(0))), EncoderSource::NoEncoder);
    assert_eq!(encoder_source(Some(CodecEntry::Object { has_encode: true })), EncoderSource::EncodeAttribute);
    assert_eq!(encoder_source(Some(CodecEntry::Object { has_encode: false })), EncoderSource::NoEncoder);
    assert_eq!(encoder_source(None), EncoderSource::NoEncoder);
}

#[test]
fn registry_answer_becomes_bytes() {
    let fallback = "é".as_bytes().to_vec();
    assert_eq!(registry_result(fallback.clone(), None), Ok(vec![0xc3, 0xa9]));
    let pair = CodecReturn::Tuple {
        items: vec![CodecValue::ByteArray(vec![1, 2]), CodecValue::Other { text: "2".to_string() }],
        text: "(bytearray(b'\\x01\\x02'), 2)".to_string(),
    };
    assert_eq!(registry_result(fallback.clone(), Some(EncoderCall::Returned(pair))), Ok(vec![1, 2]));
    let single = CodecReturn::Single(CodecValue::Bytes(vec![9]));
    assert_eq!(registry_result(fallback.clone(), Some(EncoderCall::Returned(single))), Ok(vec![9]));
    let text = CodecReturn::Single(CodecValue::Other { text: "ab".to_string() });
    assert_eq!(registry_result(fallback.clone(), Some(EncoderCall::Returned(text))), Ok(b"ab".to_vec()));
    let empty = CodecReturn::Tuple { items: Vec::new(), text: "()".to_string() };
    assert_eq!(registry_result(fallback.clone(), Some(EncoderCall::Returned(empty))), Ok(b"()".to_vec()));
    let e = PyError::ValueError("bad".to_string());
    assert_eq!(
        registry_result(fallback, Some(EncoderCall::Raised(e))),
        Err(PyError::ValueError("bad".to_string()))
    );
}
