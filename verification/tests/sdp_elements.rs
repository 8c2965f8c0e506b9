use quantaos::bluetooth::sdp::DataElement;

#[test]
fn valid_text_survives_decoding() {
    let bytes = DataElement::Text(b"hi".to_vec()).to_bytes();
    assert_eq!(bytes, vec![0x25, 2, b'h', b'i']);
    match DataElement::from_bytes(&bytes) {
        Some((DataElement::Text(t), used)) => {
            assert_eq!(t, b"hi".to_vec());
            assert_eq!(used, 4);
        }
        other => panic!("unexpected {:?}", other),
    }
}

#[test]
fn invalid_text_is_replaced() {
    match DataElement::from_bytes(&[0x25, 2, 0xFF, b'A']) {
        Some((DataElement::Text(t), used)) => {
            assert_eq!(t, vec![0xEF, 0xBF, 0xBD, b'A']);
            assert_eq!(used, 4);
        }
        other => panic!("unexpected {:?}", other),
    }
}

#[test]
fn nested_sequence_decodes() {
    let e = DataElement::Sequence(vec![DataElement::UInt8(7), DataElement::Bool(true)]);
    let bytes = e.to_bytes();
    match DataElement::from_bytes(&bytes) {
        Some((DataElement::Sequence(items), used)) => {
            assert_eq!(used, bytes.len());
            assert_eq!(items.len(), 2);
            assert!(matches!(items[0], DataElement::UInt8(7)));
            assert!(matches!(items[1], DataElement::Bool(true)));
        }
        other => panic!("unexpected {:?}", other),
    }
}
