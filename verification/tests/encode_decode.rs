use datafusion_encoding::data::{ByteArray, ColumnarValue, DataType, OffsetSize, ScalarValue};
use datafusion_encoding::encoding::Encoding;
use datafusion_encoding::error::{EncodingError, Function};
use datafusion_encoding::functions::{decode, decode_process, encode, encode_process};
use datafusion_encoding::udf::{DecodeFunc, EncodeFunc};

fn array_of(items: &[Option<&[u8]>]) -> ByteArray {
    let mut offsets = vec![0usize];
    let mut values = Vec::new();
    let mut validity = Vec::new();
    for item in items {
        match item {
            Some(v) => {
                values.extend_from_slice(v);
                validity.push(true);
            }
            None => validity.push(false),
        }
        offsets.push(values.len());
    }
    ByteArray::try_new(offsets, values, validity).expect("well-formed parts")
}

fn items_of(array: ByteArray) -> Vec<Option<Vec<u8>>> {
    let (offsets, values, validity) = array.into_parts();
    (0..validity.len())
        .map(|i| {
            if validity[i] {
                Some(values[offsets[i]..offsets[i + 1]].to_vec())
            } else {
                None
            }
        })
        .collect()
}

fn utf8(s: &str) -> ColumnarValue {
    ColumnarValue::Scalar(ScalarValue::Utf8(Some(s.to_string())))
}

fn binary(v: &[u8]) -> ColumnarValue {
    ColumnarValue::Scalar(ScalarValue::Binary(Some(v.to_vec())))
}

fn text_of(v: ColumnarValue) -> Option<String> {
    match v {
        ColumnarValue::Scalar(ScalarValue::Utf8(t)) => t,
        other => panic!("expected a Utf8 scalar, got {other:?}"),
    }
}

fn bytes_of(v: ColumnarValue) -> Option<Vec<u8>> {
    match v {
        ColumnarValue::Scalar(ScalarValue::Binary(b)) => b,
        other => panic!("expected a Binary scalar, got {other:?}"),
    }
}

#[test]
fn hex_encodes_binary_scalar() {
    let r = encode(&[binary(b"hello"), utf8("hex")]).unwrap();
    assert_eq!(text_of(r), Some("68656c6c6f".to_string()));
}

#[test]
fn base64_encodes_without_padding() {
    let r = encode(&[binary(b"hello"), utf8("base64")]).unwrap();
    assert_eq!(text_of(r), Some("aGVsbG8".to_string()));
    let r = encode(&[utf8("hi"), utf8("base64")]).unwrap();
    assert_eq!(text_of(r), Some("aGk".to_string()));
    let r = encode(&[utf8("abc"), utf8("base64")]).unwrap();
    assert_eq!(text_of(r), Some("YWJj".to_string()));
}

#[test]
fn encode_empty_value() {
    let r = encode(&[binary(b""), utf8("hex")]).unwrap();
    assert_eq!(text_of(r), Some(String::new()));
    let r = encode(&[binary(b""), utf8("base64")]).unwrap();
    assert_eq!(text_of(r), Some(String::new()));
}

#[test]
fn encode_null_scalar_is_null() {
    let r = encode(&[ColumnarValue::Scalar(ScalarValue::Binary(None)), utf8("hex")]).unwrap();
    assert_eq!(text_of(r), None);
    let r = decode(&[ColumnarValue::Scalar(ScalarValue::Utf8(None)), utf8("base64")]).unwrap();
    assert_eq!(bytes_of(r), None);
}

#[test]
fn large_scalars_stay_large() {
    let r = encode(&[
        ColumnarValue::Scalar(ScalarValue::LargeBinary(Some(vec![0xff]))),
        utf8("hex"),
    ])
    .unwrap();
    match r {
        ColumnarValue::Scalar(ScalarValue::LargeUtf8(Some(t))) => assert_eq!(t, "ff"),
        other => panic!("unexpected {other:?}"),
    }
    let r = decode(&[
        ColumnarValue::Scalar(ScalarValue::LargeUtf8(Some("/w".to_string()))),
        utf8("base64"),
    ])
    .unwrap();
    match r {
        ColumnarValue::Scalar(ScalarValue::LargeBinary(Some(b))) => assert_eq!(b, vec![0xff]),
        other => panic!("unexpected {other:?}"),
    }
}

#[test]
fn utf8_view_scalar_encodes_to_utf8() {
    let r = encode(&[
        ColumnarValue::Scalar(ScalarValue::Utf8View(Some("ok".to_string()))),
        utf8("hex"),
    ])
    .unwrap();
    assert_eq!(text_of(r), Some("6f6b".to_string()));
}

#[test]
fn decode_base64_scalar() {
    let r = decode(&[utf8("aGVsbG8"), utf8("base64")]).unwrap();
    assert_eq!(bytes_of(r), Some(b"hello".to_vec()));
}

#[test]
fn decode_hex_reads_either_case() {
    let r = decode(&[utf8("68656C6c6F"), utf8("hex")]).unwrap();
    assert_eq!(bytes_of(r), Some(b"hello".to_vec()));
}

#[test]
fn decode_rejects_padding_and_bad_bits() {
    let r = decode(&[utf8("aGVsbG8="), utf8("base64")]);
    assert!(matches!(r, Err(EncodingError::Base64Value(_))));
    // "aGVsbG9" has non-zero bits after the last byte
    let r = decode(&[utf8("aGVsbG9"), utf8("base64")]);
    assert!(matches!(r, Err(EncodingError::Base64Value(_))));
    let r = decode(&[utf8("a"), utf8("base64")]);
    assert!(matches!(r, Err(EncodingError::Base64Value(_))));
}

#[test]
fn decode_rejects_odd_or_invalid_hex() {
    let r = decode(&[utf8("abc"), utf8("hex")]);
    assert!(matches!(r, Err(EncodingError::HexValue(_))));
    let r = decode(&[utf8("zz"), utf8("hex")]);
    assert!(matches!(r, Err(EncodingError::HexValue(_))));
}

#[test]
fn wrong_argument_count() {
    let r = encode(&[binary(b"x")]);
    assert!(matches!(r, Err(EncodingError::ArgumentCount(_))));
    let r = decode(&[binary(b"x"), utf8("hex"), utf8("hex")]);
    assert!(matches!(r, Err(EncodingError::ArgumentCount(_))));
    if let Err(EncodingError::ArgumentCount(e)) = encode(&[]) {
        assert!(e.to_string().contains("encode function requires 2 arguments, got 0"));
    } else {
        panic!("expected an argument count error");
    }
}

#[test]
fn argument_count_error_names_function_and_count() {
    match decode(&[binary(b"x"), utf8("hex"), utf8("hex")]) {
        Err(EncodingError::ArgumentCount(e)) => assert_eq!(
            e.to_string(),
            "Execution error: decode function requires 2 arguments, got 3"
        ),
        other => panic!("unexpected {other:?}"),
    }
    match encode(&[binary(b"x")]) {
        Err(EncodingError::ArgumentCount(e)) => assert_eq!(
            e.to_string(),
            "Execution error: encode function requires 2 arguments, got 1"
        ),
        other => panic!("unexpected {other:?}"),
    }
    match EncodeFunc::new().coerce_types(&[DataType::Utf8, DataType::Utf8, DataType::Utf8]) {
        Err(EncodingError::ArgumentCount(e)) => assert_eq!(
            e.to_string(),
            "Execution error: encode function requires 2 arguments, got 3"
        ),
        other => panic!("unexpected {other:?}"),
    }
}

#[test]
fn decode_array_reports_first_bad_value() {
    let a = array_of(&[Some(b"00"), Some(b"zz"), Some(b"abc")]);
    match decode(&[ColumnarValue::Array(DataType::Binary, a), utf8("hex")]) {
        Err(EncodingError::HexArray(e)) => assert_eq!(
            e,
            hex::FromHexError::InvalidHexCharacter { c: 'z', index: 0 }
        ),
        other => panic!("unexpected {other:?}"),
    }
    let a = array_of(&[Some(b"abc"), Some(b"zz")]);
    match decode(&[ColumnarValue::Array(DataType::Binary, a), utf8("hex")]) {
        Err(EncodingError::HexArray(e)) => assert_eq!(e, hex::FromHexError::OddLength),
        other => panic!("unexpected {other:?}"),
    }
    let a = array_of(&[Some(b"aGk"), None, Some(b"a!"), Some(b"a")]);
    match decode(&[ColumnarValue::Array(DataType::Utf8, a), utf8("base64")]) {
        Err(EncodingError::Base64Array(e)) => assert_eq!(
            e,
            base64::DecodeSliceError::DecodeError(base64::DecodeError::InvalidByte(1, b'!'))
        ),
        other => panic!("unexpected {other:?}"),
    }
}

#[test]
fn decode_scalar_reports_codec_error() {
    match decode(&[utf8("zz"), utf8("hex")]) {
        Err(EncodingError::HexValue(e)) => assert_eq!(
            e,
            hex::FromHexError::InvalidHexCharacter { c: 'z', index: 0 }
        ),
        other => panic!("unexpected {other:?}"),
    }
    match decode(&[utf8("a"), utf8("base64")]) {
        Err(EncodingError::Base64Value(e)) => {
            assert_eq!(e, base64::DecodeError::InvalidLength(1))
        }
        other => panic!("unexpected {other:?}"),
    }
}

#[test]
fn unknown_format_is_named() {
    let r = encode(&[binary(b"x"), utf8("base32")]);
    match r {
        Err(EncodingError::UnknownEncoding(name)) => assert_eq!(name, "base32"),
        other => panic!("unexpected {other:?}"),
    }
    let r = decode(&[binary(b"x"), utf8("Hex")]);
    assert!(matches!(r, Err(EncodingError::UnknownEncoding(_))));
}

#[test]
fn format_must_be_a_constant_string() {
    let r = encode(&[binary(b"x"), ColumnarValue::Scalar(ScalarValue::Utf8(None))]);
    assert!(matches!(r, Err(EncodingError::FormatNotString(Function::Encode))));
    let r = decode(&[binary(b"x"), ColumnarValue::Scalar(ScalarValue::Other)]);
    assert!(matches!(r, Err(EncodingError::FormatNotString(Function::Decode))));
    let r = encode(&[
        binary(b"x"),
        ColumnarValue::Array(DataType::Utf8, array_of(&[Some(b"hex")])),
    ]);
    assert!(matches!(r, Err(EncodingError::FormatNotConstant(Function::Encode))));
}

#[test]
fn dictionary_format_is_read_through() {
    let format = ColumnarValue::Scalar(ScalarValue::Dictionary(Box::new(ScalarValue::LargeUtf8(
        Some("hex".to_string()),
    ))));
    let r = encode(&[binary(&[1, 2]), format]).unwrap();
    assert_eq!(text_of(r), Some("0102".to_string()));
}

#[test]
fn unsupported_value_types() {
    let r = encode(&[ColumnarValue::Scalar(ScalarValue::Other), utf8("hex")]);
    assert!(matches!(
        r,
        Err(EncodingError::UnsupportedType(Function::Encode, Encoding::Hex))
    ));
    let r = decode(&[
        ColumnarValue::Array(DataType::Other, array_of(&[])),
        utf8("base64"),
    ]);
    assert!(matches!(
        r,
        Err(EncodingError::UnsupportedType(Function::Decode, Encoding::Base64))
    ));
    let r = encode(&[ColumnarValue::Array(DataType::Null, array_of(&[None])), utf8("hex")]);
    assert!(matches!(r, Err(EncodingError::UnsupportedType(Function::Encode, _))));
}

#[test]
fn utf8_view_array_is_read_as_strings() {
    let a = ColumnarValue::Array(DataType::Utf8View, array_of(&[Some(b"ab"), None]));
    match encode_process(&a, Encoding::Hex).unwrap() {
        ColumnarValue::Array(DataType::Utf8, out) => {
            assert_eq!(items_of(out), vec![Some(b"6162".to_vec()), None])
        }
        other => panic!("unexpected {other:?}"),
    }
    let a = ColumnarValue::Array(DataType::Utf8View, array_of(&[Some(b"6162"), None]));
    match decode_process(&a, Encoding::Hex).unwrap() {
        ColumnarValue::Array(DataType::Binary, out) => {
            assert_eq!(items_of(out), vec![Some(b"ab".to_vec()), None])
        }
        other => panic!("unexpected {other:?}"),
    }
}

#[test]
fn results_are_compact() {
    // a sliced input whose null slot spans bytes and whose buffer has spare room
    let input = ByteArray::try_new(vec![1, 5, 9, 11], b"x6869zzzz7a--".to_vec(), vec![true, false, true])
        .unwrap();
    match decode_process(&ColumnarValue::Array(DataType::Binary, input), Encoding::Hex).unwrap() {
        ColumnarValue::Array(_, out) => {
            let (offsets, values, validity) = out.into_parts();
            assert_eq!(offsets, vec![0, 2, 2, 3]);
            assert_eq!(values, b"hiz".to_vec());
            assert_eq!(validity, vec![true, false, true]);
        }
        other => panic!("unexpected {other:?}"),
    }
    let input = ByteArray::try_new(vec![2, 3, 5], b"--abcd".to_vec(), vec![false, true]).unwrap();
    match encode_process(&ColumnarValue::Array(DataType::Binary, input), Encoding::Base64).unwrap() {
        ColumnarValue::Array(_, out) => {
            let (offsets, values, validity) = out.into_parts();
            assert_eq!(offsets, vec![0, 0, 3]);
            assert_eq!(values, b"YmM".to_vec());
            assert_eq!(validity, vec![false, true]);
        }
        other => panic!("unexpected {other:?}"),
    }
}

#[test]
fn scalar_widths_agree() {
    for e in [Encoding::Base64, Encoding::Hex] {
        let small = e.encode_scalar(Some(b"xyz"));
        let large = e.encode_large_scalar(Some(b"xyz"));
        match (small, large) {
            (ColumnarValue::Scalar(ScalarValue::Utf8(a)), ColumnarValue::Scalar(ScalarValue::LargeUtf8(b))) => {
                assert_eq!(a, b)
            }
            other => panic!("unexpected {other:?}"),
        }
        let text = if e == Encoding::Hex { &b"78797a"[..] } else { &b"eHl6"[..] };
        match (e.decode_scalar(Some(text)), e.decode_large_scalar(Some(text))) {
            (
                Ok(ColumnarValue::Scalar(ScalarValue::Binary(a))),
                Ok(ColumnarValue::Scalar(ScalarValue::LargeBinary(b))),
            ) => {
                assert_eq!(a, b);
                assert_eq!(a, Some(b"xyz".to_vec()));
            }
            other => panic!("unexpected {other:?}"),
        }
        assert!(e.decode_scalar(Some(b"?")).is_err() && e.decode_large_scalar(Some(b"?")).is_err());
    }
}

#[test]
fn encode_after_decode_gives_lowercase_hex_back() {
    let bytes = decode(&[utf8("QUJD"), utf8("base64")]).unwrap();
    assert_eq!(text_of(encode(&[bytes, utf8("base64")]).unwrap()), Some("QUJD".to_string()));
    let a = ColumnarValue::Array(DataType::Utf8, array_of(&[Some(b"0A"), None]));
    let bytes = decode(&[a, utf8("hex")]).unwrap();
    match encode(&[bytes, utf8("hex")]).unwrap() {
        ColumnarValue::Array(DataType::Utf8, out) => {
            assert_eq!(items_of(out), vec![Some(b"0a".to_vec()), None])
        }
        other => panic!("unexpected {other:?}"),
    }
}

#[test]
fn encode_array_keeps_nulls() {
    let a = array_of(&[Some(b"hi"), None, Some(b""), Some(&[0, 255])]);
    let r = encode(&[ColumnarValue::Array(DataType::Binary, a), utf8("hex")]).unwrap();
    match r {
        ColumnarValue::Array(DataType::Utf8, out) => assert_eq!(
            items_of(out),
            vec![Some(b"6869".to_vec()), None, Some(vec![]), Some(b"00ff".to_vec())]
        ),
        other => panic!("unexpected {other:?}"),
    }
}

#[test]
fn large_arrays_come_back_as_utf8_and_binary() {
    let a = array_of(&[Some(b"abc")]);
    let r = encode_process(&ColumnarValue::Array(DataType::LargeUtf8, a), Encoding::Base64).unwrap();
    match r {
        ColumnarValue::Array(t, out) => {
            assert_eq!(t, DataType::Utf8);
            assert_eq!(items_of(out), vec![Some(b"YWJj".to_vec())]);
        }
        other => panic!("unexpected {other:?}"),
    }
    let a = array_of(&[Some(b"YWJj")]);
    let r = decode_process(&ColumnarValue::Array(DataType::LargeBinary, a), Encoding::Base64).unwrap();
    match r {
        ColumnarValue::Array(t, out) => {
            assert_eq!(t, DataType::Binary);
            assert_eq!(items_of(out), vec![Some(b"abc".to_vec())]);
        }
        other => panic!("unexpected {other:?}"),
    }
}

#[test]
fn decode_array_of_many_short_base64_values() {
    // each value decodes to 1 byte, the shared buffer is sized from all the value bytes
    let items: Vec<Option<&[u8]>> = vec![Some(b"AA"), Some(b"/w"), None, Some(b"YQ"), Some(b"YWI")];
    let a = array_of(&items);
    let r = decode(&[ColumnarValue::Array(DataType::Utf8, a), utf8("base64")]).unwrap();
    match r {
        ColumnarValue::Array(DataType::Binary, out) => assert_eq!(
            items_of(out),
            vec![Some(vec![0]), Some(vec![255]), None, Some(b"a".to_vec()), Some(b"ab".to_vec())]
        ),
        other => panic!("unexpected {other:?}"),
    }
}

#[test]
fn decode_array_fails_on_any_bad_value() {
    let a = array_of(&[Some(b"6869"), Some(b"6")]);
    let r = decode(&[ColumnarValue::Array(DataType::Binary, a), utf8("hex")]);
    assert!(matches!(r, Err(EncodingError::HexArray(_))));
    let a = array_of(&[Some(b"YQ"), Some(b"Y===")]);
    let r = decode(&[ColumnarValue::Array(DataType::Binary, a), utf8("base64")]);
    assert!(matches!(r, Err(EncodingError::Base64Array(_))));
}

#[test]
fn decode_sliced_array() {
    // offsets that start past the beginning of the buffer, and a null slot that spans bytes
    let values = b"xx6869zz7a".to_vec();
    let a = ByteArray::try_new(vec![2, 6, 8, 10], values, vec![true, false, true]).unwrap();
    let r = decode(&[ColumnarValue::Array(DataType::Binary, a), utf8("hex")]).unwrap();
    match r {
        ColumnarValue::Array(DataType::Binary, out) => {
            assert_eq!(items_of(out), vec![Some(b"hi".to_vec()), None, Some(b"z".to_vec())])
        }
        other => panic!("unexpected {other:?}"),
    }
}

#[test]
fn byte_array_rejects_bad_parts() {
    assert!(ByteArray::try_new(vec![0, 2, 1], vec![0; 2], vec![true, true]).is_none());
    assert!(ByteArray::try_new(vec![0, 3], vec![0; 2], vec![true]).is_none());
    assert!(ByteArray::try_new(vec![0], vec![], vec![true]).is_none());
    assert!(ByteArray::try_new(vec![], vec![], vec![]).is_none());
    assert!(ByteArray::try_new(vec![0], vec![], vec![]).is_some());
}

#[test]
fn roundtrip_scalars_and_arrays() {
    for format in ["hex", "base64"] {
        for v in [&b""[..], b"a", b"ab", b"abc", b"abcd", &[0, 1, 2, 254, 255]] {
            let text = encode(&[binary(v), utf8(format)]).unwrap();
            let back = decode(&[text, utf8(format)]).unwrap();
            assert_eq!(bytes_of(back), Some(v.to_vec()));
        }
        let items: Vec<Option<&[u8]>> = vec![Some(b"one"), None, Some(b""), Some(&[9, 8, 7, 6])];
        let text = encode(&[ColumnarValue::Array(DataType::Binary, array_of(&items)), utf8(format)])
            .unwrap();
        let back = decode(&[text, utf8(format)]).unwrap();
        match back {
            ColumnarValue::Array(DataType::Binary, out) => assert_eq!(
                items_of(out),
                items.iter().map(|o| o.map(|v| v.to_vec())).collect::<Vec<_>>()
            ),
            other => panic!("unexpected {other:?}"),
        }
    }
}

#[test]
fn hex_reencodes_in_lowercase() {
    let bytes = decode(&[utf8("DEADbeef"), utf8("hex")]).unwrap();
    let text = encode(&[bytes, utf8("hex")]).unwrap();
    assert_eq!(text_of(text), Some("deadbeef".to_string()));
}

#[test]
fn names_parse_back() {
    for e in [Encoding::Base64, Encoding::Hex] {
        assert_eq!(Encoding::from_str(e.name()).unwrap(), e);
    }
    assert_eq!(Encoding::Base64.name(), "base64");
    assert_eq!(Encoding::Hex.name(), "hex");
}

#[test]
fn encode_planning_rules() {
    let f = EncodeFunc::new();
    assert_eq!(f.name(), "encode");
    assert_eq!(f.return_type(&[DataType::Utf8]).unwrap(), DataType::Utf8);
    assert_eq!(f.return_type(&[DataType::Utf8View]).unwrap(), DataType::Utf8);
    assert_eq!(f.return_type(&[DataType::Binary]).unwrap(), DataType::Utf8);
    assert_eq!(f.return_type(&[DataType::LargeBinary]).unwrap(), DataType::LargeUtf8);
    assert_eq!(f.return_type(&[DataType::LargeUtf8]).unwrap(), DataType::LargeUtf8);
    assert_eq!(f.return_type(&[DataType::Null]).unwrap(), DataType::Null);
    assert!(matches!(f.return_type(&[DataType::Other]), Err(EncodingError::ReturnType)));

    assert_eq!(
        f.coerce_types(&[DataType::Utf8View, DataType::Utf8]).unwrap(),
        vec![DataType::Utf8, DataType::Utf8]
    );
    assert_eq!(
        f.coerce_types(&[DataType::Null, DataType::Utf8]).unwrap(),
        vec![DataType::Utf8, DataType::Utf8]
    );
    assert_eq!(
        f.coerce_types(&[DataType::LargeBinary, DataType::Utf8]).unwrap(),
        vec![DataType::LargeBinary, DataType::Utf8]
    );
    assert!(matches!(
        f.coerce_types(&[DataType::Binary, DataType::LargeUtf8]),
        Err(EncodingError::SecondArgumentNotUtf8)
    ));
    assert!(matches!(
        f.coerce_types(&[DataType::Other, DataType::Utf8]),
        Err(EncodingError::FirstArgumentType)
    ));
    assert!(matches!(f.coerce_types(&[DataType::Utf8]), Err(EncodingError::ArgumentCount(_))));
}

#[test]
fn decode_planning_rules() {
    let f = DecodeFunc::new();
    assert_eq!(f.name(), "decode");
    assert_eq!(f.return_type(&[DataType::LargeBinary]).unwrap(), DataType::LargeBinary);
    assert_eq!(f.return_type(&[DataType::Utf8]).unwrap(), DataType::Utf8);
    assert_eq!(
        f.coerce_types(&[DataType::Utf8, DataType::Utf8]).unwrap(),
        vec![DataType::Binary, DataType::Utf8]
    );
    assert_eq!(
        f.coerce_types(&[DataType::LargeUtf8, DataType::Utf8]).unwrap(),
        vec![DataType::LargeBinary, DataType::Utf8]
    );
    assert!(matches!(
        f.coerce_types(&[DataType::Utf8]),
        Err(EncodingError::ArgumentTypeCount(1))
    ));
    assert!(matches!(
        f.coerce_types(&[DataType::Utf8, DataType::Binary]),
        Err(EncodingError::SecondArgumentNotUtf8)
    ));
    assert!(matches!(
        f.coerce_types(&[DataType::Other, DataType::Utf8]),
        Err(EncodingError::FirstArgumentType)
    ));
}

#[test]
fn signatures_are_user_defined_and_immutable() {
    let f = EncodeFunc::default();
    assert_eq!(f.signature().type_signature, datafusion_expr::TypeSignature::UserDefined);
    assert_eq!(f.signature().volatility, datafusion_expr::Volatility::Immutable);
    let g = DecodeFunc::default();
    assert_eq!(g.signature().volatility, datafusion_expr::Volatility::Immutable);
}

#[test]
fn invoke_with_args_runs_the_function() {
    let r = EncodeFunc::new().invoke_with_args(&[binary(b"\x01"), utf8("hex")]).unwrap();
    assert_eq!(text_of(r), Some("01".to_string()));
    let r = DecodeFunc::new().invoke_with_args(&[utf8("AQ"), utf8("base64")]).unwrap();
    assert_eq!(bytes_of(r), Some(vec![1]));
}

#[test]
fn coercion_settles_and_has_a_result_type() {
    let all = [
        DataType::Null,
        DataType::Utf8,
        DataType::LargeUtf8,
        DataType::Utf8View,
        DataType::Binary,
        DataType::LargeBinary,
        DataType::Other,
    ];
    let e = EncodeFunc::new();
    let d = DecodeFunc::new();
    for t in all {
        if let Ok(c) = e.coerce_types(&[t, DataType::Utf8]) {
            assert_eq!(e.coerce_types(&c).unwrap(), c);
            assert!(e.return_type(&c[..1]).is_ok());
        }
        if let Ok(c) = d.coerce_types(&[t, DataType::Utf8]) {
            assert_eq!(d.coerce_types(&c).unwrap(), c);
        }
    }
}

#[test]
fn scalar_results_have_the_announced_type() {
    let f = EncodeFunc::new();
    let cases = [
        (ScalarValue::Utf8(Some("a".to_string())), DataType::Utf8),
        (ScalarValue::LargeUtf8(Some("a".to_string())), DataType::LargeUtf8),
        (ScalarValue::Utf8View(Some("a".to_string())), DataType::Utf8View),
        (ScalarValue::Binary(Some(vec![1])), DataType::Binary),
        (ScalarValue::LargeBinary(Some(vec![1])), DataType::LargeBinary),
    ];
    for (s, t) in cases {
        let announced = f.return_type(&[t]).unwrap();
        let got = match encode(&[ColumnarValue::Scalar(s), utf8("hex")]).unwrap() {
            ColumnarValue::Scalar(ScalarValue::Utf8(_)) => DataType::Utf8,
            ColumnarValue::Scalar(ScalarValue::LargeUtf8(_)) => DataType::LargeUtf8,
            other => panic!("unexpected {other:?}"),
        };
        assert_eq!(got, announced);
    }
}

#[test]
fn decode_format_array_is_refused() {
    let r = decode(&[
        utf8("00"),
        ColumnarValue::Array(DataType::Utf8, array_of(&[Some(b"hex")])),
    ]);
    assert!(matches!(r, Err(EncodingError::FormatNotConstant(Function::Decode))));
}

#[test]
fn parse_through_from_str() {
    assert_eq!("base64".parse::<Encoding>().unwrap(), Encoding::Base64);
    assert!(matches!("b64".parse::<Encoding>(), Err(EncodingError::UnknownEncoding(n)) if n == "b64"));
}

#[test]
fn array_of_another_type_fails_to_cast() {
    let a = array_of(&[Some(b"ab")]);
    let r = Encoding::Hex.encode_utf8_array(DataType::Binary, &a, OffsetSize::I64);
    assert!(matches!(r, Err(EncodingError::CastFailed(DataType::LargeUtf8))));
    let r = Encoding::Base64.decode_binary_array(DataType::Utf8, &a, OffsetSize::I32);
    assert!(matches!(r, Err(EncodingError::CastFailed(DataType::Binary))));
}
