use thumbor_core::codec::{decode, encode, CodecError};
use thumbor_core::pb::{Filter, ImageSpec, Resize, ResizeType, SampleFilter, Spec, SpecData};

#[test]
fn encoded_spec_could_be_decoded() {
    let spec1 = Spec::new_resize(600, 600, SampleFilter::CatmullRom);
    let spec2 = Spec::new_filter(Filter::Marine);

    let image_spec = ImageSpec::new(vec![spec1, spec2]);
    let encoded: String = encode(&image_spec);
    println!("{}", encoded);
    assert_eq!(image_spec, decode(encoded.as_str()).unwrap());
}

#[test]
fn round_trip_of_every_operation_kind() {
    let image_spec = ImageSpec::new(vec![
        Spec::new_resize(1, 1, SampleFilter::Undefined),
        Spec::new_resize(4096, 2160, SampleFilter::Lanczos3),
        Spec::new_resize_seam_carve(800, 600),
        Spec::new_filter(Filter::Unspecified),
        Spec::new_filter(Filter::Oceanic),
        Spec::new_filter(Filter::Islands),
        Spec::new_filter(Filter::Marine),
        Spec { data: None },
        Spec {
            data: Some(SpecData::Resize(Resize {
                width: 0,
                height: 0,
                rtype: ResizeType::Normal,
                filter: SampleFilter::Undefined,
            })),
        },
    ]);
    let token = encode(&image_spec);
    assert_eq!(image_spec, decode(token.as_str()).unwrap());
}

#[test]
fn round_trip_of_empty_pipeline() {
    let image_spec = ImageSpec::new(vec![]);
    let token = encode(&image_spec);
    assert_eq!(token, "");
    assert_eq!(image_spec, decode(token.as_str()).unwrap());
}

#[test]
fn token_bytes_are_exact_for_known_pipeline() {
    // One marine-filter step: record body [0x08, 0x03] inside a filter
    // sub-record (field 2), inside a step entry (field 1), then base64.
    let image_spec = ImageSpec::new(vec![Spec::new_filter(Filter::Marine)]);
    assert_eq!(encode(&image_spec), "CgQSAggD");
}

#[test]
fn token_uses_url_safe_alphabet_only() {
    let mut specs = Vec::new();
    for i in 0..64u32 {
        specs.push(Spec::new_resize(
            4000 + i,
            63 + 7 * i,
            SampleFilter::CatmullRom,
        ));
        specs.push(Spec::new_filter(Filter::Marine));
    }
    let token = encode(&ImageSpec::new(specs));
    for c in token.chars() {
        let ok = c.is_ascii_alphanumeric() || c == '-' || c == '_';
        assert!(ok, "unexpected token character {:?}", c);
        assert!(c != '+' && c != '/' && c != '=');
    }
}

#[test]
fn order_of_operations_changes_the_token() {
    let resize = Spec::new_resize(600, 600, SampleFilter::CatmullRom);
    let filter = Spec::new_filter(Filter::Marine);
    let one = encode(&ImageSpec::new(vec![resize.clone(), filter.clone()]));
    let two = encode(&ImageSpec::new(vec![filter, resize]));
    assert_ne!(one, two);
}

#[test]
fn malformed_inputs_are_told_apart() {
    assert_eq!(
        decode("not a valid token!!"),
        Err(CodecError::InvalidBase64)
    );
    // "____" is valid base64 for the three bytes ff ff ff, which are not a
    // well-formed pipeline.
    assert_eq!(decode("____"), Err(CodecError::MalformedWireBytes));
    // A length one more than a multiple of four can never be base64.
    assert_eq!(decode("CgQSA"), Err(CodecError::InvalidBase64));
    // Padding is not part of the token format.
    assert_eq!(decode("CgQSAggD=="), Err(CodecError::InvalidBase64));
    // A truncated record: entry announces four body bytes, two follow.
    assert_eq!(decode("CgQSAg"), Err(CodecError::MalformedWireBytes));
}

#[test]
fn unknown_wire_fields_are_skipped_not_rejected() {
    // A step entry whose body holds only field number 7 (varint wire type),
    // unknown to this decoder: it parses as the ignorable step.
    let bytes = vec![0x0Au8, 0x02, 0x38, 0x01];
    let token = base64::Engine::encode(&base64::engine::general_purpose::URL_SAFE_NO_PAD, &bytes);
    let decoded = decode(token.as_str()).unwrap();
    assert_eq!(decoded, ImageSpec::new(vec![Spec { data: None }]));
}
