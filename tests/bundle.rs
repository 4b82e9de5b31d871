use signal_bridge::bundle::{
    deserialize_bundle, serialize_bundle, BundleDecodeError, OneTimePreKeyPublic, PreKeyBundle,
};

fn sample(pre_key: bool) -> PreKeyBundle {
    PreKeyBundle {
        registration_id: 0x01020304,
        device_id: 1,
        pre_key: if pre_key {
            Some(OneTimePreKeyPublic {
                id: 7,
                public_key: vec![5, 9, 9],
            })
        } else {
            None
        },
        signed_pre_key_id: 2,
        signed_pre_key_public: vec![5, 1],
        signed_pre_key_signature: vec![0xaa; 4],
        identity_key: vec![5; 33],
        kyber_pre_key_id: 3,
        kyber_pre_key_public: vec![8, 8],
        kyber_pre_key_signature: vec![],
    }
}

fn same(a: &PreKeyBundle, b: &PreKeyBundle) -> bool {
    serialize_bundle(a) == serialize_bundle(b)
        && a.registration_id == b.registration_id
        && a.device_id == b.device_id
        && a.identity_key == b.identity_key
        && a.kyber_pre_key_signature == b.kyber_pre_key_signature
}

#[test]
fn bundle_encoding_layout() {
    let bytes = serialize_bundle(&sample(false));
    let mut expected = vec![4, 3, 2, 1, 1, 0, 0, 0, 0, 2, 0, 0, 0];
    expected.extend([2, 0, 0, 0, 0, 0, 0, 0, 5, 1]);
    expected.extend([4, 0, 0, 0, 0, 0, 0, 0, 0xaa, 0xaa, 0xaa, 0xaa]);
    expected.extend([33, 0, 0, 0, 0, 0, 0, 0]);
    expected.extend([5u8; 33]);
    expected.extend([3, 0, 0, 0]);
    expected.extend([2, 0, 0, 0, 0, 0, 0, 0, 8, 8]);
    expected.extend([0, 0, 0, 0, 0, 0, 0, 0]);
    assert_eq!(bytes, expected);
}

#[test]
fn bundle_round_trips_with_and_without_one_time_key() {
    for with in [true, false] {
        let b = sample(with);
        let bytes = serialize_bundle(&b);
        let back = deserialize_bundle(&bytes).unwrap();
        assert!(same(&b, &back));
        assert_eq!(back.pre_key.is_some(), with);
        if with {
            let p = back.pre_key.unwrap();
            assert_eq!(p.id, 7);
            assert_eq!(p.public_key, vec![5, 9, 9]);
        }
    }
}

#[test]
fn equal_bundles_encode_identically() {
    assert_eq!(serialize_bundle(&sample(true)), serialize_bundle(&sample(true)));
    assert_ne!(serialize_bundle(&sample(true)), serialize_bundle(&sample(false)));
}

#[test]
fn garbage_is_not_a_bundle() {
    assert_eq!(
        deserialize_bundle(&[0xFF, 0xFE, 0xFD, 0xFC]).unwrap_err(),
        BundleDecodeError::Truncated
    );
    assert_eq!(deserialize_bundle(&[]).unwrap_err(), BundleDecodeError::Truncated);
}

#[test]
fn bad_flag_and_trailing_bytes_are_rejected() {
    let mut bytes = serialize_bundle(&sample(false));
    bytes[8] = 2;
    assert_eq!(deserialize_bundle(&bytes).unwrap_err(), BundleDecodeError::BadFlag);
    let mut bytes = serialize_bundle(&sample(true));
    bytes.push(0);
    assert_eq!(
        deserialize_bundle(&bytes).unwrap_err(),
        BundleDecodeError::TrailingBytes
    );
    let bytes = serialize_bundle(&sample(true));
    assert_eq!(
        deserialize_bundle(&bytes[..bytes.len() - 1]).unwrap_err(),
        BundleDecodeError::Truncated
    );
}

#[test]
fn oversized_length_prefix_is_rejected() {
    let mut bytes = serialize_bundle(&sample(false));
    // The signed pre-key public length field starts at byte 13.
    bytes[13] = 0xff;
    assert_eq!(deserialize_bundle(&bytes).unwrap_err(), BundleDecodeError::Truncated);
}
