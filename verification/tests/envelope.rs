use lindera_dictionary::decompress::{Algorithm, CompressedData};
use lindera_store::envelope::{payload_fits, unwrap_raw, wrap_raw};

fn wrap(payload: &[u8]) -> Vec<u8> {
    match wrap_raw(payload) {
        Ok(file) => file,
        Err(f) => panic!("{}", f.context),
    }
}

#[test]
fn envelope_is_the_payload_and_its_root() {
    let file = wrap(&[1, 2, 3]);
    assert_eq!(
        file,
        vec![1, 2, 3, 0, 3, 0, 0, 0, 0xf8, 0xff, 0xff, 0xff, 3, 0, 0, 0]
    );
}

#[test]
fn envelope_reads_back() {
    let payloads: Vec<Vec<u8>> = vec![
        vec![],
        vec![0],
        vec![255; 5],
        (0..=255).collect(),
        vec![7; 100_000],
    ];
    for payload in payloads {
        let file = wrap(&payload);
        assert_eq!(unwrap_raw(&file), Some(payload.clone()));
        assert_eq!(&file[..payload.len()], payload.as_slice());
        assert_ne!(file, payload);
    }
}

#[test]
fn envelope_is_marked_raw() {
    let file = wrap(b"abc");
    let mut aligned = rkyv::util::AlignedVec::<16>::new();
    aligned.extend_from_slice(&file);
    let data = rkyv::from_bytes::<CompressedData, rkyv::rancor::Error>(&aligned);
    match data {
        Ok(data) => {
            assert_eq!(data.algorithm, Algorithm::Raw);
            assert_eq!(data.data, b"abc".to_vec());
        }
        Err(_) => panic!("no envelope"),
    }
}

#[test]
fn envelopes_tell_payloads_apart() {
    let payloads: Vec<Vec<u8>> = vec![vec![], vec![0], vec![0, 0], vec![1], vec![1, 0, 0, 0]];
    for x in &payloads {
        for y in &payloads {
            assert_eq!(wrap(x) == wrap(y), x == y);
        }
    }
}

#[test]
fn other_bytes_are_no_envelope() {
    assert_eq!(unwrap_raw(&[]), None);
    assert_eq!(unwrap_raw(&[1, 2, 3]), None);
    assert_eq!(unwrap_raw(&[0xff; 16]), None);
}

#[test]
fn compressed_envelope_that_does_not_decompress() {
    let data = CompressedData::new(Algorithm::Gzip, vec![1, 2, 3]);
    match rkyv::to_bytes::<rkyv::rancor::Error>(&data) {
        Ok(file) => assert_eq!(unwrap_raw(&file), None),
        Err(_) => panic!("no archive"),
    }
}

#[test]
fn payloads_up_to_the_reach_of_an_offset_fit() {
    assert!(payload_fits(0));
    assert!(payload_fits(0x7fff_fffc));
    assert!(!payload_fits(0x7fff_fffd));
    assert!(!payload_fits(usize::MAX));
}
