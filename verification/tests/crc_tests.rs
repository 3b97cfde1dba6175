use galaxy::{galaxy_crc, galaxy_crc_vectored, CheckGalaxyCRC, GalaxyCRC};

#[test]
fn test_galaxy_crc() {
    let crc = galaxy_crc(vec![0x10, 0x00, 0x0E].as_slice());
    let expect = 0xC8;

    assert_eq!(
        crc, expect,
        "CRC failure: expected={:02X} got={:02X}",
        crc, expect
    );
}

#[test]
fn test_vector() {
    let crc = vec![0x10, 0x00, 0x0E].galaxy_crc();
    assert_eq!(crc, 0xC8);
}

#[test]
fn test_check_vector() {
    assert!(vec![0x10, 0x00, 0x0E, 0xC8].check_galaxy_crc().is_ok());
    assert!(vec![0x10, 0x00, 0x0E, 0xAB].check_galaxy_crc().is_err());
}

#[test]
fn test_vectored_matches_concatenation() {
    let a: &[u8] = &[0x10, 0x00];
    let b: &[u8] = &[0x0E];
    let whole: &[u8] = &[0x10, 0x00, 0x0E];
    assert_eq!(galaxy_crc_vectored(&[a, b]), galaxy_crc(whole));
    assert_eq!(galaxy_crc_vectored(&[a, b]), 0xC8);
}

#[test]
fn test_vectored_empty_input_is_seed() {
    assert_eq!(galaxy_crc_vectored(&[]), 0xAA);
    assert_eq!(galaxy_crc(&[]), 0xAA);
}

#[test]
fn test_round_trip_accepts_own_crc() {
    let mut framed = vec![0x42, 0x13, 0x07, 0x99];
    let crc = galaxy_crc(framed.as_slice());
    framed.push(crc);
    assert!(framed.check_galaxy_crc().is_ok());
}

#[test]
fn test_single_byte_change_is_detected() {
    let mut framed = vec![0x42, 0x13, 0x07, 0x99];
    let crc = galaxy_crc(framed.as_slice());
    framed.push(crc);
    for i in 0..framed.len() {
        let mut tampered = framed.clone();
        tampered[i] = tampered[i].wrapping_add(1);
        assert!(
            tampered.check_galaxy_crc().is_err(),
            "change at {} not detected",
            i
        );
    }
}

#[test]
fn test_check_error_carries_expected_crc() {
    let framed = vec![0x10, 0x00, 0x0E, 0xAB];
    let err = framed.check_galaxy_crc().unwrap_err();
    assert_eq!(err, galaxy::GalaxyCRCCheckError(0xC8));
}
