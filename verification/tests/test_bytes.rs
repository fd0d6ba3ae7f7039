use tesap_std::bytes::{bin_to_u8, hex_to_u8, is_bin, is_hex, u8_to_bin, u8_to_hex};
use tesap_std::{Bins, Bytes, Hex, Vector};

struct TestSample<'a> {
    bytes: &'a [u8],
    int: i128,
    bins: Bins,
    hex: Hex,
}

fn s1() -> TestSample<'static> {
    TestSample {
        bytes: &[1, 2, 3, 4, 5, 0, 0, 0, 0, 0, 0, 0, 0, 0, 0, 0],
        int: 21542142465,
        bins: Bins(Vector::from_slice_clone(&[
            "00000001".to_string(),
            "00000010".to_string(),
            "00000011".to_string(),
            "00000100".to_string(),
            "00000101".to_string(),
            "00000000".to_string(),
            "00000000".to_string(),
            "00000000".to_string(),
            "00000000".to_string(),
            "00000000".to_string(),
            "00000000".to_string(),
            "00000000".to_string(),
            "00000000".to_string(),
            "00000000".to_string(),
            "00000000".to_string(),
            "00000000".to_string(),
        ])),
        hex: Hex("01020304050000000000000000000000".to_string()),
    }
}

fn sample_from_bytes(ts: &TestSample) -> Bytes {
    Bytes::from_bytes(ts.bytes)
}

fn sample_from_int(ts: &TestSample) -> Bytes {
    Bytes::from_int(&ts.int)
}

fn sample_from_bin(ts: &TestSample) -> Bytes {
    assert!(ts.bins.0.iter().all(|b| is_bin(b)));
    Bytes::from_bins(&ts.bins)
}

fn sample_from_hex(ts: &TestSample) -> Bytes {
    assert!(is_hex(&ts.hex.0));
    Bytes::from_hex(&ts.hex)
}

fn compare_bytes(b1: &Bytes, b2: &Bytes) {
    assert_eq!(b1.as_slice(), b2.as_slice());
    assert_eq!(b1.to_int128(), b2.to_int128());
    assert_eq!(b1.to_bin().0.as_slice(), b2.to_bin().0.as_slice());
    assert_eq!(b1.to_hex().0, b2.to_hex().0);
}

#[test]
fn test_compare_pairwise_s1() {
    let ts = s1();
    let b1 = sample_from_bytes(&ts);
    let b2 = sample_from_int(&ts);
    let b3 = sample_from_bin(&ts);
    let b4 = sample_from_hex(&ts);

    compare_bytes(&b1, &b2);
    compare_bytes(&b1, &b3);
    compare_bytes(&b1, &b4);
    compare_bytes(&b2, &b3);
    compare_bytes(&b2, &b4);
    compare_bytes(&b3, &b4);

    assert_eq!(b1.as_slice(), ts.bytes);
    assert_eq!(b1.to_int128(), Ok(ts.int));
    assert_eq!(b1.to_bin().0.as_slice(), ts.bins.0.as_slice());
    assert_eq!(b1.to_hex().0, ts.hex.0);
}

#[test]
fn test_from_bytes() {
    let b: Bytes = Bytes::from_bytes(&[1, 2, 3, 4, 5]);
    assert_eq!(b.as_slice(), &[1, 2, 3, 4, 5]);
}

#[test]
fn test_from_int() {
    let x: i128 = 21542142465;
    let b: Bytes = Bytes::from_int(&x);
    assert_eq!(b.as_slice(), &[1, 2, 3, 4, 5, 0, 0, 0, 0, 0, 0, 0, 0, 0, 0, 0]);
}

#[test]
fn test_compare() {
    let b1 = Bytes::from_bytes(&[1, 2, 3, 4, 5]);
    let x: i128 = 21542142465;
    let b2 = Bytes::from_int(&x);

    assert_eq!(b1.to_int128(), b2.to_int128());
}

#[test]
fn test_from_vec() {
    let bs: Bytes = {
        let v: Vector<u8> = Vector::from_slice_copy(&[1, 2, 3, 4, 5]);
        Bytes::from(v)
    };

    assert_eq!(bs.as_slice(), &[1, 2, 3, 4, 5]);
}

#[test]
fn test_into_vec() {
    let v: Vector<u8> = {
        let bs: Bytes = Bytes::from_bytes(&[1, 2, 3, 4, 5]);
        bs.into()
    };

    assert_eq!(v.as_slice(), &[1, 2, 3, 4, 5]);
}

#[test]
fn test_bytes_test_from_std_vec() {
    let bs: Bytes = {
        let v: Vec<u8> = vec![1, 2, 3, 4, 5];
        Bytes::from(v)
    };

    assert_eq!(bs.as_slice(), &[1, 2, 3, 4, 5]);
}

#[test]
fn test_bytes_test_into_std_vec() {
    let v: Vec<u8> = {
        let bs: Bytes = Bytes::from_bytes(&[1, 2, 3, 4, 5]);
        bs.into()
    };

    assert_eq!(v.as_slice(), &[1, 2, 3, 4, 5]);
}

#[test]
fn bytes_default_is_empty() {
    let b = Bytes::default();
    assert!(b.as_slice().is_empty());
    assert_eq!(b.to_hex().0, "");
    assert_eq!(b.to_bin().0.len(), 0);
    assert_eq!(b.to_int128(), Ok(0));
}

#[test]
fn byte_as_binary_text() {
    assert_eq!(u8_to_bin(&0), "00000000");
    assert_eq!(u8_to_bin(&1), "00000001");
    assert_eq!(u8_to_bin(&0b1010_0110), "10100110");
    assert_eq!(u8_to_bin(&128), "10000000");
    assert_eq!(u8_to_bin(&255), "11111111");
    for n in 0..=255u8 {
        assert_eq!(u8_to_bin(&n), format!("{:08b}", n));
    }
}

#[test]
fn byte_as_hex_text() {
    assert_eq!(u8_to_hex(&0), "00");
    assert_eq!(u8_to_hex(&9), "09");
    assert_eq!(u8_to_hex(&10), "0a");
    assert_eq!(u8_to_hex(&0xf3), "f3");
    assert_eq!(u8_to_hex(&255), "ff");
    for n in 0..=255u8 {
        assert_eq!(u8_to_hex(&n), format!("{:02x}", n));
    }
}

#[test]
fn binary_text_as_byte() {
    assert_eq!(bin_to_u8(&"00000101".to_string()), 5);
    assert_eq!(bin_to_u8(&"11111111".to_string()), 255);
    assert_eq!(bin_to_u8(&"101".to_string()), 5);
    assert_eq!(bin_to_u8(&"0".to_string()), 0);
    for n in 0..=255u8 {
        assert_eq!(bin_to_u8(&u8_to_bin(&n)), n);
    }
}

#[test]
fn hex_pair_as_byte() {
    assert_eq!(hex_to_u8("00"), 0);
    assert_eq!(hex_to_u8("7d"), 0x7d);
    assert_eq!(hex_to_u8("7D"), 0x7d);
    assert_eq!(hex_to_u8("fF"), 255);
    for n in 0..=255u8 {
        assert_eq!(hex_to_u8(&u8_to_hex(&n)), n);
    }
}

#[test]
fn what_counts_as_binary_text() {
    assert!(is_bin("0"));
    assert!(is_bin("10100110"));
    assert!(!is_bin(""));
    assert!(!is_bin("101001101"));
    assert!(!is_bin("1010011x"));
    assert!(!is_bin("+1"));
    assert!(!is_bin("1é"));
}

#[test]
fn what_counts_as_hex_text() {
    assert!(is_hex(""));
    assert!(is_hex("3bed02d1"));
    assert!(is_hex("3BED02D1"));
    assert!(!is_hex("3be"));
    assert!(!is_hex("3g"));
    assert!(!is_hex("+1"));
    assert!(!is_hex("é"));
    assert!(!is_hex("/:"));
    assert!(!is_hex("@G"));
    assert!(!is_hex("`g"));
}

#[test]
fn bytes_to_and_from_hex() {
    let b = Bytes::from_bytes(&[0x3b, 0xed, 0x02, 0xd1, 0x00, 0xff]);
    assert_eq!(b.to_hex().0, "3bed02d100ff");
    let back = Bytes::from_hex(&Hex("3bed02d100ff".to_string()));
    assert_eq!(back.as_slice(), &[0x3b, 0xed, 0x02, 0xd1, 0x00, 0xff]);
    let upper = Bytes::from_hex(&Hex("3BED02D100FF".to_string()));
    assert_eq!(upper.as_slice(), &[0x3b, 0xed, 0x02, 0xd1, 0x00, 0xff]);
    let none = Bytes::from_hex(&Hex(String::new()));
    assert!(none.as_slice().is_empty());
}

#[test]
fn bytes_to_and_from_bins() {
    let b = Bytes::from_bytes(&[1, 0xf3, 0x7d, 0x19]);
    let bins = b.to_bin();
    assert_eq!(bins.0.as_slice(), &["00000001", "11110011", "01111101", "00011001"]);
    let back = Bytes::from_bins(&bins);
    assert_eq!(back.as_slice(), &[1, 0xf3, 0x7d, 0x19]);
}

#[test]
fn bytes_as_integer() {
    assert_eq!(Bytes::from_bytes(&[]).to_int128(), Ok(0));
    assert_eq!(Bytes::from_bytes(&[1]).to_int128(), Ok(1));
    assert_eq!(Bytes::from_bytes(&[0, 1]).to_int128(), Ok(256));
    assert_eq!(Bytes::from_bytes(&[1, 2, 3, 4, 5]).to_int128(), Ok(21542142465));
    assert_eq!(Bytes::from_bytes(&[0xff; 16]).to_int128(), Ok(-1));
    let mut low = [0u8; 16];
    low[15] = 0x80;
    assert_eq!(Bytes::from_bytes(&low).to_int128(), Ok(i128::MIN));
    let mut high = [0xffu8; 16];
    high[15] = 0x7f;
    assert_eq!(Bytes::from_bytes(&high).to_int128(), Ok(i128::MAX));
    assert_eq!(
        Bytes::from_bytes(&[0; 17]).to_int128(),
        Err("Bytes length is too big".to_string())
    );
}

#[test]
fn integer_as_bytes_and_back() {
    for x in [0i128, 1, -1, 255, 256, -256, 21542142465, i128::MAX, i128::MIN, i128::MIN + 1] {
        let b = Bytes::from_int(&x);
        assert_eq!(b.as_slice(), &x.to_le_bytes());
        assert_eq!(b.as_slice().len(), 16);
        assert_eq!(b.to_int128(), Ok(x));
    }
}

#[test]
fn bins_as_one_text() {
    let bins = Bytes::from_bytes(&[1, 0xf3, 0x7d]).to_bin();
    assert_eq!(bins.to_text(), "00000001 11110011 01111101");
    assert_eq!(Bytes::from_bytes(&[5]).to_bin().to_text(), "00000101");
    assert_eq!(Bytes::from_bytes(&[]).to_bin().to_text(), "");
    let free = Bins(Vector::from_slice_clone(&["a".to_string(), "".to_string(), "bc".to_string()]));
    assert_eq!(free.to_text(), "a  bc");
}
