use account_address::{Address, ParseError, LENGTH};

fn counting_bytes() -> [u8; LENGTH] {
    let mut b = [0u8; LENGTH];
    for (i, x) in b.iter_mut().enumerate() {
        *x = i as u8;
    }
    b
}

#[test]
fn new_keeps_bytes() {
    let b = counting_bytes();
    assert_eq!(Address::new(b).as_bytes(), &b[..]);
    assert_eq!(Address::new(b).as_ref(), &b[..]);
}

#[test]
fn display_is_canonical_upper_hex() {
    let a = Address::new(counting_bytes());
    assert_eq!(a.to_display_string(), "000102030405060708090A0B0C0D0E0F10111213");
}

#[test]
fn display_of_high_bytes() {
    let a = Address::new([0xab; LENGTH]);
    assert_eq!(a.to_display_string(), "AB".repeat(LENGTH));
    assert_eq!(Address::new([0xff; LENGTH]).to_display_string().len(), 2 * LENGTH);
}

#[test]
fn debug_form_wraps_display() {
    let a = Address::new(counting_bytes());
    assert_eq!(
        a.debug_form(),
        "account::address(000102030405060708090A0B0C0D0E0F10111213)"
    );
}

#[test]
fn round_trip_through_text() {
    for b in [[0u8; LENGTH], [0xff; LENGTH], counting_bytes(), [0x5a; LENGTH]] {
        let a = Address::new(b);
        assert_eq!(Address::parse(&a.to_display_string()), Ok(a));
    }
}

#[test]
fn parse_accepts_lower_case() {
    let upper = "000102030405060708090A0B0C0D0E0F10111213";
    let lower = upper.to_lowercase();
    assert_eq!(Address::parse(&lower), Address::parse(upper));
    assert_eq!(Address::parse(&lower), Ok(Address::new(counting_bytes())));
}

#[test]
fn parse_rejects_mixed_case() {
    let mixed = "000102030405060708090a0B0C0D0E0F10111213";
    assert_eq!(Address::parse(mixed), Err(ParseError::InvalidEncoding));
}

#[test]
fn parse_rejects_19_and_21_bytes() {
    assert_eq!(Address::parse(&"AB".repeat(19)), Err(ParseError::InvalidLength));
    assert_eq!(Address::parse(&"ab".repeat(21)), Err(ParseError::InvalidLength));
    assert_eq!(Address::parse(""), Err(ParseError::InvalidLength));
}

#[test]
fn parse_rejects_non_hex() {
    assert_eq!(Address::parse("not-hex!!"), Err(ParseError::InvalidEncoding));
    assert_eq!(Address::parse(&"A".repeat(39)), Err(ParseError::InvalidEncoding));
    let spaced = format!("{} ", "00".repeat(LENGTH));
    assert_eq!(Address::parse(&spaced), Err(ParseError::InvalidEncoding));
}

#[test]
fn derivation_takes_blake3_extendable_output() {
    let pk = [0x01u8; 32];
    let mut hasher = blake3::Hasher::new();
    hasher.update(&pk);
    let mut expected = [0u8; LENGTH];
    hasher.finalize_xof().fill(&mut expected);
    let a = Address::from_public_key(&pk);
    assert_eq!(a.as_bytes(), &expected[..]);
    assert_eq!(&expected[..], &blake3::hash(&pk).as_bytes()[..LENGTH]);
    assert_ne!(a.as_bytes(), &pk[..LENGTH]);
}

#[test]
fn derivation_is_deterministic() {
    let pk = [0x01u8; 32];
    assert_eq!(Address::from_public_key(&pk), Address::from_public_key(&pk));
    assert_ne!(Address::from_public_key(&pk), Address::from_public_key(&[0x02u8; 32]));
}

#[test]
fn equality_is_bytewise() {
    let a = Address::new(counting_bytes());
    let mut first = counting_bytes();
    first[0] ^= 1;
    let mut last = counting_bytes();
    last[LENGTH - 1] ^= 1;
    assert!(a.ct_eq(&Address::new(counting_bytes())));
    assert!(!a.ct_eq(&Address::new(first)));
    assert!(!a.ct_eq(&Address::new(last)));
    assert_ne!(a, Address::new(last));
}

#[test]
fn ordering_is_lexicographic() {
    let mut low = [0u8; LENGTH];
    low[LENGTH - 1] = 0xff;
    let mut high = [0u8; LENGTH];
    high[0] = 1;
    assert!(Address::new(low) < Address::new(high));
    let mut v = vec![Address::new(high), Address::new(low)];
    v.sort();
    assert_eq!(v, vec![Address::new(low), Address::new(high)]);
}

#[test]
fn derivation_of_fixed_key_is_pinned() {
    assert_eq!(
        Address::from_public_key(&[0x01u8; 32]).to_display_string(),
        "9515049071ED913149A80D3BB7891FCD4C6C1E3D"
    );
}
