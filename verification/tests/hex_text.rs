use plutus_halo2_verifier_gen::hex_bytes::{ReverseHexError, reverse_hex_bytes};

#[test]
fn bytes_are_reversed() {
    assert_eq!(reverse_hex_bytes("0a0b0c").unwrap(), "0c0b0a");
    assert_eq!(reverse_hex_bytes("").unwrap(), "");
}

#[test]
fn upper_case_comes_out_in_lower_case() {
    assert_eq!(reverse_hex_bytes("ABcd").unwrap(), "cdab");
}

#[test]
fn reversing_twice_gives_the_text_back() {
    let once = reverse_hex_bytes("00ff10A2").unwrap();
    assert_eq!(reverse_hex_bytes(&once).unwrap(), "00ff10a2");
}

#[test]
fn odd_length_is_refused() {
    assert!(matches!(reverse_hex_bytes("abc"), Err(ReverseHexError::OddLength)));
}

#[test]
fn non_hex_digits_are_refused() {
    assert!(matches!(reverse_hex_bytes("zz"), Err(ReverseHexError::Decode(_))));
    assert!(matches!(reverse_hex_bytes("é0"), Err(ReverseHexError::OddLength)));
    assert!(matches!(reverse_hex_bytes("éé"), Err(ReverseHexError::Decode(_))));
}
