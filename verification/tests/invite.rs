use tincan::invite::{decode, encode, InviteError};

fn key(seed: u8) -> [u8; 32] {
    let mut k = [0u8; 32];
    for (i, byte) in k.iter_mut().enumerate() {
        *byte = seed.wrapping_add(i as u8).wrapping_mul(7);
    }
    k
}

const CODE_CHARS: usize = 52;
const GROUP: usize = 4;

#[test]
fn round_trips() {
    for seed in [0u8, 1, 42, 255] {
        let identity = key(seed);
        let code = encode(&identity);
        assert_eq!(decode(&code).unwrap(), identity);
    }
}

#[test]
fn code_is_grouped_and_shorter_than_hex() {
    let code = encode(&key(1));
    assert_eq!(code.len(), CODE_CHARS + CODE_CHARS / GROUP - 1);
    assert!(code.starts_with(|c: char| c.is_ascii_lowercase() || c.is_ascii_digit()));
    assert!(code.contains('-'));
    assert!(code.chars().filter(|c| *c != '-').count() < 64);
}

#[test]
fn decoding_tolerates_user_formatting() {
    let identity = key(9);
    let canonical = encode(&identity);
    let variants = [
        canonical.replace('-', ""),
        canonical.to_uppercase(),
        format!("  {canonical}\n"),
        canonical.replace('-', " "),
        canonical.replace('-', "_"),
    ];
    for variant in variants {
        assert_eq!(decode(&variant).unwrap(), identity, "failed on: {variant:?}");
    }
}

#[test]
fn rejects_malformed_codes() {
    let valid = encode(&key(3));
    assert!(decode("").is_err(), "empty code");
    assert!(decode(&valid[..20]).is_err(), "short code");
    assert!(decode(&format!("{valid}aaaa")).is_err(), "long code");
    let typo = format!("1118{}", &valid[4..]);
    assert!(decode(&typo).is_err(), "invalid character");
}

#[test]
fn each_refusal_says_why() {
    let valid = encode(&key(3));
    assert_eq!(decode("abc"), Err(InviteError::WrongLength { chars: 3 }));
    let typo = format!("1118{}", &valid[4..]);
    assert_eq!(decode(&typo), Err(InviteError::InvalidCharacter));
    assert_eq!(InviteError::WrongLength { chars: 3 }.message(), "an invite code must be 52 characters, got 3");
    assert_eq!(InviteError::InvalidCharacter.message(), "the invite code contains an invalid character");
}

#[test]
fn the_code_is_base32_in_small_letters_in_groups_of_four() {
    let code = encode(&[0u8; 32]);
    assert_eq!(code, "aaaa-aaaa-aaaa-aaaa-aaaa-aaaa-aaaa-aaaa-aaaa-aaaa-aaaa-aaaa-aaaa");
    let code = encode(&[0xffu8; 32]);
    assert!(code.starts_with("7777-7777"), "{code}");
    assert!(code.ends_with("777q"), "{code}");
}

#[test]
fn a_letter_that_uppercases_to_two_is_read_as_two() {
    // 'ß' raises to "SS" under Unicode's mapping, so it stands for two symbols.
    let code = encode(&[0u8; 32]).replace('-', "");
    let mut with_eszett = String::from(&code[..50]);
    with_eszett.push('ß');
    assert_eq!(decode(&with_eszett), Err(InviteError::InvalidCharacter), "the last symbol of a key cannot be S");
}
