use vigenere::iterator::VigenereIterator;
use vigenere::model::ForceCase;
use vigenere::model::NonLetterMode;
use vigenere::model::VigenereMode;

fn chars_of(s: &str) -> Vec<char> {
    s.chars().collect()
}

#[test]
fn iterator_identity_encrypt_upper_key_upper_input() {
    let mut iter_out = VigenereIterator::new(VigenereMode::Encrypt, "A", chars_of("HI")).unwrap();
    assert_eq!(iter_out.next(), Some('H'));
    assert_eq!(iter_out.next(), Some('I'));
    assert_eq!(iter_out.next(), None);
}

#[test]
fn iterator_identity_encrypt_lower_key_upper_input() {
    let mut iter_out = VigenereIterator::new(VigenereMode::Encrypt, "a", chars_of("HI")).unwrap();
    assert_eq!(iter_out.next(), Some('H'));
    assert_eq!(iter_out.next(), Some('I'));
    assert_eq!(iter_out.next(), None);
}

#[test]
fn iterator_identity_encrypt_upper_key_lower_input() {
    let mut iter_out = VigenereIterator::new(VigenereMode::Encrypt, "A", chars_of("hi")).unwrap();
    assert_eq!(iter_out.next(), Some('h'));
    assert_eq!(iter_out.next(), Some('i'));
    assert_eq!(iter_out.next(), None);
}

#[test]
fn iterator_identity_encrypt_lower_key_lower_input() {
    let mut iter_out = VigenereIterator::new(VigenereMode::Encrypt, "a", chars_of("hi")).unwrap();
    assert_eq!(iter_out.next(), Some('h'));
    assert_eq!(iter_out.next(), Some('i'));
    assert_eq!(iter_out.next(), None);
}

#[test]
fn iterator_minimal_encrypt_upper_key_upper_input() {
    let mut iter_out = VigenereIterator::new(VigenereMode::Encrypt, "B", chars_of("HI")).unwrap();
    assert_eq!(iter_out.next(), Some('I'));
    assert_eq!(iter_out.next(), Some('J'));
    assert_eq!(iter_out.next(), None);
}

#[test]
fn iterator_minimal_encrypt_lower_key_upper_input() {
    let mut iter_out = VigenereIterator::new(VigenereMode::Encrypt, "b", chars_of("HI")).unwrap();
    assert_eq!(iter_out.next(), Some('I'));
    assert_eq!(iter_out.next(), Some('J'));
    assert_eq!(iter_out.next(), None);
}

#[test]
fn iterator_minimal_encrypt_upper_key_lower_input() {
    let mut iter_out = VigenereIterator::new(VigenereMode::Encrypt, "B", chars_of("hi")).unwrap();
    assert_eq!(iter_out.next(), Some('i'));
    assert_eq!(iter_out.next(), Some('j'));
    assert_eq!(iter_out.next(), None);
}

#[test]
fn iterator_minimal_encrypt_lower_key_lower_input() {
    let mut iter_out = VigenereIterator::new(VigenereMode::Encrypt, "b", chars_of("hi")).unwrap();
    assert_eq!(iter_out.next(), Some('i'));
    assert_eq!(iter_out.next(), Some('j'));
    assert_eq!(iter_out.next(), None);
}

#[test]
fn iterator_bigger_encrypt() {
    let mut iter_out =
        VigenereIterator::new(VigenereMode::Encrypt, "ABC", chars_of("HiHi")).unwrap();
    assert_eq!(iter_out.next(), Some('H'));
    assert_eq!(iter_out.next(), Some('j'));
    assert_eq!(iter_out.next(), Some('J'));
    assert_eq!(iter_out.next(), Some('i'));
    assert_eq!(iter_out.next(), None);
}

#[test]
fn iterator_bigger_encrypt_force_lower() {
    let mut iter_out = VigenereIterator::new(VigenereMode::Encrypt, "ABC", chars_of("HiHi"))
        .unwrap()
        .with_force_case(ForceCase::ToLower);
    assert_eq!(iter_out.next(), Some('h'));
    assert_eq!(iter_out.next(), Some('j'));
    assert_eq!(iter_out.next(), Some('j'));
    assert_eq!(iter_out.next(), Some('i'));
    assert_eq!(iter_out.next(), None);
}

#[test]
fn iterator_bigger_encrypt_force_upper() {
    let mut iter_out = VigenereIterator::new(VigenereMode::Encrypt, "ABC", chars_of("HiHi"))
        .unwrap()
        .with_force_case(ForceCase::ToUpper);
    assert_eq!(iter_out.next(), Some('H'));
    assert_eq!(iter_out.next(), Some('J'));
    assert_eq!(iter_out.next(), Some('J'));
    assert_eq!(iter_out.next(), Some('I'));
    assert_eq!(iter_out.next(), None);
}

#[test]
fn bigger_encrypt_skip_nonletters() {
    let mut iter_out = VigenereIterator::new(VigenereMode::Encrypt, "ABC", chars_of("H-i H+i"))
        .unwrap()
        .with_none_letter_mode(NonLetterMode::Skip);
    assert_eq!(iter_out.next(), Some('H'));
    assert_eq!(iter_out.next(), Some('j'));
    assert_eq!(iter_out.next(), Some('J'));
    assert_eq!(iter_out.next(), Some('i'));
    assert_eq!(iter_out.next(), None);
}

#[test]
fn iterator_identity_decrypt_upper_key_upper_input() {
    let mut iter_out = VigenereIterator::new(VigenereMode::Decrypt, "A", chars_of("HI")).unwrap();
    assert_eq!(iter_out.next(), Some('H'));
    assert_eq!(iter_out.next(), Some('I'));
    assert_eq!(iter_out.next(), None);
}

#[test]
fn iterator_identity_decrypt_lower_key_upper_input() {
    let mut iter_out = VigenereIterator::new(VigenereMode::Decrypt, "a", chars_of("HI")).unwrap();
    assert_eq!(iter_out.next(), Some('H'));
    assert_eq!(iter_out.next(), Some('I'));
    assert_eq!(iter_out.next(), None);
}

#[test]
fn iterator_identity_decrypt_upper_key_lower_input() {
    let mut iter_out = VigenereIterator::new(VigenereMode::Decrypt, "A", chars_of("hi")).unwrap();
    assert_eq!(iter_out.next(), Some('h'));
    assert_eq!(iter_out.next(), Some('i'));
    assert_eq!(iter_out.next(), None);
}

#[test]
fn iterator_identity_decrypt_lower_key_lower_input() {
    let mut iter_out = VigenereIterator::new(VigenereMode::Decrypt, "a", chars_of("hi")).unwrap();
    assert_eq!(iter_out.next(), Some('h'));
    assert_eq!(iter_out.next(), Some('i'));
    assert_eq!(iter_out.next(), None);
}

#[test]
fn iterator_minimal_decrypt_upper_key_upper_input() {
    let mut iter_out = VigenereIterator::new(VigenereMode::Decrypt, "B", chars_of("IJ")).unwrap();
    assert_eq!(iter_out.next(), Some('H'));
    assert_eq!(iter_out.next(), Some('I'));
    assert_eq!(iter_out.next(), None);
}

#[test]
fn iterator_minimal_decrypt_lower_key_upper_input() {
    let mut iter_out = VigenereIterator::new(VigenereMode::Decrypt, "b", chars_of("IJ")).unwrap();
    assert_eq!(iter_out.next(), Some('H'));
    assert_eq!(iter_out.next(), Some('I'));
    assert_eq!(iter_out.next(), None);
}

#[test]
fn iterator_minimal_decrypt_upper_key_lower_input() {
    let mut iter_out = VigenereIterator::new(VigenereMode::Decrypt, "B", chars_of("ij")).unwrap();
    assert_eq!(iter_out.next(), Some('h'));
    assert_eq!(iter_out.next(), Some('i'));
    assert_eq!(iter_out.next(), None);
}

#[test]
fn iterator_minimal_decrypt_lower_key_lower_input() {
    let mut iter_out = VigenereIterator::new(VigenereMode::Decrypt, "b", chars_of("ij")).unwrap();
    assert_eq!(iter_out.next(), Some('h'));
    assert_eq!(iter_out.next(), Some('i'));
    assert_eq!(iter_out.next(), None);
}

#[test]
fn iterator_bigger_decrypt() {
    let mut iter_out =
        VigenereIterator::new(VigenereMode::Decrypt, "ABC", chars_of("HjJi")).unwrap();
    assert_eq!(iter_out.next(), Some('H'));
    assert_eq!(iter_out.next(), Some('i'));
    assert_eq!(iter_out.next(), Some('H'));
    assert_eq!(iter_out.next(), Some('i'));
    assert_eq!(iter_out.next(), None);
}

#[test]
fn iterator_bigger_decrypt_force_lower() {
    let mut iter_out = VigenereIterator::new(VigenereMode::Decrypt, "ABC", chars_of("HjJi"))
        .unwrap()
        .with_force_case(ForceCase::ToLower);
    assert_eq!(iter_out.next(), Some('h'));
    assert_eq!(iter_out.next(), Some('i'));
    assert_eq!(iter_out.next(), Some('h'));
    assert_eq!(iter_out.next(), Some('i'));
    assert_eq!(iter_out.next(), None);
}

#[test]
fn iterator_bigger_decrypt_force_upper() {
    let mut iter_out = VigenereIterator::new(VigenereMode::Decrypt, "ABC", chars_of("HjJi"))
        .unwrap()
        .with_force_case(ForceCase::ToUpper);
    assert_eq!(iter_out.next(), Some('H'));
    assert_eq!(iter_out.next(), Some('I'));
    assert_eq!(iter_out.next(), Some('H'));
    assert_eq!(iter_out.next(), Some('I'));
    assert_eq!(iter_out.next(), None);
}

#[test]
fn bigger_decrypt_skip_nonletters() {
    let mut iter_out = VigenereIterator::new(VigenereMode::Decrypt, "ABC", chars_of("H.j^J,i"))
        .unwrap()
        .with_none_letter_mode(NonLetterMode::Skip);
    assert_eq!(iter_out.next(), Some('H'));
    assert_eq!(iter_out.next(), Some('i'));
    assert_eq!(iter_out.next(), Some('H'));
    assert_eq!(iter_out.next(), Some('i'));
    assert_eq!(iter_out.next(), None);
}
