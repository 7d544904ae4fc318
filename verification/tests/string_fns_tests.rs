use vigenere::decrypt;
use vigenere::encrypt;

#[test]
fn main_encrypt_main_example() {
    let plain_text = encrypt("TO EMPOWER EVERY ONE", "WHYRUST").unwrap();
    assert_eq!(plain_text, "PV CDJGPAY CMYJR KUC");
}

#[test]
fn main_decrypt_single_char_unit_transform() {
    let plain_text = decrypt("A", "A").unwrap();
    assert_eq!(plain_text, "A");
}

#[test]
fn main_decrypt_multiple_chars_unit_transform() {
    let plain_text = decrypt("ABCD", "A").unwrap();
    assert_eq!(plain_text, "ABCD");
}

#[test]
fn main_decrypt_single_char_single_step() {
    let plain_text = decrypt("B", "B").unwrap();
    assert_eq!(plain_text, "A");
}

#[test]
fn main_decrypt_multiple_chars_single_step() {
    let plain_text = decrypt("BCDE", "B").unwrap();
    assert_eq!(plain_text, "ABCD");
}

#[test]
fn main_decrypt_multiple_chars_different_steps() {
    let plain_text = decrypt("BCDE", "AB").unwrap();
    assert_eq!(plain_text, "BBDD");
}

#[test]
fn main_decrypt_other_example() {
    let plain_text = decrypt("LXFOPV EF RNHR", "LEMON").unwrap();
    assert_eq!(plain_text, "ATTACK AT DAWN");
}

#[test]
fn main_decrypt_main_example() {
    let plain_text = decrypt("PV CDJGPAY CMYJR KUC", "WHYRUST").unwrap();
    assert_eq!(plain_text, "TO EMPOWER EVERY ONE");
}
