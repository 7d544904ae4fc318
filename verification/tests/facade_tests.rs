use vigenere::Vigenere;

#[test]
fn lib_encrypt_main_example() {
    let encrypter = Vigenere::new("WHYRUST").unwrap();

    let plain_text = encrypter.encrypt("TO EMPOWER EVERYONE");

    assert_eq!(plain_text, "PV CDJGPAY CMYJRKUC");
}

#[test]
fn lib_decrypt_single_char_unit_transform() {
    let decrypter = Vigenere::new("A").unwrap();

    let plain_text = decrypter.decrypt("Q");

    assert_eq!(plain_text, "Q");
}

#[test]
fn lib_decrypt_multiple_chars_unit_transform() {
    let decrypter = Vigenere::new("A").unwrap();

    let plain_text = decrypter.decrypt("QRST");

    assert_eq!(plain_text, "QRST");
}

#[test]
fn lib_decrypt_single_char_single_step() {
    let decrypter = Vigenere::new("B").unwrap();

    let plain_text = decrypter.decrypt("D");

    assert_eq!(plain_text, "C");
}

#[test]
fn lib_decrypt_multiple_chars_single_step() {
    let decrypter = Vigenere::new("B").unwrap();

    let plain_text = decrypter.decrypt("DEFG");

    assert_eq!(plain_text, "CDEF");
}

#[test]
fn lib_decrypt_multiple_chars_different_steps() {
    let decrypter = Vigenere::new("AB").unwrap();

    let plain_text = decrypter.decrypt("BCDE");

    assert_eq!(plain_text, "BBDD");
}

#[test]
fn lib_decrypt_other_example() {
    let decrypter = Vigenere::new("LEMON").unwrap();

    let plain_text = decrypter.decrypt("LXFOPV EF RNHR");

    assert_eq!(plain_text, "ATTACK AT DAWN");
}

#[test]
fn lib_decrypt_main_example() {
    let decrypter = Vigenere::new("WHYRUST").unwrap();

    let plain_text = decrypter.decrypt("PV CDJGPAY CMYJR KUC");

    assert_eq!(plain_text, "TO EMPOWER EVERY ONE");
}
