use cfuzz::encoding::base64_of;

#[test]
fn base64_known_vectors() {
    assert_eq!(base64_of(&Vec::new()), "");
    assert_eq!(base64_of(&b"f".to_vec()), "Zg==");
    assert_eq!(base64_of(&b"fo".to_vec()), "Zm8=");
    assert_eq!(base64_of(&b"foo".to_vec()), "Zm9v");
    assert_eq!(base64_of(&b"foob".to_vec()), "Zm9vYg==");
    assert_eq!(base64_of(&b"fooba".to_vec()), "Zm9vYmE=");
    assert_eq!(base64_of(&b"foobar".to_vec()), "Zm9vYmFy");
}

#[test]
fn base64_covers_the_whole_alphabet_and_padding() {
    assert_eq!(base64_of(&vec![0]), "AA==");
    assert_eq!(base64_of(&vec![0xff, 0xff, 0xff]), "////");
    assert_eq!(base64_of(&vec![0xfb, 0xff]), "+/8=");
    assert_eq!(base64_of(&vec![0, 16, 131]), "ABCD");
}
