use photo_grouper::media::{
    ends_with, image_data_uri, is_listed_image_extension, is_listed_lowered_extension,
    mime_type_for, mime_type_for_lowered,
};

#[test]
fn mime_type_follows_the_extension() {
    assert_eq!(mime_type_for("a/b.png"), "image/png");
    assert_eq!(mime_type_for("IMG.PNG"), "image/png");
    assert_eq!(mime_type_for("anim.Gif"), "image/gif");
    assert_eq!(mime_type_for("photo.jpg"), "image/jpeg");
    assert_eq!(mime_type_for("photo.heic"), "image/jpeg");
    assert_eq!(mime_type_for("png"), "image/jpeg");
}

#[test]
fn mime_type_of_lowered_path_is_case_sensitive() {
    assert_eq!(mime_type_for_lowered("x.png"), "image/png");
    assert_eq!(mime_type_for_lowered("x.PNG"), "image/jpeg");
}

#[test]
fn suffix_check() {
    assert!(ends_with("abc.png", ".png"));
    assert!(ends_with("abc", ""));
    assert!(!ends_with("ng", ".png"));
    assert!(!ends_with("abc.pnG", ".png"));
}

#[test]
fn data_uri_carries_type_and_base64() {
    assert_eq!(image_data_uri("x.PNG", b"hi"), "data:image/png;base64,aGk=");
    assert_eq!(image_data_uri("x.jpeg", &[]), "data:image/jpeg;base64,");
    assert_eq!(image_data_uri("x.gif", &[0xfb, 0xff]), "data:image/gif;base64,+/8=");
}

#[test]
fn listed_extensions() {
    for e in ["jpg", "JPG", "jpeg", "Png", "HEIC"] {
        assert!(is_listed_image_extension(e), "{}", e);
    }
    for e in ["gif", "txt", "", "jpgx"] {
        assert!(!is_listed_image_extension(e), "{}", e);
    }
    assert!(is_listed_lowered_extension(&"heic".to_string()));
    assert!(!is_listed_lowered_extension(&"HEIC".to_string()));
}
