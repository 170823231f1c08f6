use fm_core::mime::MimeKind;

#[test]
fn classifies_directory() {
    assert_eq!(MimeKind::new("inode/directory"), MimeKind::Dir);
}

#[test]
fn classifies_json_text_image_video() {
    assert_eq!(MimeKind::new("application/json"), MimeKind::JSON);
    assert_eq!(MimeKind::new("text/plain"), MimeKind::Text);
    assert_eq!(MimeKind::new("text/x-rust"), MimeKind::Text);
    assert_eq!(MimeKind::new("image/png"), MimeKind::Image);
    assert_eq!(MimeKind::new("image/jpeg"), MimeKind::Image);
    assert_eq!(MimeKind::new("video/mp4"), MimeKind::Video);
}

#[test]
fn classifies_pdf_and_archives() {
    assert_eq!(MimeKind::new("application/pdf"), MimeKind::PDF);
    assert_eq!(MimeKind::new("application/zip"), MimeKind::Archive);
    assert_eq!(MimeKind::new("application/gzip"), MimeKind::Archive);
    assert_eq!(MimeKind::new("application/x-tar"), MimeKind::Archive);
    assert_eq!(MimeKind::new("application/x-7z-compressed"), MimeKind::Archive);
}

#[test]
fn unknown_mime_is_others() {
    assert_eq!(MimeKind::new("application/x-random"), MimeKind::Others);
    assert_eq!(MimeKind::new(""), MimeKind::Others);
    assert_eq!(MimeKind::new("textual/plain"), MimeKind::Others);
}

#[test]
fn canonical_round_trip() {
    let kinds = [
        MimeKind::Dir,
        MimeKind::JSON,
        MimeKind::Text,
        MimeKind::Image,
        MimeKind::Video,
        MimeKind::PDF,
        MimeKind::Archive,
        MimeKind::Others,
    ];
    for k in kinds {
        assert_eq!(MimeKind::new(k.canonical()), k);
    }
}
