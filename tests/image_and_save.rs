use buck_scan::image::{is_image, is_image_extension};
use buck_scan::save::{count_copied, validate_selection, SaveError};

#[test]
fn image_paths_by_extension() {
    assert!(is_image("/photos/deer.jpg"));
    assert!(is_image("/photos/deer.JPEG"));
    assert!(is_image("relative/buck.png"));
    assert!(is_image("archive.tar.PNG"));
    assert!(!is_image("/photos/deer.gif"));
    assert!(!is_image("/photos/notes"));
    assert!(!is_image("/photos/.jpg"));
    assert!(!is_image("/photos/deer.Jpg"));
    assert!(!is_image(""));
}

#[test]
fn image_extensions() {
    for e in ["jpg", "jpeg", "png", "JPG", "JPEG", "PNG"] {
        assert!(is_image_extension(e));
    }
    for e in ["", "gif", "Png", "jpg ", ".jpg", "tiff"] {
        assert!(!is_image_extension(e));
    }
}

#[test]
fn one_failed_copy_reports_one_saved() {
    let selected = vec!["a.jpg".to_string(), "b.jpg".to_string()];
    assert_eq!(validate_selection(&selected), Ok(()));
    assert_eq!(count_copied(&vec![false, true]), 1);
}

#[test]
fn empty_selection_is_refused() {
    assert_eq!(validate_selection(&Vec::new()), Err(SaveError::EmptySelection));
    assert_eq!(SaveError::EmptySelection.message(), "No images selected to save");
}

#[test]
fn copied_counts() {
    assert_eq!(count_copied(&Vec::new()), 0);
    assert_eq!(count_copied(&vec![true, true, true]), 3);
    assert_eq!(count_copied(&vec![false, false]), 0);
    assert_eq!(count_copied(&vec![true, false, true, false]), 2);
}
