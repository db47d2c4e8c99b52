use irc_server::transfer::{change_file_extension, is_compressed};

#[test]
fn compressed_files_are_recognised_by_extension() {
    assert!(is_compressed("photo.zip".to_string()));
    assert!(is_compressed("a.b.zip".to_string()));
    assert!(!is_compressed("photo.png".to_string()));
    assert!(!is_compressed("zipped".to_string()));
}

#[test]
fn received_files_get_the_zip_extension() {
    assert_eq!(change_file_extension("notes.txt".to_string()), "notes.zip");
    assert_eq!(change_file_extension("a.b.c".to_string()), ".a.b.c.zip");
    assert_eq!(change_file_extension("plain".to_string()), ".plain.zip");
}
