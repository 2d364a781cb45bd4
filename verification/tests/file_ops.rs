use gmi::error::PathError;
use gmi::utils::FileOps;

#[test]
fn test_ensure_extension() {
    let result = FileOps::ensure_extension("output", "json");
    assert_eq!(result, "output.json");

    let result = FileOps::ensure_extension("output.json", "json");
    assert_eq!(result, "output.json");
}

#[test]
fn test_is_image_file() {
    assert!(FileOps::is_image_file("test.jpg"));
    assert!(FileOps::is_image_file("test.JPG"));
    assert!(FileOps::is_image_file("test.png"));
    assert!(!FileOps::is_image_file("test.txt"));
}

#[test]
fn test_get_file_name_without_extension() {
    assert_eq!(FileOps::get_file_name_without_extension("test.md"), "test");
    assert_eq!(FileOps::get_file_name_without_extension("path/to/file.ext"), "file");
}

#[test]
fn ensure_extension_replaces_another_extension() {
    assert_eq!(FileOps::ensure_extension("export.zip", "json"), "export.json");
    assert_eq!(FileOps::ensure_extension("dir/export", "zip"), "dir/export.zip");
}

#[test]
fn is_plain_extension_refuses_separators() {
    assert!(FileOps::is_plain_extension("json"));
    assert!(FileOps::is_plain_extension(""));
    assert!(!FileOps::is_plain_extension("a/b"));
    assert!(!FileOps::is_plain_extension("a\\b"));
}

#[test]
fn image_extensions_are_the_six() {
    for extension in ["jpg", "jpeg", "png", "gif", "webp", "svg"] {
        assert!(FileOps::is_image_extension(extension));
        assert!(FileOps::is_image_file(&format!("photo.{}", extension)));
    }
    assert!(!FileOps::is_image_extension("JPG"));
    assert!(!FileOps::is_image_extension("bmp"));
    assert!(!FileOps::is_image_file("photo"));
    assert!(!FileOps::is_image_file(".png"));
}

#[test]
fn file_name_without_extension_of_a_path_without_file() {
    assert_eq!(FileOps::get_file_name_without_extension(""), "");
    assert_eq!(FileOps::get_file_name_without_extension(".."), "");
    assert_eq!(FileOps::get_file_name_without_extension("archive.tar.gz"), "archive.tar");
}

#[test]
fn relative_path_under_the_base() {
    assert_eq!(
        FileOps::get_relative_path("content/images/a.png", "content"),
        Ok("images/a.png".to_string())
    );
    assert_eq!(FileOps::get_relative_path("content", "content"), Ok(String::new()));
}

#[test]
fn relative_path_outside_the_base() {
    assert_eq!(FileOps::get_relative_path("other/a.png", "content"), Err(PathError::OutsideBase));
    assert_eq!(
        PathError::OutsideBase.message(),
        "the path does not lie under the base path"
    );
}

#[test]
fn a_path_lacks_an_extension_it_does_not_have() {
    assert!(FileOps::lacks_extension(&None, "json"));
    assert!(FileOps::lacks_extension(&Some("zip".to_string()), "json"));
    assert!(FileOps::lacks_extension(&Some("JSON".to_string()), "json"));
    assert!(FileOps::lacks_extension(&Some(String::new()), "json"));
    assert!(!FileOps::lacks_extension(&Some("json".to_string()), "json"));
    assert!(!FileOps::lacks_extension(&Some(String::new()), ""));
}
