use diagramide::export::{clean_file_name, extension, join_words};
use diagramide::kinds::ExportType;

#[test]
fn export_extensions() {
    assert_eq!(extension(ExportType::Svg), "svg");
    assert_eq!(extension(ExportType::Png), "png");
    assert_eq!(extension(ExportType::PngTransparent), "png");
}

#[test]
fn words_are_joined_by_underscores() {
    assert_eq!(join_words("  a  b c "), "a_b_c");
    assert_eq!(join_words("one"), "one");
    assert_eq!(join_words("   "), "");
    assert_eq!(join_words(""), "");
    assert_eq!(join_words("x\u{3000}y"), "x_y");
}

#[test]
fn file_names_keep_letters_digits_and_spaces() {
    assert_eq!(clean_file_name("My Diagram #1!"), "My_Diagram_1");
    assert_eq!(clean_file_name("a-b"), "ab");
    assert_eq!(clean_file_name("a\tb"), "ab");
    assert_eq!(clean_file_name("héllo wörld"), "héllo_wörld");
    assert_eq!(clean_file_name("  ../../etc/passwd  "), "etcpasswd");
    assert_eq!(clean_file_name(""), "");
}
