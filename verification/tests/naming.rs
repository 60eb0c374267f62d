use ytclip::naming::{intermediate_name, output_extension, strip_extension};

#[test]
fn single_extension_is_replaced() {
    assert_eq!(intermediate_name("output.mp4"), "output.webm");
}

#[test]
fn two_extensions_are_stripped() {
    assert_eq!(intermediate_name("clip.tar.gz"), "clip.webm");
}

#[test]
fn bare_name_gets_the_fixed_extension() {
    assert_eq!(intermediate_name("noext"), "noext.webm");
}

#[test]
fn at_most_two_extensions_are_stripped() {
    assert_eq!(intermediate_name("a.b.c.d"), "a.b.webm");
}

#[test]
fn directory_dots_are_not_extensions() {
    assert_eq!(intermediate_name("dir.d/file.x"), "dir.d/file.webm");
    assert_eq!(strip_extension("dir.d/file"), "dir.d/file");
}

#[test]
fn hidden_file_has_no_extension() {
    assert_eq!(intermediate_name(".hidden"), ".hidden.webm");
    assert_eq!(output_extension(".hidden"), "webm");
}

#[test]
fn trailing_dot_is_an_empty_extension() {
    assert_eq!(strip_extension("name."), "name");
    assert_eq!(output_extension("name."), "");
    assert_eq!(intermediate_name("name."), "name.webm");
}

#[test]
fn extension_of_plain_paths() {
    assert_eq!(output_extension("movie.mp4"), "mp4");
    assert_eq!(output_extension("movie.webm"), "webm");
    assert_eq!(output_extension("movie"), "webm");
}
