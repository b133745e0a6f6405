use ruforo::filesystem::{get_extension, get_extension_guess, get_file_url_by_filename};

fn guess(name: &str) -> Option<String> {
    get_extension_guess(name)
}

#[test]
fn known_extension_is_mapped() {
    assert_eq!(guess("photo.jpg"), Some("jpeg".to_owned()));
    assert_eq!(guess("page.htm"), Some("html".to_owned()));
    assert_eq!(guess("clip.webm"), Some("webm".to_owned()));
}

#[test]
fn unknown_extension_is_lowered() {
    assert_eq!(guess("photo.JPG"), Some("jpg".to_owned()));
    assert_eq!(guess("notes.Markdown"), Some("markdown".to_owned()));
}

#[test]
fn sub_extensions_are_taken_in() {
    assert_eq!(guess("archive.tar.gz"), Some("tar.gz".to_owned()));
    assert_eq!(guess("file.tar.zst.sha256sum.gpg"), Some("tar.zst.sha256sum.gpg".to_owned()));
}

#[test]
fn guess_stops_at_numbers_doubles_and_odd_parts() {
    assert_eq!(guess("backup.2021.tar"), Some("tar".to_owned()));
    assert_eq!(guess("a..b"), Some("b".to_owned()));
    assert_eq!(guess("a.é.dat"), Some("dat".to_owned()));
    assert_eq!(guess("x.abcdefghij.dat"), Some("dat".to_owned()));
    assert_eq!(guess("x.abcdefghi.dat"), Some("abcdefghi.dat".to_owned()));
    assert_eq!(guess("résumé.docx"), Some("docx".to_owned()));
}

#[test]
fn guess_stops_at_total_length() {
    // `.aaaaaaaaa.bbbbbbbbb.cc` is 23 bytes, one more sub-extension passes 24
    assert_eq!(guess("n.aaaaaaaaa.bbbbbbbbb.cc"), Some("aaaaaaaaa.bbbbbbbbb.cc".to_owned()));
    assert_eq!(guess("n.zz.aaaaaaaaa.bbbbbbbbb.cc"), Some("aaaaaaaaa.bbbbbbbbb.cc".to_owned()));
}

#[test]
fn no_extension() {
    assert_eq!(guess("noext"), None);
    assert_eq!(guess(".bashrc"), None);
    assert_eq!(guess("x.verylongextension"), None);
    assert_eq!(guess("x.t-t"), None);
    assert_eq!(guess("x.é"), None);
}

#[test]
fn trailing_dot_gives_empty_extension() {
    assert_eq!(guess("foo."), Some(String::new()));
}

#[test]
fn mime_type_comes_first() {
    assert_eq!(get_extension("photo.png", "IMAGE/JPEG"), Some("jpeg".to_owned()));
    assert_eq!(get_extension("clip.mkv", "application/octet-stream"), Some("mkv".to_owned()));
    assert_eq!(get_extension("noext", "application/octet-stream"), None);
    assert_eq!(get_extension("noext", "video/x-msvideo"), Some("avi".to_owned()));
}

#[test]
fn file_url_takes_the_hash() {
    let hash = "0123456789abcdef0123456789abcdef0123456789abcdef0123456789abcdef";
    let key = format!("{}.png", hash);
    assert_eq!(
        get_file_url_by_filename(&key, "cat.png"),
        format!("/content/{}/cat.png", hash)
    );
    assert_eq!(get_file_url_by_filename(hash, ""), format!("/content/{}/", hash));
}
