use d20_server::path::{extract_path, resolve_target, FileTarget};

#[test]
fn path_is_the_second_field_of_the_request_line() {
    assert_eq!(extract_path(b"GET / HTTP/1.1\r\n\r\n"), Some(b"/".to_vec()));
    assert_eq!(
        extract_path(b"GET /notes.txt HTTP/1.1\r\nHost: x\r\n\r\n"),
        Some(b"/notes.txt".to_vec())
    );
    assert_eq!(
        extract_path(b"POST /save HTTP/1.1\r\n\r\nbody"),
        Some(b"/save".to_vec())
    );
}

#[test]
fn path_ends_at_the_end_of_the_line() {
    assert_eq!(
        extract_path(b"GET /a.txt\r\nHost: example\r\n\r\n"),
        Some(b"/a.txt".to_vec())
    );
    assert_eq!(extract_path(b"GET /a.txt\nHost: example\n\n"), Some(b"/a.txt".to_vec()));
}

#[test]
fn path_ends_at_the_end_of_the_request() {
    assert_eq!(extract_path(b"GET /a.txt"), Some(b"/a.txt".to_vec()));
    assert_eq!(extract_path(b"GET /"), Some(b"/".to_vec()));
}

#[test]
fn path_is_not_taken_from_a_later_line() {
    assert_eq!(extract_path(b"GET\r\n/a.txt HTTP/1.1\r\n"), None);
    assert_eq!(extract_path(b"GET \n/a.txt"), None);
    assert_eq!(extract_path(b"\nGET /a.txt"), None);
}

#[test]
fn request_with_fewer_than_two_fields_has_no_path() {
    assert_eq!(extract_path(b""), None);
    assert_eq!(extract_path(b"GET"), None);
    assert_eq!(extract_path(b"GET "), None);
    assert_eq!(extract_path(b"GET \r\n"), None);
    assert_eq!(extract_path(b"   "), None);
    assert_eq!(extract_path(b"\r\n\r\n"), None);
}

#[test]
fn runs_of_blanks_part_the_fields() {
    assert_eq!(extract_path(b"GET   /a.txt   HTTP/1.1\r\n"), Some(b"/a.txt".to_vec()));
    assert_eq!(extract_path(b"GET\t/a.txt\tHTTP/1.1\r\n"), Some(b"/a.txt".to_vec()));
    assert_eq!(extract_path(b"  GET /a.txt HTTP/1.1\r\n"), Some(b"/a.txt".to_vec()));
}

#[test]
fn path_keeps_bytes_that_are_no_whitespace() {
    assert_eq!(
        extract_path(b"GET /a%20b/../c\x00\xff?q=1 HTTP/1.1\r\n"),
        Some(b"/a%20b/../c\x00\xff?q=1".to_vec())
    );
}

#[test]
fn root_path_asks_for_the_index() {
    assert_eq!(resolve_target(b"GET / HTTP/1.1\r\n\r\n"), Some(FileTarget::Index));
    assert_eq!(resolve_target(b"GET /"), Some(FileTarget::Index));
    assert_eq!(resolve_target(b"GET /\r\n"), Some(FileTarget::Index));
}

#[test]
fn longer_path_asks_for_the_file_without_the_leading_slash() {
    assert_eq!(
        resolve_target(b"GET /notes.txt HTTP/1.1\r\n\r\n"),
        Some(FileTarget::File(b"notes.txt".to_vec()))
    );
    assert_eq!(
        resolve_target(b"GET /static/site.css HTTP/1.1\r\n\r\n"),
        Some(FileTarget::File(b"static/site.css".to_vec()))
    );
    assert_eq!(
        resolve_target(b"GET /data.txt HTTP/1.1\r\n\r\n"),
        Some(FileTarget::File(b"data.txt".to_vec()))
    );
}

#[test]
fn only_one_slash_is_stripped() {
    assert_eq!(
        resolve_target(b"GET //etc/passwd HTTP/1.1\r\n"),
        Some(FileTarget::File(b"/etc/passwd".to_vec()))
    );
    assert_eq!(
        resolve_target(b"GET /../secret HTTP/1.1\r\n"),
        Some(FileTarget::File(b"../secret".to_vec()))
    );
}

#[test]
fn path_without_leading_slash_has_no_target() {
    assert_eq!(resolve_target(b"GET notes.txt HTTP/1.1\r\n"), None);
    assert_eq!(resolve_target(b"GET x"), None);
    assert_eq!(resolve_target(b"GET"), None);
    assert_eq!(resolve_target(b""), None);
}
