use easywind::server::error::Error;
use easywind::server::respond::{static_path, FileReadOutcome, ResponseBody};

#[test]
fn missing_file_is_empty_404() {
    let r = static_path(&"gone.txt".to_string(), FileReadOutcome::Missing).unwrap();
    assert_eq!(r.status, 404);
    assert!(r.content_type.is_none());
    match r.body {
        ResponseBody::Bytes(b) => assert!(b.is_empty()),
        ResponseBody::Text(_) => panic!("a 404 has an empty byte body"),
    }
}

#[test]
fn full_read_is_200_with_exact_bytes() {
    let bytes = vec![10u8, 20, 30, 40, 50];
    let outcome = FileReadOutcome::Content { reported_len: 5, bytes: bytes.clone() };
    let r = static_path(&"site/style.css".to_string(), outcome).unwrap();
    assert_eq!(r.status, 200);
    assert_eq!(r.content_type.as_deref(), Some("text/css"));
    match r.body {
        ResponseBody::Bytes(b) => assert_eq!(b, bytes),
        ResponseBody::Text(_) => panic!("a file is served as bytes"),
    }
}

#[test]
fn short_read_is_an_error_never_truncation() {
    let outcome = FileReadOutcome::Content { reported_len: 5, bytes: vec![1u8, 2, 3] };
    let r = static_path(&"big.bin".to_string(), outcome);
    match r {
        Err(Error::FileReadBufferOverflow(p)) => assert_eq!(p, "big.bin"),
        _ => panic!("fewer bytes than reported must be an explicit error"),
    }
}

#[test]
fn metadata_failure_is_an_error() {
    let r = static_path(&"odd.txt".to_string(), FileReadOutcome::MetadataFailed);
    match r {
        Err(Error::FileMetadataError(p)) => assert_eq!(p, "odd.txt"),
        _ => panic!("an unreadable size must be an explicit error"),
    }
}

#[test]
fn mime_lookup_follows_extension() {
    let serve = |name: &str| {
        let outcome = FileReadOutcome::Content { reported_len: 1, bytes: vec![0u8] };
        static_path(&name.to_string(), outcome).unwrap().content_type.unwrap()
    };
    assert_eq!(serve("a.css"), "text/css");
    assert_eq!(serve("a.html"), "text/html");
    assert_eq!(serve("a.js"), "text/javascript");
    assert_eq!(serve("a.png"), "image/png");
    // Unknown extensions fall back to text/plain.
    assert_eq!(serve("a.zzzz"), "text/plain");
    assert_eq!(serve("noext"), "text/plain");
}

#[test]
fn error_messages_render() {
    assert_eq!(
        Error::InvalidRootDir("no/where".to_string()).message(),
        "Invalid root dir path: no/where"
    );
    assert_eq!(Error::PortExhausted.message(), "Unable to find available port");
    assert_eq!(
        Error::FileReadBufferOverflow("f.bin".to_string()).message(),
        "File larger than metadata reported, path: f.bin"
    );
    assert_eq!(
        Error::InputFileMissing("src/app.css".to_string()).message(),
        "input file (src/app.css) does not exist"
    );
}
