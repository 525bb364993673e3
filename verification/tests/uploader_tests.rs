use crambo_desktop::uploader::{
    bearer_header, check_status, is_success_status, screenshot_read_error, status_url, upload_form,
    FormPart, PartSource, UploadResponse, INGEST_URL,
};
use std::collections::HashSet;

fn field_of(p: &FormPart) -> String {
    match p {
        FormPart::File { field, .. } => field.clone(),
        FormPart::Text { field, .. } => field.clone(),
    }
}

#[test]
fn upload_form_has_the_documented_fields_in_order() {
    let parts = upload_form(
        "Lecture 1".to_string(),
        Some("CS101".to_string()),
        None,
        Some("2024-01-01T10:00:00Z".to_string()),
        Some("laptop".to_string()),
        12,
    );
    let fields: Vec<String> = parts.iter().map(field_of).collect();
    let mut expected: Vec<String> =
        vec!["audio", "title", "course", "captured_at", "device_name"].into_iter().map(String::from).collect();
    for i in 0..12 {
        expected.push(format!("screenshot_{}", i));
    }
    assert_eq!(fields, expected);
    let distinct: HashSet<&String> = fields.iter().collect();
    assert_eq!(distinct.len(), fields.len());
    match &parts[0] {
        FormPart::File { file_name, mime, source, .. } => {
            assert_eq!(file_name, "recording.webm");
            assert_eq!(mime, "audio/webm");
            assert_eq!(*source, PartSource::Audio);
        }
        _ => panic!("audio must be a file part"),
    }
    match &parts[1] {
        FormPart::Text { value, .. } => assert_eq!(value, "Lecture 1"),
        _ => panic!("title must be a text part"),
    }
    match &parts[16] {
        FormPart::File { field, file_name, mime, source } => {
            assert_eq!(field, "screenshot_11");
            assert_eq!(file_name, "screenshot_11.jpg");
            assert_eq!(mime, "image/jpeg");
            assert_eq!(*source, PartSource::Screenshot(11));
        }
        _ => panic!("screenshots must be file parts"),
    }
}

#[test]
fn upload_form_without_optional_fields() {
    let parts = upload_form("t".to_string(), None, None, None, None, 0);
    let fields: Vec<String> = parts.iter().map(field_of).collect();
    assert_eq!(fields, vec!["audio".to_string(), "title".to_string()]);
}

#[test]
fn endpoints_headers_and_status_checks() {
    assert_eq!(INGEST_URL, "https://app.crambo.ai/api/ingest/desktop");
    assert_eq!(status_url("lec-42"), "https://app.crambo.ai/api/ingest/desktop/status/lec-42");
    assert_eq!(bearer_header("abc"), "Bearer abc");
    assert!(is_success_status(200));
    assert!(is_success_status(299));
    assert!(!is_success_status(199));
    assert!(!is_success_status(300));
    assert_eq!(check_status("Upload failed", 201, "201 Created", ""), Ok(()));
    assert_eq!(
        check_status("Upload failed", 500, "500 Internal Server Error", "boom"),
        Err("Upload failed (500 Internal Server Error): boom".to_string())
    );
    assert_eq!(
        check_status("Status check failed", 404, "404 Not Found", "Unknown error"),
        Err("Status check failed (404 Not Found): Unknown error".to_string())
    );
    assert_eq!(screenshot_read_error(3, "missing"), "Failed to read screenshot 3: missing");
    let r = UploadResponse { lecture_id: "l1".to_string(), status: "queued".to_string() };
    assert_eq!(r.lecture_id, "l1");
    assert_eq!(r.status, "queued");
}

