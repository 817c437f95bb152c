use echo_service::upload::{
    cleaner, Action, CleanOutcome, Event, Ingest, PartHead, RemoveResult, UploadError,
    UploadSummary,
};

fn head(name: &str, file_name: Option<&str>, content_type: Option<&str>) -> PartHead {
    PartHead {
        name: Some(name.to_string()),
        file_name: file_name.map(|s| s.to_string()),
        content_type: content_type.map(|s| s.to_string()),
    }
}

fn finish(a: Action) -> Result<UploadSummary, UploadError> {
    match a {
        Action::Finish(r) => r,
        _ => panic!("expected the request to finish"),
    }
}

#[test]
fn one_file_and_one_form_field() {
    let mut ingest = Ingest::new();
    let a = ingest.step(Event::Part(head("upload", Some("a.txt"), Some("text/plain"))));
    match a {
        Action::EnsureDir(d) => assert_eq!(d, "uploads"),
        _ => panic!("the directory comes first"),
    }
    match ingest.step(Event::DirReady(true)) {
        Action::CreateFile(p) => assert_eq!(p, "uploads/a.txt"),
        _ => panic!("expected a file to be created"),
    }
    assert!(matches!(ingest.step(Event::FileOpened(true)), Action::ReadChunk));
    assert!(matches!(ingest.step(Event::Chunk(Some(3))), Action::WriteChunk));
    assert!(matches!(ingest.step(Event::ChunkWritten(true)), Action::ReadChunk));
    assert!(matches!(ingest.step(Event::Chunk(Some(2))), Action::WriteChunk));
    assert!(matches!(ingest.step(Event::ChunkWritten(true)), Action::ReadChunk));
    assert!(matches!(ingest.step(Event::Chunk(None)), Action::ReadPart));
    // the directory is created once per request
    assert!(matches!(ingest.step(Event::Part(head("note", None, None))), Action::ReadFormText));
    assert!(matches!(ingest.step(Event::FormText(Some(2))), Action::ReadPart));
    let summary = finish(ingest.step(Event::NoMoreParts)).unwrap();
    assert!(summary.saw_any_part);
    assert_eq!(summary.files.len(), 1);
    let f = &summary.files[0];
    assert_eq!(f.byte_count, 5);
    assert!(f.storage_path.ends_with("a.txt"));
    assert_eq!(f.field_name, "upload");
    assert_eq!(f.file_name, "a.txt");
    assert_eq!(f.content_type, "text/plain");
    assert_eq!(summary.forms.len(), 1);
    let g = &summary.forms[0];
    assert_eq!(g.byte_count, 2);
    assert_eq!(g.field_name, "note");
    assert_eq!(g.content_type, "application/octet-stream");
}

#[test]
fn unnamed_part_gets_placeholder_name() {
    let mut ingest = Ingest::new();
    let h = PartHead { name: None, file_name: None, content_type: None };
    assert!(matches!(ingest.step(Event::Part(h)), Action::EnsureDir(_)));
    assert!(matches!(ingest.step(Event::DirReady(true)), Action::ReadFormText));
    assert!(matches!(ingest.step(Event::FormText(Some(0))), Action::ReadPart));
    let summary = finish(ingest.step(Event::NoMoreParts)).unwrap();
    assert_eq!(summary.forms[0].field_name, "<unnamed>");
    assert_eq!(summary.forms[0].byte_count, 0);
    assert!(summary.files.is_empty());
}

#[test]
fn zero_parts_is_a_client_error_without_storage() {
    let mut ingest = Ingest::new();
    let r = finish(ingest.step(Event::NoMoreParts));
    assert_eq!(r.unwrap_err(), UploadError::EmptyBody);
    assert_eq!(UploadError::EmptyBody.status(), 400);
    assert!(!ingest.dir_ready);
}

#[test]
fn directory_failure_is_a_server_error() {
    let mut ingest = Ingest::new();
    ingest.step(Event::Part(head("f", Some("x.bin"), None)));
    let r = finish(ingest.step(Event::DirReady(false)));
    assert_eq!(r.unwrap_err(), UploadError::Storage);
    assert_eq!(UploadError::Storage.status(), 500);
}

#[test]
fn file_creation_failure_is_a_server_error() {
    let mut ingest = Ingest::new();
    ingest.step(Event::Part(head("f", Some("x.bin"), None)));
    ingest.step(Event::DirReady(true));
    let r = finish(ingest.step(Event::FileOpened(false)));
    assert_eq!(r.unwrap_err(), UploadError::Storage);
}

#[test]
fn write_failure_is_a_server_error() {
    let mut ingest = Ingest::new();
    ingest.step(Event::Part(head("f", Some("x.bin"), None)));
    ingest.step(Event::DirReady(true));
    ingest.step(Event::FileOpened(true));
    ingest.step(Event::Chunk(Some(10)));
    let r = finish(ingest.step(Event::ChunkWritten(false)));
    assert_eq!(r.unwrap_err(), UploadError::Storage);
}

#[test]
fn undecodable_form_field_is_a_client_error() {
    let mut ingest = Ingest::new();
    ingest.step(Event::Part(head("note", None, None)));
    ingest.step(Event::DirReady(true));
    let r = finish(ingest.step(Event::FormText(None)));
    assert_eq!(r.unwrap_err(), UploadError::BadFormField);
    assert_eq!(UploadError::BadFormField.status(), 400);
}

#[test]
fn out_of_order_event_is_refused() {
    let mut ingest = Ingest::new();
    let r = finish(ingest.step(Event::ChunkWritten(true)));
    assert_eq!(r.unwrap_err(), UploadError::OutOfOrder);
    assert_eq!(UploadError::OutOfOrder.status(), 500);
    let r = finish(ingest.step(Event::NoMoreParts));
    assert_eq!(r.unwrap_err(), UploadError::OutOfOrder);
}

#[test]
fn same_file_name_twice_targets_same_path() {
    let mut ingest = Ingest::new();
    ingest.step(Event::Part(head("a", Some("dup.txt"), None)));
    ingest.step(Event::DirReady(true));
    ingest.step(Event::FileOpened(true));
    ingest.step(Event::Chunk(None));
    match ingest.step(Event::Part(head("b", Some("dup.txt"), None))) {
        Action::CreateFile(p) => assert_eq!(p, "uploads/dup.txt"),
        _ => panic!("expected a file to be created"),
    }
    ingest.step(Event::FileOpened(true));
    ingest.step(Event::Chunk(Some(1)));
    ingest.step(Event::ChunkWritten(true));
    ingest.step(Event::Chunk(None));
    let summary = finish(ingest.step(Event::NoMoreParts)).unwrap();
    assert_eq!(summary.files.len(), 2);
    assert_eq!(summary.files[0].byte_count, 0);
    assert_eq!(summary.files[1].byte_count, 1);
    assert_eq!(summary.files[1].storage_path, "uploads/dup.txt");
}

#[test]
fn byte_count_overflow_is_refused() {
    let mut ingest = Ingest::new();
    ingest.step(Event::Part(head("f", Some("big"), None)));
    ingest.step(Event::DirReady(true));
    ingest.step(Event::FileOpened(true));
    ingest.step(Event::Chunk(Some(u64::MAX)));
    ingest.step(Event::ChunkWritten(true));
    let r = finish(ingest.step(Event::Chunk(Some(1))));
    assert_eq!(r.unwrap_err(), UploadError::Storage);
}

#[test]
fn clean_without_directory_is_already_clean() {
    let o = cleaner(RemoveResult::NotFound);
    assert_eq!(o, CleanOutcome::AlreadyClean);
    assert_eq!(o.status(), 204);
}

#[test]
fn clean_outcomes_and_statuses() {
    assert_eq!(cleaner(RemoveResult::Removed), CleanOutcome::Cleaned);
    assert_eq!(CleanOutcome::Cleaned.status(), 200);
    assert_eq!(cleaner(RemoveResult::OtherFailure), CleanOutcome::Failed);
    assert_eq!(CleanOutcome::Failed.status(), 500);
}
