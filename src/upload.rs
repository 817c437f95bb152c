//! Multipart ingestion as a state machine. The driver performs each action
//! (reading the next part, creating the directory or a file, reading and
//! writing a chunk, reading a form value) and hands back what happened;
//! the machine decides what comes next and builds the summary.
use vstd::prelude::*;

verus! {

/// Header of one multipart part.
pub struct PartHead {
    pub name: Option<String>,
    pub file_name: Option<String>,
    pub content_type: Option<String>,
}

/// A file part that was streamed to storage.
#[derive(Debug)]
pub struct FileRecord {
    pub field_name: String,
    pub file_name: String,
    pub content_type: String,
    pub byte_count: u64,
    pub storage_path: String,
}

/// A form-field part; only its length is kept.
#[derive(Debug)]
pub struct FormRecord {
    pub field_name: String,
    pub content_type: String,
    pub byte_count: u64,
}

/// What one upload request held, in the order the parts came.
#[derive(Debug)]
pub struct UploadSummary {
    pub files: Vec<FileRecord>,
    pub forms: Vec<FormRecord>,
    pub saw_any_part: bool,
}

/// Why an upload request failed.
#[derive(Debug, Clone, Copy, PartialEq, Eq, Structural)]
pub enum UploadError {
    /// The multipart body held no part at all.
    EmptyBody,
    /// A form field's value could not be read as text.
    BadFormField,
    /// Creating the directory or a file, or writing a chunk, failed.
    Storage,
    /// The driver reported an event that does not answer the last action.
    OutOfOrder,
}

impl UploadError {
    pub open spec fn is_client_error(self) -> bool {
        self is EmptyBody || self is BadFormField
    }

    /// HTTP status for the error: 400 for a bad request, 500 otherwise.
    pub fn status(self) -> (r: u16)
        ensures
            self.is_client_error() ==> r == 400,
            !self.is_client_error() ==> r == 500,
    {
        match self {
            UploadError::EmptyBody => 400,
            UploadError::BadFormField => 400,
            UploadError::Storage => 500,
            UploadError::OutOfOrder => 500,
        }
    }
}

/// What the driver observed after performing the last action.
pub enum Event {
    /// The next part's header (answers `ReadPart`).
    Part(PartHead),
    /// The body has no more parts (answers `ReadPart`).
    NoMoreParts,
    /// Outcome of creating the upload directory.
    DirReady(bool),
    /// Outcome of creating the destination file.
    FileOpened(bool),
    /// A chunk of the given length was read, or `None` when the part's
    /// stream ended.
    Chunk(Option<u64>),
    /// Outcome of writing the last chunk to the file.
    ChunkWritten(bool),
    /// Length of the form value read as text, or `None` when it could not
    /// be decoded.
    FormText(Option<u64>),
}

/// What the driver must do next.
pub enum Action {
    ReadPart,
    EnsureDir(String),
    CreateFile(String),
    ReadChunk,
    WriteChunk,
    ReadFormText,
    Finish(Result<UploadSummary, UploadError>),
}

/// Which observation the machine is waiting for.
#[derive(Debug, Clone, Copy, PartialEq, Eq, Structural)]
pub enum Phase {
    AwaitPart,
    AwaitDir,
    AwaitFile,
    AwaitChunk,
    AwaitWrite,
    AwaitText,
    Done,
}

/// The part being processed.
pub struct Current {
    pub field_name: String,
    pub file_name: Option<String>,
    pub content_type: String,
    pub byte_count: u64,
}

/// State of one upload request.
pub struct Ingest {
    pub phase: Phase,
    pub files: Vec<FileRecord>,
    pub forms: Vec<FormRecord>,
    pub saw_any_part: bool,
    pub dir_ready: bool,
    pub current: Option<Current>,
}

/// The directory that uploaded files are stored in.
pub open spec fn upload_dir() -> Seq<char> {
    "uploads"@
}

/// Where a file part named `f` is stored: `uploads/<f>`. A later part with
/// the same name overwrites the earlier file.
pub open spec fn storage_path(f: Seq<char>) -> Seq<char> {
    "uploads/"@ + f
}

pub open spec fn field_name_of(h: PartHead) -> Seq<char> {
    match h.name {
        Some(n) => n@,
        None => "<unnamed>"@,
    }
}

pub open spec fn content_type_of(h: PartHead) -> Seq<char> {
    match h.content_type {
        Some(c) => c@,
        None => "application/octet-stream"@,
    }
}

impl Ingest {
    /// The part in progress is present exactly while one is being
    /// processed, and has a file name exactly while a file is written.
    pub open spec fn wf(&self) -> bool {
        match self.phase {
            Phase::AwaitPart | Phase::Done => true,
            Phase::AwaitDir => self.current is Some,
            Phase::AwaitFile | Phase::AwaitChunk | Phase::AwaitWrite => self.current matches Some(
                c,
            ) && c.file_name is Some,
            Phase::AwaitText => self.current matches Some(c) && c.file_name is None,
        }
    }

    /// The request is over: every later event is refused.
    pub open spec fn failed_with(&self, a: Action, e: UploadError) -> bool {
        self.phase == Phase::Done && a == Action::Finish(Err(e))
    }

    /// Records already made are kept as they were.
    pub open spec fn same_records(&self, other: &Ingest) -> bool {
        self.files@ == other.files@ && self.forms@ == other.forms@
            && self.saw_any_part == other.saw_any_part
    }

    /// The action that starts the part held in `current`: create its file, or
    /// read its value as text.
    pub open spec fn starts_part(&self, a: Action) -> bool {
        match self.current {
            Some(c) => match c.file_name {
                Some(f) => self.phase == Phase::AwaitFile && (a matches Action::CreateFile(p)
                    && p@ == storage_path(f@)),
                None => self.phase == Phase::AwaitText && a is ReadFormText,
            },
            None => false,
        }
    }

    /// A fresh request; the driver's first action is `Action::ReadPart`.
    pub fn new() -> (r: Ingest)
        ensures
            r.wf(),
            r.phase == Phase::AwaitPart,
            r.files@.len() == 0,
            r.forms@.len() == 0,
            !r.saw_any_part,
            !r.dir_ready,
    {
        Ingest {
            phase: Phase::AwaitPart,
            files: Vec::new(),
            forms: Vec::new(),
            saw_any_part: false,
            dir_ready: false,
            current: None,
        }
    }

    fn fail(&mut self, e: UploadError) -> (a: Action)
        ensures
            final(self).failed_with(a, e),
            final(self).wf(),
            final(self).same_records(old(self)),
            final(self).dir_ready == old(self).dir_ready,
    {
        self.phase = Phase::Done;
        Action::Finish(Err(e))
    }

    /// Starts the part held in `current`, whose directory is ready.
    fn start_part(&mut self) -> (a: Action)
        requires
            old(self).current is Some,
        ensures
            final(self).starts_part(a),
            final(self).wf(),
            final(self).same_records(old(self)),
            final(self).current == old(self).current,
            final(self).dir_ready == old(self).dir_ready,
    {
        let is_file = match &self.current {
            Some(c) => match &c.file_name {
                Some(f) => Some(f.as_str().to_owned()),
                None => None,
            },
            None => None,
        };
        match is_file {
            Some(f) => {
                let mut path = String::from_str("uploads/");
                path.append(f.as_str());
                self.phase = Phase::AwaitFile;
                Action::CreateFile(path)
            },
            None => {
                self.phase = Phase::AwaitText;
                Action::ReadFormText
            },
        }
    }

    /// Decides the next action from what the driver observed.
    pub fn step(&mut self, e: Event) -> (a: Action)
        requires
            old(self).wf(),
        ensures
            final(self).wf(),
            old(self).dir_ready ==> final(self).dir_ready,
            old(self).phase == Phase::AwaitPart ==> match e {
                Event::Part(h) => {
                    &&& final(self).files@ == old(self).files@
                    &&& final(self).forms@ == old(self).forms@
                    &&& final(self).saw_any_part
                    &&& final(self).current matches Some(c) && c.field_name@ == field_name_of(h)
                        && c.file_name == h.file_name && c.content_type@ == content_type_of(h)
                        && c.byte_count == 0
                    &&& !old(self).dir_ready ==> final(self).phase == Phase::AwaitDir && (
                    a matches Action::EnsureDir(d) && d@ == upload_dir())
                    &&& old(self).dir_ready ==> final(self).starts_part(a)
                },
                Event::NoMoreParts => if old(self).saw_any_part {
                    &&& final(self).phase == Phase::Done
                    &&& a matches Action::Finish(Ok(sum)) && sum.files@ == old(self).files@
                        && sum.forms@ == old(self).forms@ && sum.saw_any_part
                } else {
                    final(self).failed_with(a, UploadError::EmptyBody)
                },
                _ => final(self).failed_with(a, UploadError::OutOfOrder),
            },
            old(self).phase == Phase::AwaitDir ==> match e {
                Event::DirReady(true) => {
                    &&& final(self).dir_ready
                    &&& final(self).same_records(old(self))
                    &&& final(self).current == old(self).current
                    &&& final(self).starts_part(a)
                },
                Event::DirReady(false) => final(self).failed_with(a, UploadError::Storage),
                _ => final(self).failed_with(a, UploadError::OutOfOrder),
            },
            old(self).phase == Phase::AwaitFile ==> match e {
                Event::FileOpened(true) => {
                    &&& final(self).phase == Phase::AwaitChunk
                    &&& a is ReadChunk
                    &&& final(self).same_records(old(self))
                    &&& final(self).current == old(self).current
                },
                Event::FileOpened(false) => final(self).failed_with(a, UploadError::Storage),
                _ => final(self).failed_with(a, UploadError::OutOfOrder),
            },
            old(self).phase == Phase::AwaitChunk ==> match e {
                Event::Chunk(Some(n)) => {
                    let before = old(self).current.unwrap().byte_count;
                    if before + n <= u64::MAX {
                        &&& final(self).phase == Phase::AwaitWrite
                        &&& a is WriteChunk
                        &&& final(self).same_records(old(self))
                        &&& final(self).current matches Some(c) && c.byte_count == before + n
                            && c.field_name == old(self).current.unwrap().field_name
                            && c.file_name == old(self).current.unwrap().file_name
                            && c.content_type == old(self).current.unwrap().content_type
                    } else {
                        final(self).failed_with(a, UploadError::Storage)
                    }
                },
                Event::Chunk(None) => {
                    let c = old(self).current.unwrap();
                    &&& final(self).phase == Phase::AwaitPart
                    &&& a is ReadPart
                    &&& final(self).current is None
                    &&& final(self).saw_any_part == old(self).saw_any_part
                    &&& final(self).forms@ == old(self).forms@
                    &&& final(self).files@.len() == old(self).files@.len() + 1
                    &&& final(self).files@.drop_last() == old(self).files@
                    &&& final(self).files@.last().field_name == c.field_name
                    &&& final(self).files@.last().file_name@ == c.file_name.unwrap()@
                    &&& final(self).files@.last().content_type == c.content_type
                    &&& final(self).files@.last().byte_count == c.byte_count
                    &&& final(self).files@.last().storage_path@ == storage_path(
                        c.file_name.unwrap()@,
                    )
                },
                _ => final(self).failed_with(a, UploadError::OutOfOrder),
            },
            old(self).phase == Phase::AwaitWrite ==> match e {
                Event::ChunkWritten(true) => {
                    &&& final(self).phase == Phase::AwaitChunk
                    &&& a is ReadChunk
                    &&& final(self).same_records(old(self))
                    &&& final(self).current == old(self).current
                },
                Event::ChunkWritten(false) => final(self).failed_with(a, UploadError::Storage),
                _ => final(self).failed_with(a, UploadError::OutOfOrder),
            },
            old(self).phase == Phase::AwaitText ==> match e {
                Event::FormText(Some(n)) => {
                    let c = old(self).current.unwrap();
                    &&& final(self).phase == Phase::AwaitPart
                    &&& a is ReadPart
                    &&& final(self).current is None
                    &&& final(self).saw_any_part == old(self).saw_any_part
                    &&& final(self).files@ == old(self).files@
                    &&& final(self).forms@ == old(self).forms@.push(
                        FormRecord {
                            field_name: c.field_name,
                            content_type: c.content_type,
                            byte_count: n,
                        },
                    )
                },
                Event::FormText(None) => final(self).failed_with(a, UploadError::BadFormField),
                _ => final(self).failed_with(a, UploadError::OutOfOrder),
            },
            old(self).phase == Phase::Done ==> final(self).failed_with(a, UploadError::OutOfOrder),
    {
        match self.phase {
            Phase::AwaitPart => match e {
                Event::Part(h) => {
                    let field_name = match h.name {
                        Some(n) => n,
                        None => String::from_str("<unnamed>"),
                    };
                    let content_type = match h.content_type {
                        Some(c) => c,
                        None => String::from_str("application/octet-stream"),
                    };
                    self.saw_any_part = true;
                    self.current = Some(
                        Current { field_name, file_name: h.file_name, content_type, byte_count: 0 },
                    );
                    if self.dir_ready {
                        self.start_part()
                    } else {
                        self.phase = Phase::AwaitDir;
                        Action::EnsureDir(String::from_str("uploads"))
                    }
                },
                Event::NoMoreParts => {
                    if self.saw_any_part {
                        let mut files: Vec<FileRecord> = Vec::new();
                        let mut forms: Vec<FormRecord> = Vec::new();
                        core::mem::swap(&mut files, &mut self.files);
                        core::mem::swap(&mut forms, &mut self.forms);
                        self.phase = Phase::Done;
                        Action::Finish(Ok(UploadSummary { files, forms, saw_any_part: true }))
                    } else {
                        self.fail(UploadError::EmptyBody)
                    }
                },
                _ => self.fail(UploadError::OutOfOrder),
            },
            Phase::AwaitDir => match e {
                Event::DirReady(ok) => {
                    if ok {
                        self.dir_ready = true;
                        self.start_part()
                    } else {
                        self.fail(UploadError::Storage)
                    }
                },
                _ => self.fail(UploadError::OutOfOrder),
            },
            Phase::AwaitFile => match e {
                Event::FileOpened(ok) => {
                    if ok {
                        self.phase = Phase::AwaitChunk;
                        Action::ReadChunk
                    } else {
                        self.fail(UploadError::Storage)
                    }
                },
                _ => self.fail(UploadError::OutOfOrder),
            },
            Phase::AwaitChunk => match e {
                Event::Chunk(Some(n)) => {
                    let mut cur = self.current.take().unwrap();
                    match cur.byte_count.checked_add(n) {
                        Some(total) => {
                            cur.byte_count = total;
                            self.current = Some(cur);
                            self.phase = Phase::AwaitWrite;
                            Action::WriteChunk
                        },
                        None => {
                            self.current = Some(cur);
                            self.fail(UploadError::Storage)
                        },
                    }
                },
                Event::Chunk(None) => {
                    let cur = self.current.take().unwrap();
                    let file_name = cur.file_name.unwrap();
                    let mut storage_path = String::from_str("uploads/");
                    storage_path.append(file_name.as_str());
                    self.files.push(
                        FileRecord {
                            field_name: cur.field_name,
                            file_name,
                            content_type: cur.content_type,
                            byte_count: cur.byte_count,
                            storage_path,
                        },
                    );
                    self.phase = Phase::AwaitPart;
                    Action::ReadPart
                },
                _ => self.fail(UploadError::OutOfOrder),
            },
            Phase::AwaitWrite => match e {
                Event::ChunkWritten(ok) => {
                    if ok {
                        self.phase = Phase::AwaitChunk;
                        Action::ReadChunk
                    } else {
                        self.fail(UploadError::Storage)
                    }
                },
                _ => self.fail(UploadError::OutOfOrder),
            },
            Phase::AwaitText => match e {
                Event::FormText(Some(n)) => {
                    let cur = self.current.take().unwrap();
                    self.forms.push(
                        FormRecord {
                            field_name: cur.field_name,
                            content_type: cur.content_type,
                            byte_count: n,
                        },
                    );
                    self.phase = Phase::AwaitPart;
                    Action::ReadPart
                },
                Event::FormText(None) => self.fail(UploadError::BadFormField),
                _ => self.fail(UploadError::OutOfOrder),
            },
            Phase::Done => self.fail(UploadError::OutOfOrder),
        }
    }
}

/// What happened when the driver removed the upload directory.
#[derive(Debug, Clone, Copy, PartialEq, Eq, Structural)]
pub enum RemoveResult {
    Removed,
    NotFound,
    OtherFailure,
}

/// Outcome of a clean request.
#[derive(Debug, Clone, Copy, PartialEq, Eq, Structural)]
pub enum CleanOutcome {
    /// The directory and everything in it were removed.
    Cleaned,
    /// There was no directory: nothing to do, and no error.
    AlreadyClean,
    /// Removal failed for another reason.
    Failed,
}

impl CleanOutcome {
    /// HTTP status: 200 when cleaned, 204 when already clean, 500 on
    /// failure.
    pub fn status(self) -> (r: u16)
        ensures
            r == match self {
                CleanOutcome::Cleaned => 200u16,
                CleanOutcome::AlreadyClean => 204u16,
                CleanOutcome::Failed => 500u16,
            },
    {
        match self {
            CleanOutcome::Cleaned => 200,
            CleanOutcome::AlreadyClean => 204,
            CleanOutcome::Failed => 500,
        }
    }
}

/// Decides the outcome of a clean request from the removal result: a
/// missing directory means the storage is already clean.
pub fn cleaner(r: RemoveResult) -> (o: CleanOutcome)
    ensures
        r == RemoveResult::Removed ==> o == CleanOutcome::Cleaned,
        r == RemoveResult::NotFound ==> o == CleanOutcome::AlreadyClean,
        r == RemoveResult::OtherFailure ==> o == CleanOutcome::Failed,
{
    match r {
        RemoveResult::Removed => CleanOutcome::Cleaned,
        RemoveResult::NotFound => CleanOutcome::AlreadyClean,
        RemoveResult::OtherFailure => CleanOutcome::Failed,
    }
}

} // verus!
