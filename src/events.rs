use vstd::prelude::*;
use crate::text::copy_string;

verus! {

/// How one item of a batch request fared.
#[derive(Debug)]
pub enum ItemResult {
    Success { filename: String },
    Failure { filename: String, error: String },
}

impl ItemResult {
    pub fn ok(filename: String) -> (r: ItemResult)
        ensures
            r matches ItemResult::Success { filename: f } && f == filename,
    {
        ItemResult::Success { filename }
    }

    pub fn error(filename: String, error: String) -> (r: ItemResult)
        ensures
            r matches ItemResult::Failure { filename: f, error: e } && f == filename && e == error,
    {
        ItemResult::Failure { filename, error }
    }
}

/// The file names of the items that succeeded, in order.
pub open spec fn ok_names(results: Seq<ItemResult>) -> Seq<Seq<char>>
    decreases results.len(),
{
    if results.len() == 0 {
        Seq::empty()
    } else {
        let rest = ok_names(results.drop_last());
        match results.last() {
            ItemResult::Success { filename } => rest.push(filename@),
            ItemResult::Failure { .. } => rest,
        }
    }
}

/// The file names of the items that succeeded: after deleting files, these
/// are the records to remove.
pub fn deleted_filenames(results: &Vec<ItemResult>) -> (r: Vec<String>)
    ensures
        r@.map_values(|s: String| s@) == ok_names(results@),
{
    let mut r: Vec<String> = Vec::new();
    let mut i: usize = 0;
    while i < results.len()
        invariant
            i <= results.len(),
            r@.map_values(|s: String| s@) == ok_names(results@.take(i as int)),
        decreases results.len() - i,
    {
        let ghost before = r@.map_values(|s: String| s@);
        proof {
            assert(results@.take(i as int + 1).drop_last() =~= results@.take(i as int));
        }
        match &results[i] {
            ItemResult::Success { filename } => {
                r.push(copy_string(filename));
                proof {
                    assert(r@.map_values(|s: String| s@) =~= before.push(filename@));
                }
            },
            ItemResult::Failure { .. } => {},
        }
        i = i + 1;
    }
    proof {
        assert(results@.take(i as int) =~= results@);
    }
    r
}

/// Progress of a long task.
#[derive(Clone, Copy, Debug, PartialEq, Eq, Structural)]
pub struct ProgressPayload {
    pub value: u32,
    pub total: u32,
}

impl ProgressPayload {
    pub fn new(value: u32, total: u32) -> (r: ProgressPayload)
        ensures
            r.value == value,
            r.total == total,
    {
        ProgressPayload { value, total }
    }
}

/// The kind of a notification.
#[derive(Debug)]
pub enum NotificationType {
    Info,
    Error,
    Warn,
    Custom(String),
}

impl NotificationType {
    /// The kind's name as the interface knows it.
    pub fn label(&self) -> (r: String)
        ensures
            *self is Info ==> r@ == "info"@,
            *self is Error ==> r@ == "error"@,
            *self is Warn ==> r@ == "warn"@,
            self matches NotificationType::Custom(s) ==> r@ == s@,
    {
        match self {
            NotificationType::Info => "info".to_string(),
            NotificationType::Error => "error".to_string(),
            NotificationType::Warn => "warn".to_string(),
            NotificationType::Custom(s) => copy_string(s),
        }
    }
}

/// A message for the user.
#[derive(Debug)]
pub struct Notification {
    pub kind: NotificationType,
    pub title: String,
    pub text: Option<String>,
}

impl Notification {
    pub fn new(typ: NotificationType, title: String, text: Option<String>) -> (r: Notification)
        ensures
            r.kind == typ,
            r.title == title,
            r.text == text,
    {
        Notification { kind: typ, title, text }
    }
}

/// One line of the application's log.
pub struct LogEntry {
    pub message: String,
}

/// A sort order for listings: a column and a direction.
pub struct SelectedSort {
    pub field: String,
    pub descending: bool,
}

impl SelectedSort {
    pub fn new(field: &str, descending: bool) -> (r: SelectedSort)
        ensures
            r.field@ == field@,
            r.descending == descending,
    {
        SelectedSort { field: field.to_string(), descending }
    }

    /// The order clause: the column, a space, then `DESC` or `ASC`.
    pub fn get_sql(&self) -> (r: String)
        ensures
            r@ == self.field@ + " "@ + (if self.descending { "DESC"@ } else { "ASC"@ }),
    {
        let mut out = copy_string(&self.field);
        out.append(" ");
        if self.descending {
            out.append("DESC");
        } else {
            out.append("ASC");
        }
        out
    }
}

/// Work for a scan worker.
pub enum WorkerTask {
    /// Scan the package file at this path.
    ScanFile(String),
}

/// What a scan did with one file, as reported to the interface.
#[derive(Clone, Copy, Debug, PartialEq, Eq, Structural)]
pub enum ScanResult {
    Updated,
    Renamed,
    Added,
    NoAction,
}

/// A scan result for one file.
pub struct ScanResultPayload {
    pub result: ScanResult,
    pub filename: String,
}

} // verus!
