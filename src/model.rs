//! The data model: hosts, transfer directions and states, history rows and
//! resume checkpoints.

use vstd::prelude::*;
use crate::text::{join_str, str_eq};
use vstd::string::StringExecFns;

verus! {

/// Wire protocol of a host.
#[derive(Debug, Clone, Copy, PartialEq, Eq, Structural)]
pub enum Protocol {
    Ftp,
    Sftp,
}

impl Protocol {
    /// The protocol's tag as it is stored.
    pub open spec fn tag(self) -> Seq<char> {
        match self {
            Protocol::Ftp => "ftp"@,
            Protocol::Sftp => "sftp"@,
        }
    }

    pub fn as_str(&self) -> (r: &'static str)
        ensures
            r@ == self.tag(),
    {
        match self {
            Protocol::Ftp => "ftp",
            Protocol::Sftp => "sftp",
        }
    }

    /// Reads a protocol tag; any other text is refused.
    pub fn from_str(s: &str) -> (r: Result<Protocol, String>)
        ensures
            r matches Ok(p) ==> p.tag() == s@,
            r is Err <==> (s@ != "ftp"@ && s@ != "sftp"@),
            r matches Err(e) ==> e@ == "Unknown protocol: "@ + s@,
    {
        if str_eq(s, "ftp") {
            Ok(Protocol::Ftp)
        } else if str_eq(s, "sftp") {
            Ok(Protocol::Sftp)
        } else {
            Err(join_str("Unknown protocol: ", s))
        }
    }
}

/// A remote server and the credentials used to reach it.
#[derive(Debug, Clone, PartialEq)]
pub struct Host {
    pub id: Option<i64>,
    pub name: String,
    pub host: String,
    pub port: u16,
    pub protocol: Protocol,
    pub username: String,
    pub password: Option<String>,
    pub key_path: Option<String>,
    pub created_at: Option<String>,
    pub updated_at: Option<String>,
}

impl Host {
    /// A host that is not stored yet and has no credentials beyond the user name.
    pub fn new(name: String, host: String, port: u16, protocol: Protocol, username: String) -> (r: Host)
        ensures
            r.id is None,
            r.name@ == name@,
            r.host@ == host@,
            r.port == port,
            r.protocol == protocol,
            r.username@ == username@,
            r.password is None,
            r.key_path is None,
            r.created_at is None,
            r.updated_at is None,
    {
        Host {
            id: None,
            name,
            host,
            port,
            protocol,
            username,
            password: None,
            key_path: None,
            created_at: None,
            updated_at: None,
        }
    }
}

/// A remembered pair of remote and local directories for one host.
#[derive(Debug, Clone, PartialEq)]
pub struct DirectoryBookmark {
    pub id: Option<i64>,
    pub host_id: i64,
    pub remote_dir: Option<String>,
    pub local_dir: Option<String>,
    pub label: String,
    pub last_used_at: Option<String>,
}

impl DirectoryBookmark {
    pub fn new(host_id: i64, label: String) -> (r: DirectoryBookmark)
        ensures
            r.id is None,
            r.host_id == host_id,
            r.remote_dir is None,
            r.local_dir is None,
            r.label@ == label@,
            r.last_used_at is None,
    {
        DirectoryBookmark {
            id: None,
            host_id,
            remote_dir: None,
            local_dir: None,
            label,
            last_used_at: None,
        }
    }
}

/// Which way the bytes of a transfer flow.
#[derive(Debug, Clone, Copy, PartialEq, Eq, Structural)]
pub enum TransferDirection {
    Upload,
    Download,
}

impl TransferDirection {
    pub open spec fn tag(self) -> Seq<char> {
        match self {
            TransferDirection::Upload => "upload"@,
            TransferDirection::Download => "download"@,
        }
    }

    pub fn as_str(&self) -> (r: &'static str)
        ensures
            r@ == self.tag(),
    {
        match self {
            TransferDirection::Upload => "upload",
            TransferDirection::Download => "download",
        }
    }

    pub fn from_str(s: &str) -> (r: Result<TransferDirection, String>)
        ensures
            r matches Ok(d) ==> d.tag() == s@,
            r is Err <==> (s@ != "upload"@ && s@ != "download"@),
            r matches Err(e) ==> e@ == "Unknown direction: "@ + s@,
    {
        if str_eq(s, "upload") {
            Ok(TransferDirection::Upload)
        } else if str_eq(s, "download") {
            Ok(TransferDirection::Download)
        } else {
            Err(join_str("Unknown direction: ", s))
        }
    }
}

/// Lifecycle state of a transfer: `Pending`, then `Transferring`, then one
/// of the three terminal states.
#[derive(Debug, Clone, Copy, PartialEq, Eq, Structural)]
pub enum TransferStatus {
    Pending,
    Transferring,
    Success,
    Failed,
    Cancelled,
}

impl TransferStatus {
    pub open spec fn tag(self) -> Seq<char> {
        match self {
            TransferStatus::Pending => "pending"@,
            TransferStatus::Transferring => "transferring"@,
            TransferStatus::Success => "success"@,
            TransferStatus::Failed => "failed"@,
            TransferStatus::Cancelled => "cancelled"@,
        }
    }

    /// Success, failure and cancellation end a transfer; no state follows them.
    pub open spec fn is_terminal(self) -> bool {
        self == TransferStatus::Success || self == TransferStatus::Failed
            || self == TransferStatus::Cancelled
    }

    pub fn as_str(&self) -> (r: &'static str)
        ensures
            r@ == self.tag(),
    {
        match self {
            TransferStatus::Pending => "pending",
            TransferStatus::Transferring => "transferring",
            TransferStatus::Success => "success",
            TransferStatus::Failed => "failed",
            TransferStatus::Cancelled => "cancelled",
        }
    }

    pub fn from_str(s: &str) -> (r: Result<TransferStatus, String>)
        ensures
            r matches Ok(t) ==> t.tag() == s@,
            r is Err <==> (s@ != "pending"@ && s@ != "transferring"@ && s@ != "success"@
                && s@ != "failed"@ && s@ != "cancelled"@),
            r matches Err(e) ==> e@ == "Unknown status: "@ + s@,
    {
        if str_eq(s, "pending") {
            Ok(TransferStatus::Pending)
        } else if str_eq(s, "transferring") {
            Ok(TransferStatus::Transferring)
        } else if str_eq(s, "success") {
            Ok(TransferStatus::Success)
        } else if str_eq(s, "failed") {
            Ok(TransferStatus::Failed)
        } else if str_eq(s, "cancelled") {
            Ok(TransferStatus::Cancelled)
        } else {
            Err(join_str("Unknown status: ", s))
        }
    }
}

/// Relies on chrono's `Utc::now` and `DateTime::format`: the current UTC time
/// as `YYYY-MM-DD HH:MM:SS`. Nothing is promised of the value.
#[verifier::external_body]
fn now_timestamp() -> (r: String) {
    chrono::Utc::now().format("%Y-%m-%d %H:%M:%S").to_string()
}

/// The persisted audit row of one transfer.
#[derive(Debug, Clone, PartialEq)]
pub struct TransferHistory {
    pub id: Option<i64>,
    pub host_id: i64,
    pub filename: String,
    pub remote_path: String,
    pub local_path: String,
    pub direction: TransferDirection,
    pub file_size: u64,
    pub transferred_size: u64,
    pub status: TransferStatus,
    pub error_message: Option<String>,
    pub started_at: Option<String>,
    pub finished_at: Option<String>,
}

impl TransferHistory {
    /// A pending row, stamped with the current time as its start.
    pub fn new(
        host_id: i64,
        filename: String,
        remote_path: String,
        local_path: String,
        direction: TransferDirection,
        file_size: u64,
    ) -> (r: TransferHistory)
        ensures
            r.id is None,
            r.host_id == host_id,
            r.filename@ == filename@,
            r.remote_path@ == remote_path@,
            r.local_path@ == local_path@,
            r.direction == direction,
            r.file_size == file_size,
            r.transferred_size == 0,
            r.status == TransferStatus::Pending,
            r.error_message is None,
            r.started_at is Some,
            r.finished_at is None,
    {
        TransferHistory {
            id: None,
            host_id,
            filename,
            remote_path,
            local_path,
            direction,
            file_size,
            transferred_size: 0,
            status: TransferStatus::Pending,
            error_message: None,
            started_at: Some(now_timestamp()),
            finished_at: None,
        }
    }
}

/// A checkpoint from which a later attempt at the same transfer resumes.
#[derive(Debug, Clone, PartialEq)]
pub struct ResumeRecord {
    pub id: Option<i64>,
    pub transfer_id: String,
    pub host_id: i64,
    pub remote_path: String,
    pub local_path: String,
    pub direction: TransferDirection,
    pub file_size: u64,
    pub transferred_bytes: u64,
    pub checksum: Option<String>,
    pub created_at: Option<String>,
}

impl ResumeRecord {
    /// A checkpoint with no progress yet.
    pub fn new(
        transfer_id: String,
        host_id: i64,
        remote_path: String,
        local_path: String,
        direction: TransferDirection,
        file_size: u64,
    ) -> (r: ResumeRecord)
        ensures
            r.id is None,
            r.transfer_id@ == transfer_id@,
            r.host_id == host_id,
            r.remote_path@ == remote_path@,
            r.local_path@ == local_path@,
            r.direction == direction,
            r.file_size == file_size,
            r.transferred_bytes == 0,
            r.checksum is None,
            r.created_at is None,
    {
        ResumeRecord {
            id: None,
            transfer_id,
            host_id,
            remote_path,
            local_path,
            direction,
            file_size,
            transferred_bytes: 0,
            checksum: None,
            created_at: None,
        }
    }
}

/// An entry of a directory listing, remote or local.
#[derive(Debug, Clone, PartialEq)]
pub struct FileEntry {
    pub name: String,
    pub path: String,
    pub is_dir: bool,
    pub size: u64,
    pub modified: Option<String>,
}

/// An entry of a local directory listing.
#[derive(Debug, Clone, PartialEq)]
pub struct LocalFileEntry {
    pub name: String,
    pub path: String,
    pub is_dir: bool,
    pub size: u64,
    pub modified: Option<String>,
}

/// Relies on uuid's `Uuid::new_v4` and its `Display`, which writes the
/// hyphenated form: 36 characters.
#[verifier::external_body]
fn new_transfer_id() -> (r: String)
    ensures
        r@.len() == 36,
{
    uuid::Uuid::new_v4().to_string()
}

/// A request to move one file; created once and never changed.
#[derive(Debug, Clone, PartialEq)]
pub struct TransferTask {
    pub id: String,
    pub host_id: i64,
    pub filename: String,
    pub local_path: String,
    pub remote_path: String,
    pub direction: String,
    pub file_size: u64,
}

impl TransferTask {
    /// A request under a fresh random id.
    pub fn new(
        host_id: i64,
        filename: String,
        local_path: String,
        remote_path: String,
        direction: String,
        file_size: u64,
    ) -> (r: TransferTask)
        ensures
            r.id@.len() == 36,
            r.host_id == host_id,
            r.filename@ == filename@,
            r.local_path@ == local_path@,
            r.remote_path@ == remote_path@,
            r.direction@ == direction@,
            r.file_size == file_size,
    {
        TransferTask {
            id: new_transfer_id(),
            host_id,
            filename,
            local_path,
            remote_path,
            direction,
            file_size,
        }
    }

    /// A new request, under a fresh id, that repeats the transfer which the
    /// history row `h` records. A checkpoint of the earlier attempt matches it.
    pub fn retry_of(h: &TransferHistory) -> (r: TransferTask)
        ensures
            r.id@.len() == 36,
            r.host_id == h.host_id,
            r.filename@ == h.filename@,
            r.local_path@ == h.local_path@,
            r.remote_path@ == h.remote_path@,
            r.direction@ == h.direction.tag(),
            r.spec_direction() == h.direction,
            r.file_size == h.file_size,
    {
        proof {
            reveal_strlit("upload");
            reveal_strlit("download");
            assert("download"@.len() != "upload"@.len());
        }
        TransferTask::new(
            h.host_id,
            h.filename.clone(),
            h.local_path.clone(),
            h.remote_path.clone(),
            String::from_str(h.direction.as_str()),
            h.file_size,
        )
    }

    /// The direction a task names: `"upload"` uploads, anything else downloads.
    pub open spec fn spec_direction(self) -> TransferDirection {
        if self.direction@ == "upload"@ {
            TransferDirection::Upload
        } else {
            TransferDirection::Download
        }
    }

    pub fn transfer_direction(&self) -> (r: TransferDirection)
        ensures
            r == self.spec_direction(),
    {
        if str_eq(self.direction.as_str(), "upload") {
            TransferDirection::Upload
        } else {
            TransferDirection::Download
        }
    }
}

} // verus!
