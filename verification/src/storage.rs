//! Persistence of the catalog: one document in one file, replaced on every
//! save through a temporary file and a rename, so that the file holds
//! either the old document or the new one whatever happens in between.

use vstd::prelude::*;
use crate::model::{SSHConnection, SSHTunnel};
use crate::settings::{default_settings, AppConfig};
use crate::text::join2;

verus! {

/// The stored document: the catalog and the preferences.
#[derive(Debug, PartialEq, Eq)]
pub struct AppData {
    pub connections: Vec<SSHConnection>,
    pub tunnels: Vec<SSHTunnel>,
    pub settings: AppConfig,
}

impl Default for AppData {
    fn default() -> (data: AppData)
        ensures
            data.connections@.len() == 0,
            data.tunnels@.len() == 0,
            data.settings@ == default_settings(),
    {
        AppData { connections: Vec::new(), tunnels: Vec::new(), settings: AppConfig::default() }
    }
}

/// The path of `name` inside the directory `dir`.
pub open spec fn child(dir: Seq<char>, name: Seq<char>) -> Seq<char> {
    dir + seq!['/'] + name
}

/// The path of `name` inside the directory `dir`, as text.
fn child_path(dir: &str, name: &str) -> (path: String)
    ensures
        path@ == child(dir@, name@),
{
    let mut path = join2(dir, "/");
    proof {
        reveal_strlit("/");
        assert("/"@ =~= seq!['/']);
    }
    path.append(name);
    path
}

/// One operation on the file system.
#[derive(Debug, PartialEq, Eq)]
pub enum FileOp {
    /// Create the directory at `path` with its parents, if it is not there.
    CreateDir { path: String },
    /// Copy the file at `from` to `to`.
    CopyFile { from: String, to: String },
    /// Write `content` to the file at `path`, replacing it.
    WriteFile { path: String, content: String },
    /// Rename the file at `from` to `to`, replacing it.
    Rename { from: String, to: String },
    /// Remove the file at `path`.
    RemoveFile { path: String },
}

/// What a [`FileOp`] holds, as mathematical values.
pub enum FileOpView {
    CreateDir { path: Seq<char> },
    CopyFile { from: Seq<char>, to: Seq<char> },
    WriteFile { path: Seq<char>, content: Seq<char> },
    Rename { from: Seq<char>, to: Seq<char> },
    RemoveFile { path: Seq<char> },
}

impl View for FileOp {
    type V = FileOpView;

    open spec fn view(&self) -> FileOpView {
        match self {
            FileOp::CreateDir { path } => FileOpView::CreateDir { path: path@ },
            FileOp::CopyFile { from, to } => FileOpView::CopyFile { from: from@, to: to@ },
            FileOp::WriteFile { path, content } => FileOpView::WriteFile {
                path: path@,
                content: content@,
            },
            FileOp::Rename { from, to } => FileOpView::Rename { from: from@, to: to@ },
            FileOp::RemoveFile { path } => FileOpView::RemoveFile { path: path@ },
        }
    }
}

/// The views of a list of operations.
pub open spec fn op_views(ops: Seq<FileOp>) -> Seq<FileOpView> {
    Seq::new(ops.len(), |i: int| ops[i]@)
}

/// The operations of one save, in order: make sure the directory is there;
/// copy the current file to the backup; write the new document to the
/// temporary file; rename the temporary file over the current one; remove
/// the backup.
pub open spec fn save_ops(
    dir: Seq<char>,
    main: Seq<char>,
    temp: Seq<char>,
    backup: Seq<char>,
    content: Seq<char>,
) -> Seq<FileOpView> {
    seq![
        FileOpView::CreateDir { path: dir },
        FileOpView::CopyFile { from: main, to: backup },
        FileOpView::WriteFile { path: temp, content },
        FileOpView::Rename { from: temp, to: main },
        FileOpView::RemoveFile { path: backup },
    ]
}

/// A save cannot go on when this operation fails. The backup is made and
/// removed on a best-effort basis: its failure is passed over.
pub open spec fn must_succeed(op: FileOpView) -> bool {
    op is CreateDir || op is WriteFile || op is Rename
}

/// The sentence that a failure of `op` ends the save with.
pub open spec fn failure_sentence(op: FileOpView) -> Seq<char> {
    match op {
        FileOpView::CreateDir { .. } => "Failed to create data directory: "@,
        FileOpView::WriteFile { .. } => "Failed to write temp file: "@,
        FileOpView::Rename { .. } => "Failed to move temp file: "@,
        _ => Seq::empty(),
    }
}

/// Says what a failed operation means for the save: the error that ends
/// it, or nothing where the save goes on.
pub fn failure_of(op: &FileOp, detail: &str) -> (error: Option<String>)
    ensures
        match error {
            Some(message) => must_succeed(op@) && message@ == failure_sentence(op@) + detail@,
            None => !must_succeed(op@),
        },
{
    match op {
        FileOp::CreateDir { .. } => Some(join2("Failed to create data directory: ", detail)),
        FileOp::WriteFile { .. } => Some(join2("Failed to write temp file: ", detail)),
        FileOp::Rename { .. } => Some(join2("Failed to move temp file: ", detail)),
        FileOp::CopyFile { .. } => None,
        FileOp::RemoveFile { .. } => None,
    }
}

/// What was read from the data file.
#[derive(Debug, PartialEq, Eq)]
pub enum FileRead {
    /// There is no data file.
    Missing,
    /// The file could not be read.
    Unreadable { detail: String },
    /// The file does not hold a document.
    Malformed { detail: String },
    /// The file holds this document.
    Parsed(AppData),
}

/// Where the document is kept.
#[derive(Debug, PartialEq, Eq)]
pub struct DataManager {
    pub data_path: String,
}

impl DataManager {
    /// The directory of the application inside the data directory of the
    /// user, where the system has one.
    pub fn new(data_dir: Option<String>) -> (r: Result<DataManager, String>)
        ensures
            match data_dir {
                Some(dir) => r is Ok && r->Ok_0.data_path@ == child(dir@, "vesper"@),
                None => r is Err && r->Err_0@ == "Failed to get data directory"@,
            },
    {
        match data_dir {
            Some(dir) => Ok(DataManager { data_path: child_path(dir.as_str(), "vesper") }),
            None => Err("Failed to get data directory".to_owned()),
        }
    }

    /// The path of the data file.
    pub open spec fn main_path(&self) -> Seq<char> {
        child(self.data_path@, "data.json"@)
    }

    /// The path of the temporary file of a save.
    pub open spec fn temp_path(&self) -> Seq<char> {
        child(self.data_path@, "data.json.tmp"@)
    }

    /// The path of the backup of a save.
    pub open spec fn backup_path(&self) -> Seq<char> {
        child(self.data_path@, "data.json.bak"@)
    }

    /// The path of the data file.
    pub fn get_data_file_path(&self) -> (path: String)
        ensures
            path@ == self.main_path(),
    {
        child_path(self.data_path.as_str(), "data.json")
    }

    /// The three files of a save are different files.
    pub proof fn lemma_paths_differ(&self)
        ensures
            self.main_path() != self.temp_path(),
            self.main_path() != self.backup_path(),
            self.temp_path() != self.backup_path(),
    {
        reveal_strlit("data.json");
        reveal_strlit("data.json.tmp");
        reveal_strlit("data.json.bak");
        let n = self.data_path@.len() as int;
        assert(self.main_path().len() == n + 10);
        assert(self.temp_path().len() == n + 14);
        assert(self.backup_path().len() == n + 14);
        assert(self.temp_path()[n + 13] == 'p');
        assert(self.backup_path()[n + 13] == 'k');
    }

    /// Decides what a read of the data file comes to: a missing file is
    /// the default document, a document is itself, and anything else is an
    /// error for the caller. No other file is ever consulted.
    pub fn load_data(&self, read: FileRead) -> (r: Result<AppData, String>)
        ensures
            match read {
                FileRead::Missing => r is Ok && r->Ok_0.connections@.len() == 0
                    && r->Ok_0.tunnels@.len() == 0 && r->Ok_0.settings@ == default_settings(),
                FileRead::Unreadable { detail } => r is Err && r->Err_0@
                    == "Failed to read data file: "@ + detail@,
                FileRead::Malformed { detail } => r is Err && r->Err_0@
                    == "Failed to parse data file: "@ + detail@,
                FileRead::Parsed(data) => r == Ok::<AppData, String>(data),
            },
    {
        match read {
            FileRead::Missing => Ok(AppData::default()),
            FileRead::Unreadable { detail } => Err(
                join2("Failed to read data file: ", detail.as_str()),
            ),
            FileRead::Malformed { detail } => Err(
                join2("Failed to parse data file: ", detail.as_str()),
            ),
            FileRead::Parsed(data) => Ok(data),
        }
    }

    /// The operations that save the document with the text `content`, in
    /// the order in which they are to be performed. After a failure,
    /// [`failure_of`] says whether the save goes on.
    pub fn save_data(&self, content: String) -> (plan: Vec<FileOp>)
        ensures
            op_views(plan@) == save_ops(
                self.data_path@,
                self.main_path(),
                self.temp_path(),
                self.backup_path(),
                content@,
            ),
    {
        let mut plan: Vec<FileOp> = Vec::new();
        plan.push(FileOp::CreateDir { path: self.data_path.clone() });
        plan.push(
            FileOp::CopyFile {
                from: self.get_data_file_path(),
                to: child_path(self.data_path.as_str(), "data.json.bak"),
            },
        );
        plan.push(
            FileOp::WriteFile {
                path: child_path(self.data_path.as_str(), "data.json.tmp"),
                content,
            },
        );
        plan.push(
            FileOp::Rename {
                from: child_path(self.data_path.as_str(), "data.json.tmp"),
                to: self.get_data_file_path(),
            },
        );
        plan.push(FileOp::RemoveFile { path: child_path(self.data_path.as_str(), "data.json.bak") });
        assert(op_views(plan@) =~= save_ops(
            self.data_path@,
            self.main_path(),
            self.temp_path(),
            self.backup_path(),
            content@,
        ));
        plan
    }

    /// The document `current` with its catalog replaced.
    pub fn save_connections_and_tunnels(
        &self,
        current: AppData,
        connections: Vec<SSHConnection>,
        tunnels: Vec<SSHTunnel>,
    ) -> (data: AppData)
        ensures
            data == (AppData { connections, tunnels, settings: current.settings }),
    {
        AppData { connections, tunnels, settings: current.settings }
    }

    /// The catalog of the document.
    pub fn load_connections_and_tunnels(&self, data: AppData) -> (catalog: (
        Vec<SSHConnection>,
        Vec<SSHTunnel>,
    ))
        ensures
            catalog == (data.connections, data.tunnels),
    {
        (data.connections, data.tunnels)
    }

    /// The document `current` with its preferences replaced.
    pub fn save_settings(&self, current: AppData, settings: AppConfig) -> (data: AppData)
        ensures
            data == (AppData {
                connections: current.connections,
                tunnels: current.tunnels,
                settings,
            }),
    {
        AppData { connections: current.connections, tunnels: current.tunnels, settings }
    }

    /// The preferences of the document.
    pub fn load_settings(&self, data: AppData) -> (settings: AppConfig)
        ensures
            settings == data.settings,
    {
        data.settings
    }
}

/// How one operation ended.
pub enum Outcome {
    /// The operation took effect.
    Done,
    /// The operation failed or was cut short. It may have left the file it
    /// was writing with the content `left`.
    Failed { left: Option<Seq<char>> },
}

/// The files after `op` took effect.
pub open spec fn apply(files: Map<Seq<char>, Seq<char>>, op: FileOpView) -> Map<
    Seq<char>,
    Seq<char>,
> {
    match op {
        FileOpView::CreateDir { .. } => files,
        FileOpView::CopyFile { from, to } => if files.contains_key(from) {
            files.insert(to, files[from])
        } else {
            files
        },
        FileOpView::WriteFile { path, content } => files.insert(path, content),
        FileOpView::Rename { from, to } => if files.contains_key(from) {
            files.remove(from).insert(to, files[from])
        } else {
            files
        },
        FileOpView::RemoveFile { path } => files.remove(path),
    }
}

/// The files after `op` failed or was cut short: a copy or a write may
/// have left its target with the content `left`; a rename, a removal and
/// the making of a directory happen whole or not at all.
pub open spec fn torn(
    files: Map<Seq<char>, Seq<char>>,
    op: FileOpView,
    left: Option<Seq<char>>,
) -> Map<Seq<char>, Seq<char>> {
    match left {
        None => files,
        Some(junk) => match op {
            FileOpView::CopyFile { to, .. } => files.insert(to, junk),
            FileOpView::WriteFile { path, .. } => files.insert(path, junk),
            _ => files,
        },
    }
}

/// The files after the operations of `plan` from position `i` on were
/// performed as far as `trace` goes: a trace that is shorter than the plan
/// is a run that was cut off, and a run ends at the failure of an
/// operation that must succeed.
pub open spec fn run_from(
    files: Map<Seq<char>, Seq<char>>,
    plan: Seq<FileOpView>,
    trace: Seq<Outcome>,
    i: int,
) -> Map<Seq<char>, Seq<char>>
    decreases plan.len() - i,
{
    if i < 0 || i >= plan.len() || i >= trace.len() {
        files
    } else {
        match trace[i] {
            Outcome::Done => run_from(apply(files, plan[i]), plan, trace, i + 1),
            Outcome::Failed { left } => if must_succeed(plan[i]) {
                torn(files, plan[i], left)
            } else {
                run_from(torn(files, plan[i], left), plan, trace, i + 1)
            },
        }
    }
}

/// What the file at `path` holds, if it is there.
pub open spec fn file_at(files: Map<Seq<char>, Seq<char>>, path: Seq<char>) -> Option<Seq<char>> {
    if files.contains_key(path) {
        Some(files[path])
    } else {
        None
    }
}

/// However far a save gets and however its operations end, the data file
/// holds what it held before or the new document, and nothing else.
pub proof fn lemma_save_is_atomic(
    files: Map<Seq<char>, Seq<char>>,
    dir: Seq<char>,
    main: Seq<char>,
    temp: Seq<char>,
    backup: Seq<char>,
    content: Seq<char>,
    trace: Seq<Outcome>,
)
    requires
        main != temp,
        main != backup,
        temp != backup,
    ensures
        ({
            let after = run_from(files, save_ops(dir, main, temp, backup, content), trace, 0);
            file_at(after, main) == file_at(files, main) || file_at(after, main) == Some(content)
        }),
{
    reveal_with_fuel(run_from, 6);
}

/// A save whose operations all take effect leaves the new document in the
/// data file, and neither the temporary file nor the backup.
pub proof fn lemma_save_completes(
    files: Map<Seq<char>, Seq<char>>,
    dir: Seq<char>,
    main: Seq<char>,
    temp: Seq<char>,
    backup: Seq<char>,
    content: Seq<char>,
    trace: Seq<Outcome>,
)
    requires
        main != temp,
        main != backup,
        temp != backup,
        trace.len() == 5,
        forall|i: int| 0 <= i < 5 ==> trace[i] is Done,
    ensures
        ({
            let after = run_from(files, save_ops(dir, main, temp, backup, content), trace, 0);
            &&& file_at(after, main) == Some(content)
            &&& file_at(after, temp) is None
            &&& file_at(after, backup) is None
        }),
{
    reveal_with_fuel(run_from, 6);
}

/// A save that is cut off after the temporary file was written and before
/// it was renamed leaves the data file as it was.
pub proof fn lemma_cut_before_rename(
    files: Map<Seq<char>, Seq<char>>,
    dir: Seq<char>,
    main: Seq<char>,
    temp: Seq<char>,
    backup: Seq<char>,
    content: Seq<char>,
    trace: Seq<Outcome>,
)
    requires
        main != temp,
        main != backup,
        temp != backup,
        trace.len() <= 3,
    ensures
        file_at(run_from(files, save_ops(dir, main, temp, backup, content), trace, 0), main)
            == file_at(files, main),
{
    reveal_with_fuel(run_from, 6);
}

} // verus!
