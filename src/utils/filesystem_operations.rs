use crate::utils::command_runner::copy_strings;
use vstd::prelude::*;

verus! {

/// A change to files that a file-system interface was asked for.
pub enum FileOp {
    /// Move the files directly inside a directory into another directory.
    Move { src: Seq<char>, dst: Seq<char> },
    /// Write text into a file, creating it if needed.
    Write { path: Seq<char>, content: Seq<char> },
    /// Create a file, where an interface offers that.
    Create { path: Seq<char> },
    /// Delete a file, where an interface offers that.
    Delete { path: Seq<char> },
}

/// A requested change and whether it was carried out.
pub struct FileOpRecord {
    pub op: FileOp,
    pub succeeded: bool,
}

pub open spec fn file_op_record(op: FileOp, succeeded: bool) -> FileOpRecord {
    FileOpRecord { op, succeeded }
}

/// Access to files.
///
/// `file_history` is the sequence of every change requested through the
/// interface, oldest first, with its outcome. It exists only for proofs; an
/// implementation that is not verified need not define it, and nothing is
/// proved of such an implementation.
pub trait FileSystemOps {
    closed spec fn file_history(&self) -> Seq<FileOpRecord> {
        Seq::empty()
    }

    /// Moves each file directly inside the directory `src` into the directory `dst`.
    fn move_item(&mut self, src: &str, dst: &str) -> (r: Result<(), String>)
        ensures
            final(self).file_history() == old(self).file_history().push(
                file_op_record(FileOp::Move { src: src@, dst: dst@ }, r is Ok),
            ),
    ;

    /// The lines of the file at `path`, without their line endings.
    fn read_lines(&self, path: &str) -> Result<Vec<String>, String>;

    /// Writes `content` into the file at `path`, creating it if needed.
    fn write_to_file(&mut self, path: &str, content: &str) -> (r: Result<(), String>)
        ensures
            final(self).file_history() == old(self).file_history().push(
                file_op_record(FileOp::Write { path: path@, content: content@ }, r is Ok),
            ),
    ;
}

/// The value of the latest entry of `entries` under `key`.
pub open spec fn latest<V>(entries: Seq<(Seq<char>, V)>, key: Seq<char>) -> Option<V>
    decreases entries.len(),
{
    if entries.len() == 0 {
        None
    } else if entries.last().0 == key {
        Some(entries.last().1)
    } else {
        latest(entries.drop_last(), key)
    }
}

/// Appending an entry makes it the latest under its key and leaves the other keys alone.
pub proof fn lemma_latest_push<V>(entries: Seq<(Seq<char>, V)>, entry: (Seq<char>, V), key: Seq<char>)
    ensures
        latest(entries.push(entry), key) == if entry.0 == key {
            Some(entry.1)
        } else {
            latest(entries, key)
        },
{
    assert(entries.push(entry).drop_last() =~= entries);
}

/// The entry at `i` is the latest under its key when no later entry has that key.
pub proof fn lemma_latest_at<V>(entries: Seq<(Seq<char>, V)>, key: Seq<char>, i: int)
    requires
        0 <= i < entries.len(),
        entries[i].0 == key,
        forall|j: int| i < j < entries.len() ==> (#[trigger] entries[j]).0 != key,
    ensures
        latest(entries, key) == Some(entries[i].1),
    decreases entries.len(),
{
    if i < entries.len() - 1 {
        assert(entries[entries.len() - 1].0 != key);
        lemma_latest_at(entries.drop_last(), key, i);
    }
}

/// No entry has the key.
pub proof fn lemma_latest_none<V>(entries: Seq<(Seq<char>, V)>, key: Seq<char>)
    requires
        forall|j: int| 0 <= j < entries.len() ==> (#[trigger] entries[j]).0 != key,
    ensures
        latest(entries, key) is None,
    decreases entries.len(),
{
    if entries.len() > 0 {
        assert(entries[entries.len() - 1].0 != key);
        lemma_latest_none(entries.drop_last(), key);
    }
}

/// The position of the latest entry under `key`, if any.
fn latest_index<V>(entries: &Vec<(String, V)>, key: &str) -> (r: Option<usize>)
    ensures
        r is None ==> forall|j: int| 0 <= j < entries@.len() ==> (#[trigger] entries@[j]).0@ != key@,
        r matches Some(i) ==> {
            &&& i < entries@.len()
            &&& entries@[i as int].0@ == key@
            &&& forall|j: int| i < j < entries@.len() ==> (#[trigger] entries@[j]).0@ != key@
        },
{
    let wanted = key.to_owned();
    let mut n: usize = entries.len();
    while n > 0
        invariant
            n <= entries@.len(),
            wanted@ == key@,
            forall|j: int| n <= j < entries@.len() ==> (#[trigger] entries@[j]).0@ != key@,
        decreases n,
    {
        if entries[n - 1].0 == wanted {
            return Some(n - 1);
        }
        n = n - 1;
    }
    None
}

/// The operations of `history` as a log of pairs: a move as its source and
/// destination, the creation or deletion of a file as `create_file` or
/// `delete_file` and its path. Writes are not in the log.
pub open spec fn operation_pairs(history: Seq<FileOpRecord>) -> Seq<(Seq<char>, Seq<char>)>
    decreases history.len(),
{
    if history.len() == 0 {
        Seq::empty()
    } else {
        let rest = operation_pairs(history.drop_last());
        match history.last().op {
            FileOp::Move { src, dst } => rest.push((src, dst)),
            FileOp::Create { path } => rest.push(("create_file"@, path)),
            FileOp::Delete { path } => rest.push(("delete_file"@, path)),
            FileOp::Write { .. } => rest,
        }
    }
}

/// The content of the latest write to `path` in `history`, if any.
pub open spec fn last_write(history: Seq<FileOpRecord>, path: Seq<char>) -> Option<Seq<char>>
    decreases history.len(),
{
    if history.len() == 0 {
        None
    } else if history.last().op is Write && history.last().op->Write_path == path {
        Some(history.last().op->Write_content)
    } else {
        last_write(history.drop_last(), path)
    }
}

/// A change the mock interface was asked for.
enum MockChange {
    Move(String, String),
    Write(String, String),
    Create(String),
    Delete(String),
}

spec fn change_op(c: MockChange) -> FileOp {
    match c {
        MockChange::Move(src, dst) => FileOp::Move { src: src@, dst: dst@ },
        MockChange::Write(path, content) => FileOp::Write { path: path@, content: content@ },
        MockChange::Create(path) => FileOp::Create { path: path@ },
        MockChange::Delete(path) => FileOp::Delete { path: path@ },
    }
}

/// A file-system interface that touches no file: it records moves and the
/// creation and deletion of files, keeps what is written in memory, and reads
/// back the lines it was given beforehand. Every change it is asked for
/// succeeds.
pub struct MockFileSystemOps {
    changes: Vec<MockChange>,
    stubbed_file_content: Vec<(String, Vec<String>)>,
}

impl MockFileSystemOps {
    /// Every change asked for so far, oldest first.
    pub closed spec fn changes(&self) -> Seq<FileOp> {
        self.changes@.map_values(|c: MockChange| change_op(c))
    }

    /// The recorded operations, oldest first.
    pub open spec fn operation_log(&self) -> Seq<(Seq<char>, Seq<char>)> {
        operation_pairs(self.file_history())
    }

    /// What was last written to `path`, if anything.
    pub open spec fn written(&self, path: Seq<char>) -> Option<Seq<char>> {
        last_write(self.file_history(), path)
    }

    /// The lines that reading `path` gives, if it can be read.
    pub closed spec fn readable(&self, path: Seq<char>) -> Option<Seq<Seq<char>>> {
        latest(self.stubbed_file_content.deep_view(), path)
    }

    /// An interface with nothing recorded, written or readable.
    pub fn new() -> (r: Self)
        ensures
            r.file_history() == Seq::<FileOpRecord>::empty(),
            forall|p: Seq<char>| (#[trigger] r.readable(p)) is None,
    {
        let r = MockFileSystemOps { changes: Vec::new(), stubbed_file_content: Vec::new() };
        assert(r.file_history() =~= Seq::<FileOpRecord>::empty());
        r
    }

    /// Makes `path` readable, as the lines `content`.
    pub fn stub_file_content(&mut self, path: &str, content: Vec<String>)
        ensures
            final(self).file_history() == old(self).file_history(),
            forall|p: Seq<char>|
                #[trigger] final(self).readable(p) == if p == path@ {
                    Some(content.deep_view())
                } else {
                    old(self).readable(p)
                },
    {
        let ghost before = self.stubbed_file_content.deep_view();
        let entry = (path.to_string(), content);
        self.stubbed_file_content.push(entry);
        proof {
            assert(self.stubbed_file_content.deep_view() =~= before.push((path@, content.deep_view())));
            assert forall|p: Seq<char>|
                #[trigger] self.readable(p) == if p == path@ {
                    Some(content.deep_view())
                } else {
                    old(self).readable(p)
                } by {
                lemma_latest_push(before, (path@, content.deep_view()), p);
            }
        }
    }

    /// The recorded operations, oldest first.
    pub fn operations(&self) -> (r: Vec<(String, String)>)
        ensures
            r.deep_view() == self.operation_log(),
    {
        let ghost h = self.file_history();
        let mut r: Vec<(String, String)> = Vec::new();
        let mut i: usize = 0;
        assert(h.take(0) =~= Seq::<FileOpRecord>::empty());
        while i < self.changes.len()
            invariant
                i <= self.changes@.len(),
                h == self.file_history(),
                h.len() == self.changes@.len(),
                r.deep_view() =~= operation_pairs(h.take(i as int)),
            decreases self.changes@.len() - i,
        {
            assert(h.take(i + 1).drop_last() =~= h.take(i as int));
            assert(h[i as int].op == change_op(self.changes@[i as int]));
            match &self.changes[i] {
                MockChange::Move(src, dst) => r.push((src.clone(), dst.clone())),
                MockChange::Create(path) => r.push(("create_file".to_string(), path.clone())),
                MockChange::Delete(path) => r.push(("delete_file".to_string(), path.clone())),
                MockChange::Write(_, _) => {},
            }
            i = i + 1;
        }
        assert(h.take(i as int) =~= h);
        r
    }

    /// Makes `path` readable, as the lines `content`.
    pub fn set_readable_content(&mut self, path: &str, content: Vec<String>)
        ensures
            final(self).file_history() == old(self).file_history(),
            forall|p: Seq<char>|
                #[trigger] final(self).readable(p) == if p == path@ {
                    Some(content.deep_view())
                } else {
                    old(self).readable(p)
                },
    {
        self.stub_file_content(path, content)
    }

    /// What was last written to `path`, if anything.
    pub fn get_written_content(&self, path: &str) -> (r: Option<String>)
        ensures
            match r {
                Some(s) => self.written(path@) == Some(s@),
                None => self.written(path@) is None,
            },
    {
        let ghost h = self.file_history();
        let wanted = path.to_owned();
        let mut n: usize = self.changes.len();
        assert(h.take(n as int) =~= h);
        while n > 0
            invariant
                n <= self.changes@.len(),
                h == self.file_history(),
                h.len() == self.changes@.len(),
                wanted@ == path@,
                last_write(h, path@) == last_write(h.take(n as int), path@),
            decreases n,
        {
            assert(h.take(n as int).drop_last() =~= h.take(n - 1));
            assert(h.take(n as int).last() == h[n - 1]);
            assert(h[n - 1].op == change_op(self.changes@[n - 1]));
            if let MockChange::Write(p, content) = &self.changes[n - 1] {
                if *p == wanted {
                    return Some(content.clone());
                }
            }
            n = n - 1;
        }
        None
    }

    /// Records the creation of the file at `path`.
    pub fn create_file(&mut self, path: &str) -> (r: Result<(), String>)
        ensures
            r is Ok,
            final(self).file_history() == old(self).file_history().push(
                file_op_record(FileOp::Create { path: path@ }, true),
            ),
            forall|p: Seq<char>| #[trigger] final(self).readable(p) == old(self).readable(p),
    {
        self.changes.push(MockChange::Create(path.to_string()));
        assert(self.changes() =~= old(self).changes().push(FileOp::Create { path: path@ }));
        assert(self.file_history() =~= old(self).file_history().push(
            file_op_record(FileOp::Create { path: path@ }, true),
        ));
        Ok(())
    }

    /// Records the deletion of the file at `path`.
    pub fn delete_file(&mut self, path: &str) -> (r: Result<(), String>)
        ensures
            r is Ok,
            final(self).file_history() == old(self).file_history().push(
                file_op_record(FileOp::Delete { path: path@ }, true),
            ),
            forall|p: Seq<char>| #[trigger] final(self).readable(p) == old(self).readable(p),
    {
        self.changes.push(MockChange::Delete(path.to_string()));
        assert(self.changes() =~= old(self).changes().push(FileOp::Delete { path: path@ }));
        assert(self.file_history() =~= old(self).file_history().push(
            file_op_record(FileOp::Delete { path: path@ }, true),
        ));
        Ok(())
    }
}

/// Every change the mock interface is asked for succeeds.
pub proof fn lemma_mock_changes_succeed(m: &MockFileSystemOps)
    ensures
        forall|i: int| 0 <= i < m.file_history().len() ==> (#[trigger] m.file_history()[i]).succeeded,
{
}

impl FileSystemOps for MockFileSystemOps {
    open spec fn file_history(&self) -> Seq<FileOpRecord> {
        self.changes().map_values(|op: FileOp| file_op_record(op, true))
    }

    fn move_item(&mut self, src: &str, dst: &str) -> (r: Result<(), String>)
        ensures
            r is Ok,
            forall|p: Seq<char>| #[trigger] final(self).readable(p) == old(self).readable(p),
    {
        self.changes.push(MockChange::Move(src.to_string(), dst.to_string()));
        assert(self.changes() =~= old(self).changes().push(FileOp::Move { src: src@, dst: dst@ }));
        assert(self.file_history() =~= old(self).file_history().push(
            file_op_record(FileOp::Move { src: src@, dst: dst@ }, true),
        ));
        Ok(())
    }

    fn read_lines(&self, path: &str) -> (r: Result<Vec<String>, String>)
        ensures
            match r {
                Ok(lines) => self.readable(path@) == Some(lines.deep_view()),
                Err(e) => self.readable(path@) is None && e@ == "File not found"@,
            },
    {
        match latest_index(&self.stubbed_file_content, path) {
            Some(i) => {
                proof {
                    lemma_latest_at(self.stubbed_file_content.deep_view(), path@, i as int);
                }
                Ok(copy_strings(&self.stubbed_file_content[i].1))
            },
            None => {
                proof {
                    lemma_latest_none(self.stubbed_file_content.deep_view(), path@);
                }
                Err("File not found".to_string())
            },
        }
    }

    fn write_to_file(&mut self, path: &str, content: &str) -> (r: Result<(), String>)
        ensures
            r is Ok,
            forall|p: Seq<char>| #[trigger] final(self).readable(p) == old(self).readable(p),
    {
        self.changes.push(MockChange::Write(path.to_string(), content.to_string()));
        assert(self.changes() =~= old(self).changes().push(
            FileOp::Write { path: path@, content: content@ },
        ));
        assert(self.file_history() =~= old(self).file_history().push(
            file_op_record(FileOp::Write { path: path@, content: content@ }, true),
        ));
        Ok(())
    }
}

} // verus!
