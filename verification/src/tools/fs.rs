use vstd::prelude::*;
use vstd::string::StringExecFns;
use vstd::utf8::encode_utf8;
use crate::error::MidnaError;
use vstd::relations::sorted_by;
use crate::text::{lemma_text_order_total, decimal, join, joined, push_decimal, sort_texts, text_order, texts, truncate_to_bytes, truncated};
use crate::tools::{Tool, ToolKind};

verus! {

/// The most bytes of a file that are handed to the model, so that a large file
/// does not flood its context.
pub const MAX_READ_BYTES: usize = 64 * 1024;

/// The tool that reads a text file.
#[derive(Debug, Clone, Copy)]
pub struct ReadFile;

/// The tool that writes a file, creating missing parent directories.
#[derive(Debug, Clone, Copy)]
pub struct WriteFile;

/// The tool that lists a directory.
#[derive(Debug, Clone, Copy)]
pub struct ListDir;

impl Tool for ReadFile {
    open spec fn tool_kind(&self) -> ToolKind {
        ToolKind::ReadFile
    }

    fn kind(&self) -> (k: ToolKind) {
        ToolKind::ReadFile
    }
}

impl Tool for WriteFile {
    open spec fn tool_kind(&self) -> ToolKind {
        ToolKind::WriteFile
    }

    fn kind(&self) -> (k: ToolKind) {
        ToolKind::WriteFile
    }
}

impl Tool for ListDir {
    open spec fn tool_kind(&self) -> ToolKind {
        ToolKind::ListDir
    }

    fn kind(&self) -> (k: ToolKind) {
        ToolKind::ListDir
    }
}

/// `prefix`, then `subject` in backquotes, then `suffix`.
pub open spec fn quoted(prefix: Seq<char>, subject: Seq<char>, suffix: Seq<char>) -> Seq<char> {
    prefix + "`"@ + subject + "`"@ + suffix
}

fn quoted_text(prefix: &str, subject: &str, suffix: &str) -> (r: String)
    ensures
        r@ == quoted(prefix@, subject@, suffix@),
{
    let mut r = prefix.to_owned();
    r.append("`");
    r.append(subject);
    r.append("`");
    r.append(suffix);
    r
}

/// The result of reading a file: its text, cut to `MAX_READ_BYTES` bytes at a
/// character boundary and marked when it was longer; or a tool error that
/// names the file and the cause.
pub fn read_file_output(path: &str, read: Result<String, String>) -> (r: Result<String, MidnaError>)
    ensures
        match read {
            Ok(content) => r matches Ok(out) && out@ == truncated(content@, MAX_READ_BYTES as nat),
            Err(cause) => r matches Err(MidnaError::Tool(m)) && m@ == quoted(
                "failed to read "@,
                path@,
                ": "@,
            ) + cause@,
        },
{
    match read {
        Ok(content) => Ok(truncate_to_bytes(content, MAX_READ_BYTES)),
        Err(cause) => {
            let mut m = quoted_text("failed to read ", path, ": ");
            m.append(cause.as_str());
            Err(MidnaError::Tool(m))
        },
    }
}

/// Why writing a file failed.
#[derive(Debug)]
pub enum WriteFailure {
    /// The missing parent directories could not be created.
    CreateDirs(String),
    /// The file itself could not be written.
    Write(String),
}

/// The parent that `std::path::Path::parent` gives for a path.
pub uninterp spec fn path_parent(path: Seq<char>) -> Option<Seq<char>>;

/// The parent of `path` by `std::path::Path::parent`, as text. Its
/// documentation says that the empty path has no parent; what the parent of
/// any other path is, is named, not written out.
#[verifier::external_body]
fn parent_of(path: &str) -> (r: Option<String>)
    ensures
        match r {
            Some(p) => path_parent(path@) == Some(p@),
            None => path_parent(path@) is None,
        },
        path@.len() == 0 ==> r is None,
{
    std::path::Path::new(path).parent().map(|p| p.to_string_lossy().into_owned())
}

/// The directory to create before writing `path`: its parent, unless it has
/// none or the parent is empty (a bare file name).
pub fn directory_to_create(path: &str) -> (r: Option<String>)
    ensures
        match r {
            Some(dir) => path_parent(path@) == Some(dir@) && dir@.len() > 0,
            None => path_parent(path@) is None || path_parent(path@).unwrap().len() == 0,
        },
        path@.len() == 0 ==> r is None,
{
    match parent_of(path) {
        Some(dir) => {
            if dir.as_str().is_empty() {
                None
            } else {
                Some(dir)
            }
        },
        None => None,
    }
}

/// The report of a successful write.
pub open spec fn write_report(path: Seq<char>, content: Seq<char>) -> Seq<char> {
    "wrote "@ + decimal(encode_utf8(content).len()) + " bytes to "@ + path
}

/// The result of writing `content` to `path`: how many bytes were written
/// where, or a tool error that names the file, the step that failed and the cause.
pub fn write_file_output(path: &str, content: &str, written: Result<(), WriteFailure>) -> (r: Result<
    String,
    MidnaError,
>)
    ensures
        match written {
            Ok(()) => r matches Ok(out) && out@ == write_report(path@, content@),
            Err(WriteFailure::CreateDirs(cause)) => r matches Err(MidnaError::Tool(m)) && m@
                == quoted("failed to create directories for "@, path@, ": "@) + cause@,
            Err(WriteFailure::Write(cause)) => r matches Err(MidnaError::Tool(m)) && m@ == quoted(
                "failed to write "@,
                path@,
                ": "@,
            ) + cause@,
        },
{
    match written {
        Ok(()) => {
            let mut out = "wrote ".to_owned();
            push_decimal(&mut out, content.as_bytes().len() as u64);
            out.append(" bytes to ");
            out.append(path);
            Ok(out)
        },
        Err(WriteFailure::CreateDirs(cause)) => {
            let mut m = quoted_text("failed to create directories for ", path, ": ");
            m.append(cause.as_str());
            Err(MidnaError::Tool(m))
        },
        Err(WriteFailure::Write(cause)) => {
            let mut m = quoted_text("failed to write ", path, ": ");
            m.append(cause.as_str());
            Err(MidnaError::Tool(m))
        },
    }
}

/// One entry of a directory.
#[derive(Debug)]
pub struct DirEntry {
    pub name: String,
    pub is_dir: bool,
}

/// Why listing a directory failed.
#[derive(Debug)]
pub enum ListFailure {
    /// The directory could not be opened.
    Open(String),
    /// Reading the next entry failed.
    Entry(String),
}

/// How an entry is shown: its name, with a slash after the name of a directory.
pub open spec fn entry_label(e: DirEntry) -> Seq<char> {
    if e.is_dir {
        e.name@ + "/"@
    } else {
        e.name@
    }
}

/// A directory listing: the labels of the entries in byte order, one per line.
pub open spec fn listing(entries: Seq<DirEntry>) -> Seq<char> {
    joined(entries.map_values(|e: DirEntry| entry_label(e)).sort_by(text_order()), "\n"@)
}

/// The result of listing `path`: the entries in byte order of their labels,
/// one per line, directories marked with a trailing slash; a tool error when
/// the directory cannot be opened, an I/O error when an entry cannot be read.
pub fn list_dir_output(path: &str, listed: Result<Vec<DirEntry>, ListFailure>) -> (r: Result<
    String,
    MidnaError,
>)
    ensures
        match listed {
            Ok(entries) => r matches Ok(out) && out@ == listing(entries@),
            Err(ListFailure::Open(cause)) => r matches Err(MidnaError::Tool(m)) && m@ == quoted(
                "failed to list "@,
                path@,
                ": "@,
            ) + cause@,
            Err(ListFailure::Entry(cause)) => r matches Err(MidnaError::Io(m)) && m@ == cause@,
        },
{
    match listed {
        Ok(entries) => {
            let mut labels: Vec<String> = Vec::new();
            let mut i: usize = 0;
            while i < entries.len()
                invariant
                    i <= entries@.len(),
                    labels@.len() == i,
                    forall|k: int| 0 <= k < i ==> #[trigger] labels@[k]@ == entry_label(entries@[k]),
                decreases entries.len() - i,
            {
                let mut label = entries[i].name.clone();
                if entries[i].is_dir {
                    label.append("/");
                }
                labels.push(label);
                i = i + 1;
            }
            assert(texts(labels@) =~= entries@.map_values(|e: DirEntry| entry_label(e)));
            let sorted = sort_texts(labels);
            Ok(join(&sorted, "\n"))
        },
        Err(ListFailure::Open(cause)) => {
            let mut m = quoted_text("failed to list ", path, ": ");
            m.append(cause.as_str());
            Err(MidnaError::Tool(m))
        },
        Err(ListFailure::Entry(cause)) => Err(MidnaError::Io(cause)),
    }
}

/// A listing holds every entry once, in byte order of the labels.
pub proof fn law_listing_is_sorted(entries: Seq<DirEntry>)
    ensures
        sorted_by(entries.map_values(|e: DirEntry| entry_label(e)).sort_by(text_order()), text_order()),
        entries.map_values(|e: DirEntry| entry_label(e)).sort_by(text_order()).to_multiset()
            == entries.map_values(|e: DirEntry| entry_label(e)).to_multiset(),
{
    lemma_text_order_total();
    entries.map_values(|e: DirEntry| entry_label(e)).lemma_sort_by_ensures(text_order());
}

/// A listing shows every entry, and nothing else: it is lines in byte order,
/// one after the other with a newline between each two, and its lines are
/// exactly the entries' names, each with a slash after it for a directory.
pub proof fn law_listing_shows_every_entry(entries: Seq<DirEntry>)
    ensures
        exists|lines: Seq<Seq<char>>|
            {
                &&& listing(entries) == joined(lines, seq!['\n'])
                &&& sorted_by(lines, text_order())
                &&& #[trigger] lines.to_multiset() == entries.map_values(
                    |e: DirEntry|
                        if e.is_dir {
                            e.name@ + seq!['/']
                        } else {
                            e.name@
                        },
                ).to_multiset()
            },
{
    reveal_strlit("/");
    reveal_strlit("\n");
    assert("\n"@ =~= seq!['\n']);
    let labels = entries.map_values(|e: DirEntry| entry_label(e));
    let explicit = entries.map_values(
        |e: DirEntry|
            if e.is_dir {
                e.name@ + seq!['/']
            } else {
                e.name@
            },
    );
    assert forall|i: int| 0 <= i < entries.len() implies labels[i] == explicit[i] by {
        assert("/"@ =~= seq!['/']);
    }
    assert(labels =~= explicit);
    lemma_text_order_total();
    labels.lemma_sort_by_ensures(text_order());
    let lines = labels.sort_by(text_order());
    assert(lines.to_multiset() == explicit.to_multiset());
}

} // verus!
