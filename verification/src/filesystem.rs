//! An in-memory file store with numbered descriptors.
//!
//! The store maps names to byte vectors and has two further streams, standard
//! input and standard output. A descriptor is an index into an append-only
//! table of file pointers. Every pointer carries two independent cursors: one
//! for byte-wise reads and writes and one for line-wise reads.
//!
//! All contracts are stated over [`VfsView`], the mathematical model of the
//! store, and its operations.

use crate::bytes::slice_of;
use vstd::prelude::*;
use vstd::string::StringSliceAdditionalSpecFns;
use vstd::utf8::{decode_utf8, encode_utf8, encode_utf8_decode_utf8, valid_utf8};

verus! {

/// The line terminator of text streams.
pub const LINE_FEED: u8 = 10;

/// Names one of the streams of a file system.
#[derive(Debug, Clone, PartialEq)]
pub enum FileType<T> {
    Stdin,
    Stdout,
    Named(T),
}

impl<T: View> View for FileType<T> {
    type V = FileType<T::V>;

    open spec fn view(&self) -> FileType<T::V> {
        match self {
            FileType::Stdin => FileType::Stdin,
            FileType::Stdout => FileType::Stdout,
            FileType::Named(name) => FileType::Named(name@),
        }
    }
}

/// Selects which of a pointer's two cursors an operation uses.
#[derive(Debug, Clone, Copy, PartialEq, Eq)]
pub enum ReadMode {
    /// The byte cursor, `position`.
    Bytes,
    /// The line cursor, `text_position`.
    Text,
}

/// A `FilePointer` names a stream and records how far it has been read.
/// The contents of the stream are stored in the file system.
#[derive(Debug, Clone, PartialEq)]
pub struct FilePointer {
    pub file: FileType<String>,
    /// Byte cursor: where byte-wise reads and writes take place.
    pub position: usize,
    /// Line cursor: where line-wise reads take place.
    pub text_position: usize,
    /// 1 if the pointer was opened on a missing file by an opener that asked
    /// for that to be reported, 0 otherwise.
    pub erstat: i32,
}

/// The model of a [`FilePointer`].
pub struct FilePointerView {
    pub file: FileType<Seq<char>>,
    pub position: usize,
    pub text_position: usize,
    pub erstat: i32,
}

impl FilePointerView {
    /// The cursor that `mode` selects.
    pub open spec fn cursor(self, mode: ReadMode) -> usize {
        match mode {
            ReadMode::Bytes => self.position,
            ReadMode::Text => self.text_position,
        }
    }

    /// The pointer with the cursor that `mode` selects moved to `to`.
    pub open spec fn with_cursor(self, mode: ReadMode, to: usize) -> FilePointerView {
        match mode {
            ReadMode::Bytes => FilePointerView { position: to, ..self },
            ReadMode::Text => FilePointerView { text_position: to, ..self },
        }
    }
}

impl View for FilePointer {
    type V = FilePointerView;

    open spec fn view(&self) -> FilePointerView {
        FilePointerView {
            file: self.file@,
            position: self.position,
            text_position: self.text_position,
            erstat: self.erstat,
        }
    }
}

impl FilePointer {
    /// Create a new file pointer to stdin.
    pub fn new_stdin() -> (fp: Self)
        ensures
            fp@ == (FilePointerView {
                file: FileType::Stdin,
                position: 0,
                text_position: 0,
                erstat: 0,
            }),
    {
        Self { file: FileType::Stdin, position: 0, text_position: 0, erstat: 0 }
    }

    /// Create a new file pointer to stdout.
    pub fn new_stdout() -> (fp: Self)
        ensures
            fp@ == (FilePointerView {
                file: FileType::Stdout,
                position: 0,
                text_position: 0,
                erstat: 0,
            }),
    {
        Self { file: FileType::Stdout, position: 0, text_position: 0, erstat: 0 }
    }

    /// Create a new file pointer with the given name.
    pub fn new_named(name: &str) -> (fp: Self)
        ensures
            fp@ == (FilePointerView {
                file: FileType::Named(name@),
                position: 0,
                text_position: 0,
                erstat: 0,
            }),
    {
        Self { file: FileType::Named(name.to_owned()), position: 0, text_position: 0, erstat: 0 }
    }

    /// Create a new file pointer with the given name and set the erstat to 1.
    /// This is used when opening a file that does not exist.
    pub fn new_named_with_erstat(name: &str) -> (fp: Self)
        ensures
            fp@ == (FilePointerView {
                file: FileType::Named(name@),
                position: 0,
                text_position: 0,
                erstat: 1,
            }),
    {
        Self { file: FileType::Named(name.to_owned()), position: 0, text_position: 0, erstat: 1 }
    }
}

/// The index of the first entry at or after `from` that is called `name`, or
/// the number of entries if there is none.
pub open spec fn first_named(
    entries: Seq<(String, Vec<u8>)>,
    name: Seq<char>,
    from: int,
) -> int
    decreases entries.len() - from,
{
    if from < 0 || from >= entries.len() {
        entries.len() as int
    } else if entries[from].0@ == name {
        from
    } else {
        first_named(entries, name, from + 1)
    }
}

/// The mapping from names to contents that a list of entries stands for.
/// Where a name occurs more than once, its first entry counts.
pub open spec fn files_of(entries: Seq<(String, Vec<u8>)>) -> Map<Seq<char>, Seq<u8>> {
    Map::new(
        |name: Seq<char>| first_named(entries, name, 0) < entries.len(),
        |name: Seq<char>| entries[first_named(entries, name, 0)].1@,
    )
}

/// The index of the first line feed of `content` at or after `from`, or the
/// length of `content` if there is none.
pub open spec fn next_line_feed(content: Seq<u8>, from: int) -> int
    decreases content.len() - from,
{
    if from < 0 || from >= content.len() {
        content.len() as int
    } else if content[from] == LINE_FEED {
        from
    } else {
        next_line_feed(content, from + 1)
    }
}

/// `content` after `data` has been written at offset `at`: the bytes from
/// `at` on are replaced by `data`, and the stream grows, filled with zero
/// bytes, as far as is needed to hold them.
pub open spec fn overwritten(content: Seq<u8>, at: int, data: Seq<u8>) -> Seq<u8> {
    Seq::new(
        if content.len() >= at + data.len() {
            content.len()
        } else {
            (at + data.len()) as nat
        },
        |i: int|
            if at <= i < at + data.len() {
                data[i - at]
            } else if i < content.len() {
                content[i]
            } else {
                0u8
            },
    )
}

/// How many bytes a read of at most `length` bytes at `cursor` yields.
pub open spec fn readable(content: Seq<u8>, cursor: int, length: int) -> int {
    if cursor >= content.len() || length <= 0 {
        0
    } else if length <= content.len() - cursor {
        length
    } else {
        content.len() - cursor
    }
}

/// The text of the document that a new file system holds as `input.tex`.
pub open spec fn default_input() -> Seq<u8> {
    "\n\\begin{document}\n\\begin{tikzpicture}\n\\draw (0,0) circle (1in);\n\\end{tikzpicture}\n\\end{document}".spec_bytes()
}

/// The model of a [`VirtualFileSystem`].
pub struct VfsView {
    pub files: Map<Seq<char>, Seq<u8>>,
    pub stdin: Seq<u8>,
    pub stdout: Seq<u8>,
    pub pointers: Seq<FilePointerView>,
}

impl VfsView {
    /// Whether every stream is short enough for its length to be a `usize`.
    /// The model of every [`VirtualFileSystem`] is (see [`law_view_fits`]).
    pub open spec fn fits(self) -> bool {
        &&& self.stdin.len() <= usize::MAX
        &&& self.stdout.len() <= usize::MAX
        &&& forall|name: Seq<char>|
            self.files.contains_key(name) ==> (#[trigger] self.files[name]).len() <= usize::MAX
    }

    /// Whether `fd` is a descriptor of this file system.
    pub open spec fn has_descriptor(self, fd: int) -> bool {
        0 <= fd < self.pointers.len()
    }

    /// The bytes of a stream. A named stream that does not exist is empty.
    pub open spec fn content_of(self, stream: FileType<Seq<char>>) -> Seq<u8> {
        match stream {
            FileType::Stdin => self.stdin,
            FileType::Stdout => self.stdout,
            FileType::Named(name) => if self.files.contains_key(name) {
                self.files[name]
            } else {
                Seq::empty()
            },
        }
    }

    /// The file system with the bytes of `stream` replaced. A named stream
    /// that does not exist is created.
    pub open spec fn with_content(self, stream: FileType<Seq<char>>, bytes: Seq<u8>) -> VfsView {
        match stream {
            FileType::Stdin => VfsView { stdin: bytes, ..self },
            FileType::Stdout => VfsView { stdout: bytes, ..self },
            FileType::Named(name) => VfsView { files: self.files.insert(name, bytes), ..self },
        }
    }

    /// The bytes of the stream that descriptor `fd` points to.
    pub open spec fn content_at(self, fd: int) -> Seq<u8>
        recommends
            self.has_descriptor(fd),
    {
        self.content_of(self.pointers[fd].file)
    }

    /// The error status that a pointer opened on `stream` gets.
    pub open spec fn erstat_on_open(self, stream: FileType<Seq<char>>, erstat_if_new: bool) -> i32 {
        match stream {
            FileType::Named(name) => if !self.files.contains_key(name) && erstat_if_new {
                1i32
            } else {
                0i32
            },
            _ => 0i32,
        }
    }

    /// Opening `stream`: a named stream that does not exist is created empty,
    /// and a pointer with both cursors at 0 is appended to the table.
    pub open spec fn open(self, stream: FileType<Seq<char>>, erstat_if_new: bool) -> VfsView {
        let pointer = FilePointerView {
            file: stream,
            position: 0,
            text_position: 0,
            erstat: self.erstat_on_open(stream, erstat_if_new),
        };
        let files = match stream {
            FileType::Named(name) => if self.files.contains_key(name) {
                self.files
            } else {
                self.files.insert(name, Seq::empty())
            },
            _ => self.files,
        };
        VfsView { files: files, pointers: self.pointers.push(pointer), ..self }
    }

    /// Whether a write of `count` bytes through `fd` takes place: `fd` is a
    /// descriptor, and the end of the written range is a `usize`.
    pub open spec fn can_write(self, fd: int, count: int) -> bool {
        self.has_descriptor(fd) && self.pointers[fd].position + count <= usize::MAX
    }

    /// Writing `data` through `fd`, at the byte cursor, which moves behind the
    /// written bytes. Where the write does not take place nothing changes.
    pub open spec fn write(self, fd: int, data: Seq<u8>) -> VfsView {
        if self.can_write(fd, data.len() as int) {
            let pointer = self.pointers[fd];
            let content = overwritten(self.content_at(fd), pointer.position as int, data);
            let moved = FilePointerView {
                position: (pointer.position + data.len()) as usize,
                ..pointer
            };
            VfsView {
                pointers: self.pointers.update(fd, moved),
                ..self.with_content(pointer.file, content)
            }
        } else {
            self
        }
    }

    /// The bytes that a read of at most `length` bytes through `fd` yields.
    pub open spec fn read_data(self, fd: int, length: int, mode: ReadMode) -> Seq<u8> {
        if self.has_descriptor(fd) {
            let cursor = self.pointers[fd].cursor(mode) as int;
            let content = self.content_at(fd);
            if cursor < content.len() {
                content.subrange(cursor, cursor + readable(content, cursor, length))
            } else {
                Seq::empty()
            }
        } else {
            Seq::empty()
        }
    }

    /// The file system after a read of at most `length` bytes through `fd`:
    /// the cursor that `mode` selects has moved behind the bytes read.
    pub open spec fn read(self, fd: int, length: int, mode: ReadMode) -> VfsView {
        if self.has_descriptor(fd) {
            let pointer = self.pointers[fd];
            let cursor = pointer.cursor(mode) as int;
            let count = readable(self.content_at(fd), cursor, length);
            VfsView {
                pointers: self.pointers.update(
                    fd,
                    pointer.with_cursor(mode, (cursor + count) as usize),
                ),
                ..self
            }
        } else {
            self
        }
    }

    /// Whether the cursor that `mode` selects has reached the end of the
    /// pointer's stream. Standard output has no end.
    pub open spec fn pointer_at_eof(self, pointer: FilePointerView, mode: ReadMode) -> bool {
        match pointer.file {
            FileType::Stdout => false,
            _ => pointer.cursor(mode) >= self.content_of(pointer.file).len(),
        }
    }

    /// Whether the line cursor of the pointer is at the end of a line: at the
    /// end of the stream, or at a line feed.
    pub open spec fn pointer_at_eoln(self, pointer: FilePointerView) -> bool {
        let content = self.content_of(pointer.file);
        self.pointer_at_eof(pointer, ReadMode::Text) || (pointer.text_position < content.len()
            && content[pointer.text_position as int] == LINE_FEED)
    }

    /// Whether descriptor `fd` is at the end of its stream, for the byte
    /// cursor. What is no descriptor is at its end.
    pub open spec fn at_eof(self, fd: int) -> bool {
        self.has_descriptor(fd) ==> self.pointer_at_eof(self.pointers[fd], ReadMode::Bytes)
    }

    /// Whether descriptor `fd` is at the end of a line. What is no descriptor
    /// is at its end.
    pub open spec fn at_eoln(self, fd: int) -> bool {
        self.has_descriptor(fd) ==> self.pointer_at_eoln(self.pointers[fd])
    }

    /// The offset of the next line feed at or after the byte cursor of `fd`,
    /// or the length of the stream if there is none. Where the cursor is at or
    /// behind the end, the offset of the last byte (0 for an empty stream).
    pub open spec fn next_newline_offset(self, fd: int) -> usize
        recommends
            self.has_descriptor(fd),
    {
        let content = self.content_at(fd);
        let position = self.pointers[fd].position;
        if position >= content.len() {
            if content.len() == 0 {
                0usize
            } else {
                (content.len() - 1) as usize
            }
        } else {
            next_line_feed(content, position as int) as usize
        }
    }

    /// Whether moving the byte cursor of `fd` by `offset` takes place: `fd`
    /// is a descriptor and the new position is a `usize`.
    pub open spec fn can_advance(self, fd: int, offset: int) -> bool {
        self.has_descriptor(fd) && self.pointers[fd].position + offset <= usize::MAX
    }

    /// Moving the byte cursor of `fd` forward by `offset`. Where the move
    /// does not take place nothing changes.
    pub open spec fn advance(self, fd: int, offset: int) -> VfsView {
        if self.can_advance(fd, offset) {
            let pointer = self.pointers[fd];
            VfsView {
                pointers: self.pointers.update(
                    fd,
                    FilePointerView { position: (pointer.position + offset) as usize, ..pointer },
                ),
                ..self
            }
        } else {
            self
        }
    }

    /// Whether the line cursor of `fd` stands on a line feed.
    pub open spec fn on_line_feed(self, fd: int) -> bool {
        &&& self.has_descriptor(fd)
        &&& self.pointers[fd].text_position < self.content_at(fd).len()
        &&& self.content_at(fd)[self.pointers[fd].text_position as int] == LINE_FEED
    }

    /// Stepping over a line feed: where the line cursor of `fd` stands on one
    /// it moves by one, and nothing changes otherwise.
    pub open spec fn skip_newline(self, fd: int) -> VfsView {
        if self.on_line_feed(fd) {
            let pointer = self.pointers[fd];
            VfsView {
                pointers: self.pointers.update(
                    fd,
                    FilePointerView {
                        text_position: (pointer.text_position + 1) as usize,
                        ..pointer
                    },
                ),
                ..self
            }
        } else {
            self
        }
    }

    /// Whether a line can be read through `fd`: it is a descriptor whose line
    /// cursor is before the end of its stream.
    pub open spec fn has_line(self, fd: int) -> bool {
        self.has_descriptor(fd) && self.pointers[fd].text_position < self.content_at(fd).len()
    }

    /// The line at the line cursor of `fd`: the bytes up to the next line
    /// feed, or to the end of the stream.
    pub open spec fn line_data(self, fd: int) -> Seq<u8>
        recommends
            self.has_line(fd),
    {
        let content = self.content_at(fd);
        let start = self.pointers[fd].text_position as int;
        content.subrange(start, next_line_feed(content, start))
    }

    /// The file system after the line at the line cursor of `fd` has been
    /// read: the cursor stands behind the line feed that ended the line, or at
    /// the end of the stream. Where no line can be read nothing changes.
    pub open spec fn read_line(self, fd: int) -> VfsView {
        if self.has_line(fd) {
            let pointer = self.pointers[fd];
            let content = self.content_at(fd);
            let stop = next_line_feed(content, pointer.text_position as int);
            let behind = if stop < content.len() {
                stop + 1
            } else {
                stop
            };
            VfsView {
                pointers: self.pointers.update(
                    fd,
                    FilePointerView { text_position: behind as usize, ..pointer },
                ),
                ..self
            }
        } else {
            self
        }
    }
}

/// A virtual file system that allows for opening, reading, and
/// writing files in memory.
#[derive(Debug, Clone)]
pub struct VirtualFileSystem {
    /// The named files, each with its contents. Where a name occurs more than
    /// once, its first entry counts.
    pub data: Vec<(String, Vec<u8>)>,
    pub stdin: Vec<u8>,
    pub stdout: Vec<u8>,
    /// A mapping from file descriptors to file handles. This
    /// keeps track of open files, etc.
    pub fd_to_file_pointer: Vec<FilePointer>,
}

impl View for VirtualFileSystem {
    type V = VfsView;

    open spec fn view(&self) -> VfsView {
        VfsView {
            files: files_of(self.data@),
            stdin: self.stdin@,
            stdout: self.stdout@,
            pointers: self.fd_to_file_pointer@.map_values(|fp: FilePointer| fp@),
        }
    }
}

/// The result of `first_named` lies between `from` and the number of entries.
proof fn lemma_first_named_bounds(entries: Seq<(String, Vec<u8>)>, name: Seq<char>, from: int)
    requires
        0 <= from <= entries.len(),
    ensures
        from <= first_named(entries, name, from) <= entries.len(),
        first_named(entries, name, from) < entries.len() ==> entries[first_named(
            entries,
            name,
            from,
        )].0@ == name,
    decreases entries.len() - from,
{
    if from < entries.len() && entries[from].0@ != name {
        lemma_first_named_bounds(entries, name, from + 1);
    }
}

/// Replacing an entry by one of the same name does not change where names
/// are found.
proof fn lemma_first_named_update(
    entries: Seq<(String, Vec<u8>)>,
    at: int,
    entry: (String, Vec<u8>),
    name: Seq<char>,
    from: int,
)
    requires
        0 <= at < entries.len(),
        entries[at].0@ == entry.0@,
        0 <= from <= entries.len(),
    ensures
        first_named(entries.update(at, entry), name, from) == first_named(entries, name, from),
    decreases entries.len() - from,
{
    if from < entries.len() && entries[from].0@ != name {
        lemma_first_named_update(entries, at, entry, name, from + 1);
    }
}

/// Where names are found after an entry has been appended.
proof fn lemma_first_named_push(
    entries: Seq<(String, Vec<u8>)>,
    entry: (String, Vec<u8>),
    name: Seq<char>,
    from: int,
)
    requires
        0 <= from <= entries.len(),
    ensures
        first_named(entries.push(entry), name, from) == if first_named(entries, name, from)
            < entries.len() {
            first_named(entries, name, from)
        } else if entry.0@ == name {
            entries.len() as int
        } else {
            entries.len() as int + 1
        },
    decreases entries.len() - from,
{
    let longer = entries.push(entry);
    if from < entries.len() {
        assert(longer[from] == entries[from]);
        if entries[from].0@ != name {
            lemma_first_named_push(entries, entry, name, from + 1);
        }
    } else {
        assert(longer[from] == entry);
        if entry.0@ != name {
            assert(first_named(longer, name, from + 1) == longer.len());
        }
    }
}

/// Replacing the contents of the entry that a name is found at replaces what
/// the name maps to.
proof fn lemma_files_of_update(
    entries: Seq<(String, Vec<u8>)>,
    at: int,
    entry: (String, Vec<u8>),
)
    requires
        0 <= at < entries.len(),
        entries[at].0@ == entry.0@,
        at == first_named(entries, entry.0@, 0),
    ensures
        files_of(entries.update(at, entry)) == files_of(entries).insert(entry.0@, entry.1@),
{
    let changed = entries.update(at, entry);
    assert forall|name: Seq<char>| #[trigger]
        files_of(changed).contains_key(name) == files_of(entries).insert(
            entry.0@,
            entry.1@,
        ).contains_key(name) by {
        lemma_first_named_update(entries, at, entry, name, 0);
    }
    assert forall|name: Seq<char>| #[trigger]
        files_of(changed).contains_key(name) implies files_of(changed)[name] == files_of(
        entries,
    ).insert(entry.0@, entry.1@)[name] by {
        lemma_first_named_update(entries, at, entry, name, 0);
        lemma_first_named_bounds(entries, name, 0);
    }
    assert(files_of(changed) =~= files_of(entries).insert(entry.0@, entry.1@));
}

/// Appending an entry under a name that is not found yet adds the name.
proof fn lemma_files_of_push(entries: Seq<(String, Vec<u8>)>, entry: (String, Vec<u8>))
    requires
        first_named(entries, entry.0@, 0) == entries.len(),
    ensures
        files_of(entries.push(entry)) == files_of(entries).insert(entry.0@, entry.1@),
{
    let longer = entries.push(entry);
    assert forall|name: Seq<char>|
        #[trigger] first_named(longer, name, 0) == if first_named(entries, name, 0)
            < entries.len() {
            first_named(entries, name, 0)
        } else if entry.0@ == name {
            entries.len() as int
        } else {
            entries.len() as int + 1
        } by {
        lemma_first_named_push(entries, entry, name, 0);
    }
    assert forall|name: Seq<char>| first_named(entries, name, 0) < entries.len() implies longer[
        first_named(entries, name, 0)] == entries[first_named(entries, name, 0)] by {
        lemma_first_named_bounds(entries, name, 0);
    }
    assert(files_of(longer) =~= files_of(entries).insert(entry.0@, entry.1@));
}

/// The result of `next_line_feed` lies between `from` and the length, on a
/// line feed or at the end, with no line feed before it.
pub proof fn lemma_next_line_feed(content: Seq<u8>, from: int)
    requires
        0 <= from <= content.len(),
    ensures
        from <= next_line_feed(content, from) <= content.len(),
        next_line_feed(content, from) < content.len() ==> content[next_line_feed(content, from)]
            == LINE_FEED,
        forall|i: int| from <= i < next_line_feed(content, from) ==> content[i] != LINE_FEED,
    decreases content.len() - from,
{
    if from < content.len() && content[from] != LINE_FEED {
        lemma_next_line_feed(content, from + 1);
    }
}

/// The streams of a file system are short enough for its model to fit.
pub proof fn law_view_fits(vfs: VirtualFileSystem)
    ensures
        vfs@.fits(),
{
    assert(vfs.stdin@.len() == vfs.stdin.len());
    assert(vfs.stdout@.len() == vfs.stdout.len());
    assert forall|name: Seq<char>| vfs@.files.contains_key(name) implies (
    #[trigger] vfs@.files[name]).len() <= usize::MAX by {
        lemma_first_named_bounds(vfs.data@, name, 0);
        let contents = vfs.data@[first_named(vfs.data@, name, 0)].1;
        assert(contents@.len() == contents.len());
    }
}

/// Whether two strings hold the same text.
pub fn same_text(a: &str, b: &str) -> (same: bool)
    ensures
        same == (a@ == b@),
{
    let x = a.as_bytes();
    let y = b.as_bytes();
    proof {
        encode_utf8_decode_utf8(a@);
        encode_utf8_decode_utf8(b@);
    }
    if x.len() != y.len() {
        return false;
    }
    let mut i: usize = 0;
    while i < x.len()
        invariant
            x@ == encode_utf8(a@),
            y@ == encode_utf8(b@),
            x@.len() == y@.len(),
            i <= x@.len(),
            forall|j: int| 0 <= j < i ==> x@[j] == y@[j],
        decreases x.len() - i,
    {
        if x[i] != y[i] {
            return false;
        }
        i += 1;
    }
    assert(x@ =~= y@);
    true
}

/// Where `name` is found among the entries.
fn find_entry(data: &Vec<(String, Vec<u8>)>, name: &str) -> (found: Option<usize>)
    ensures
        match found {
            Some(at) => at < data.len() && at == first_named(data@, name@, 0),
            None => first_named(data@, name@, 0) == data.len(),
        },
{
    let mut i: usize = 0;
    while i < data.len()
        invariant
            i <= data.len(),
            first_named(data@, name@, 0) == first_named(data@, name@, i as int),
        decreases data.len() - i,
    {
        if same_text(data[i].0.as_str(), name) {
            return Some(i);
        }
        i += 1;
    }
    None
}

/// Puts a file into a list of entries: the contents of the entry that the
/// name is found at are replaced, and where the name is not found an entry is
/// appended.
pub fn insert_file(entries: &mut Vec<(String, Vec<u8>)>, name: &str, contents: Vec<u8>)
    ensures
        files_of(final(entries)@) == files_of(old(entries)@).insert(name@, contents@),
{
    match find_entry(entries, name) {
        Some(at) => {
            proof {
                lemma_first_named_bounds(entries@, name@, 0);
                lemma_files_of_update(entries@, at as int, (entries@[at as int].0, contents));
            }
            entries[at].1 = contents;
        },
        None => {
            let entry = (name.to_owned(), contents);
            proof {
                lemma_files_of_push(entries@, entry);
            }
            entries.push(entry);
        },
    }
}

/// Writes `data` into `buffer` at offset `at`, growing the buffer with zero
/// bytes where it is too short.
fn overwrite_at(buffer: &mut Vec<u8>, at: usize, data: &[u8])
    requires
        at + data@.len() <= usize::MAX,
    ensures
        final(buffer)@ == overwritten(old(buffer)@, at as int, data@),
{
    let end: usize = at + data.len();
    while buffer.len() < end
        invariant
            old(buffer)@.len() <= buffer@.len(),
            buffer@.len() <= old(buffer)@.len() || buffer@.len() <= end,
            forall|i: int| 0 <= i < old(buffer)@.len() ==> buffer@[i] == old(buffer)@[i],
            forall|i: int| old(buffer)@.len() <= i < buffer@.len() ==> buffer@[i] == 0u8,
        decreases end - buffer.len(),
    {
        buffer.push(0u8);
    }
    let ghost grown = buffer@;
    assert(grown.len() == if old(buffer)@.len() >= end {
        old(buffer)@.len()
    } else {
        end as nat
    });
    let mut k: usize = 0;
    while k < data.len()
        invariant
            k <= data@.len(),
            end == at + data@.len(),
            buffer@.len() == grown.len(),
            grown.len() >= end,
            forall|i: int| 0 <= i < grown.len() && !(at <= i < at + k) ==> buffer@[i] == grown[i],
            forall|i: int| at <= i < at + k ==> buffer@[i] == data@[i - at],
        decreases data.len() - k,
    {
        buffer.set(at + k, data[k]);
        k += 1;
    }
    assert(buffer@.len() == overwritten(old(buffer)@, at as int, data@).len());
    assert forall|i: int| 0 <= i < buffer@.len() implies buffer@[i] == overwritten(
        old(buffer)@,
        at as int,
        data@,
    )[i] by {
        if !(at <= i < at + data@.len()) {
            assert(buffer@[i] == grown[i]);
        }
    }
    assert(buffer@ =~= overwritten(old(buffer)@, at as int, data@));
}

impl VirtualFileSystem {
    /// Create a new virtual file system initialized with the files in `data`,
    /// and with a small document as `input.tex`.
    pub fn new(data: Vec<(String, Vec<u8>)>) -> (vfs: Self)
        ensures
            vfs@ == (VfsView {
                files: files_of(data@).insert("input.tex"@, default_input()),
                stdin: Seq::empty(),
                stdout: Seq::empty(),
                pointers: Seq::empty(),
            }),
    {
        let mut vfs = Self {
            data,
            stdin: Vec::new(),
            stdout: Vec::new(),
            fd_to_file_pointer: Vec::new(),
        };
        assert(vfs@.pointers =~= Seq::empty());
        vfs.set_file_contents(
            FileType::Named("input.tex"),
            "\n\\begin{document}\n\\begin{tikzpicture}\n\\draw (0,0) circle (1in);\n\\end{tikzpicture}\n\\end{document}".as_bytes(),
        );
        vfs
    }

    /// The contents of a stream, or `None` for a named stream that does not
    /// exist.
    pub fn get_file_contents(&self, file: FileType<&str>) -> (contents: Option<&Vec<u8>>)
        ensures
            contents is Some ==> contents->0@ == self@.content_of(file@),
            contents is None <==> file@ is Named && !self@.files.contains_key(file@->Named_0),
    {
        match file {
            FileType::Stdin => Some(&self.stdin),
            FileType::Stdout => Some(&self.stdout),
            FileType::Named(name) => match find_entry(&self.data, name) {
                Some(at) => Some(&self.data[at].1),
                None => None,
            },
        }
    }

    /// Replace the contents of a stream. A named stream that does not exist
    /// is created.
    pub fn set_file_contents(&mut self, file: FileType<&str>, data: &[u8])
        ensures
            final(self)@ == old(self)@.with_content(file@, data@),
    {
        let contents = vstd::slice::slice_to_vec(data);
        match file {
            FileType::Stdin => {
                self.stdin = contents;
            },
            FileType::Stdout => {
                self.stdout = contents;
            },
            FileType::Named(name) => {
                insert_file(&mut self.data, name, contents);
            },
        }
    }

    /// Get a file descriptor for the specified file. There is no
    /// way for this function to fail. If the file does not exist,
    /// a new file will be created with the corresponding name.
    ///
    /// This function always returns a file pointer that is initialized to
    /// position 0 in the file.
    pub fn get_file_descriptor(&mut self, file: FileType<&str>, erstat_if_new: bool) -> (fd: usize)
        ensures
            fd == old(self)@.pointers.len(),
            final(self)@ == old(self)@.open(file@, erstat_if_new),
    {
        let file_pointer = match file {
            FileType::Stdin => FilePointer::new_stdin(),
            FileType::Stdout => FilePointer::new_stdout(),
            FileType::Named(name) => {
                match find_entry(&self.data, name) {
                    Some(_) => FilePointer::new_named(name),
                    None => {
                        let entry = (name.to_owned(), Vec::new());
                        proof {
                            lemma_files_of_push(self.data@, entry);
                        }
                        self.data.push(entry);
                        if erstat_if_new {
                            FilePointer::new_named_with_erstat(name)
                        } else {
                            FilePointer::new_named(name)
                        }
                    },
                }
            },
        };
        self.fd_to_file_pointer.push(file_pointer);
        assert(self@.pointers =~= old(self)@.open(file@, erstat_if_new).pointers);
        assert(self@.files =~= old(self)@.open(file@, erstat_if_new).files);
        self.fd_to_file_pointer.len() - 1
    }

    /// Get the file pointer referenced by index `fd`.
    pub fn get_file_pointer_by_index(&self, fd: i32) -> (pointer: Option<&FilePointer>)
        ensures
            pointer is Some <==> self@.has_descriptor(fd as int),
            pointer is Some ==> pointer->0@ == self@.pointers[fd as int],
    {
        if fd < 0 {
            None
        } else {
            let at: usize = fd as usize;
            if at < self.fd_to_file_pointer.len() {
                Some(&self.fd_to_file_pointer[at])
            } else {
                None
            }
        }
    }

    /// Get the file pointer referenced by index `fd`, to change it.
    pub fn get_file_pointer_by_index_mut(&mut self, fd: i32) -> (pointer: Option<&mut FilePointer>)
        ensures
            pointer is Some <==> old(self)@.has_descriptor(fd as int),
            pointer is None ==> *final(self) == *old(self),
            pointer is Some ==> pointer->0@ == old(self)@.pointers[fd as int] && final(self)@ == (
            VfsView {
                pointers: old(self)@.pointers.update(fd as int, final(pointer->0)@),
                ..old(self)@
            }),
    {
        if fd < 0 {
            None
        } else {
            let at: usize = fd as usize;
            if at < self.fd_to_file_pointer.len() {
                let pointer = &mut self.fd_to_file_pointer[at];
                proof {
                    let after = old(self).fd_to_file_pointer@.update(at as int, *final(pointer));
                    assert(after.map_values(|fp: FilePointer| fp@) =~= old(self)@.pointers.update(
                        fd as int,
                        final(pointer)@,
                    ));
                }
                Some(pointer)
            } else {
                None
            }
        }
    }

    /// The bytes of the stream that `file` names, or `None` for a named
    /// stream that does not exist.
    fn stream_ref(&self, file: &FileType<String>) -> (content: Option<&Vec<u8>>)
        ensures
            content is Some ==> content->0@ == self@.content_of(file@),
            content is None ==> self@.content_of(file@).len() == 0,
    {
        match file {
            FileType::Stdin => Some(&self.stdin),
            FileType::Stdout => Some(&self.stdout),
            FileType::Named(name) => match find_entry(&self.data, name.as_str()) {
                Some(at) => Some(&self.data[at].1),
                None => None,
            },
        }
    }

    /// The length of the stream that `file` names.
    fn stream_len(&self, file: &FileType<String>) -> (len: usize)
        ensures
            len == self@.content_of(file@).len(),
    {
        match self.stream_ref(file) {
            Some(content) => content.len(),
            None => 0,
        }
    }

    /// Writes `data` at offset `position` of the stream of pointer `at`.
    fn write_stream(&mut self, at: usize, position: usize, data: &[u8])
        requires
            at < old(self).fd_to_file_pointer.len(),
            position + data@.len() <= usize::MAX,
        ensures
            final(self)@ == old(self)@.with_content(
                old(self)@.pointers[at as int].file,
                overwritten(old(self)@.content_at(at as int), position as int, data@),
            ),
    {
        match &self.fd_to_file_pointer[at].file {
            FileType::Stdin => {
                overwrite_at(&mut self.stdin, position, data);
            },
            FileType::Stdout => {
                overwrite_at(&mut self.stdout, position, data);
            },
            FileType::Named(name) => {
                match find_entry(&self.data, name.as_str()) {
                    Some(found) => {
                        proof {
                            lemma_first_named_bounds(self.data@, name@, 0);
                        }
                        overwrite_at(&mut self.data[found].1, position, data);
                        proof {
                            lemma_files_of_update(
                                old(self).data@,
                                found as int,
                                self.data@[found as int],
                            );
                            assert(self.data@ =~= old(self).data@.update(
                                found as int,
                                self.data@[found as int],
                            ));
                        }
                    },
                    None => {
                        let mut contents: Vec<u8> = Vec::new();
                        overwrite_at(&mut contents, position, data);
                        let entry = (name.clone(), contents);
                        proof {
                            lemma_files_of_push(self.data@, entry);
                        }
                        self.data.push(entry);
                    },
                }
            },
        }
    }

    /// Write data to the file referenced by the file indexed by `fd`. If `fd`
    /// is no descriptor, or the written range would end behind the largest
    /// offset, nothing happens.
    ///
    /// Data will be written starting at the byte cursor of the file pointer,
    /// which moves behind the written bytes.
    pub fn write_to_file_by_index(&mut self, fd: i32, data: &[u8])
        ensures
            final(self)@ == old(self)@.write(fd as int, data@),
    {
        if fd < 0 {
            return ;
        }
        let at: usize = fd as usize;
        if at >= self.fd_to_file_pointer.len() {
            return ;
        }
        let position = self.fd_to_file_pointer[at].position;
        let end = match position.checked_add(data.len()) {
            Some(end) => end,
            None => {
                return ;
            },
        };
        self.write_stream(at, position, data);
        self.fd_to_file_pointer[at].position = end;
        proof {
            let before = old(self)@;
            let pointer = before.pointers[at as int];
            let moved = FilePointerView { position: end, ..pointer };
            assert(self@.pointers =~= before.pointers.update(at as int, moved));
        }
    }

    /// Read at most `length` bytes from the file referenced by `fd`, at the
    /// cursor that `mode` selects. That cursor moves behind the bytes read.
    /// Behind the end of the stream, and for what is no descriptor, the
    /// result is empty.
    pub fn read(&mut self, fd: i32, length: usize, mode: ReadMode) -> (bytes: Vec<u8>)
        ensures
            bytes@ == old(self)@.read_data(fd as int, length as int, mode),
            final(self)@ == old(self)@.read(fd as int, length as int, mode),
    {
        if fd < 0 {
            return Vec::new();
        }
        let at: usize = fd as usize;
        if at >= self.fd_to_file_pointer.len() {
            return Vec::new();
        }
        let cursor = match mode {
            ReadMode::Bytes => self.fd_to_file_pointer[at].position,
            ReadMode::Text => self.fd_to_file_pointer[at].text_position,
        };
        let bytes = match self.stream_ref(&self.fd_to_file_pointer[at].file) {
            Some(content) => {
                if cursor >= content.len() {
                    Vec::new()
                } else {
                    let available = content.len() - cursor;
                    let count = if length <= available {
                        length
                    } else {
                        available
                    };
                    slice_of(content.as_slice(), cursor, cursor + count)
                }
            },
            None => Vec::new(),
        };
        let moved = cursor + bytes.len();
        match mode {
            ReadMode::Bytes => {
                self.fd_to_file_pointer[at].position = moved;
            },
            ReadMode::Text => {
                self.fd_to_file_pointer[at].text_position = moved;
            },
        }
        proof {
            let before = old(self)@;
            let pointer = before.pointers[at as int];
            assert(self@.pointers =~= before.pointers.update(
                at as int,
                pointer.with_cursor(mode, moved),
            ));
        }
        bytes
    }

    /// Read from the given file based on `fd`, at the byte cursor. The file
    /// pointer's position will be updated based on the number of bytes read.
    pub fn read_from_file_by_index(&mut self, fd: i32, length: usize) -> (bytes: Vec<u8>)
        ensures
            bytes@ == old(self)@.read_data(fd as int, length as int, ReadMode::Bytes),
            final(self)@ == old(self)@.read(fd as int, length as int, ReadMode::Bytes),
    {
        self.read(fd, length, ReadMode::Bytes)
    }

    /// Read a byte at a specific offset of a file specified by `fd`. The file
    /// pointer's position will _not_ be updated. For what is no descriptor the
    /// result is 0.
    pub fn get_file_byte(&mut self, fd: i32, offset: usize) -> (byte: u8)
        requires
            fd >= 0,
            old(self)@.has_descriptor(fd as int) ==> offset < old(self)@.content_at(fd as int).len(),
        ensures
            *final(self) == *old(self),
            byte == if old(self)@.has_descriptor(fd as int) {
                old(self)@.content_at(fd as int)[offset as int]
            } else {
                0u8
            },
    {
        let at: usize = fd as usize;
        if at >= self.fd_to_file_pointer.len() {
            return 0;
        }
        match self.stream_ref(&self.fd_to_file_pointer[at].file) {
            Some(content) => content[offset],
            None => 0,
        }
    }

    /// Return the current length (in bytes) of the file referenced by `fd`,
    /// and 0 for what is no descriptor.
    pub fn get_length(&mut self, fd: i32) -> (len: usize)
        ensures
            *final(self) == *old(self),
            len == if old(self)@.has_descriptor(fd as int) {
                old(self)@.content_at(fd as int).len()
            } else {
                0
            },
    {
        if fd < 0 {
            return 0;
        }
        let at: usize = fd as usize;
        if at >= self.fd_to_file_pointer.len() {
            return 0;
        }
        self.stream_len(&self.fd_to_file_pointer[at].file)
    }

    /// Returns whether the byte cursor of `fd` is at the end of the file.
    /// What is no descriptor is at its end.
    pub fn at_eof_by_index(&self, fd: i32) -> (at_end: bool)
        ensures
            at_end == self@.at_eof(fd as int),
    {
        if fd < 0 {
            return true;
        }
        let at: usize = fd as usize;
        if at >= self.fd_to_file_pointer.len() {
            return true;
        }
        self.file_pointer_at_eof(&self.fd_to_file_pointer[at])
    }

    /// Returns whether the line cursor of `fd` is at the end of a line.
    /// What is no descriptor is at its end.
    pub fn at_eoln_by_index(&self, fd: i32) -> (at_end: bool)
        ensures
            at_end == self@.at_eoln(fd as int),
    {
        if fd < 0 {
            return true;
        }
        let at: usize = fd as usize;
        if at >= self.fd_to_file_pointer.len() {
            return true;
        }
        self.file_pointer_at_eoln(&self.fd_to_file_pointer[at])
    }

    /// Returns whether the byte cursor of the file pointer is at the end of
    /// the file.
    pub fn file_pointer_at_eof(&self, fp: &FilePointer) -> (at_end: bool)
        ensures
            at_end == self@.pointer_at_eof(fp@, ReadMode::Bytes),
    {
        match &fp.file {
            FileType::Stdout => false,
            _ => fp.position >= self.stream_len(&fp.file),
        }
    }

    /// Returns whether the line cursor of the file pointer is at the end of
    /// the line.
    pub fn file_pointer_at_eoln(&self, fp: &FilePointer) -> (at_end: bool)
        ensures
            at_end == self@.pointer_at_eoln(fp@),
    {
        match &fp.file {
            FileType::Stdout => {
                fp.text_position < self.stdout.len() && self.stdout[fp.text_position] == LINE_FEED
            },
            _ => match self.stream_ref(&fp.file) {
                Some(content) => fp.text_position >= content.len() || content[fp.text_position]
                    == LINE_FEED,
                None => true,
            },
        }
    }

    /// Find the location of the next "\n" in the file starting at the byte
    /// cursor of the file pointer. If the file ends, the ending position of
    /// the buffer is returned.
    pub fn next_newline_offset_by_index(&self, fd: i32) -> (offset: Option<usize>)
        ensures
            offset is Some <==> self@.has_descriptor(fd as int),
            offset is Some ==> offset->0 == self@.next_newline_offset(fd as int),
    {
        if fd < 0 {
            return None;
        }
        let at: usize = fd as usize;
        if at >= self.fd_to_file_pointer.len() {
            return None;
        }
        let position = self.fd_to_file_pointer[at].position;
        match self.stream_ref(&self.fd_to_file_pointer[at].file) {
            Some(content) => {
                if position >= content.len() {
                    if content.len() == 0 {
                        Some(0)
                    } else {
                        Some(content.len() - 1)
                    }
                } else {
                    Some(find_line_feed(content, position))
                }
            },
            None => Some(0),
        }
    }

    /// Move the byte cursor of `fd` forward by `offset`. If `fd` is no
    /// descriptor, or the new position would be behind the largest offset,
    /// nothing happens.
    pub fn advance_file_pointer(&mut self, fd: i32, offset: usize)
        ensures
            final(self)@ == old(self)@.advance(fd as int, offset as int),
    {
        if fd < 0 {
            return ;
        }
        let at: usize = fd as usize;
        if at >= self.fd_to_file_pointer.len() {
            return ;
        }
        let position = self.fd_to_file_pointer[at].position;
        match position.checked_add(offset) {
            Some(moved) => {
                self.fd_to_file_pointer[at].position = moved;
                proof {
                    let before = old(self)@;
                    let pointer = before.pointers[at as int];
                    assert(self@.pointers =~= before.pointers.update(
                        at as int,
                        FilePointerView { position: moved, ..pointer },
                    ));
                }
            },
            None => {},
        }
    }

    /// Step over a line feed: if the byte at the line cursor of `fd` is a
    /// line feed, the line cursor moves by one. Otherwise nothing happens.
    pub fn skip_newline(&mut self, fd: i32)
        ensures
            final(self)@ == old(self)@.skip_newline(fd as int),
    {
        if fd < 0 {
            return ;
        }
        let at: usize = fd as usize;
        if at >= self.fd_to_file_pointer.len() {
            return ;
        }
        let cursor = self.fd_to_file_pointer[at].text_position;
        let on_line_feed = match self.stream_ref(&self.fd_to_file_pointer[at].file) {
            Some(content) => cursor < content.len() && content[cursor] == LINE_FEED,
            None => false,
        };
        if on_line_feed {
            self.fd_to_file_pointer[at].text_position = cursor + 1;
            proof {
                let before = old(self)@;
                let pointer = before.pointers[at as int];
                assert(self@.pointers =~= before.pointers.update(
                    at as int,
                    FilePointerView { text_position: (cursor + 1) as usize, ..pointer },
                ));
            }
        }
    }

    /// Read a line through `fd`: the bytes from the line cursor up to, and
    /// without, the next line feed or the end of the stream. The line cursor
    /// moves behind the line feed, or to the end. The result is `None` if and
    /// only if the line cursor was at or behind the end, or `fd` is no
    /// descriptor.
    pub fn read_line(&mut self, fd: i32) -> (line: Option<Vec<u8>>)
        ensures
            line is Some <==> old(self)@.has_line(fd as int),
            line is Some ==> line->0@ == old(self)@.line_data(fd as int),
            final(self)@ == old(self)@.read_line(fd as int),
    {
        if fd < 0 {
            return None;
        }
        let at: usize = fd as usize;
        if at >= self.fd_to_file_pointer.len() {
            return None;
        }
        let cursor = self.fd_to_file_pointer[at].text_position;
        let (line, behind) = match self.stream_ref(&self.fd_to_file_pointer[at].file) {
            Some(content) => {
                if cursor >= content.len() {
                    return None;
                }
                let stop = find_line_feed(content, cursor);
                let behind = if stop < content.len() {
                    stop + 1
                } else {
                    stop
                };
                (slice_of(content.as_slice(), cursor, stop), behind)
            },
            None => {
                return None;
            },
        };
        self.fd_to_file_pointer[at].text_position = behind;
        proof {
            let before = old(self)@;
            let pointer = before.pointers[at as int];
            assert(self@.pointers =~= before.pointers.update(
                at as int,
                FilePointerView { text_position: behind, ..pointer },
            ));
        }
        Some(line)
    }

    /// Return the contents of stdout as a string. Bytes that are no UTF-8 are
    /// replaced as the lossy decoding of the standard library does it.
    pub fn get_stdout(&self) -> (text: String)
        ensures
            text@ == lossy_text(self@.stdout),
            valid_utf8(self@.stdout) ==> text@ == decode_utf8(self@.stdout),
    {
        from_utf8_lossy(self.stdout.as_slice())
    }

    /// Set the contents of stdin.
    pub fn set_stdin(&mut self, data: &[u8])
        ensures
            final(self)@ == old(self)@.with_content(FileType::Stdin, data@),
    {
        self.stdin = vstd::slice::slice_to_vec(data);
    }
}

/// The offset of the first line feed of `content` at or after `from`, or the
/// length of `content`.
fn find_line_feed(content: &Vec<u8>, from: usize) -> (at: usize)
    requires
        from <= content@.len(),
    ensures
        at == next_line_feed(content@, from as int),
        from <= at <= content@.len(),
{
    let mut at: usize = from;
    while at < content.len() && content[at] != LINE_FEED
        invariant
            from <= at <= content@.len(),
            next_line_feed(content@, from as int) == next_line_feed(content@, at as int),
        decreases content.len() - at,
    {
        at += 1;
    }
    at
}

/// The text that the lossy UTF-8 decoding of the standard library gives for
/// a byte string.
pub uninterp spec fn lossy_text(bytes: Seq<u8>) -> Seq<char>;

/// `String::from_utf8_lossy` of the standard library. The result depends on
/// the bytes alone; for bytes that are UTF-8 it is the text that they encode.
#[verifier::external_body]
pub(crate) fn from_utf8_lossy(bytes: &[u8]) -> (text: String)
    ensures
        text@ == lossy_text(bytes@),
        valid_utf8(bytes@) ==> text@ == decode_utf8(bytes@),
{
    String::from_utf8_lossy(bytes).into_owned()
}

} // verus!
