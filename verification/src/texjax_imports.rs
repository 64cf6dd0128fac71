//! The functions that the engine imports from its host.
//!
//! They mimic the file primitives of the Pascal run-time that the engine was
//! written for. Each takes the file system and, where it reads or writes the
//! engine's memory, that memory as a slice of bytes. A function that cannot
//! reach the bytes it is asked to touch, or is handed a file name that is no
//! text, reports that and changes nothing.

use crate::bytes::{decimal, digits, text_of_bytes};
pub use crate::filename::clean_filename;
use crate::filename::clean_name;
use crate::filesystem::{
    same_text, FilePointerView, FileType, ReadMode, VfsView, VirtualFileSystem, LINE_FEED,
};
use vstd::prelude::*;
use vstd::utf8::{decode_utf8, valid_utf8};

verus! {

/// The space character.
pub const SPACE: u8 = 32;

/// Why a host function did nothing.
#[derive(Debug, Clone, Copy, PartialEq, Eq)]
pub enum ImportError {
    /// A range of bytes to read or to write does not lie in the memory.
    OutOfMemoryBounds,
    /// The bytes of a file name are no UTF-8.
    NameNotUtf8,
}

/// Whether the `length` bytes at `pointer` lie in a memory of `size` bytes.
pub open spec fn in_memory(size: nat, pointer: int, length: int) -> bool {
    0 <= pointer && 0 <= length && pointer + length <= size
}

/// The memory with `bytes` stored at `pointer`. The memory keeps its size.
pub open spec fn stored(memory: Seq<u8>, pointer: int, bytes: Seq<u8>) -> Seq<u8> {
    Seq::new(
        memory.len(),
        |i: int|
            if pointer <= i < pointer + bytes.len() {
                bytes[i - pointer]
            } else {
                memory[i]
            },
    )
}

/// The order in which the bytes of a number stand in memory. The engine
/// keeps its numbers in the order of the machine that it runs on.
#[derive(Debug, Clone, Copy, PartialEq, Eq)]
pub enum ByteOrder {
    /// The lowest byte first.
    LittleEndian,
    /// The highest byte first.
    BigEndian,
}

/// The number that four bytes hold.
pub open spec fn u32_of_bytes(bytes: Seq<u8>, order: ByteOrder) -> u32
    recommends
        bytes.len() == 4,
{
    match order {
        ByteOrder::LittleEndian => (bytes[0] as int + 256 * (bytes[1] as int) + 65536 * (
        bytes[2] as int) + 16777216 * (bytes[3] as int)) as u32,
        ByteOrder::BigEndian => (bytes[3] as int + 256 * (bytes[2] as int) + 65536 * (
        bytes[1] as int) + 16777216 * (bytes[0] as int)) as u32,
    }
}

/// The four bytes that hold a number.
pub open spec fn bytes_of_u32(value: u32, order: ByteOrder) -> Seq<u8> {
    let lowest = (value as int % 256) as u8;
    let low = (value as int / 256 % 256) as u8;
    let high = (value as int / 65536 % 256) as u8;
    let highest = (value as int / 16777216 % 256) as u8;
    match order {
        ByteOrder::LittleEndian => seq![lowest, low, high, highest],
        ByteOrder::BigEndian => seq![highest, high, low, lowest],
    }
}

/// The length of `line` without the spaces at its end.
pub open spec fn stripped_len(line: Seq<u8>, to: int) -> int
    decreases to,
{
    if to <= 0 || to > line.len() {
        0
    } else if line[to - 1] != SPACE {
        to
    } else {
        stripped_len(line, to - 1)
    }
}

/// `line` without the spaces at its end.
pub open spec fn strip_trailing_spaces(line: Seq<u8>) -> Seq<u8> {
    line.subrange(0, stripped_len(line, line.len() as int))
}

/// The stream that a request for `name` opens. The terminal, `TTY:`, stands
/// for `terminal`; every other name for the file of its normal form.
pub open spec fn requested_stream(
    name: Seq<char>,
    terminal: FileType<Seq<char>>,
) -> FileType<Seq<char>> {
    if clean_name(name) == "TTY:"@ {
        terminal
    } else {
        FileType::Named(clean_name(name))
    }
}

/// What `get` leaves in memory: the bytes read, or one zero byte where none
/// were read, at `pointer`.
pub open spec fn memory_after_get(
    vfs: VfsView,
    memory: Seq<u8>,
    fd: int,
    pointer: int,
    length: int,
) -> Seq<u8> {
    let bytes = vfs.read_data(fd, length, ReadMode::Bytes);
    if bytes.len() == 0 {
        stored(memory, pointer, seq![0u8])
    } else {
        stored(memory, pointer, bytes)
    }
}

/// Whether `get` can store what it reads.
pub open spec fn get_fits(vfs: VfsView, memory: Seq<u8>, fd: int, pointer: int, length: int) -> bool {
    let bytes = vfs.read_data(fd, length, ReadMode::Bytes);
    in_memory(
        memory.len(),
        pointer,
        if bytes.len() == 0 {
            1
        } else {
            bytes.len() as int
        },
    )
}

/// What `input_ln` is asked for, gathered in one value.
pub struct LineRequest {
    /// The order of the bytes of `first` and `last`.
    pub order: ByteOrder,
    pub fd: int,
    pub bypass_eoln: bool,
    pub buf_pointer: int,
    pub first_pointer: int,
    pub last_pointer: int,
}

impl LineRequest {
    /// Whether the two numbers `first` and `last` lie in the memory.
    pub open spec fn bounds_in_memory(self, memory: Seq<u8>) -> bool {
        in_memory(memory.len(), self.first_pointer, 4) && in_memory(
            memory.len(),
            self.last_pointer,
            4,
        )
    }

    /// The number `first`: where in the buffer the line is to begin.
    pub open spec fn first(self, memory: Seq<u8>) -> u32 {
        u32_of_bytes(memory.subrange(self.first_pointer, self.first_pointer + 4), self.order)
    }

    /// The file system when the line is about to be read: the line feed at
    /// the line cursor has been stepped over if that was asked for.
    pub open spec fn before_line(self, vfs: VfsView) -> VfsView {
        if self.bypass_eoln {
            vfs.skip_newline(self.fd)
        } else {
            vfs
        }
    }

    /// Whether there is a line to read.
    pub open spec fn has_line(self, vfs: VfsView) -> bool {
        self.before_line(vfs).has_line(self.fd)
    }

    /// The line that is read, without the spaces at its end.
    pub open spec fn line(self, vfs: VfsView) -> Seq<u8> {
        if self.has_line(vfs) {
            strip_trailing_spaces(self.before_line(vfs).line_data(self.fd))
        } else {
            Seq::empty()
        }
    }

    /// Whether the line can be stored: the numbers `first` and `last` lie in
    /// the memory, and so does the place of a line that is not empty, whose
    /// end is a number of 32 bits.
    pub open spec fn fits(self, vfs: VfsView, memory: Seq<u8>) -> bool {
        &&& self.bounds_in_memory(memory)
        &&& self.line(vfs).len() > 0 ==> {
            &&& in_memory(
                memory.len(),
                self.buf_pointer + self.first(memory),
                self.line(vfs).len() as int,
            )
            &&& self.buf_pointer >= 0
            &&& self.first(memory) + self.line(vfs).len() <= u32::MAX
        }
    }

    /// The number `last` that is stored: the end of the line in the buffer.
    pub open spec fn last(self, vfs: VfsView, memory: Seq<u8>) -> u32 {
        (self.first(memory) + self.line(vfs).len()) as u32
    }

    /// The memory after the line has been stored in the buffer, from `first`
    /// on, and its end as `last`.
    pub open spec fn memory_after(self, vfs: VfsView, memory: Seq<u8>) -> Seq<u8> {
        stored(
            stored(memory, self.buf_pointer + self.first(memory), self.line(vfs)),
            self.last_pointer,
            bytes_of_u32(self.last(vfs, memory), self.order),
        )
    }

    /// The file system after the line has been read.
    pub open spec fn vfs_after(self, vfs: VfsView) -> VfsView {
        self.before_line(vfs).read_line(self.fd)
    }
}

/// Convert a slice of 4 bytes into a u32.
pub fn u8_to_u32(bytes: &[u8], order: ByteOrder) -> (value: u32)
    requires
        bytes@.len() == 4,
    ensures
        value == u32_of_bytes(bytes@, order),
{
    match order {
        ByteOrder::LittleEndian => {
            let low: u32 = bytes[0] as u32 + 256 * (bytes[1] as u32);
            let high: u32 = bytes[2] as u32 + 256 * (bytes[3] as u32);
            low + 65536 * high
        },
        ByteOrder::BigEndian => {
            let low: u32 = bytes[3] as u32 + 256 * (bytes[2] as u32);
            let high: u32 = bytes[1] as u32 + 256 * (bytes[0] as u32);
            low + 65536 * high
        },
    }
}

/// Convert a u32 into its 4 bytes.
pub fn u32_to_u8(value: u32, order: ByteOrder) -> (bytes: Vec<u8>)
    ensures
        bytes@ == bytes_of_u32(value, order),
{
    let lowest = (value % 256) as u8;
    let low = (value / 256 % 256) as u8;
    let high = (value / 65536 % 256) as u8;
    let highest = (value / 16777216 % 256) as u8;
    let mut bytes: Vec<u8> = Vec::new();
    match order {
        ByteOrder::LittleEndian => {
            bytes.push(lowest);
            bytes.push(low);
            bytes.push(high);
            bytes.push(highest);
        },
        ByteOrder::BigEndian => {
            bytes.push(highest);
            bytes.push(high);
            bytes.push(low);
            bytes.push(lowest);
        },
    }
    assert(bytes@ =~= bytes_of_u32(value, order));
    bytes
}

/// The bytes of a number are the number: what is stored is what is read.
pub proof fn lemma_u32_round_trip(value: u32, order: ByteOrder)
    ensures
        bytes_of_u32(value, order).len() == 4,
        u32_of_bytes(bytes_of_u32(value, order), order) == value,
{
    let v = value as int;
    assert(v % 256 + 256 * (v / 256 % 256) + 65536 * (v / 65536 % 256) + 16777216 * (v / 16777216
        % 256) == v) by {
        assert(v / 256 / 256 == v / 65536) by (nonlinear_arith);
        assert(v / 65536 / 256 == v / 16777216) by (nonlinear_arith);
        assert(v / 16777216 < 256) by (nonlinear_arith)
            requires
                0 <= v < 0x1_0000_0000,
        ;
    }
}

/// Read a specified number of bytes from the memory at the specified pointer.
pub fn read_memory(memory: &[u8], pointer: usize, length: u32) -> (bytes: Vec<u8>)
    requires
        in_memory(memory@.len(), pointer as int, length as int),
    ensures
        bytes@ == memory@.subrange(pointer as int, pointer + length),
{
    let size = memory.len();
    let mut bytes: Vec<u8> = Vec::new();
    let mut i: usize = 0;
    while i < length as usize
        invariant
            i <= length,
            size == memory@.len(),
            pointer + length <= memory@.len(),
            bytes@ == memory@.subrange(pointer as int, pointer + i),
        decreases length - i,
    {
        bytes.push(memory[pointer + i]);
        i += 1;
        assert(bytes@ =~= memory@.subrange(pointer as int, pointer + i));
    }
    bytes
}

/// Store `bytes` in the memory at `pointer`.
pub fn write_memory(memory: &mut [u8], pointer: usize, bytes: &[u8])
    requires
        in_memory(old(memory)@.len(), pointer as int, bytes@.len() as int),
    ensures
        final(memory)@ == stored(old(memory)@, pointer as int, bytes@),
{
    let size = memory.len();
    let mut i: usize = 0;
    while i < bytes.len()
        invariant
            i <= bytes@.len(),
            size == memory@.len(),
            memory@.len() == old(memory)@.len(),
            pointer + bytes@.len() <= memory@.len(),
            forall|j: int|
                0 <= j < memory@.len() && !(pointer <= j < pointer + i) ==> memory@[j] == old(
                    memory,
                )@[j],
            forall|j: int| pointer <= j < pointer + i ==> memory@[j] == bytes@[j - pointer],
        decreases bytes.len() - i,
    {
        memory[pointer + i] = bytes[i];
        i += 1;
    }
    assert(memory@ =~= stored(old(memory)@, pointer as int, bytes@));
}

/// Whether the `length` bytes at `pointer` lie in the memory.
pub fn within(memory: &[u8], pointer: u64, length: u64) -> (inside: bool)
    ensures
        inside == in_memory(memory@.len(), pointer as int, length as int),
{
    let size: u64 = memory.len() as u64;
    length <= size && pointer <= size - length
}

/// Why a request to open the file named by the `length` bytes at `pointer`
/// fails, if it does.
pub open spec fn open_error(memory: Seq<u8>, length: int, pointer: int) -> Option<ImportError> {
    if !in_memory(memory.len(), pointer, length) {
        Some(ImportError::OutOfMemoryBounds)
    } else if !valid_utf8(memory.subrange(pointer, pointer + length)) {
        Some(ImportError::NameNotUtf8)
    } else {
        None
    }
}

/// The file system after the file named by the `length` bytes at `pointer`
/// has been opened.
pub open spec fn opened(
    vfs: VfsView,
    memory: Seq<u8>,
    length: int,
    pointer: int,
    terminal: FileType<Seq<char>>,
    erstat_if_new: bool,
) -> VfsView {
    vfs.open(
        requested_stream(decode_utf8(memory.subrange(pointer, pointer + length)), terminal),
        erstat_if_new,
    )
}

/// Opens the file named by the `length` bytes at `pointer`, for reading or
/// for writing.
fn open_requested(
    vfs: &mut VirtualFileSystem,
    memory: &[u8],
    length: u32,
    pointer: u32,
    for_writing: bool,
) -> (fd: Result<usize, ImportError>)
    ensures
        match fd {
            Ok(fd) => {
                &&& open_error(memory@, length as int, pointer as int) is None
                &&& fd == old(vfs)@.pointers.len()
                &&& final(vfs)@ == opened(
                    old(vfs)@,
                    memory@,
                    length as int,
                    pointer as int,
                    if for_writing {
                        FileType::Stdout
                    } else {
                        FileType::Stdin
                    },
                    !for_writing,
                )
            },
            Err(error) => {
                &&& open_error(memory@, length as int, pointer as int) == Some(error)
                &&& *final(vfs) == *old(vfs)
            },
        },
{
    if !within(memory, pointer as u64, length as u64) {
        return Err(ImportError::OutOfMemoryBounds);
    }
    let name = match text_of_bytes(read_memory(memory, pointer as usize, length)) {
        Some(name) => name,
        None => {
            return Err(ImportError::NameNotUtf8);
        },
    };
    let cleaned = clean_filename(name.as_str());
    let fd = if same_text(cleaned, "TTY:") {
        if for_writing {
            vfs.get_file_descriptor(FileType::Stdout, false)
        } else {
            vfs.get_file_descriptor(FileType::Stdin, true)
        }
    } else {
        vfs.get_file_descriptor(FileType::Named(cleaned), !for_writing)
    };
    Ok(fd)
}

/// Open a file for reading. Mimics Pascal's `reset` function.
///
/// Called with the length of a file name and a pointer to it. Returns a file
/// descriptor. A file that does not exist is created, and its descriptor has
/// its error status set. The name `TTY:` opens standard input.
pub fn reset(vfs: &mut VirtualFileSystem, memory: &[u8], length: u32, pointer: u32) -> (fd: Result<
    i32,
    ImportError,
>)
    ensures
        match fd {
            Ok(fd) => {
                &&& open_error(memory@, length as int, pointer as int) is None
                &&& fd == old(vfs)@.pointers.len() as i32
                &&& final(vfs)@ == opened(
                    old(vfs)@,
                    memory@,
                    length as int,
                    pointer as int,
                    FileType::Stdin,
                    true,
                )
            },
            Err(error) => {
                &&& open_error(memory@, length as int, pointer as int) == Some(error)
                &&& *final(vfs) == *old(vfs)
            },
        },
{
    match open_requested(vfs, memory, length, pointer, false) {
        Ok(fd) => Ok(#[verifier::truncate] (fd as i32)),
        Err(error) => Err(error),
    }
}

/// Open a file for writing. Mimics Pascal's `rewrite` function.
///
/// Called with the length of a file name and a pointer to it. Returns a file
/// descriptor. The name `TTY:` opens standard output.
pub fn rewrite(vfs: &mut VirtualFileSystem, memory: &[u8], length: u32, pointer: u32) -> (fd:
    Result<u32, ImportError>)
    ensures
        match fd {
            Ok(fd) => {
                &&& open_error(memory@, length as int, pointer as int) is None
                &&& fd == old(vfs)@.pointers.len() as u32
                &&& final(vfs)@ == opened(
                    old(vfs)@,
                    memory@,
                    length as int,
                    pointer as int,
                    FileType::Stdout,
                    false,
                )
            },
            Err(error) => {
                &&& open_error(memory@, length as int, pointer as int) == Some(error)
                &&& *final(vfs) == *old(vfs)
            },
        },
{
    match open_requested(vfs, memory, length, pointer, true) {
        Ok(fd) => Ok(#[verifier::truncate] (fd as u32)),
        Err(error) => Err(error),
    }
}

/// Close a file. Mimics Pascal's `close` function.
///
/// Descriptors live as long as the file system, so this does nothing.
pub fn close(vfs: &mut VirtualFileSystem, fd: i32)
    ensures
        *final(vfs) == *old(vfs),
{
}

/// Mimics Pascal's `eof` function. Returns 1 if the byte cursor of the file
/// is at the end of the file, and for what is no descriptor, and 0 otherwise.
pub fn eof(vfs: &VirtualFileSystem, fd: i32) -> (at_end: i32)
    ensures
        at_end == if vfs@.at_eof(fd as int) {
            1i32
        } else {
            0i32
        },
{
    if vfs.at_eof_by_index(fd) {
        1
    } else {
        0
    }
}

/// Mimics Pascal's `eoln` function. Returns 1 if the line cursor of the file
/// is at the end of the line (ASCII character 10) or at the end of the file,
/// and for what is no descriptor, and 0 otherwise.
pub fn eoln(vfs: &VirtualFileSystem, fd: i32) -> (at_end: i32)
    ensures
        at_end == if vfs@.at_eoln(fd as int) {
            1i32
        } else {
            0i32
        },
{
    if vfs.at_eoln_by_index(fd) {
        1
    } else {
        0
    }
}

/// The error status of a descriptor: 1 if it was opened for reading on a file
/// that did not exist, and for what is no descriptor.
pub fn erstat(vfs: &VirtualFileSystem, fd: i32) -> (status: i32)
    ensures
        status == if vfs@.has_descriptor(fd as int) {
            vfs@.pointers[fd as int].erstat
        } else {
            1i32
        },
{
    match vfs.get_file_pointer_by_index(fd) {
        Some(pointer) => pointer.erstat,
        None => 1,
    }
}

/// Puts the position of `fd` back to `position`.
fn rewind(vfs: &mut VirtualFileSystem, fd: i32, position: usize, text_position: usize)
    ensures
        old(vfs)@.has_descriptor(fd as int) ==> final(vfs)@ == (VfsView {
            pointers: old(vfs)@.pointers.update(
                fd as int,
                FilePointerView {
                    position: position,
                    text_position: text_position,
                    ..old(vfs)@.pointers[fd as int]
                },
            ),
            ..old(vfs)@
        }),
        !old(vfs)@.has_descriptor(fd as int) ==> *final(vfs) == *old(vfs),
{
    match vfs.get_file_pointer_by_index_mut(fd) {
        Some(pointer) => {
            pointer.position = position;
            pointer.text_position = text_position;
        },
        None => {},
    }
}

/// Where the two cursors of `fd` stand; 0 for what is no descriptor.
fn cursors(vfs: &VirtualFileSystem, fd: i32) -> (at: (usize, usize))
    ensures
        vfs@.has_descriptor(fd as int) ==> at.0 == vfs@.pointers[fd as int].position && at.1
            == vfs@.pointers[fd as int].text_position,
{
    match vfs.get_file_pointer_by_index(fd) {
        Some(pointer) => (pointer.position, pointer.text_position),
        None => (0, 0),
    }
}

/// Mimics Pascal's `get` function. Reads up to `length` bytes from the file,
/// at its byte cursor, into the memory at `pointer`. Where nothing is read,
/// at the end of the file, one zero byte is stored.
pub fn get(vfs: &mut VirtualFileSystem, memory: &mut [u8], fd: i32, pointer: u32, length: u32) -> (done:
    Result<(), ImportError>)
    ensures
        match done {
            Ok(_) => {
                &&& get_fits(old(vfs)@, old(memory)@, fd as int, pointer as int, length as int)
                &&& final(vfs)@ == old(vfs)@.read(fd as int, length as int, ReadMode::Bytes)
                &&& final(memory)@ == memory_after_get(
                    old(vfs)@,
                    old(memory)@,
                    fd as int,
                    pointer as int,
                    length as int,
                )
            },
            Err(error) => {
                &&& error == ImportError::OutOfMemoryBounds
                &&& !get_fits(old(vfs)@, old(memory)@, fd as int, pointer as int, length as int)
                &&& final(vfs)@ == old(vfs)@
                &&& final(memory)@ == old(memory)@
            },
        },
{
    let (position, text_position) = cursors(vfs, fd);
    let mut bytes = vfs.read_from_file_by_index(fd, length as usize);
    if bytes.len() == 0 {
        bytes.push(0u8);
        assert(bytes@ =~= seq![0u8]);
    }
    if !within(memory, pointer as u64, bytes.len() as u64) {
        rewind(vfs, fd, position, text_position);
        proof {
            if old(vfs)@.has_descriptor(fd as int) {
                assert(vfs@.pointers =~= old(vfs)@.pointers);
            }
        }
        return Err(ImportError::OutOfMemoryBounds);
    }
    write_memory(memory, pointer as usize, bytes.as_slice());
    Ok(())
}

/// Mimics Pascal's `put` function. Writes the `length` bytes of the memory at
/// `pointer` to the file, at its byte cursor.
pub fn put(vfs: &mut VirtualFileSystem, memory: &[u8], fd: i32, pointer: u32, length: u32) -> (done:
    Result<(), ImportError>)
    ensures
        match done {
            Ok(_) => {
                &&& in_memory(memory@.len(), pointer as int, length as int)
                &&& final(vfs)@ == old(vfs)@.write(
                    fd as int,
                    memory@.subrange(pointer as int, pointer + length),
                )
            },
            Err(error) => {
                &&& error == ImportError::OutOfMemoryBounds
                &&& !in_memory(memory@.len(), pointer as int, length as int)
                &&& *final(vfs) == *old(vfs)
            },
        },
{
    if !within(memory, pointer as u64, length as u64) {
        return Err(ImportError::OutOfMemoryBounds);
    }
    let bytes = read_memory(memory, pointer as usize, length);
    vfs.write_to_file_by_index(fd, bytes.as_slice());
    Ok(())
}

/// Writes one character to the file: the low 8 bits of `c`.
pub fn print_char(vfs: &mut VirtualFileSystem, fd: i32, c: i32)
    ensures
        final(vfs)@ == old(vfs)@.write(fd as int, seq![c as u8]),
{
    let mut bytes: Vec<u8> = Vec::new();
    bytes.push(#[verifier::truncate] (c as u8));
    assert(bytes@ =~= seq![c as u8]);
    vfs.write_to_file_by_index(fd, bytes.as_slice());
}

/// Writes a line feed to the file.
pub fn print_newline(vfs: &mut VirtualFileSystem, fd: i32)
    ensures
        final(vfs)@ == old(vfs)@.write(fd as int, seq![LINE_FEED]),
{
    let mut bytes: Vec<u8> = Vec::new();
    bytes.push(LINE_FEED);
    assert(bytes@ =~= seq![LINE_FEED]);
    vfs.write_to_file_by_index(fd, bytes.as_slice());
}

/// Writes a number to the file, in decimal notation.
pub fn print_integer(vfs: &mut VirtualFileSystem, fd: i32, n: i32)
    ensures
        final(vfs)@ == old(vfs)@.write(fd as int, decimal(n as int)),
{
    let text = if n < 0 {
        let mut text: Vec<u8> = Vec::new();
        text.push(45u8);
        let mut rest = digits((-(n as i64)) as u64);
        text.append(&mut rest);
        assert(text@ =~= decimal(n as int));
        text
    } else {
        digits(n as u64)
    };
    vfs.write_to_file_by_index(fd, text.as_slice());
}

/// Whether the string at `pointer` lies in the memory: its length byte, and
/// as many bytes behind it as that byte says.
pub open spec fn string_in_memory(memory: Seq<u8>, pointer: int) -> bool {
    in_memory(memory.len(), pointer, 1) && in_memory(
        memory.len(),
        pointer + 1,
        memory[pointer] as int,
    )
}

/// The string at `pointer`: the bytes behind its length byte.
pub open spec fn string_at(memory: Seq<u8>, pointer: int) -> Seq<u8> {
    memory.subrange(pointer + 1, pointer + 1 + memory[pointer])
}

/// Print a string stored in memory to the file pointed to by the file
/// descriptor. The strings are stored in TeX's internal memory format:
///  - `pointer` points to the first byte which is the length of the string.
///  - The string is stored in the next `length` bytes.
pub fn print_string(vfs: &mut VirtualFileSystem, memory: &[u8], fd: i32, pointer: i32) -> (done:
    Result<(), ImportError>)
    ensures
        match done {
            Ok(_) => {
                &&& string_in_memory(memory@, pointer as int)
                &&& final(vfs)@ == old(vfs)@.write(fd as int, string_at(memory@, pointer as int))
            },
            Err(error) => {
                &&& error == ImportError::OutOfMemoryBounds
                &&& !string_in_memory(memory@, pointer as int)
                &&& *final(vfs) == *old(vfs)
            },
        },
{
    if pointer < 0 || !within(memory, pointer as u64, 1) {
        return Err(ImportError::OutOfMemoryBounds);
    }
    let length = memory[pointer as usize];
    if !within(memory, pointer as u64 + 1, length as u64) {
        return Err(ImportError::OutOfMemoryBounds);
    }
    let bytes = read_memory(memory, pointer as usize + 1, length as u32);
    vfs.write_to_file_by_index(fd, bytes.as_slice());
    Ok(())
}

/// The length of `line` without the spaces at its end.
fn trailing_spaces_end(line: &Vec<u8>) -> (end: usize)
    ensures
        end == stripped_len(line@, line@.len() as int),
        end <= line@.len(),
{
    let mut end: usize = line.len();
    while end > 0 && line[end - 1] == SPACE
        invariant
            end <= line@.len(),
            stripped_len(line@, line@.len() as int) == stripped_len(line@, end as int),
        decreases end,
    {
        end -= 1;
    }
    end
}

/// Recreation of TeX's `input_ln` function. However, global variables are
/// passed in as arguments: `first_pointer` and `last_pointer` point to the
/// numbers `first` and `last`, whose bytes stand in the given order, and
/// `buf_pointer` to the buffer.
///
/// With `bypass_eoln` not 0, a line feed at the line cursor is stepped over.
/// Then the next line of the file is read, the spaces at its end are taken
/// away, and it is stored in the buffer from offset `first` on; `last` becomes
/// the offset behind it. The result is 1. Where there is no line to read the
/// result is 0 and `last` becomes `first`.
///
/// `max_buf_stack_pointer` and `buf_size` are not used: the line is stored
/// whatever its length.
pub fn input_ln(
    vfs: &mut VirtualFileSystem,
    memory: &mut [u8],
    order: ByteOrder,
    fd: i32,
    bypass_eoln: i32,
    buf_pointer: i32,
    first_pointer: i32,
    last_pointer: i32,
    max_buf_stack_pointer: i32,
    buf_size: i32,
) -> (found: Result<i32, ImportError>)
    ensures
        ({
            let request = LineRequest {
                order,
                fd: fd as int,
                bypass_eoln: bypass_eoln != 0,
                buf_pointer: buf_pointer as int,
                first_pointer: first_pointer as int,
                last_pointer: last_pointer as int,
            };
            match found {
                Ok(status) => {
                    &&& request.fits(old(vfs)@, old(memory)@)
                    &&& status == if request.has_line(old(vfs)@) {
                        1i32
                    } else {
                        0i32
                    }
                    &&& final(vfs)@ == request.vfs_after(old(vfs)@)
                    &&& final(memory)@ == request.memory_after(old(vfs)@, old(memory)@)
                },
                Err(error) => {
                    &&& error == ImportError::OutOfMemoryBounds
                    &&& !request.fits(old(vfs)@, old(memory)@)
                    &&& final(vfs)@ == old(vfs)@
                    &&& final(memory)@ == old(memory)@
                },
            }
        }),
{
    let ghost request = LineRequest {
        order,
        fd: fd as int,
        bypass_eoln: bypass_eoln != 0,
        buf_pointer: buf_pointer as int,
        first_pointer: first_pointer as int,
        last_pointer: last_pointer as int,
    };
    if first_pointer < 0 || last_pointer < 0 || !within(memory, first_pointer as u64, 4)
        || !within(memory, last_pointer as u64, 4) {
        return Err(ImportError::OutOfMemoryBounds);
    }
    let first = u8_to_u32(read_memory(memory, first_pointer as usize, 4).as_slice(), order);
    let (position, text_position) = cursors(vfs, fd);
    // Bypassing the eoln character means stepping past any "\n".
    if bypass_eoln != 0 {
        vfs.skip_newline(fd);
    }
    let mut last: u32 = first;
    let found = match vfs.read_line(fd) {
        Some(mut line) => {
            // All trailing spaces are removed from the input line.
            let end = trailing_spaces_end(&line);
            line.truncate(end);
            assert(line@ =~= request.line(old(vfs)@));
            if end > 0 {
                if buf_pointer < 0 || end as u64 > u32::MAX as u64 - first as u64 {
                    rewind(vfs, fd, position, text_position);
                    assert(vfs@.pointers =~= old(vfs)@.pointers);
                    return Err(ImportError::OutOfMemoryBounds);
                }
                let start: u64 = buf_pointer as u64 + first as u64;
                if !within(memory, start, end as u64) {
                    rewind(vfs, fd, position, text_position);
                    assert(vfs@.pointers =~= old(vfs)@.pointers);
                    return Err(ImportError::OutOfMemoryBounds);
                }
                assert(memory@.len() == memory.len());
                write_memory(memory, start as usize, line.as_slice());
                last = first + end as u32;
                assert(memory@ == stored(
                    old(memory)@,
                    request.buf_pointer + request.first(old(memory)@),
                    request.line(old(vfs)@),
                ));
            } else {
                assert(memory@ =~= stored(
                    old(memory)@,
                    request.buf_pointer + request.first(old(memory)@),
                    request.line(old(vfs)@),
                ));
            }
            1
        },
        None => {
            assert(memory@ =~= stored(
                old(memory)@,
                request.buf_pointer + request.first(old(memory)@),
                request.line(old(vfs)@),
            ));
            0
        },
    };
    // `last` points behind the last character of the line that is no space.
    assert(last == request.last(old(vfs)@, old(memory)@));
    assert(memory@ == stored(
        old(memory)@,
        request.buf_pointer + request.first(old(memory)@),
        request.line(old(vfs)@),
    ));
    let bytes = u32_to_u8(last, order);
    write_memory(memory, last_pointer as usize, bytes.as_slice());
    Ok(found)
}

/// Return the current minutes. This value is fixed.
pub fn get_current_minutes() -> (minutes: i32)
    ensures
        minutes == 0,
{
    0
}

/// Return the current day. This value is fixed.
pub fn get_current_day() -> (day: i32)
    ensures
        day == 1,
{
    1
}

/// Return the current month. This value is fixed.
pub fn get_current_month() -> (month: i32)
    ensures
        month == 1,
{
    1
}

/// Return the current year. This value is fixed.
pub fn get_current_year() -> (year: i32)
    ensures
        year == 1970,
{
    1970
}

/// Called when the engine is done. There is nothing to finalize.
pub fn tex_final_end() {
}

} // verus!
