//! What holds of the host functions at the edges of a stream: stated over
//! the definitions of [`crate::texjax_imports`] and proved from them.

use crate::filesystem::{ReadMode, VfsView};
use crate::texjax_imports::{
    bytes_of_u32, get_fits, in_memory, lemma_u32_round_trip, memory_after_get, stored,
    stripped_len, u32_of_bytes, LineRequest, SPACE,
};
use vstd::prelude::*;

verus! {

/// At the end of a file nothing is read, and `get` stores a single zero byte
/// at the pointer: the memory is as it was but for that byte, and the file
/// system is as it was.
pub proof fn law_get_at_end_stores_zero(
    vfs: VfsView,
    memory: Seq<u8>,
    fd: int,
    pointer: int,
    length: int,
)
    requires
        vfs.fits(),
        vfs.at_eof(fd),
        in_memory(memory.len(), pointer, 1),
    ensures
        vfs.read_data(fd, length, ReadMode::Bytes) == Seq::<u8>::empty(),
        vfs.read(fd, length, ReadMode::Bytes) == vfs,
        get_fits(vfs, memory, fd, pointer, length),
        memory_after_get(vfs, memory, fd, pointer, length) == memory.update(pointer, 0u8),
{
    if vfs.has_descriptor(fd) {
        crate::filesystem_laws::law_read_stops_at_end(vfs, fd, length, ReadMode::Bytes);
        assert(vfs.read_data(fd, length, ReadMode::Bytes) =~= Seq::<u8>::empty());
    }
    assert(memory_after_get(vfs, memory, fd, pointer, length) =~= memory.update(pointer, 0u8));
}

/// What is stored as `last` is what is read there afterwards.
pub proof fn lemma_last_is_stored(request: LineRequest, vfs: VfsView, memory: Seq<u8>)
    requires
        request.bounds_in_memory(memory),
    ensures
        request.memory_after(vfs, memory).len() == memory.len(),
        u32_of_bytes(
            request.memory_after(vfs, memory).subrange(
                request.last_pointer,
                request.last_pointer + 4,
            ),
            request.order,
        ) == request.last(vfs, memory),
{
    let last = request.last(vfs, memory);
    lemma_u32_round_trip(last, request.order);
    assert(request.memory_after(vfs, memory).subrange(
        request.last_pointer,
        request.last_pointer + 4,
    ) =~= bytes_of_u32(last, request.order));
}

/// Where there is no line to read, at the end of a file or for what is no
/// descriptor, `input_ln` finds nothing to store: `last` becomes `first`, and
/// nothing else in the memory changes.
pub proof fn law_input_ln_at_end(request: LineRequest, vfs: VfsView, memory: Seq<u8>)
    requires
        request.bounds_in_memory(memory),
        !request.has_line(vfs),
    ensures
        request.fits(vfs, memory),
        request.vfs_after(vfs) == request.before_line(vfs),
        request.last(vfs, memory) == request.first(memory),
        request.memory_after(vfs, memory) == stored(
            memory,
            request.last_pointer,
            bytes_of_u32(request.first(memory), request.order),
        ),
        u32_of_bytes(
            request.memory_after(vfs, memory).subrange(
                request.last_pointer,
                request.last_pointer + 4,
            ),
            request.order,
        ) == request.first(memory),
{
    lemma_last_is_stored(request, vfs, memory);
    assert(stored(memory, request.buf_pointer + request.first(memory), request.line(vfs))
        =~= memory);
}

/// A line of spaces alone has nothing left when they are taken away.
pub proof fn lemma_stripped_len_of_spaces(line: Seq<u8>, to: int)
    requires
        0 <= to <= line.len(),
        forall|i: int| 0 <= i < to ==> line[i] == SPACE,
    ensures
        stripped_len(line, to) == 0,
    decreases to,
{
    if to > 0 {
        lemma_stripped_len_of_spaces(line, to - 1);
    }
}

/// A line that holds spaces alone, or nothing, is read as an empty line:
/// `last` becomes `first`, nothing else in the memory changes, and the line
/// cursor stands behind the line.
pub proof fn law_input_ln_blank_line(request: LineRequest, vfs: VfsView, memory: Seq<u8>)
    requires
        request.bounds_in_memory(memory),
        request.has_line(vfs),
        forall|i: int|
            0 <= i < request.before_line(vfs).line_data(request.fd).len()
                ==> request.before_line(vfs).line_data(request.fd)[i] == SPACE,
    ensures
        request.line(vfs).len() == 0,
        request.fits(vfs, memory),
        request.last(vfs, memory) == request.first(memory),
        request.memory_after(vfs, memory) == stored(
            memory,
            request.last_pointer,
            bytes_of_u32(request.first(memory), request.order),
        ),
        u32_of_bytes(
            request.memory_after(vfs, memory).subrange(
                request.last_pointer,
                request.last_pointer + 4,
            ),
            request.order,
        ) == request.first(memory),
{
    let data = request.before_line(vfs).line_data(request.fd);
    lemma_stripped_len_of_spaces(data, data.len() as int);
    lemma_last_is_stored(request, vfs, memory);
    assert(stored(memory, request.buf_pointer + request.first(memory), request.line(vfs))
        =~= memory);
}

/// A line that is stored ends in no space, and lies in the buffer from
/// `first` up to `last`.
pub proof fn law_input_ln_stores_line(request: LineRequest, vfs: VfsView, memory: Seq<u8>)
    requires
        request.fits(vfs, memory),
        request.line(vfs).len() > 0,
        !(request.last_pointer < request.buf_pointer + request.last(vfs, memory)
            && request.buf_pointer + request.first(memory) < request.last_pointer + 4),
    ensures
        request.line(vfs).last() != SPACE,
        request.last(vfs, memory) == request.first(memory) + request.line(vfs).len(),
        request.memory_after(vfs, memory).subrange(
            request.buf_pointer + request.first(memory),
            request.buf_pointer + request.last(vfs, memory),
        ) == request.line(vfs),
{
    let data = request.before_line(vfs).line_data(request.fd);
    lemma_stripped_len(data, data.len() as int);
    assert(request.memory_after(vfs, memory).subrange(
        request.buf_pointer + request.first(memory),
        request.buf_pointer + request.last(vfs, memory),
    ) =~= request.line(vfs));
}

proof fn lemma_stripped_len(line: Seq<u8>, to: int)
    requires
        0 <= to <= line.len(),
    ensures
        0 <= stripped_len(line, to) <= to,
        stripped_len(line, to) > 0 ==> line[stripped_len(line, to) - 1] != SPACE,
    decreases to,
{
    if to > 0 && line[to - 1] == SPACE {
        lemma_stripped_len(line, to - 1);
    }
}

} // verus!
