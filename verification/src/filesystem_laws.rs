//! What holds of every file system, whatever is done to it: stated over the
//! model of [`crate::filesystem`] and proved from its definitions.

use crate::filesystem::{
    lemma_next_line_feed, overwritten, readable, FilePointerView, FileType, ReadMode, VfsView,
    LINE_FEED,
};
use vstd::prelude::*;

verus! {

impl VfsView {
    /// Every descriptor of `self` is a descriptor of `later`, for the same
    /// stream and with the same error status.
    pub open spec fn descriptors_kept_by(self, later: VfsView) -> bool {
        &&& self.pointers.len() <= later.pointers.len()
        &&& forall|fd: int|
            #![trigger later.pointers[fd]]
            self.has_descriptor(fd) ==> {
                &&& later.pointers[fd].file == self.pointers[fd].file
                &&& later.pointers[fd].erstat == self.pointers[fd].erstat
            }
    }

    /// The error status of every descriptor is 0 or 1.
    pub open spec fn erstat_is_flag(self) -> bool {
        forall|fd: int|
            #![trigger self.pointers[fd]]
            self.has_descriptor(fd) ==> self.pointers[fd].erstat == 0 || self.pointers[fd].erstat
                == 1
    }

    /// Neither cursor of any descriptor is behind the end of its stream.
    pub open spec fn cursors_within(self) -> bool {
        forall|fd: int|
            #![trigger self.pointers[fd]]
            self.has_descriptor(fd) ==> {
                &&& self.pointers[fd].position <= self.content_at(fd).len()
                &&& self.pointers[fd].text_position <= self.content_at(fd).len()
            }
    }
}

/// The error status of a descriptor is 0 or 1 from the moment it is opened,
/// and nothing that is done through descriptors changes it: opening, writing,
/// reading in either mode, stepping over a line feed, reading a line and
/// moving the byte cursor all keep every descriptor on its stream with its
/// error status.
pub proof fn law_erstat_is_stable(
    vfs: VfsView,
    stream: FileType<Seq<char>>,
    erstat_if_new: bool,
    fd: int,
    data: Seq<u8>,
    length: int,
    mode: ReadMode,
)
    ensures
        vfs.descriptors_kept_by(vfs.open(stream, erstat_if_new)),
        vfs.descriptors_kept_by(vfs.write(fd, data)),
        vfs.descriptors_kept_by(vfs.read(fd, length, mode)),
        vfs.descriptors_kept_by(vfs.skip_newline(fd)),
        vfs.descriptors_kept_by(vfs.read_line(fd)),
        vfs.descriptors_kept_by(vfs.advance(fd, length)),
        vfs.descriptors_kept_by(vfs.with_content(stream, data)),
        vfs.erstat_is_flag() ==> {
            &&& vfs.open(stream, erstat_if_new).erstat_is_flag()
            &&& vfs.write(fd, data).erstat_is_flag()
            &&& vfs.read(fd, length, mode).erstat_is_flag()
            &&& vfs.skip_newline(fd).erstat_is_flag()
            &&& vfs.read_line(fd).erstat_is_flag()
            &&& vfs.advance(fd, length).erstat_is_flag()
            &&& vfs.with_content(stream, data).erstat_is_flag()
        },
{
}

/// The descriptor that opening yields is new, stands at the start of its
/// stream, and has error status 1 exactly if the stream is a named one that
/// did not exist and the opener asked for that to be reported.
pub proof fn law_open_appends(vfs: VfsView, stream: FileType<Seq<char>>, erstat_if_new: bool)
    ensures
        vfs.open(stream, erstat_if_new).pointers.len() == vfs.pointers.len() + 1,
        !vfs.has_descriptor(vfs.pointers.len() as int),
        vfs.open(stream, erstat_if_new).pointers[vfs.pointers.len() as int] == (FilePointerView {
            file: stream,
            position: 0,
            text_position: 0,
            erstat: if stream is Named && !vfs.files.contains_key(stream->Named_0)
                && erstat_if_new {
                1i32
            } else {
                0i32
            },
        }),
        vfs.open(stream, erstat_if_new).content_of(stream) == vfs.content_of(stream),
{
}

/// After a write that takes place, the stream is at least as long as it was
/// plus the bytes written minus the bytes that were overwritten; the byte
/// cursor stands behind the written bytes, which are in the stream.
pub proof fn law_write_grows(vfs: VfsView, fd: int, data: Seq<u8>)
    requires
        vfs.can_write(fd, data.len() as int),
    ensures
        ({
            let position = vfs.pointers[fd].position as int;
            let old_len = vfs.content_at(fd).len() as int;
            let overlap = readable(vfs.content_at(fd), position, data.len() as int);
            let after = vfs.write(fd, data);
            &&& after.content_at(fd).len() >= old_len + data.len() - overlap
            &&& after.content_at(fd).len() >= old_len
            &&& after.pointers[fd].position == position + data.len()
            &&& after.pointers[fd].position <= after.content_at(fd).len()
            &&& after.content_at(fd).subrange(position, position + data.len()) == data
        }),
{
    let position = vfs.pointers[fd].position as int;
    let after = vfs.write(fd, data);
    assert(after.content_at(fd) == overwritten(vfs.content_at(fd), position, data));
    assert(after.content_at(fd).subrange(position, position + data.len()) =~= data);
}

/// Where no cursor is behind the end of its stream, none is after a
/// descriptor has been opened, bytes have been written, or a read of either
/// mode, a step over a line feed or a read of a line has taken place.
pub proof fn law_cursors_stay_within(
    vfs: VfsView,
    stream: FileType<Seq<char>>,
    erstat_if_new: bool,
    fd: int,
    data: Seq<u8>,
    length: int,
    mode: ReadMode,
)
    requires
        vfs.cursors_within(),
    ensures
        vfs.open(stream, erstat_if_new).cursors_within(),
        vfs.write(fd, data).cursors_within(),
        vfs.read(fd, length, mode).cursors_within(),
        vfs.skip_newline(fd).cursors_within(),
        vfs.read_line(fd).cursors_within(),
{
    let opened = vfs.open(stream, erstat_if_new);
    assert forall|other: int| opened.has_descriptor(other) implies {
        &&& (#[trigger] opened.pointers[other]).position <= opened.content_at(other).len()
        &&& opened.pointers[other].text_position <= opened.content_at(other).len()
    } by {
        if other < vfs.pointers.len() {
            assert(opened.pointers[other] == vfs.pointers[other]);
            assert(opened.content_at(other) == vfs.content_at(other));
        }
    }
    let written = vfs.write(fd, data);
    assert forall|other: int| written.has_descriptor(other) implies {
        &&& (#[trigger] written.pointers[other]).position <= written.content_at(other).len()
        &&& written.pointers[other].text_position <= written.content_at(other).len()
    } by {
        assert(vfs.pointers[other].position <= vfs.content_at(other).len());
        if vfs.can_write(fd, data.len() as int) {
            law_write_grows(vfs, fd, data);
            if vfs.pointers[other].file == vfs.pointers[fd].file {
                assert(written.content_at(other) == written.content_at(fd));
                assert(vfs.content_at(other) == vfs.content_at(fd));
            } else {
                assert(written.content_at(other) == vfs.content_at(other));
            }
        }
    }
    let read = vfs.read(fd, length, mode);
    assert forall|other: int| read.has_descriptor(other) implies {
        &&& (#[trigger] read.pointers[other]).position <= read.content_at(other).len()
        &&& read.pointers[other].text_position <= read.content_at(other).len()
    } by {
        assert(vfs.pointers[other].position <= vfs.content_at(other).len());
        assert(read.content_at(other) == vfs.content_at(other));
    }
    let skipped = vfs.skip_newline(fd);
    assert forall|other: int| skipped.has_descriptor(other) implies {
        &&& (#[trigger] skipped.pointers[other]).position <= skipped.content_at(other).len()
        &&& skipped.pointers[other].text_position <= skipped.content_at(other).len()
    } by {
        assert(vfs.pointers[other].position <= vfs.content_at(other).len());
        assert(skipped.content_at(other) == vfs.content_at(other));
    }
    let lined = vfs.read_line(fd);
    assert forall|other: int| lined.has_descriptor(other) implies {
        &&& (#[trigger] lined.pointers[other]).position <= lined.content_at(other).len()
        &&& lined.pointers[other].text_position <= lined.content_at(other).len()
    } by {
        assert(vfs.pointers[other].position <= vfs.content_at(other).len());
        assert(lined.content_at(other) == vfs.content_at(other));
        if vfs.has_line(fd) {
            lemma_next_line_feed(vfs.content_at(fd), vfs.pointers[fd].text_position as int);
        }
    }
}

/// A read never moves a cursor behind the end of the stream, and a read at
/// or behind the end yields nothing and moves nothing.
pub proof fn law_read_stops_at_end(vfs: VfsView, fd: int, length: int, mode: ReadMode)
    requires
        vfs.fits(),
        vfs.has_descriptor(fd),
    ensures
        ({
            let cursor = vfs.pointers[fd].cursor(mode);
            let len = vfs.content_at(fd).len();
            let after = vfs.read(fd, length, mode);
            &&& after.content_at(fd) == vfs.content_at(fd)
            &&& vfs.read_data(fd, length, mode).len() == after.pointers[fd].cursor(mode) - cursor
            &&& vfs.read_data(fd, length, mode).len() <= length || length < 0
            &&& cursor <= len ==> after.pointers[fd].cursor(mode) <= len
            &&& cursor >= len ==> vfs.read_data(fd, length, mode).len() == 0 && after == vfs
        }),
{
    let pointer = vfs.pointers[fd];
    if pointer.cursor(mode) >= vfs.content_at(fd).len() {
        assert(pointer.with_cursor(mode, pointer.cursor(mode)) == pointer);
        assert(vfs.pointers.update(fd, pointer) =~= vfs.pointers);
    }
}

/// A read moves only the cursor of its mode: the other cursor of the
/// descriptor, and every other descriptor, stay where they were.
pub proof fn law_cursors_are_independent(vfs: VfsView, fd: int, length: int)
    requires
        vfs.has_descriptor(fd),
    ensures
        vfs.read(fd, length, ReadMode::Bytes).pointers[fd].text_position
            == vfs.pointers[fd].text_position,
        vfs.read(fd, length, ReadMode::Text).pointers[fd].position == vfs.pointers[fd].position,
        vfs.read_line(fd).pointers[fd].position == vfs.pointers[fd].position,
        vfs.skip_newline(fd).pointers[fd].position == vfs.pointers[fd].position,
        vfs.write(fd, Seq::empty()).pointers[fd].text_position == vfs.pointers[fd].text_position,
        forall|other: int, mode: ReadMode|
            vfs.has_descriptor(other) && other != fd ==> #[trigger] vfs.read(
                fd,
                length,
                mode,
            ).pointers[other] == vfs.pointers[other],
{
}

/// Stepping over a line feed does nothing where the byte at the line cursor
/// is no line feed.
pub proof fn law_skip_newline_needs_line_feed(vfs: VfsView, fd: int)
    requires
        vfs.has_descriptor(fd),
        vfs.pointers[fd].text_position < vfs.content_at(fd).len(),
        vfs.content_at(fd)[vfs.pointers[fd].text_position as int] != LINE_FEED,
    ensures
        vfs.skip_newline(fd) == vfs,
{
}

/// What is no descriptor, a negative number or one behind the table, can be
/// handed to every operation: nothing is read, nothing changes, and it counts
/// as at the end of its stream and of its line.
pub proof fn law_unknown_descriptor_is_harmless(
    vfs: VfsView,
    fd: int,
    data: Seq<u8>,
    length: int,
    mode: ReadMode,
)
    requires
        !vfs.has_descriptor(fd),
    ensures
        vfs.write(fd, data) == vfs,
        vfs.read(fd, length, mode) == vfs,
        vfs.read_data(fd, length, mode) == Seq::<u8>::empty(),
        vfs.skip_newline(fd) == vfs,
        !vfs.has_line(fd),
        vfs.read_line(fd) == vfs,
        vfs.advance(fd, length) == vfs,
        vfs.at_eof(fd),
        vfs.at_eoln(fd),
{
}

/// A line that is read holds no line feed, and reading it moves the line
/// cursor forward, at most to the end of the stream.
pub proof fn law_read_line_advances(vfs: VfsView, fd: int)
    requires
        vfs.fits(),
        vfs.has_line(fd),
    ensures
        forall|i: int| 0 <= i < vfs.line_data(fd).len() ==> vfs.line_data(fd)[i] != LINE_FEED,
        vfs.read_line(fd).pointers[fd].text_position > vfs.pointers[fd].text_position,
        vfs.read_line(fd).pointers[fd].text_position <= vfs.content_at(fd).len(),
        vfs.read_line(fd).pointers[fd].text_position - vfs.pointers[fd].text_position
            <= vfs.line_data(fd).len() + 1,
{
    lemma_next_line_feed(vfs.content_at(fd), vfs.pointers[fd].text_position as int);
}

} // verus!
