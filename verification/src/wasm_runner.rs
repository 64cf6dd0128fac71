//! What the runner of the engine decides: when the engine has to run, and
//! what of its output can be had.
//!
//! The engine itself is run by the host. Its file system is the host's state;
//! the functions here are handed that state.

use crate::filesystem::{
    default_input, files_of, from_utf8_lossy, insert_file, lossy_text, FileType, VfsView,
    VirtualFileSystem,
};
use vstd::prelude::*;
use vstd::slice::slice_to_vec;
use vstd::string::{StrSliceExecFns, StringSliceAdditionalSpecFns};
use vstd::utf8::{decode_utf8, valid_utf8};

verus! {

/// What is typed at the prompt of the engine: the name of the input file,
/// and the command that ends the run.
pub open spec fn seed_stdin() -> Seq<u8> {
    " input.tex \n\\end\n".spec_bytes()
}

/// Why the output of the engine cannot be had.
#[derive(Debug, Clone, Copy, PartialEq, Eq)]
pub enum RunnerError {
    /// The engine has not run since the input was set.
    NotRun,
    /// The engine has written no `input.dvi`.
    NoDvi,
    /// The engine has written no `input.log`.
    NoLog,
    /// The files of the engine are no gzipped tar archive.
    BadArchive,
}

/// What a gzipped tar archive holds: for each of its entries, in their order,
/// the bytes of its path and its contents. Nothing for bytes that are no
/// such archive.
pub uninterp spec fn archive_entries(bytes: Seq<u8>) -> Option<Seq<(Seq<u8>, Seq<u8>)>>;

/// The entries of an archive as they are in the model.
pub open spec fn entry_views(entries: Seq<(Vec<u8>, Vec<u8>)>) -> Seq<(Seq<u8>, Seq<u8>)> {
    entries.map_values(|entry: (Vec<u8>, Vec<u8>)| (entry.0@, entry.1@))
}

/// `Archive::entries` of `tar` on what `GzDecoder` of `flate2` makes of the
/// bytes: the entries of the archive, each with what `Entry::path_bytes`
/// gives for it and with what is read from it. The result depends on the
/// bytes alone. `None` if the decoder or the archive reports an error.
#[verifier::external_body]
fn read_archive(bytes: &[u8]) -> (entries: Option<Vec<(Vec<u8>, Vec<u8>)>>)
    ensures
        entries is Some <==> archive_entries(bytes@) is Some,
        entries matches Some(found) ==> entry_views(found@) == archive_entries(bytes@)->0,
{
    let mut archive = tar::Archive::new(flate2::read::GzDecoder::new(bytes));
    let mut entries = Vec::new();
    for entry in archive.entries().ok()? {
        let mut entry = entry.ok()?;
        let mut data = Vec::new();
        std::io::Read::read_to_end(&mut entry, &mut data).ok()?;
        entries.push((entry.path_bytes().into_owned(), data));
    }
    Some(entries)
}

/// `name` without the `./` that it begins with, as often as it does.
pub open spec fn without_dot_slashes(name: Seq<char>) -> Seq<char>
    decreases name.len(),
{
    if name.len() >= 2 && name[0] == '.' && name[1] == '/' {
        without_dot_slashes(name.skip(2))
    } else {
        name
    }
}

/// The files that the entries of an archive give: each entry gives a file
/// under the text of its path, without the `./` that it begins with. An
/// entry whose name is empty then gives none, and of two entries of one name
/// the later gives the file.
pub open spec fn extracted(entries: Seq<(Seq<u8>, Seq<u8>)>) -> Map<Seq<char>, Seq<u8>>
    decreases entries.len(),
{
    if entries.len() == 0 {
        Map::empty()
    } else {
        let before = extracted(entries.drop_last());
        let name = without_dot_slashes(lossy_text(entries.last().0));
        if name.len() == 0 {
            before
        } else {
            before.insert(name, entries.last().1)
        }
    }
}

/// `name` without the `./` that it begins with, as often as it does.
pub fn strip_dot_slashes(name: &str) -> (rest: &str)
    ensures
        rest@ == without_dot_slashes(name@),
{
    let len = name.unicode_len();
    let mut start: usize = 0;
    assert(name@.skip(0) =~= name@);
    while len - start >= 2 && name.get_char(start) == '.' && name.get_char(start + 1) == '/'
        invariant
            start <= len,
            len == name@.len(),
            without_dot_slashes(name@) == without_dot_slashes(name@.skip(start as int)),
        decreases len - start,
    {
        assert(name@.skip(start as int).skip(2) =~= name@.skip(start + 2));
        start += 2;
    }
    assert(name@.subrange(start as int, len as int) =~= name@.skip(start as int));
    name.substring_char(start, len)
}

/// Unpacks the files of the engine: a gzipped tar archive.
pub fn extract_tar_gz_to_memory(
    bytes: &[u8],
) -> (files: Result<Vec<(String, Vec<u8>)>, RunnerError>)
    ensures
        match files {
            Ok(files) => archive_entries(bytes@) is Some && files_of(files@) == extracted(
                archive_entries(bytes@)->0,
            ),
            Err(error) => error == RunnerError::BadArchive && archive_entries(bytes@) is None,
        },
{
    let entries = match read_archive(bytes) {
        Some(entries) => entries,
        None => {
            return Err(RunnerError::BadArchive);
        },
    };
    let ghost all = entry_views(entries@);
    let mut files: Vec<(String, Vec<u8>)> = Vec::new();
    let mut i: usize = 0;
    assert(files_of(files@) =~= Map::empty());
    assert(all.take(0) =~= Seq::empty());
    while i < entries.len()
        invariant
            i <= entries@.len(),
            all == entry_views(entries@),
            files_of(files@) == extracted(all.take(i as int)),
        decreases entries.len() - i,
    {
        proof {
            assert(all.take(i + 1).drop_last() =~= all.take(i as int));
            assert(all.take(i + 1).last() == (entries@[i as int].0@, entries@[i as int].1@));
        }
        let file_name = from_utf8_lossy(entries[i].0.as_slice());
        // Trim off a leading "./"
        let file_name = strip_dot_slashes(file_name.as_str());
        if !file_name.is_empty() {
            insert_file(&mut files, file_name, slice_to_vec(entries[i].1.as_slice()));
        }
        i += 1;
    }
    assert(all.take(i as int) =~= all);
    Ok(files)
}

/// The file system that the engine starts with: the given files, a small
/// document as `input.tex`, and on standard input what is typed at the prompt.
pub fn seeded_filesystem(files: Vec<(String, Vec<u8>)>) -> (vfs: VirtualFileSystem)
    ensures
        vfs@ == (VfsView {
            files: files_of(files@).insert("input.tex"@, default_input()),
            stdin: seed_stdin(),
            stdout: Seq::empty(),
            pointers: Seq::empty(),
        }),
{
    let mut vfs = VirtualFileSystem::new(files);
    vfs.set_stdin(" input.tex \n\\end\n".as_bytes());
    vfs
}

/// Whether the engine has run on the input that is set.
#[derive(Debug, Clone, Copy, PartialEq, Eq)]
pub struct RunnerState {
    pub has_run: bool,
}

impl RunnerState {
    /// Whether the engine has to run before its output can be had.
    pub open spec fn needs_engine(self) -> bool {
        !self.has_run
    }

    /// The state after input has been set.
    pub open spec fn input_set(self) -> RunnerState {
        RunnerState { has_run: false }
    }

    /// The state after a run has begun.
    pub open spec fn run_begun(self) -> RunnerState {
        RunnerState { has_run: true }
    }

    /// The state of a runner whose engine has not run.
    pub fn new() -> (state: RunnerState)
        ensures
            !state.has_run,
    {
        RunnerState { has_run: false }
    }

    /// Set the input contents that will be processed by TeX: they become
    /// `input.tex`, and the engine has not run on them.
    pub fn set_input(&mut self, vfs: &mut VirtualFileSystem, input: &[u8])
        ensures
            *final(self) == old(self).input_set(),
            final(vfs)@ == old(vfs)@.with_content(FileType::Named("input.tex"@), input@),
    {
        vfs.set_file_contents(FileType::Named("input.tex"), input);
        self.has_run = false;
    }

    /// Begins a run. The result says whether the engine has to be run: it
    /// has if it has not run since the input was set.
    pub fn begin_run(&mut self) -> (run_engine: bool)
        ensures
            run_engine == old(self).needs_engine(),
            *final(self) == old(self).run_begun(),
    {
        let run_engine = !self.has_run;
        self.has_run = true;
        run_engine
    }

    /// The DVI file that the engine has written.
    pub fn dvi<'a>(&self, vfs: &'a VirtualFileSystem) -> (dvi: Result<&'a Vec<u8>, RunnerError>)
        ensures
            match dvi {
                Ok(dvi) => vfs@.files.contains_key("input.dvi"@) && dvi@
                    == vfs@.files["input.dvi"@],
                Err(error) => error == RunnerError::NoDvi && !vfs@.files.contains_key(
                    "input.dvi"@,
                ),
            },
    {
        match vfs.get_file_contents(FileType::Named("input.dvi")) {
            Some(dvi) => Ok(dvi),
            None => Err(RunnerError::NoDvi),
        }
    }

    /// Get the output that TeX wrote to stdout, once it has run.
    pub fn get_messages(&self, vfs: &VirtualFileSystem) -> (messages: Result<String, RunnerError>)
        ensures
            match messages {
                Ok(text) => self.has_run && text@ == lossy_text(vfs@.stdout) && (valid_utf8(
                    vfs@.stdout,
                ) ==> text@ == decode_utf8(vfs@.stdout)),
                Err(error) => error == RunnerError::NotRun && !self.has_run,
            },
    {
        if !self.has_run {
            return Err(RunnerError::NotRun);
        }
        Ok(vfs.get_stdout())
    }

    /// Get the log file that TeX wrote, once it has run.
    pub fn get_log(&self, vfs: &VirtualFileSystem) -> (log: Result<String, RunnerError>)
        ensures
            match log {
                Ok(text) => {
                    &&& self.has_run
                    &&& vfs@.files.contains_key("input.log"@)
                    &&& text@ == lossy_text(vfs@.files["input.log"@])
                    &&& valid_utf8(vfs@.files["input.log"@]) ==> text@ == decode_utf8(
                        vfs@.files["input.log"@],
                    )
                },
                Err(error) => if self.has_run {
                    error == RunnerError::NoLog && !vfs@.files.contains_key("input.log"@)
                } else {
                    error == RunnerError::NotRun
                },
            },
    {
        if !self.has_run {
            return Err(RunnerError::NotRun);
        }
        match vfs.get_file_contents(FileType::Named("input.log")) {
            Some(log) => Ok(from_utf8_lossy(log.as_slice())),
            None => Err(RunnerError::NoLog),
        }
    }
}

/// The engine runs once for each input. A run that follows a run does not
/// run the engine again, so what it converts is what the first run has left;
/// a run that follows new input does run it, so nothing of an earlier input
/// is converted again.
pub proof fn law_engine_runs_once_per_input(state: RunnerState)
    ensures
        !state.run_begun().needs_engine(),
        state.run_begun().run_begun() == state.run_begun(),
        state.input_set().needs_engine(),
        state.run_begun().input_set().needs_engine(),
{
}

} // verus!
