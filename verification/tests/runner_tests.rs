use rust_tikz::wasm_runner::{
    extract_tar_gz_to_memory, seeded_filesystem, strip_dot_slashes, RunnerError, RunnerState,
};
use std::io::Write;
use rust_tikz::{FileType, VirtualFileSystem};

#[test]
fn the_engine_starts_with_a_prompt_that_is_answered() {
    let mut fs = seeded_filesystem(vec![("plain.fmt".to_string(), vec![1, 2, 3])]);
    assert_eq!(fs.get_file_contents(FileType::Stdin).unwrap().as_slice(), b" input.tex \n\\end\n");
    assert_eq!(fs.get_file_contents(FileType::Named("plain.fmt")).unwrap().as_slice(), &[1, 2, 3]);
    assert!(fs.get_file_contents(FileType::Named("input.tex")).is_some());
    assert!(fs.get_file_pointer_by_index(0).is_none());
    let fd = fs.get_file_descriptor(FileType::Stdin, false) as i32;
    assert_eq!(fs.read_line(fd), Some(b" input.tex ".to_vec()));
    assert_eq!(fs.read_line(fd), Some(b"\\end".to_vec()));
    assert_eq!(fs.read_line(fd), None);
}

#[test]
fn the_engine_runs_once_for_each_input() {
    let mut fs = VirtualFileSystem::new(Vec::new());
    let mut state = RunnerState::new();
    assert!(!state.has_run);
    assert!(state.begin_run());
    assert!(!state.begin_run());
    assert!(!state.begin_run());
    state.set_input(&mut fs, b"\\begin{document}x\\end{document}");
    assert_eq!(
        fs.get_file_contents(FileType::Named("input.tex")).unwrap().as_slice(),
        b"\\begin{document}x\\end{document}"
    );
    assert!(state.begin_run());
    assert!(!state.begin_run());
}

#[test]
fn the_output_is_had_once_the_engine_has_run() {
    let mut fs = VirtualFileSystem::new(Vec::new());
    let mut state = RunnerState::new();
    let out = fs.get_file_descriptor(FileType::Stdout, false) as i32;
    fs.write_to_file_by_index(out, b"This is TeX");
    assert_eq!(state.get_messages(&fs), Err(RunnerError::NotRun));
    assert_eq!(state.get_log(&fs), Err(RunnerError::NotRun));
    assert_eq!(state.dvi(&fs), Err(RunnerError::NoDvi));
    state.begin_run();
    assert_eq!(state.get_messages(&fs), Ok("This is TeX".to_string()));
    assert_eq!(state.get_log(&fs), Err(RunnerError::NoLog));
    fs.set_file_contents(FileType::Named("input.log"), &[b'l', b'o', b'g', 0x80]);
    fs.set_file_contents(FileType::Named("input.dvi"), &[247, 2]);
    assert_eq!(state.get_log(&fs), Ok("log\u{FFFD}".to_string()));
    assert_eq!(state.dvi(&fs).map(|dvi| dvi.as_slice()), Ok(&[247u8, 2][..]));
    state.set_input(&mut fs, b"");
    assert_eq!(state.get_messages(&fs), Err(RunnerError::NotRun));
}

/// A gzipped tar archive of the given files.
fn archive(files: &[(&str, &[u8])]) -> Vec<u8> {
    let mut tarball = Vec::new();
    for (path, data) in files {
        let mut header = tar::Header::new_gnu();
        // The name is put into the header as it is.
        header.as_old_mut().name[..path.len()].copy_from_slice(path.as_bytes());
        header.set_size(data.len() as u64);
        header.set_mode(0o644);
        header.set_entry_type(tar::EntryType::Regular);
        header.set_cksum();
        tarball.extend_from_slice(header.as_bytes());
        tarball.extend_from_slice(data);
        tarball.resize(tarball.len().div_ceil(512) * 512, 0);
    }
    tarball.resize(tarball.len() + 1024, 0);
    let mut encoder = flate2::write::GzEncoder::new(Vec::new(), flate2::Compression::default());
    encoder.write_all(&tarball).unwrap();
    encoder.finish().unwrap()
}

#[test]
fn files_are_unpacked_under_their_plain_names() {
    let bytes = archive(&[
        ("./plain.fmt", &[1, 2, 3]),
        ("tex.pool", b"pool"),
        ("././cmr10.tfm", b"first"),
        ("./", b""),
        ("", b"nameless"),
        ("dir/./x", b"x"),
        ("cmr10.tfm", b"second"),
        ("./a b", b"odd"),
    ]);
    let files = extract_tar_gz_to_memory(&bytes).unwrap();
    let expected: Vec<(String, Vec<u8>)> = vec![
        ("plain.fmt".to_string(), vec![1, 2, 3]),
        ("tex.pool".to_string(), b"pool".to_vec()),
        ("cmr10.tfm".to_string(), b"second".to_vec()),
        ("dir/./x".to_string(), b"x".to_vec()),
        ("a b".to_string(), b"odd".to_vec()),
    ];
    assert_eq!(files, expected);
    let fs = seeded_filesystem(files);
    assert_eq!(fs.get_file_contents(FileType::Named("cmr10.tfm")).unwrap().as_slice(), b"second");
}

#[test]
fn names_that_are_no_text_are_unpacked_with_what_replaces_them() {
    let mut header = tar::Header::new_gnu();
    header.as_old_mut().name[..4].copy_from_slice(&[b'.', b'/', 0xFF, b'z']);
    header.set_size(1);
    header.set_entry_type(tar::EntryType::Regular);
    header.set_cksum();
    let mut tarball = header.as_bytes().to_vec();
    tarball.push(b'!');
    tarball.resize(512 + 512 + 1024, 0);
    let mut encoder = flate2::write::GzEncoder::new(Vec::new(), flate2::Compression::default());
    encoder.write_all(&tarball).unwrap();
    let files = extract_tar_gz_to_memory(&encoder.finish().unwrap()).unwrap();
    assert_eq!(files, vec![("\u{FFFD}z".to_string(), vec![b'!'])]);
}

#[test]
fn what_is_no_archive_is_not_unpacked() {
    assert_eq!(extract_tar_gz_to_memory(b"not gzip at all"), Err(RunnerError::BadArchive));
    let mut bytes = archive(&[("a", b"contents of a")]);
    bytes.truncate(bytes.len() / 2);
    assert_eq!(extract_tar_gz_to_memory(&bytes), Err(RunnerError::BadArchive));
    assert_eq!(extract_tar_gz_to_memory(&archive(&[])), Ok(Vec::new()));
    // Bytes that are gzip and no tar.
    let mut encoder = flate2::write::GzEncoder::new(Vec::new(), flate2::Compression::default());
    encoder.write_all(&[7u8; 700]).unwrap();
    assert_eq!(extract_tar_gz_to_memory(&encoder.finish().unwrap()), Err(RunnerError::BadArchive));
}

#[test]
fn leading_dot_slashes_are_stripped() {
    assert_eq!(strip_dot_slashes("./a"), "a");
    assert_eq!(strip_dot_slashes("././a/./b"), "a/./b");
    assert_eq!(strip_dot_slashes("a"), "a");
    assert_eq!(strip_dot_slashes(".a"), ".a");
    assert_eq!(strip_dot_slashes("../a"), "../a");
    assert_eq!(strip_dot_slashes("./."), ".");
    assert_eq!(strip_dot_slashes("./"), "");
    assert_eq!(strip_dot_slashes(""), "");
    for name in ["./a", "././", "x./", "\u{E9}./", "./\u{E9}"] {
        assert_eq!(strip_dot_slashes(name), name.trim_start_matches("./"));
    }
}

#[test]
fn test_extract_tex_files() {
    let tex_file_bytes = archive(&[
        ("./cmr10.tfm", &[0, 1, 2]),
        ("./tex.pool", b"11buffer size"),
        ("./plain.fmt", &[3, 4]),
    ]);
    let extracted_files = extract_tar_gz_to_memory(&tex_file_bytes).unwrap();

    // Verify we have some files
    assert!(!extracted_files.is_empty());

    // Check for some expected TeX files
    assert!(extracted_files
        .iter()
        .any(|(k, _)| k.ends_with(".fmt") || k.ends_with(".tfm")));
}
