use quarantine_core::fileutils::byte_counts;
use quarantine_core::fileutils::accumulate_counts;
use quarantine_core::fileutils::u64_to_string;
use quarantine_core::fileutils::FileUtils;

#[test]
fn name_components_of_plain_file() {
    let f = FileUtils::new("sample.exe");
    assert_eq!(f.get_file_name().as_deref(), Some("sample.exe"));
    assert_eq!(f.get_internal_name().as_deref(), Some("sample"));
    assert_eq!(f.get_file_extension().as_deref(), Some("exe"));
}

#[test]
fn name_components_of_nested_path() {
    let f = FileUtils::new("/tmp/dir/archive.tar.gz");
    assert_eq!(f.get_file_name().as_deref(), Some("archive.tar.gz"));
    assert_eq!(f.get_internal_name().as_deref(), Some("archive.tar"));
    assert_eq!(f.get_file_extension().as_deref(), Some("gz"));
}

#[test]
fn name_components_of_backslash_path() {
    let f = FileUtils::new("C:\\ProgramData\\sample.exe");
    assert_eq!(f.get_file_name().as_deref(), Some("sample.exe"));
    assert_eq!(f.get_internal_name().as_deref(), Some("sample"));
    assert_eq!(f.get_file_extension().as_deref(), Some("exe"));
}

#[test]
fn file_without_extension() {
    let f = FileUtils::new("noext");
    assert_eq!(f.get_file_name().as_deref(), Some("noext"));
    assert_eq!(f.get_internal_name().as_deref(), Some("noext"));
    assert_eq!(f.get_file_extension(), None);
}

#[test]
fn dotfile_has_no_extension() {
    let f = FileUtils::new(".bashrc");
    assert_eq!(f.get_file_name().as_deref(), Some(".bashrc"));
    assert_eq!(f.get_internal_name().as_deref(), Some(".bashrc"));
    assert_eq!(f.get_file_extension(), None);
}

#[test]
fn trailing_dot_gives_empty_extension() {
    let f = FileUtils::new("report.");
    assert_eq!(f.get_internal_name().as_deref(), Some("report"));
    assert_eq!(f.get_file_extension().as_deref(), Some(""));
}

#[test]
fn pathological_paths_have_no_name() {
    for p in ["", "dir/", ".", "..", "a/..", "b\\."] {
        let f = FileUtils::new(p);
        assert_eq!(f.get_file_name(), None, "path {:?}", p);
        assert_eq!(f.get_internal_name(), None, "path {:?}", p);
        assert_eq!(f.get_file_extension(), None, "path {:?}", p);
    }
}

#[test]
fn decimal_formatting() {
    assert_eq!(u64_to_string(0), "0");
    assert_eq!(u64_to_string(7), "7");
    assert_eq!(u64_to_string(10), "10");
    assert_eq!(u64_to_string(2048), "2048");
    assert_eq!(u64_to_string(u64::MAX), "18446744073709551615");
}

#[test]
fn composite_tag_concrete_scenario() {
    let f = FileUtils::new("sample.exe");
    assert_eq!(f.get_concatenate_file_tags(Some(2048)), "sample2048exe");
}

#[test]
fn composite_tag_with_unknown_size() {
    let f = FileUtils::new("/tmp/dir/archive.tar.gz");
    assert_eq!(f.get_concatenate_file_tags(None), "archive.targz");
}

#[test]
fn composite_tag_missing_components() {
    let f = FileUtils::new("noext");
    assert_eq!(f.get_concatenate_file_tags(Some(5)), "noext5");
    let g = FileUtils::new("dir/");
    assert_eq!(g.get_concatenate_file_tags(None), "");
}

#[test]
fn composite_tag_is_deterministic() {
    let a = FileUtils::new("/var/data/sample.exe");
    let b = FileUtils::new("/var/data/sample.exe");
    assert_eq!(
        a.get_concatenate_file_tags(Some(2048)),
        b.get_concatenate_file_tags(Some(2048))
    );
    assert_eq!(
        a.get_concatenate_file_tags(None),
        a.get_concatenate_file_tags(None)
    );
}

#[test]
fn byte_counts_of_empty_stream() {
    let counts = byte_counts(&[]);
    assert_eq!(counts.len(), 256);
    assert!(counts.iter().all(|&c| c == 0));
}

#[test]
fn byte_counts_of_repeated_byte() {
    let data = [5u8; 100];
    let counts = byte_counts(&data);
    assert_eq!(counts[5], 100);
    let total: u64 = counts.iter().sum();
    assert_eq!(total, 100);
}

#[test]
fn byte_counts_of_mixed_bytes() {
    let data = [1u8, 2, 3, 1, 255, 0, 1];
    let counts = byte_counts(&data);
    assert_eq!(counts[0], 1);
    assert_eq!(counts[1], 3);
    assert_eq!(counts[2], 1);
    assert_eq!(counts[3], 1);
    assert_eq!(counts[255], 1);
    assert_eq!(counts[4], 0);
}

#[test]
fn accumulated_chunks_match_whole_stream() {
    let whole = [9u8, 9, 1, 2, 9, 3, 3];
    let mut counts = vec![0u64; 256];
    accumulate_counts(&mut counts, &whole[..4]);
    accumulate_counts(&mut counts, &whole[4..]);
    assert_eq!(counts, byte_counts(&whole));
}
