use log_watcher::utils::format_file_size;
use log_watcher::utils::get_filename;
use log_watcher::utils::is_file_rotated;
use log_watcher::utils::validate_files;

#[test]
fn test_format_file_size() {
    assert_eq!(format_file_size(1024), "1.0 KB");
    assert_eq!(format_file_size(1536), "1.5 KB");
    assert_eq!(format_file_size(1048576), "1.0 MB");
    assert_eq!(format_file_size(1023), "1023 B");
}

#[test]
fn test_get_filename() {
    assert_eq!(get_filename("/path/to/file.log"), "file.log");
    assert_eq!(get_filename("file.log"), "file.log");
    assert_eq!(get_filename("/"), "unknown");
}

#[test]
fn test_format_file_size_edge_cases() {
    // Bytes
    assert_eq!(format_file_size(0), "0 B");
    assert_eq!(format_file_size(1), "1 B");
    assert_eq!(format_file_size(1023), "1023 B");

    // Kilobytes
    assert_eq!(format_file_size(1024), "1.0 KB");
    assert_eq!(format_file_size(1536), "1.5 KB");
    assert_eq!(format_file_size(2048), "2.0 KB");

    // Megabytes
    assert_eq!(format_file_size(1048576), "1.0 MB");
    assert_eq!(format_file_size(1572864), "1.5 MB");

    // Gigabytes
    assert_eq!(format_file_size(1073741824), "1.0 GB");

    // Terabytes
    assert_eq!(format_file_size(1099511627776), "1.0 TB");
}

#[test]
fn test_get_filename_edge_cases() {
    assert_eq!(get_filename("/path/to/file.log"), "file.log");
    assert_eq!(get_filename("file.log"), "file.log");
    assert_eq!(get_filename("/"), "unknown");
    assert_eq!(get_filename(""), "unknown");
    // For paths ending with /, the last component is actually "to", not "unknown"
    assert_eq!(get_filename("/path/to/"), "to");
}

#[test]
fn test_format_file_size_coverage_line_68() {
    let result = format_file_size(1536); // 1.5 KB
    assert_eq!(result, "1.5 KB");

    // A larger size exercises the higher units
    let result = format_file_size(1048576); // 1 MB
    assert_eq!(result, "1.0 MB");
}

#[test]
fn test_format_file_size_largest() {
    assert_eq!(format_file_size(u64::MAX), "16777216.0 TB");
}

#[test]
fn test_format_file_size_ties_to_even() {
    // Exact halves round to the even tenth, as float display does
    assert_eq!(format_file_size(1280), "1.2 KB"); // 1.25 -> 1.2
    assert_eq!(format_file_size(1792), "1.8 KB"); // 1.75 -> 1.8
    assert_eq!(format_file_size(3328), "3.2 KB"); // 3.25 -> 3.2
}

#[test]
fn test_get_filename_dot_components() {
    assert_eq!(get_filename("."), "unknown");
    assert_eq!(get_filename(".."), "unknown");
    assert_eq!(get_filename("/path/.."), "unknown");
    // A trailing `.` component names its directory, as path inspection does
    assert_eq!(get_filename("logs/."), "logs");
    assert_eq!(get_filename("a/./"), "a");
    assert_eq!(get_filename("a.log."), "a.log.");
}

#[test]
fn test_is_file_rotated() {
    // Size grew: not rotated
    assert!(!is_file_rotated(200, 100));
    // Size unchanged: not rotated
    assert!(!is_file_rotated(100, 100));
    // Size shrank (truncation): rotated
    assert!(is_file_rotated(0, 100));
}

#[test]
fn test_is_file_rotated_coverage_line_38() {
    // Previous size larger than current: the file counts as rotated
    assert!(is_file_rotated(12, 1000));
}

#[test]
fn test_validate_files() {
    // One readable file is kept
    let files = vec!["good.log".to_string()];
    let result = validate_files(&files, &vec![true]);
    assert!(result.is_ok());
    assert_eq!(result.unwrap().len(), 1);

    // A single unreadable file leaves nothing to watch
    let files = vec!["/nonexistent/file.log".to_string()];
    let result = validate_files(&files, &vec![false]);
    assert!(result.is_err());
}

#[test]
fn test_validate_files_with_mixed_validity() {
    let files = vec![
        "good.log".to_string(),
        "/nonexistent/file1.log".to_string(),
        "/nonexistent/file2.log".to_string(),
    ];
    let result = validate_files(&files, &vec![true, false, false]);
    assert!(result.is_ok());

    let valid_files = result.unwrap();
    assert_eq!(valid_files.len(), 1);
    assert_eq!(valid_files[0], "good.log");
}

#[test]
fn test_validate_files_all_invalid() {
    let files = vec![
        "/nonexistent/file1.log".to_string(),
        "/nonexistent/file2.log".to_string(),
    ];
    let result = validate_files(&files, &vec![false, false]);
    assert!(result.is_err());
    let err = result.unwrap_err();
    assert_eq!(err.failed, files);
}
