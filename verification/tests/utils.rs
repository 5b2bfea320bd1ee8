use easydb::utils::{
    generate_random_string, is_relative_path, time_difference, time_difference_between,
    time_difference_from_now, FileType, OperatingSystem,
};

#[test]
fn tmp_dir_depends_on_the_operating_system() {
    assert_eq!(OperatingSystem::Windows.tmp_dir(), "C:\\Windows\\Temp\\");
    assert_eq!(OperatingSystem::Linux.tmp_dir(), "/tmp/easydb/");
    assert_eq!(OperatingSystem::MacOS.tmp_dir(), "/tmp/easydb/");
}

#[test]
fn default_data_dir_depends_on_the_operating_system() {
    assert_eq!(OperatingSystem::Windows.default_data_dir("/home/u"), "C:\\ProgramData\\easydb");
    assert_eq!(OperatingSystem::Linux.default_data_dir("/home/u"), "/var/lib/easydb");
    assert_eq!(OperatingSystem::MacOS.default_data_dir("/Users/u"), "/Users/u/Documents/easydb");
}

#[test]
fn export_suffix_follows_the_file_type() {
    assert_eq!(FileType::CSV.extension(), ".csv");
    assert_eq!(FileType::TSV.extension(), ".tsv");
    assert_eq!(FileType::JSON.extension(), ".json");
    assert_eq!(FileType::DnJson.extension(), ".json");
}

#[test]
fn relative_paths_are_told_from_absolute_ones() {
    assert!(is_relative_path("data/sample.csv"));
    assert!(is_relative_path(""));
    assert!(!is_relative_path("/var/lib/easydb/sample.csv"));
}

#[test]
fn elapsed_time_is_given_in_its_largest_unit() {
    assert_eq!(time_difference(0), "0ms");
    assert_eq!(time_difference(999), "999ms");
    assert_eq!(time_difference(1000), "1s");
    assert_eq!(time_difference(59_999), "59s");
    assert_eq!(time_difference(60_000), "1m");
    assert_eq!(time_difference(3_599_999), "59m");
    assert_eq!(time_difference(3_600_000), "1h");
    assert_eq!(time_difference(90_000_000), "25h");
}

#[test]
fn elapsed_time_before_the_start_is_given_in_milliseconds() {
    assert_eq!(time_difference(-5), "-5ms");
    assert_eq!(time_difference(-5_000_000), "-5000000ms");
}

#[test]
fn elapsed_time_between_two_instants() {
    assert_eq!(time_difference_between(1_000, 3_500), "2s");
    assert_eq!(time_difference_between(3_500, 1_000), "-2500ms");
    assert_eq!(time_difference_between(i64::MIN, i64::MAX), format!("{}h", i64::MAX / 3_600_000));
    assert_eq!(time_difference_between(i64::MAX, i64::MIN), format!("{}ms", i64::MIN));
}

#[test]
fn elapsed_time_since_a_moment_ago() {
    let now = std::time::SystemTime::now()
        .duration_since(std::time::UNIX_EPOCH)
        .unwrap()
        .as_millis() as i64;
    let text = time_difference_from_now(now - 5_000);
    assert!(text == "5s" || text == "6s", "{}", text);
}

#[test]
fn random_strings_have_the_length_asked_for() {
    for length in [0usize, 1, 4, 32, 100] {
        let s = generate_random_string(length);
        assert_eq!(s.chars().count(), length);
        assert!(s.chars().all(|c| c.is_ascii_alphanumeric()));
    }
}

#[test]
fn random_strings_differ() {
    assert_ne!(generate_random_string(32), generate_random_string(32));
}
