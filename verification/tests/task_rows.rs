use poor_downloader::task::{progress_percent, status_text, status_to_task_text, TaskInfo, TaskStatus};
use poor_downloader::text::{chars_of, last_field_of, push_decimal, str_contains};

fn task(gid: &str, status: TaskStatus, total: u64, completed: u64, paths: &[&str]) -> TaskInfo {
    TaskInfo {
        gid: gid.to_string(),
        status,
        total_length: total,
        completed_length: completed,
        download_speed: 12345,
        upload_speed: 0,
        file_paths: paths.iter().map(|p| p.to_string()).collect(),
    }
}

#[test]
fn single_file_row_has_all_columns() {
    let t = task("2089b05ecca3d829", TaskStatus::Active, 1000, 250, &["/tmp/a.iso"]);
    assert_eq!(
        status_to_task_text(&t),
        "/tmp/a.iso\t1000\tActive\t12345\t0\t25%\t2089b05ecca3d829"
    );
}

#[test]
fn multi_file_row_names_first_file_only() {
    let t = task("abc", TaskStatus::Waiting, 10, 5, &["/d/one", "/d/two"]);
    assert_eq!(status_to_task_text(&t), "Multifiles [/d/one]");
}

#[test]
fn unknown_size_shows_zero_percent() {
    let t = task("g1", TaskStatus::Paused, 0, 77, &["f"]);
    assert_eq!(status_to_task_text(&t), "f\t0\tPaused\t12345\t0\t0%\tg1");
}

#[test]
fn finished_task_row() {
    let t = task("g2", TaskStatus::Complete, 4096, 4096, &["done.bin"]);
    assert_eq!(status_to_task_text(&t), "done.bin\t4096\tCompleted\t12345\t0\t100%\tg2");
}

#[test]
fn status_words() {
    assert_eq!(status_text(TaskStatus::Active), "Active");
    assert_eq!(status_text(TaskStatus::Waiting), "Waiting");
    assert_eq!(status_text(TaskStatus::Paused), "Paused");
    assert_eq!(status_text(TaskStatus::Error), "Error");
    assert_eq!(status_text(TaskStatus::Complete), "Completed");
    assert_eq!(status_text(TaskStatus::Removed), "Removed");
}

#[test]
fn progress_rounds_down() {
    assert_eq!(progress_percent(1, 3), 33);
    assert_eq!(progress_percent(2, 3), 66);
    assert_eq!(progress_percent(0, 0), 0);
    assert_eq!(progress_percent(5, 0), 0);
    assert_eq!(progress_percent(10, 10), 100);
    assert_eq!(progress_percent(200, 100), 200);
}

#[test]
fn decimal_rendering() {
    let mut s = String::from("n=");
    push_decimal(&mut s, 0);
    assert_eq!(s, "n=0");
    let mut s = String::new();
    push_decimal(&mut s, 10);
    assert_eq!(s, "10");
    let mut s = String::new();
    push_decimal(&mut s, u64::MAX);
    assert_eq!(s, "18446744073709551615");
}

#[test]
fn last_column_of_rows() {
    assert_eq!(last_field_of("a\tb\tc"), "c");
    assert_eq!(last_field_of("no tabs here"), "no tabs here");
    assert_eq!(last_field_of("ends with tab\t"), "");
    assert_eq!(last_field_of(""), "");
    assert_eq!(last_field_of("Multifiles [/d/one]"), "Multifiles [/d/one]");
}

#[test]
fn row_reads_back_its_gid() {
    let t = task("7f3a9b2c11d0e5f4", TaskStatus::Error, 999, 1, &["x\ty"]);
    let row = status_to_task_text(&t);
    assert_eq!(last_field_of(&row), "7f3a9b2c11d0e5f4");
}

#[test]
fn substring_search() {
    assert!(str_contains("hello world", "lo w"));
    assert!(str_contains("abc", ""));
    assert!(str_contains("abc", "abc"));
    assert!(!str_contains("abc", "abcd"));
    assert!(!str_contains("abc", "ac"));
}

#[test]
fn chars_in_order() {
    assert_eq!(chars_of("añb"), vec!['a', 'ñ', 'b']);
}
