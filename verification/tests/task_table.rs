use poor_downloader::table::{BrowserEdit, StatusConfig, TaskTable};
use poor_downloader::task::{status_to_task_text, TaskInfo, TaskStatus};

const HEADER: &str = "NAME\tSIZE\tSTATUS\tD_SPEED\tU_SPEED\tLEFT\tGID";

fn task(gid: &str, path: &str) -> TaskInfo {
    TaskInfo {
        gid: gid.to_string(),
        status: TaskStatus::Active,
        total_length: 100,
        completed_length: 50,
        download_speed: 1,
        upload_speed: 2,
        file_paths: vec![path.to_string()],
    }
}

/// Applies edits to a list of widget lines the way the table widget does.
fn apply(lines: &mut Vec<String>, edits: &[BrowserEdit]) {
    for e in edits {
        match e {
            BrowserEdit::SetText { line, text } => {
                let l = *line as usize;
                if l >= 1 && l <= lines.len() {
                    lines[l - 1] = text.clone();
                }
            }
            BrowserEdit::Add { text } => lines.push(text.clone()),
            BrowserEdit::Remove { line } => {
                let l = *line as usize;
                if l >= 1 && l <= lines.len() {
                    lines.remove(l - 1);
                }
            }
        }
    }
}

fn rows(tasks: &[TaskInfo]) -> Vec<String> {
    tasks.iter().map(status_to_task_text).collect()
}

#[test]
fn growing_table_appends_rows() {
    let mut table = TaskTable::new();
    let tasks = vec![task("g1", "a"), task("g2", "b")];
    let r = rows(&tasks);
    let edits = table.update_task(tasks);
    assert_eq!(
        edits,
        vec![BrowserEdit::Add { text: r[0].clone() }, BrowserEdit::Add { text: r[1].clone() }]
    );
    assert_eq!(table.len(), 2);
}

#[test]
fn rewrite_then_append() {
    let mut table = TaskTable::new();
    table.update_task(vec![task("g1", "a")]);
    let tasks = vec![task("g2", "b"), task("g3", "c")];
    let r = rows(&tasks);
    let edits = table.update_task(tasks);
    assert_eq!(
        edits,
        vec![
            BrowserEdit::SetText { line: 2, text: r[0].clone() },
            BrowserEdit::Add { text: r[1].clone() },
        ]
    );
}

#[test]
fn shrinking_table_removes_from_end() {
    let mut table = TaskTable::new();
    table.update_task(vec![task("g1", "a"), task("g2", "b"), task("g3", "c")]);
    let tasks = vec![task("g4", "d")];
    let r = rows(&tasks);
    let edits = table.update_task(tasks);
    assert_eq!(
        edits,
        vec![
            BrowserEdit::SetText { line: 2, text: r[0].clone() },
            BrowserEdit::Remove { line: 3 },
            BrowserEdit::Remove { line: 3 },
        ]
    );
    assert_eq!(table.len(), 1);
}

#[test]
fn emptying_table_keeps_header() {
    let mut lines = vec![HEADER.to_string()];
    let mut table = TaskTable::new();
    let first = vec![task("g1", "a"), task("g2", "b")];
    apply(&mut lines, &table.update_task(first));
    assert_eq!(lines.len(), 3);
    apply(&mut lines, &table.update_task(vec![]));
    assert_eq!(lines, vec![HEADER.to_string()]);
    assert_eq!(table.len(), 0);
}

#[test]
fn widget_shows_exactly_the_new_rows() {
    let mut lines = vec![HEADER.to_string()];
    let mut table = TaskTable::new();
    let sizes = [3usize, 5, 1, 1, 4, 0, 2];
    let mut counter = 0;
    for n in sizes {
        let tasks: Vec<TaskInfo> = (0..n)
            .map(|i| {
                counter += 1;
                task(&format!("gid{}", counter), &format!("file{}", i))
            })
            .collect();
        let mut expected = vec![HEADER.to_string()];
        expected.extend(rows(&tasks));
        let edits = table.update_task(tasks);
        apply(&mut lines, &edits);
        assert_eq!(lines, expected);
    }
}

#[test]
fn selection_skips_header_and_reads_gids() {
    let tasks = vec![task("g1", "a"), task("g2", "b"), task("g3", "c")];
    let mut lines = vec![HEADER.to_string()];
    lines.extend(rows(&tasks));
    let gids = TaskTable::get_selected_tasks(&vec![1, 4, 2], &lines);
    assert_eq!(gids, vec!["g3".to_string(), "g1".to_string()]);
    let none = TaskTable::get_selected_tasks(&vec![1], &lines);
    assert!(none.is_empty());
    let empty = TaskTable::get_selected_tasks(&vec![], &lines);
    assert!(empty.is_empty());
}

#[test]
fn selection_of_multi_file_row_gives_whole_row() {
    let mut t = task("g9", "a");
    t.file_paths.push("b".to_string());
    let lines = vec![HEADER.to_string(), status_to_task_text(&t)];
    let gids = TaskTable::get_selected_tasks(&vec![2], &lines);
    assert_eq!(gids, vec!["Multifiles [a]".to_string()]);
}

#[test]
fn default_filter_selects_nothing() {
    let c = StatusConfig::default();
    assert_eq!(c, StatusConfig { downloading: false, waiting: false, finished: false });
}
