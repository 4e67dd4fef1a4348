//! What the task table shows of one download: the engine's task record, as
//! plain values, and the row of text rendered from it.

use vstd::prelude::*;
use crate::text::{
    column_separator, columns, decimal, last_field, lemma_columns_of_field,
    lemma_columns_of_join, lemma_decimal_reads_back, lemma_last_field_of_suffix, push_char,
    push_decimal, separator_free,
};

verus! {

/// The state of a download as the engine reports it.
#[derive(Clone, Copy, Debug, PartialEq, Eq, Structural)]
pub enum TaskStatus {
    Active,
    Waiting,
    Paused,
    Error,
    Complete,
    Removed,
}

/// The part of an engine task record that the task table reads.
#[derive(Clone, Debug, PartialEq, Eq)]
pub struct TaskInfo {
    /// The engine's identifier of the download.
    pub gid: String,
    pub status: TaskStatus,
    /// Size of the download in bytes.
    pub total_length: u64,
    /// Bytes downloaded so far.
    pub completed_length: u64,
    /// Download speed in bytes per second.
    pub download_speed: u64,
    /// Upload speed in bytes per second.
    pub upload_speed: u64,
    /// The paths of the download's files, in the engine's order.
    pub file_paths: Vec<String>,
}

/// The word the STATUS column shows for a task state.
pub open spec fn status_label(status: TaskStatus) -> Seq<char> {
    match status {
        TaskStatus::Active => "Active"@,
        TaskStatus::Complete => "Completed"@,
        TaskStatus::Error => "Error"@,
        TaskStatus::Paused => "Paused"@,
        TaskStatus::Removed => "Removed"@,
        TaskStatus::Waiting => "Waiting"@,
    }
}

/// The LEFT column's percentage: completed bytes as a whole percentage of the
/// total, rounded down, or 0 when the total is unknown (zero).
pub open spec fn progress(completed: nat, total: nat) -> nat {
    if total != 0 {
        (completed * 100) / total
    } else {
        0
    }
}

/// The task has a file to name its row after, and its progress can be
/// computed in 64 bits when the row shows it.
pub open spec fn renderable(t: TaskInfo) -> bool {
    &&& t.file_paths@.len() >= 1
    &&& (t.file_paths@.len() == 1 && t.total_length != 0) ==> t.completed_length * 100 <= u64::MAX
}

/// The columns of a row joined by separators.
pub open spec fn join_columns(columns: Seq<Seq<char>>) -> Seq<char>
    decreases columns.len(),
{
    if columns.len() == 0 {
        Seq::empty()
    } else if columns.len() == 1 {
        columns[0]
    } else {
        join_columns(columns.drop_last()).push(column_separator()) + columns.last()
    }
}

/// The row the task table shows for a task. A task with several files is
/// shown as `Multifiles [<first path>]` alone; otherwise the row holds
/// NAME, SIZE, STATUS, D_SPEED, U_SPEED, LEFT (a percentage) and GID.
pub open spec fn task_row(t: TaskInfo) -> Seq<char> {
    if t.file_paths@.len() > 1 {
        "Multifiles ["@ + t.file_paths@[0]@ + "]"@
    } else {
        join_columns(
            seq![
                t.file_paths@[0]@,
                decimal(t.total_length as nat),
                status_label(t.status),
                decimal(t.download_speed as nat),
                decimal(t.upload_speed as nat),
                decimal(progress(t.completed_length as nat, t.total_length as nat)).push('%'),
                t.gid@,
            ],
        )
    }
}


/// Law: the last column of a single-file task's row is its GID, when the GID
/// holds no tab.
pub proof fn lemma_row_ends_with_gid(t: TaskInfo)
    requires
        t.file_paths@.len() == 1,
        separator_free(t.gid@),
    ensures
        last_field(task_row(t)) == t.gid@,
{
    let cols = seq![
        t.file_paths@[0]@,
        decimal(t.total_length as nat),
        status_label(t.status),
        decimal(t.download_speed as nat),
        decimal(t.upload_speed as nat),
        decimal(progress(t.completed_length as nat, t.total_length as nat)).push('%'),
        t.gid@,
    ];
    assert(cols.last() == t.gid@);
    assert(task_row(t) == join_columns(cols.drop_last()).push(column_separator()) + t.gid@);
    lemma_last_field_of_suffix(join_columns(cols.drop_last()), t.gid@);
}



/// Law: the progress shown is the whole percentage of the total that is
/// completed, rounded down: `p * total <= completed * 100 < (p + 1) * total`
/// when the total is known, and 0 when it is zero.
pub proof fn lemma_progress_rounds_down(completed: nat, total: nat)
    ensures
        total == 0 ==> progress(completed, total) == 0,
        total != 0 ==> progress(completed, total) * total <= completed * 100,
        total != 0 ==> completed * 100 < (progress(completed, total) + 1) * total,
{
    if total != 0 {
        let p = progress(completed, total);
        let c = completed * 100;
        assert(p == c / total);
        assert(p * total <= c && c < (p + 1) * total) by (nonlinear_arith)
            requires
                p == c / total,
                total > 0,
                c >= 0,
        ;
    }
}

/// Law: a task with several files is shown as `Multifiles [` followed by the
/// path of its first file and `]`, and nothing else.
pub proof fn lemma_multifile_row(t: TaskInfo)
    requires
        t.file_paths@.len() > 1,
    ensures
        task_row(t).len() == t.file_paths@[0]@.len() + 13,
        task_row(t).subrange(0, 12) == "Multifiles ["@,
        task_row(t).subrange(12, 12 + t.file_paths@[0]@.len() as int) == t.file_paths@[0]@,
        task_row(t).last() == ']',
{
    reveal_strlit("Multifiles [");
    reveal_strlit("]");
    let path = t.file_paths@[0]@;
    let row = task_row(t);
    assert(row.subrange(0, 12) =~= "Multifiles ["@);
    assert(row.subrange(12, 12 + path.len() as int) =~= path);
}

/// Law: each task state has its own word in the STATUS column, and the words
/// are those the table shows: "Active", "Waiting", "Paused", "Error",
/// "Completed" and "Removed"; none holds a tab.
pub proof fn lemma_status_words(a: TaskStatus, b: TaskStatus)
    ensures
        a != b ==> status_label(a) != status_label(b),
        a == TaskStatus::Active ==> status_label(a) == "Active"@,
        a == TaskStatus::Waiting ==> status_label(a) == "Waiting"@,
        a == TaskStatus::Paused ==> status_label(a) == "Paused"@,
        a == TaskStatus::Error ==> status_label(a) == "Error"@,
        a == TaskStatus::Complete ==> status_label(a) == "Completed"@,
        a == TaskStatus::Removed ==> status_label(a) == "Removed"@,
        separator_free(status_label(a)),
{
    reveal_strlit("Active");
    reveal_strlit("Waiting");
    reveal_strlit("Paused");
    reveal_strlit("Error");
    reveal_strlit("Completed");
    reveal_strlit("Removed");
    if a != b && status_label(a) == status_label(b) {
        let la = status_label(a);
        assert(la[0] == status_label(b)[0]);
        assert(la.len() == status_label(b).len());
        assert(la[1] == status_label(b)[1]);
    }
}

proof fn lemma_columns_of_joined(cols: Seq<Seq<char>>)
    requires
        cols.len() >= 1,
        forall|i: int| 0 <= i < cols.len() ==> separator_free(#[trigger] cols[i]),
    ensures
        columns(join_columns(cols)) == cols,
    decreases cols.len(),
{
    if cols.len() == 1 {
        lemma_columns_of_field(cols[0]);
        assert(seq![cols[0]] =~= cols);
    } else {
        lemma_columns_of_joined(cols.drop_last());
        lemma_columns_of_join(join_columns(cols.drop_last()), cols.last());
        lemma_columns_of_field(cols.last());
        assert(cols.drop_last() + seq![cols.last()] =~= cols);
    }
}

/// Law: the row of a single-file task whose path and GID hold no tab has seven
/// columns: the file's path, the total size in decimal, the word for the
/// task's own state, the download and upload speeds in decimal, the progress
/// `completed * 100 / total` (0 when the total is 0) in decimal followed by
/// `%`, whatever the task's state, and the GID.
pub proof fn lemma_row_columns(t: TaskInfo)
    requires
        t.file_paths@.len() == 1,
        separator_free(t.file_paths@[0]@),
        separator_free(t.gid@),
    ensures
        columns(task_row(t)).len() == 7,
        columns(task_row(t))[0] == t.file_paths@[0]@,
        columns(task_row(t))[1] == decimal(t.total_length as nat),
        columns(task_row(t))[2] == status_label(t.status),
        columns(task_row(t))[3] == decimal(t.download_speed as nat),
        columns(task_row(t))[4] == decimal(t.upload_speed as nat),
        columns(task_row(t))[5] == decimal(
            if t.total_length == 0 {
                0nat
            } else {
                ((t.completed_length * 100) / (t.total_length as int)) as nat
            },
        ).push('%'),
        columns(task_row(t))[6] == t.gid@,
{
    let p = progress(t.completed_length as nat, t.total_length as nat);
    let cols = seq![
        t.file_paths@[0]@,
        decimal(t.total_length as nat),
        status_label(t.status),
        decimal(t.download_speed as nat),
        decimal(t.upload_speed as nat),
        decimal(p).push('%'),
        t.gid@,
    ];
    lemma_decimal_reads_back(t.total_length as nat);
    lemma_decimal_reads_back(t.download_speed as nat);
    lemma_decimal_reads_back(t.upload_speed as nat);
    lemma_decimal_reads_back(p);
    lemma_status_words(t.status, t.status);
    assert(separator_free(decimal(p).push('%'))) by {
        assert forall|i: int| 0 <= i < decimal(p).push('%').len() implies #[trigger] decimal(
            p,
        ).push('%')[i] != column_separator() by {
            if i < decimal(p).len() {
                assert(decimal(p).push('%')[i] == decimal(p)[i]);
            }
        }
    }
    assert forall|i: int| 0 <= i < cols.len() implies separator_free(#[trigger] cols[i]) by {
        if i == 0 {
        } else if i == 1 {
        } else if i == 2 {
        } else if i == 3 {
        } else if i == 4 {
        } else if i == 5 {
        } else {
        }
    }
    lemma_columns_of_joined(cols);
    assert(task_row(t) == join_columns(cols));
}

/// The word the STATUS column shows for `status`.
pub fn status_text(status: TaskStatus) -> (s: String)
    ensures
        s@ == status_label(status),
{
    match status {
        TaskStatus::Active => String::from_str("Active"),
        TaskStatus::Complete => String::from_str("Completed"),
        TaskStatus::Error => String::from_str("Error"),
        TaskStatus::Paused => String::from_str("Paused"),
        TaskStatus::Removed => String::from_str("Removed"),
        TaskStatus::Waiting => String::from_str("Waiting"),
    }
}

/// Completed bytes as a whole percentage of the total, rounded down; 0 when
/// the total is zero.
pub fn progress_percent(completed: u64, total: u64) -> (p: u64)
    requires
        total != 0 ==> completed * 100 <= u64::MAX,
    ensures
        p == progress(completed as nat, total as nat),
        completed <= total ==> p <= 100,
{
    if total != 0 {
        let p = completed * 100 / total;
        proof {
            if completed <= total {
                assert(completed * 100 <= total * 100) by (nonlinear_arith)
                    requires
                        completed <= total,
                ;
                assert((completed * 100) / (total as int) <= 100) by (nonlinear_arith)
                    requires
                        completed * 100 <= total * 100,
                        total > 0,
                ;
            }
        }
        p
    } else {
        0
    }
}

fn push_column(row: &mut String, column: &str)
    ensures
        final(row)@ == old(row)@.push(column_separator()) + column@,
{
    push_char(row, '\t');
    row.append(column);
}

/// The row of the task table that shows `status`.
pub fn status_to_task_text(status: &TaskInfo) -> (row: String)
    requires
        renderable(*status),
    ensures
        row@ == task_row(*status),
{
    if status.file_paths.len() > 1 {
        let mut row = String::from_str("Multifiles [");
        row.append(status.file_paths[0].as_str());
        row.append("]");
        return row;
    }
    let mut row = status.file_paths[0].clone();
    let ghost name = row@;
    let mut size = String::new();
    push_decimal(&mut size, status.total_length);
    push_column(&mut row, size.as_str());
    let label = status_text(status.status);
    push_column(&mut row, label.as_str());
    let mut down = String::new();
    push_decimal(&mut down, status.download_speed);
    push_column(&mut row, down.as_str());
    let mut up = String::new();
    push_decimal(&mut up, status.upload_speed);
    push_column(&mut row, up.as_str());
    let mut left = String::new();
    push_decimal(&mut left, progress_percent(status.completed_length, status.total_length));
    push_char(&mut left, '%');
    push_column(&mut row, left.as_str());
    push_column(&mut row, status.gid.as_str());
    proof {
        let cols = seq![
            name,
            size@,
            label@,
            down@,
            up@,
            left@,
            status.gid@,
        ];
        assert(cols.drop_last().drop_last().drop_last().drop_last().drop_last().drop_last()
            =~= seq![name]);
        assert(cols.drop_last().drop_last().drop_last().drop_last().drop_last() =~= seq![
            name,
            size@,
        ]);
        assert(cols.drop_last().drop_last().drop_last().drop_last() =~= seq![
            name,
            size@,
            label@,
        ]);
        assert(cols.drop_last().drop_last().drop_last() =~= seq![
            name,
            size@,
            label@,
            down@,
        ]);
        assert(cols.drop_last().drop_last() =~= seq![name, size@, label@, down@, up@]);
        assert(cols.drop_last() =~= seq![name, size@, label@, down@, up@, left@]);
        reveal_with_fuel(join_columns, 7);
        assert(row@ =~= join_columns(cols));
    }
    row
}

} // verus!
