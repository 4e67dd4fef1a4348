//! The task table of the main window: which task lists it filters on, how it
//! is brought in step with a new list of tasks, and which GIDs the selected
//! rows stand for.
//!
//! The table widget holds one line per row, numbered from 1; line 1 is the
//! column header and line `k + 2` shows the `k`-th task.

use vstd::prelude::*;
use crate::task::{TaskInfo, renderable, task_row, status_to_task_text, lemma_row_ends_with_gid};
use crate::text::{last_field, last_field_of, separator_free};

verus! {

/// Which task lists the table shows: the active downloads, the queued ones,
/// and the stopped ones.
#[derive(Clone, Copy, Debug, PartialEq, Eq, Structural)]
pub struct StatusConfig {
    pub downloading: bool,
    pub waiting: bool,
    pub finished: bool,
}

impl Default for StatusConfig {
    /// No list selected.
    fn default() -> (c: Self)
        ensures
            !c.downloading && !c.waiting && !c.finished,
    {
        StatusConfig { downloading: false, waiting: false, finished: false }
    }
}

/// One change to the lines of the table widget.
#[derive(Clone, Debug, PartialEq, Eq)]
pub enum BrowserEdit {
    /// Replace the text of line `line`.
    SetText { line: i32, text: String },
    /// Append a line at the end.
    Add { text: String },
    /// Delete line `line`; the lines after it move up by one.
    Remove { line: i32 },
}

/// What a `BrowserEdit` does, over mathematical values.
pub enum EditModel {
    SetText(int, Seq<char>),
    Add(Seq<char>),
    Remove(int),
}

impl View for BrowserEdit {
    type V = EditModel;

    open spec fn view(&self) -> EditModel {
        match self {
            BrowserEdit::SetText { line, text } => EditModel::SetText(*line as int, text@),
            BrowserEdit::Add { text } => EditModel::Add(text@),
            BrowserEdit::Remove { line } => EditModel::Remove(*line as int),
        }
    }
}

/// The lines of the widget after one edit (`lines[k]` is line `k + 1`); an
/// edit of a line that does not exist changes nothing.
pub open spec fn apply_edit(lines: Seq<Seq<char>>, e: EditModel) -> Seq<Seq<char>> {
    match e {
        EditModel::SetText(line, text) => if 1 <= line <= lines.len() {
            lines.update(line - 1, text)
        } else {
            lines
        },
        EditModel::Add(text) => lines.push(text),
        EditModel::Remove(line) => if 1 <= line <= lines.len() {
            lines.remove(line - 1)
        } else {
            lines
        },
    }
}

/// The lines of the widget after a sequence of edits, applied in order.
pub open spec fn apply_edits(lines: Seq<Seq<char>>, edits: Seq<EditModel>) -> Seq<Seq<char>>
    decreases edits.len(),
{
    if edits.len() == 0 {
        lines
    } else {
        apply_edit(apply_edits(lines, edits.drop_last()), edits.last())
    }
}

/// The edits that bring a table of `old_count` task rows to the rows `rows`:
/// the existing lines are rewritten in place, missing ones are appended, and
/// surplus ones are removed from the end.
pub open spec fn update_plan(old_count: int, rows: Seq<Seq<char>>) -> Seq<EditModel> {
    if old_count <= rows.len() {
        Seq::new(
            rows.len(),
            |i: int|
                if i < old_count {
                    EditModel::SetText(i + 2, rows[i])
                } else {
                    EditModel::Add(rows[i])
                },
        )
    } else {
        Seq::new(rows.len(), |i: int| EditModel::SetText(i + 2, rows[i])) + Seq::new(
            (old_count - rows.len()) as nat,
            |j: int| EditModel::Remove(rows.len() + 2int),
        )
    }
}

/// The rows the table shows for a list of tasks.
pub open spec fn task_rows(tasks: Seq<TaskInfo>) -> Seq<Seq<char>> {
    tasks.map_values(|t: TaskInfo| task_row(t))
}

/// The GIDs that the selected lines stand for, in the order of selection: the
/// header line is skipped and every other line gives its last column.
pub open spec fn selected_gids(selected: Seq<i32>, lines: Seq<Seq<char>>) -> Seq<Seq<char>>
    decreases selected.len(),
{
    if selected.len() == 0 {
        Seq::empty()
    } else {
        let before = selected_gids(selected.drop_last(), lines);
        if selected.last() == 1 {
            before
        } else {
            before.push(last_field(lines[selected.last() - 1]))
        }
    }
}


proof fn lemma_apply_edits_step(lines: Seq<Seq<char>>, edits: Seq<EditModel>, k: int)
    requires
        0 <= k < edits.len(),
    ensures
        apply_edits(lines, edits.take(k + 1)) == apply_edit(apply_edits(lines, edits.take(k)), edits[k]),
{
    assert(edits.take(k + 1).drop_last() =~= edits.take(k));
}

/// The lines after the first `k` edits of an update, while rows are rewritten
/// or appended.
proof fn lemma_update_rewrite_phase(
    header: Seq<char>,
    old_rows: Seq<Seq<char>>,
    rows: Seq<Seq<char>>,
    k: int,
)
    requires
        0 <= k <= rows.len(),
    ensures
        apply_edits(seq![header] + old_rows, update_plan(old_rows.len() as int, rows).take(k))
            == seq![header] + rows.take(k) + old_rows.subrange(
            if k < old_rows.len() { k } else { old_rows.len() as int },
            old_rows.len() as int,
        ),
    decreases k,
{
    let o = old_rows.len() as int;
    let plan = update_plan(o, rows);
    let start = seq![header] + old_rows;
    if k == 0 {
        assert(plan.take(0) =~= Seq::<EditModel>::empty());
        assert(seq![header] + rows.take(0) + old_rows.subrange(0, o) =~= start);
    } else {
        lemma_update_rewrite_phase(header, old_rows, rows, k - 1);
        lemma_apply_edits_step(start, plan, k - 1);
        let before = seq![header] + rows.take(k - 1) + old_rows.subrange(
            if k - 1 < o { k - 1 } else { o },
            o,
        );
        if k - 1 < o {
            assert(plan[k - 1] == EditModel::SetText(k + 1, rows[k - 1]));
            assert(before.update(k, rows[k - 1]) =~= seq![header] + rows.take(k) + old_rows.subrange(
                if k < o { k } else { o },
                o,
            ));
        } else {
            assert(plan[k - 1] == EditModel::Add(rows[k - 1]));
            assert(before.push(rows[k - 1]) =~= seq![header] + rows.take(k) + old_rows.subrange(o, o));
        }
    }
}

/// The lines after the first `rows.len() + j` edits of an update that
/// shrinks the table, while surplus rows are removed.
proof fn lemma_update_remove_phase(
    header: Seq<char>,
    old_rows: Seq<Seq<char>>,
    rows: Seq<Seq<char>>,
    j: int,
)
    requires
        old_rows.len() > rows.len(),
        0 <= j <= old_rows.len() - rows.len(),
    ensures
        apply_edits(
            seq![header] + old_rows,
            update_plan(old_rows.len() as int, rows).take(rows.len() + j),
        ) == seq![header] + rows + old_rows.subrange(rows.len() + j, old_rows.len() as int),
    decreases j,
{
    let o = old_rows.len() as int;
    let n = rows.len() as int;
    let plan = update_plan(o, rows);
    let start = seq![header] + old_rows;
    if j == 0 {
        lemma_update_rewrite_phase(header, old_rows, rows, n);
        assert(rows.take(n) =~= rows);
    } else {
        lemma_update_remove_phase(header, old_rows, rows, j - 1);
        lemma_apply_edits_step(start, plan, n + j - 1);
        assert(plan[n + j - 1] == EditModel::Remove(n + 2));
        let before = seq![header] + rows + old_rows.subrange(n + j - 1, o);
        assert(before.remove(n + 1) =~= seq![header] + rows + old_rows.subrange(n + j, o));
    }
}

/// Law: the edits that `update_task` returns, applied to a widget that shows
/// the header and as many rows as the table counted, leave it showing the
/// header and exactly the new rows, in order.
pub proof fn lemma_update_shows_new_rows(
    header: Seq<char>,
    old_rows: Seq<Seq<char>>,
    rows: Seq<Seq<char>>,
)
    ensures
        apply_edits(seq![header] + old_rows, update_plan(old_rows.len() as int, rows)) == seq![
            header,
        ] + rows,
{
    let o = old_rows.len() as int;
    let n = rows.len() as int;
    let plan = update_plan(o, rows);
    if o <= n {
        lemma_update_rewrite_phase(header, old_rows, rows, n);
        assert(plan.take(n) =~= plan);
        assert(rows.take(n) =~= rows);
        assert(seq![header] + rows + old_rows.subrange(o, o) =~= seq![header] + rows);
    } else {
        lemma_update_remove_phase(header, old_rows, rows, o - n);
        assert(plan.take(n + (o - n)) =~= plan);
        assert(seq![header] + rows + old_rows.subrange(o, o) =~= seq![header] + rows);
    }
}


/// Law: reading the selection back from a widget that shows the header and
/// the rows of `tasks` gives, for each selected task line, the GID of the task
/// shown there, provided each such task has a single file and a GID free of
/// tabs (a multi-file task's row carries no GID column).
pub proof fn lemma_selection_reads_back_gids(
    header: Seq<char>,
    tasks: Seq<TaskInfo>,
    selected: Seq<i32>,
)
    requires
        forall|k: int|
            0 <= k < selected.len() ==> 2 <= #[trigger] selected[k] <= tasks.len() + 1,
        forall|k: int|
            0 <= k < selected.len() ==> (#[trigger] tasks[selected[k] - 2]).file_paths@.len()
                == 1 && separator_free(tasks[selected[k] - 2].gid@),
    ensures
        selected_gids(selected, seq![header] + task_rows(tasks)) == selected.map_values(
            |line: i32| tasks[line - 2].gid@,
        ),
    decreases selected.len(),
{
    let lines = seq![header] + task_rows(tasks);
    if selected.len() > 0 {
        let rest = selected.drop_last();
        lemma_selection_reads_back_gids(header, tasks, rest);
        let line = selected.last();
        assert(selected[selected.len() - 1] == line);
        let t = tasks[line - 2];
        assert(lines[line - 1] == task_row(t));
        lemma_row_ends_with_gid(t);
        assert(selected.map_values(|line: i32| tasks[line - 2].gid@) =~= rest.map_values(
            |line: i32| tasks[line - 2].gid@,
        ).push(t.gid@));
    } else {
        assert(selected.map_values(|line: i32| tasks[line - 2].gid@) =~= Seq::<Seq<char>>::empty());
    }
}

/// The state the main window keeps of its task table: how many task rows the
/// widget shows below the header.
pub struct TaskTable {
    task_count: i32,
}

impl TaskTable {
    #[verifier::type_invariant]
    spec fn count_not_negative(self) -> bool {
        self.task_count >= 0
    }

    /// The number of task rows below the header.
    pub closed spec fn task_count(self) -> int {
        self.task_count as int
    }

    /// A table that shows the header alone.
    pub fn new() -> (table: Self)
        ensures
            table.task_count() == 0,
    {
        TaskTable { task_count: 0 }
    }

    /// The number of task rows below the header.
    pub fn len(&self) -> (n: i32)
        ensures
            n == self.task_count(),
            n >= 0,
    {
        proof {
            use_type_invariant(self);
        }
        self.task_count
    }

    /// Brings the table in step with `status_vec`: returns the edits that turn
    /// the widget's task rows into the rows of `status_vec`, in order, and
    /// records the new number of rows.
    pub fn update_task(&mut self, status_vec: Vec<TaskInfo>) -> (edits: Vec<BrowserEdit>)
        requires
            status_vec@.len() + 2 <= i32::MAX,
            forall|i: int| 0 <= i < status_vec@.len() ==> renderable(#[trigger] status_vec@[i]),
        ensures
            final(self).task_count() == status_vec@.len(),
            edits@.map_values(|e: BrowserEdit| e@) == update_plan(
                old(self).task_count(),
                task_rows(status_vec@),
            ),
    {
        proof {
            use_type_invariant(&*self);
        }
        let ghost rows = task_rows(status_vec@);
        let ghost plan = update_plan(self.task_count as int, rows);
        let n = status_vec.len();
        let task_length = n as i32;
        let browser_length = self.task_count;
        let mut edits: Vec<BrowserEdit> = Vec::new();
        if browser_length <= task_length {
            let mut index: usize = 0;
            while index < n
                invariant
                    n == status_vec@.len(),
                    n + 2 <= i32::MAX,
                    0 <= browser_length <= task_length,
                    task_length == n,
                    rows == task_rows(status_vec@),
                    plan == update_plan(browser_length as int, rows),
                    forall|i: int| 0 <= i < status_vec@.len() ==> renderable(#[trigger] status_vec@[i]),
                    index <= n,
                    edits@.len() == index,
                    forall|j: int| 0 <= j < index ==> (#[trigger] edits@[j])@ == plan[j],
                decreases n - index,
            {
                let text = status_to_task_text(&status_vec[index]);
                let i = index as i32;
                if i < browser_length {
                    edits.push(BrowserEdit::SetText { line: i + 2, text });
                } else {
                    edits.push(BrowserEdit::Add { text });
                }
                index = index + 1;
            }
        } else {
            let mut index: usize = 0;
            while index < n
                invariant
                    n == status_vec@.len(),
                    n + 2 <= i32::MAX,
                    browser_length > task_length,
                    task_length == n,
                    rows == task_rows(status_vec@),
                    plan == update_plan(browser_length as int, rows),
                    forall|i: int| 0 <= i < status_vec@.len() ==> renderable(#[trigger] status_vec@[i]),
                    index <= n,
                    edits@.len() == index,
                    forall|j: int| 0 <= j < index ==> (#[trigger] edits@[j])@ == plan[j],
                decreases n - index,
            {
                let text = status_to_task_text(&status_vec[index]);
                let i = index as i32;
                edits.push(BrowserEdit::SetText { line: i + 2, text });
                index = index + 1;
            }
            let mut removed: i32 = task_length;
            while removed < browser_length
                invariant
                    n == status_vec@.len(),
                    n + 2 <= i32::MAX,
                    browser_length > task_length,
                    task_length == n,
                    rows == task_rows(status_vec@),
                    plan == update_plan(browser_length as int, rows),
                    task_length <= removed <= browser_length,
                    edits@.len() == removed,
                    forall|j: int| 0 <= j < removed ==> (#[trigger] edits@[j])@ == plan[j],
                decreases browser_length - removed,
            {
                edits.push(BrowserEdit::Remove { line: task_length + 2 });
                removed = removed + 1;
            }
        }
        self.task_count = task_length;
        assert(edits@.map_values(|e: BrowserEdit| e@) =~= plan);
        edits
    }

    /// The GIDs of the tasks on the selected lines of the widget, in the order
    /// of `selected_lines`; `lines` holds the widget's lines, line `k + 1` at
    /// index `k`. The header line is skipped, and each other line gives its
    /// last tab-separated column.
    pub fn get_selected_tasks(selected_lines: &Vec<i32>, lines: &Vec<String>) -> (gids: Vec<
        String,
    >)
        requires
            forall|k: int|
                0 <= k < selected_lines@.len() && #[trigger] selected_lines@[k] != 1 ==> 1
                    <= selected_lines@[k] <= lines@.len(),
        ensures
            gids@.map_values(|g: String| g@) == selected_gids(
                selected_lines@,
                lines@.map_values(|l: String| l@),
            ),
    {
        let ghost views = lines@.map_values(|l: String| l@);
        let mut gid_vec: Vec<String> = Vec::new();
        let mut k: usize = 0;
        while k < selected_lines.len()
            invariant
                views == lines@.map_values(|l: String| l@),
                forall|k: int|
                    0 <= k < selected_lines@.len() && #[trigger] selected_lines@[k] != 1 ==> 1
                        <= selected_lines@[k] <= lines@.len(),
                k <= selected_lines@.len(),
                gid_vec@.map_values(|g: String| g@) == selected_gids(
                    selected_lines@.take(k as int),
                    views,
                ),
            decreases selected_lines@.len() - k,
        {
            let line = selected_lines[k];
            assert(selected_lines@.take(k + 1).drop_last() =~= selected_lines@.take(k as int));
            if line != 1 {
                let gid = last_field_of(lines[(line - 1) as usize].as_str());
                let ghost before = gid_vec@;
                gid_vec.push(gid);
                assert(gid_vec@.map_values(|g: String| g@) =~= before.map_values(
                    |g: String| g@,
                ).push(gid@));
            }
            k = k + 1;
        }
        assert(selected_lines@.take(selected_lines@.len() as int) =~= selected_lines@);
        gid_vec
    }
}

} // verus!
