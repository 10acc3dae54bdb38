use crate::calendar::{clock_text, clock_text_spec, date_text, date_text_spec};
use crate::digits::{decimal, decimal_spec};
use crate::registry::{Registry, Task, TaskManager, TaskView};
use crate::text::{pad_left, pad_left_spec, pad_right, pad_right_spec, repeat_char, repeated};
use vstd::prelude::*;

verus! {

/// The text and the name of the file that a schedule is saved to.
pub struct ScheduleFile {
    pub file_name: String,
    pub content: String,
}

/// The line shown instead of a table when there is no task.
pub open spec fn no_tasks_line() -> Seq<char> {
    "No tasks to display."@
}

/// The terminal table's header: ID, START, END, NAME, PRIORITY, CATEGORY in
/// columns 2, 8, 8, 20, 9 and 15 wide.
pub open spec fn terminal_header() -> Seq<char> {
    pad_right_spec("ID"@, 2) + " "@ + pad_right_spec("START"@, 8) + " "@ + pad_right_spec("END"@, 8)
        + " "@ + pad_right_spec("NAME"@, 20) + " "@ + pad_right_spec("PRIORITY"@, 9) + " "@
        + pad_right_spec("CATEGORY"@, 15) + " "@
}

/// One task in the terminal table; the priority carries its colour codes.
pub open spec fn terminal_row(t: TaskView) -> Seq<char> {
    pad_left_spec(decimal_spec(t.id as nat), 2) + " "@ + pad_right_spec(clock_text_spec(t.start_time), 8)
        + " "@ + pad_right_spec(clock_text_spec(t.end_time), 8) + " "@ + pad_right_spec(t.name, 20)
        + " "@ + pad_right_spec(t.priority.colored_label(), 9) + " "@ + pad_right_spec(
        t.category.label(),
        15,
    )
}

/// The lines of the terminal listing.
pub open spec fn terminal_lines(tasks: Seq<TaskView>) -> Seq<Seq<char>> {
    if tasks.len() == 0 {
        seq![no_tasks_line()]
    } else {
        seq![terminal_header(), repeat_char('-', 100)] + tasks.map_values(|t: TaskView| terminal_row(t))
            + seq![Seq::<char>::empty()]
    }
}

/// The saved table's header: START, END, NAME, PRIORITY, CATEGORY in
/// columns 8, 8, 20, 9 and 15 wide.
pub open spec fn export_header() -> Seq<char> {
    pad_right_spec("START"@, 8) + " "@ + pad_right_spec("END"@, 8) + " "@ + pad_right_spec(
        "NAME"@,
        20,
    ) + " "@ + pad_right_spec("PRIORITY"@, 9) + " "@ + pad_right_spec("CATEGORY"@, 15)
}

/// One task in the saved table, without colour and without the id.
pub open spec fn export_row(t: TaskView) -> Seq<char> {
    pad_right_spec(clock_text_spec(t.start_time), 8) + " "@ + pad_right_spec(
        clock_text_spec(t.end_time),
        8,
    ) + " "@ + pad_right_spec(t.name, 20) + " "@ + pad_right_spec(t.priority.label(), 9) + " "@
        + pad_right_spec(t.category.label(), 15)
}

/// The rows of the saved table, each ended by a line break.
pub open spec fn export_rows(tasks: Seq<TaskView>) -> Seq<char>
    decreases tasks.len(),
{
    if tasks.len() == 0 {
        Seq::empty()
    } else {
        export_rows(tasks.drop_last()) + export_row(tasks.last()) + "\n"@
    }
}

/// The start of a saved table with rows: the day, a blank line, the header
/// and 80 dashes, each ended by a line break.
pub open spec fn export_head(m: Registry) -> Seq<char> {
    date_text_spec(m.date) + "\n"@ + "\n"@ + export_header() + "\n"@ + repeat_char('-', 80) + "\n"@
}

/// The saved schedule. With no task: the day, a blank line and the line
/// saying that there is no task. Otherwise the table's start, then the rows.
pub open spec fn export_text(m: Registry) -> Seq<char> {
    if m.tasks.len() == 0 {
        date_text_spec(m.date) + "\n"@ + "\n"@ + no_tasks_line() + "\n"@
    } else {
        export_head(m) + export_rows(m.tasks)
    }
}

fn space() -> (r: &'static str)
    ensures
        r@ == " "@,
{
    " "
}

fn dashes(n: usize) -> (r: String)
    ensures
        r@ == repeat_char('-', n as nat),
{
    proof {
        reveal_strlit("-");
    }
    repeated("-", n)
}

fn terminal_header_line() -> (r: String)
    ensures
        r@ == terminal_header(),
{
    let mut r = pad_right("ID", 2);
    r.append(space());
    r.append(pad_right("START", 8).as_str());
    r.append(space());
    r.append(pad_right("END", 8).as_str());
    r.append(space());
    r.append(pad_right("NAME", 20).as_str());
    r.append(space());
    r.append(pad_right("PRIORITY", 9).as_str());
    r.append(space());
    r.append(pad_right("CATEGORY", 15).as_str());
    r.append(space());
    r
}

fn export_header_line() -> (r: String)
    ensures
        r@ == export_header(),
{
    let mut r = pad_right("START", 8);
    r.append(space());
    r.append(pad_right("END", 8).as_str());
    r.append(space());
    r.append(pad_right("NAME", 20).as_str());
    r.append(space());
    r.append(pad_right("PRIORITY", 9).as_str());
    r.append(space());
    r.append(pad_right("CATEGORY", 15).as_str());
    r
}

impl Task {
    /// The task as a line of the terminal table.
    pub fn terminal_line(&self) -> (r: String)
        ensures
            r@ == terminal_row(self@),
    {
        let mut r = pad_left(decimal(self.id as u32).as_str(), 2);
        r.append(space());
        r.append(pad_right(clock_text(&self.start_time).as_str(), 8).as_str());
        r.append(space());
        r.append(pad_right(clock_text(&self.end_time).as_str(), 8).as_str());
        r.append(space());
        r.append(pad_right(self.name.as_str(), 20).as_str());
        r.append(space());
        r.append(pad_right(self.priority.colored_name(), 9).as_str());
        r.append(space());
        r.append(pad_right(self.category.name(), 15).as_str());
        r
    }

    /// The task as a line of the saved table, without its line break.
    pub fn export_line(&self) -> (r: String)
        ensures
            r@ == export_row(self@),
    {
        let mut r = pad_right(clock_text(&self.start_time).as_str(), 8);
        r.append(space());
        r.append(pad_right(clock_text(&self.end_time).as_str(), 8).as_str());
        r.append(space());
        r.append(pad_right(self.name.as_str(), 20).as_str());
        r.append(space());
        r.append(pad_right(self.priority.name(), 9).as_str());
        r.append(space());
        r.append(pad_right(self.category.name(), 15).as_str());
        r
    }
}

impl TaskManager {
    /// The lines of the terminal listing: one line saying that there is no
    /// task, or the header, 100 dashes, a line per task in order and a blank line.
    pub fn display_schedule(&self) -> (r: Vec<String>)
        ensures
            r@.map_values(|s: String| s@) == terminal_lines(self@.tasks),
            self@.tasks.len() == 0 ==> r@.len() == 1 && r@[0]@ == no_tasks_line(),
    {
        let mut r: Vec<String> = Vec::new();
        if self.tasks.len() == 0 {
            r.push(String::from_str("No tasks to display."));
            assert(r@.map_values(|s: String| s@) =~= terminal_lines(self@.tasks));
            assert(r@.map_values(|s: String| s@)[0] == r@[0]@);
            return r;
        }
        r.push(terminal_header_line());
        r.push(dashes(100));
        let ghost tv = self@.tasks;
        let ghost head = seq![terminal_header(), repeat_char('-', 100)];
        assert(r@.map_values(|s: String| s@) =~= head);
        let mut i: usize = 0;
        while i < self.tasks.len()
            invariant
                i <= self.tasks.len(),
                tv == self@.tasks,
                tv.len() == self.tasks.len(),
                r@.map_values(|s: String| s@) == head + tv.subrange(0, i as int).map_values(
                    |t: TaskView| terminal_row(t),
                ),
            decreases self.tasks.len() - i,
        {
            let line = self.tasks[i].terminal_line();
            let ghost before = r@.map_values(|s: String| s@);
            r.push(line);
            assert(tv[i as int] == self.tasks@[i as int]@);
            assert(r@.map_values(|s: String| s@) =~= before.push(line@));
            assert(tv.subrange(0, i + 1).map_values(|t: TaskView| terminal_row(t)) =~= tv.subrange(
                0,
                i as int,
            ).map_values(|t: TaskView| terminal_row(t)).push(terminal_row(tv[i as int])));
            i = i + 1;
        }
        let ghost before = r@.map_values(|s: String| s@);
        r.push(String::new());
        assert(tv.subrange(0, tv.len() as int) == tv);
        assert(r@.map_values(|s: String| s@) =~= before.push(Seq::<char>::empty()));
        assert(r@.map_values(|s: String| s@) =~= terminal_lines(self@.tasks));
        r
    }

    /// The name of the file the schedule is saved to: the day, then `.txt`.
    pub fn export_file_name(&self) -> (r: String)
        requires
            self.date.wf(),
        ensures
            r@ == date_text_spec(self.date) + ".txt"@,
    {
        let mut r = date_text(&self.date);
        r.append(".txt");
        r
    }

    /// What saving the schedule writes, and where.
    pub fn save_schedule(&self) -> (r: ScheduleFile)
        requires
            self.date.wf(),
        ensures
            r.file_name@ == date_text_spec(self.date) + ".txt"@,
            r.content@ == export_text(self@),
    {
        let mut c = date_text(&self.date);
        c.append("\n");
        c.append("\n");
        if self.tasks.len() == 0 {
            c.append("No tasks to display.");
            c.append("\n");
            return ScheduleFile { file_name: self.export_file_name(), content: c };
        }
        c.append(export_header_line().as_str());
        c.append("\n");
        c.append(dashes(80).as_str());
        c.append("\n");
        let ghost head = c@;
        let ghost tv = self@.tasks;
        assert(tv.subrange(0, 0) =~= Seq::<TaskView>::empty());
        let mut i: usize = 0;
        while i < self.tasks.len()
            invariant
                i <= self.tasks.len(),
                tv == self@.tasks,
                tv.len() == self.tasks.len(),
                c@ == head + export_rows(tv.subrange(0, i as int)),
            decreases self.tasks.len() - i,
        {
            let line = self.tasks[i].export_line();
            c.append(line.as_str());
            c.append("\n");
            assert(tv[i as int] == self.tasks@[i as int]@);
            assert(tv.subrange(0, i + 1).drop_last() =~= tv.subrange(0, i as int));
            assert(c@ =~= head + export_rows(tv.subrange(0, i + 1)));
            i = i + 1;
        }
        assert(tv.subrange(0, tv.len() as int) == tv);
        assert(c@ =~= export_text(self@));
        ScheduleFile { file_name: self.export_file_name(), content: c }
    }
}

} // verus!
