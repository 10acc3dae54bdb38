use crate::calendar::{date_of_text, parse_date, parse_time, time_outcome, time_text, utc_parse_of, Date, Timestamp};
use crate::error::TaskError;
use crate::fields::{
    category_named, folded, parse_category, parse_id, parse_name, parse_priority, priority_named,
    text_to_u16, u16_of_text, Category, Priority,
};
use crate::text::{trim_of, trimmed};
use vstd::prelude::*;

verus! {

/// One scheduled activity.
pub struct Task {
    pub id: u16,
    pub name: String,
    pub priority: Priority,
    pub category: Category,
    pub start_time: Timestamp,
    pub end_time: Timestamp,
}

/// A task as a value: its name as a sequence of characters.
pub struct TaskView {
    pub id: u16,
    pub name: Seq<char>,
    pub priority: Priority,
    pub category: Category,
    pub start_time: Timestamp,
    pub end_time: Timestamp,
}

impl View for Task {
    type V = TaskView;

    open spec fn view(&self) -> TaskView {
        TaskView {
            id: self.id,
            name: self.name@,
            priority: self.priority,
            category: self.category,
            start_time: self.start_time,
            end_time: self.end_time,
        }
    }
}

/// The field of a task that an edit targets.
#[derive(Debug, Clone, Copy, PartialEq, Eq, Structural)]
pub enum Field {
    Name,
    Priority,
    Category,
    StartTime,
    EndTime,
}

/// A new value for one field of a task.
pub enum FieldValue {
    Name(String),
    Priority(Priority),
    Category(Category),
    StartTime(Timestamp),
    EndTime(Timestamp),
}

/// A new value for one field of a task, as a value.
pub enum Change {
    Name(Seq<char>),
    Priority(Priority),
    Category(Category),
    StartTime(Timestamp),
    EndTime(Timestamp),
}

impl View for FieldValue {
    type V = Change;

    open spec fn view(&self) -> Change {
        match self {
            FieldValue::Name(s) => Change::Name(s@),
            FieldValue::Priority(p) => Change::Priority(*p),
            FieldValue::Category(c) => Change::Category(*c),
            FieldValue::StartTime(t) => Change::StartTime(*t),
            FieldValue::EndTime(t) => Change::EndTime(*t),
        }
    }
}

impl Change {
    /// The field that the change replaces.
    pub open spec fn field(self) -> Field {
        match self {
            Change::Name(_) => Field::Name,
            Change::Priority(_) => Field::Priority,
            Change::Category(_) => Field::Category,
            Change::StartTime(_) => Field::StartTime,
            Change::EndTime(_) => Field::EndTime,
        }
    }

    /// Clock times are real ones.
    pub open spec fn wf(self) -> bool {
        match self {
            Change::StartTime(t) => t.wf(),
            Change::EndTime(t) => t.wf(),
            _ => true,
        }
    }
}

impl TaskView {
    /// Both clock times are real ones.
    pub open spec fn wf(self) -> bool {
        self.start_time.wf() && self.end_time.wf()
    }

    /// The task with one field replaced.
    pub open spec fn with(self, c: Change) -> TaskView {
        match c {
            Change::Name(n) => TaskView { name: n, ..self },
            Change::Priority(p) => TaskView { priority: p, ..self },
            Change::Category(k) => TaskView { category: k, ..self },
            Change::StartTime(t) => TaskView { start_time: t, ..self },
            Change::EndTime(t) => TaskView { end_time: t, ..self },
        }
    }

    /// Whether two tasks agree on a field.
    pub open spec fn agrees_on(self, other: TaskView, f: Field) -> bool {
        match f {
            Field::Name => self.name == other.name,
            Field::Priority => self.priority == other.priority,
            Field::Category => self.category == other.category,
            Field::StartTime => self.start_time == other.start_time,
            Field::EndTime => self.end_time == other.end_time,
        }
    }
}

/// What an edit of `field` makes of a line typed for the task `t`. Clock
/// times are read on the day the task's own time already falls on.
pub open spec fn edit_outcome(t: TaskView, field: Field, line: Seq<char>) -> Result<Change, TaskError> {
    match field {
        Field::Name => Ok(Change::Name(trim_of(line))),
        Field::Priority => match priority_named(folded(line)) {
            Some(p) => Ok(Change::Priority(p)),
            None => Err(TaskError::InvalidChoice),
        },
        Field::Category => match category_named(folded(line)) {
            Some(c) => Ok(Change::Category(c)),
            None => Err(TaskError::InvalidChoice),
        },
        Field::StartTime => {
            let d = t.start_time.date;
            match time_outcome(d, utc_parse_of(time_text(d, line))) {
                Ok(ts) => Ok(Change::StartTime(ts)),
                Err(e) => Err(e),
            }
        },
        Field::EndTime => {
            let d = t.end_time.date;
            match time_outcome(d, utc_parse_of(time_text(d, line))) {
                Ok(ts) => Ok(Change::EndTime(ts)),
                Err(e) => Err(e),
            }
        },
    }
}

/// The field that the edit menu's choice names: 1 name, 2 priority,
/// 3 category, 4 start time, 5 end time.
pub open spec fn field_of_choice(n: u16) -> Option<Field> {
    if n == 1 {
        Some(Field::Name)
    } else if n == 2 {
        Some(Field::Priority)
    } else if n == 3 {
        Some(Field::Category)
    } else if n == 4 {
        Some(Field::StartTime)
    } else if n == 5 {
        Some(Field::EndTime)
    } else {
        None
    }
}

/// The field that a line typed at the edit menu selects: text that is no
/// number is `InvalidFormat`, a number outside 1 to 5 is `InvalidChoice`.
pub open spec fn field_choice_of(line: Seq<char>) -> Result<Field, TaskError> {
    match u16_of_text(trim_of(line)) {
        None => Err(TaskError::InvalidFormat),
        Some(n) => match field_of_choice(n) {
            Some(f) => Ok(f),
            None => Err(TaskError::InvalidChoice),
        },
    }
}

/// Where the edit dispatcher stands once a task is located: choosing the
/// field, reading a value for the chosen field, or finished.
#[derive(Debug, Clone, Copy, PartialEq, Eq, Structural)]
pub enum EditState {
    SelectField,
    EnterValue(Field),
    Done,
}

/// The field that a line typed at the edit menu selects.
pub fn parse_field_choice(line: &str) -> (r: Result<Field, TaskError>)
    ensures
        r == field_choice_of(line@),
{
    let n = match parse_id(line) {
        Ok(n) => n,
        Err(e) => return Err(e),
    };
    if n == 1 {
        Ok(Field::Name)
    } else if n == 2 {
        Ok(Field::Priority)
    } else if n == 3 {
        Ok(Field::Category)
    } else if n == 4 {
        Ok(Field::StartTime)
    } else if n == 5 {
        Ok(Field::EndTime)
    } else {
        Err(TaskError::InvalidChoice)
    }
}

/// Whether `i` is the first position of a task with the id `id`.
pub open spec fn is_first_index(tasks: Seq<TaskView>, id: u16, i: int) -> bool {
    &&& 0 <= i < tasks.len()
    &&& tasks[i].id == id
    &&& forall|j: int| 0 <= j < i ==> tasks[j].id != id
}

pub open spec fn holds_id(tasks: Seq<TaskView>, id: u16) -> bool {
    exists|i: int| 0 <= i < tasks.len() && tasks[i].id == id
}

/// The registry as a value.
pub struct Registry {
    pub date: Date,
    pub tasks: Seq<TaskView>,
    pub next_id: int,
}

/// One operation on the registry: a creation with its fields, a deletion
/// by id, a one-field edit by id, or a change of the day.
pub enum Command {
    Create(Seq<char>, Priority, Category, Timestamp, Timestamp),
    Delete(u16),
    Edit(u16, Change),
    SetDate(Date),
}

impl Registry {
    /// A fresh registry for the day `date`.
    pub open spec fn empty(date: Date) -> Registry {
        Registry { date, tasks: Seq::empty(), next_id: 1 }
    }

    /// Ids are unique, positive and below the next id; the next id fits a
    /// `u16`; all dates and clock times are real.
    pub open spec fn wf(self) -> bool {
        &&& self.date.wf()
        &&& 1 <= self.next_id <= 65535
        &&& forall|i: int|
            0 <= i < self.tasks.len() ==> 1 <= #[trigger] self.tasks[i].id < self.next_id
                && self.tasks[i].wf()
        &&& forall|i: int, j: int|
            0 <= i < j < self.tasks.len() ==> #[trigger] self.tasks[i].id != #[trigger] self.tasks[j].id
    }

    /// Where the task with the id `id` stands, or why there is none.
    pub open spec fn lookup(self, id: u16) -> Result<int, TaskError> {
        if self.tasks.len() == 0 {
            Err(TaskError::EmptyRegistry)
        } else if holds_id(self.tasks, id) {
            Ok(choose|i: int| is_first_index(self.tasks, id, i))
        } else {
            Err(TaskError::NotFound)
        }
    }

    /// The registry after a creation: the task gets the next id, which then grows by one.
    pub open spec fn created(
        self,
        name: Seq<char>,
        priority: Priority,
        category: Category,
        start_time: Timestamp,
        end_time: Timestamp,
    ) -> Registry {
        Registry {
            tasks: self.tasks.push(
                TaskView { id: self.next_id as u16, name, priority, category, start_time, end_time },
            ),
            next_id: self.next_id + 1,
            ..self
        }
    }

    /// The registry after the task with the id `id`, if any, is taken out.
    pub open spec fn deleted(self, id: u16) -> Registry {
        match self.lookup(id) {
            Ok(i) => Registry { tasks: self.tasks.remove(i), ..self },
            Err(_) => self,
        }
    }

    /// The registry after one field of the task with the id `id`, if any, is replaced.
    pub open spec fn edited(self, id: u16, c: Change) -> Registry {
        match self.lookup(id) {
            Ok(i) => self.updated(i, c),
            Err(_) => self,
        }
    }

    /// The registry after one field of the task at `i` is replaced.
    pub open spec fn updated(self, i: int, c: Change) -> Registry {
        Registry { tasks: self.tasks.update(i, self.tasks[i].with(c)), ..self }
    }

    pub open spec fn apply(self, cmd: Command) -> Registry {
        match cmd {
            Command::Create(n, p, c, s, e) => self.created(n, p, c, s, e),
            Command::Delete(id) => self.deleted(id),
            Command::Edit(id, c) => self.edited(id, c),
            Command::SetDate(d) => Registry { date: d, ..self },
        }
    }

    /// The registry after a run of commands.
    pub open spec fn run(self, cmds: Seq<Command>) -> Registry
        decreases cmds.len(),
    {
        if cmds.len() == 0 {
            self
        } else {
            self.apply(cmds[0]).run(cmds.subrange(1, cmds.len() as int))
        }
    }

    /// The ids that the creations of a run of commands receive, in order.
    pub open spec fn created_ids(self, cmds: Seq<Command>) -> Seq<int>
        decreases cmds.len(),
    {
        if cmds.len() == 0 {
            Seq::empty()
        } else {
            let rest = self.apply(cmds[0]).created_ids(cmds.subrange(1, cmds.len() as int));
            match cmds[0] {
                Command::Create(..) => seq![self.next_id] + rest,
                _ => rest,
            }
        }
    }
}

/// How many creations a run of commands holds.
pub open spec fn creations(cmds: Seq<Command>) -> nat
    decreases cmds.len(),
{
    if cmds.len() == 0 {
        0
    } else {
        let rest = creations(cmds.subrange(1, cmds.len() as int));
        match cmds[0] {
            Command::Create(..) => rest + 1,
            _ => rest,
        }
    }
}

/// The tasks of one day, and the counter that hands out their ids.
pub struct TaskManager {
    pub date: Date,
    pub tasks: Vec<Task>,
    pub next_id: u16,
}

impl View for TaskManager {
    type V = Registry;

    open spec fn view(&self) -> Registry {
        Registry {
            date: self.date,
            tasks: self.tasks@.map_values(|t: Task| t@),
            next_id: self.next_id as int,
        }
    }
}

impl TaskManager {
    /// The main menu's choice, 1 to 6, that a line names.
    pub fn get_user_input(line: &str) -> (r: Option<u8>)
        ensures
            r == (match u16_of_text(trim_of(line@)) {
                Some(n) => if 1 <= n <= 6 {
                    Some(n as u8)
                } else {
                    None
                },
                None => None,
            }),
    {
        match text_to_u16(trimmed(line)) {
            Some(n) => if 1 <= n && n <= 6 {
                Some(n as u8)
            } else {
                None
            },
            None => None,
        }
    }

    /// An empty registry for the day `date`; ids start at 1.
    pub fn new(date: Date) -> (r: TaskManager)
        ensures
            r@ == Registry::empty(date),
            date.wf() ==> r@.wf(),
    {
        let r = TaskManager { date, tasks: Vec::new(), next_id: 1 };
        assert(r@.tasks =~= Seq::<TaskView>::empty());
        r
    }

    /// Sets the registry's day from a line `YYYY-MM-DD`; on a line that names
    /// no day nothing changes.
    pub fn get_date(&mut self, line: &str) -> (r: Result<(), TaskError>)
        ensures
            match date_of_text(trim_of(line@)) {
                Some(d) => r == Ok::<(), TaskError>(()) && final(self)@ == Registry { date: d, ..old(self)@ },
                None => r == Err::<(), TaskError>(TaskError::InvalidFormat) && final(self)@ == old(self)@,
            },
            old(self)@.wf() ==> final(self)@.wf(),
    {
        match parse_date(line) {
            Ok(d) => {
                self.date = d;
                Ok(())
            },
            Err(e) => Err(e),
        }
    }

    /// Where the task with the id `id` stands: the first position that holds it.
    pub fn find(&self, id: u16) -> (r: Result<usize, TaskError>)
        ensures
            r matches Ok(i) ==> self@.lookup(id) == Ok::<int, TaskError>(i as int)
                && is_first_index(self@.tasks, id, i as int),
            self@.tasks.len() == 0 ==> r == Err::<usize, TaskError>(TaskError::EmptyRegistry),
            self@.tasks.len() > 0 && !holds_id(self@.tasks, id) ==> r == Err::<usize, TaskError>(
                TaskError::NotFound,
            ),
            r matches Err(e) ==> self@.lookup(id) == Err::<int, TaskError>(e),
    {
        if self.tasks.len() == 0 {
            return Err(TaskError::EmptyRegistry);
        }
        let ghost tv = self@.tasks;
        let mut i: usize = 0;
        while i < self.tasks.len()
            invariant
                i <= self.tasks.len(),
                tv == self@.tasks,
                tv.len() == self.tasks.len(),
                forall|j: int| 0 <= j < i ==> tv[j].id != id,
            decreases self.tasks.len() - i,
        {
            if self.tasks[i].id == id {
                assert(tv[i as int].id == id);
                assert(is_first_index(tv, id, i as int));
                assert(holds_id(tv, id));
                let ghost k = choose|k: int| is_first_index(tv, id, k);
                assert(k == i) by {
                    if k < i {
                        assert(tv[k].id != id);
                    } else if k > i {
                        assert(tv[i as int].id != id);
                    }
                }
                return Ok(i);
            }
            i = i + 1;
        }
        assert(!holds_id(tv, id));
        Err(TaskError::NotFound)
    }

    /// The task that a line typed as an id points to: an empty registry is
    /// reported first, then text that is no number, then an id that no task has.
    pub fn validate_id(&self, line: &str) -> (r: Result<usize, TaskError>)
        ensures
            self@.tasks.len() == 0 ==> r == Err::<usize, TaskError>(TaskError::EmptyRegistry),
            self@.tasks.len() > 0 ==> match u16_of_text(trim_of(line@)) {
                None => r == Err::<usize, TaskError>(TaskError::InvalidFormat),
                Some(id) => match self@.lookup(id) {
                    Ok(i) => r == Ok::<usize, TaskError>(i as usize),
                    Err(e) => r == Err::<usize, TaskError>(e),
                },
            },
    {
        if self.tasks.len() == 0 {
            return Err(TaskError::EmptyRegistry);
        }
        let id = match parse_id(line) {
            Ok(id) => id,
            Err(e) => return Err(e),
        };
        self.find(id)
    }

    /// Appends a task with the next id, advances the counter, and returns the id.
    pub fn add_task(
        &mut self,
        name: String,
        priority: Priority,
        category: Category,
        start_time: Timestamp,
        end_time: Timestamp,
    ) -> (r: u16)
        requires
            old(self)@.wf(),
            old(self).next_id < 65535,
            start_time.wf(),
            end_time.wf(),
            start_time.date == old(self).date,
            end_time.date == old(self).date,
        ensures
            r == old(self).next_id,
            final(self)@ == old(self)@.created(name@, priority, category, start_time, end_time),
            final(self)@.wf(),
    {
        let id = self.next_id;
        let ghost name_view = name@;
        let task = Task { id, name, priority, category, start_time, end_time };
        let ghost before = self@;
        self.tasks.push(task);
        self.next_id = id + 1;
        assert(self@.tasks =~= before.tasks.push(task@));
        assert(self@ == before.created(name_view, priority, category, start_time, end_time));
        id
    }

    /// Takes out the task with the id `id`; the others keep their ids and order.
    pub fn remove_task(&mut self, id: u16) -> (r: Result<Task, TaskError>)
        ensures
            final(self)@ == old(self)@.deleted(id),
            match old(self)@.lookup(id) {
                Ok(i) => r matches Ok(t) && t@ == old(self)@.tasks[i],
                Err(e) => r matches Err(x) && x == e,
            },
            old(self)@.wf() ==> final(self)@.wf(),
    {
        let ghost before = self@;
        match self.find(id) {
            Ok(i) => {
                let t = self.tasks.remove(i);
                assert(self@.tasks =~= before.tasks.remove(i as int));
                proof {
                    if before.wf() {
                        assert forall|a: int, b: int|
                            0 <= a < b < self@.tasks.len() implies #[trigger] self@.tasks[a].id
                            != #[trigger] self@.tasks[b].id by {
                            let a0 = if a < i { a } else { a + 1 };
                            let b0 = if b < i { b } else { b + 1 };
                            assert(before.tasks[a0].id != before.tasks[b0].id);
                        }
                        assert forall|a: int| 0 <= a < self@.tasks.len() implies 1
                            <= #[trigger] self@.tasks[a].id < self@.next_id
                            && self@.tasks[a].wf() by {
                            let a0 = if a < i { a } else { a + 1 };
                            assert(before.tasks[a0] == self@.tasks[a]);
                        }
                    }
                }
                Ok(t)
            },
            Err(e) => Err(e),
        }
    }

    /// Replaces one field of the task with the id `id`; every other field and
    /// every other task stays as it was.
    pub fn update_field(&mut self, id: u16, value: FieldValue) -> (r: Result<(), TaskError>)
        requires
            value@.wf(),
        ensures
            match old(self)@.lookup(id) {
                Ok(i) => r == Ok::<(), TaskError>(()) && final(self)@ == old(self)@.updated(i, value@),
                Err(e) => r == Err::<(), TaskError>(e) && final(self)@ == old(self)@,
            },
            final(self)@ == old(self)@.edited(id, value@),
            old(self)@.wf() ==> final(self)@.wf(),
    {
        let ghost before = self@;
        let ghost change = value@;
        let i = match self.find(id) {
            Ok(i) => i,
            Err(e) => return Err(e),
        };
        match value {
            FieldValue::Name(s) => {
                self.tasks[i].name = s;
            },
            FieldValue::Priority(p) => {
                self.tasks[i].priority = p;
            },
            FieldValue::Category(c) => {
                self.tasks[i].category = c;
            },
            FieldValue::StartTime(t) => {
                self.tasks[i].start_time = t;
            },
            FieldValue::EndTime(t) => {
                self.tasks[i].end_time = t;
            },
        }
        assert(self@.tasks =~= before.tasks.update(i as int, before.tasks[i as int].with(change)));
        assert(self@ == before.updated(i as int, change));
        proof {
            if before.wf() {
                assert forall|a: int, b: int|
                    0 <= a < b < self@.tasks.len() implies #[trigger] self@.tasks[a].id
                    != #[trigger] self@.tasks[b].id by {
                    assert(before.tasks[a].id != before.tasks[b].id);
                }
                assert forall|a: int| 0 <= a < self@.tasks.len() implies 1
                    <= #[trigger] self@.tasks[a].id < self@.next_id && self@.tasks[a].wf() by {
                    assert(before.tasks[a].id == self@.tasks[a].id);
                    assert(before.tasks[a].wf());
                }
            }
        }
        Ok(())
    }

    /// Reads a new value for one field of the task with the id `id` from a
    /// line and commits it; a line that does not fit the field changes nothing.
    pub fn edit_task(&mut self, id: u16, field: Field, line: &str) -> (r: Result<(), TaskError>)
        requires
            old(self)@.wf(),
        ensures
            final(self)@.wf(),
            match old(self)@.lookup(id) {
                Ok(i) => match edit_outcome(old(self)@.tasks[i], field, line@) {
                    Ok(c) => r == Ok::<(), TaskError>(()) && final(self)@ == old(self)@.updated(i, c),
                    Err(e) => r == Err::<(), TaskError>(e) && final(self)@ == old(self)@,
                },
                Err(e) => r == Err::<(), TaskError>(e) && final(self)@ == old(self)@,
            },
    {
        let i = match self.find(id) {
            Ok(i) => i,
            Err(e) => return Err(e),
        };
        let value = match self.tasks[i].parse_field(field, line) {
            Ok(v) => v,
            Err(e) => return Err(e),
        };
        self.update_field(id, value)
    }

    /// One step of the edit dispatcher for the task with the id `id`: a line
    /// read in `state` gives the next state and what came of the line. A
    /// choice outside the menu keeps the dispatcher at the menu, a value that
    /// does not fit the field asks for the field again, and neither changes
    /// a task; a valid value is committed and ends the edit, as does a task
    /// that is no longer there.
    pub fn edit_step(&mut self, id: u16, state: EditState, line: &str) -> (r: (
        EditState,
        Result<(), TaskError>,
    ))
        requires
            old(self)@.wf(),
        ensures
            final(self)@.wf(),
            match state {
                EditState::SelectField => final(self)@ == old(self)@ && match field_choice_of(line@) {
                    Ok(f) => r == (EditState::EnterValue(f), Ok::<(), TaskError>(())),
                    Err(e) => r == (EditState::SelectField, Err::<(), TaskError>(e)),
                },
                EditState::EnterValue(f) => match old(self)@.lookup(id) {
                    Ok(i) => match edit_outcome(old(self)@.tasks[i], f, line@) {
                        Ok(c) => r == (EditState::Done, Ok::<(), TaskError>(())) && final(self)@
                            == old(self)@.updated(i, c),
                        Err(e) => r == (EditState::EnterValue(f), Err::<(), TaskError>(e))
                            && final(self)@ == old(self)@,
                    },
                    Err(e) => r == (EditState::Done, Err::<(), TaskError>(e)) && final(self)@ == old(
                        self,
                    )@,
                },
                EditState::Done => r == (EditState::Done, Ok::<(), TaskError>(())) && final(self)@
                    == old(self)@,
            },
    {
        match state {
            EditState::SelectField => match parse_field_choice(line) {
                Ok(f) => (EditState::EnterValue(f), Ok(())),
                Err(e) => (EditState::SelectField, Err(e)),
            },
            EditState::EnterValue(f) => {
                let r = self.edit_task(id, f, line);
                match r {
                    Ok(()) => (EditState::Done, Ok(())),
                    Err(e) => {
                        if e == TaskError::NotFound || e == TaskError::EmptyRegistry {
                            (EditState::Done, Err(e))
                        } else {
                            (EditState::EnterValue(f), Err(e))
                        }
                    },
                }
            },
            EditState::Done => (EditState::Done, Ok(())),
        }
    }
}

impl Task {
    /// The new value that a line gives for one field of the task. Clock
    /// times are read on the day the task's own time falls on.
    pub fn parse_field(&self, field: Field, line: &str) -> (r: Result<FieldValue, TaskError>)
        requires
            self@.wf(),
        ensures
            match edit_outcome(self@, field, line@) {
                Ok(c) => r matches Ok(v) && v@ == c,
                Err(e) => r matches Err(x) && x == e,
            },
            r matches Ok(v) ==> v@.wf(),
    {
        match field {
            Field::Name => Ok(FieldValue::Name(parse_name(line))),
            Field::Priority => match parse_priority(line) {
                Ok(p) => Ok(FieldValue::Priority(p)),
                Err(e) => Err(e),
            },
            Field::Category => match parse_category(line) {
                Ok(c) => Ok(FieldValue::Category(c)),
                Err(e) => Err(e),
            },
            Field::StartTime => match parse_time(&self.start_time.date, line) {
                Ok(t) => Ok(FieldValue::StartTime(t)),
                Err(e) => Err(e),
            },
            Field::EndTime => match parse_time(&self.end_time.date, line) {
                Ok(t) => Ok(FieldValue::EndTime(t)),
                Err(e) => Err(e),
            },
        }
    }
}

} // verus!
