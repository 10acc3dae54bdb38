use crate::calendar::{clock_text_spec, Timestamp};
use crate::digits::lemma_fixed_digits_len;
use crate::registry::{
    creations, holds_id, is_first_index, Change, Command, Field, Registry, TaskView,
};
use crate::calendar::date_text_spec;
use crate::digits::{digit_char, fixed_digits_spec};
use crate::render::{export_head, export_header, export_row, export_rows, export_text};
use crate::text::repeat_char;
use crate::text::pad_right_spec;
use vstd::prelude::*;

verus! {

/// Each creation in a run of commands receives the registry's next id, one
/// more than the creation before it, whatever deletions, edits and changes
/// of day come between; the next id ends one past the last.
pub proof fn lemma_ids_follow_creations(m: Registry, cmds: Seq<Command>)
    ensures
        m.created_ids(cmds) == Seq::new(creations(cmds), |k: int| m.next_id + k),
        m.run(cmds).next_id == m.next_id + creations(cmds),
    decreases cmds.len(),
{
    if cmds.len() > 0 {
        let rest = cmds.subrange(1, cmds.len() as int);
        let m1 = m.apply(cmds[0]);
        lemma_ids_follow_creations(m1, rest);
        match cmds[0] {
            Command::Create(..) => {
                assert(m.created_ids(cmds) =~= Seq::new(creations(cmds), |k: int| m.next_id + k));
            },
            _ => {
                assert(m1.next_id == m.next_id);
                assert(m.created_ids(cmds) =~= Seq::new(creations(cmds), |k: int| m.next_id + k));
            },
        }
    }
}

/// From a fresh registry, the creations of any run of commands receive the
/// ids 1, 2, ..., N in order, and the next id is N + 1, whatever else the
/// run holds.
pub proof fn lemma_fresh_ids_count_from_one(date: crate::calendar::Date, cmds: Seq<Command>)
    ensures
        Registry::empty(date).created_ids(cmds) == Seq::new(creations(cmds), |k: int| k + 1),
        Registry::empty(date).run(cmds).next_id == creations(cmds) + 1,
{
    lemma_ids_follow_creations(Registry::empty(date), cmds);
    assert(Registry::empty(date).created_ids(cmds) =~= Seq::new(
        creations(cmds),
        |k: int| k + 1,
    ));
}

/// Deleting a task by id keeps every other task, with its id, and adds
/// none; the next id stays, so no later creation receives the deleted id.
pub proof fn lemma_delete_keeps_ids(m: Registry, id: u16, cmds: Seq<Command>)
    requires
        m.wf(),
        holds_id(m.tasks, id),
    ensures
        forall|t| #[trigger] m.tasks.contains(t) && t.id != id ==> m.deleted(id).tasks.contains(t),
        forall|t| #[trigger] m.deleted(id).tasks.contains(t) ==> m.tasks.contains(t) && t.id != id,
        m.deleted(id).next_id == m.next_id,
        !m.deleted(id).created_ids(cmds).contains(id as int),
{
    let k = choose|k: int| 0 <= k < m.tasks.len() && m.tasks[k].id == id;
    assert(is_first_index(m.tasks, id, k)) by {
        assert forall|j: int| 0 <= j < k implies m.tasks[j].id != id by {
            assert(m.tasks[j].id != m.tasks[k].id);
        }
    }
    let i = choose|i: int| is_first_index(m.tasks, id, i);
    assert(i == k) by {
        if i < k {
            assert(m.tasks[i].id != m.tasks[k].id);
        } else if i > k {
            assert(m.tasks[k].id != m.tasks[i].id);
        }
    }
    let d = m.deleted(id);
    assert(d.tasks == m.tasks.remove(i));
    assert forall|t| #[trigger] m.tasks.contains(t) && t.id != id implies d.tasks.contains(t) by {
        let j = choose|j: int| 0 <= j < m.tasks.len() && m.tasks[j] == t;
        if j < i {
            assert(d.tasks[j] == t);
        } else {
            assert(j != i);
            assert(d.tasks[j - 1] == t);
        }
    }
    assert forall|t| #[trigger] d.tasks.contains(t) implies m.tasks.contains(t) && t.id != id by {
        let j = choose|j: int| 0 <= j < d.tasks.len() && d.tasks[j] == t;
        let j0 = if j < i { j } else { j + 1 };
        assert(m.tasks[j0] == t);
        if j0 < i {
            assert(m.tasks[j0].id != m.tasks[i].id);
        } else {
            assert(m.tasks[i].id != m.tasks[j0].id);
        }
    }
    lemma_ids_follow_creations(d, cmds);
    assert(m.tasks[i].id < m.next_id);
    if d.created_ids(cmds).contains(id as int) {
        let j = choose|j: int|
            0 <= j < d.created_ids(cmds).len() && d.created_ids(cmds)[j] == id as int;
        assert(d.created_ids(cmds)[j] == d.next_id + j);
    }
}

/// Replacing one field of a task leaves its id, its other fields, the
/// other tasks, the day and the next id as they were.
pub proof fn lemma_update_touches_one_field(m: Registry, i: int, c: Change)
    requires
        0 <= i < m.tasks.len(),
    ensures
        m.updated(i, c).tasks.len() == m.tasks.len(),
        m.updated(i, c).tasks[i].id == m.tasks[i].id,
        forall|f: Field| f != c.field() ==> #[trigger] m.updated(i, c).tasks[i].agrees_on(m.tasks[i], f),
        forall|j: int|
            0 <= j < m.tasks.len() && j != i ==> #[trigger] m.updated(i, c).tasks[j] == m.tasks[j],
        m.updated(i, c).date == m.date,
        m.updated(i, c).next_id == m.next_id,
{
}

proof fn lemma_clock_text_len(t: Timestamp)
    ensures
        clock_text_spec(t).len() == 5,
{
    lemma_fixed_digits_len(t.hour as nat, 2);
    lemma_fixed_digits_len(t.minute as nat, 2);
}

/// A saved row read back by fixed columns gives each field of the task,
/// padded to its width: the start in columns 0 to 7, the end in 9 to 16,
/// the name in 18 to 37, the priority in 39 to 47 and the category in 49
/// to 63, one space between columns. It holds of names up to 20 characters;
/// a longer name pushes the later columns right.
pub proof fn lemma_export_row_columns(t: TaskView)
    requires
        t.name.len() <= 20,
    ensures
        export_row(t).len() == 64,
        export_row(t).subrange(0, 8) == pad_right_spec(clock_text_spec(t.start_time), 8),
        export_row(t).subrange(9, 17) == pad_right_spec(clock_text_spec(t.end_time), 8),
        export_row(t).subrange(18, 38) == pad_right_spec(t.name, 20),
        export_row(t).subrange(39, 48) == pad_right_spec(t.priority.label(), 9),
        export_row(t).subrange(49, 64) == pad_right_spec(t.category.label(), 15),
        export_row(t).subrange(18, 18 + t.name.len() as int) == t.name,
{
    reveal_strlit(" ");
    reveal_strlit("High");
    reveal_strlit("Medium");
    reveal_strlit("Low");
    reveal_strlit("Work");
    reveal_strlit("Personal");
    reveal_strlit("Health");
    reveal_strlit("Education");
    reveal_strlit("Leisure");
    reveal_strlit("Household");
    lemma_clock_text_len(t.start_time);
    lemma_clock_text_len(t.end_time);
    let a = pad_right_spec(clock_text_spec(t.start_time), 8);
    let b = pad_right_spec(clock_text_spec(t.end_time), 8);
    let n = pad_right_spec(t.name, 20);
    let p = pad_right_spec(t.priority.label(), 9);
    let c = pad_right_spec(t.category.label(), 15);
    assert(a.len() == 8 && b.len() == 8 && n.len() == 20 && p.len() == 9 && c.len() == 15);
    let r = export_row(t);
    assert(r == a + " "@ + b + " "@ + n + " "@ + p + " "@ + c);
    assert(r.subrange(0, 8) =~= a);
    assert(r.subrange(9, 17) =~= b);
    assert(r.subrange(18, 38) =~= n);
    assert(r.subrange(39, 48) =~= p);
    assert(r.subrange(49, 64) =~= c);
    assert(n.subrange(0, t.name.len() as int) =~= t.name);
    assert(r.subrange(18, 18 + t.name.len() as int) =~= t.name);
}

/// A text without line breaks.
pub open spec fn no_break(s: Seq<char>) -> bool {
    forall|i: int| 0 <= i < s.len() ==> s[i] != '\n'
}

proof fn lemma_no_break_concat(a: Seq<char>, b: Seq<char>)
    requires
        no_break(a),
        no_break(b),
    ensures
        no_break(a + b),
{
    assert forall|i: int| 0 <= i < (a + b).len() implies (a + b)[i] != '\n' by {
        if i >= a.len() {
            assert((a + b)[i] == b[i - a.len()]);
        }
    }
}

proof fn lemma_pad_no_break(s: Seq<char>, w: nat)
    requires
        no_break(s),
    ensures
        no_break(pad_right_spec(s, w)),
{
    if s.len() < w {
        lemma_no_break_concat(s, repeat_char(' ', (w - s.len()) as nat));
    }
}

proof fn lemma_fixed_digits_no_break(n: nat, w: nat)
    ensures
        no_break(fixed_digits_spec(n, w)),
    decreases w,
{
    if w > 0 {
        lemma_fixed_digits_no_break(n / 10, (w - 1) as nat);
        let d = digit_char((n % 10) as int);
        assert(d != '\n');
        lemma_no_break_concat(fixed_digits_spec(n / 10, (w - 1) as nat), seq![d]);
    }
}

proof fn lemma_literals_no_break()
    ensures
        no_break(" "@),
        no_break("START"@),
        no_break("END"@),
        no_break("NAME"@),
        no_break("PRIORITY"@),
        no_break("CATEGORY"@),
        no_break("High"@),
        no_break("Medium"@),
        no_break("Low"@),
        no_break("Work"@),
        no_break("Personal"@),
        no_break("Health"@),
        no_break("Education"@),
        no_break("Leisure"@),
        no_break("Household"@),
        "\n"@ == seq!['\n'],
{
    reveal_strlit(" ");
    reveal_strlit("START");
    reveal_strlit("END");
    reveal_strlit("NAME");
    reveal_strlit("PRIORITY");
    reveal_strlit("CATEGORY");
    reveal_strlit("High");
    reveal_strlit("Medium");
    reveal_strlit("Low");
    reveal_strlit("Work");
    reveal_strlit("Personal");
    reveal_strlit("Health");
    reveal_strlit("Education");
    reveal_strlit("Leisure");
    reveal_strlit("Household");
    reveal_strlit("\n");
    assert("\n"@ =~= seq!['\n']);
}

proof fn lemma_clock_no_break(t: Timestamp)
    ensures
        no_break(clock_text_spec(t)),
{
    lemma_fixed_digits_no_break(t.hour as nat, 2);
    lemma_fixed_digits_no_break(t.minute as nat, 2);
    lemma_no_break_concat(fixed_digits_spec(t.hour as nat, 2), seq![':']);
    lemma_no_break_concat(
        fixed_digits_spec(t.hour as nat, 2) + seq![':'],
        fixed_digits_spec(t.minute as nat, 2),
    );
}

/// A saved row has no line break of its own where the name has none.
pub proof fn lemma_export_row_no_break(t: TaskView)
    requires
        no_break(t.name),
    ensures
        no_break(export_row(t)),
{
    lemma_literals_no_break();
    lemma_clock_no_break(t.start_time);
    lemma_clock_no_break(t.end_time);
    let a = pad_right_spec(clock_text_spec(t.start_time), 8);
    let b = pad_right_spec(clock_text_spec(t.end_time), 8);
    let n = pad_right_spec(t.name, 20);
    let p = pad_right_spec(t.priority.label(), 9);
    let c = pad_right_spec(t.category.label(), 15);
    lemma_pad_no_break(clock_text_spec(t.start_time), 8);
    lemma_pad_no_break(clock_text_spec(t.end_time), 8);
    lemma_pad_no_break(t.name, 20);
    lemma_pad_no_break(t.priority.label(), 9);
    lemma_pad_no_break(t.category.label(), 15);
    let sp = " "@;
    lemma_no_break_concat(a, sp);
    lemma_no_break_concat(a + sp, b);
    lemma_no_break_concat(a + sp + b, sp);
    lemma_no_break_concat(a + sp + b + sp, n);
    lemma_no_break_concat(a + sp + b + sp + n, sp);
    lemma_no_break_concat(a + sp + b + sp + n + sp, p);
    lemma_no_break_concat(a + sp + b + sp + n + sp + p, sp);
    lemma_no_break_concat(a + sp + b + sp + n + sp + p + sp, c);
}

/// The rows of a saved table, for names of up to 20 characters: row `j`
/// stands at `65 * j`, 64 characters long, followed by a line break.
pub proof fn lemma_export_rows_layout(tasks: Seq<TaskView>)
    requires
        forall|j: int| 0 <= j < tasks.len() ==> (#[trigger] tasks[j]).name.len() <= 20,
    ensures
        export_rows(tasks).len() == 65 * tasks.len(),
        forall|j: int|
            0 <= j < tasks.len() ==> export_rows(tasks).subrange(65 * j, 65 * j + 64) == export_row(
                #[trigger] tasks[j],
            ) && export_rows(tasks)[65 * j + 64] == '\n',
    decreases tasks.len(),
{
    if tasks.len() > 0 {
        let prev = tasks.drop_last();
        lemma_export_rows_layout(prev);
        lemma_literals_no_break();
        lemma_export_row_columns(tasks.last());
        let r = export_rows(tasks);
        let n = tasks.len() - 1;
        assert(r == export_rows(prev) + export_row(tasks.last()) + "\n"@);
        assert forall|j: int| 0 <= j < tasks.len() implies r.subrange(65 * j, 65 * j + 64)
            == export_row(#[trigger] tasks[j]) && r[65 * j + 64] == '\n' by {
            if j < n {
                assert(65 * j + 65 <= 65 * n) by (nonlinear_arith)
                    requires
                        j < n,
                ;
                assert(prev[j] == tasks[j]);
                assert(r.subrange(65 * j, 65 * j + 64) =~= export_rows(prev).subrange(
                    65 * j,
                    65 * j + 64,
                ));
                assert(r[65 * j + 64] == export_rows(prev)[65 * j + 64]);
            } else {
                assert(r.subrange(65 * j, 65 * j + 64) =~= export_row(tasks[j]));
            }
        }
    }
}

/// How a saved schedule with tasks reads back line by line, for names of
/// up to 20 characters without line breaks: the first 158 characters hold
/// the day, a blank line, the header and the dashes, ended by the line
/// breaks at 10, 11, 76 and 157 and no other; then row `i` stands at
/// `158 + 65 * i`, 64 characters without a line break, ended by one. So line
/// `4 + i` of the file is row `i`, whose columns the row law gives.
pub proof fn lemma_export_lines(m: Registry)
    requires
        m.date.wf(),
        m.tasks.len() > 0,
        forall|j: int|
            0 <= j < m.tasks.len() ==> (#[trigger] m.tasks[j]).name.len() <= 20 && no_break(
                m.tasks[j].name,
            ),
    ensures
        export_text(m).len() == 158 + 65 * m.tasks.len(),
        forall|p: int|
            0 <= p < 158 ==> (#[trigger] export_text(m)[p] == '\n' <==> (p == 10 || p == 11 || p
                == 76 || p == 157)),
        forall|i: int|
            0 <= i < m.tasks.len() ==> export_text(m).subrange(158 + 65 * i, 158 + 65 * i + 64)
                == export_row(#[trigger] m.tasks[i]) && no_break(export_row(m.tasks[i]))
                && export_text(m)[158 + 65 * i + 64] == '\n',
{
    lemma_literals_no_break();
    let d = date_text_spec(m.date);
    lemma_fixed_digits_len(m.date.year as nat, 4);
    lemma_fixed_digits_len(m.date.month as nat, 2);
    lemma_fixed_digits_len(m.date.day as nat, 2);
    lemma_fixed_digits_no_break(m.date.year as nat, 4);
    lemma_fixed_digits_no_break(m.date.month as nat, 2);
    lemma_fixed_digits_no_break(m.date.day as nat, 2);
    let y = fixed_digits_spec(m.date.year as nat, 4);
    let mo = fixed_digits_spec(m.date.month as nat, 2);
    let dd = fixed_digits_spec(m.date.day as nat, 2);
    lemma_no_break_concat(y, seq!['-']);
    lemma_no_break_concat(y + seq!['-'], mo);
    lemma_no_break_concat(y + seq!['-'] + mo, seq!['-']);
    lemma_no_break_concat(y + seq!['-'] + mo + seq!['-'], dd);
    assert(d.len() == 10);
    let sp = " "@;
    let h1 = pad_right_spec("START"@, 8);
    let h2 = pad_right_spec("END"@, 8);
    let h3 = pad_right_spec("NAME"@, 20);
    let h4 = pad_right_spec("PRIORITY"@, 9);
    let h5 = pad_right_spec("CATEGORY"@, 15);
    reveal_strlit("START");
    reveal_strlit("END");
    reveal_strlit("NAME");
    reveal_strlit("PRIORITY");
    reveal_strlit("CATEGORY");
    reveal_strlit(" ");
    lemma_pad_no_break("START"@, 8);
    lemma_pad_no_break("END"@, 8);
    lemma_pad_no_break("NAME"@, 20);
    lemma_pad_no_break("PRIORITY"@, 9);
    lemma_pad_no_break("CATEGORY"@, 15);
    lemma_no_break_concat(h1, sp);
    lemma_no_break_concat(h1 + sp, h2);
    lemma_no_break_concat(h1 + sp + h2, sp);
    lemma_no_break_concat(h1 + sp + h2 + sp, h3);
    lemma_no_break_concat(h1 + sp + h2 + sp + h3, sp);
    lemma_no_break_concat(h1 + sp + h2 + sp + h3 + sp, h4);
    lemma_no_break_concat(h1 + sp + h2 + sp + h3 + sp + h4, sp);
    lemma_no_break_concat(h1 + sp + h2 + sp + h3 + sp + h4 + sp, h5);
    let hd = export_header();
    assert(hd == h1 + sp + h2 + sp + h3 + sp + h4 + sp + h5);
    assert(hd.len() == 64);
    let dash = repeat_char('-', 80);
    let nl = "\n"@;
    let head = export_head(m);
    assert(head == d + nl + nl + hd + nl + dash + nl);
    assert(head.len() == 158);
    assert forall|p: int| 0 <= p < 158 implies (head[p] == '\n' <==> (p == 10 || p == 11 || p == 76
        || p == 157)) by {
        if p < 10 {
            assert(head[p] == d[p]);
        } else if 12 <= p < 76 {
            assert(head[p] == hd[p - 12]);
        } else if 77 <= p < 157 {
            assert(head[p] == dash[p - 77]);
        }
    }
    let rows = export_rows(m.tasks);
    lemma_export_rows_layout(m.tasks);
    let t = export_text(m);
    assert(t == head + rows);
    assert forall|p: int| 0 <= p < 158 implies (#[trigger] t[p] == '\n' <==> (p == 10 || p == 11
        || p == 76 || p == 157)) by {
        assert(t[p] == head[p]);
    }
    assert forall|i: int| 0 <= i < m.tasks.len() implies t.subrange(158 + 65 * i, 158 + 65 * i + 64)
        == export_row(#[trigger] m.tasks[i]) && no_break(export_row(m.tasks[i])) && t[158 + 65 * i
        + 64] == '\n' by {
        lemma_export_row_no_break(m.tasks[i]);
        assert(rows.subrange(65 * i, 65 * i + 64) == export_row(m.tasks[i]));
        assert(65 * i + 65 <= 65 * m.tasks.len()) by (nonlinear_arith)
            requires
                i < m.tasks.len(),
        ;
        assert(t.subrange(158 + 65 * i, 158 + 65 * i + 64) =~= rows.subrange(65 * i, 65 * i + 64));
        assert(t[158 + 65 * i + 64] == rows[65 * i + 64]);
    }
}

} // verus!
