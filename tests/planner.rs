use daily_planner::calendar::{date_from_text, parse_date, parse_time, time_from_text, Date, Timestamp};
use daily_planner::error::TaskError;
use daily_planner::fields::{
    parse_category, parse_confirmation, parse_id, parse_name, parse_priority,
    Category, Priority,
};
use daily_planner::registry::{parse_field_choice, EditState, Field, FieldValue, TaskManager};

fn day(y: i32, m: u32, d: u32) -> Date {
    Date::new(y, m, d).unwrap()
}

fn at(date: Date, hour: u32, minute: u32) -> Timestamp {
    Timestamp { date, hour, minute }
}

fn manager_on(y: i32, m: u32, d: u32) -> TaskManager {
    TaskManager::new(day(y, m, d))
}

fn add(m: &mut TaskManager, name: &str, start: &str, end: &str) -> u16 {
    let date = m.date;
    let s = parse_time(&date, start).unwrap();
    let e = parse_time(&date, end).unwrap();
    m.add_task(parse_name(name), Priority::Low, Category::Personal, s, e)
}

fn ids(m: &TaskManager) -> Vec<u16> {
    m.tasks.iter().map(|t| t.id).collect()
}

#[test]
fn standup_task_is_created_with_id_one() {
    let mut m = TaskManager::new(day(1970, 1, 1));
    assert_eq!(m.get_date("2024-03-01\n"), Ok(()));
    let date = m.date;
    assert_eq!(date, day(2024, 3, 1));
    let name = parse_name("Standup\n");
    let priority = parse_priority("high").unwrap();
    let category = parse_category("work").unwrap();
    let start = parse_time(&date, "09:00").unwrap();
    let end = parse_time(&date, "09:15").unwrap();
    let id = m.add_task(name, priority, category, start, end);
    assert_eq!(id, 1);
    let t = &m.tasks[0];
    assert_eq!(t.id, 1);
    assert_eq!(t.name, "Standup");
    assert_eq!(t.priority, Priority::High);
    assert_eq!(t.category, Category::Work);
    assert_eq!(t.start_time, at(day(2024, 3, 1), 9, 0));
    assert_eq!(t.end_time, at(day(2024, 3, 1), 9, 15));
    assert_eq!(m.next_id, 2);
}

#[test]
fn unknown_priority_is_refused_then_low_accepted() {
    assert_eq!(parse_priority("purple"), Err(TaskError::InvalidChoice));
    assert_eq!(parse_priority("Low"), Ok(Priority::Low));
}

#[test]
fn deleted_id_is_not_reused() {
    let mut m = manager_on(2024, 3, 1);
    assert_eq!(add(&mut m, "a", "08:00", "09:00"), 1);
    assert_eq!(add(&mut m, "b", "09:00", "10:00"), 2);
    assert!(m.remove_task(1).is_ok());
    assert_eq!(add(&mut m, "c", "10:00", "11:00"), 3);
    assert_eq!(ids(&m), vec![2, 3]);
}

#[test]
fn out_of_range_edit_choice_is_refused_and_changes_nothing() {
    let mut m = manager_on(2024, 3, 1);
    add(&mut m, "a", "08:00", "09:00");
    assert_eq!(parse_field_choice("7"), Err(TaskError::InvalidChoice));
    assert_eq!(m.tasks[0].name, "a");
    assert_eq!(m.tasks.len(), 1);
    assert_eq!(parse_field_choice("x"), Err(TaskError::InvalidFormat));
    assert_eq!(parse_field_choice(" 1 "), Ok(Field::Name));
    assert_eq!(parse_field_choice("5"), Ok(Field::EndTime));
}

#[test]
fn creations_take_ids_one_to_n_with_deletions_between() {
    let mut m = manager_on(2024, 3, 1);
    assert_eq!(add(&mut m, "a", "08:00", "09:00"), 1);
    assert!(m.remove_task(1).is_ok());
    assert_eq!(add(&mut m, "b", "08:00", "09:00"), 2);
    assert_eq!(add(&mut m, "c", "08:00", "09:00"), 3);
    assert!(m.remove_task(3).is_ok());
    assert_eq!(add(&mut m, "d", "08:00", "09:00"), 4);
    assert_eq!(m.next_id, 5);
}

#[test]
fn deleting_keeps_the_other_ids_and_order() {
    let mut m = manager_on(2024, 3, 1);
    for n in ["a", "b", "c", "d"] {
        add(&mut m, n, "08:00", "09:00");
    }
    let removed = m.remove_task(2).unwrap();
    assert_eq!(removed.id, 2);
    assert_eq!(removed.name, "b");
    assert_eq!(ids(&m), vec![1, 3, 4]);
    assert_eq!(m.tasks[1].name, "c");
    assert_eq!(m.remove_task(2).err(), Some(TaskError::NotFound));
}

#[test]
fn find_on_empty_registry_reports_empty() {
    let m = manager_on(2024, 3, 1);
    assert_eq!(m.find(1), Err(TaskError::EmptyRegistry));
    assert_eq!(m.find(0), Err(TaskError::EmptyRegistry));
    assert_eq!(m.validate_id("1"), Err(TaskError::EmptyRegistry));
    assert_eq!(m.validate_id("abc"), Err(TaskError::EmptyRegistry));
}

#[test]
fn find_of_missing_id_reports_not_found() {
    let mut m = manager_on(2024, 3, 1);
    add(&mut m, "a", "08:00", "09:00");
    add(&mut m, "b", "08:00", "09:00");
    assert_eq!(m.find(3), Err(TaskError::NotFound));
    assert_eq!(m.find(2), Ok(1));
    assert_eq!(m.validate_id(" 9 "), Err(TaskError::NotFound));
    assert_eq!(m.validate_id("two"), Err(TaskError::InvalidFormat));
    assert_eq!(m.validate_id("1\n"), Ok(0));
}

#[test]
fn editing_the_name_keeps_the_other_fields() {
    let mut m = manager_on(2024, 3, 1);
    let date = m.date;
    let s = parse_time(&date, "09:00").unwrap();
    let e = parse_time(&date, "09:15").unwrap();
    m.add_task(parse_name("Standup"), Priority::High, Category::Work, s, e);
    assert_eq!(m.edit_task(1, Field::Name, "  Retro \n"), Ok(()));
    let t = &m.tasks[0];
    assert_eq!(t.name, "Retro");
    assert_eq!(t.id, 1);
    assert_eq!(t.priority, Priority::High);
    assert_eq!(t.category, Category::Work);
    assert_eq!(t.start_time, s);
    assert_eq!(t.end_time, e);
}

#[test]
fn edits_of_each_field() {
    let mut m = manager_on(2024, 3, 1);
    add(&mut m, "a", "08:00", "09:00");
    assert_eq!(m.edit_task(1, Field::Priority, "MEDIUM"), Ok(()));
    assert_eq!(m.tasks[0].priority, Priority::Medium);
    assert_eq!(m.edit_task(1, Field::Priority, "urgent"), Err(TaskError::InvalidChoice));
    assert_eq!(m.tasks[0].priority, Priority::Medium);
    assert_eq!(m.edit_task(1, Field::Category, "Household"), Ok(()));
    assert_eq!(m.tasks[0].category, Category::Household);
    assert_eq!(m.edit_task(1, Field::StartTime, "07:30"), Ok(()));
    assert_eq!(m.tasks[0].start_time, at(day(2024, 3, 1), 7, 30));
    assert_eq!(m.edit_task(1, Field::EndTime, "24:00"), Err(TaskError::InvalidFormat));
    assert_eq!(m.tasks[0].end_time, at(day(2024, 3, 1), 9, 0));
    assert_eq!(m.edit_task(2, Field::Name, "x"), Err(TaskError::NotFound));
}

#[test]
fn edited_time_keeps_the_day_of_the_task() {
    let mut m = manager_on(2024, 3, 1);
    add(&mut m, "a", "08:00", "09:00");
    assert_eq!(m.get_date("2024-03-02"), Ok(()));
    assert_eq!(m.edit_task(1, Field::StartTime, "06:45"), Ok(()));
    assert_eq!(m.tasks[0].start_time, at(day(2024, 3, 1), 6, 45));
}

#[test]
fn update_field_replaces_one_field() {
    let mut m = manager_on(2024, 3, 1);
    add(&mut m, "a", "08:00", "09:00");
    assert_eq!(m.update_field(1, FieldValue::Category(Category::Health)), Ok(()));
    assert_eq!(m.tasks[0].category, Category::Health);
    assert_eq!(m.tasks[0].name, "a");
    assert_eq!(m.update_field(7, FieldValue::Priority(Priority::High)), Err(TaskError::NotFound));
    let mut empty = manager_on(2024, 3, 1);
    assert_eq!(empty.update_field(1, FieldValue::Priority(Priority::High)), Err(TaskError::EmptyRegistry));
    assert_eq!(empty.remove_task(1).err(), Some(TaskError::EmptyRegistry));
}

#[test]
fn empty_listing_is_one_line() {
    let m = manager_on(2024, 3, 1);
    assert_eq!(m.display_schedule(), vec!["No tasks to display.".to_string()]);
}

#[test]
fn listing_has_header_dashes_rows_and_blank_line() {
    let mut m = manager_on(2024, 3, 1);
    let date = m.date;
    let s = parse_time(&date, "09:00").unwrap();
    let e = parse_time(&date, "09:15").unwrap();
    m.add_task(parse_name("Standup"), Priority::High, Category::Work, s, e);
    let lines = m.display_schedule();
    assert_eq!(lines.len(), 4);
    assert_eq!(lines[0], format!("{:<2} {:<8} {:<8} {:<20} {:<9} {:<15} ", "ID", "START", "END", "NAME", "PRIORITY", "CATEGORY"));
    assert_eq!(lines[1], "-".repeat(100));
    assert_eq!(lines[2], " 1 09:00    09:15    Standup              \x1b[31;1mHigh\x1b[0m Work           ");
    assert_eq!(lines[3], "");
}

#[test]
fn saved_rows_read_back_by_columns() {
    let mut m = manager_on(2024, 3, 1);
    let date = m.date;
    let s = parse_time(&date, "09:00").unwrap();
    let e = parse_time(&date, "09:15").unwrap();
    m.add_task(parse_name("Standup"), Priority::High, Category::Work, s, e);
    let s2 = parse_time(&date, "13:05").unwrap();
    let e2 = parse_time(&date, "14:00").unwrap();
    m.add_task(parse_name("Gym"), Priority::Medium, Category::Health, s2, e2);
    let file = m.save_schedule();
    assert_eq!(file.file_name, "2024-03-01.txt");
    let lines: Vec<&str> = file.content.split('\n').collect();
    assert_eq!(lines[0], "2024-03-01");
    assert_eq!(lines[1], "");
    assert_eq!(lines[2], format!("{:<8} {:<8} {:<20} {:<9} {:<15}", "START", "END", "NAME", "PRIORITY", "CATEGORY"));
    assert_eq!(lines[3], "-".repeat(80));
    let expected = [("09:00", "09:15", "Standup", "High", "Work"), ("13:05", "14:00", "Gym", "Medium", "Health")];
    for (k, (st, en, name, pr, ca)) in expected.iter().enumerate() {
        let row = lines[4 + k];
        assert_eq!(row.len(), 64);
        assert_eq!(row[0..8].trim_end(), *st);
        assert_eq!(row[9..17].trim_end(), *en);
        assert_eq!(row[18..38].trim_end(), *name);
        assert_eq!(row[39..48].trim_end(), *pr);
        assert_eq!(row[49..64].trim_end(), *ca);
    }
    assert_eq!(lines[6], "");
    assert_eq!(lines.len(), 7);
}

#[test]
fn saving_an_empty_registry_writes_the_no_tasks_line() {
    let m = manager_on(2023, 12, 31);
    let file = m.save_schedule();
    assert_eq!(file.file_name, "2023-12-31.txt");
    assert_eq!(file.content, "2023-12-31\n\nNo tasks to display.\n");
}

#[test]
fn edit_dispatcher_stays_at_the_menu_on_a_bad_choice() {
    let mut m = manager_on(2024, 3, 1);
    add(&mut m, "a", "08:00", "09:00");
    for line in ["7", "0", "x", ""] {
        let (next, outcome) = m.edit_step(1, EditState::SelectField, line);
        assert_eq!(next, EditState::SelectField);
        assert!(outcome.is_err());
    }
    assert_eq!(m.edit_step(1, EditState::SelectField, "7"), (EditState::SelectField, Err(TaskError::InvalidChoice)));
    assert_eq!(m.tasks[0].name, "a");
    assert_eq!(m.tasks[0].priority, Priority::Low);
    assert_eq!(m.edit_step(1, EditState::SelectField, "2"), (EditState::EnterValue(Field::Priority), Ok(())));
    assert_eq!(
        m.edit_step(1, EditState::EnterValue(Field::Priority), "purple"),
        (EditState::EnterValue(Field::Priority), Err(TaskError::InvalidChoice))
    );
    assert_eq!(m.tasks[0].priority, Priority::Low);
    assert_eq!(m.edit_step(1, EditState::EnterValue(Field::Priority), "High"), (EditState::Done, Ok(())));
    assert_eq!(m.tasks[0].priority, Priority::High);
    assert_eq!(m.edit_step(1, EditState::Done, "3"), (EditState::Done, Ok(())));
    assert_eq!(
        m.edit_step(9, EditState::EnterValue(Field::Name), "b"),
        (EditState::Done, Err(TaskError::NotFound))
    );
    assert_eq!(m.tasks[0].name, "a");
}

#[test]
fn date_text_must_be_exact() {
    assert_eq!(date_from_text("2024-03-01"), Ok(day(2024, 3, 1)));
    assert_eq!(date_from_text(" 2024-03-01"), Err(TaskError::InvalidFormat));
}

#[test]
fn dates_must_be_real_and_shaped() {
    assert_eq!(parse_date("2024-02-29"), Ok(day(2024, 2, 29)));
    assert_eq!(parse_date(" 2000-02-29 \n"), Ok(day(2000, 2, 29)));
    assert_eq!(parse_date("2023-02-29"), Err(TaskError::InvalidFormat));
    assert_eq!(parse_date("1900-02-29"), Err(TaskError::InvalidFormat));
    assert_eq!(parse_date("2024-04-31"), Err(TaskError::InvalidFormat));
    assert_eq!(parse_date("2024-13-01"), Err(TaskError::InvalidFormat));
    assert_eq!(parse_date("2024-3-01"), Err(TaskError::InvalidFormat));
    assert_eq!(parse_date("24-03-01"), Err(TaskError::InvalidFormat));
    assert_eq!(parse_date("2024/03/01"), Err(TaskError::InvalidFormat));
    assert_eq!(parse_date(""), Err(TaskError::InvalidFormat));
}

#[test]
fn get_date_leaves_registry_alone_on_bad_input() {
    let mut m = manager_on(2024, 3, 1);
    assert_eq!(m.get_date("tomorrow"), Err(TaskError::InvalidFormat));
    assert_eq!(m.date, day(2024, 3, 1));
    assert_eq!(m.get_date("0000-01-01"), Ok(()));
    assert_eq!(m.date, day(0, 1, 1));
}

#[test]
fn date_construction_checks_the_calendar() {
    assert!(Date::new(2024, 2, 29).is_some());
    assert!(Date::new(2100, 2, 29).is_none());
    assert!(Date::new(2024, 0, 1).is_none());
    assert!(Date::new(10000, 1, 1).is_none());
    assert!(Date::new(-1, 1, 1).is_none());
    assert!(day(1999, 12, 31).is_valid());
    assert!(!Date { year: 2024, month: 6, day: 31 }.is_valid());
}

#[test]
fn clock_times_are_read_on_the_given_day() {
    let d = day(2024, 3, 1);
    assert_eq!(parse_time(&d, "23:59"), Ok(at(d, 23, 59)));
    assert_eq!(parse_time(&d, " 00:00 \n"), Ok(at(d, 0, 0)));
    assert_eq!(parse_time(&d, "24:00"), Err(TaskError::InvalidFormat));
    assert_eq!(parse_time(&d, "12:60"), Err(TaskError::InvalidFormat));
    assert_eq!(parse_time(&d, "noon"), Err(TaskError::InvalidFormat));
    assert_eq!(parse_time(&d, ""), Err(TaskError::InvalidFormat));
}

#[test]
fn priorities_and_categories_ignore_case() {
    assert_eq!(parse_priority("HIGH"), Ok(Priority::High));
    assert_eq!(parse_priority(" medium\n"), Ok(Priority::Medium));
    assert_eq!(parse_priority(""), Err(TaskError::InvalidChoice));
    assert_eq!(parse_category("WORK"), Ok(Category::Work));
    assert_eq!(parse_category("personal"), Ok(Category::Personal));
    assert_eq!(parse_category("Health"), Ok(Category::Health));
    assert_eq!(parse_category("eDuCaTiOn"), Ok(Category::Education));
    assert_eq!(parse_category("Leisure\n"), Ok(Category::Leisure));
    assert_eq!(parse_category("household"), Ok(Category::Household));
    assert_eq!(parse_category("chores"), Err(TaskError::InvalidChoice));
}

#[test]
fn names_are_trimmed_and_may_be_empty() {
    assert_eq!(parse_name("  Write report \r\n"), "Write report");
    assert_eq!(parse_name("   "), "");
}

#[test]
fn ids_parse_as_u16() {
    assert_eq!(parse_id("42"), Ok(42));
    assert_eq!(parse_id("+7"), Ok(7));
    assert_eq!(parse_id("0"), Ok(0));
    assert_eq!(parse_id("65535"), Ok(65535));
    assert_eq!(parse_id("65536"), Err(TaskError::InvalidFormat));
    assert_eq!(parse_id("-1"), Err(TaskError::InvalidFormat));
    assert_eq!(parse_id("+"), Err(TaskError::InvalidFormat));
    assert_eq!(parse_id("1a"), Err(TaskError::InvalidFormat));
    assert_eq!(parse_id(""), Err(TaskError::InvalidFormat));
}

#[test]
fn main_menu_takes_one_to_six() {
    assert_eq!(TaskManager::get_user_input("1\n"), Some(1));
    assert_eq!(TaskManager::get_user_input(" 6 "), Some(6));
    assert_eq!(TaskManager::get_user_input("0"), None);
    assert_eq!(TaskManager::get_user_input("7"), None);
    assert_eq!(TaskManager::get_user_input("300"), None);
    assert_eq!(TaskManager::get_user_input("add"), None);
}

#[test]
fn confirmation_is_y_or_n() {
    assert_eq!(parse_confirmation("y"), Some(true));
    assert_eq!(parse_confirmation("Y\n"), Some(true));
    assert_eq!(parse_confirmation(" n "), Some(false));
    assert_eq!(parse_confirmation("N"), Some(false));
    assert_eq!(parse_confirmation("yes"), None);
    assert_eq!(parse_confirmation(""), None);
}

#[test]
fn ids_above_nine_fill_the_id_column() {
    let mut m = manager_on(2024, 3, 1);
    for _ in 0..10 {
        add(&mut m, "x", "08:00", "09:00");
    }
    let lines = m.display_schedule();
    assert!(lines[2].starts_with(" 1 08:00"));
    assert!(lines[11].starts_with("10 08:00"));
}

#[test]
fn clock_text_is_read_on_the_day() {
    let d = day(2024, 3, 1);
    assert_eq!(time_from_text(&d, "09:00"), Ok(at(d, 9, 0)));
    assert_eq!(time_from_text(&d, "18:45"), Ok(at(d, 18, 45)));
    assert_eq!(time_from_text(&d, "9:05"), Ok(at(d, 9, 5)));
    assert_eq!(time_from_text(&d, "09-00"), Err(TaskError::InvalidFormat));
    assert_eq!(time_from_text(&d, "09:00 pm"), Err(TaskError::InvalidFormat));
}

#[test]
fn ids_count_creations_across_edits_and_day_changes() {
    let mut m = manager_on(2024, 3, 1);
    assert_eq!(add(&mut m, "a", "08:00", "09:00"), 1);
    assert_eq!(m.edit_task(1, Field::Name, "b"), Ok(()));
    assert_eq!(m.get_date("2024-03-05"), Ok(()));
    assert_eq!(add(&mut m, "c", "08:00", "09:00"), 2);
    assert!(m.remove_task(2).is_ok());
    assert_eq!(m.edit_task(1, Field::EndTime, "10:00"), Ok(()));
    assert_eq!(add(&mut m, "d", "08:00", "09:00"), 3);
    assert_eq!(m.next_id, 4);
    assert_eq!(ids(&m), vec![1, 3]);
    assert_eq!(m.tasks[1].start_time.date, day(2024, 3, 5));
}
