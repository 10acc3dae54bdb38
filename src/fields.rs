use crate::digits::{all_digits, digits_value, is_digit, read_digits};
use crate::error::TaskError;
use crate::text::{lower_of, lowercase, same_text, trim_of, trimmed};
use vstd::prelude::*;

verus! {

/// How urgent a task is.
#[derive(Debug, Clone, Copy, PartialEq, Eq, Structural)]
pub enum Priority {
    High,
    Medium,
    Low,
}

/// What area of life a task belongs to.
#[derive(Debug, Clone, Copy, PartialEq, Eq, Structural)]
pub enum Category {
    Work,
    Personal,
    Health,
    Education,
    Leisure,
    Household,
}

/// The priority whose lower-case name is `s`.
pub open spec fn priority_named(s: Seq<char>) -> Option<Priority> {
    if s == "high"@ {
        Some(Priority::High)
    } else if s == "medium"@ {
        Some(Priority::Medium)
    } else if s == "low"@ {
        Some(Priority::Low)
    } else {
        None
    }
}

/// The category whose lower-case name is `s`.
pub open spec fn category_named(s: Seq<char>) -> Option<Category> {
    if s == "work"@ {
        Some(Category::Work)
    } else if s == "personal"@ {
        Some(Category::Personal)
    } else if s == "health"@ {
        Some(Category::Health)
    } else if s == "education"@ {
        Some(Category::Education)
    } else if s == "leisure"@ {
        Some(Category::Leisure)
    } else if s == "household"@ {
        Some(Category::Household)
    } else {
        None
    }
}

/// A named member of a closed set, or `InvalidChoice`.
pub open spec fn choice<T>(o: Option<T>) -> Result<T, TaskError> {
    match o {
        Some(v) => Ok(v),
        None => Err(TaskError::InvalidChoice),
    }
}

/// The text that a line becomes before it is matched against names:
/// trimmed, then lower-cased.
pub open spec fn folded(line: Seq<char>) -> Seq<char> {
    lower_of(trim_of(line))
}

impl Priority {
    pub open spec fn label(self) -> Seq<char> {
        match self {
            Priority::High => "High"@,
            Priority::Medium => "Medium"@,
            Priority::Low => "Low"@,
        }
    }

    /// The name, wrapped in the terminal's colour codes: red, yellow, green.
    pub open spec fn colored_label(self) -> Seq<char> {
        match self {
            Priority::High => "\x1b[31;1mHigh\x1b[0m"@,
            Priority::Medium => "\x1b[33;1mMedium\x1b[0m"@,
            Priority::Low => "\x1b[32;1mLow\x1b[0m"@,
        }
    }

    /// The priority whose lower-case name is `s`.
    pub fn from_name(s: &str) -> (r: Option<Priority>)
        ensures
            r == priority_named(s@),
    {
        if same_text(s, "high") {
            Some(Priority::High)
        } else if same_text(s, "medium") {
            Some(Priority::Medium)
        } else if same_text(s, "low") {
            Some(Priority::Low)
        } else {
            None
        }
    }

    pub fn name(&self) -> (r: &'static str)
        ensures
            r@ == self.label(),
    {
        match self {
            Priority::High => "High",
            Priority::Medium => "Medium",
            Priority::Low => "Low",
        }
    }

    pub fn colored_name(&self) -> (r: &'static str)
        ensures
            r@ == self.colored_label(),
    {
        match self {
            Priority::High => "\x1b[31;1mHigh\x1b[0m",
            Priority::Medium => "\x1b[33;1mMedium\x1b[0m",
            Priority::Low => "\x1b[32;1mLow\x1b[0m",
        }
    }
}

impl Category {
    pub open spec fn label(self) -> Seq<char> {
        match self {
            Category::Work => "Work"@,
            Category::Personal => "Personal"@,
            Category::Health => "Health"@,
            Category::Education => "Education"@,
            Category::Leisure => "Leisure"@,
            Category::Household => "Household"@,
        }
    }

    /// The category whose lower-case name is `s`.
    pub fn from_name(s: &str) -> (r: Option<Category>)
        ensures
            r == category_named(s@),
    {
        if same_text(s, "work") {
            Some(Category::Work)
        } else if same_text(s, "personal") {
            Some(Category::Personal)
        } else if same_text(s, "health") {
            Some(Category::Health)
        } else if same_text(s, "education") {
            Some(Category::Education)
        } else if same_text(s, "leisure") {
            Some(Category::Leisure)
        } else if same_text(s, "household") {
            Some(Category::Household)
        } else {
            None
        }
    }

    pub fn name(&self) -> (r: &'static str)
        ensures
            r@ == self.label(),
    {
        match self {
            Category::Work => "Work",
            Category::Personal => "Personal",
            Category::Health => "Health",
            Category::Education => "Education",
            Category::Leisure => "Leisure",
            Category::Household => "Household",
        }
    }
}

/// The priority a line names, in any letter case.
pub fn parse_priority(line: &str) -> (r: Result<Priority, TaskError>)
    ensures
        r == choice(priority_named(folded(line@))),
{
    let low = lowercase(trimmed(line));
    match Priority::from_name(low.as_str()) {
        Some(p) => Ok(p),
        None => Err(TaskError::InvalidChoice),
    }
}

/// The category a line names, in any letter case.
pub fn parse_category(line: &str) -> (r: Result<Category, TaskError>)
    ensures
        r == choice(category_named(folded(line@))),
{
    let low = lowercase(trimmed(line));
    match Category::from_name(low.as_str()) {
        Some(c) => Ok(c),
        None => Err(TaskError::InvalidChoice),
    }
}

/// A task name: the line without surrounding white space. Every line is a name.
pub fn parse_name(line: &str) -> (r: String)
    ensures
        r@ == trim_of(line@),
{
    String::from_str(trimmed(line))
}

/// The digits of an unsigned number in text: an optional leading `+` is dropped.
pub open spec fn unsigned_digits(s: Seq<char>) -> Seq<char> {
    if s.len() > 0 && s[0] == '+' {
        s.subrange(1, s.len() as int)
    } else {
        s
    }
}

/// The `u16` that a text spells as `str::parse` reads it: an optional `+`,
/// then one or more decimal digits of a value below 65536.
pub open spec fn u16_of_text(s: Seq<char>) -> Option<u16> {
    let d = unsigned_digits(s);
    if d.len() > 0 && all_digits(d) && digits_value(d) <= 65535 {
        Some(digits_value(d) as u16)
    } else {
        None
    }
}

/// Reads a `u16` written in decimal, with an optional leading `+`.
pub fn text_to_u16(s: &str) -> (r: Option<u16>)
    ensures
        r == u16_of_text(s@),
{
    let n = s.unicode_len();
    let start: usize = if n > 0 && s.get_char(0) == '+' {
        1
    } else {
        0
    };
    assert(s@.subrange(start as int, n as int) == unsigned_digits(s@));
    if start >= n {
        return None;
    }
    let mut i: usize = start;
    while i < n
        invariant
            start <= i <= n,
            n == s@.len(),
            all_digits(s@.subrange(start as int, i as int)),
            s@.subrange(start as int, n as int) == unsigned_digits(s@),
        decreases n - i,
    {
        let c = s.get_char(i);
        if !('0' <= c && c <= '9') {
            assert(!is_digit(s@.subrange(start as int, n as int)[i - start]));
            return None;
        }
        assert(s@.subrange(start as int, i + 1) =~= s@.subrange(start as int, i as int).push(c));
        i = i + 1;
    }
    let v = read_digits(s, start, n, 65535);
    if v > 65535 {
        None
    } else {
        Some(v as u16)
    }
}

/// A task id typed by the user.
pub fn parse_id(line: &str) -> (r: Result<u16, TaskError>)
    ensures
        r == (match u16_of_text(trim_of(line@)) {
            Some(n) => Ok(n),
            None => Err(TaskError::InvalidFormat),
        }),
{
    match text_to_u16(trimmed(line)) {
        Some(n) => Ok(n),
        None => Err(TaskError::InvalidFormat),
    }
}

/// The answer to a yes-or-no question: `Some(true)` for `y`, `Some(false)`
/// for `n`, either case, and `None` for anything else.
pub fn parse_confirmation(line: &str) -> (r: Option<bool>)
    ensures
        r == (if trim_of(line@) == "y"@ || trim_of(line@) == "Y"@ {
            Some(true)
        } else if trim_of(line@) == "n"@ || trim_of(line@) == "N"@ {
            Some(false)
        } else {
            None
        }),
{
    let s = trimmed(line);
    if same_text(s, "y") || same_text(s, "Y") {
        Some(true)
    } else if same_text(s, "n") || same_text(s, "N") {
        Some(false)
    } else {
        None
    }
}

} // verus!
