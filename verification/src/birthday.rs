//! The age in days of someone born on a given day, and whether today is
//! the birthday. Nothing here touches the stored events.

use crate::calendar::{days_from_to, Date, Ymd};
use crate::text::{signed_decimal, signed_decimal_text};
use vstd::prelude::*;
use vstd::string::StringExecFns;

verus! {

/// What today is to someone born on a given day.
#[derive(Debug, Clone, Copy, PartialEq, Eq, Structural)]
pub struct Birthday {
    /// The whole days from the birthdate to today.
    pub age_days: i64,
    /// Whether today has the month and the day of the birthdate.
    pub is_birthday: bool,
    /// Whether the age in days is a multiple of a thousand.
    pub is_round: bool,
}

/// Whether `today` has the month and the day of `birthdate`, whatever the
/// two years are.
pub open spec fn is_anniversary(birthdate: Ymd, today: Ymd) -> bool {
    today.month == birthdate.month && today.day == birthdate.day
}

/// Whether an age of `age_days` days is a multiple of a thousand.
pub open spec fn is_round_number(age_days: int) -> bool {
    age_days % 1000 == 0
}

/// The line that tells an age of `age_days` days, with a greeting before
/// it on the birthday and a remark after it on a round number.
pub open spec fn birthday_line(age_days: int, is_birthday: bool, is_round: bool) -> Seq<char> {
    (if is_birthday {
        "Happy birthday! "@
    } else {
        Seq::empty()
    }) + "You are "@ + signed_decimal_text(age_days) + " days old."@ + (if is_round {
        " That's a nice round number!"@
    } else {
        Seq::empty()
    })
}

/// The line that says that `value` names no day.
pub open spec fn invalid_birthdate_line(value: Seq<char>) -> Seq<char> {
    "Error in the value of the BIRTHDATE environment variable: '"@ + value
        + "' is not a valid date."@
}

/// What there is to say about the birthdate that was configured.
#[derive(Debug, PartialEq, Eq)]
pub enum BirthdayOutput {
    /// No birthdate was configured: there is nothing to say.
    Nothing,
    /// The line that tells the age.
    Line(String),
    /// The configured text names no day: the line that says so. The run
    /// goes on.
    Diagnostic(String),
}

/// The model of a [`BirthdayOutput`].
pub enum BirthdayOutputView {
    Nothing,
    Line(Seq<char>),
    Diagnostic(Seq<char>),
}

impl View for BirthdayOutput {
    type V = BirthdayOutputView;

    open spec fn view(&self) -> BirthdayOutputView {
        match self {
            BirthdayOutput::Nothing => BirthdayOutputView::Nothing,
            BirthdayOutput::Line(line) => BirthdayOutputView::Line(line@),
            BirthdayOutput::Diagnostic(line) => BirthdayOutputView::Diagnostic(line@),
        }
    }
}

/// What there is to say about a configured birthdate on the day `today`.
pub open spec fn annotate_spec(configured: Option<Seq<char>>, today: Ymd) -> BirthdayOutputView {
    match configured {
        None => BirthdayOutputView::Nothing,
        Some(value) => match Ymd::parse(value) {
            Some(birthdate) => BirthdayOutputView::Line(
                birthday_line(
                    days_from_to(birthdate, today),
                    is_anniversary(birthdate, today),
                    is_round_number(days_from_to(birthdate, today)),
                ),
            ),
            None => BirthdayOutputView::Diagnostic(invalid_birthdate_line(value)),
        },
    }
}

/// What `today` is to someone born on `birthdate`: the age in whole days,
/// whether it is the birthday, and whether the age is a round number.
pub fn birthday(birthdate: Date, today: Date) -> (b: Birthday)
    ensures
        b.age_days == days_from_to(birthdate@, today@),
        b.is_birthday == is_anniversary(birthdate@, today@),
        b.is_round == is_round_number(days_from_to(birthdate@, today@)),
{
    let age_days = birthdate.days_until(&today);
    Birthday {
        age_days,
        is_birthday: today.month() == birthdate.month() && today.day() == birthdate.day(),
        is_round: age_days % 1000 == 0,
    }
}

/// The line that tells the age.
pub fn birthday_message(birthday: &Birthday) -> (line: String)
    ensures
        line@ == birthday_line(birthday.age_days as int, birthday.is_birthday, birthday.is_round),
{
    let mut line = String::new();
    if birthday.is_birthday {
        line.append("Happy birthday! ");
    }
    line.append("You are ");
    line.append(signed_decimal(birthday.age_days).as_str());
    line.append(" days old.");
    if birthday.is_round {
        line.append(" That's a nice round number!");
    }
    line
}

/// What there is to say about the birthdate that was configured, on the
/// day `today`: nothing where none was configured, the line that tells
/// the age where the text names a day, and else the line that says that
/// it names none.
pub fn annotate(configured: Option<&str>, today: Date) -> (output: BirthdayOutput)
    ensures
        output@ == annotate_spec(
            match configured {
                Some(value) => Some(value@),
                None => None,
            },
            today@,
        ),
{
    match configured {
        None => BirthdayOutput::Nothing,
        Some(value) => match Date::parse(value) {
            Some(birthdate) => BirthdayOutput::Line(birthday_message(&birthday(birthdate, today))),
            None => {
                let mut line = String::from_str(
                    "Error in the value of the BIRTHDATE environment variable: '",
                );
                line.append(value);
                line.append("' is not a valid date.");
                BirthdayOutput::Diagnostic(line)
            },
        },
    }
}

} // verus!
