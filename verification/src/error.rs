//! Errors the library reports: calendar parse failures and configuration
//! lookup failures.

use vstd::prelude::*;

verus! {

/// An error from the calendar parser or the configuration path lookup.
#[derive(Clone, Debug, PartialEq, Eq)]
pub enum Error {
    /// There is no valid configuration directory on this machine.
    ConfigDir,
    /// The calendar string as a whole has the wrong shape.
    InvalidCalendar { calendar: String },
    /// The date part has the wrong shape.
    InvalidDate { date: String },
    /// The time part has the wrong shape.
    InvalidTime { time: String },
    /// A range is out of order or out of bounds.
    InvalidRange { range: String },
    /// A weekday name is not recognised.
    InvalidDayOfWeek { dow: String },
    /// A field is not a number in range.
    InvalidValue { value: String },
}

/// The mathematical shape of an [`Error`]: the variant and the text it
/// carries, as a sequence of characters.
pub enum ErrView {
    ConfigDir,
    Calendar(Seq<char>),
    Date(Seq<char>),
    Time(Seq<char>),
    Range(Seq<char>),
    Dow(Seq<char>),
    Value(Seq<char>),
}

impl View for Error {
    type V = ErrView;

    open spec fn view(&self) -> ErrView {
        match self {
            Error::ConfigDir => ErrView::ConfigDir,
            Error::InvalidCalendar { calendar } => ErrView::Calendar(calendar@),
            Error::InvalidDate { date } => ErrView::Date(date@),
            Error::InvalidTime { time } => ErrView::Time(time@),
            Error::InvalidRange { range } => ErrView::Range(range@),
            Error::InvalidDayOfWeek { dow } => ErrView::Dow(dow@),
            Error::InvalidValue { value } => ErrView::Value(value@),
        }
    }
}

impl Error {
    /// The message this error prints.
    pub open spec fn spec_message(&self) -> Seq<char> {
        match self {
            Error::ConfigDir => "There is no valid config directory"@,
            Error::InvalidCalendar { calendar } => "invalid calendar string: '"@ + calendar@
                + "'"@,
            Error::InvalidDate { date } => "invalid date string: '"@ + date@ + "'"@,
            Error::InvalidTime { time } => "invalid time string: '"@ + time@ + "'"@,
            Error::InvalidRange { range } => "invalid range: '"@ + range@ + "'"@,
            Error::InvalidDayOfWeek { dow } => "invalid day of week: "@ + dow@,
            Error::InvalidValue { value } => "invalid value: '"@ + value@ + "'"@,
        }
    }

    /// Render the error as one line of text.
    pub fn message(&self) -> (r: String)
        ensures
            r@ == self.spec_message(),
    {
        match self {
            Error::ConfigDir => {
                let r = String::from_str("There is no valid config directory");
                proof {
                    assert(r@ =~= self.spec_message());
                }
                r
            },
            Error::InvalidCalendar { calendar } => {
                let mut r = String::from_str("invalid calendar string: '");
                r.append(calendar.as_str());
                r.append("'");
                proof {
                    assert(r@ =~= self.spec_message());
                }
                r
            },
            Error::InvalidDate { date } => {
                let mut r = String::from_str("invalid date string: '");
                r.append(date.as_str());
                r.append("'");
                proof {
                    assert(r@ =~= self.spec_message());
                }
                r
            },
            Error::InvalidTime { time } => {
                let mut r = String::from_str("invalid time string: '");
                r.append(time.as_str());
                r.append("'");
                proof {
                    assert(r@ =~= self.spec_message());
                }
                r
            },
            Error::InvalidRange { range } => {
                let mut r = String::from_str("invalid range: '");
                r.append(range.as_str());
                r.append("'");
                proof {
                    assert(r@ =~= self.spec_message());
                }
                r
            },
            Error::InvalidDayOfWeek { dow } => {
                let mut r = String::from_str("invalid day of week: ");
                r.append(dow.as_str());
                proof {
                    assert(r@ =~= self.spec_message());
                }
                r
            },
            Error::InvalidValue { value } => {
                let mut r = String::from_str("invalid value: '");
                r.append(value.as_str());
                r.append("'");
                proof {
                    assert(r@ =~= self.spec_message());
                }
                r
            },
        }
    }
}

} // verus!
