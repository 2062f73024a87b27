//! The records of the catalogue: a project, the day it was created, and the
//! two ways of asking for projects.

use vstd::prelude::*;

verus! {

/// Whether `year` is a leap year of the proleptic Gregorian calendar.
pub open spec fn is_leap_year(year: int) -> bool {
    year % 4 == 0 && (year % 100 != 0 || year % 400 == 0)
}

/// The number of days of `month` (1 to 12) in `year`; 0 for any other month.
pub open spec fn days_in_month(year: int, month: int) -> int {
    if month == 2 {
        if is_leap_year(year) {
            29
        } else {
            28
        }
    } else if month == 4 || month == 6 || month == 9 || month == 11 {
        30
    } else if 1 <= month <= 12 {
        31
    } else {
        0
    }
}

/// Whether year, month and day name a day of the calendar.
pub open spec fn is_calendar_date(year: int, month: int, day: int) -> bool {
    &&& Date::MIN_YEAR <= year <= Date::MAX_YEAR
    &&& 1 <= month <= 12
    &&& 1 <= day <= days_in_month(year, month)
}

/// A day of the proleptic Gregorian calendar.
#[derive(Clone, Copy, Debug, PartialEq, Eq, Hash, Structural)]
pub struct Date {
    year: i32,
    month: u8,
    day: u8,
}

impl Date {
    pub const MIN_YEAR: i32 = -9999;

    pub const MAX_YEAR: i32 = 9999;

    #[verifier::type_invariant]
    spec fn is_valid(self) -> bool {
        is_calendar_date(self.year as int, self.month as int, self.day as int)
    }

    pub closed spec fn spec_year(&self) -> i32 {
        self.year
    }

    pub closed spec fn spec_month(&self) -> u8 {
        self.month
    }

    pub closed spec fn spec_day(&self) -> u8 {
        self.day
    }

    /// Whether `self` is a later day than `other`.
    pub open spec fn is_after(self, other: Date) -> bool {
        ||| self.spec_year() > other.spec_year()
        ||| self.spec_year() == other.spec_year() && self.spec_month() > other.spec_month()
        ||| self.spec_year() == other.spec_year() && self.spec_month() == other.spec_month()
            && self.spec_day() > other.spec_day()
    }

    /// The day with the given year, month and day of the month, if there is one.
    pub fn from_calendar_date(year: i32, month: u8, day: u8) -> (date: Option<Date>)
        ensures
            date is Some <==> is_calendar_date(year as int, month as int, day as int),
            date matches Some(d) ==> d.spec_year() == year && d.spec_month() == month
                && d.spec_day() == day,
    {
        if year < Date::MIN_YEAR || year > Date::MAX_YEAR || month < 1 || month > 12 || day < 1 {
            return None;
        }
        let leap = year % 4 == 0 && (year % 100 != 0 || year % 400 == 0);
        let last: u8 = if month == 2 {
            if leap {
                29
            } else {
                28
            }
        } else if month == 4 || month == 6 || month == 9 || month == 11 {
            30
        } else {
            31
        };
        if day > last {
            None
        } else {
            Some(Date { year, month, day })
        }
    }

    #[verifier::when_used_as_spec(spec_year)]
    pub fn year(&self) -> (y: i32)
        ensures
            y == self.spec_year(),
            Date::MIN_YEAR <= y <= Date::MAX_YEAR,
    {
        proof {
            use_type_invariant(self);
        }
        self.year
    }

    #[verifier::when_used_as_spec(spec_month)]
    pub fn month(&self) -> (m: u8)
        ensures
            m == self.spec_month(),
            1 <= m <= 12,
    {
        proof {
            use_type_invariant(self);
        }
        self.month
    }

    #[verifier::when_used_as_spec(spec_day)]
    pub fn day(&self) -> (d: u8)
        ensures
            d == self.spec_day(),
            1 <= d <= days_in_month(self.spec_year() as int, self.spec_month() as int),
    {
        proof {
            use_type_invariant(self);
        }
        self.day
    }

    /// Whether `self` is a later day than `other`.
    pub fn later_than(&self, other: &Date) -> (r: bool)
        ensures
            r == self.is_after(*other),
    {
        self.year > other.year || (self.year == other.year && (self.month > other.month || (
        self.month == other.month && self.day > other.day)))
    }
}

/// One entry of the catalogue, as the store hands it out.
#[derive(Clone, Debug, PartialEq, Eq, Hash)]
pub struct Project {
    pub id: i32,
    pub name: String,
    pub short_description: String,
    pub long_description: String,
    pub url: Option<String>,
    pub technologies: Option<String>,
    pub pinned: bool,
    pub date_created: Date,
}

/// What a `Project` holds, with its texts as sequences of characters.
pub struct ProjectView {
    pub id: i32,
    pub name: Seq<char>,
    pub short_description: Seq<char>,
    pub long_description: Seq<char>,
    pub url: Option<Seq<char>>,
    pub technologies: Option<Seq<char>>,
    pub pinned: bool,
    pub date_created: Date,
}

/// The text of an optional string.
pub open spec fn text_of(s: Option<String>) -> Option<Seq<char>> {
    match s {
        Some(t) => Some(t@),
        None => None,
    }
}

impl View for Project {
    type V = ProjectView;

    open spec fn view(&self) -> ProjectView {
        ProjectView {
            id: self.id,
            name: self.name@,
            short_description: self.short_description@,
            long_description: self.long_description@,
            url: text_of(self.url),
            technologies: text_of(self.technologies),
            pinned: self.pinned,
            date_created: self.date_created,
        }
    }
}

/// The keys of a list of projects, in the order of the list.
pub open spec fn ids_of(items: Seq<Project>) -> Seq<i32> {
    items.map_values(|p: Project| p.id)
}

/// Which projects a list view asks for.
#[derive(Clone, Copy, Debug, PartialEq, Eq, Hash, Structural)]
pub enum Filter {
    /// Every project of the catalogue.
    All,
    /// The projects that are pinned to the home page.
    PinnedOnly,
}

impl Filter {
    /// The identity under which requests with this filter are cached.
    pub open spec fn spec_key(&self) -> u64 {
        match self {
            Filter::All => 0,
            Filter::PinnedOnly => 1,
        }
    }

    /// The identity under which requests with this filter are cached.
    #[verifier::when_used_as_spec(spec_key)]
    pub fn key(&self) -> (k: u64)
        ensures
            k == self.spec_key(),
    {
        match self {
            Filter::All => 0,
            Filter::PinnedOnly => 1,
        }
    }

    /// Whether only pinned projects are asked for.
    pub fn pinned_only(&self) -> (b: bool)
        ensures
            b == (*self == Filter::PinnedOnly),
    {
        match self {
            Filter::All => false,
            Filter::PinnedOnly => true,
        }
    }
}

} // verus!
