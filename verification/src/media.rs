//! The data model: the closed attribute enumerations, calendar date and
//! time-of-day values held as plain fields, and the `Media` record itself.

use vstd::prelude::*;

verus! {

/// The kind of a tracked title.
#[derive(Clone, Copy, Debug, PartialEq, Eq, Structural)]
pub enum MediaType {
    Anime,
    TVShow,
    Game,
}

/// The release status of a title itself, independent of the viewer's progress.
#[derive(Clone, Copy, Debug, PartialEq, Eq, Structural)]
pub enum Status {
    OnGoing,
    Finished,
    Upcoming,
}

/// The user's personal progress with a title, independent of its `Status`.
/// The member set is this library's own closed choice: a title is untouched,
/// being consumed, finished, paused, or abandoned.
#[derive(Clone, Copy, Debug, PartialEq, Eq, Structural)]
pub enum State {
    NotStarted,
    InProgress,
    Completed,
    OnHold,
    Dropped,
}

/// A day of the week, for broadcast schedules.
#[derive(Clone, Copy, Debug, PartialEq, Eq, Structural)]
pub enum Weekday {
    Monday,
    Tuesday,
    Wednesday,
    Thursday,
    Friday,
    Saturday,
    Sunday,
}

impl MediaType {
    /// The canonical display name, as a sequence of characters.
    pub open spec fn spec_name(self) -> Seq<char> {
        match self {
            MediaType::Anime => "Anime"@,
            MediaType::TVShow => "TVShow"@,
            MediaType::Game => "Game"@,
        }
    }

    /// The canonical display name.
    pub fn name(&self) -> (s: &'static str)
        ensures
            s@ == self.spec_name(),
    {
        match self {
            MediaType::Anime => "Anime",
            MediaType::TVShow => "TVShow",
            MediaType::Game => "Game",
        }
    }

    /// Every variant, in declaration order, for populating a selection list.
    pub fn all() -> (v: Vec<MediaType>)
        ensures
            v@ == seq![MediaType::Anime, MediaType::TVShow, MediaType::Game],
    {
        let mut v: Vec<MediaType> = Vec::new();
        v.push(MediaType::Anime);
        v.push(MediaType::TVShow);
        v.push(MediaType::Game);
        proof {
            assert(v@ =~= seq![MediaType::Anime, MediaType::TVShow, MediaType::Game]);
        }
        v
    }
}

impl Status {
    /// The canonical display name, as a sequence of characters.
    pub open spec fn spec_name(self) -> Seq<char> {
        match self {
            Status::OnGoing => "OnGoing"@,
            Status::Finished => "Finished"@,
            Status::Upcoming => "Upcoming"@,
        }
    }

    /// The canonical display name.
    pub fn name(&self) -> (s: &'static str)
        ensures
            s@ == self.spec_name(),
    {
        match self {
            Status::OnGoing => "OnGoing",
            Status::Finished => "Finished",
            Status::Upcoming => "Upcoming",
        }
    }

    /// Every variant, in declaration order, for populating a selection list.
    pub fn all() -> (v: Vec<Status>)
        ensures
            v@ == seq![Status::OnGoing, Status::Finished, Status::Upcoming],
    {
        let mut v: Vec<Status> = Vec::new();
        v.push(Status::OnGoing);
        v.push(Status::Finished);
        v.push(Status::Upcoming);
        proof {
            assert(v@ =~= seq![Status::OnGoing, Status::Finished, Status::Upcoming]);
        }
        v
    }
}

impl State {
    /// The canonical display name, as a sequence of characters.
    pub open spec fn spec_name(self) -> Seq<char> {
        match self {
            State::NotStarted => "NotStarted"@,
            State::InProgress => "InProgress"@,
            State::Completed => "Completed"@,
            State::OnHold => "OnHold"@,
            State::Dropped => "Dropped"@,
        }
    }

    /// The canonical display name.
    pub fn name(&self) -> (s: &'static str)
        ensures
            s@ == self.spec_name(),
    {
        match self {
            State::NotStarted => "NotStarted",
            State::InProgress => "InProgress",
            State::Completed => "Completed",
            State::OnHold => "OnHold",
            State::Dropped => "Dropped",
        }
    }

    /// Every variant, in declaration order, for populating a selection list.
    pub fn all() -> (v: Vec<State>)
        ensures
            v@ == seq![
                State::NotStarted,
                State::InProgress,
                State::Completed,
                State::OnHold,
                State::Dropped,
            ],
    {
        let mut v: Vec<State> = Vec::new();
        v.push(State::NotStarted);
        v.push(State::InProgress);
        v.push(State::Completed);
        v.push(State::OnHold);
        v.push(State::Dropped);
        proof {
            assert(v@ =~= seq![
                State::NotStarted,
                State::InProgress,
                State::Completed,
                State::OnHold,
                State::Dropped,
            ]);
        }
        v
    }
}

impl Weekday {
    /// The canonical display name, as a sequence of characters.
    pub open spec fn spec_name(self) -> Seq<char> {
        match self {
            Weekday::Monday => "Monday"@,
            Weekday::Tuesday => "Tuesday"@,
            Weekday::Wednesday => "Wednesday"@,
            Weekday::Thursday => "Thursday"@,
            Weekday::Friday => "Friday"@,
            Weekday::Saturday => "Saturday"@,
            Weekday::Sunday => "Sunday"@,
        }
    }

    /// The canonical display name.
    pub fn name(&self) -> (s: &'static str)
        ensures
            s@ == self.spec_name(),
    {
        match self {
            Weekday::Monday => "Monday",
            Weekday::Tuesday => "Tuesday",
            Weekday::Wednesday => "Wednesday",
            Weekday::Thursday => "Thursday",
            Weekday::Friday => "Friday",
            Weekday::Saturday => "Saturday",
            Weekday::Sunday => "Sunday",
        }
    }

    /// Every variant, in week order, for populating a selection list.
    pub fn all() -> (v: Vec<Weekday>)
        ensures
            v@ == seq![
                Weekday::Monday,
                Weekday::Tuesday,
                Weekday::Wednesday,
                Weekday::Thursday,
                Weekday::Friday,
                Weekday::Saturday,
                Weekday::Sunday,
            ],
    {
        let mut v: Vec<Weekday> = Vec::new();
        v.push(Weekday::Monday);
        v.push(Weekday::Tuesday);
        v.push(Weekday::Wednesday);
        v.push(Weekday::Thursday);
        v.push(Weekday::Friday);
        v.push(Weekday::Saturday);
        v.push(Weekday::Sunday);
        proof {
            assert(v@ =~= seq![
                Weekday::Monday,
                Weekday::Tuesday,
                Weekday::Wednesday,
                Weekday::Thursday,
                Weekday::Friday,
                Weekday::Saturday,
                Weekday::Sunday,
            ]);
        }
        v
    }
}

/// A calendar date in the proleptic Gregorian calendar, held as plain fields.
#[derive(Clone, Copy, Debug, PartialEq, Eq, Structural)]
pub struct Date {
    pub year: u16,
    pub month: u8,
    pub day: u8,
}

/// Whether `year` is a leap year in the Gregorian calendar.
pub open spec fn spec_is_leap_year(year: u16) -> bool {
    (year % 4 == 0 && year % 100 != 0) || year % 400 == 0
}

/// The number of days in `month` of `year`; 0 when `month` is no month.
pub open spec fn spec_days_in_month(year: u16, month: u8) -> u8 {
    if month == 1 || month == 3 || month == 5 || month == 7 || month == 8 || month == 10
        || month == 12 {
        31
    } else if month == 4 || month == 6 || month == 9 || month == 11 {
        30
    } else if month == 2 {
        if spec_is_leap_year(year) {
            29
        } else {
            28
        }
    } else {
        0
    }
}

impl Date {
    /// A well-formed date names a real day of the Gregorian calendar.
    pub open spec fn wf(self) -> bool {
        1 <= self.month <= 12 && 1 <= self.day <= spec_days_in_month(self.year, self.month)
    }

    /// Builds a date, accepting exactly the real days of the calendar.
    pub fn new(year: u16, month: u8, day: u8) -> (r: Option<Date>)
        ensures
            r matches Some(d) ==> d == (Date { year, month, day }) && d.wf(),
            r is Some <==> (Date { year, month, day }).wf(),
    {
        let limit: u8 = days_in_month(year, month);
        if 1 <= month && month <= 12 && 1 <= day && day <= limit {
            Some(Date { year, month, day })
        } else {
            None
        }
    }

    /// The epoch sentinel used when no release date is known.
    pub fn epoch() -> (r: Date)
        ensures
            r == (Date { year: 1970u16, month: 1u8, day: 1u8 }),
            r.wf(),
    {
        Date { year: 1970, month: 1, day: 1 }
    }
}

/// Whether `year` is a leap year in the Gregorian calendar.
pub fn is_leap_year(year: u16) -> (b: bool)
    ensures
        b == spec_is_leap_year(year),
{
    (year % 4 == 0 && year % 100 != 0) || year % 400 == 0
}

/// The number of days in `month` of `year`; 0 when `month` is no month.
pub fn days_in_month(year: u16, month: u8) -> (d: u8)
    ensures
        d == spec_days_in_month(year, month),
{
    if month == 1 || month == 3 || month == 5 || month == 7 || month == 8 || month == 10
        || month == 12 {
        31
    } else if month == 4 || month == 6 || month == 9 || month == 11 {
        30
    } else if month == 2 {
        if is_leap_year(year) {
            29
        } else {
            28
        }
    } else {
        0
    }
}

/// A time of day on a 24-hour clock, held as plain fields.
#[derive(Clone, Copy, Debug, PartialEq, Eq, Structural)]
pub struct TimeOfDay {
    pub hour: u8,
    pub minute: u8,
    pub second: u8,
}

impl TimeOfDay {
    /// A well-formed time of day lies on the 24-hour clock.
    pub open spec fn wf(self) -> bool {
        self.hour < 24 && self.minute < 60 && self.second < 60
    }

    /// Builds a time of day, accepting exactly the points of the 24-hour clock.
    pub fn new(hour: u8, minute: u8, second: u8) -> (r: Option<TimeOfDay>)
        ensures
            r matches Some(t) ==> t == (TimeOfDay { hour, minute, second }) && t.wf(),
            r is Some <==> (TimeOfDay { hour, minute, second }).wf(),
    {
        if hour < 24 && minute < 60 && second < 60 {
            Some(TimeOfDay { hour, minute, second })
        } else {
            None
        }
    }
}

/// The mathematical value of a `Media` record: every text field as a
/// sequence of characters, every other field as itself.
#[verifier::ext_equal]
pub ghost struct MediaView {
    pub title: Seq<char>,
    pub alt_titles: Seq<Seq<char>>,
    pub media_type: MediaType,
    pub release_date: Date,
    pub status: Status,
    pub broadcast_day: Option<Weekday>,
    pub broadcast_time: Option<TimeOfDay>,
    pub current: Option<u32>,
    pub total: Option<u32>,
    pub total_out: Option<u32>,
    pub state: State,
}

/// The views of a sequence of strings.
pub open spec fn strings_view(v: Seq<String>) -> Seq<Seq<char>> {
    Seq::new(v.len(), |i: int| v[i]@)
}

/// One tracked title with its metadata and the user's progress.
#[derive(Debug, PartialEq)]
pub struct Media {
    pub title: String,
    pub alt_titles: Vec<String>,
    pub media_type: MediaType,
    pub release_date: Date,
    pub status: Status,
    pub broadcast_day: Option<Weekday>,
    pub broadcast_time: Option<TimeOfDay>,
    /// Units consumed so far, when tracked.
    pub current: Option<u32>,
    /// Total known units, when known.
    pub total: Option<u32>,
    /// Units released so far, when known.
    pub total_out: Option<u32>,
    pub state: State,
}

impl View for Media {
    type V = MediaView;

    open spec fn view(&self) -> MediaView {
        MediaView {
            title: self.title@,
            alt_titles: strings_view(self.alt_titles@),
            media_type: self.media_type,
            release_date: self.release_date,
            status: self.status,
            broadcast_day: self.broadcast_day,
            broadcast_time: self.broadcast_time,
            current: self.current,
            total: self.total,
            total_out: self.total_out,
            state: self.state,
        }
    }
}

impl MediaView {
    /// Structural well-formedness: the date names a real day and the
    /// broadcast time, when present, lies on the clock.
    pub open spec fn wf(self) -> bool {
        &&& self.release_date.wf()
        &&& (self.broadcast_time matches Some(t) ==> t.wf())
    }

    /// The numeric progress invariant: consumed units never exceed released
    /// units, which never exceed the known total, whenever all are present.
    /// Records are accepted without it by design; `Media::progress_ok`
    /// reports whether a record honours it.
    pub open spec fn progress_consistent(self) -> bool {
        match (self.current, self.total_out, self.total) {
            (Some(c), Some(o), Some(t)) => c <= o <= t,
            _ => true,
        }
    }
}

/// The default record that seeds a new-entry form: empty title, no alternate
/// titles, an anime finished at the epoch sentinel, nothing tracked yet.
pub open spec fn default_media_view() -> MediaView {
    MediaView {
        title: Seq::empty(),
        alt_titles: Seq::empty(),
        media_type: MediaType::Anime,
        release_date: Date { year: 1970u16, month: 1u8, day: 1u8 },
        status: Status::Finished,
        broadcast_day: None,
        broadcast_time: None,
        current: None,
        total: None,
        total_out: None,
        state: State::NotStarted,
    }
}

impl Default for Media {
    /// The default record that seeds a new-entry form.
    fn default() -> (r: Media)
        ensures
            r@ == default_media_view(),
    {
        let r = Media {
            title: String::new(),
            alt_titles: Vec::new(),
            media_type: MediaType::Anime,
            release_date: Date::epoch(),
            status: Status::Finished,
            broadcast_day: None,
            broadcast_time: None,
            current: None,
            total: None,
            total_out: None,
            state: State::NotStarted,
        };
        proof {
            assert(strings_view(r.alt_titles@) =~= Seq::<Seq<char>>::empty());
            assert(r@ =~= default_media_view());
        }
        r
    }
}

/// Clones a sequence of strings, keeping every element's characters.
fn clone_strings(v: &Vec<String>) -> (r: Vec<String>)
    ensures
        r@ == v@,
{
    let mut r: Vec<String> = Vec::new();
    let mut i: usize = 0;
    while i < v.len()
        invariant
            i <= v.len(),
            r@ == v@.take(i as int),
        decreases v.len() - i,
    {
        r.push(v[i].clone());
        i = i + 1;
        proof {
            assert(r@ =~= v@.take(i as int));
        }
    }
    proof {
        assert(v@.take(v@.len() as int) =~= v@);
    }
    r
}

impl Clone for Media {
    /// A clone carries exactly the same field values.
    fn clone(&self) -> (r: Media)
        ensures
            r@ == self@,
    {
        let r = Media {
            title: self.title.clone(),
            alt_titles: clone_strings(&self.alt_titles),
            media_type: self.media_type,
            release_date: self.release_date,
            status: self.status,
            broadcast_day: self.broadcast_day,
            broadcast_time: self.broadcast_time,
            current: self.current,
            total: self.total,
            total_out: self.total_out,
            state: self.state,
        };
        proof {
            assert(r@ =~= self@);
        }
        r
    }
}

impl Media {
    /// Whether this record honours the numeric progress invariant
    /// `current <= total_out <= total` (vacuously, when a counter is absent).
    pub fn progress_ok(&self) -> (b: bool)
        ensures
            b == self@.progress_consistent(),
    {
        match (self.current, self.total_out, self.total) {
            (Some(c), Some(o), Some(t)) => c <= o && o <= t,
            _ => true,
        }
    }

    /// Whether this record is structurally well-formed.
    pub fn check_wf(&self) -> (b: bool)
        ensures
            b == self@.wf(),
    {
        let date_ok = {
            let d = self.release_date;
            1 <= d.month && d.month <= 12 && 1 <= d.day && d.day <= days_in_month(
                d.year,
                d.month,
            )
        };
        let time_ok = match self.broadcast_time {
            Some(t) => t.hour < 24 && t.minute < 60 && t.second < 60,
            None => true,
        };
        date_ok && time_ok
    }
}

} // verus!
