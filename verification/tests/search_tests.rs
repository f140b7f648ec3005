use med::media::{Date, Media, MediaType, State, Status, TimeOfDay, Weekday};
use med::search::{contains_substring, search, search_indices, Filter};

fn record(title: &str, media_type: MediaType, status: Status) -> Media {
    let mut m = Media::default();
    m.title = String::from(title);
    m.media_type = media_type;
    m.status = status;
    m
}

fn sample_library() -> Vec<Media> {
    vec![
        record("Frieren", MediaType::Anime, Status::OnGoing),
        record("Chained Soldier", MediaType::Anime, Status::Finished),
        record("Elden Ring", MediaType::Game, Status::Finished),
    ]
}

fn no_filter() -> Filter {
    Filter { media_type: None, status: None, state: None }
}

fn titles(v: &[Media]) -> Vec<String> {
    v.iter().map(|m| m.title.clone()).collect()
}

#[test]
fn filter_by_media_type() {
    let lib = sample_library();
    let f = Filter { media_type: Some(MediaType::Anime), status: None, state: None };
    let r = search(&lib, &String::new(), &f);
    assert_eq!(titles(&r), vec!["Frieren".to_string(), "Chained Soldier".to_string()]);
}

#[test]
fn filter_by_title_substring() {
    let lib = sample_library();
    let r = search(&lib, &String::from("Ring"), &no_filter());
    assert_eq!(titles(&r), vec!["Elden Ring".to_string()]);
}

#[test]
fn filter_by_type_and_status() {
    let lib = sample_library();
    let f = Filter {
        media_type: Some(MediaType::Anime),
        status: Some(Status::Finished),
        state: None,
    };
    let r = search(&lib, &String::new(), &f);
    assert_eq!(titles(&r), vec!["Chained Soldier".to_string()]);
}

#[test]
fn vacuous_filter_returns_everything_in_order() {
    let lib = sample_library();
    let r = search(&lib, &String::new(), &no_filter());
    assert_eq!(r, lib);
}

#[test]
fn search_is_idempotent() {
    let lib = sample_library();
    let f = Filter { media_type: Some(MediaType::Anime), status: None, state: None };
    let q = String::from("e");
    let r1 = search(&lib, &q, &f);
    let r2 = search(&lib, &q, &f);
    assert_eq!(r1, r2);
}

#[test]
fn append_then_find_returns_new_record_last() {
    let mut lib = sample_library();
    let m = record("Dune", MediaType::TVShow, Status::Upcoming);
    lib.push(m.clone());
    let r = search(&lib, &String::new(), &no_filter());
    assert_eq!(r.len(), 4);
    assert_eq!(r.last().unwrap(), &m);
}

#[test]
fn empty_library_gives_empty_result() {
    let lib: Vec<Media> = Vec::new();
    let r = search(&lib, &String::from("anything"), &no_filter());
    assert!(r.is_empty());
}

#[test]
fn title_match_is_case_sensitive() {
    let lib = sample_library();
    let r = search(&lib, &String::from("ring"), &no_filter());
    assert!(r.is_empty());
}

#[test]
fn filter_by_consumption_state() {
    let mut lib = sample_library();
    lib[2].state = State::InProgress;
    let f = Filter { media_type: None, status: None, state: Some(State::InProgress) };
    let r = search(&lib, &String::new(), &f);
    assert_eq!(titles(&r), vec!["Elden Ring".to_string()]);
}

#[test]
fn conjunction_can_reject_everything() {
    let lib = sample_library();
    let f = Filter { media_type: Some(MediaType::Game), status: None, state: None };
    let r = search(&lib, &String::from("Frieren"), &f);
    assert!(r.is_empty());
}

#[test]
fn substring_edge_cases() {
    assert!(contains_substring("abc", ""));
    assert!(contains_substring("", ""));
    assert!(!contains_substring("", "a"));
    assert!(contains_substring("abc", "abc"));
    assert!(!contains_substring("abc", "abcd"));
    assert!(contains_substring("abcabc", "cab"));
    assert!(contains_substring("Frieren\u{2728}", "n\u{2728}"));
    assert!(!contains_substring("abc", "ac"));
}

#[test]
fn search_indices_point_into_store() {
    let lib = sample_library();
    let f = Filter { media_type: None, status: Some(Status::Finished), state: None };
    let idxs = search_indices(&lib, &String::new(), &f);
    assert_eq!(idxs, vec![1, 2]);
}

#[test]
fn default_media_seeds_new_entry_form() {
    let m = Media::default();
    assert_eq!(m.title, "");
    assert!(m.alt_titles.is_empty());
    assert_eq!(m.media_type, MediaType::Anime);
    assert_eq!(m.release_date, Date { year: 1970, month: 1, day: 1 });
    assert_eq!(m.status, Status::Finished);
    assert_eq!(m.broadcast_day, None);
    assert_eq!(m.broadcast_time, None);
    assert_eq!(m.current, None);
    assert_eq!(m.total, None);
    assert_eq!(m.total_out, None);
    assert_eq!(m.state, State::NotStarted);
}

#[test]
fn enumerations_are_closed_and_named() {
    let types = MediaType::all();
    assert_eq!(types, vec![MediaType::Anime, MediaType::TVShow, MediaType::Game]);
    assert_eq!(MediaType::Game.name(), "Game");
    let statuses = Status::all();
    assert_eq!(statuses, vec![Status::OnGoing, Status::Finished, Status::Upcoming]);
    assert_eq!(Status::OnGoing.name(), "OnGoing");
    let states = State::all();
    assert_eq!(states.len(), 5);
    assert_eq!(State::NotStarted.name(), "NotStarted");
    assert_eq!(State::Dropped.name(), "Dropped");
    let days = Weekday::all();
    assert_eq!(days.len(), 7);
    assert_eq!(days[0].name(), "Monday");
    assert_eq!(days[6].name(), "Sunday");
}

#[test]
fn date_validation_follows_the_calendar() {
    assert!(Date::new(2024, 2, 29).is_some());
    assert!(Date::new(2023, 2, 29).is_none());
    assert!(Date::new(1900, 2, 29).is_none());
    assert!(Date::new(2000, 2, 29).is_some());
    assert!(Date::new(2023, 4, 31).is_none());
    assert!(Date::new(2023, 12, 31).is_some());
    assert!(Date::new(2023, 0, 1).is_none());
    assert!(Date::new(2023, 13, 1).is_none());
    assert!(Date::new(2023, 1, 0).is_none());
}

#[test]
fn time_validation_follows_the_clock() {
    assert!(TimeOfDay::new(23, 59, 59).is_some());
    assert!(TimeOfDay::new(24, 0, 0).is_none());
    assert!(TimeOfDay::new(0, 60, 0).is_none());
    assert!(TimeOfDay::new(0, 0, 60).is_none());
}

#[test]
fn progress_invariant_is_reported_not_enforced() {
    let mut m = Media::default();
    m.current = Some(5);
    m.total_out = Some(8);
    m.total = Some(12);
    assert!(m.progress_ok());
    m.current = Some(9);
    assert!(!m.progress_ok());
    m.total_out = None;
    assert!(m.progress_ok());
}

#[test]
fn structural_well_formedness_checks_date_and_time() {
    let mut m = Media::default();
    assert!(m.check_wf());
    m.release_date = Date { year: 2023, month: 2, day: 29 };
    assert!(!m.check_wf());
    m.release_date = Date { year: 2024, month: 2, day: 29 };
    assert!(m.check_wf());
    m.broadcast_time = Some(TimeOfDay { hour: 25, minute: 0, second: 0 });
    assert!(!m.check_wf());
    m.broadcast_time = Some(TimeOfDay { hour: 21, minute: 30, second: 0 });
    assert!(m.check_wf());
}
