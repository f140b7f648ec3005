use med::codec::{decode_library, encode_library};
use med::media::{Media, MediaType, State, Status, TimeOfDay, Weekday};
use med::search::Filter;
use med::store::{load, Library, LoadInput, LoadOutcome};

fn record(title: &str, media_type: MediaType, status: Status) -> Media {
    let mut m = Media::default();
    m.title = String::from(title);
    m.media_type = media_type;
    m.status = status;
    m
}

fn full_record() -> Media {
    let mut m = record("Frieren\u{2728}", MediaType::Anime, Status::OnGoing);
    m.alt_titles = vec![String::from("Sousou no Frieren"), String::new()];
    m.broadcast_day = Some(Weekday::Friday);
    m.broadcast_time = Some(TimeOfDay { hour: 23, minute: 0, second: 30 });
    m.current = Some(17);
    m.total = Some(28);
    m.total_out = Some(20);
    m.state = State::InProgress;
    m
}

fn no_filter() -> Filter {
    Filter { media_type: None, status: None, state: None }
}

#[test]
fn encode_decode_round_trips() {
    let lib = vec![full_record(), record("Elden Ring", MediaType::Game, Status::Finished)];
    let bytes = encode_library(&lib);
    let back = decode_library(&bytes).expect("a fresh snapshot must decode");
    assert_eq!(back, lib);
}

#[test]
fn encode_decode_round_trips_empty() {
    let lib: Vec<Media> = Vec::new();
    let bytes = encode_library(&lib);
    let back = decode_library(&bytes).expect("the empty snapshot must decode");
    assert!(back.is_empty());
}

#[test]
fn decoding_rejects_malformed_bytes() {
    assert!(decode_library(&vec![1, 2, 3]).is_none());
    let mut bytes = encode_library(&vec![full_record()]);
    bytes.push(0);
    assert!(decode_library(&bytes).is_none());
    let truncated: Vec<u8> = {
        let whole = encode_library(&vec![full_record()]);
        whole[..whole.len() - 1].to_vec()
    };
    assert!(decode_library(&truncated).is_none());
}

#[test]
fn decoding_depends_on_string_bytes() {
    let lib_a = vec![record("abc", MediaType::Anime, Status::Finished)];
    let lib_b = vec![record("abd", MediaType::Anime, Status::Finished)];
    let back = decode_library(&encode_library(&lib_a)).unwrap();
    assert_eq!(back[0].title, "abc");
    assert_ne!(back, lib_b);
}

#[test]
fn save_then_load_returns_the_same_records() {
    let mut lib = Library::new();
    lib.add(full_record());
    lib.add(record("Chained Soldier", MediaType::Anime, Status::Finished));
    let snapshot = lib.snapshot();
    match load(LoadInput::Found(snapshot)) {
        LoadOutcome::Loaded(back) => {
            assert_eq!(back.len(), 2);
            assert_eq!(back.get(0), lib.get(0));
            assert_eq!(back.get(1), lib.get(1));
        },
        _ => panic!("loading a fresh snapshot must succeed"),
    }
}

#[test]
fn missing_resource_bootstraps_an_empty_library() {
    let snap = match load(LoadInput::Missing) {
        LoadOutcome::Created(lib, snap) => {
            assert_eq!(lib.len(), 0);
            snap
        },
        _ => panic!("a missing resource must create the library"),
    };
    match load(LoadInput::Found(snap)) {
        LoadOutcome::Loaded(lib) => assert_eq!(lib.len(), 0),
        _ => panic!("the bootstrap snapshot must load"),
    }
}

#[test]
fn malformed_content_recovers_to_an_empty_library() {
    match load(LoadInput::Found(vec![255, 0, 9])) {
        LoadOutcome::Loaded(lib) => assert_eq!(lib.len(), 0),
        _ => panic!("malformed content must recover to empty"),
    }
}

#[test]
fn read_failure_is_fatal() {
    assert!(matches!(load(LoadInput::Failed), LoadOutcome::Fatal));
}

#[test]
fn add_appends_at_the_end() {
    let mut lib = Library::new();
    lib.add(record("A", MediaType::Anime, Status::OnGoing));
    lib.add(record("B", MediaType::Game, Status::Upcoming));
    assert_eq!(lib.len(), 2);
    assert_eq!(lib.get(0).title, "A");
    assert_eq!(lib.get(1).title, "B");
    let r = lib.search(&String::new(), &no_filter());
    assert_eq!(r.last().unwrap().title, "B");
}

#[test]
fn set_state_changes_only_that_record() {
    let mut lib = Library::new();
    lib.add(record("A", MediaType::Anime, Status::OnGoing));
    lib.add(record("B", MediaType::Game, Status::Upcoming));
    lib.set_state(1, State::Completed);
    assert_eq!(lib.get(0).state, State::NotStarted);
    assert_eq!(lib.get(1).state, State::Completed);
    assert_eq!(lib.get(1).title, "B");
}

#[test]
fn search_on_store_filters_and_indices_agree() {
    let mut lib = Library::new();
    lib.add(record("Frieren", MediaType::Anime, Status::OnGoing));
    lib.add(record("Chained Soldier", MediaType::Anime, Status::Finished));
    lib.add(record("Elden Ring", MediaType::Game, Status::Finished));
    let f = Filter { media_type: Some(MediaType::Anime), status: None, state: None };
    let r = lib.search(&String::new(), &f);
    let idxs = lib.search_indices(&String::new(), &f);
    assert_eq!(idxs, vec![0, 1]);
    assert_eq!(r.len(), 2);
    for (pos, idx) in idxs.iter().enumerate() {
        assert_eq!(&r[pos], lib.get(*idx));
    }
}

#[test]
fn mutating_a_search_result_does_not_touch_the_store() {
    let mut lib = Library::new();
    lib.add(record("Frieren", MediaType::Anime, Status::OnGoing));
    let mut r = lib.search(&String::new(), &no_filter());
    r[0].state = State::Dropped;
    assert_eq!(lib.get(0).state, State::NotStarted);
}

#[test]
fn empty_snapshot_is_exactly_a_zero_count() {
    let lib: Vec<Media> = Vec::new();
    let bytes = encode_library(&lib);
    assert_eq!(bytes, vec![0u8; 8]);
}
