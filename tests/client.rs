use rick_and_morty::character::Character;
use rick_and_morty::decimal::push_decimal;
use rick_and_morty::episode::Episode;
use rick_and_morty::location::Location;
use rick_and_morty::pagination::PageWalk;
use rick_and_morty::related::{Fanout, Link, Progress};
use rick_and_morty::{EntityTypes, Info, Object, PageResponse, API};

fn text(v: &serde_json::Value, key: &str) -> String {
    v[key].as_str().expect("a string field").to_string()
}

fn object(v: &serde_json::Value) -> Object {
    Object { name: text(v, "name"), url: text(v, "url") }
}

fn character_from_json(body: &str) -> Character {
    let v: serde_json::Value = serde_json::from_str(body).expect("a JSON body");
    let mut c = Character::default();
    c.id = v["id"].as_i64().expect("an id");
    c.name = text(&v, "name");
    c.status = text(&v, "status");
    c.species = text(&v, "species");
    c.character_type = text(&v, "type");
    c.gender = text(&v, "gender");
    c.origin = object(&v["origin"]);
    c.location = object(&v["location"]);
    c.image = text(&v, "image");
    c.episode = v["episode"]
        .as_array()
        .expect("a list of episodes")
        .iter()
        .map(|e| e.as_str().expect("a URL").to_string())
        .collect();
    c.url = text(&v, "url");
    c.created = text(&v, "created");
    c
}

fn strings(v: &[&str]) -> Vec<String> {
    v.iter().map(|s| s.to_string()).collect()
}

fn page(results: Vec<i64>, count: i64, next: Option<&str>) -> PageResponse<i64> {
    PageResponse {
        results,
        info: Info { pages: 2, count, next: next.map(|s| s.to_string()), prev: None },
    }
}

#[test]
fn it_gets_a_character() {
    let data = "{ \"id\": 1, \"name\": \"John Doe\", \"status\": \"Alive\", \"species\": \"Human\", \"type\": \"\", \"gender\": \"Male\", \"origin\": { \"name\": \"\", \"url\": \"\" }, \"location\": { \"name\": \"\", \"url\": \"\" }, \"image\": \"mock.jpeg\", \"episode\": [], \"url\": \"mock.mock\", \"created\": \"mock\" }";

    let mut expected = Character::default();
    expected.id = 1;
    expected.name = "John Doe".to_string();
    expected.status = "Alive".to_string();
    expected.character_type = "".to_string();
    expected.gender = "Male".to_string();
    expected.image = "mock.jpeg".to_string();
    expected.url = "mock.mock".to_string();
    expected.created = "mock".to_string();
    expected.species = "Human".to_string();

    // The fixture's server: the request for record 1 goes to `/api/character/1`
    // below it, and the record that it answers with decodes to the expected one.
    let base = "http://127.0.0.1:1234".to_string();
    let api = API::with_base(EntityTypes::Character, base.clone());
    assert_eq!(api.url_for_id(1), format!("{}{}", base, "/api/character/1"));
    assert_eq!(character_from_json(data), expected);
}

#[test]
fn record_url_at_the_public_service() {
    let api = API::new(EntityTypes::Character);
    assert_eq!(api.url_for_id(1), "https://rickandmortyapi.com/api/character/1");
    assert_eq!(api.url_for_id(-42), "https://rickandmortyapi.com/api/character/-42");
    assert_eq!(
        api.url_for_id(i64::MIN),
        "https://rickandmortyapi.com/api/character/-9223372036854775808"
    );
}

#[test]
fn collection_urls_of_each_kind() {
    assert_eq!(API::new(EntityTypes::Character).collection_url(), "https://rickandmortyapi.com/api/character");
    assert_eq!(API::new(EntityTypes::Episode).collection_url(), "https://rickandmortyapi.com/api/episode");
    assert_eq!(API::new(EntityTypes::Location).collection_url(), "https://rickandmortyapi.com/api/location");
    let api = API::with_base(EntityTypes::Location, "http://127.0.0.1:1234".to_string());
    assert_eq!(api.collection_url(), "http://127.0.0.1:1234/api/location");
}

#[test]
fn page_url_names_the_page() {
    let api = API::new(EntityTypes::Location);
    assert_eq!(api.url_for_page(1), "https://rickandmortyapi.com/api/location/?page=1");
    assert_eq!(api.url_for_page(20), "https://rickandmortyapi.com/api/location/?page=20");
}

#[test]
fn multiple_url_lists_the_ids_in_order() {
    let api = API::new(EntityTypes::Episode);
    assert_eq!(api.url_for_ids(&vec![2, 3, 4]), "https://rickandmortyapi.com/api/episode/[2,3,4]");
    assert_eq!(api.url_for_ids(&vec![4, 3, 2]), "https://rickandmortyapi.com/api/episode/[4,3,2]");
    let api = API::new(EntityTypes::Character);
    assert_eq!(api.url_for_ids(&vec![2, 3, 4]), "https://rickandmortyapi.com/api/character/[2,3,4]");
}

#[test]
fn multiple_url_with_one_id_and_with_none() {
    let api = API::new(EntityTypes::Character);
    assert_eq!(api.url_for_ids(&vec![7]), "https://rickandmortyapi.com/api/character/[7]");
    assert_eq!(api.url_for_ids(&vec![]), "https://rickandmortyapi.com/api/character/[]");
    assert_eq!(api.url_for_ids(&vec![-1, 10]), "https://rickandmortyapi.com/api/character/[-1,10]");
}

#[test]
fn decimal_rendering() {
    let cases: Vec<(i64, &str)> = vec![
        (0, "0"),
        (9, "9"),
        (10, "10"),
        (1907, "1907"),
        (-1, "-1"),
        (-100, "-100"),
        (i64::MAX, "9223372036854775807"),
        (i64::MIN, "-9223372036854775808"),
    ];
    for (n, want) in cases {
        let mut out = "id=".to_string();
        push_decimal(n, &mut out);
        assert_eq!(out, format!("id={}", want));
    }
}

#[test]
fn absent_link_asks_nothing() {
    let mut c = Character::default();
    assert!(matches!(c.location_link(), Link::Absent));
    assert!(matches!(c.origin_link(), Link::Absent));
    c.origin = Object { name: "Earth (C-137)".to_string(), url: String::new() };
    assert!(matches!(c.origin_link(), Link::Absent));
}

#[test]
fn present_link_asks_its_url() {
    let mut c = Character::default();
    c.origin = Object {
        name: "Earth (C-137)".to_string(),
        url: "https://rickandmortyapi.com/api/location/1".to_string(),
    };
    c.location = Object {
        name: "Citadel of Ricks".to_string(),
        url: "https://rickandmortyapi.com/api/location/3".to_string(),
    };
    match c.origin_link() {
        Link::Fetch(u) => assert_eq!(u, "https://rickandmortyapi.com/api/location/1"),
        Link::Absent => panic!("the origin is named"),
    }
    match c.location_link() {
        Link::Fetch(u) => assert_eq!(u, "https://rickandmortyapi.com/api/location/3"),
        Link::Absent => panic!("the location is named"),
    }
}

#[test]
fn empty_link_list_resolves_at_once() {
    let c = Character::default();
    match c.episodes_start::<String>() {
        Progress::Done(v) => assert!(v.is_empty()),
        _ => panic!("nothing to ask"),
    }
}

#[test]
fn link_list_asks_each_link_once_in_order() {
    let urls = strings(&["u/1", "u/2", "u/3"]);
    match Fanout::<i64>::start::<String>(&urls) {
        Progress::Waiting(f) => assert_eq!(f.requests(), urls),
        _ => panic!("three requests to make"),
    }
}

#[test]
fn records_come_out_in_link_order() {
    let urls = strings(&["u/1", "u/2", "u/3"]);
    let mut fan = match Fanout::<i64>::start::<String>(&urls) {
        Progress::Waiting(f) => f,
        _ => panic!("three requests to make"),
    };
    for (i, v) in [(2usize, 30i64), (0, 10)] {
        assert!(fan.is_awaiting(i));
        fan = match fan.on_response(i, Ok::<i64, String>(v)) {
            Progress::Waiting(f) => f,
            _ => panic!("one request is still unanswered"),
        };
        assert!(!fan.is_awaiting(i));
    }
    assert!(fan.is_awaiting(1));
    assert!(!fan.is_awaiting(3));
    match fan.on_response(1, Ok::<i64, String>(20)) {
        Progress::Done(v) => assert_eq!(v, vec![10, 20, 30]),
        _ => panic!("every request is answered"),
    }
}

#[test]
fn a_failed_request_fails_the_list() {
    let urls = strings(&["u/1", "u/2"]);
    let fan = match Fanout::<i64>::start::<String>(&urls) {
        Progress::Waiting(f) => f,
        _ => panic!("two requests to make"),
    };
    let fan = match fan.on_response(0, Ok::<i64, String>(1)) {
        Progress::Waiting(f) => f,
        _ => panic!("one request is still unanswered"),
    };
    match fan.on_response(1, Err::<i64, String>("not found".to_string())) {
        Progress::Failed(e) => assert_eq!(e, "not found"),
        _ => panic!("the failure is handed on"),
    }
}

#[test]
fn record_link_lists_start_with_their_urls() {
    let mut e = Episode::default();
    e.characters = strings(&["c/1", "c/2"]);
    match e.characters_start::<String>() {
        Progress::Waiting(f) => assert_eq!(f.requests(), e.characters),
        _ => panic!("two characters to ask for"),
    }
    let mut l = Location::default();
    l.residents = strings(&["c/38"]);
    match l.residents_start::<String>() {
        Progress::Waiting(f) => assert_eq!(f.requests(), l.residents),
        _ => panic!("one resident to ask for"),
    }
    let mut c = Character::default();
    c.episode = strings(&["e/1", "e/2", "e/3"]);
    match c.episodes_start::<String>() {
        Progress::Waiting(f) => assert_eq!(f.requests(), c.episode),
        _ => panic!("three episodes to ask for"),
    }
}

#[test]
fn pages_are_gathered_in_order() {
    let mut walk = PageWalk::new();
    let next = walk.on_page(page(vec![1, 2, 3], 5, Some("p/2")));
    assert_eq!(next, Some("p/2".to_string()));
    let next = walk.on_page(page(vec![4, 5], 5, None));
    assert_eq!(next, None);
    let all = walk.into_results();
    assert_eq!(all.len(), 5);
    assert_eq!(all, vec![1, 2, 3, 4, 5]);
}

#[test]
fn a_walk_with_no_page_has_no_record() {
    let walk: PageWalk<i64> = PageWalk::new();
    assert!(walk.into_results().is_empty());
}

#[test]
fn next_url_of_a_page() {
    assert_eq!(page(vec![1], 2, Some("p/2")).next_url(), Some("p/2".to_string()));
    assert_eq!(page(vec![2], 2, None).next_url(), None);
}
