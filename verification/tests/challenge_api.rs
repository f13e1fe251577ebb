use splat_challenges::challenge::Challenge;
use splat_challenges::challenge::ChallengeError;
use splat_challenges::challenge::NewChallenge;
use splat_challenges::challenge::Store;
use splat_challenges::handlers::delete_route;
use splat_challenges::handlers::get_route;
use splat_challenges::handlers::index;
use splat_challenges::handlers::post_route;
use splat_challenges::handlers::RequestBody;
use splat_challenges::handlers::Response;
use splat_challenges::handlers::ResponseBody;

fn record(title: &str, description: &str) -> NewChallenge {
    NewChallenge { title: title.to_string(), description: description.to_string() }
}

fn envelope_of(r: Response) -> splat_challenges::handlers::Envelope {
    match r.body {
        ResponseBody::Envelope(env) => env,
        _ => panic!("expected an envelope body"),
    }
}

#[test]
fn invalid_index_is_not_found() {
    let store = Store::new();
    let r = get_route("lolthisdonotexist", &store);
    assert_eq!(r.status, 404);
}

#[test]
fn nonexistent_index_is_not_found() {
    let store = Store::new();
    let r = get_route("1", &store);
    assert_eq!(r.status, 404);
}

#[test]
fn valid_index_is_acceptable() {
    let mut store = Store::new();
    let created = post_route(
        RequestBody::Records(vec![record("Basic baby!", "Desc goes here")]),
        &mut store,
    );
    assert_eq!(created.status, 201);
    let env = envelope_of(created);
    assert_eq!(env.modified_ids.len(), 1);
    let segment = format!("{}", env.modified_ids[0]);
    let r = get_route(&segment, &store);
    assert_eq!(r.status, 200);
}

#[test]
fn post_single_then_get_returns_same_record() {
    let mut store = Store::new();
    let created = post_route(
        RequestBody::Records(vec![record("Basic baby!", "Desc goes here")]),
        &mut store,
    );
    assert_eq!(created.status, 201);
    let env = envelope_of(created);
    assert!(!env.error);
    assert_eq!(env.modified_ids, vec![1]);
    assert_eq!(env.links, vec!["http://localhost:8000/challenges/1".to_string()]);
    let fetched = get_route("1", &store);
    assert_eq!(fetched.status, 200);
    match fetched.body {
        ResponseBody::OneChallenge(c) => {
            assert_eq!(c.id, 1);
            assert_eq!(c.title, "Basic baby!");
            assert_eq!(c.description, "Desc goes here");
        }
        _ => panic!("expected a single challenge body"),
    }
}

#[test]
fn post_batch_reports_ids_in_submission_order() {
    let mut store = Store::new();
    let created = post_route(
        RequestBody::Records(vec![record("Batch 1!", "Foo"), record("Batch 2!", "Foo")]),
        &mut store,
    );
    assert_eq!(created.status, 201);
    let env = envelope_of(created);
    assert!(!env.error);
    assert_eq!(env.modified_ids, vec![1, 2]);
    let first = match get_route("1", &store).body {
        ResponseBody::OneChallenge(c) => c.title,
        _ => panic!("expected a single challenge body"),
    };
    let second = match get_route("2", &store).body {
        ResponseBody::OneChallenge(c) => c.title,
        _ => panic!("expected a single challenge body"),
    };
    assert_eq!(first, "Batch 1!");
    assert_eq!(second, "Batch 2!");
}

#[test]
fn delete_of_never_created_id_is_not_found() {
    let mut store = Store::new();
    let r = delete_route("12", &mut store);
    assert_eq!(r.status, 404);
}

#[test]
fn malformed_body_is_bad_request() {
    let mut store = Store::new();
    let r = post_route(RequestBody::Malformed, &mut store);
    assert_eq!(r.status, 400);
    let env = envelope_of(r);
    assert!(env.error);
    assert_eq!(env.details, "Unable to parse given body.");
    assert_eq!(Challenge::list(&store).unwrap().len(), 0);
}

#[test]
fn invalid_body_is_unprocessable() {
    let mut store = Store::new();
    let r = post_route(RequestBody::Invalid, &mut store);
    assert_eq!(r.status, 422);
    let env = envelope_of(r);
    assert!(env.error);
    assert_eq!(env.details, "Couldn't process body data in given request.");
    assert_eq!(Challenge::list(&store).unwrap().len(), 0);
}

#[test]
fn empty_batch_is_rejected_without_storage_effect() {
    let mut store = Store::new();
    let r = post_route(RequestBody::Records(Vec::new()), &mut store);
    assert_eq!(r.status, 422);
    let env = envelope_of(r);
    assert!(env.error);
    assert_eq!(Challenge::list(&store).unwrap().len(), 0);
}

#[test]
fn add_then_list_holds_exactly_the_added_rows() {
    let mut store = Store::new();
    let created = post_route(
        RequestBody::Records(vec![
            record("one", "first"),
            record("two", "second"),
            record("three", "third"),
        ]),
        &mut store,
    );
    assert_eq!(created.status, 201);
    let rows = Challenge::list(&store).unwrap();
    assert_eq!(rows.len(), 3);
    let ids: Vec<i32> = rows.iter().map(|c| c.id).collect();
    assert_eq!(ids, vec![1, 2, 3]);
    let titles: Vec<&str> = rows.iter().map(|c| c.title.as_str()).collect();
    assert_eq!(titles, vec!["one", "two", "three"]);
}

#[test]
fn second_delete_of_same_id_is_not_found() {
    let mut store = Store::new();
    post_route(RequestBody::Records(vec![record("ephemeral", "gone soon")]), &mut store);
    let first = delete_route("1", &mut store);
    assert_eq!(first.status, 202);
    let env = envelope_of(first);
    assert!(!env.error);
    assert_eq!(env.modified_ids, vec![1]);
    let second = delete_route("1", &mut store);
    assert_eq!(second.status, 404);
    assert_eq!(Challenge::list(&store).unwrap().len(), 0);
}

#[test]
fn round_trip_keeps_non_ascii_text() {
    let mut store = Store::new();
    let title = "Übung macht den Meister ✓";
    let description = "説明はこちら — 完全に同じまま";
    let created = post_route(RequestBody::Records(vec![record(title, description)]), &mut store);
    assert_eq!(created.status, 201);
    let fetched = Challenge::get(1, &store).unwrap();
    assert_eq!(fetched.title, title);
    assert_eq!(fetched.description, description);
}

#[test]
fn get_and_remove_of_absent_id_signal_not_found() {
    let mut store = Store::new();
    post_route(RequestBody::Records(vec![record("kept", "still here")]), &mut store);
    assert_eq!(Challenge::get(55, &store).unwrap_err(), ChallengeError::NotFoundError);
    assert_eq!(Challenge::remove(55, &mut store).unwrap_err(), ChallengeError::NotFoundError);
    assert_eq!(Challenge::list(&store).unwrap().len(), 1);
}

#[test]
fn not_found_envelope_names_the_id() {
    let store = Store::new();
    let r = get_route("007", &store);
    assert_eq!(r.status, 404);
    let env = envelope_of(r);
    assert!(env.error);
    assert_eq!(env.details, "Unable to find challenge with ID (7)");
    let mut store = store;
    let d = delete_route("-3", &mut store);
    assert_eq!(d.status, 404);
    let env = envelope_of(d);
    assert_eq!(env.details, "No such challenge with id (-3)");
}

#[test]
fn index_welcomes_with_navigation() {
    let r = index();
    assert_eq!(r.status, 200);
    let env = envelope_of(r);
    assert!(!env.error);
    assert_eq!(env.details, "Welcome to Splat Challenges API!");
    assert_eq!(env.links, vec!["http://localhost:8000/challenges".to_string()]);
}

#[test]
fn exhausted_id_space_is_a_database_error() {
    let mut store = Store { rows: Vec::new(), next_id: i32::MAX };
    let direct = Challenge::add(vec![record("too", "late")], &mut store);
    assert_eq!(direct.unwrap_err(), ChallengeError::DatabaseError);
    assert_eq!(Challenge::list(&store).unwrap().len(), 0);
    let r = post_route(RequestBody::Records(vec![record("too", "late")]), &mut store);
    assert_eq!(r.status, 500);
    let env = envelope_of(r);
    assert!(env.error);
}

#[test]
fn remove_all_resets_rows_but_not_ids() {
    let mut store = Store::new();
    post_route(RequestBody::Records(vec![record("a", "1"), record("b", "2")]), &mut store);
    let drained = Challenge::remove_all(&mut store).unwrap();
    assert_eq!(drained.len(), 2);
    assert_eq!(drained[0].title, "a");
    assert_eq!(Challenge::list(&store).unwrap().len(), 0);
    let created = post_route(RequestBody::Records(vec![record("c", "3")]), &mut store);
    let env = envelope_of(created);
    assert_eq!(env.modified_ids, vec![3]);
}
