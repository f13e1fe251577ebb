//! The resource handler layer: maps each parsed request to a persistence
//! operation and renders the outcome as an HTTP status code plus a
//! JSON-shaped envelope.
//!
//! Status mapping: listing succeeds with 200; a lookup yields 200 or 404; a
//! batch insert yields 201, or 422 for an empty batch (a client error, not a
//! storage one), or 500 when storage fails; a deletion yields 202 or 404.
//! Boundary failures are rendered by the catchers: 400 for a body that does
//! not parse, 422 for one that parses but fails the schema, 404 for a path
//! that names no resource (a non-numeric id among them), 500 for anything
//! unhandled.

use vstd::prelude::*;
use vstd::string::StringExecFns;

use crate::challenge::added_rows;
use crate::challenge::contains_id;
use crate::challenge::index_of;
use crate::challenge::Challenge;
use crate::challenge::ChallengeError;
use crate::challenge::NewChallenge;
use crate::challenge::Store;
use crate::digits::i32_to_string;
use crate::digits::int_rep;
use crate::digits::parse_i32;
use crate::digits::parse_i32_spec;

verus! {

/// The fixed-shape JSON wrapper of every non-resource response: an error
/// flag, a human-readable detail line, the ids a mutating operation touched,
/// and the resource locations a creation reports.
pub struct Envelope {
    pub error: bool,
    pub details: String,
    pub modified_ids: Vec<i32>,
    pub links: Vec<String>,
}

/// What a response carries: a resource listing, a single resource, or an
/// envelope.
pub enum ResponseBody {
    ChallengeList(Vec<Challenge>),
    OneChallenge(Challenge),
    Envelope(Envelope),
}

/// A rendered response: the HTTP status code and the body to serialize.
pub struct Response {
    pub status: u16,
    pub body: ResponseBody,
}

/// How the boundary hands over a request body for a batch insert: the parsed
/// records, or the fact that the body was not JSON at all, or the fact that
/// it was JSON of the wrong schema.
pub enum RequestBody {
    Records(Vec<NewChallenge>),
    Malformed,
    Invalid,
}

/// The detail line of a failed lookup, naming the id.
pub open spec fn get_not_found_details(id: int) -> Seq<char> {
    "Unable to find challenge with ID ("@ + int_rep(id) + ")"@
}

/// The detail line of a failed deletion, naming the id.
pub open spec fn delete_not_found_details(id: int) -> Seq<char> {
    "No such challenge with id ("@ + int_rep(id) + ")"@
}

/// The location of the resource with the given id.
pub open spec fn challenge_url(id: int) -> Seq<char> {
    "http://localhost:8000/challenges/"@ + int_rep(id)
}

fn envelope_response(status: u16, error: bool, details: String) -> (r: Response)
    ensures
        r.status == status,
        r.body matches ResponseBody::Envelope(env) && env.error == error && env.details@
            == details@ && env.modified_ids@.len() == 0 && env.links@.len() == 0,
{
    Response {
        status,
        body: ResponseBody::Envelope(
            Envelope { error, details, modified_ids: Vec::new(), links: Vec::new() },
        ),
    }
}

/// The welcome endpoint: a 200 envelope pointing at the resource collection.
pub fn index() -> (r: Response)
    ensures
        r.status == 200,
        r.body matches ResponseBody::Envelope(env) && env.error == false && env.details@
            == "Welcome to Splat Challenges API!"@ && env.modified_ids@.len() == 0
            && env.links@.len() == 1 && env.links@[0]@ == "http://localhost:8000/challenges"@,
{
    let mut links: Vec<String> = Vec::new();
    links.push(String::from_str("http://localhost:8000/challenges"));
    Response {
        status: 200,
        body: ResponseBody::Envelope(
            Envelope {
                error: false,
                details: String::from_str("Welcome to Splat Challenges API!"),
                modified_ids: Vec::new(),
                links,
            },
        ),
    }
}

/// Lists the whole collection: 200 with every row in ascending id order.
/// A storage engine that can fail a read would map the failure to 500; in
/// this model the read always succeeds.
pub fn list(store: &Store) -> (r: Response)
    requires
        store.wf(),
    ensures
        r.status == 200,
        r.body matches ResponseBody::ChallengeList(rows) && rows.deep_view() == store@,
{
    match Challenge::list(store) {
        Ok(rows) => Response { status: 200, body: ResponseBody::ChallengeList(rows) },
        Err(_) => envelope_response(
            500,
            true,
            String::from_str("Encountered internal error trying to list challenges"),
        ),
    }
}

/// Fetches one row by id: 200 with the row, or 404 with an envelope naming
/// the id when no row carries it.
pub fn get(id: i32, store: &Store) -> (r: Response)
    requires
        store.wf(),
    ensures
        contains_id(store@, id as int) ==> r.status == 200 && (
        r.body matches ResponseBody::OneChallenge(c) && c@ == store@[index_of(
            store@,
            id as int,
        )]),
        !contains_id(store@, id as int) ==> r.status == 404 && (
        r.body matches ResponseBody::Envelope(env) && env.error == true && env.details@
            == get_not_found_details(id as int)),
{
    match Challenge::get(id, store) {
        Ok(c) => Response { status: 200, body: ResponseBody::OneChallenge(c) },
        Err(_) => {
            let mut details = String::from_str("Unable to find challenge with ID (");
            let rendered = i32_to_string(id);
            details.append(rendered.as_str());
            details.append(")");
            proof {
                assert(details@ =~= get_not_found_details(id as int));
            }
            envelope_response(404, true, details)
        },
    }
}

/// Stores a batch of records: 201 with one modified id and one resource
/// location per record, in submission order; 422 for an empty batch, which
/// never reaches storage; 500 when the insert fails, with nothing stored.
pub fn new(input: Vec<NewChallenge>, store: &mut Store) -> (r: Response)
    requires
        old(store).wf(),
    ensures
        final(store).wf(),
        input@.len() == 0 ==> r.status == 422 && *final(store) == *old(store) && (
        r.body matches ResponseBody::Envelope(env) && env.error == true),
        input@.len() > 0 && old(store).next_id + input@.len() > i32::MAX ==> r.status == 500
            && *final(store) == *old(store) && (r.body matches ResponseBody::Envelope(env)
            && env.error == true),
        input@.len() > 0 && old(store).next_id + input@.len() <= i32::MAX ==> r.status == 201
            && final(store)@ == old(store)@ + added_rows(
            input.deep_view(),
            old(store).next_id as int,
        ) && final(store).next_id == old(store).next_id + input@.len() && (
        r.body matches ResponseBody::Envelope(env) && env.error == false
            && env.details@ == "Stored given challenges successfully"@
            && env.modified_ids@.len() == input@.len() && env.links@.len() == input@.len()
            && (forall|i: int|
            0 <= i < input@.len() ==> #[trigger] env.modified_ids@[i] as int == old(
                store,
            ).next_id + i) && (forall|i: int|
            0 <= i < input@.len() ==> #[trigger] env.links@[i]@ == challenge_url(
                old(store).next_id + i,
            ))),
{
    if input.len() == 0 {
        return unprocessable();
    }
    let ghost input_view = input.deep_view();
    let ghost next0 = store.next_id as int;
    match Challenge::add(input, store) {
        Ok(rows) => {
            let n = rows.len();
            proof {
                assert(rows.deep_view().len() == rows@.len());
                assert(added_rows(input_view, next0).len() == input_view.len());
            }
            let mut ids: Vec<i32> = Vec::new();
            let mut links: Vec<String> = Vec::new();
            let mut k: usize = 0;
            while k < n
                invariant
                    n == rows@.len(),
                    n == input_view.len(),
                    k <= n,
                    rows.deep_view() == added_rows(input_view, next0),
                    ids@.len() == k as int,
                    links@.len() == k as int,
                    forall|i: int| 0 <= i < k ==> #[trigger] ids@[i] as int == next0 + i,
                    forall|i: int|
                        0 <= i < k ==> #[trigger] links@[i]@ == challenge_url(next0 + i),
                decreases n - k,
            {
                let id = rows[k].id;
                proof {
                    assert(rows.deep_view()[k as int] == rows@[k as int]@);
                    assert(added_rows(input_view, next0)[k as int].id == next0 + k);
                    assert(id as int == next0 + k);
                }
                ids.push(id);
                let mut url = String::from_str("http://localhost:8000/challenges/");
                let rendered = i32_to_string(id);
                url.append(rendered.as_str());
                proof {
                    assert(url@ =~= challenge_url(next0 + k as int));
                }
                links.push(url);
                k += 1;
            }
            Response {
                status: 201,
                body: ResponseBody::Envelope(
                    Envelope {
                        error: false,
                        details: String::from_str("Stored given challenges successfully"),
                        modified_ids: ids,
                        links,
                    },
                ),
            }
        },
        Err(_) => envelope_response(
            500,
            true,
            String::from_str("Encountered internal error trying to store challenges"),
        ),
    }
}

/// Deletes one row by id: 202 with the deleted id, or 404 with an envelope
/// naming the id when no row carries it; the second deletion of the same id
/// therefore answers 404, while storage is unchanged by it.
pub fn delete(id: i32, store: &mut Store) -> (r: Response)
    requires
        old(store).wf(),
    ensures
        final(store).wf(),
        final(store).next_id == old(store).next_id,
        contains_id(old(store)@, id as int) ==> r.status == 202 && final(store)@ == old(
            store,
        )@.remove(index_of(old(store)@, id as int)) && !contains_id(final(store)@, id as int)
            && (r.body matches ResponseBody::Envelope(env) && env.error == false
            && env.details@ == "Challenge with given ID has been deleted"@
            && env.modified_ids@.len() == 1 && env.modified_ids@[0] == id),
        !contains_id(old(store)@, id as int) ==> r.status == 404 && *final(store) == *old(store)
            && (r.body matches ResponseBody::Envelope(env) && env.error == true && env.details@
            == delete_not_found_details(id as int)),
{
    match Challenge::remove(id, store) {
        Ok(c) => {
            let mut ids: Vec<i32> = Vec::new();
            ids.push(c.id);
            Response {
                status: 202,
                body: ResponseBody::Envelope(
                    Envelope {
                        error: false,
                        details: String::from_str("Challenge with given ID has been deleted"),
                        modified_ids: ids,
                        links: Vec::new(),
                    },
                ),
            }
        },
        Err(e) => match e {
            ChallengeError::NotFoundError => {
                let mut details = String::from_str("No such challenge with id (");
                let rendered = i32_to_string(id);
                details.append(rendered.as_str());
                details.append(")");
                proof {
                    assert(details@ =~= delete_not_found_details(id as int));
                }
                envelope_response(404, true, details)
            },
            ChallengeError::DatabaseError => envelope_response(
                500,
                true,
                String::from_str("Encountered internal error trying to delete challenge"),
            ),
        },
    }
}

/// Catcher for a request body that is not JSON: 400.
pub fn bad_request() -> (r: Response)
    ensures
        r.status == 400,
        r.body matches ResponseBody::Envelope(env) && env.error == true && env.details@
            == "Unable to parse given body."@,
{
    envelope_response(400, true, String::from_str("Unable to parse given body."))
}

/// Catcher for a path that names no resource: 404.
pub fn not_found() -> (r: Response)
    ensures
        r.status == 404,
        r.body matches ResponseBody::Envelope(env) && env.error == true && env.details@
            == "Couldn't find that resource."@,
{
    envelope_response(404, true, String::from_str("Couldn't find that resource."))
}

/// Catcher for a body that is JSON of the wrong schema: 422.
pub fn unprocessable() -> (r: Response)
    ensures
        r.status == 422,
        r.body matches ResponseBody::Envelope(env) && env.error == true && env.details@
            == "Couldn't process body data in given request."@,
{
    envelope_response(
        422,
        true,
        String::from_str("Couldn't process body data in given request."),
    )
}

/// Catcher for any failure no other mapping covers: 500.
pub fn internal_error() -> (r: Response)
    ensures
        r.status == 500,
        r.body matches ResponseBody::Envelope(env) && env.error == true && env.details@
            == "Server made some unhandled poop trying to process request."@,
{
    envelope_response(
        500,
        true,
        String::from_str("Server made some unhandled poop trying to process request."),
    )
}

/// Routes a lookup by raw path segment: a non-numeric segment never reaches
/// the persistence layer and answers 404 directly.
pub fn get_route(segment: &str, store: &Store) -> (r: Response)
    requires
        store.wf(),
    ensures
        parse_i32_spec(segment@) is None ==> r.status == 404 && (
        r.body matches ResponseBody::Envelope(env) && env.error == true && env.details@
            == "Couldn't find that resource."@),
        parse_i32_spec(segment@) matches Some(id) ==> (contains_id(store@, id) ==> r.status
            == 200 && (r.body matches ResponseBody::OneChallenge(c) && c@ == store@[index_of(
            store@,
            id,
        )])) && (!contains_id(store@, id) ==> r.status == 404 && (
        r.body matches ResponseBody::Envelope(env) && env.error == true && env.details@
            == get_not_found_details(id))),
{
    match parse_i32(segment) {
        Some(id) => get(id, store),
        None => not_found(),
    }
}

/// Routes a deletion by raw path segment: a non-numeric segment never
/// reaches the persistence layer, answers 404, and leaves storage unchanged.
pub fn delete_route(segment: &str, store: &mut Store) -> (r: Response)
    requires
        old(store).wf(),
    ensures
        final(store).wf(),
        final(store).next_id == old(store).next_id,
        parse_i32_spec(segment@) is None ==> r.status == 404 && *final(store) == *old(store)
            && (r.body matches ResponseBody::Envelope(env) && env.error == true && env.details@
            == "Couldn't find that resource."@),
        parse_i32_spec(segment@) matches Some(id) ==> (contains_id(old(store)@, id)
            ==> r.status == 202 && final(store)@ == old(store)@.remove(index_of(old(store)@, id))
            && !contains_id(final(store)@, id) && (
        r.body matches ResponseBody::Envelope(env) && env.error == false
            && env.modified_ids@.len() == 1 && env.modified_ids@[0] as int == id)) && (
        !contains_id(old(store)@, id) ==> r.status == 404 && *final(store) == *old(store) && (
        r.body matches ResponseBody::Envelope(env) && env.error == true && env.details@
            == delete_not_found_details(id))),
{
    match parse_i32(segment) {
        Some(id) => delete(id, store),
        None => not_found(),
    }
}

/// Routes a batch insert from the boundary's parse outcome: a body that was
/// not JSON answers 400, one of the wrong schema answers 422, and neither
/// reaches storage; parsed records are stored as [`new`] states.
pub fn post_route(body: RequestBody, store: &mut Store) -> (r: Response)
    requires
        old(store).wf(),
    ensures
        final(store).wf(),
        body is Malformed ==> r.status == 400 && *final(store) == *old(store) && (
        r.body matches ResponseBody::Envelope(env) && env.error == true),
        body is Invalid ==> r.status == 422 && *final(store) == *old(store) && (
        r.body matches ResponseBody::Envelope(env) && env.error == true),
        body matches RequestBody::Records(input) ==> (input@.len() == 0 ==> r.status == 422
            && *final(store) == *old(store)) && (input@.len() > 0 && old(store).next_id
            + input@.len() <= i32::MAX ==> r.status == 201 && final(store)@ == old(store)@
            + added_rows(input.deep_view(), old(store).next_id as int)) && (input@.len() > 0
            && old(store).next_id + input@.len() > i32::MAX ==> r.status == 500 && *final(store)
            == *old(store)),
{
    match body {
        RequestBody::Records(input) => new(input, store),
        RequestBody::Malformed => bad_request(),
        RequestBody::Invalid => unprocessable(),
    }
}

} // verus!
