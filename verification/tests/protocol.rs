use quiz_rooms::dispatch::{handle_frame, handle_frames};
use quiz_rooms::store::SessionStore;

fn fresh() -> SessionStore {
    SessionStore::new()
}

#[test]
fn register_then_host_succeeds() {
    let mut store = fresh();
    let r1 = handle_frame(
        &mut store,
        r#"{"request_type":"register_user","data":{"name":"alice","role":"organizer"}}"#,
    );
    assert_eq!(r1, r#"{"name":"alice","role":"organizer"}"#);
    let r2 = handle_frame(
        &mut store,
        r#"{"request_type":"host_room","data":{"user":"alice","room_id":"r1"}}"#,
    );
    assert_eq!(r2, r#"{"room_id":"r1"}"#);
    assert_eq!(store.rooms.len(), 1);
    assert_eq!(store.rooms[0].id, "r1");
}

#[test]
fn host_as_unregistered_fails() {
    let mut store = fresh();
    let r = handle_frame(
        &mut store,
        r#"{"request_type":"host_room","data":{"user":"ghost","room_id":"r1"}}"#,
    );
    assert_eq!(r, r#"{"error":"user not found"}"#);
    assert_eq!(store.rooms.len(), 0);
}

#[test]
fn host_as_attendee_fails() {
    let mut store = fresh();
    handle_frame(
        &mut store,
        r#"{"request_type":"register_user","data":{"name":"amy","role":"attendee"}}"#,
    );
    let r = handle_frame(
        &mut store,
        r#"{"request_type":"host_room","data":{"user":"amy","room_id":"r1"}}"#,
    );
    assert_eq!(r, r#"{"error":"user is not the organizer"}"#);
}

#[test]
fn join_nonexistent_room_fails() {
    let mut store = fresh();
    let r = handle_frame(
        &mut store,
        r#"{"request_type":"join_room","data":{"user":"amy","room_id":"nowhere"}}"#,
    );
    assert_eq!(r, r#"{"error":"room not found"}"#);
}

#[test]
fn join_with_unregistered_user_fails() {
    let mut store = fresh();
    handle_frame(
        &mut store,
        r#"{"request_type":"register_user","data":{"name":"alice","role":"organizer"}}"#,
    );
    handle_frame(
        &mut store,
        r#"{"request_type":"host_room","data":{"user":"alice","room_id":"r1"}}"#,
    );
    let r = handle_frame(
        &mut store,
        r#"{"request_type":"join_room","data":{"user":"ghost","room_id":"r1"}}"#,
    );
    assert_eq!(r, r#"{"error":"user not found"}"#);
    assert_eq!(store.rooms[0].users.len(), 0);
}

#[test]
fn join_grows_member_list_by_one() {
    let mut store = fresh();
    handle_frame(
        &mut store,
        r#"{"request_type":"register_user","data":{"name":"alice","role":"organizer"}}"#,
    );
    handle_frame(
        &mut store,
        r#"{"request_type":"register_user","data":{"name":"bob","role":"attendee"}}"#,
    );
    handle_frame(
        &mut store,
        r#"{"request_type":"host_room","data":{"user":"alice","room_id":"r1"}}"#,
    );
    assert_eq!(store.rooms[0].users.len(), 0);
    let r = handle_frame(
        &mut store,
        r#"{"request_type":"join_room","data":{"user":"bob","room_id":"r1"}}"#,
    );
    assert_eq!(r, r#"{"room_id":"r1"}"#);
    assert_eq!(store.rooms[0].users.len(), 1);
    assert_eq!(store.rooms[0].users[0].name, "bob");
}

#[test]
fn one_reply_per_frame_in_order() {
    let mut store = fresh();
    let frames: Vec<String> = vec![
        r#"{"request_type":"register_user","data":{"name":"alice","role":"organizer"}}"#
            .to_string(),
        "not json at all".to_string(),
        r#"{"request_type":"host_room","data":{"user":"alice","room_id":"r9"}}"#.to_string(),
    ];
    let replies = handle_frames(&mut store, &frames);
    assert_eq!(replies.len(), 3);
    assert_eq!(replies[0], r#"{"name":"alice","role":"organizer"}"#);
    assert_eq!(replies[1], r#"{"error":"invalid JSON"}"#);
    assert_eq!(replies[2], r#"{"room_id":"r9"}"#);
}

#[test]
fn non_json_frame_gets_diagnostic_and_connection_survives() {
    let mut store = fresh();
    let r = handle_frame(&mut store, "{{{{");
    assert_eq!(r, r#"{"error":"invalid JSON"}"#);
    let r2 = handle_frame(
        &mut store,
        r#"{"request_type":"register_user","data":{"name":"alice","role":"organizer"}}"#,
    );
    assert_eq!(r2, r#"{"name":"alice","role":"organizer"}"#);
}

#[test]
fn register_attendee_then_answer_in_unhosted_room() {
    let mut store = fresh();
    let r1 = handle_frame(
        &mut store,
        r#"{"request_type":"register_user","data":{"name":"bob","role":"attendee"}}"#,
    );
    assert_eq!(r1, r#"{"name":"bob","role":"attendee"}"#);
    let r2 = handle_frame(
        &mut store,
        r#"{"request_type":"answer_question","data":{"user":"bob","room_id":"r1","question_id":0,"answer":1}}"#,
    );
    assert_eq!(r2, r#"{"error":"room not found"}"#);
}

#[test]
fn traffic_counter_balances() {
    let mut store = fresh();
    let n = 5;
    let m = 3;
    for _ in 0..n {
        store.connection_opened();
    }
    assert_eq!(store.traffic, n);
    for _ in 0..m {
        store.connection_closed();
    }
    assert_eq!(store.traffic, n - m);
}

#[test]
fn add_questions_replies_but_mutation_is_lost() {
    let mut store = fresh();
    handle_frame(
        &mut store,
        r#"{"request_type":"register_user","data":{"name":"alice","role":"organizer"}}"#,
    );
    handle_frame(
        &mut store,
        r#"{"request_type":"host_room","data":{"user":"alice","room_id":"r1"}}"#,
    );
    handle_frame(
        &mut store,
        r#"{"request_type":"join_room","data":{"user":"alice","room_id":"r1"}}"#,
    );
    let r = handle_frame(
        &mut store,
        r#"{"request_type":"add_questions","data":{"user":"alice","room_id":"r1","questions":[{"id":"q1","question":"2+2?","options":["3","4"],"answer":1}]}}"#,
    );
    assert_eq!(
        r,
        r#"{"room_id":"r1","questions":[{"id":"q1","question":"2+2?","options":["3","4"],"answer":1}]}"#
    );
    // this handler appends to a cloned room list: nothing lands in the store
    assert_eq!(store.rooms[0].questions.len(), 0);
}

#[test]
fn add_questions_without_organizer_member_fails() {
    let mut store = fresh();
    handle_frame(
        &mut store,
        r#"{"request_type":"register_user","data":{"name":"alice","role":"organizer"}}"#,
    );
    handle_frame(
        &mut store,
        r#"{"request_type":"host_room","data":{"user":"alice","room_id":"r1"}}"#,
    );
    // the room has no members at all, so no member is an organizer
    let r = handle_frame(
        &mut store,
        r#"{"request_type":"add_questions","data":{"user":"alice","room_id":"r1","questions":[]}}"#,
    );
    assert_eq!(r, r#"{"error":"user is not the organizer"}"#);
}

#[test]
fn answer_question_replies_but_mutation_is_lost() {
    let mut store = fresh();
    handle_frame(
        &mut store,
        r#"{"request_type":"register_user","data":{"name":"alice","role":"organizer"}}"#,
    );
    handle_frame(
        &mut store,
        r#"{"request_type":"host_room","data":{"user":"alice","room_id":"r1"}}"#,
    );
    handle_frame(
        &mut store,
        r#"{"request_type":"join_room","data":{"user":"alice","room_id":"r1"}}"#,
    );
    let r = handle_frame(
        &mut store,
        r#"{"request_type":"answer_question","data":{"user":"alice","room_id":"r1","question_id":3,"answer":-2}}"#,
    );
    assert_eq!(r, r#"{"room_id":"r1","question_id":3,"answer":-2}"#);
    assert_eq!(store.rooms[0].answers.len(), 0);
}

#[test]
fn answer_question_by_non_member_fails() {
    let mut store = fresh();
    handle_frame(
        &mut store,
        r#"{"request_type":"register_user","data":{"name":"alice","role":"organizer"}}"#,
    );
    handle_frame(
        &mut store,
        r#"{"request_type":"register_user","data":{"name":"bob","role":"attendee"}}"#,
    );
    handle_frame(
        &mut store,
        r#"{"request_type":"host_room","data":{"user":"alice","room_id":"r1"}}"#,
    );
    let r = handle_frame(
        &mut store,
        r#"{"request_type":"answer_question","data":{"user":"bob","room_id":"r1","question_id":0,"answer":0}}"#,
    );
    assert_eq!(r, r#"{"error":"user not found"}"#);
}

#[test]
fn shape_mismatch_is_its_own_error() {
    let mut store = fresh();
    let r = handle_frame(
        &mut store,
        r#"{"request_type":"register_user","data":{"user":"alice","room_id":"r1"}}"#,
    );
    assert_eq!(
        r,
        r#"{"error":"expected RegisterUser data, received something else"}"#
    );
}

#[test]
fn payload_matching_no_shape_is_malformed() {
    let mut store = fresh();
    let r = handle_frame(
        &mut store,
        r#"{"request_type":"register_user","data":{"something":"else"}}"#,
    );
    assert_eq!(
        r,
        r#"{"error":"request data does not match any request shape"}"#
    );
}

#[test]
fn unknown_tag_is_malformed_envelope() {
    let mut store = fresh();
    let r = handle_frame(
        &mut store,
        r#"{"request_type":"destroy_room","data":{"user":"alice","room_id":"r1"}}"#,
    );
    assert_eq!(r, r#"{"error":"request envelope does not match the schema"}"#);
    let r2 = handle_frame(&mut store, r#"[1,2,3]"#);
    assert_eq!(r2, r#"{"error":"request envelope does not match the schema"}"#);
}

#[test]
fn duplicate_room_ids_first_match_wins() {
    let mut store = fresh();
    handle_frame(
        &mut store,
        r#"{"request_type":"register_user","data":{"name":"alice","role":"organizer"}}"#,
    );
    handle_frame(
        &mut store,
        r#"{"request_type":"host_room","data":{"user":"alice","room_id":"dup"}}"#,
    );
    handle_frame(
        &mut store,
        r#"{"request_type":"host_room","data":{"user":"alice","room_id":"dup"}}"#,
    );
    assert_eq!(store.rooms.len(), 2);
    handle_frame(
        &mut store,
        r#"{"request_type":"join_room","data":{"user":"alice","room_id":"dup"}}"#,
    );
    assert_eq!(store.rooms[0].users.len(), 1);
    assert_eq!(store.rooms[1].users.len(), 0);
}

#[test]
fn whitespace_and_field_order_are_tolerated() {
    let mut store = fresh();
    let r = handle_frame(
        &mut store,
        " { \"data\" : { \"role\" : \"organizer\" , \"name\" : \"alice\" } , \"request_type\" : \"register_user\" } ",
    );
    assert_eq!(r, r#"{"name":"alice","role":"organizer"}"#);
}

#[test]
fn string_escapes_round_through_register() {
    let mut store = fresh();
    let r = handle_frame(
        &mut store,
        r#"{"request_type":"register_user","data":{"name":"a\"b\\c\nd","role":"attendee"}}"#,
    );
    assert_eq!(r, "{\"name\":\"a\\\"b\\\\c\\nd\",\"role\":\"attendee\"}");
}

#[test]
fn numbers_with_leading_zeros_are_invalid_json() {
    let mut store = fresh();
    let r = handle_frame(
        &mut store,
        r#"{"request_type":"answer_question","data":{"user":"bob","room_id":"r1","question_id":007,"answer":1}}"#,
    );
    assert_eq!(r, r#"{"error":"invalid JSON"}"#);
}

#[test]
fn answer_outside_i32_range_is_not_an_answer_payload() {
    let mut store = fresh();
    // the oversized answer disqualifies the answer_question shape, but the
    // user and room_id fields still fit the room-request shape
    let r = handle_frame(
        &mut store,
        r#"{"request_type":"answer_question","data":{"user":"bob","room_id":"r1","question_id":0,"answer":3000000000}}"#,
    );
    assert_eq!(
        r,
        r#"{"error":"expected AnswerQuestion data, received something else"}"#
    );
}

#[test]
fn number_beyond_i64_is_invalid_json() {
    let mut store = fresh();
    let r = handle_frame(
        &mut store,
        r#"{"request_type":"answer_question","data":{"user":"bob","room_id":"r1","question_id":99999999999999999999999,"answer":1}}"#,
    );
    assert_eq!(r, r#"{"error":"invalid JSON"}"#);
}

#[test]
fn duplicate_user_names_are_permitted_and_first_wins() {
    let mut store = fresh();
    handle_frame(
        &mut store,
        r#"{"request_type":"register_user","data":{"name":"sam","role":"attendee"}}"#,
    );
    handle_frame(
        &mut store,
        r#"{"request_type":"register_user","data":{"name":"sam","role":"organizer"}}"#,
    );
    assert_eq!(store.users.len(), 2);
    // hosting looks the name up: the first registered "sam" is an attendee
    let r = handle_frame(
        &mut store,
        r#"{"request_type":"host_room","data":{"user":"sam","room_id":"r1"}}"#,
    );
    assert_eq!(r, r#"{"error":"user is not the organizer"}"#);
}
