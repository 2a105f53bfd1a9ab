//! The request dispatcher: one reply per inbound text frame. A frame is
//! decoded, routed by its tag, applied to the shared store under exclusive
//! access, and answered with exactly one reply text. Every error is local:
//! it becomes an error reply and the connection goes on.
//!
//! Two handlers reproduce a documented quirk of the behaviour this library
//! implements: `add_questions` and `answer_question` operate on a cloned
//! room list, so their appends never reach the shared store; only their
//! replies are observable.

use vstd::prelude::*;
use vstd::string::StringExecFns;
use crate::codec::{decode_request, spec_decode_text, DecodeFailure, DecodeModel, RequestModel};
use crate::domain::{Role, Room, RoomModel, User, UserModel};
use crate::json::spec_parse_text;
use crate::encode::{enc_response, encode_response, Response, ResponseModel};
use crate::store::{SessionStore, StoreModel};

verus! {

/// The first user registered under a name, if any.
pub open spec fn find_user(users: Seq<UserModel>, name: Seq<char>) -> Option<UserModel>
    decreases users.len(),
{
    if users.len() == 0 {
        None
    } else if users[0].name == name {
        Some(users[0])
    } else {
        find_user(users.subrange(1, users.len() as int), name)
    }
}

/// The index of the first room with an id, or `-1` if there is none.
pub open spec fn room_index(rooms: Seq<RoomModel>, id: Seq<char>) -> int
    decreases rooms.len(),
{
    if rooms.len() == 0 {
        -1
    } else if rooms[0].id == id {
        0
    } else {
        let r = room_index(rooms.subrange(1, rooms.len() as int), id);
        if r == -1 {
            -1
        } else {
            r + 1
        }
    }
}

/// Whether some member of a room holds the organizer role.
pub open spec fn has_organizer(users: Seq<UserModel>) -> bool {
    exists|k: int| 0 <= k < users.len() && users[k].role == Role::Organizer
}

proof fn lemma_find_user_at(users: Seq<UserModel>, name: Seq<char>, i: int)
    requires
        0 <= i < users.len(),
        forall|t: int| 0 <= t < i ==> users[t].name != name,
        users[i].name == name,
    ensures
        find_user(users, name) == Some(users[i]),
    decreases i,
{
    if i > 0 {
        let rest = users.subrange(1, users.len() as int);
        assert(rest[i - 1] == users[i]);
        assert(forall|t: int| 0 <= t < i - 1 ==> rest[t] == users[t + 1]);
        lemma_find_user_at(rest, name, i - 1);
    }
}

proof fn lemma_find_user_none(users: Seq<UserModel>, name: Seq<char>)
    requires
        forall|t: int| 0 <= t < users.len() ==> users[t].name != name,
    ensures
        find_user(users, name) is None,
    decreases users.len(),
{
    if users.len() > 0 {
        let rest = users.subrange(1, users.len() as int);
        assert(forall|t: int| 0 <= t < rest.len() ==> rest[t] == users[t + 1]);
        lemma_find_user_none(rest, name);
    }
}

proof fn lemma_room_index_at(rooms: Seq<RoomModel>, id: Seq<char>, i: int)
    requires
        0 <= i < rooms.len(),
        forall|t: int| 0 <= t < i ==> rooms[t].id != id,
        rooms[i].id == id,
    ensures
        room_index(rooms, id) == i,
    decreases i,
{
    if i > 0 {
        let rest = rooms.subrange(1, rooms.len() as int);
        assert(rest[i - 1] == rooms[i]);
        assert(forall|t: int| 0 <= t < i - 1 ==> rest[t] == rooms[t + 1]);
        lemma_room_index_at(rest, id, i - 1);
    }
}

proof fn lemma_room_index_none(rooms: Seq<RoomModel>, id: Seq<char>)
    requires
        forall|t: int| 0 <= t < rooms.len() ==> rooms[t].id != id,
    ensures
        room_index(rooms, id) == -1,
    decreases rooms.len(),
{
    if rooms.len() > 0 {
        let rest = rooms.subrange(1, rooms.len() as int);
        assert(forall|t: int| 0 <= t < rest.len() ==> rest[t] == rooms[t + 1]);
        lemma_room_index_none(rest, id);
    }
}

proof fn lemma_room_index_bounds(rooms: Seq<RoomModel>, id: Seq<char>)
    ensures
        -1 <= room_index(rooms, id) < rooms.len(),
        room_index(rooms, id) >= 0 ==> rooms[room_index(rooms, id)].id == id,
    decreases rooms.len(),
{
    if rooms.len() > 0 {
        lemma_room_index_bounds(rooms.subrange(1, rooms.len() as int), id);
    }
}

/// What one request does to the store, and what it replies.
pub open spec fn spec_dispatch(st: StoreModel, req: RequestModel) -> (StoreModel, ResponseModel) {
    match req {
        RequestModel::RegisterUser(u) => (
            StoreModel { users: st.users.push(u), ..st },
            ResponseModel::Registered(u),
        ),
        RequestModel::HostRoom { user, room_id } => match find_user(st.users, user) {
            None => (st, ResponseModel::Rejected { error: "user not found"@ }),
            Some(u) => if u.role != Role::Organizer {
                (st, ResponseModel::Rejected { error: "user is not the organizer"@ })
            } else {
                (
                    StoreModel {
                        rooms: st.rooms.push(
                            RoomModel {
                                id: room_id,
                                users: Seq::empty(),
                                questions: Seq::empty(),
                                answers: Seq::empty(),
                            },
                        ),
                        ..st
                    },
                    ResponseModel::RoomOnly { room_id: room_id },
                )
            },
        },
        RequestModel::JoinRoom { user, room_id } => {
            let ri = room_index(st.rooms, room_id);
            if ri < 0 {
                (st, ResponseModel::Rejected { error: "room not found"@ })
            } else {
                match find_user(st.users, user) {
                    None => (st, ResponseModel::Rejected { error: "user not found"@ }),
                    Some(u) => {
                        let room = st.rooms[ri];
                        (
                            StoreModel {
                                rooms: st.rooms.update(
                                    ri,
                                    RoomModel { users: room.users.push(u), ..room },
                                ),
                                ..st
                            },
                            ResponseModel::RoomOnly { room_id: room_id },
                        )
                    },
                }
            }
        },
        RequestModel::AddQuestions { user, room_id, questions } => {
            let ri = room_index(st.rooms, room_id);
            if ri < 0 {
                (st, ResponseModel::Rejected { error: "room not found"@ })
            } else if has_organizer(st.rooms[ri].users) {
                // the appended questions live only in a cloned room list
                // and never reach the store
                (st, ResponseModel::QuestionsAdded { room_id: room_id, questions: questions })
            } else {
                (st, ResponseModel::Rejected { error: "user is not the organizer"@ })
            }
        },
        RequestModel::AnswerQuestion { user, room_id, question_id, answer } => {
            let ri = room_index(st.rooms, room_id);
            if ri < 0 {
                (st, ResponseModel::Rejected { error: "room not found"@ })
            } else {
                match find_user(st.rooms[ri].users, user) {
                    None => (st, ResponseModel::Rejected { error: "user not found"@ }),
                    // the appended answer likewise never reaches the store
                    Some(_) => (
                        st,
                        ResponseModel::Answered {
                            room_id: room_id,
                            question_id: question_id,
                            answer: answer,
                        },
                    ),
                }
            }
        },
    }
}

/// Law: hosting a room under an unregistered name is rejected with
/// "user not found"; hosting under a registered name whose first
/// registration is not an organizer is rejected with "user is not the
/// organizer". Either way the store is untouched.
pub proof fn lemma_host_requires_registered_organizer(
    st: StoreModel,
    user: Seq<char>,
    room_id: Seq<char>,
)
    ensures
        find_user(st.users, user) is None ==> spec_dispatch(
            st,
            RequestModel::HostRoom { user, room_id },
        ) == (st, ResponseModel::Rejected { error: "user not found"@ }),
        (match find_user(st.users, user) {
            Some(u) => u.role == Role::Attendee,
            None => false,
        }) ==> spec_dispatch(st, RequestModel::HostRoom { user, room_id }) == (
            st,
            ResponseModel::Rejected { error: "user is not the organizer"@ },
        ),
{
}

/// Law: joining a room id that no room carries is rejected with "room not
/// found"; joining an existing room under an unregistered name is rejected
/// with "user not found". Either way the store is untouched.
pub proof fn lemma_join_rejections(st: StoreModel, user: Seq<char>, room_id: Seq<char>)
    ensures
        room_index(st.rooms, room_id) == -1 ==> spec_dispatch(
            st,
            RequestModel::JoinRoom { user, room_id },
        ) == (st, ResponseModel::Rejected { error: "room not found"@ }),
        room_index(st.rooms, room_id) >= 0 && find_user(st.users, user) is None
            ==> spec_dispatch(st, RequestModel::JoinRoom { user, room_id }) == (
            st,
            ResponseModel::Rejected { error: "user not found"@ },
        ),
{
    lemma_room_index_bounds(st.rooms, room_id);
}

/// Law: a join of an existing room by a registered user succeeds and grows
/// that room's member list by exactly one, leaving every other room, the
/// user list and the traffic counter untouched.
pub proof fn lemma_join_appends_exactly_one(st: StoreModel, user: Seq<char>, room_id: Seq<char>)
    requires
        room_index(st.rooms, room_id) >= 0,
        find_user(st.users, user) is Some,
    ensures
        ({
            let ri = room_index(st.rooms, room_id);
            let out = spec_dispatch(st, RequestModel::JoinRoom { user, room_id });
            &&& out.1 == ResponseModel::RoomOnly { room_id }
            &&& out.0.rooms.len() == st.rooms.len()
            &&& out.0.rooms[ri].users.len() == st.rooms[ri].users.len() + 1
            &&& forall|t: int| 0 <= t < st.rooms.len() && t != ri ==> out.0.rooms[t] == st.rooms[t]
            &&& out.0.users == st.users
            &&& out.0.traffic == st.traffic
        }),
{
    lemma_room_index_bounds(st.rooms, room_id);
}

/// Law: a frame that decodes to no request (malformed text or envelope, or
/// a tag whose payload has another request's shape) changes nothing in the
/// store; only an error reply comes back, so the connection's loop goes on.
pub proof fn lemma_rejected_frame_keeps_store(st: StoreModel, t: Seq<char>)
    requires
        !(spec_decode_text(t) is Req),
    ensures
        spec_step(st, t).0 == st,
        exists|m: Seq<char>|
            spec_step(st, t).1 == enc_response(ResponseModel::Rejected { error: m }),
{
}

/// Law: a text frame outside the JSON grammar changes nothing in the store
/// and is answered with an error reply whose diagnostic is non-empty.
pub proof fn lemma_invalid_text_reply(st: StoreModel, t: Seq<char>)
    requires
        spec_parse_text(t) is None,
    ensures
        spec_step(st, t).0 == st,
        spec_step(st, t).1 == enc_response(
            ResponseModel::Rejected { error: "invalid JSON"@ },
        ),
        "invalid JSON"@.len() > 0,
{
    reveal_strlit("invalid JSON");
}

/// The index of the first user registered under a name.
fn find_user_index(users: &Vec<User>, name: &String) -> (r: Option<usize>)
    ensures
        match r {
            Some(i) => i < users@.len() && find_user(users@.map_values(|u: User| u@), name@)
                == Some(users@[i as int]@),
            None => find_user(users@.map_values(|u: User| u@), name@) is None,
        },
{
    let n: usize = users.len();
    let mut i: usize = 0;
    while i < n
        invariant
            i <= n,
            n == users@.len(),
            forall|t: int| 0 <= t < i ==> users@[t]@.name != name@,
        decreases n - i,
    {
        if users[i].name == *name {
            proof {
                lemma_find_user_at(users@.map_values(|u: User| u@), name@, i as int);
            }
            return Some(i);
        }
        i = i + 1;
    }
    proof {
        lemma_find_user_none(users@.map_values(|u: User| u@), name@);
    }
    None
}

/// The index of the first room with an id.
fn find_room_index(rooms: &Vec<Room>, id: &String) -> (r: Option<usize>)
    ensures
        match r {
            Some(i) => i < rooms@.len() && room_index(rooms@.map_values(|r: Room| r@), id@)
                == i as int,
            None => room_index(rooms@.map_values(|r: Room| r@), id@) == -1,
        },
{
    let n: usize = rooms.len();
    let mut i: usize = 0;
    while i < n
        invariant
            i <= n,
            n == rooms@.len(),
            forall|t: int| 0 <= t < i ==> rooms@[t]@.id != id@,
        decreases n - i,
    {
        if rooms[i].id == *id {
            proof {
                lemma_room_index_at(rooms@.map_values(|r: Room| r@), id@, i as int);
            }
            return Some(i);
        }
        i = i + 1;
    }
    proof {
        lemma_room_index_none(rooms@.map_values(|r: Room| r@), id@);
    }
    None
}

/// Whether some member of a room holds the organizer role.
fn members_have_organizer(users: &Vec<User>) -> (r: bool)
    ensures
        r == has_organizer(users@.map_values(|u: User| u@)),
{
    let n: usize = users.len();
    let mut i: usize = 0;
    while i < n
        invariant
            i <= n,
            n == users@.len(),
            forall|t: int| 0 <= t < i ==> users@[t]@.role != Role::Organizer,
        decreases n - i,
    {
        if users[i].role.is_organizer() {
            proof {
                let ghost model = users@.map_values(|u: User| u@);
                assert(model[i as int].role == Role::Organizer);
            }
            return true;
        }
        i = i + 1;
    }
    false
}

/// Applies one decoded request to the store and returns the reply.
pub fn handle_request(store: &mut SessionStore, req: crate::codec::Request) -> (resp: Response)
    ensures
        final(store)@ == spec_dispatch(old(store)@, req@).0,
        resp@ == spec_dispatch(old(store)@, req@).1,
{
    let ghost st0 = old(store)@;
    let ghost reqm = req@;
    match req {
        crate::codec::Request::RegisterUser(u) => {
            let echo = User { name: u.name.clone(), role: u.role };
            store.users.push(u);
            let resp = Response::Registered(echo);
            proof {
                assert(store@ =~~= spec_dispatch(st0, reqm).0);
                assert(resp@ =~~= spec_dispatch(st0, reqm).1);
            }
            resp
        },
        crate::codec::Request::HostRoom { user, room_id } => {
            match find_user_index(&store.users, &user) {
                None => {
                    let resp = Response::Rejected {
                        error: String::from_str("user not found"),
                    };
                    proof {
                        assert(resp@ =~~= spec_dispatch(st0, reqm).1);
                    }
                    resp
                },
                Some(ui) => {
                    if !store.users[ui].role.is_organizer() {
                        let resp = Response::Rejected {
                            error: String::from_str("user is not the organizer"),
                        };
                        proof {
                            assert(resp@ =~~= spec_dispatch(st0, reqm).1);
                        }
                        resp
                    } else {
                        let room = Room {
                            id: room_id.clone(),
                            users: Vec::new(),
                            questions: Vec::new(),
                            answers: Vec::new(),
                        };
                        store.rooms.push(room);
                        let resp = Response::RoomOnly { room_id };
                        proof {
                            assert(store@ =~~= spec_dispatch(st0, reqm).0);
                            assert(resp@ =~~= spec_dispatch(st0, reqm).1);
                        }
                        resp
                    }
                },
            }
        },
        crate::codec::Request::JoinRoom { user, room_id } => {
            match find_room_index(&store.rooms, &room_id) {
                None => {
                    let resp = Response::Rejected {
                        error: String::from_str("room not found"),
                    };
                    proof {
                        assert(resp@ =~~= spec_dispatch(st0, reqm).1);
                    }
                    resp
                },
                Some(ri) => {
                    match find_user_index(&store.users, &user) {
                        None => {
                            let resp = Response::Rejected {
                                error: String::from_str("user not found"),
                            };
                            proof {
                                assert(resp@ =~~= spec_dispatch(st0, reqm).1);
                            }
                            resp
                        },
                        Some(ui) => {
                            let member = User {
                                name: store.users[ui].name.clone(),
                                role: store.users[ui].role,
                            };
                            let mut room: Room = store.rooms.remove(ri);
                            room.users.push(member);
                            store.rooms.insert(ri, room);
                            let resp = Response::RoomOnly { room_id };
                            proof {
                                let ghost ri_s = ri as int;
                                assert(store.rooms@.map_values(|r: Room| r@) =~~= st0
                                    .rooms.update(
                                    ri_s,
                                    RoomModel {
                                        users: st0.rooms[ri_s].users.push(
                                            st0.users[ui as int],
                                        ),
                                        ..st0.rooms[ri_s]
                                    },
                                ));
                                assert(store@ =~~= spec_dispatch(st0, reqm).0);
                                assert(resp@ =~~= spec_dispatch(st0, reqm).1);
                            }
                            resp
                        },
                    }
                },
            }
        },
        crate::codec::Request::AddQuestions { user, room_id, questions } => {
            match find_room_index(&store.rooms, &room_id) {
                None => {
                    let resp = Response::Rejected {
                        error: String::from_str("room not found"),
                    };
                    proof {
                        assert(resp@ =~~= spec_dispatch(st0, reqm).1);
                    }
                    resp
                },
                Some(ri) => {
                    if members_have_organizer(&store.rooms[ri].users) {
                        let resp = Response::QuestionsAdded { room_id, questions };
                        proof {
                            assert(resp@ =~~= spec_dispatch(st0, reqm).1);
                        }
                        resp
                    } else {
                        let resp = Response::Rejected {
                            error: String::from_str("user is not the organizer"),
                        };
                        proof {
                            assert(resp@ =~~= spec_dispatch(st0, reqm).1);
                        }
                        resp
                    }
                },
            }
        },
        crate::codec::Request::AnswerQuestion { user, room_id, question_id, answer } => {
            match find_room_index(&store.rooms, &room_id) {
                None => {
                    let resp = Response::Rejected {
                        error: String::from_str("room not found"),
                    };
                    proof {
                        assert(resp@ =~~= spec_dispatch(st0, reqm).1);
                    }
                    resp
                },
                Some(ri) => {
                    match find_user_index(&store.rooms[ri].users, &user) {
                        None => {
                            let resp = Response::Rejected {
                                error: String::from_str("user not found"),
                            };
                            proof {
                                assert(resp@ =~~= spec_dispatch(st0, reqm).1);
                            }
                            resp
                        },
                        Some(_) => {
                            let resp = Response::Answered { room_id, question_id, answer };
                            proof {
                                assert(resp@ =~~= spec_dispatch(st0, reqm).1);
                            }
                            resp
                        },
                    }
                },
            }
        },
    }
}

/// What one text frame does to the store, and the one reply it produces.
pub open spec fn spec_step(st: StoreModel, t: Seq<char>) -> (StoreModel, Seq<char>) {
    match spec_decode_text(t) {
        DecodeModel::Malformed(m) => (st, enc_response(ResponseModel::Rejected { error: m })),
        DecodeModel::Mismatch(m) => (st, enc_response(ResponseModel::Rejected { error: m })),
        DecodeModel::Req(r) => (
            spec_dispatch(st, r).0,
            enc_response(spec_dispatch(st, r).1),
        ),
    }
}

/// Handles one inbound text frame: decode, dispatch, encode. Exactly one
/// reply text comes back, whatever the frame held.
pub fn handle_frame(store: &mut SessionStore, text: &str) -> (reply: String)
    ensures
        final(store)@ == spec_step(old(store)@, text@).0,
        reply@ == spec_step(old(store)@, text@).1,
{
    match decode_request(text) {
        Err(f) => {
            let msg: String = match f {
                DecodeFailure::Malformed(m) => m,
                DecodeFailure::Mismatch(m) => m,
            };
            encode_response(&Response::Rejected { error: msg })
        },
        Ok(req) => {
            let resp = handle_request(store, req);
            encode_response(&resp)
        },
    }
}

/// The store and replies after a whole sequence of frames, in order.
pub open spec fn spec_run(st: StoreModel, frames: Seq<Seq<char>>) -> (StoreModel, Seq<Seq<char>>)
    decreases frames.len(),
{
    if frames.len() == 0 {
        (st, Seq::empty())
    } else {
        let first = spec_step(st, frames[0]);
        let rest = spec_run(first.0, frames.subrange(1, frames.len() as int));
        (rest.0, seq![first.1] + rest.1)
    }
}

/// Law: a connection produces exactly one reply per inbound frame.
pub proof fn lemma_one_reply_per_frame(st: StoreModel, frames: Seq<Seq<char>>)
    ensures
        spec_run(st, frames).1.len() == frames.len(),
    decreases frames.len(),
{
    if frames.len() > 0 {
        lemma_one_reply_per_frame(
            spec_step(st, frames[0]).0,
            frames.subrange(1, frames.len() as int),
        );
    }
}

/// Law: replies come in request order: the reply to each frame is the step
/// taken from the state the earlier frames left behind, in sequence.
pub proof fn lemma_replies_in_order(st: StoreModel, frames: Seq<Seq<char>>, i: int)
    requires
        0 <= i < frames.len(),
    ensures
        spec_run(st, frames).1.len() == frames.len(),
        spec_run(st, frames).1[i] == spec_step(
            spec_run(st, frames.subrange(0, i)).0,
            frames[i],
        ).1,
    decreases i,
{
    lemma_one_reply_per_frame(st, frames);
    let rest = frames.subrange(1, frames.len() as int);
    if i == 0 {
        assert(frames.subrange(0, 0) =~= Seq::<Seq<char>>::empty());
        lemma_one_reply_per_frame(spec_step(st, frames[0]).0, rest);
    } else {
        lemma_replies_in_order(spec_step(st, frames[0]).0, rest, i - 1);
        assert(rest.subrange(0, i - 1) =~= frames.subrange(1, i));
        assert(frames.subrange(0, i)[0] == frames[0]);
        assert(frames.subrange(0, i).subrange(1, i) =~= frames.subrange(1, i));
        assert(rest[i - 1] == frames[i]);
    }
}

/// Runs a whole connection's worth of frames, in order.
pub fn handle_frames(store: &mut SessionStore, frames: &Vec<String>) -> (replies: Vec<String>)
    ensures
        final(store)@ == spec_run(old(store)@, frames@.map_values(|s: String| s@)).0,
        replies@.map_values(|s: String| s@) == spec_run(
            old(store)@,
            frames@.map_values(|s: String| s@),
        ).1,
        replies@.len() == frames@.len(),
{
    let ghost st0 = old(store)@;
    let ghost fmodel = frames@.map_values(|s: String| s@);
    let n: usize = frames.len();
    let mut replies: Vec<String> = Vec::new();
    let mut i: usize = 0;
    proof {
        assert(fmodel.subrange(0, n as int) =~= fmodel);
        assert(replies@.map_values(|s: String| s@) + spec_run(store@, fmodel).1 =~= spec_run(
            store@,
            fmodel,
        ).1);
    }
    while i < n
        invariant
            i <= n,
            n == frames@.len(),
            fmodel == frames@.map_values(|s: String| s@),
            replies@.len() == i,
            spec_run(st0, fmodel).0 == spec_run(store@, fmodel.subrange(i as int, n as int)).0,
            spec_run(st0, fmodel).1 =~= replies@.map_values(|s: String| s@) + spec_run(
                store@,
                fmodel.subrange(i as int, n as int),
            ).1,
        decreases n - i,
    {
        let ghost pre = store@;
        let ghost rem = fmodel.subrange(i as int, n as int);
        let reply = handle_frame(store, frames[i].as_str());
        let ghost replies0 = replies@;
        replies.push(reply);
        proof {
            assert(rem[0] == fmodel[i as int]);
            assert(rem.subrange(1, rem.len() as int) =~= fmodel.subrange(i as int + 1, n as int));
            assert(replies@.map_values(|s: String| s@) =~= replies0.map_values(|s: String| s@)
                + seq![reply@]);
            assert(replies0.map_values(|s: String| s@) + (seq![reply@] + spec_run(
                store@,
                fmodel.subrange(i as int + 1, n as int),
            ).1) =~= replies@.map_values(|s: String| s@) + spec_run(
                store@,
                fmodel.subrange(i as int + 1, n as int),
            ).1);
        }
        i = i + 1;
    }
    proof {
        assert(fmodel.subrange(n as int, n as int) =~= Seq::<Seq<char>>::empty());
        assert(replies@.map_values(|s: String| s@) + Seq::<Seq<char>>::empty() =~= replies@
            .map_values(|s: String| s@));
    }
    replies
}

} // verus!
