//! The request envelope: a JSON object `{"request_type": <tag>, "data":
//! <payload>}` whose payload shape is discriminated by the tag. Decoding
//! distinguishes a malformed text or envelope from a tag whose payload has
//! the shape of a different request kind.

use vstd::prelude::*;
use crate::domain::{Question, QuestionModel, Role, User, UserModel};
use crate::json::{
    jview, jview_pairs, jview_seq, lemma_jview_pairs_index, lemma_jview_seq_index, parse_text,
    spec_parse_text, str_chars, Json, JsonModel,
};
use vstd::string::StringExecFns;

verus! {

/// A decoded request.
pub enum Request {
    RegisterUser(User),
    HostRoom { user: String, room_id: String },
    JoinRoom { user: String, room_id: String },
    AddQuestions { user: String, room_id: String, questions: Vec<Question> },
    AnswerQuestion { user: String, room_id: String, question_id: i32, answer: i32 },
}

/// Spec-level model of a request.
#[verifier::ext_equal]
pub enum RequestModel {
    RegisterUser(UserModel),
    HostRoom { user: Seq<char>, room_id: Seq<char> },
    JoinRoom { user: Seq<char>, room_id: Seq<char> },
    AddQuestions { user: Seq<char>, room_id: Seq<char>, questions: Seq<QuestionModel> },
    AnswerQuestion { user: Seq<char>, room_id: Seq<char>, question_id: int, answer: int },
}

impl View for Request {
    type V = RequestModel;

    open spec fn view(&self) -> RequestModel {
        match self {
            Request::RegisterUser(u) => RequestModel::RegisterUser(u@),
            Request::HostRoom { user, room_id } => RequestModel::HostRoom {
                user: user@,
                room_id: room_id@,
            },
            Request::JoinRoom { user, room_id } => RequestModel::JoinRoom {
                user: user@,
                room_id: room_id@,
            },
            Request::AddQuestions { user, room_id, questions } => RequestModel::AddQuestions {
                user: user@,
                room_id: room_id@,
                questions: questions@.map_values(|q: Question| q@),
            },
            Request::AnswerQuestion { user, room_id, question_id, answer } =>
                RequestModel::AnswerQuestion {
                user: user@,
                room_id: room_id@,
                question_id: *question_id as int,
                answer: *answer as int,
            },
        }
    }
}

/// A rejected frame: either the text or envelope is malformed, or the tag
/// and the payload's shape disagree. Both carry the diagnostic that the
/// error reply reports.
pub enum DecodeFailure {
    Malformed(String),
    Mismatch(String),
}

/// Spec-level outcome of decoding a frame.
#[verifier::ext_equal]
pub enum DecodeModel {
    Req(RequestModel),
    Malformed(Seq<char>),
    Mismatch(Seq<char>),
}

/// The first member of an object under a key, if any.
pub open spec fn spec_lookup(members: Seq<(Seq<char>, JsonModel)>, key: Seq<char>) -> Option<
    JsonModel,
>
    decreases members.len(),
{
    if members.len() == 0 {
        None
    } else if members[0].0 == key {
        Some(members[0].1)
    } else {
        spec_lookup(members.subrange(1, members.len() as int), key)
    }
}

/// The `register_user` payload shape: `{name, role}`.
pub open spec fn spec_as_user(d: JsonModel) -> Option<UserModel> {
    match d {
        JsonModel::Obj(m) => match (spec_lookup(m, "name"@), spec_lookup(m, "role"@)) {
            (Some(JsonModel::Text(nm)), Some(JsonModel::Text(rl))) => if rl == "organizer"@ {
                Some(UserModel { name: nm, role: Role::Organizer })
            } else if rl == "attendee"@ {
                Some(UserModel { name: nm, role: Role::Attendee })
            } else {
                None
            },
            _ => None,
        },
        _ => None,
    }
}

/// The `host_room` / `join_room` payload shape: `{user, room_id}`.
pub open spec fn spec_as_room_req(d: JsonModel) -> Option<(Seq<char>, Seq<char>)> {
    match d {
        JsonModel::Obj(m) => match (spec_lookup(m, "user"@), spec_lookup(m, "room_id"@)) {
            (Some(JsonModel::Text(u)), Some(JsonModel::Text(r))) => Some((u, r)),
            _ => None,
        },
        _ => None,
    }
}

/// An integer payload field, required to fit in `i32`.
pub open spec fn spec_as_i32(v: JsonModel) -> Option<int> {
    match v {
        JsonModel::Int(n) => if i32::MIN <= n <= i32::MAX {
            Some(n)
        } else {
            None
        },
        _ => None,
    }
}

/// A run of string items starting at `i`.
pub open spec fn spec_texts_from(items: Seq<JsonModel>, i: int) -> Option<Seq<Seq<char>>>
    decreases items.len() - i,
{
    if !(0 <= i < items.len()) {
        Some(Seq::empty())
    } else {
        match items[i] {
            JsonModel::Text(t) => match spec_texts_from(items, i + 1) {
                Some(r) => Some(seq![t] + r),
                None => None,
            },
            _ => None,
        }
    }
}

/// The shape of one question object: `{id, question, options, answer}`.
pub open spec fn spec_as_question(v: JsonModel) -> Option<QuestionModel> {
    match v {
        JsonModel::Obj(m) => match (
            spec_lookup(m, "id"@),
            spec_lookup(m, "question"@),
            spec_lookup(m, "options"@),
            spec_lookup(m, "answer"@),
        ) {
            (
                Some(JsonModel::Text(id)),
                Some(JsonModel::Text(qt)),
                Some(JsonModel::Arr(opts)),
                Some(ans),
            ) => match (spec_texts_from(opts, 0), spec_as_i32(ans)) {
                (Some(os), Some(a)) => Some(
                    QuestionModel { id: id, question: qt, options: os, answer: a },
                ),
                _ => None,
            },
            _ => None,
        },
        _ => None,
    }
}

/// A run of question items starting at `i`.
pub open spec fn spec_questions_from(items: Seq<JsonModel>, i: int) -> Option<Seq<QuestionModel>>
    decreases items.len() - i,
{
    if !(0 <= i < items.len()) {
        Some(Seq::empty())
    } else {
        match spec_as_question(items[i]) {
            Some(q) => match spec_questions_from(items, i + 1) {
                Some(r) => Some(seq![q] + r),
                None => None,
            },
            None => None,
        }
    }
}

/// The `add_questions` payload shape: `{user, room_id, questions}`.
pub open spec fn spec_as_add_questions(d: JsonModel) -> Option<
    (Seq<char>, Seq<char>, Seq<QuestionModel>),
> {
    match d {
        JsonModel::Obj(m) => match (
            spec_lookup(m, "user"@),
            spec_lookup(m, "room_id"@),
            spec_lookup(m, "questions"@),
        ) {
            (Some(JsonModel::Text(u)), Some(JsonModel::Text(r)), Some(JsonModel::Arr(items))) =>
                match spec_questions_from(items, 0) {
                Some(qs) => Some((u, r, qs)),
                None => None,
            },
            _ => None,
        },
        _ => None,
    }
}

/// The `answer_question` payload shape: `{user, room_id, question_id,
/// answer}`.
pub open spec fn spec_as_answer_question(d: JsonModel) -> Option<
    (Seq<char>, Seq<char>, int, int),
> {
    match d {
        JsonModel::Obj(m) => match (
            spec_lookup(m, "user"@),
            spec_lookup(m, "room_id"@),
            spec_lookup(m, "question_id"@),
            spec_lookup(m, "answer"@),
        ) {
            (Some(JsonModel::Text(u)), Some(JsonModel::Text(r)), Some(q), Some(a)) => match (
                spec_as_i32(q),
                spec_as_i32(a),
            ) {
                (Some(qi), Some(ai)) => Some((u, r, qi, ai)),
                _ => None,
            },
            _ => None,
        },
        _ => None,
    }
}

/// Whether a payload matches any of the five request shapes.
pub open spec fn spec_any_shape(d: JsonModel) -> bool {
    spec_as_user(d) is Some || spec_as_room_req(d) is Some || spec_as_add_questions(d) is Some
        || spec_as_answer_question(d) is Some
}

/// The outcome when a tag's own shape did not fit: a shape mismatch if the
/// payload fits another request kind, otherwise a malformed envelope.
pub open spec fn spec_shape_fail(d: JsonModel, msg: Seq<char>) -> DecodeModel {
    if spec_any_shape(d) {
        DecodeModel::Mismatch(msg)
    } else {
        DecodeModel::Malformed("request data does not match any request shape"@)
    }
}

/// Decoding a payload under its declared tag.
pub open spec fn spec_decode_tagged(tag: Seq<char>, d: JsonModel) -> DecodeModel {
    if tag == "register_user"@ {
        match spec_as_user(d) {
            Some(u) => DecodeModel::Req(RequestModel::RegisterUser(u)),
            None => spec_shape_fail(d, "expected RegisterUser data, received something else"@),
        }
    } else if tag == "host_room"@ {
        match spec_as_room_req(d) {
            Some((u, r)) => DecodeModel::Req(RequestModel::HostRoom { user: u, room_id: r }),
            None => spec_shape_fail(d, "expected HostRoom data, received something else"@),
        }
    } else if tag == "join_room"@ {
        match spec_as_room_req(d) {
            Some((u, r)) => DecodeModel::Req(RequestModel::JoinRoom { user: u, room_id: r }),
            None => spec_shape_fail(d, "expected JoinRoom data, received something else"@),
        }
    } else if tag == "add_questions"@ {
        match spec_as_add_questions(d) {
            Some((u, r, qs)) => DecodeModel::Req(
                RequestModel::AddQuestions { user: u, room_id: r, questions: qs },
            ),
            None => spec_shape_fail(d, "expected AddQuestions data, received something else"@),
        }
    } else if tag == "answer_question"@ {
        match spec_as_answer_question(d) {
            Some((u, r, qi, ai)) => DecodeModel::Req(
                RequestModel::AnswerQuestion {
                    user: u,
                    room_id: r,
                    question_id: qi,
                    answer: ai,
                },
            ),
            None => spec_shape_fail(d, "expected AnswerQuestion data, received something else"@),
        }
    } else {
        DecodeModel::Malformed("request envelope does not match the schema"@)
    }
}

/// Decoding a whole text frame.
pub open spec fn spec_decode_text(t: Seq<char>) -> DecodeModel {
    match spec_parse_text(t) {
        None => DecodeModel::Malformed("invalid JSON"@),
        Some(v) => match v {
            JsonModel::Obj(m) => match (spec_lookup(m, "request_type"@), spec_lookup(m, "data"@)) {
                (Some(JsonModel::Text(tag)), Some(d)) => spec_decode_tagged(tag, d),
                _ => DecodeModel::Malformed("request envelope does not match the schema"@),
            },
            _ => DecodeModel::Malformed("request envelope does not match the schema"@),
        },
    }
}

/// The first member of an object under a key.
pub fn lookup<'a>(members: &'a Vec<(String, Json)>, key: &String) -> (r: Option<&'a Json>)
    ensures
        match r {
            Some(v) => spec_lookup(jview_pairs(members@), key@) == Some(jview(*v)),
            None => spec_lookup(jview_pairs(members@), key@) is None,
        },
{
    proof {
        lemma_jview_pairs_index(members@);
    }
    let n: usize = members.len();
    proof {
        assert(jview_pairs(members@).subrange(0, n as int) =~= jview_pairs(members@));
    }
    let mut i: usize = 0;
    while i < n
        invariant
            i <= n,
            n == members@.len(),
            spec_lookup(jview_pairs(members@), key@) == spec_lookup(
                jview_pairs(members@).subrange(i as int, n as int),
                key@,
            ),
            jview_pairs(members@).len() == members@.len(),
            forall|t: int|
                0 <= t < members@.len() ==> jview_pairs(members@)[t] == (
                    members@[t].0@,
                    jview(members@[t].1),
                ),
        decreases n - i,
    {
        let hit: bool = members[i].0 == *key;
        proof {
            let ghost model = jview_pairs(members@);
            let ghost rest = model.subrange(i as int, n as int);
            assert(rest[0] == model[i as int]);
            assert(rest.subrange(1, rest.len() as int) =~= model.subrange(i as int + 1, n as int));
        }
        if hit {
            return Some(&members[i].1);
        }
        i = i + 1;
    }
    proof {
        assert(jview_pairs(members@).subrange(n as int, n as int) =~= Seq::<
            (Seq<char>, JsonModel),
        >::empty());
    }
    None
}

/// The `register_user` payload, if the shape fits.
pub fn as_user(d: &Json) -> (r: Option<User>)
    ensures
        match r {
            Some(u) => spec_as_user(jview(*d)) == Some(u@),
            None => spec_as_user(jview(*d)) is None,
        },
{
    match d {
        Json::Obj(members) => {
            let name_key: String = String::from_str("name");
            let role_key: String = String::from_str("role");
            match lookup(members, &name_key) {
                Some(Json::Text(nm)) => match lookup(members, &role_key) {
                    Some(Json::Text(rl)) => {
                        let organizer: String = String::from_str("organizer");
                        let attendee: String = String::from_str("attendee");
                        if *rl == organizer {
                            Some(User { name: nm.clone(), role: Role::Organizer })
                        } else if *rl == attendee {
                            Some(User { name: nm.clone(), role: Role::Attendee })
                        } else {
                            None
                        }
                    },
                    _ => None,
                },
                _ => None,
            }
        },
        _ => None,
    }
}

/// The `host_room` / `join_room` payload, if the shape fits.
pub fn as_room_req(d: &Json) -> (r: Option<(String, String)>)
    ensures
        match r {
            Some(p) => spec_as_room_req(jview(*d)) == Some((p.0@, p.1@)),
            None => spec_as_room_req(jview(*d)) is None,
        },
{
    match d {
        Json::Obj(members) => {
            let user_key: String = String::from_str("user");
            let room_key: String = String::from_str("room_id");
            match lookup(members, &user_key) {
                Some(Json::Text(u)) => match lookup(members, &room_key) {
                    Some(Json::Text(rid)) => Some((u.clone(), rid.clone())),
                    _ => None,
                },
                _ => None,
            }
        },
        _ => None,
    }
}

/// An integer payload field, required to fit in `i32`.
pub fn as_i32(v: &Json) -> (r: Option<i32>)
    ensures
        match r {
            Some(n) => spec_as_i32(jview(*v)) == Some(n as int),
            None => spec_as_i32(jview(*v)) is None,
        },
{
    match v {
        Json::Int(n) => {
            let n: i64 = *n;
            if -2147483648i64 <= n && n <= 2147483647i64 {
                Some(n as i32)
            } else {
                None
            }
        },
        _ => None,
    }
}

/// The option texts of a question, if every item is a string.
pub fn as_texts(items: &Vec<Json>) -> (r: Option<Vec<String>>)
    ensures
        match r {
            Some(ts) => spec_texts_from(jview_seq(items@), 0) == Some(
                ts@.map_values(|s: String| s@),
            ),
            None => spec_texts_from(jview_seq(items@), 0) is None,
        },
{
    proof {
        lemma_jview_seq_index(items@);
    }
    let ghost model = jview_seq(items@);
    let n: usize = items.len();
    let mut out: Vec<String> = Vec::new();
    let mut i: usize = 0;
    while i < n
        invariant
            i <= n,
            n == items@.len(),
            model == jview_seq(items@),
            model.len() == items@.len(),
            forall|t: int| 0 <= t < items@.len() ==> model[t] == jview(items@[t]),
            out@.len() == i,
            spec_texts_from(model, 0) == match spec_texts_from(model, i as int) {
                Some(rest) => Some(out@.map_values(|s: String| s@) + rest),
                None => None::<Seq<Seq<char>>>,
            },
        decreases n - i,
    {
        match &items[i] {
            Json::Text(t) => {
                let ghost out0 = out@;
                out.push(t.clone());
                proof {
                    assert(out@.map_values(|s: String| s@) =~= out0.map_values(|s: String| s@)
                        + seq![t@]);
                    if spec_texts_from(model, i as int + 1) is Some {
                        assert(out0.map_values(|s: String| s@) + (seq![t@] + spec_texts_from(
                            model,
                            i as int + 1,
                        )->Some_0) =~= out@.map_values(|s: String| s@) + spec_texts_from(
                            model,
                            i as int + 1,
                        )->Some_0);
                    }
                }
            },
            _ => {
                return None;
            },
        }
        i = i + 1;
    }
    proof {
        assert(out@.map_values(|s: String| s@) + Seq::<Seq<char>>::empty() =~= out@.map_values(
            |s: String| s@,
        ));
    }
    Some(out)
}

/// One question object, if the shape fits.
pub fn as_question(v: &Json) -> (r: Option<Question>)
    ensures
        match r {
            Some(q) => spec_as_question(jview(*v)) == Some(q@),
            None => spec_as_question(jview(*v)) is None,
        },
{
    match v {
        Json::Obj(members) => {
            let id_key: String = String::from_str("id");
            let q_key: String = String::from_str("question");
            let o_key: String = String::from_str("options");
            let a_key: String = String::from_str("answer");
            match lookup(members, &id_key) {
                Some(Json::Text(id)) => match lookup(members, &q_key) {
                    Some(Json::Text(qt)) => match lookup(members, &o_key) {
                        Some(Json::Arr(opts)) => match lookup(members, &a_key) {
                            Some(ans) => match as_texts(opts) {
                                Some(os) => match as_i32(ans) {
                                    Some(a) => Some(
                                        Question {
                                            id: id.clone(),
                                            question: qt.clone(),
                                            options: os,
                                            answer: a,
                                        },
                                    ),
                                    None => None,
                                },
                                None => None,
                            },
                            None => None,
                        },
                        _ => None,
                    },
                    _ => None,
                },
                _ => None,
            }
        },
        _ => None,
    }
}

/// The question list, if every item fits the question shape.
pub fn as_questions(items: &Vec<Json>) -> (r: Option<Vec<Question>>)
    ensures
        match r {
            Some(qs) => spec_questions_from(jview_seq(items@), 0) == Some(
                qs@.map_values(|q: Question| q@),
            ),
            None => spec_questions_from(jview_seq(items@), 0) is None,
        },
{
    proof {
        lemma_jview_seq_index(items@);
    }
    let ghost model = jview_seq(items@);
    let n: usize = items.len();
    let mut out: Vec<Question> = Vec::new();
    let mut i: usize = 0;
    while i < n
        invariant
            i <= n,
            n == items@.len(),
            model == jview_seq(items@),
            model.len() == items@.len(),
            forall|t: int| 0 <= t < items@.len() ==> model[t] == jview(items@[t]),
            spec_questions_from(model, 0) == match spec_questions_from(model, i as int) {
                Some(rest) => Some(out@.map_values(|q: Question| q@) + rest),
                None => None::<Seq<QuestionModel>>,
            },
        decreases n - i,
    {
        match as_question(&items[i]) {
            Some(q) => {
                let ghost out0 = out@;
                let ghost qm = q@;
                out.push(q);
                proof {
                    assert(out@.map_values(|q: Question| q@) =~= out0.map_values(|q: Question| q@)
                        + seq![qm]);
                    if spec_questions_from(model, i as int + 1) is Some {
                        assert(out0.map_values(|q: Question| q@) + (seq![qm] + spec_questions_from(
                            model,
                            i as int + 1,
                        )->Some_0) =~= out@.map_values(|q: Question| q@) + spec_questions_from(
                            model,
                            i as int + 1,
                        )->Some_0);
                    }
                }
            },
            None => {
                return None;
            },
        }
        i = i + 1;
    }
    proof {
        assert(out@.map_values(|q: Question| q@) + Seq::<QuestionModel>::empty() =~= out@
            .map_values(|q: Question| q@));
    }
    Some(out)
}

/// The `add_questions` payload, if the shape fits.
pub fn as_add_questions(d: &Json) -> (r: Option<(String, String, Vec<Question>)>)
    ensures
        match r {
            Some(p) => spec_as_add_questions(jview(*d)) == Some(
                (p.0@, p.1@, p.2@.map_values(|q: Question| q@)),
            ),
            None => spec_as_add_questions(jview(*d)) is None,
        },
{
    match d {
        Json::Obj(members) => {
            let user_key: String = String::from_str("user");
            let room_key: String = String::from_str("room_id");
            let qs_key: String = String::from_str("questions");
            match lookup(members, &user_key) {
                Some(Json::Text(u)) => match lookup(members, &room_key) {
                    Some(Json::Text(rid)) => match lookup(members, &qs_key) {
                        Some(Json::Arr(items)) => match as_questions(items) {
                            Some(qs) => Some((u.clone(), rid.clone(), qs)),
                            None => None,
                        },
                        _ => None,
                    },
                    _ => None,
                },
                _ => None,
            }
        },
        _ => None,
    }
}

/// The `answer_question` payload, if the shape fits.
pub fn as_answer_question(d: &Json) -> (r: Option<(String, String, i32, i32)>)
    ensures
        match r {
            Some(p) => spec_as_answer_question(jview(*d)) == Some(
                (p.0@, p.1@, p.2 as int, p.3 as int),
            ),
            None => spec_as_answer_question(jview(*d)) is None,
        },
{
    match d {
        Json::Obj(members) => {
            let user_key: String = String::from_str("user");
            let room_key: String = String::from_str("room_id");
            let qid_key: String = String::from_str("question_id");
            let a_key: String = String::from_str("answer");
            match lookup(members, &user_key) {
                Some(Json::Text(u)) => match lookup(members, &room_key) {
                    Some(Json::Text(rid)) => match lookup(members, &qid_key) {
                        Some(q) => match lookup(members, &a_key) {
                            Some(a) => match (as_i32(q), as_i32(a)) {
                                (Some(qi), Some(ai)) => Some((u.clone(), rid.clone(), qi, ai)),
                                _ => None,
                            },
                            None => None,
                        },
                        None => None,
                    },
                    _ => None,
                },
                _ => None,
            }
        },
        _ => None,
    }
}

/// Whether a payload matches any of the five request shapes.
pub fn any_shape(d: &Json) -> (r: bool)
    ensures
        r == spec_any_shape(jview(*d)),
{
    if as_user(d).is_some() {
        true
    } else if as_room_req(d).is_some() {
        true
    } else if as_add_questions(d).is_some() {
        true
    } else {
        as_answer_question(d).is_some()
    }
}

/// The failure when a tag's own shape did not fit.
fn shape_fail(d: &Json, msg: &str) -> (r: DecodeFailure)
    ensures
        match r {
            DecodeFailure::Malformed(m) => spec_shape_fail(jview(*d), msg@) == DecodeModel::Malformed(
                m@,
            ),
            DecodeFailure::Mismatch(m) => spec_shape_fail(jview(*d), msg@) == DecodeModel::Mismatch(
                m@,
            ),
        },
{
    if any_shape(d) {
        DecodeFailure::Mismatch(String::from_str(msg))
    } else {
        DecodeFailure::Malformed(String::from_str("request data does not match any request shape"))
    }
}

/// Decoding a payload under its declared tag.
fn decode_tagged(tag: &String, d: &Json) -> (r: Result<Request, DecodeFailure>)
    ensures
        match r {
            Ok(req) => spec_decode_tagged(tag@, jview(*d)) == DecodeModel::Req(req@),
            Err(DecodeFailure::Malformed(m)) => spec_decode_tagged(tag@, jview(*d))
                == DecodeModel::Malformed(m@),
            Err(DecodeFailure::Mismatch(m)) => spec_decode_tagged(tag@, jview(*d))
                == DecodeModel::Mismatch(m@),
        },
{
    if *tag == String::from_str("register_user") {
        match as_user(d) {
            Some(u) => Ok(Request::RegisterUser(u)),
            None => Err(shape_fail(d, "expected RegisterUser data, received something else")),
        }
    } else if *tag == String::from_str("host_room") {
        match as_room_req(d) {
            Some(p) => Ok(Request::HostRoom { user: p.0, room_id: p.1 }),
            None => Err(shape_fail(d, "expected HostRoom data, received something else")),
        }
    } else if *tag == String::from_str("join_room") {
        match as_room_req(d) {
            Some(p) => Ok(Request::JoinRoom { user: p.0, room_id: p.1 }),
            None => Err(shape_fail(d, "expected JoinRoom data, received something else")),
        }
    } else if *tag == String::from_str("add_questions") {
        match as_add_questions(d) {
            Some(p) => Ok(Request::AddQuestions { user: p.0, room_id: p.1, questions: p.2 }),
            None => Err(shape_fail(d, "expected AddQuestions data, received something else")),
        }
    } else if *tag == String::from_str("answer_question") {
        match as_answer_question(d) {
            Some(p) => Ok(
                Request::AnswerQuestion {
                    user: p.0,
                    room_id: p.1,
                    question_id: p.2,
                    answer: p.3,
                },
            ),
            None => Err(shape_fail(d, "expected AnswerQuestion data, received something else")),
        }
    } else {
        Err(
            DecodeFailure::Malformed(
                String::from_str("request envelope does not match the schema"),
            ),
        )
    }
}

/// Decodes one text frame into a request, or reports how it fails.
pub fn decode_request(text: &str) -> (r: Result<Request, DecodeFailure>)
    ensures
        match r {
            Ok(req) => spec_decode_text(text@) == DecodeModel::Req(req@),
            Err(DecodeFailure::Malformed(m)) => spec_decode_text(text@) == DecodeModel::Malformed(
                m@,
            ),
            Err(DecodeFailure::Mismatch(m)) => spec_decode_text(text@) == DecodeModel::Mismatch(
                m@,
            ),
        },
{
    let chars: Vec<char> = str_chars(text);
    match parse_text(&chars) {
        None => Err(DecodeFailure::Malformed(String::from_str("invalid JSON"))),
        Some(v) => match &v {
            Json::Obj(members) => {
                let rt_key: String = String::from_str("request_type");
                let data_key: String = String::from_str("data");
                match lookup(members, &rt_key) {
                    Some(Json::Text(tag)) => match lookup(members, &data_key) {
                        Some(d) => decode_tagged(tag, d),
                        None => Err(
                            DecodeFailure::Malformed(
                                String::from_str("request envelope does not match the schema"),
                            ),
                        ),
                    },
                    _ => Err(
                        DecodeFailure::Malformed(
                            String::from_str("request envelope does not match the schema"),
                        ),
                    ),
                }
            },
            _ => Err(
                DecodeFailure::Malformed(
                    String::from_str("request envelope does not match the schema"),
                ),
            ),
        },
    }
}

} // verus!
