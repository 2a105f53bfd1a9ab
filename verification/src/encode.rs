//! The reply encodings: each of the four success shapes and the error
//! shape is rendered as compact JSON text, stated character for character
//! by spec functions.

use vstd::prelude::*;
use crate::domain::{Question, QuestionModel, Role, User, UserModel};
use crate::json::chars_to_string;
use crate::json::str_chars;
use vstd::string::StringExecFns;

verus! {

/// The reply to a processed frame.
pub enum Response {
    Registered(User),
    RoomOnly { room_id: String },
    QuestionsAdded { room_id: String, questions: Vec<Question> },
    Answered { room_id: String, question_id: i32, answer: i32 },
    Rejected { error: String },
}

/// Spec-level model of a reply.
#[verifier::ext_equal]
pub enum ResponseModel {
    Registered(UserModel),
    RoomOnly { room_id: Seq<char> },
    QuestionsAdded { room_id: Seq<char>, questions: Seq<QuestionModel> },
    Answered { room_id: Seq<char>, question_id: int, answer: int },
    Rejected { error: Seq<char> },
}

impl View for Response {
    type V = ResponseModel;

    open spec fn view(&self) -> ResponseModel {
        match self {
            Response::Registered(u) => ResponseModel::Registered(u@),
            Response::RoomOnly { room_id } => ResponseModel::RoomOnly { room_id: room_id@ },
            Response::QuestionsAdded { room_id, questions } => ResponseModel::QuestionsAdded {
                room_id: room_id@,
                questions: questions@.map_values(|q: Question| q@),
            },
            Response::Answered { room_id, question_id, answer } => ResponseModel::Answered {
                room_id: room_id@,
                question_id: *question_id as int,
                answer: *answer as int,
            },
            Response::Rejected { error } => ResponseModel::Rejected { error: error@ },
        }
    }
}

/// The hexadecimal digit for a value below sixteen; also the decimal digit
/// for a value below ten.
pub open spec fn digit_char(n: int) -> char {
    if n == 0 {
        '0'
    } else if n == 1 {
        '1'
    } else if n == 2 {
        '2'
    } else if n == 3 {
        '3'
    } else if n == 4 {
        '4'
    } else if n == 5 {
        '5'
    } else if n == 6 {
        '6'
    } else if n == 7 {
        '7'
    } else if n == 8 {
        '8'
    } else if n == 9 {
        '9'
    } else if n == 10 {
        'a'
    } else if n == 11 {
        'b'
    } else if n == 12 {
        'c'
    } else if n == 13 {
        'd'
    } else if n == 14 {
        'e'
    } else {
        'f'
    }
}

/// How one character is written inside a JSON string literal.
pub open spec fn esc_char(c: char) -> Seq<char> {
    if c == '"' {
        seq!['\\', '"']
    } else if c == '\\' {
        seq!['\\', '\\']
    } else if c == '\n' {
        seq!['\\', 'n']
    } else if c == '\t' {
        seq!['\\', 't']
    } else if c == '\r' {
        seq!['\\', 'r']
    } else if c == '\u{8}' {
        seq!['\\', 'b']
    } else if c == '\u{c}' {
        seq!['\\', 'f']
    } else if (c as u32) < 32 {
        seq!['\\', 'u', '0', '0', digit_char(c as u32 as int / 16), digit_char(c as u32 as int % 16)]
    } else {
        seq![c]
    }
}

/// How a whole text is written inside a JSON string literal.
pub open spec fn esc_str(s: Seq<char>) -> Seq<char>
    decreases s.len(),
{
    if s.len() == 0 {
        Seq::empty()
    } else {
        esc_char(s[0]) + esc_str(s.subrange(1, s.len() as int))
    }
}

/// A quoted, escaped JSON string literal.
pub open spec fn enc_text(s: Seq<char>) -> Seq<char> {
    "\""@ + esc_str(s) + "\""@
}

/// The decimal digits of a nonnegative value.
pub open spec fn dec_digits(v: int) -> Seq<char>
    decreases v,
{
    if v < 10 {
        seq![digit_char(v)]
    } else {
        dec_digits(v / 10) + seq![digit_char(v % 10)]
    }
}

/// A decimal integer, with its sign.
pub open spec fn int_str(m: int) -> Seq<char> {
    if m < 0 {
        seq!['-'] + dec_digits(-m)
    } else {
        dec_digits(m)
    }
}

/// The wire text of a role.
pub open spec fn role_text(r: Role) -> Seq<char> {
    if r == Role::Organizer {
        "organizer"@
    } else {
        "attendee"@
    }
}

/// The reply to a successful registration: the stored user, echoed.
pub open spec fn enc_user(u: UserModel) -> Seq<char> {
    "{\"name\":"@ + enc_text(u.name) + ",\"role\":\""@ + role_text(u.role) + "\"}"@
}

/// The option texts of a question, comma-separated, from `i` on.
pub open spec fn enc_texts_from(ts: Seq<Seq<char>>, i: int) -> Seq<char>
    decreases ts.len() - i,
{
    if !(0 <= i < ts.len()) {
        Seq::empty()
    } else if i == ts.len() - 1 {
        enc_text(ts[i])
    } else {
        enc_text(ts[i]) + ","@ + enc_texts_from(ts, i + 1)
    }
}

/// One question object on the wire.
pub open spec fn enc_question(q: QuestionModel) -> Seq<char> {
    "{\"id\":"@ + enc_text(q.id) + ",\"question\":"@ + enc_text(q.question) + ",\"options\":["@
        + enc_texts_from(q.options, 0) + "],\"answer\":"@ + int_str(q.answer) + "}"@
}

/// The question objects, comma-separated, from `i` on.
pub open spec fn enc_questions_from(qs: Seq<QuestionModel>, i: int) -> Seq<char>
    decreases qs.len() - i,
{
    if !(0 <= i < qs.len()) {
        Seq::empty()
    } else if i == qs.len() - 1 {
        enc_question(qs[i])
    } else {
        enc_question(qs[i]) + ","@ + enc_questions_from(qs, i + 1)
    }
}

/// The wire text of a whole reply.
pub open spec fn enc_response(r: ResponseModel) -> Seq<char> {
    match r {
        ResponseModel::Registered(u) => enc_user(u),
        ResponseModel::RoomOnly { room_id } => "{\"room_id\":"@ + enc_text(room_id) + "}"@,
        ResponseModel::QuestionsAdded { room_id, questions } => "{\"room_id\":"@ + enc_text(
            room_id,
        ) + ",\"questions\":["@ + enc_questions_from(questions, 0) + "]}"@,
        ResponseModel::Answered { room_id, question_id, answer } => "{\"room_id\":"@ + enc_text(
            room_id,
        ) + ",\"question_id\":"@ + int_str(question_id) + ",\"answer\":"@ + int_str(answer) + "}"@,
        ResponseModel::Rejected { error } => "{\"error\":"@ + enc_text(error) + "}"@,
    }
}

/// The escape of one character, appended in place.
fn esc_push(out: &mut Vec<char>, c: char)
    ensures
        final(out)@ == old(out)@ + esc_char(c),
{
    if c == '"' {
        out.push('\\');
        out.push('"');
    } else if c == '\\' {
        out.push('\\');
        out.push('\\');
    } else if c == '\n' {
        out.push('\\');
        out.push('n');
    } else if c == '\t' {
        out.push('\\');
        out.push('t');
    } else if c == '\r' {
        out.push('\\');
        out.push('r');
    } else if c == '\u{8}' {
        out.push('\\');
        out.push('b');
    } else if c == '\u{c}' {
        out.push('\\');
        out.push('f');
    } else if (c as u32) < 32 {
        let n: u32 = c as u32;
        out.push('\\');
        out.push('u');
        out.push('0');
        out.push('0');
        out.push(digit_of(n / 16));
        out.push(digit_of(n % 16));
    } else {
        out.push(c);
    }
    proof {
        assert(out@ =~= old(out)@ + esc_char(c));
    }
}

/// The digit character for a value below sixteen.
fn digit_of(n: u32) -> (r: char)
    requires
        n < 16,
    ensures
        r == digit_char(n as int),
{
    if n == 0 {
        '0'
    } else if n == 1 {
        '1'
    } else if n == 2 {
        '2'
    } else if n == 3 {
        '3'
    } else if n == 4 {
        '4'
    } else if n == 5 {
        '5'
    } else if n == 6 {
        '6'
    } else if n == 7 {
        '7'
    } else if n == 8 {
        '8'
    } else if n == 9 {
        '9'
    } else if n == 10 {
        'a'
    } else if n == 11 {
        'b'
    } else if n == 12 {
        'c'
    } else if n == 13 {
        'd'
    } else if n == 14 {
        'e'
    } else {
        'f'
    }
}

/// A text escaped for a JSON string literal.
pub fn esc_string(s: &String) -> (r: String)
    ensures
        r@ == esc_str(s@),
{
    let chars: Vec<char> = str_chars(s.as_str());
    let n: usize = chars.len();
    let mut out: Vec<char> = Vec::new();
    proof {
        assert(s@.subrange(0, n as int) =~= s@);
        assert(Seq::<char>::empty() + esc_str(s@) =~= esc_str(s@));
    }
    let mut i: usize = 0;
    while i < n
        invariant
            i <= n,
            n == chars@.len(),
            chars@ == s@,
            esc_str(s@) == out@ + esc_str(s@.subrange(i as int, n as int)),
        decreases n - i,
    {
        proof {
            let ghost rest = s@.subrange(i as int, n as int);
            assert(rest[0] == s@[i as int]);
            assert(rest.subrange(1, rest.len() as int) =~= s@.subrange(i as int + 1, n as int));
        }
        esc_push(&mut out, chars[i]);
        i = i + 1;
    }
    proof {
        assert(s@.subrange(n as int, n as int) =~= Seq::<char>::empty());
        assert(out@ + Seq::<char>::empty() =~= out@);
    }
    chars_to_string(&out)
}

/// The decimal digits of a value, appended in place.
fn push_digits(out: &mut Vec<char>, v: u64)
    ensures
        final(out)@ == old(out)@ + dec_digits(v as int),
    decreases v,
{
    if v < 10 {
        out.push(digit_of(v as u32));
        proof {
            assert(out@ =~= old(out)@ + dec_digits(v as int));
        }
    } else {
        push_digits(out, v / 10);
        out.push(digit_of((v % 10) as u32));
        proof {
            assert(out@ =~= old(out)@ + dec_digits(v as int));
        }
    }
}

/// A decimal integer as text.
pub fn int_to_string(n: i32) -> (r: String)
    ensures
        r@ == int_str(n as int),
{
    let mut out: Vec<char> = Vec::new();
    let m: i64 = n as i64;
    if m < 0 {
        out.push('-');
        let mag: u64 = (-m) as u64;
        push_digits(&mut out, mag);
        proof {
            assert(out@ =~= seq!['-'] + dec_digits(-(n as int)));
        }
    } else {
        push_digits(&mut out, m as u64);
    }
    chars_to_string(&out)
}

/// A quoted, escaped JSON string literal.
pub fn enc_text_exec(s: &String) -> (r: String)
    ensures
        r@ == enc_text(s@),
{
    let mut out: String = String::new();
    out.append("\"");
    out.append(esc_string(s).as_str());
    out.append("\"");
    proof {
        assert(out@ =~= enc_text(s@));
    }
    out
}

/// The option texts, comma-separated, from `i` on.
fn texts_body(ts: &Vec<String>, i: usize) -> (r: String)
    requires
        i <= ts@.len(),
    ensures
        r@ == enc_texts_from(ts@.map_values(|s: String| s@), i as int),
    decreases ts@.len() - i,
{
    let n: usize = ts.len();
    if i >= n {
        let r = String::new();
        proof {
            assert(r@ =~= enc_texts_from(ts@.map_values(|s: String| s@), i as int));
        }
        r
    } else if i == n - 1 {
        enc_text_exec(&ts[i])
    } else {
        let mut r: String = enc_text_exec(&ts[i]);
        r.append(",");
        r.append(texts_body(ts, i + 1).as_str());
        proof {
            assert(r@ =~= enc_texts_from(ts@.map_values(|s: String| s@), i as int));
        }
        r
    }
}

/// One question object on the wire.
fn enc_question_exec(q: &Question) -> (r: String)
    ensures
        r@ == enc_question(q@),
{
    let mut out: String = String::new();
    out.append("{\"id\":");
    out.append(enc_text_exec(&q.id).as_str());
    out.append(",\"question\":");
    out.append(enc_text_exec(&q.question).as_str());
    out.append(",\"options\":[");
    out.append(texts_body(&q.options, 0).as_str());
    out.append("],\"answer\":");
    out.append(int_to_string(q.answer).as_str());
    out.append("}");
    proof {
        assert(out@ =~= enc_question(q@));
    }
    out
}

/// The question objects, comma-separated, from `i` on.
fn questions_body(qs: &Vec<Question>, i: usize) -> (r: String)
    requires
        i <= qs@.len(),
    ensures
        r@ == enc_questions_from(qs@.map_values(|q: Question| q@), i as int),
    decreases qs@.len() - i,
{
    let n: usize = qs.len();
    if i >= n {
        let r = String::new();
        proof {
            assert(r@ =~= enc_questions_from(qs@.map_values(|q: Question| q@), i as int));
        }
        r
    } else if i == n - 1 {
        enc_question_exec(&qs[i])
    } else {
        let mut r: String = enc_question_exec(&qs[i]);
        r.append(",");
        r.append(questions_body(qs, i + 1).as_str());
        proof {
            assert(r@ =~= enc_questions_from(qs@.map_values(|q: Question| q@), i as int));
        }
        r
    }
}

/// Renders a reply as its wire text.
pub fn encode_response(resp: &Response) -> (r: String)
    ensures
        r@ == enc_response(resp@),
{
    match resp {
        Response::Registered(u) => {
            let mut out: String = String::new();
            out.append("{\"name\":");
            out.append(enc_text_exec(&u.name).as_str());
            out.append(",\"role\":\"");
            match u.role {
                Role::Organizer => out.append("organizer"),
                Role::Attendee => out.append("attendee"),
            }
            out.append("\"}");
            proof {
                assert(out@ =~= enc_response(resp@));
            }
            out
        },
        Response::RoomOnly { room_id } => {
            let mut out: String = String::new();
            out.append("{\"room_id\":");
            out.append(enc_text_exec(room_id).as_str());
            out.append("}");
            proof {
                assert(out@ =~= enc_response(resp@));
            }
            out
        },
        Response::QuestionsAdded { room_id, questions } => {
            let mut out: String = String::new();
            out.append("{\"room_id\":");
            out.append(enc_text_exec(room_id).as_str());
            out.append(",\"questions\":[");
            out.append(questions_body(questions, 0).as_str());
            out.append("]}");
            proof {
                assert(out@ =~= enc_response(resp@));
            }
            out
        },
        Response::Answered { room_id, question_id, answer } => {
            let mut out: String = String::new();
            out.append("{\"room_id\":");
            out.append(enc_text_exec(room_id).as_str());
            out.append(",\"question_id\":");
            out.append(int_to_string(*question_id).as_str());
            out.append(",\"answer\":");
            out.append(int_to_string(*answer).as_str());
            out.append("}");
            proof {
                assert(out@ =~= enc_response(resp@));
            }
            out
        },
        Response::Rejected { error } => {
            let mut out: String = String::new();
            out.append("{\"error\":");
            out.append(enc_text_exec(error).as_str());
            out.append("}");
            proof {
                assert(out@ =~= enc_response(resp@));
            }
            out
        },
    }
}

} // verus!
