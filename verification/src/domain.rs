//! The in-memory record types of the quiz server: users, questions, answers
//! and rooms, together with the spec-level models that the contracts of the
//! rest of the library are stated over.

use vstd::prelude::*;

verus! {

/// A user's role. Only an `Organizer` may host a room or add questions.
#[derive(Clone, Copy, PartialEq, Eq, Structural, Debug)]
pub enum Role {
    Organizer,
    Attendee,
}

/// A registered user: a name and a role. Names are not required to be
/// unique; lookups return the first user registered under a name.
#[derive(Clone, Debug)]
pub struct User {
    pub name: String,
    pub role: Role,
}

/// Spec-level model of a `User`.
#[verifier::ext_equal]
pub struct UserModel {
    pub name: Seq<char>,
    pub role: Role,
}

impl View for User {
    type V = UserModel;

    open spec fn view(&self) -> UserModel {
        UserModel { name: self.name@, role: self.role }
    }
}

/// A quiz question: an id, the question text, the option texts, and the
/// index of the correct option.
#[derive(Clone, Debug)]
pub struct Question {
    pub id: String,
    pub question: String,
    pub options: Vec<String>,
    pub answer: i32,
}

/// Spec-level model of a `Question`.
#[verifier::ext_equal]
pub struct QuestionModel {
    pub id: Seq<char>,
    pub question: Seq<char>,
    pub options: Seq<Seq<char>>,
    pub answer: int,
}

impl View for Question {
    type V = QuestionModel;

    open spec fn view(&self) -> QuestionModel {
        QuestionModel {
            id: self.id@,
            question: self.question@,
            options: self.options@.map_values(|s: String| s@),
            answer: self.answer as int,
        }
    }
}

/// One submitted answer: an append-only log entry. A user may answer the
/// same question several times; every entry is retained.
#[derive(Clone, Debug)]
pub struct Answer {
    pub user: String,
    pub question_id: i32,
    pub answer: i32,
}

/// Spec-level model of an `Answer`.
pub struct AnswerModel {
    pub user: Seq<char>,
    pub question_id: int,
    pub answer: int,
}

impl View for Answer {
    type V = AnswerModel;

    open spec fn view(&self) -> AnswerModel {
        AnswerModel {
            user: self.user@,
            question_id: self.question_id as int,
            answer: self.answer as int,
        }
    }
}

/// A quiz room: an id chosen by the host, the members that joined, the
/// questions added so far, and the log of submitted answers.
#[derive(Clone, Debug)]
pub struct Room {
    pub id: String,
    pub users: Vec<User>,
    pub questions: Vec<Question>,
    pub answers: Vec<Answer>,
}

/// Spec-level model of a `Room`.
#[verifier::ext_equal]
pub struct RoomModel {
    pub id: Seq<char>,
    pub users: Seq<UserModel>,
    pub questions: Seq<QuestionModel>,
    pub answers: Seq<AnswerModel>,
}

impl View for Room {
    type V = RoomModel;

    open spec fn view(&self) -> RoomModel {
        RoomModel {
            id: self.id@,
            users: self.users@.map_values(|u: User| u@),
            questions: self.questions@.map_values(|q: Question| q@),
            answers: self.answers@.map_values(|a: Answer| a@),
        }
    }
}

impl Role {
    /// Whether this role is the organizer role.
    pub fn is_organizer(&self) -> (r: bool)
        ensures
            r == (*self == Role::Organizer),
    {
        match self {
            Role::Organizer => true,
            Role::Attendee => false,
        }
    }
}

} // verus!
