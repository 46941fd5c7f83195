use vstd::prelude::*;

use crate::chance::random_below;
use crate::structs::Player;
use crate::text::{trim_of, trimmed};

verus! {

/// A riddle of the challenge gate: a prompt and the answers it accepts.
#[derive(Debug, Clone)]
pub struct Riddle {
    pub prompt: String,
    pub answers: Vec<String>,
}

/// `answer` is, letter for letter, one of the accepted answers.
pub open spec fn accepted(answers: Seq<String>, answer: Seq<char>) -> bool {
    exists|i: int| 0 <= i < answers.len() && answers[i]@ == answer
}

impl Riddle {
    pub fn new(prompt: String, answers: Vec<String>) -> (r: Riddle)
        ensures
            r.prompt == prompt,
            r.answers == answers,
    {
        Riddle { prompt, answers }
    }

    /// Whether `answer`, taken as it stands, is one of the accepted answers.
    pub fn accepts(&self, answer: &str) -> (r: bool)
        ensures
            r == accepted(self.answers@, answer@),
    {
        let a = String::from_str(answer);
        let mut i: usize = 0;
        while i < self.answers.len()
            invariant
                0 <= i <= self.answers@.len(),
                a@ == answer@,
                forall|j: int| 0 <= j < i ==> self.answers@[j]@ != answer@,
            decreases self.answers@.len() - i,
        {
            if self.answers[i] == a {
                return true;
            }
            i += 1;
        }
        false
    }
}

/// Draws the riddle to ask, each one as likely as the others.
pub fn pick_riddle(riddles: &Vec<Riddle>) -> (r: usize)
    requires
        riddles@.len() > 0,
    ensures
        r < riddles@.len(),
{
    random_below(riddles.len())
}

impl Player {
    /// The challenge gate: whether the player's reply, once trimmed of white
    /// space, is one of the riddle's accepted answers (case matters).
    pub fn ask_question(riddle: &Riddle, reply: &str) -> (r: bool)
        ensures
            r == accepted(riddle.answers@, trim_of(reply@)),
    {
        let t = trimmed(reply);
        riddle.accepts(t.as_str())
    }
}

} // verus!
