//! A diary session: a rating, then a word, then free text, each line judged
//! as it comes. Lines that do not answer the current question are turned
//! down and the question stands.
use vstd::prelude::*;
use crate::entry::DiaryEntry;
use crate::freeform::{collect_freeform, freeform_of, next_phase, next_text, CollectPhase, FreeformCollector};
use crate::rating::{parse_rating, rating_of, rating_in_range};
use crate::word::{parse_word, word_of, WordError};

verus! {

/// The index of the first line from `i` on that gives a rating.
pub open spec fn first_rating(lines: Seq<Seq<char>>, i: int) -> Option<int>
    decreases lines.len() - i,
{
    if i < 0 || i >= lines.len() {
        None
    } else if rating_of(lines[i]) is Some {
        Some(i)
    } else {
        first_rating(lines, i + 1)
    }
}

/// The index of the first line from `i` on that gives a mood word.
pub open spec fn first_word(lines: Seq<Seq<char>>, i: int) -> Option<int>
    decreases lines.len() - i,
{
    if i < 0 || i >= lines.len() {
        None
    } else if word_of(lines[i]) is Ok {
        Some(i)
    } else {
        first_word(lines, i + 1)
    }
}

/// The entry that a finite run of answer lines gives, as its rating, word
/// and text: the first line that is a rating, the first line after it that
/// is a word, and the free text from the lines after that. None where the
/// lines end before a rating and a word were given.
pub open spec fn script_entry(lines: Seq<Seq<char>>) -> Option<(u8, Seq<char>, Seq<char>)> {
    match first_rating(lines, 0) {
        None => None,
        Some(i) => match first_word(lines, i + 1) {
            None => None,
            Some(j) => Some(
                (
                    rating_of(lines[i])->0,
                    word_of(lines[j])->Ok_0,
                    freeform_of(lines.subrange(j + 1, lines.len() as int)),
                ),
            ),
        },
    }
}

/// Runs a whole session on answer lines given in advance, each with its
/// line ending, and builds the entry they give.
pub fn entry_from_lines(lines: &Vec<String>) -> (r: Option<DiaryEntry>)
    ensures
        match (r, script_entry(lines@.map_values(|l: String| l@))) {
            (Some(e), Some(m)) => {
                &&& e.wf()
                &&& e.feeling_quant == m.0
                &&& e.feeling_word@ == m.1
                &&& e.freeform_text@ == m.2
            },
            (None, None) => true,
            _ => false,
        },
{
    let ghost ls = lines@.map_values(|l: String| l@);
    let n = lines.len();
    let mut i: usize = 0;
    let mut rating: Option<u8> = None;
    while i < n
        invariant_except_break
            rating is None,
        invariant
            n == lines@.len(),
            ls == lines@.map_values(|l: String| l@),
            i <= n,
            first_rating(ls, 0) == first_rating(ls, i as int),
        ensures
            rating is None ==> i == n,
            rating is Some ==> i < n && rating == rating_of(ls[i as int]),
        decreases n - i,
    {
        assert(ls[i as int] == lines@[i as int]@);
        rating = parse_rating(lines[i].as_str());
        if rating.is_some() {
            break;
        }
        i = i + 1;
    }
    let quant = match rating {
        Some(v) => v,
        None => {
            return None;
        },
    };
    let ghost ri = i;
    assert(first_rating(ls, 0) == Some(ri as int));
    let mut j: usize = i + 1;
    let mut word: Option<String> = None;
    while j < n
        invariant_except_break
            word is None,
        invariant
            n == lines@.len(),
            ls == lines@.map_values(|l: String| l@),
            ri < j <= n,
            first_word(ls, ri + 1) == first_word(ls, j as int),
        ensures
            word is None ==> j == n,
            word is Some ==> j < n && word_of(ls[j as int]) is Ok && word->0@ == word_of(
                ls[j as int],
            )->Ok_0 && word->0@.len() > 0,
        decreases n - j,
    {
        assert(ls[j as int] == lines@[j as int]@);
        match parse_word(lines[j].as_str()) {
            Ok(w) => {
                word = Some(w);
                break;
            },
            Err(_) => {},
        }
        j = j + 1;
    }
    let feeling_word = match word {
        Some(w) => w,
        None => {
            return None;
        },
    };
    assert(first_word(ls, ri + 1) == Some(j as int));
    let (text, _) = collect_freeform(lines, j + 1);
    assert(ls.subrange(j + 1, n as int) =~= lines@.map_values(|l: String| l@).subrange(j + 1, n as int));
    Some(DiaryEntry { feeling_quant: quant, feeling_word, freeform_text: text })
}

/// The question a session is asking.
#[derive(Clone, Copy, Debug, PartialEq, Eq, Structural)]
pub enum Stage {
    Rating,
    Word,
    Text,
    Complete,
}

/// What a session says back to one line.
#[derive(Clone, Copy, Debug, PartialEq, Eq, Structural)]
pub enum Feedback {
    /// The line was no rating from 1 to 100; ask again.
    BadRating,
    /// The line held no word or several; ask again.
    NotSingleWord,
    /// The one token was a number; ask again.
    NotAWord,
    /// The rating was taken; ask for the word.
    Rated,
    /// The word was taken; ask for the text.
    Worded,
    /// The line went into the text; read on.
    TextLine,
    /// The text is finished and the entry complete.
    Complete,
}

/// A session in progress, fed one line of input at a time.
pub struct Session {
    pub stage: Stage,
    pub rating: u8,
    pub word: String,
    pub collector: FreeformCollector,
}

impl Session {
    pub open spec fn wf(&self) -> bool {
        &&& (self.stage != Stage::Rating ==> rating_in_range(self.rating as int))
        &&& ((self.stage == Stage::Text || self.stage == Stage::Complete) ==> self.word@.len() > 0)
        &&& ((self.stage == Stage::Rating || self.stage == Stage::Word) ==> self.collector.phase
            == CollectPhase::Start)
        &&& (self.stage == Stage::Text ==> self.collector.phase != CollectPhase::Done)
        &&& (self.stage == Stage::Complete ==> self.collector.phase == CollectPhase::Done)
    }

    pub fn new() -> (r: Session)
        ensures
            r.wf(),
            r.stage == Stage::Rating,
            r.collector.phase == CollectPhase::Start,
            r.collector.text@ == Seq::<char>::empty(),
    {
        Session {
            stage: Stage::Rating,
            rating: 0,
            word: String::new(),
            collector: FreeformCollector::new(),
        }
    }

    /// Judges one line of input, given with its line ending, against the
    /// current question.
    pub fn feed(&mut self, line: &str) -> (f: Feedback)
        requires
            old(self).wf(),
        ensures
            final(self).wf(),
            match old(self).stage {
                Stage::Rating => match rating_of(line@) {
                    Some(v) => f == Feedback::Rated && final(self).stage == Stage::Word
                        && final(self).rating == v && final(self).collector == old(self).collector,
                    None => f == Feedback::BadRating && *final(self) == *old(self),
                },
                Stage::Word => match word_of(line@) {
                    Ok(w) => f == Feedback::Worded && final(self).stage == Stage::Text
                        && final(self).word@ == w && final(self).rating == old(self).rating
                        && final(self).collector == old(self).collector,
                    Err(WordError::NotSingleWord) => f == Feedback::NotSingleWord && *final(self)
                        == *old(self),
                    Err(WordError::Numeric) => f == Feedback::NotAWord && *final(self) == *old(
                        self,
                    ),
                },
                Stage::Text => {
                    let p = next_phase(old(self).collector.phase, line@);
                    &&& final(self).collector.phase == p
                    &&& final(self).collector.text@ == next_text(
                        old(self).collector.phase,
                        old(self).collector.text@,
                        line@,
                    )
                    &&& final(self).rating == old(self).rating
                    &&& final(self).word == old(self).word
                    &&& if p == CollectPhase::Done {
                        f == Feedback::Complete && final(self).stage == Stage::Complete
                    } else {
                        f == Feedback::TextLine && final(self).stage == Stage::Text
                    }
                },
                Stage::Complete => f == Feedback::Complete && *final(self) == *old(self),
            },
    {
        match self.stage {
            Stage::Rating => match parse_rating(line) {
                Some(v) => {
                    self.rating = v;
                    self.stage = Stage::Word;
                    Feedback::Rated
                },
                None => Feedback::BadRating,
            },
            Stage::Word => match parse_word(line) {
                Ok(w) => {
                    self.word = w;
                    self.stage = Stage::Text;
                    Feedback::Worded
                },
                Err(WordError::NotSingleWord) => Feedback::NotSingleWord,
                Err(WordError::Numeric) => Feedback::NotAWord,
            },
            Stage::Text => {
                if self.collector.feed(line) {
                    self.stage = Stage::Complete;
                    Feedback::Complete
                } else {
                    Feedback::TextLine
                }
            },
            Stage::Complete => Feedback::Complete,
        }
    }

    /// The finished entry.
    pub fn entry(&self) -> (r: DiaryEntry)
        requires
            self.wf(),
            self.stage == Stage::Complete,
        ensures
            r.wf(),
            r.feeling_quant == self.rating,
            r.feeling_word@ == self.word@,
            r.freeform_text@ == self.collector.text@,
    {
        DiaryEntry {
            feeling_quant: self.rating,
            feeling_word: self.word.clone(),
            freeform_text: self.collector.text.clone(),
        }
    }
}

} // verus!
