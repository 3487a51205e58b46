//! The free text of an entry: lines are gathered until the writer leaves
//! two blank lines in a row. The first blank line of such a pair stays in
//! the text; a blank first line ends it at once, empty.
use vstd::prelude::*;
use vstd::string::*;
use crate::text::{is_blank, is_blank_line};

verus! {

/// Where the collector stands between two lines.
#[derive(Clone, Copy, Debug, PartialEq, Eq, Structural)]
pub enum CollectPhase {
    /// No line read yet.
    Start,
    /// The last line read held text.
    Collecting,
    /// The last line read was blank and was kept.
    AfterBlank,
    /// Collection has ended.
    Done,
}

/// The phase after one more line.
pub open spec fn next_phase(phase: CollectPhase, line: Seq<char>) -> CollectPhase {
    match phase {
        CollectPhase::Start => if is_blank(line) {
            CollectPhase::Done
        } else {
            CollectPhase::Collecting
        },
        CollectPhase::Collecting => if is_blank(line) {
            CollectPhase::AfterBlank
        } else {
            CollectPhase::Collecting
        },
        CollectPhase::AfterBlank => if is_blank(line) {
            CollectPhase::Done
        } else {
            CollectPhase::Collecting
        },
        CollectPhase::Done => CollectPhase::Done,
    }
}

/// Whether a line read in this phase becomes part of the text: every line
/// but the one that ends collection.
pub open spec fn keeps_line(phase: CollectPhase, line: Seq<char>) -> bool {
    phase != CollectPhase::Done && next_phase(phase, line) != CollectPhase::Done
}

/// The text after one more line.
pub open spec fn next_text(phase: CollectPhase, text: Seq<char>, line: Seq<char>) -> Seq<char> {
    if keeps_line(phase, line) {
        text + line
    } else {
        text
    }
}

/// The phase and text after the given lines, fed in order; lines that come
/// once collection has ended are not read.
pub open spec fn collect_run(phase: CollectPhase, text: Seq<char>, lines: Seq<Seq<char>>) -> (
    CollectPhase,
    Seq<char>,
)
    decreases lines.len(),
{
    if lines.len() == 0 || phase == CollectPhase::Done {
        (phase, text)
    } else {
        collect_run(
            next_phase(phase, lines[0]),
            next_text(phase, text, lines[0]),
            lines.drop_first(),
        )
    }
}

/// The free text that a run of lines gives, from the first line on.
pub open spec fn freeform_of(lines: Seq<Seq<char>>) -> Seq<char> {
    collect_run(CollectPhase::Start, Seq::empty(), lines).1
}

/// The number of lines that collection reads before it ends: all of them,
/// where it does not end.
pub open spec fn lines_read(phase: CollectPhase, lines: Seq<Seq<char>>) -> nat
    decreases lines.len(),
{
    if lines.len() == 0 || phase == CollectPhase::Done {
        0
    } else {
        1 + lines_read(next_phase(phase, lines[0]), lines.drop_first())
    }
}

/// Gathers the free text one line at a time.
pub struct FreeformCollector {
    pub phase: CollectPhase,
    pub text: String,
}

impl FreeformCollector {
    pub fn new() -> (r: FreeformCollector)
        ensures
            r.phase == CollectPhase::Start,
            r.text@ == Seq::<char>::empty(),
    {
        FreeformCollector { phase: CollectPhase::Start, text: String::new() }
    }

    /// Takes one line, as read with its line ending; returns whether
    /// collection has ended.
    pub fn feed(&mut self, line: &str) -> (done: bool)
        ensures
            final(self).phase == next_phase(old(self).phase, line@),
            final(self).text@ == next_text(old(self).phase, old(self).text@, line@),
            done == (final(self).phase == CollectPhase::Done),
    {
        let blank = is_blank_line(line);
        let next = match self.phase {
            CollectPhase::Start => if blank {
                CollectPhase::Done
            } else {
                CollectPhase::Collecting
            },
            CollectPhase::Collecting => if blank {
                CollectPhase::AfterBlank
            } else {
                CollectPhase::Collecting
            },
            CollectPhase::AfterBlank => if blank {
                CollectPhase::Done
            } else {
                CollectPhase::Collecting
            },
            CollectPhase::Done => CollectPhase::Done,
        };
        if self.phase != CollectPhase::Done && next != CollectPhase::Done {
            self.text.append(line);
        }
        self.phase = next;
        self.phase == CollectPhase::Done
    }

    pub fn is_done(&self) -> (r: bool)
        ensures
            r == (self.phase == CollectPhase::Done),
    {
        self.phase == CollectPhase::Done
    }

    /// The text gathered so far.
    pub fn text(&self) -> (r: &String)
        ensures
            r@ == self.text@,
    {
        &self.text
    }
}

/// Collects the free text from lines, each with its line ending, starting
/// at `start`. Returns the text and the index of the first line not read.
pub fn collect_freeform(lines: &Vec<String>, start: usize) -> (r: (String, usize))
    requires
        start <= lines@.len(),
    ensures
        ({
            let ls = lines@.map_values(|l: String| l@).subrange(start as int, lines@.len() as int);
            &&& r.0@ == freeform_of(ls)
            &&& r.1 == start + lines_read(CollectPhase::Start, ls)
        }),
{
    let ghost all = lines@.map_values(|l: String| l@);
    let ghost ls = all.subrange(start as int, lines@.len() as int);
    let mut c = FreeformCollector::new();
    let mut i: usize = start;
    while i < lines.len() && !c.is_done()
        invariant
            start <= i <= lines@.len(),
            all == lines@.map_values(|l: String| l@),
            ls == all.subrange(start as int, lines@.len() as int),
            collect_run(CollectPhase::Start, Seq::empty(), ls) == collect_run(
                c.phase,
                c.text@,
                all.subrange(i as int, lines@.len() as int),
            ),
            lines_read(CollectPhase::Start, ls) == (i - start) + lines_read(
                c.phase,
                all.subrange(i as int, lines@.len() as int),
            ),
        decreases lines@.len() - i,
    {
        let ghost rest = all.subrange(i as int, lines@.len() as int);
        assert(rest[0] == lines@[i as int]@);
        assert(rest.drop_first() =~= all.subrange(i + 1, lines@.len() as int));
        c.feed(lines[i].as_str());
        i = i + 1;
    }
    proof {
        let rest = all.subrange(i as int, lines@.len() as int);
        if i == lines@.len() {
            assert(rest.len() == 0);
        }
    }
    (c.text.clone(), i)
}

proof fn lemma_run_stops_at_double_blank(
    phase: CollectPhase,
    text: Seq<char>,
    lines: Seq<Seq<char>>,
    k: int,
)
    requires
        0 <= k,
        k + 1 < lines.len(),
        is_blank(lines[k]),
        is_blank(lines[k + 1]),
    ensures
        collect_run(phase, text, lines) == collect_run(phase, text, lines.subrange(0, k + 2)),
    decreases k,
{
    let short = lines.subrange(0, k + 2);
    if phase == CollectPhase::Done {
    } else if k == 0 {
        reveal_with_fuel(collect_run, 3);
        let p1 = next_phase(phase, lines[0]);
        let t1 = next_text(phase, text, lines[0]);
        let p2 = next_phase(p1, lines[1]);
        let t2 = next_text(p1, t1, lines[1]);
        assert(p2 == CollectPhase::Done);
        assert(short[0] == lines[0] && short[1] == lines[1]);
        assert(short.drop_first().drop_first().len() == 0);
        if p1 != CollectPhase::Done {
            assert(short.drop_first()[0] == lines[1]);
            assert(lines.drop_first()[0] == lines[1]);
        }
    } else {
        let rest = lines.drop_first();
        lemma_run_stops_at_double_blank(
            next_phase(phase, lines[0]),
            next_text(phase, text, lines[0]),
            rest,
            k - 1,
        );
        assert(short.drop_first() =~= rest.subrange(0, k + 1));
    }
}

/// Two blank lines in a row end collection: nothing after them reaches
/// the text.
pub proof fn lemma_double_blank_ends_text(lines: Seq<Seq<char>>, k: int)
    requires
        0 <= k,
        k + 1 < lines.len(),
        is_blank(lines[k]),
        is_blank(lines[k + 1]),
    ensures
        freeform_of(lines) == freeform_of(lines.subrange(0, k + 2)),
{
    lemma_run_stops_at_double_blank(CollectPhase::Start, Seq::empty(), lines, k);
}

/// A blank first line ends collection with an empty text.
pub proof fn lemma_blank_first_line_gives_empty(lines: Seq<Seq<char>>)
    requires
        lines.len() > 0,
        is_blank(lines[0]),
    ensures
        freeform_of(lines) == Seq::<char>::empty(),
{
    reveal_with_fuel(collect_run, 2);
}

/// The lines joined end to end, each as it stands.
pub open spec fn concat_lines(lines: Seq<Seq<char>>) -> Seq<char>
    decreases lines.len(),
{
    if lines.len() == 0 {
        Seq::empty()
    } else {
        lines[0] + concat_lines(lines.drop_first())
    }
}

/// No two blank lines in a row start before index `k`.
pub open spec fn no_blank_pair_before(lines: Seq<Seq<char>>, k: int) -> bool {
    forall|m: int| 0 <= m < k ==> !(#[trigger] is_blank(lines[m]) && is_blank(lines[m + 1]))
}

proof fn lemma_concat_head(lines: Seq<Seq<char>>, k: int)
    requires
        0 <= k < lines.len(),
    ensures
        concat_lines(lines.subrange(0, k + 1)) == lines[0] + concat_lines(
            lines.drop_first().subrange(0, k),
        ),
{
    assert(lines.subrange(0, k + 1).drop_first() =~= lines.drop_first().subrange(0, k));
}

proof fn lemma_collecting_until_blank_pair(text: Seq<char>, lines: Seq<Seq<char>>, k: int)
    requires
        0 <= k,
        k + 1 < lines.len(),
        is_blank(lines[k]),
        is_blank(lines[k + 1]),
        no_blank_pair_before(lines, k),
    ensures
        collect_run(CollectPhase::Collecting, text, lines).1 == text + concat_lines(
            lines.subrange(0, k + 1),
        ),
    decreases k,
{
    reveal_with_fuel(collect_run, 3);
    let rest = lines.drop_first();
    lemma_concat_head(lines, k);
    if k == 0 {
        assert(lines.subrange(0, 1).drop_first() =~= Seq::<Seq<char>>::empty());
        assert(rest[0] == lines[1]);
        assert(concat_lines(Seq::<Seq<char>>::empty()) == Seq::<char>::empty());
        assert(text + lines[0] =~= text + (lines[0] + Seq::<char>::empty()));
    } else if !is_blank(lines[0]) {
        assert forall|m: int| 0 <= m < k - 1 implies !(#[trigger] is_blank(rest[m]) && is_blank(
            rest[m + 1],
        )) by {
            assert(rest[m] == lines[m + 1] && rest[m + 1] == lines[m + 2]);
            assert(!(is_blank(lines[m + 1]) && is_blank(lines[m + 2])));
        }
        lemma_collecting_until_blank_pair(text + lines[0], rest, k - 1);
        assert(text + lines[0] + concat_lines(rest.subrange(0, k)) =~= text + (lines[0]
            + concat_lines(rest.subrange(0, k))));
    } else {
        assert(!(is_blank(lines[0]) && is_blank(lines[1])));
        assert(!is_blank(lines[1]));
        assert(k >= 2);
        let rest2 = rest.drop_first();
        assert(rest[0] == lines[1]);
        assert forall|m: int| 0 <= m < k - 2 implies !(#[trigger] is_blank(rest2[m]) && is_blank(
            rest2[m + 1],
        )) by {
            assert(rest2[m] == lines[m + 2] && rest2[m + 1] == lines[m + 3]);
            assert(!(is_blank(lines[m + 2]) && is_blank(lines[m + 3])));
        }
        lemma_collecting_until_blank_pair(text + lines[0] + lines[1], rest2, k - 2);
        lemma_concat_head(rest, k - 1);
        assert(text + lines[0] + lines[1] + concat_lines(rest2.subrange(0, k - 1)) =~= text + (
        lines[0] + (lines[1] + concat_lines(rest2.subrange(0, k - 1)))));
    }
}

/// Where the first line holds text, the free text is every line, as read,
/// up to and including the first line of the first pair of blank lines;
/// the second line of that pair ends collection and is not kept.
pub proof fn lemma_text_is_lines_before_blank_pair(lines: Seq<Seq<char>>, k: int)
    requires
        1 <= k,
        k + 1 < lines.len(),
        !is_blank(lines[0]),
        is_blank(lines[k]),
        is_blank(lines[k + 1]),
        no_blank_pair_before(lines, k),
    ensures
        freeform_of(lines) == concat_lines(lines.subrange(0, k + 1)),
{
    let rest = lines.drop_first();
    assert forall|m: int| 0 <= m < k - 1 implies !(#[trigger] is_blank(rest[m]) && is_blank(
        rest[m + 1],
    )) by {
        assert(rest[m] == lines[m + 1] && rest[m + 1] == lines[m + 2]);
        assert(!(is_blank(lines[m + 1]) && is_blank(lines[m + 2])));
    }
    lemma_collecting_until_blank_pair(Seq::<char>::empty() + lines[0], rest, k - 1);
    lemma_concat_head(lines, k);
    assert(Seq::<char>::empty() + lines[0] + concat_lines(rest.subrange(0, k)) =~= lines[0]
        + concat_lines(rest.subrange(0, k)));
}

} // verus!
