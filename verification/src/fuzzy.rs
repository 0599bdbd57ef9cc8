//! Choosing an item from a list by typing: which entries a query keeps, in which
//! order they are shown, and how the keys move the selection.

use crate::order::{in_stable_order, is_stable_order, stable_order, the_stable_order};
use crate::text::{chars_of, contains, contains_text};
use vstd::pervasive::cloned;
use vstd::prelude::*;

verus! {

/// An entry of the list: the value that choosing it gives, and the text shown.
#[derive(Debug, Clone, PartialEq, Eq)]
pub struct FuzzyFinderItem<T: Clone> {
    pub value: T,
    pub display: String,
}

/// Whether `c` parts the words of a query: an ASCII space, tab, line feed, form
/// feed or carriage return.
pub open spec fn is_ascii_space(c: char) -> bool {
    c == ' ' || c == '\t' || c == '\n' || c == '\x0C' || c == '\r'
}

/// The words of `text`: its longest stretches without ASCII whitespace.
pub open spec fn words_of(text: Seq<char>) -> Seq<Seq<char>>
    decreases text.len(),
{
    if text.len() == 0 {
        Seq::empty()
    } else {
        let before = words_of(text.drop_last());
        let c = text.last();
        if is_ascii_space(c) {
            before
        } else if text.len() >= 2 && !is_ascii_space(text[text.len() - 2]) {
            before.drop_last().push(before.last().push(c))
        } else {
            before.push(seq![c])
        }
    }
}

/// What a word adds to the score: its length where `subject` holds it, else 0.
pub open spec fn word_score(word: Seq<char>, subject: Seq<char>) -> nat {
    if contains_text(subject, word) {
        word.len()
    } else {
        0
    }
}

/// The sum of what the words add to the score.
pub open spec fn words_score(words: Seq<Seq<char>>, subject: Seq<char>) -> nat
    decreases words.len(),
{
    if words.len() == 0 {
        0
    } else {
        words_score(words.drop_last(), subject) + word_score(words.last(), subject)
    }
}

/// The score of `subject` for `query`: the summed lengths of the words of the
/// query that `subject` holds.
pub open spec fn fuzzy_score(query: Seq<char>, subject: Seq<char>) -> nat {
    words_score(words_of(query), subject)
}

/// Whether the text ends inside a word.
pub open spec fn ends_in_word(text: Seq<char>) -> bool {
    text.len() > 0 && !is_ascii_space(text.last())
}

/// Tests whether `c` parts the words of a query.
fn is_space(c: char) -> (yes: bool)
    ensures
        yes == is_ascii_space(c),
{
    c == ' ' || c == '\t' || c == '\n' || c == '\x0C' || c == '\r'
}

/// Computes the score of `subject` for `query`.
pub fn compute_fuzzy_find_score(query: &str, subject: &str) -> (score: usize)
    ensures
        score == fuzzy_score(query@, subject@),
{
    let text = chars_of(query);
    let hay = chars_of(subject);
    let mut score: usize = 0;
    let mut word: Vec<char> = Vec::new();
    let ghost mut done: Seq<Seq<char>> = Seq::empty();
    let mut i: usize = 0;
    while i < text.len()
        invariant
            i <= text.len(),
            text@ == query@,
            hay@ == subject@,
            score == words_score(done, subject@),
            word.len() > 0 <==> ends_in_word(text@.take(i as int)),
            words_of(text@.take(i as int)) == if word.len() > 0 {
                done.push(word@)
            } else {
                done
            },
            score + word.len() <= i,
        decreases text.len() - i,
    {
        let ghost read = text@.take(i as int);
        let ghost next = text@.take(i + 1);
        assert(next.drop_last() =~= read);
        assert(next.last() == text@[i as int]);
        let c = text[i];
        if is_space(c) {
            if word.len() > 0 {
                proof {
                    assert(done.push(word@).drop_last() =~= done);
                    done = done.push(word@);
                }
                if contains(&hay, &word) {
                    score += word.len();
                }
                word = Vec::new();
            }
        } else {
            let ghost before = word@;
            word.push(c);
            proof {
                if before.len() > 0 {
                    assert(read.last() == next[next.len() - 2]);
                    assert(done.push(before).drop_last() =~= done);
                    assert(done.push(before).last() == before);
                    assert(words_of(next) == done.push(before.push(c)));
                } else {
                    if next.len() >= 2 {
                        assert(read.last() == next[next.len() - 2]);
                    }
                    assert(word@ =~= seq![c]);
                    assert(words_of(next) == done.push(seq![c]));
                }
            }
        }
        i += 1;
    }
    assert(text@.take(i as int) =~= text@);
    if word.len() > 0 {
        assert(done.push(word@).drop_last() =~= done);
        if contains(&hay, &word) {
            score += word.len();
        }
    }
    score
}

/// The texts that the entries show.
pub open spec fn displays_of<T: Clone>(list: Seq<FuzzyFinderItem<T>>) -> Seq<Seq<char>> {
    Seq::new(list.len(), |i: int| list[i].display@)
}

/// The positions of the texts with a score above 0, in their order.
pub open spec fn matching_positions(query: Seq<char>, displays: Seq<Seq<char>>) -> Seq<usize>
    decreases displays.len(),
{
    if displays.len() == 0 {
        Seq::empty()
    } else {
        let before = matching_positions(query, displays.drop_last());
        if fuzzy_score(query, displays.last()) > 0 {
            before.push((displays.len() - 1) as usize)
        } else {
            before
        }
    }
}

/// The scores of the texts at the given positions.
pub open spec fn scores_at(query: Seq<char>, displays: Seq<Seq<char>>, positions: Seq<usize>) -> Seq<
    i128,
> {
    Seq::new(positions.len(), |i: int| fuzzy_score(query, displays[positions[i] as int]) as i128)
}

/// The positions of the entries that a query shows, in the order in which they are
/// shown. The empty query shows every entry, in the order of the list. Any other
/// query shows the entries with a score above 0, the highest score first; of two
/// entries with the same score, the one that stands later in the list comes first.
pub open spec fn shown_positions(query: Seq<char>, displays: Seq<Seq<char>>) -> Seq<usize> {
    if query.len() == 0 {
        Seq::new(displays.len(), |i: int| i as usize)
    } else {
        let kept = matching_positions(query, displays);
        in_stable_order(kept, scores_at(query, displays, kept)).reverse()
    }
}

/// A copy of the entry.
fn copy_of<T: Clone>(item: &FuzzyFinderItem<T>) -> (copy: FuzzyFinderItem<T>)
    ensures
        copy.display@ == item.display@,
        cloned(item.value, copy.value),
{
    FuzzyFinderItem { value: item.value.clone(), display: item.display.clone() }
}

/// The entries of `list` that `query` shows, in the order in which they are shown.
pub fn fuzzy_find_match<T: Clone>(query: &str, list: &[FuzzyFinderItem<T>]) -> (shown: Vec<
    FuzzyFinderItem<T>,
>)
    ensures
        shown.len() == shown_positions(query@, displays_of(list@)).len(),
        forall|i: int|
            0 <= i < shown.len() ==> {
                let at = shown_positions(query@, displays_of(list@))[i] as int;
                &&& 0 <= at < list.len()
                &&& (#[trigger] shown[i]).display@ == list[at].display@
                &&& cloned(list[at].value, shown[i].value)
            },
{
    let ghost displays = displays_of(list@);
    let mut shown: Vec<FuzzyFinderItem<T>> = Vec::new();
    if query.is_empty() {
        let mut i: usize = 0;
        while i < list.len()
            invariant
                i <= list.len(),
                shown.len() == i,
                forall|k: int|
                    0 <= k < i ==> (#[trigger] shown[k]).display@ == list[k].display@ && cloned(
                        list[k].value,
                        shown[k].value,
                    ),
            decreases list.len() - i,
        {
            shown.push(copy_of(&list[i]));
            i += 1;
        }
        return shown;
    }
    let mut kept: Vec<usize> = Vec::new();
    let mut scores: Vec<i128> = Vec::new();
    let mut i: usize = 0;
    while i < list.len()
        invariant
            i <= list.len(),
            displays == displays_of(list@),
            kept@ == matching_positions(query@, displays.take(i as int)),
            scores@ == scores_at(query@, displays, kept@),
            forall|k: int| 0 <= k < kept.len() ==> (#[trigger] kept[k]) < i,
        decreases list.len() - i,
    {
        assert(displays.take(i + 1).drop_last() =~= displays.take(i as int));
        assert(displays.take(i + 1).last() == list[i as int].display@);
        let score = compute_fuzzy_find_score(query, list[i].display.as_str());
        if score > 0 {
            let ghost before = scores@;
            kept.push(i);
            scores.push(score as i128);
            assert(scores@ =~= scores_at(query@, displays, kept@));
        }
        i += 1;
    }
    assert(displays.take(i as int) =~= displays);
    let order = stable_order(&scores);
    let ghost ranked = in_stable_order(kept@, scores@);
    let mut left: usize = order.len();
    while left > 0
        invariant
            left <= order.len(),
            order.len() == kept.len(),
            is_stable_order(order@, scores@),
            order@ == the_stable_order(scores@),
            ranked == in_stable_order(kept@, scores@),
            forall|k: int| 0 <= k < kept.len() ==> (#[trigger] kept[k]) < list.len(),
            shown.len() == order.len() - left,
            forall|k: int|
                0 <= k < shown.len() ==> {
                    let at = ranked.reverse()[k] as int;
                    &&& 0 <= at < list.len()
                    &&& (#[trigger] shown[k]).display@ == list[at].display@
                    &&& cloned(list[at].value, shown[k].value)
                },
        decreases left,
    {
        left -= 1;
        assert(order@[left as int] < kept.len());
        let at = kept[order[left]];
        assert(ranked.reverse()[shown.len() as int] == at);
        shown.push(copy_of(&list[at]));
    }
    shown
}

/// A key that the list answers to.
#[derive(Debug, Clone, Copy, PartialEq, Eq, Structural)]
pub enum FinderKey {
    Enter,
    Esc,
    Up,
    Down,
    /// Any other key: it goes to the query line.
    Other,
}

/// What a key leads to.
#[derive(Debug, Clone, Copy, PartialEq, Eq, Structural)]
pub enum FinderStep {
    /// The shown entry at this position is chosen.
    Chosen(usize),
    /// The user gave up.
    Cancelled,
    /// The list stays open, with this selection.
    Select(Option<usize>),
    /// The key edits the query; the selection stays.
    Edit(Option<usize>),
}

/// The selection once the shown entries have changed: a selection beyond the last
/// entry falls back on the last one, or on the first place of an empty list, and
/// without a selection the first entry is selected where there is one.
pub open spec fn settled(selected: Option<usize>, shown: usize) -> Option<usize> {
    match selected {
        Some(at) => if at >= shown {
            Some(
                if shown > 0 {
                    (shown - 1) as usize
                } else {
                    0
                },
            )
        } else {
            Some(at)
        },
        None => if shown > 0 {
            Some(0)
        } else {
            None
        },
    }
}

/// What the key leads to, with `shown` entries on display.
pub open spec fn key_step(selected: Option<usize>, shown: usize, key: FinderKey) -> FinderStep {
    match key {
        FinderKey::Esc => FinderStep::Cancelled,
        FinderKey::Other => FinderStep::Edit(selected),
        FinderKey::Enter => match selected {
            Some(at) => if at < shown {
                FinderStep::Chosen(at)
            } else {
                FinderStep::Select(selected)
            },
            None => FinderStep::Select(selected),
        },
        FinderKey::Up => match selected {
            Some(at) => if at > 0 {
                FinderStep::Select(Some((at - 1) as usize))
            } else {
                FinderStep::Select(selected)
            },
            None => if shown > 0 {
                FinderStep::Select(Some((shown - 1) as usize))
            } else {
                FinderStep::Select(None)
            },
        },
        FinderKey::Down => match selected {
            Some(at) => if at + 1 < shown {
                FinderStep::Select(Some((at + 1) as usize))
            } else {
                FinderStep::Select(selected)
            },
            None => if shown > 0 {
                FinderStep::Select(Some(0))
            } else {
                FinderStep::Select(None)
            },
        },
    }
}

/// Settles the selection after the shown entries have changed.
pub fn settle_selection(selected: Option<usize>, shown: usize) -> (now: Option<usize>)
    ensures
        now == settled(selected, shown),
        shown > 0 ==> (now matches Some(at) && at < shown),
{
    match selected {
        Some(at) => if at >= shown {
            Some(
                if shown > 0 {
                    shown - 1
                } else {
                    0
                },
            )
        } else {
            Some(at)
        },
        None => if shown > 0 {
            Some(0)
        } else {
            None
        },
    }
}

/// Answers a key. An entry is chosen only where it is on display.
pub fn on_key(selected: Option<usize>, shown: usize, key: FinderKey) -> (step: FinderStep)
    ensures
        step == key_step(selected, shown, key),
        step matches FinderStep::Chosen(at) ==> at < shown,
{
    match key {
        FinderKey::Esc => FinderStep::Cancelled,
        FinderKey::Other => FinderStep::Edit(selected),
        FinderKey::Enter => match selected {
            Some(at) => if at < shown {
                FinderStep::Chosen(at)
            } else {
                FinderStep::Select(selected)
            },
            None => FinderStep::Select(selected),
        },
        FinderKey::Up => match selected {
            Some(at) => if at > 0 {
                FinderStep::Select(Some(at - 1))
            } else {
                FinderStep::Select(selected)
            },
            None => if shown > 0 {
                FinderStep::Select(Some(shown - 1))
            } else {
                FinderStep::Select(None)
            },
        },
        FinderKey::Down => match selected {
            Some(at) => if at < shown && at + 1 < shown {
                FinderStep::Select(Some(at + 1))
            } else {
                FinderStep::Select(selected)
            },
            None => if shown > 0 {
                FinderStep::Select(Some(0))
            } else {
                FinderStep::Select(None)
            },
        },
    }
}

} // verus!
