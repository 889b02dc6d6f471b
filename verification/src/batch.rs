//! One request, many songs: the songs a text names, one task for each, and
//! the reply lines that their outcomes give.

use crate::resolver::{search_request, Request};
use crate::task::{song_line, SongTask, SongTaskView, TaskOutcome, TaskOutcomeView};
use crate::text::{decimal, decimal_string, split_lines, trimmed_lines};
use vstd::prelude::*;
use vstd::string::*;

verus! {

/// The songs that a request text names: its lines, trimmed, in order,
/// without the empty ones.
pub open spec fn song_names(text: Seq<char>) -> Seq<Seq<char>> {
    trimmed_lines(text)
}

/// The lines of the outcomes that are resolved, in the order of the outcomes.
pub open spec fn resolved_lines(outcomes: Seq<TaskOutcomeView>) -> Seq<Seq<char>>
    decreases outcomes.len(),
{
    if outcomes.len() == 0 {
        Seq::empty()
    } else {
        match outcomes.last() {
            TaskOutcomeView::Resolved(line) => resolved_lines(outcomes.drop_last()).push(line),
            _ => resolved_lines(outcomes.drop_last()),
        }
    }
}

/// A line under its number.
pub open spec fn numbered(n: nat, line: Seq<char>) -> Seq<char> {
    decimal(n) + ". "@ + line
}

/// The lines numbered from one, without a gap.
pub open spec fn numbered_lines(lines: Seq<Seq<char>>) -> Seq<Seq<char>> {
    Seq::new(lines.len(), |i: int| numbered((i + 1) as nat, lines[i]))
}

/// The lines of the reply to a request whose tasks ended as `outcomes`,
/// task by task in the order of the songs.
pub open spec fn reply_lines(outcomes: Seq<TaskOutcomeView>) -> Seq<Seq<char>> {
    numbered_lines(resolved_lines(outcomes))
}

/// The songs that `text` names.
pub fn split_songs(text: &str) -> (songs: Vec<String>)
    ensures
        songs.deep_view() == song_names(text@),
{
    split_lines(text)
}

/// Begins one task for each song that `text` names, in the order of the
/// songs: each task with the search to send for it.
pub fn fan_out(text: &str, api_key: &str) -> (begun: Vec<(SongTask, Request)>)
    ensures
        begun.len() == song_names(text@).len(),
        forall|i: int|
            0 <= i < begun.len() ==> {
                &&& (#[trigger] begun[i]).0@ == (SongTaskView::Searching {
                    song: song_names(text@)[i],
                })
                &&& begun[i].1@ == search_request(api_key@, song_names(text@)[i])
            },
{
    let songs = split_songs(text);
    let ghost names = song_names(text@);
    let mut begun: Vec<(SongTask, Request)> = Vec::new();
    proof {
        assert(songs.deep_view().len() == songs.len());
        assert forall|j: int| 0 <= j < songs.len() implies (#[trigger] songs@[j])@ == names[j] by {
            assert(songs.deep_view()[j] == songs@[j]@);
        }
    }
    for song in it: songs
        invariant
            names == song_names(text@),
            it.seq().len() == names.len(),
            forall|j: int| 0 <= j < names.len() ==> (#[trigger] it.seq()[j])@ == names[j],
            begun.len() == it.index(),
            forall|j: int|
                0 <= j < begun.len() ==> {
                    &&& (#[trigger] begun[j]).0@ == (SongTaskView::Searching { song: names[j] })
                    &&& begun[j].1@ == search_request(api_key@, names[j])
                },
    {
        begun.push(SongTask::start(song, api_key));
    }
    begun
}

/// Puts `line` under the number `n`.
pub fn number_line(n: usize, line: &str) -> (text: String)
    ensures
        text@ == numbered(n as nat, line@),
{
    let mut text = decimal_string(n);
    text.append(". ");
    text.append(line);
    text
}

/// The lines of the reply: those of the resolved tasks, in the order of
/// the tasks, numbered from one without a gap. A task that ended in any
/// other way leaves no trace.
pub fn collect_links(outcomes: &Vec<TaskOutcome>) -> (links: Vec<String>)
    ensures
        links.deep_view() == reply_lines(outcomes.deep_view()),
{
    let mut links: Vec<String> = Vec::new();
    let mut i: usize = 0;
    proof {
        assert(outcomes.deep_view().take(0) =~= Seq::empty());
        assert(links.deep_view() =~= reply_lines(outcomes.deep_view().take(0)));
    }
    while i < outcomes.len()
        invariant
            i <= outcomes.len(),
            links.len() <= i,
            links.deep_view() == reply_lines(outcomes.deep_view().take(i as int)),
        decreases outcomes.len() - i,
    {
        let ghost before = outcomes.deep_view().take(i as int);
        let ghost now = outcomes.deep_view().take(i + 1);
        let ghost listed = links.deep_view();
        proof {
            assert(now.drop_last() =~= before);
            assert(now.last() == outcomes[i as int]@);
        }
        match &outcomes[i] {
            TaskOutcome::Resolved(line) => {
                let entry = number_line(links.len() + 1, line.as_str());
                links.push(entry);
                proof {
                    assert(resolved_lines(now) == resolved_lines(before).push(line@));
                    assert(links.deep_view() =~= listed.push(entry@));
                    assert(links.deep_view() =~= reply_lines(now));
                }
            },
            _ => {
                proof {
                    assert(resolved_lines(now) == resolved_lines(before));
                }
            },
        }
        i += 1;
    }
    proof {
        assert(outcomes.deep_view().take(outcomes.len() as int) =~= outcomes.deep_view());
    }
    links
}

/// Resolved lines of a list in two parts: those of the first part, then
/// those of the second.
pub proof fn lemma_resolved_lines_concat(
    first: Seq<TaskOutcomeView>,
    second: Seq<TaskOutcomeView>,
)
    ensures
        resolved_lines(first + second) == resolved_lines(first) + resolved_lines(second),
    decreases second.len(),
{
    if second.len() == 0 {
        assert(first + second =~= first);
        assert(resolved_lines(first) + resolved_lines(second) =~= resolved_lines(first));
    } else {
        assert((first + second).drop_last() =~= first + second.drop_last());
        assert((first + second).last() == second.last());
        lemma_resolved_lines_concat(first, second.drop_last());
        match second.last() {
            TaskOutcomeView::Resolved(line) => {
                assert(resolved_lines(first + second) =~= resolved_lines(first)
                    + resolved_lines(second));
            },
            _ => {},
        }
    }
}

/// There are no more reply lines than tasks, and the line at place `k`
/// carries the number `k + 1`.
pub proof fn lemma_dense_numbering(outcomes: Seq<TaskOutcomeView>)
    ensures
        reply_lines(outcomes).len() == resolved_lines(outcomes).len(),
        reply_lines(outcomes).len() <= outcomes.len(),
        forall|k: int|
            0 <= k < reply_lines(outcomes).len() ==> #[trigger] reply_lines(outcomes)[k]
                == numbered((k + 1) as nat, resolved_lines(outcomes)[k]),
    decreases outcomes.len(),
{
    if outcomes.len() > 0 {
        lemma_dense_numbering(outcomes.drop_last());
    }
}

/// Where every song is resolved, the reply has one line for each song, in
/// the order of the songs, numbered from one to their count.
pub proof fn lemma_all_resolved(
    songs: Seq<Seq<char>>,
    links: Seq<Seq<char>>,
    outcomes: Seq<TaskOutcomeView>,
)
    requires
        songs.len() == outcomes.len(),
        links.len() == outcomes.len(),
        forall|i: int|
            0 <= i < outcomes.len() ==> #[trigger] outcomes[i] == TaskOutcomeView::Resolved(
                song_line(songs[i], links[i]),
            ),
    ensures
        reply_lines(outcomes).len() == songs.len(),
        forall|i: int|
            0 <= i < songs.len() ==> #[trigger] reply_lines(outcomes)[i] == numbered(
                (i + 1) as nat,
                song_line(songs[i], links[i]),
            ),
    decreases outcomes.len(),
{
    if outcomes.len() > 0 {
        let n = outcomes.len() - 1;
        assert forall|i: int| 0 <= i < n implies #[trigger] outcomes.drop_last()[i]
            == TaskOutcomeView::Resolved(
            song_line(songs.drop_last()[i], links.drop_last()[i]),
        ) by {
            assert(outcomes.drop_last()[i] == outcomes[i]);
        }
        lemma_all_resolved(songs.drop_last(), links.drop_last(), outcomes.drop_last());
        assert(outcomes.last() == outcomes[n]);
        assert forall|i: int| 0 <= i < songs.len() implies #[trigger] reply_lines(outcomes)[i]
            == numbered((i + 1) as nat, song_line(songs[i], links[i])) by {
            if i < n {
                assert(reply_lines(outcomes.drop_last())[i] == numbered(
                    (i + 1) as nat,
                    song_line(songs.drop_last()[i], links.drop_last()[i]),
                ));
            }
        }
    }
}

/// A song whose task did not end resolved is left out of the reply, and
/// the lines of the others are numbered as if it had never been asked for.
pub proof fn lemma_failed_song_is_omitted(outcomes: Seq<TaskOutcomeView>, i: int)
    requires
        0 <= i < outcomes.len(),
        !(outcomes[i] is Resolved),
    ensures
        resolved_lines(outcomes) == resolved_lines(outcomes.remove(i)),
        reply_lines(outcomes) == reply_lines(outcomes.remove(i)),
{
    let before = outcomes.take(i);
    let one = seq![outcomes[i]];
    let after = outcomes.skip(i + 1);
    assert(outcomes =~= before + one + after);
    assert(outcomes.remove(i) =~= before + after);
    lemma_resolved_lines_concat(before, one);
    lemma_resolved_lines_concat(before + one, after);
    lemma_resolved_lines_concat(before, after);
    assert(one.drop_last() =~= Seq::<TaskOutcomeView>::empty());
    assert(resolved_lines(one.drop_last()) =~= Seq::<Seq<char>>::empty());
    assert(resolved_lines(one) =~= Seq::<Seq<char>>::empty());
    assert(resolved_lines(before) + resolved_lines(one) =~= resolved_lines(before));
}

/// However one task fails, by a lookup without a value, by a failed lookup
/// or by breaking off, the reply is the one that the other tasks alone
/// would have given: their lines, in their order.
pub proof fn lemma_failure_spares_siblings(
    outcomes: Seq<TaskOutcomeView>,
    i: int,
    failure: TaskOutcomeView,
)
    requires
        0 <= i < outcomes.len(),
        !(failure is Resolved),
    ensures
        resolved_lines(outcomes.update(i, failure)) == resolved_lines(outcomes.remove(i)),
        reply_lines(outcomes.update(i, failure)) == reply_lines(outcomes.remove(i)),
{
    let changed = outcomes.update(i, failure);
    lemma_failed_song_is_omitted(changed, i);
    assert(changed.remove(i) =~= outcomes.remove(i));
}

/// A resolved task has its line in the reply whatever became of the
/// others: at the place that counts the resolved tasks before it.
pub proof fn lemma_resolved_song_is_listed(outcomes: Seq<TaskOutcomeView>, j: int)
    requires
        0 <= j < outcomes.len(),
        outcomes[j] is Resolved,
    ensures
        ({
            let place = resolved_lines(outcomes.take(j)).len() as int;
            &&& place <= j
            &&& place < reply_lines(outcomes).len()
            &&& reply_lines(outcomes)[place] == numbered(
                (place + 1) as nat,
                outcomes[j]->Resolved_0,
            )
        }),
{
    let before = outcomes.take(j);
    let one = seq![outcomes[j]];
    let after = outcomes.skip(j + 1);
    assert(outcomes =~= before + one + after);
    lemma_resolved_lines_concat(before, one);
    lemma_resolved_lines_concat(before + one, after);
    assert(one.drop_last() =~= Seq::<TaskOutcomeView>::empty());
    assert(resolved_lines(one.drop_last()) =~= Seq::<Seq<char>>::empty());
    assert(resolved_lines(one) =~= seq![outcomes[j]->Resolved_0]);
    lemma_dense_numbering(before);
    lemma_dense_numbering(outcomes);
}

/// Where no task ended resolved, the reply has no line.
pub proof fn lemma_none_resolved(outcomes: Seq<TaskOutcomeView>)
    requires
        forall|i: int| 0 <= i < outcomes.len() ==> !(#[trigger] outcomes[i] is Resolved),
    ensures
        reply_lines(outcomes) == Seq::<Seq<char>>::empty(),
    decreases outcomes.len(),
{
    if outcomes.len() > 0 {
        assert forall|i: int| 0 <= i < outcomes.drop_last().len() implies !(
        #[trigger] outcomes.drop_last()[i] is Resolved) by {
            assert(outcomes.drop_last()[i] == outcomes[i]);
        }
        lemma_none_resolved(outcomes.drop_last());
        assert(!(outcomes[outcomes.len() - 1] is Resolved));
    }
    assert(reply_lines(outcomes) =~= Seq::<Seq<char>>::empty());
}

} // verus!
