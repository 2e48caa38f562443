//! The questions of a quiz about an artist: each asks for the title of one
//! track and offers up to three titles of other tracks beside it. Of the
//! tracks that share a title one is taken, by chance, and chance orders
//! the questions and the titles on offer.

use crate::db::TrackInfo;
use vstd::prelude::*;

verus! {

/// How many tracks are drawn for the titles to offer beside the answer. One
/// more than is offered, so that the answer may be among them.
pub const DRAWN: usize = 4;

/// How many titles are offered beside the answer, at most.
pub const DECOYS: usize = 3;

/// One question of the quiz.
#[derive(Debug, PartialEq, Eq)]
pub struct Question {
    /// The track whose title is asked for.
    pub answer_info: TrackInfo,
    /// The titles on offer, that of the answer among them.
    pub options: Vec<String>,
}

/// Whether `after` holds the items of `before` in another order: the item
/// at `i` was at `to_old[i]`, the item that was at `k` is at `to_new[k]`,
/// and the one undoes the other.
pub open spec fn rearranged<T>(
    before: Seq<T>,
    after: Seq<T>,
    to_old: Seq<int>,
    to_new: Seq<int>,
) -> bool {
    &&& after.len() == before.len()
    &&& to_old.len() == before.len()
    &&& to_new.len() == before.len()
    &&& forall|i: int|
        0 <= i < after.len() ==> 0 <= #[trigger] to_old[i] < before.len() && after[i]
            == before[to_old[i]] && to_new[to_old[i]] == i
    &&& forall|k: int|
        0 <= k < before.len() ==> 0 <= #[trigger] to_new[k] < after.len() && before[k]
            == after[to_new[k]] && to_old[to_new[k]] == k
}

/// Whether `after` holds the items of `before` with those from `from` up
/// to `to` in another order, and the rest in place.
pub open spec fn rearranged_within<T>(
    before: Seq<T>,
    after: Seq<T>,
    from: int,
    to: int,
    to_old: Seq<int>,
    to_new: Seq<int>,
) -> bool {
    &&& rearranged(before, after, to_old, to_new)
    &&& forall|i: int|
        0 <= i < after.len() ==> (from <= i < to <==> from <= #[trigger] to_old[i] < to) && (!(from
            <= i < to) ==> to_old[i] == i)
}

/// Whether `chosen` holds the number and the title of the tracks at
/// `picks`, which are places in `tracks`, no place twice.
pub open spec fn is_choice(
    tracks: Seq<TrackInfo>,
    picks: Seq<int>,
    chosen: Seq<(i64, String)>,
) -> bool {
    &&& picks.len() == chosen.len()
    &&& forall|k: int|
        0 <= k < picks.len() ==> 0 <= #[trigger] picks[k] < tracks.len() && chosen[k] == (
            tracks[picks[k]].id,
            tracks[picks[k]].title,
        )
    &&& forall|j: int, k: int|
        0 <= j < k < picks.len() ==> #[trigger] picks[j] != #[trigger] picks[k]
}

/// The titles of the tracks, in their order.
pub open spec fn titles_of(tracks: Seq<TrackInfo>) -> Seq<Seq<char>> {
    Seq::new(tracks.len(), |i: int| tracks[i].title@)
}

/// The order of strings: that of the first characters in which two texts
/// differ, by their numbers in Unicode; a text comes before those that it
/// begins.
pub open spec fn text_le(a: Seq<char>, b: Seq<char>) -> bool
    decreases a.len(),
{
    if a.len() == 0 {
        true
    } else if b.len() == 0 {
        false
    } else if a[0] != b[0] {
        (a[0] as u32) < (b[0] as u32)
    } else {
        text_le(a.skip(1), b.skip(1))
    }
}

/// Whether the titles stand in the order of strings.
pub open spec fn in_order(titles: Seq<Seq<char>>) -> bool {
    forall|i: int, j: int|
        0 <= i <= j < titles.len() ==> text_le(#[trigger] titles[i], #[trigger] titles[j])
}

/// Whether equal titles stand side by side: a title that has come before
/// is the title that has come last.
pub open spec fn grouped(titles: Seq<Seq<char>>) -> bool {
    forall|i: int, k: int|
        0 <= i < k < titles.len() && #[trigger] titles[i] == #[trigger] titles[k] ==> titles[k - 1]
            == titles[k]
}

proof fn lemma_text_le_antisymmetric(a: Seq<char>, b: Seq<char>)
    requires
        text_le(a, b),
        text_le(b, a),
    ensures
        a == b,
    decreases a.len(),
{
    if a.len() == 0 {
        assert(a =~= b);
    } else {
        lemma_text_le_antisymmetric(a.skip(1), b.skip(1));
        assert(a =~= seq![a[0]] + a.skip(1));
        assert(b =~= seq![b[0]] + b.skip(1));
    }
}

proof fn lemma_in_order_is_grouped(titles: Seq<Seq<char>>)
    requires
        in_order(titles),
    ensures
        grouped(titles),
{
    assert forall|i: int, k: int|
        0 <= i < k < titles.len() && #[trigger] titles[i] == #[trigger] titles[k] implies titles[k
            - 1] == titles[k] by {
        assert(text_le(titles[i], titles[k - 1]));
        assert(text_le(titles[k - 1], titles[k]));
        lemma_text_le_antisymmetric(titles[k - 1], titles[k]);
    }
}

/// `rand::seq::SliceRandom::shuffle` on the part of `items` from `from` up
/// to `to`, with the generator of the thread: afterwards that part holds
/// what it held, in an order that chance gave, and the rest is in place.
#[verifier::external_body]
fn shuffle_part<T>(items: &mut Vec<T>, from: usize, to: usize)
    requires
        from <= to <= old(items)@.len(),
    ensures
        exists|to_old: Seq<int>, to_new: Seq<int>|
            rearranged_within(old(items)@, final(items)@, from as int, to as int, to_old, to_new),
{
    rand::seq::SliceRandom::shuffle(&mut items[from..to], &mut rand::thread_rng());
}

/// `rand::seq::SliceRandom::choose_multiple` on the tracks, with the
/// generator of the thread: `amount` of the tracks, or all where there are
/// fewer, from places that chance gave, no place twice. Of each the number
/// and the title are handed out.
#[verifier::external_body]
fn choose_multiple(tracks: &Vec<TrackInfo>, amount: usize) -> (chosen: Vec<(i64, String)>)
    ensures
        chosen@.len() == (if amount <= tracks@.len() {
            amount as nat
        } else {
            tracks@.len()
        }),
        exists|picks: Seq<int>| is_choice(tracks@, picks, chosen@),
{
    rand::seq::SliceRandom::choose_multiple(tracks.as_slice(), &mut rand::thread_rng(), amount).map(
        |t| (t.id, t.title.clone()),
    ).collect()
}

/// `sort_unstable_by` of the standard library on the tracks, by the order
/// of their titles as strings: afterwards the tracks are the same, in
/// another order, and their titles stand in the order of strings.
#[verifier::external_body]
fn sort_by_title(tracks: &mut Vec<TrackInfo>)
    ensures
        exists|to_old: Seq<int>, to_new: Seq<int>|
            rearranged(old(tracks)@, final(tracks)@, to_old, to_new),
        in_order(titles_of(final(tracks)@)),
{
    tracks.sort_unstable_by(|a, b| a.title.cmp(&b.title));
}

/// Puts the items in an order that chance gives.
pub fn shuffle<T>(items: &mut Vec<T>)
    ensures
        exists|to_old: Seq<int>, to_new: Seq<int>|
            rearranged(old(items)@, final(items)@, to_old, to_new),
{
    let n: usize = items.len();
    shuffle_part(items, 0, n);
}

/// Whether one of `tracks` has the title `title`.
pub open spec fn has_title(tracks: Seq<TrackInfo>, title: Seq<char>) -> bool {
    exists|i: int| 0 <= i < tracks.len() && (#[trigger] tracks[i]).title@ == title
}

/// What holds of tracks that were picked from `tracks`, one of each title:
/// each is one of `tracks`, no two have one title, and every title of
/// `tracks` is the title of one.
pub open spec fn one_of_each_title(tracks: Seq<TrackInfo>, picked: Seq<TrackInfo>) -> bool {
    &&& forall|i: int| 0 <= i < picked.len() ==> tracks.contains(#[trigger] picked[i])
    &&& forall|i: int, j: int|
        0 <= i < j < picked.len() ==> (#[trigger] picked[i]).title@ != (#[trigger] picked[j]).title@
    &&& forall|k: int| 0 <= k < tracks.len() ==> has_title(picked, (#[trigger] tracks[k]).title@)
}

proof fn lemma_rearranged_one_of_each(
    tracks: Seq<TrackInfo>,
    before: Seq<TrackInfo>,
    after: Seq<TrackInfo>,
    to_old: Seq<int>,
    to_new: Seq<int>,
)
    requires
        one_of_each_title(tracks, before),
        rearranged(before, after, to_old, to_new),
    ensures
        one_of_each_title(tracks, after),
{
    assert forall|i: int| 0 <= i < after.len() implies tracks.contains(#[trigger] after[i]) by {
        assert(after[i] == before[to_old[i]]);
    }
    assert forall|i: int, j: int| 0 <= i < j < after.len() implies (#[trigger] after[i]).title@ != (
    #[trigger] after[j]).title@ by {
        let a = to_old[i];
        let b = to_old[j];
        assert(to_new[a] == i && to_new[b] == j);
        assert(after[i] == before[a] && after[j] == before[b]);
        if a < b {
            assert(before[a].title@ != before[b].title@);
        } else {
            assert(before[b].title@ != before[a].title@);
        }
    }
    assert forall|k: int| 0 <= k < tracks.len() implies has_title(
        after,
        (#[trigger] tracks[k]).title@,
    ) by {
        assert(has_title(before, tracks[k].title@));
        let p = choose|p: int|
            0 <= p < before.len() && (#[trigger] before[p]).title@ == tracks[k].title@;
        assert(after[to_new[p]] == before[p]);
    }
}

/// After a run of one title was put in another order, every place holds
/// the title that it held, and a track that was there before.
proof fn lemma_run_keeps_titles(
    before: Seq<TrackInfo>,
    after: Seq<TrackInfo>,
    lo: int,
    hi: int,
    to_old: Seq<int>,
    to_new: Seq<int>,
    titles: Seq<Seq<char>>,
)
    requires
        0 <= lo < hi <= before.len(),
        rearranged_within(before, after, lo, hi, to_old, to_new),
        titles_of(before) == titles,
        forall|p: int| lo <= p < hi ==> #[trigger] titles[p] == titles[lo],
    ensures
        titles_of(after) == titles,
{
    assert forall|i: int| 0 <= i < after.len() implies after[i].title@ == titles[i] by {
        let o = to_old[i];
        assert(after[i] == before[o]);
        assert(titles_of(before)[o] == before[o].title@);
        if lo <= i < hi {
            assert(titles[o] == titles[lo]);
            assert(titles[i] == titles[lo]);
        }
    }
    assert(titles_of(after) =~= titles);
}

/// Takes one track of each title, by chance among those that share it.
pub fn distinct_titles(tracks: Vec<TrackInfo>) -> (picked: Vec<TrackInfo>)
    ensures
        one_of_each_title(tracks@, picked@),
{
    let ghost given = tracks@;
    let mut sorted = tracks;
    sort_by_title(&mut sorted);
    let ghost titles = titles_of(sorted@);
    proof {
        lemma_in_order_is_grouped(titles);
    }
    // Where each track stands now, and where each track that was given went.
    let ghost mut origin: Seq<int>;
    let ghost place: Seq<int>;
    proof {
        let (to_old, to_new) = choose|to_old: Seq<int>, to_new: Seq<int>|
            rearranged(given, sorted@, to_old, to_new);
        origin = to_old;
        place = to_new;
        assert forall|k: int| 0 <= k < given.len() implies 0 <= #[trigger] place[k] < titles.len()
            && titles[place[k]] == given[k].title@ by {
            assert(sorted@[place[k]] == given[k]);
        }
    }
    let n: usize = sorted.len();
    let mut picked: Vec<TrackInfo> = Vec::new();
    // Of each track picked: where its title stands.
    let ghost mut starts: Seq<int> = Seq::empty();
    // Of each place before `lo`: which of the tracks picked has its title.
    let ghost mut run_of: Seq<int> = Seq::empty();
    let mut lo: usize = 0;
    while lo < n
        invariant
            lo <= n,
            sorted@.len() == n,
            titles.len() == n,
            given.len() == n,
            origin.len() == n,
            grouped(titles),
            titles_of(sorted@) == titles,
            forall|i: int|
                0 <= i < n ==> 0 <= #[trigger] origin[i] < given.len() && sorted@[i]
                    == given[origin[i]],
            0 < lo < n ==> titles[lo - 1] != titles[lo as int],
            starts.len() == picked@.len(),
            run_of.len() == lo,
            forall|i: int| 0 <= i < picked@.len() ==> given.contains(#[trigger] picked@[i]),
            forall|i: int|
                0 <= i < picked@.len() ==> 0 <= #[trigger] starts[i] < lo && picked@[i].title@
                    == titles[starts[i]],
            forall|p: int|
                0 <= p < lo ==> 0 <= #[trigger] run_of[p] < picked@.len()
                    && picked@[run_of[p]].title@ == titles[p],
            forall|i: int, j: int|
                0 <= i < j < picked@.len() ==> (#[trigger] picked@[i]).title@ != (
                #[trigger] picked@[j]).title@,
        decreases n - lo,
    {
        let mut hi: usize = lo + 1;
        assert(titles_of(sorted@)[lo as int] == sorted@[lo as int].title@);
        while hi < n && sorted[hi].title == sorted[lo].title
            invariant
                lo < hi <= n,
                sorted@.len() == n,
                titles.len() == n,
                titles_of(sorted@) == titles,
                forall|p: int| lo <= p < hi ==> #[trigger] titles[p] == titles[lo as int],
            decreases n - hi,
        {
            assert(titles_of(sorted@)[hi as int] == sorted@[hi as int].title@);
            assert(titles_of(sorted@)[lo as int] == sorted@[lo as int].title@);
            hi += 1;
        }
        proof {
            if hi < n {
                assert(titles_of(sorted@)[hi as int] == sorted@[hi as int].title@);
                assert(titles_of(sorted@)[lo as int] == sorted@[lo as int].title@);
                assert(titles[hi - 1] == titles[lo as int]);
            }
        }
        let ghost before = sorted@;
        shuffle_part(&mut sorted, lo, hi);
        proof {
            let (to_old, to_new) = choose|to_old: Seq<int>, to_new: Seq<int>|
                rearranged_within(before, sorted@, lo as int, hi as int, to_old, to_new);
            lemma_run_keeps_titles(before, sorted@, lo as int, hi as int, to_old, to_new, titles);
            let moved = Seq::new(n as nat, |i: int| origin[to_old[i]]);
            assert forall|i: int| 0 <= i < n implies 0 <= #[trigger] moved[i] < given.len()
                && sorted@[i] == given[moved[i]] by {
                assert(sorted@[i] == before[to_old[i]]);
            }
            origin = moved;
        }
        let track: TrackInfo = sorted[lo].clone();
        let ghost earlier = picked@;
        picked.push(track);
        proof {
            let last = earlier.len() as int;
            assert(picked@[last] == sorted@[lo as int]);
            assert(titles_of(sorted@)[lo as int] == sorted@[lo as int].title@);
            assert(picked@[last] == given[origin[lo as int]]);
            assert forall|i: int| 0 <= i < picked@.len() implies given.contains(
                #[trigger] picked@[i],
            ) by {
                if i < last {
                    assert(picked@[i] == earlier[i]);
                }
            }
            assert forall|i: int| 0 <= i < last implies (#[trigger] picked@[i]).title@
                != picked@[last].title@ by {
                assert(picked@[i] == earlier[i]);
                let p = starts[i];
                if titles[p] == titles[lo as int] {
                    assert(titles[lo - 1] == titles[lo as int]);
                }
            }
            assert forall|i: int, j: int| 0 <= i < j < picked@.len() implies (
            #[trigger] picked@[i]).title@ != (#[trigger] picked@[j]).title@ by {
                if j < last {
                    assert(picked@[i] == earlier[i] && picked@[j] == earlier[j]);
                }
            }
            let old_starts = starts;
            let old_run_of = run_of;
            starts = old_starts.push(lo as int);
            run_of = Seq::new(
                hi as nat,
                |p: int|
                    if p < lo {
                        old_run_of[p]
                    } else {
                        last
                    },
            );
            assert forall|i: int| 0 <= i < picked@.len() implies 0 <= #[trigger] starts[i] < hi
                && picked@[i].title@ == titles[starts[i]] by {
                if i < last {
                    assert(picked@[i] == earlier[i]);
                    assert(starts[i] == old_starts[i]);
                }
            }
            assert forall|p: int| 0 <= p < hi implies 0 <= #[trigger] run_of[p] < picked@.len()
                && picked@[run_of[p]].title@ == titles[p] by {
                if p < lo {
                    assert(run_of[p] == old_run_of[p]);
                    assert(picked@[old_run_of[p]] == earlier[old_run_of[p]]);
                } else {
                    assert(titles[p] == titles[lo as int]);
                }
            }
        }
        lo = hi;
    }
    proof {
        assert forall|k: int| 0 <= k < given.len() implies has_title(
            picked@,
            (#[trigger] given[k]).title@,
        ) by {
            let i = run_of[place[k]];
            assert(picked@[i].title@ == given[k].title@);
        }
    }
    picked
}

/// The titles of those in `chosen` whose number is not `id`, in order.
pub open spec fn titles_of_others(chosen: Seq<(i64, String)>, id: i64) -> Seq<String>
    decreases chosen.len(),
{
    if chosen.len() == 0 {
        Seq::empty()
    } else if chosen.last().0 != id {
        titles_of_others(chosen.drop_last(), id).push(chosen.last().1)
    } else {
        titles_of_others(chosen.drop_last(), id)
    }
}

/// The titles to offer for `answer`, before they are put in an order that
/// chance gives: the first `DECOYS` titles of the tracks drawn that are not
/// the answer itself, and then the title of the answer.
pub open spec fn options_of(chosen: Seq<(i64, String)>, answer: TrackInfo) -> Seq<String> {
    let others = titles_of_others(chosen, answer.id);
    (if others.len() <= DECOYS {
        others
    } else {
        others.take(DECOYS as int)
    }).push(answer.title)
}

/// Makes the titles to offer for `answer` of the tracks that were drawn.
pub fn pick_options(answer: &TrackInfo, chosen: Vec<(i64, String)>) -> (options: Vec<String>)
    ensures
        options@ == options_of(chosen@, *answer),
{
    let mut options: Vec<String> = Vec::new();
    let mut k: usize = 0;
    assert(chosen@.take(0) == Seq::<(i64, String)>::empty());
    while k < chosen.len()
        invariant
            k <= chosen.len(),
            options@.len() <= DECOYS,
            ({
                let others = titles_of_others(chosen@.take(k as int), answer.id);
                options@ == (if others.len() <= DECOYS {
                    others
                } else {
                    others.take(DECOYS as int)
                })
            }),
        decreases chosen.len() - k,
    {
        proof {
            assert(chosen@.take(k + 1).drop_last() == chosen@.take(k as int));
            assert(chosen@.take(k + 1).last() == chosen@[k as int]);
        }
        let ghost others = titles_of_others(chosen@.take(k as int), answer.id);
        if chosen[k].0 != answer.id && options.len() < DECOYS {
            options.push(chosen[k].1.clone());
            assert(options@ == others.push(chosen@[k as int].1));
        } else if chosen[k].0 != answer.id {
            assert(others.push(chosen@[k as int].1).take(DECOYS as int) == others.take(
                DECOYS as int,
            ));
        }
        k += 1;
    }
    assert(chosen@.take(k as int) == chosen@);
    options.push(answer.title.clone());
    options
}

/// What holds of the question at `q` among `questions`: its titles on
/// offer are those that `pick_options` makes of a draw of `DRAWN` of the
/// answers, or of all where there are fewer, in some order.
#[verifier::opaque]
pub open spec fn offers_a_draw(answers: Seq<TrackInfo>, question: Question) -> bool {
    exists|picks: Seq<int>, chosen: Seq<(i64, String)>, to_old: Seq<int>, to_new: Seq<int>|
        {
            &&& #[trigger] is_choice(answers, picks, chosen)
            &&& chosen.len() == (if DRAWN <= answers.len() {
                DRAWN as nat
            } else {
                answers.len()
            })
            &&& #[trigger] rearranged(
                options_of(chosen, question.answer_info),
                question.options@,
                to_old,
                to_new,
            )
        }
}

/// The tracks that the questions ask for.
pub open spec fn answers_of(questions: Seq<Question>) -> Seq<TrackInfo> {
    questions.map_values(|q: Question| q.answer_info)
}

/// Makes the questions of a quiz about the tracks of an artist.
///
/// Of the tracks that share a title one is asked for, so no two questions
/// have one answer, and every title of `tracks` is asked for once. The
/// questions come in an order that chance gives. Each offers the title of
/// its answer and, beside it, the titles of up to `DECOYS` other tracks
/// that are asked for, in an order that chance gives.
pub fn artist_questions(tracks: Vec<TrackInfo>) -> (questions: Vec<Question>)
    ensures
        one_of_each_title(tracks@, answers_of(questions@)),
        forall|q: int|
            0 <= q < questions@.len() ==> offers_a_draw(
                answers_of(questions@),
                #[trigger] questions@[q],
            ),
{
    let ghost given = tracks@;
    let mut pool: Vec<TrackInfo> = distinct_titles(tracks);
    let ghost picked = pool@;
    shuffle(&mut pool);
    proof {
        let (to_old, to_new) = choose|to_old: Seq<int>, to_new: Seq<int>|
            rearranged(picked, pool@, to_old, to_new);
        lemma_rearranged_one_of_each(given, picked, pool@, to_old, to_new);
    }
    let mut questions: Vec<Question> = Vec::new();
    let mut q: usize = 0;
    while q < pool.len()
        invariant
            q <= pool.len(),
            questions@.len() == q,
            forall|i: int| 0 <= i < q ==> (#[trigger] questions@[i]).answer_info == pool@[i],
            forall|i: int| 0 <= i < q ==> offers_a_draw(pool@, #[trigger] questions@[i]),
        decreases pool.len() - q,
    {
        let chosen: Vec<(i64, String)> = choose_multiple(&pool, DRAWN);
        let ghost drawn = chosen@;
        let mut options: Vec<String> = pick_options(&pool[q], chosen);
        let ghost in_order = options@;
        shuffle(&mut options);
        let question = Question { answer_info: pool[q].clone(), options };
        proof {
            let picks = choose|picks: Seq<int>| is_choice(pool@, picks, drawn);
            let (to_old, to_new) = choose|to_old: Seq<int>, to_new: Seq<int>|
                rearranged(in_order, question.options@, to_old, to_new);
            assert(is_choice(pool@, picks, drawn));
            assert(rearranged(
                options_of(drawn, question.answer_info),
                question.options@,
                to_old,
                to_new,
            ));
            assert(offers_a_draw(pool@, question)) by {
                reveal(offers_a_draw);
            }
        }
        questions.push(question);
        q += 1;
    }
    assert(answers_of(questions@) == pool@);
    questions
}

} // verus!
