use vstd::prelude::*;
use crate::notes::Note;
use crate::sequence::common::spec_first_error;
use crate::sequence::common::spec_ok_prefix;
use crate::sequence::event::delta::Delta;
use crate::sequence::event::merge_events::merge_events;
use crate::sequence::event::merge_events::spec_merge_abs;
use crate::sequence::event::merge_events::spec_streams;
use crate::sequence::event::merge_events::spec_to_deltas;
use crate::sequence::note::merge_notes::merge_notes;
use crate::sequence::note::merge_notes::spec_merge_notes;

verus! {

/// The number of groups that a grouped merge deals its streams into.
pub const MERGE_GROUPS: usize = 4;

/// The first `n` items of `array` dealt into `count` groups in turn: item
/// `i` goes to the end of group `i % count`.
pub open spec fn spec_dealt<T>(array: Seq<T>, count: int, n: int) -> Seq<Seq<T>>
    decreases n,
{
    if n <= 0 {
        Seq::new(count as nat, |j: int| Seq::<T>::empty())
    } else {
        let before = spec_dealt(array, count, n - 1);
        before.update((n - 1) % count, before[(n - 1) % count].push(array[n - 1]))
    }
}

/// The groups of a vector of groups as sequences.
pub open spec fn spec_groups<T>(g: Seq<Vec<T>>) -> Seq<Seq<T>> {
    Seq::new(g.len(), |j: int| g[j]@)
}

/// Dealing puts item `i` at place `i / count` of group `i % count`, and
/// nothing else anywhere: group `j` holds one item for every `i` below `n`
/// that leaves `j` when divided by `count`.
pub proof fn lemma_dealt_places<T>(array: Seq<T>, count: int, n: int)
    requires
        count > 0,
        0 <= n <= array.len(),
    ensures
        spec_dealt(array, count, n).len() == count,
        forall|j: int|
            0 <= j < count ==> (#[trigger] spec_dealt(array, count, n)[j]).len() == (n + count
                - 1 - j) / count,
        forall|i: int|
            0 <= i < n ==> spec_dealt(array, count, n)[i % count][i / count] == #[trigger] array[i],
    decreases n,
{
    if n == 0 {
        assert forall|j: int| 0 <= j < count implies (#[trigger] spec_dealt(array, count, n)[j]).len()
            == (n + count - 1 - j) / count by {
            assert((count - 1 - j) / count == 0) by (nonlinear_arith)
                requires
                    count > 0,
                    0 <= j < count,
            ;
        }
    } else {
        lemma_dealt_places(array, count, n - 1);
        let before = spec_dealt(array, count, n - 1);
        let now = spec_dealt(array, count, n);
        let last = n - 1;
        let at = last % count;
        let q = last / count;
        assert(last == q * count + at && 0 <= at < count) by (nonlinear_arith)
            requires
                count > 0,
                last >= 0,
                at == last % count,
                q == last / count,
        ;
        assert((last + count - 1 - at) / count == q) by (nonlinear_arith)
            requires
                count > 0,
                last == q * count + at,
                0 <= at < count,
        ;
        assert((n + count - 1 - at) / count == q + 1) by (nonlinear_arith)
            requires
                count > 0,
                n == q * count + at + 1,
                0 <= at < count,
        ;
        assert forall|j: int| 0 <= j < count implies (#[trigger] now[j]).len() == (n + count - 1
            - j) / count by {
            if j != at {
                assert(now[j] == before[j]);
                assert(before[j].len() == (last + count - 1 - j) / count);
                assert((n + count - 1 - j) / count == (last + count - 1 - j) / count)
                    by (nonlinear_arith)
                    requires
                        count > 0,
                        last == q * count + at,
                        0 <= at < count,
                        0 <= j < count,
                        j != at,
                        n == last + 1,
                ;
            }
        }
        assert forall|i: int| 0 <= i < n implies now[i % count][i / count] == #[trigger] array[i] by {
            let g = i % count;
            assert(0 <= g < count) by (nonlinear_arith)
                requires
                    count > 0,
                    i >= 0,
                    g == i % count,
            ;
            if i < last {
                assert(before[g][i / count] == array[i]);
                assert(i / count < before[g].len()) by (nonlinear_arith)
                    requires
                        count > 0,
                        0 <= i < last,
                        g == i % count,
                        before[g].len() == (last + count - 1 - g) / count,
                ;
                if g == at {
                    assert(now[g][i / count] == before[g][i / count]);
                } else {
                    assert(now[g] == before[g]);
                }
            } else {
                assert(before[at].len() == q);
            }
        }
    }
}

/// Deals the streams of `array` into `count` groups in turn, so that
/// stream `i` stands at place `i / count` of group `i % count`.
pub fn group_streams<T>(array: Vec<T>, count: usize) -> (g: Vec<Vec<T>>)
    requires
        count > 0,
    ensures
        g@.len() == count,
        spec_groups(g@) == spec_dealt(array@, count as int, array@.len() as int),
        forall|i: int|
            0 <= i < array@.len() ==> (#[trigger] g@[i % (count as int)])@[i / (count as int)]
                == array@[i],
{
    let ghost s = array@;
    let mut groups: Vec<Vec<T>> = Vec::new();
    let mut j: usize = 0;
    while j < count
        invariant
            j <= count,
            groups@.len() == j,
            forall|k: int| 0 <= k < j ==> (#[trigger] groups@[k])@ == Seq::<T>::empty(),
        decreases count - j,
    {
        groups.push(Vec::new());
        j += 1;
    }
    assert(spec_groups(groups@) =~= spec_dealt(s, count as int, 0));
    let n: usize = array.len();
    let mut i: usize = 0;
    let mut turn: usize = 0;
    for stream in it: array
        invariant
            it.seq() == s,
            s.len() == n,
            i == it.index(),
            count > 0,
            turn == (i as int) % (count as int),
            groups@.len() == count,
            spec_groups(groups@) == spec_dealt(s, count as int, i as int),
    {
        let ghost before = groups@;
        groups[turn].push(stream);
        assert(spec_groups(groups@) =~= spec_dealt(s, count as int, i + 1)) by {
            assert(spec_groups(before)[turn as int] == before[turn as int]@);
            assert forall|k: int| 0 <= k < count && k != turn implies groups@[k] == before[k] by {}
        }
        i += 1;
        let next: usize = if turn + 1 == count {
            0
        } else {
            turn + 1
        };
        assert(next == (i as int) % (count as int)) by (nonlinear_arith)
            requires
                count > 0,
                i >= 1,
                turn == ((i - 1) as int) % (count as int),
                next == (if turn + 1 == count {
                    0int
                } else {
                    turn + 1
                }),
        ;
        turn = next;
    }
    proof {
        lemma_dealt_places(s, count as int, n as int);
        assert forall|i: int| 0 <= i < s.len() implies (#[trigger] groups@[i % (count as int)])@[i
            / (count as int)] == s[i] by {
            let g = i % (count as int);
            assert(0 <= g < count) by (nonlinear_arith)
                requires
                    count > 0,
                    i >= 0,
                    g == i % (count as int),
            ;
            assert(spec_groups(groups@)[g] == groups@[g]@);
            assert(spec_dealt(s, count as int, n as int)[i % (count as int)][i / (count as int)]
                == s[i]);
        }
    }
    groups
}

/// One round of a merge in pairs: the first stream merged with the second,
/// the third with the fourth, and so on; a last stream without a partner
/// stays as it is.
pub open spec fn spec_pair_round<E, X>(s: Seq<Seq<Result<Delta<u64, E>, X>>>) -> Seq<
    Seq<Result<Delta<u64, E>, X>>,
> {
    Seq::new(
        ((s.len() + 1) / 2) as nat,
        |k: int|
            if 2 * k + 1 < s.len() {
                spec_to_deltas(spec_merge_abs(s[2 * k], s[2 * k + 1]), 0)
            } else {
                s[2 * k]
            },
    )
}

/// The one stream that rounds of merges in pairs leave of `s`.
pub open spec fn spec_merge_in_pairs<E, X>(s: Seq<Seq<Result<Delta<u64, E>, X>>>) -> Seq<
    Result<Delta<u64, E>, X>,
>
    decreases s.len(),
{
    if s.len() == 0 {
        Seq::empty()
    } else if s.len() == 1 {
        s[0]
    } else {
        spec_merge_in_pairs(spec_pair_round(s))
    }
}

/// Merges the streams of `merged` into one by rounds of merges in pairs.
pub fn merge_in_pairs<E, X>(merged: Vec<Vec<Result<Delta<u64, E>, X>>>) -> (r: Vec<
    Result<Delta<u64, E>, X>,
>)
    requires
        merged@.len() >= 1,
    ensures
        r@ == spec_merge_in_pairs(spec_streams(merged@)),
{
    let ghost whole = spec_merge_in_pairs(spec_streams(merged@));
    let mut current = merged;
    while current.len() > 1
        invariant
            current@.len() >= 1,
            spec_merge_in_pairs(spec_streams(current@)) == whole,
        decreases current@.len(),
    {
        let ghost s = spec_streams(current@);
        let ghost round = spec_pair_round(s);
        let n: usize = current.len();
        let mut next: Vec<Vec<Result<Delta<u64, E>, X>>> = Vec::new();
        let mut held: Option<Vec<Result<Delta<u64, E>, X>>> = None;
        let mut i: usize = 0;
        for stream in it: current
            invariant
                it.seq() == current@,
                s == spec_streams(current@),
                round == spec_pair_round(s),
                current@.len() == n,
                i == it.index(),
                i == 2 * next@.len() + (if held is Some {
                    1int
                } else {
                    0int
                }),
                held matches Some(h) ==> h@ == s[i - 1],
                spec_streams(next@) == round.take(next@.len() as int),
        {
            assert(s[i as int] == stream@);
            match held.take() {
                None => {
                    held = Some(stream);
                },
                Some(first) => {
                    let ghost before = next@;
                    let both = merge_events(first, stream);
                    next.push(both);
                    assert(spec_streams(next@) =~= round.take(next@.len() as int));
                },
            }
            i += 1;
        }
        match held {
            Some(last) => {
                next.push(last);
                assert(spec_streams(next@) =~= round.take(next@.len() as int));
            },
            None => {},
        }
        assert(round.take(round.len() as int) =~= round);
        current = next;
    }
    match current.pop() {
        Some(last) => last,
        None => Vec::new(),
    }
}

/// One round of a merge of notes in pairs.
pub open spec fn spec_note_pair_round<X>(s: Seq<Seq<Result<Note<u64>, X>>>) -> Seq<
    Seq<Result<Note<u64>, X>>,
> {
    Seq::new(
        ((s.len() + 1) / 2) as nat,
        |k: int|
            if 2 * k + 1 < s.len() {
                spec_merge_notes(
                    spec_ok_prefix(s[2 * k]),
                    spec_first_error(s[2 * k]),
                    spec_ok_prefix(s[2 * k + 1]),
                    spec_first_error(s[2 * k + 1]),
                )
            } else {
                s[2 * k]
            },
    )
}

/// The one stream that rounds of merges in pairs leave of the streams of
/// notes `s`.
pub open spec fn spec_merge_notes_in_pairs<X>(s: Seq<Seq<Result<Note<u64>, X>>>) -> Seq<
    Result<Note<u64>, X>,
>
    decreases s.len(),
{
    if s.len() == 0 {
        Seq::empty()
    } else if s.len() == 1 {
        s[0]
    } else {
        spec_merge_notes_in_pairs(spec_note_pair_round(s))
    }
}

/// The streams of notes of a vector as sequences.
pub open spec fn spec_note_streams<X>(array: Seq<Vec<Result<Note<u64>, X>>>) -> Seq<
    Seq<Result<Note<u64>, X>>,
> {
    Seq::new(array.len(), |i: int| array[i]@)
}

/// Merges the streams of notes of `merged` into one by rounds of merges in
/// pairs.
pub fn merge_notes_in_pairs<X>(merged: Vec<Vec<Result<Note<u64>, X>>>) -> (r: Vec<
    Result<Note<u64>, X>,
>)
    requires
        merged@.len() >= 1,
    ensures
        r@ == spec_merge_notes_in_pairs(spec_note_streams(merged@)),
{
    let ghost whole = spec_merge_notes_in_pairs(spec_note_streams(merged@));
    let mut current = merged;
    while current.len() > 1
        invariant
            current@.len() >= 1,
            spec_merge_notes_in_pairs(spec_note_streams(current@)) == whole,
        decreases current@.len(),
    {
        let ghost s = spec_note_streams(current@);
        let ghost round = spec_note_pair_round(s);
        let n: usize = current.len();
        let mut next: Vec<Vec<Result<Note<u64>, X>>> = Vec::new();
        let mut held: Option<Vec<Result<Note<u64>, X>>> = None;
        let mut i: usize = 0;
        for stream in it: current
            invariant
                it.seq() == current@,
                s == spec_note_streams(current@),
                round == spec_note_pair_round(s),
                current@.len() == n,
                i == it.index(),
                i == 2 * next@.len() + (if held is Some {
                    1int
                } else {
                    0int
                }),
                held matches Some(h) ==> h@ == s[i - 1],
                spec_note_streams(next@) == round.take(next@.len() as int),
        {
            assert(s[i as int] == stream@);
            match held.take() {
                None => {
                    held = Some(stream);
                },
                Some(first) => {
                    let both = merge_notes(first, stream);
                    next.push(both);
                    assert(spec_note_streams(next@) =~= round.take(next@.len() as int));
                },
            }
            i += 1;
        }
        match held {
            Some(last) => {
                next.push(last);
                assert(spec_note_streams(next@) =~= round.take(next@.len() as int));
            },
            None => {},
        }
        assert(round.take(round.len() as int) =~= round);
        current = next;
    }
    match current.pop() {
        Some(last) => last,
        None => Vec::new(),
    }
}

} // verus!
