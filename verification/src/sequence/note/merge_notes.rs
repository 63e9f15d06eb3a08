use vstd::prelude::*;
use crate::notes::Note;
use crate::sequence::common::lemma_error_index_bounds;
use crate::sequence::common::spec_first_error;
use crate::sequence::common::spec_ok_prefix;
use crate::sequence::common::split_stream;
use crate::sequence::event::merge_events::spec_left;

verus! {

/// What follows the handing out of the note before note `i` of a stream
/// with the notes `notes` and the failure `error`: where that was the last
/// note and the stream ends with a failure, the failure, which ends the
/// merge; else `go_on`.
pub open spec fn spec_then_note<X>(
    notes: Seq<Note<u64>>,
    error: Option<X>,
    i: int,
    go_on: Seq<Result<Note<u64>, X>>,
) -> Seq<Result<Note<u64>, X>> {
    if i >= notes.len() && error is Some {
        seq![Err(error->Some_0)]
    } else {
        go_on
    }
}

/// The merge of two streams of notes from note `i` of the first and note
/// `j` of the second on. The note that starts earlier comes first, and of
/// two that start together that of the second stream. A note is pulled
/// from its stream right after the note before it was handed out; a
/// failure that is pulled ends the merge.
pub open spec fn spec_merge_notes_from<X>(
    a: Seq<Note<u64>>,
    a_error: Option<X>,
    b: Seq<Note<u64>>,
    b_error: Option<X>,
    i: int,
    j: int,
) -> Seq<Result<Note<u64>, X>>
    decreases spec_left(a, i) + spec_left(b, j),
{
    let has_a = 0 <= i < a.len();
    let has_b = 0 <= j < b.len();
    if !has_a && !has_b {
        Seq::empty()
    } else if has_a && (!has_b || a[i].start < b[j].start) {
        seq![Ok(a[i])] + spec_then_note(
            a,
            a_error,
            i + 1,
            spec_merge_notes_from(a, a_error, b, b_error, i + 1, j),
        )
    } else {
        seq![Ok(b[j])] + spec_then_note(
            b,
            b_error,
            j + 1,
            spec_merge_notes_from(a, a_error, b, b_error, i, j + 1),
        )
    }
}

/// The merge of two streams of notes. The first note of the first stream
/// is pulled, then that of the second; a failure there is all there is.
pub open spec fn spec_merge_notes<X>(
    a: Seq<Note<u64>>,
    a_error: Option<X>,
    b: Seq<Note<u64>>,
    b_error: Option<X>,
) -> Seq<Result<Note<u64>, X>> {
    if a.len() == 0 && a_error is Some {
        seq![Err(a_error->Some_0)]
    } else if b.len() == 0 && b_error is Some {
        seq![Err(b_error->Some_0)]
    } else {
        spec_merge_notes_from(a, a_error, b, b_error, 0, 0)
    }
}

/// Merges two streams of notes into one, in the order of their starts.
pub fn merge_notes<X>(iter1: Vec<Result<Note<u64>, X>>, iter2: Vec<Result<Note<u64>, X>>) -> (r:
    Vec<Result<Note<u64>, X>>)
    ensures
        r@ == spec_merge_notes(
            spec_ok_prefix(iter1@),
            spec_first_error(iter1@),
            spec_ok_prefix(iter2@),
            spec_first_error(iter2@),
        ),
{
    let (a, a_error) = split_stream(iter1);
    let (b, b_error) = split_stream(iter2);
    let ghost whole = spec_merge_notes(a@, a_error, b@, b_error);
    if a.len() == 0 && a_error.is_some() {
        let mut out: Vec<Result<Note<u64>, X>> = Vec::new();
        match a_error {
            Some(e) => {
                out.push(Err(e));
            },
            None => {},
        }
        assert(out@ =~= whole);
        return out;
    }
    if b.len() == 0 && b_error.is_some() {
        let mut out: Vec<Result<Note<u64>, X>> = Vec::new();
        match b_error {
            Some(e) => {
                out.push(Err(e));
            },
            None => {},
        }
        assert(out@ =~= whole);
        return out;
    }
    merge_note_items(a, a_error, b, b_error)
}

/// The merge of two streams of notes that have been taken apart into
/// their notes and their failures, when neither starts with a failure.
fn merge_note_items<X>(
    a: Vec<Note<u64>>,
    a_error: Option<X>,
    b: Vec<Note<u64>>,
    b_error: Option<X>,
) -> (r: Vec<Result<Note<u64>, X>>)
    ensures
        r@ == spec_merge_notes_from(a@, a_error, b@, b_error, 0, 0),
{
    let ghost whole = spec_merge_notes_from(a@, a_error, b@, b_error, 0, 0);
    let mut out: Vec<Result<Note<u64>, X>> = Vec::new();
    let ghost ae = a_error;
    let ghost be = b_error;
    let mut first_error = a_error;
    let mut second_error = b_error;
    let mut i: usize = 0;
    let mut j: usize = 0;
    assert(out@ + whole =~= whole);
    loop
        invariant
            i <= a.len(),
            j <= b.len(),
            first_error == ae,
            second_error == be,
            ae == a_error,
            be == b_error,
            whole == spec_merge_notes_from(a@, ae, b@, be, 0, 0),
            out@ + spec_merge_notes_from(a@, ae, b@, be, i as int, j as int) == whole,
        decreases a.len() - i + b.len() - j,
    {
        let has_a: bool = i < a.len();
        let has_b: bool = j < b.len();
        if !has_a && !has_b {
            assert(out@ + Seq::<Result<Note<u64>, X>>::empty() =~= out@);
            return out;
        }
        let ghost before = out@;
        if has_a && (!has_b || a[i].start < b[j].start) {
            let ghost tail = spec_then_note(
                a@,
                ae,
                i + 1,
                spec_merge_notes_from(a@, ae, b@, be, i + 1, j as int),
            );
            out.push(Ok(a[i]));
            i += 1;
            assert(out@ + tail =~= before + (seq![Ok(a@[i - 1])] + tail));
            if i == a.len() {
                match first_error.take() {
                    Some(e) => {
                        out.push(Err(e));
                        assert(out@ =~= whole);
                        return out;
                    },
                    None => {},
                }
            }
        } else {
            let ghost tail = spec_then_note(
                b@,
                be,
                j + 1,
                spec_merge_notes_from(a@, ae, b@, be, i as int, j + 1),
            );
            out.push(Ok(b[j]));
            j += 1;
            assert(out@ + tail =~= before + (seq![Ok(b@[j - 1])] + tail));
            if j == b.len() {
                match second_error.take() {
                    Some(e) => {
                        out.push(Err(e));
                        assert(out@ =~= whole);
                        return out;
                    },
                    None => {},
                }
            }
        }
    }
}

/// The stream among the first `n` whose next note starts earliest, and of
/// several that start together the first; none if no stream has a note
/// left.
pub open spec fn spec_first_earliest(starts: Seq<Option<u64>>, n: int) -> Option<int>
    decreases n,
{
    if n <= 0 {
        None
    } else {
        match spec_first_earliest(starts, n - 1) {
            Some(k) => if starts[n - 1] is Some && starts[n - 1]->Some_0 < starts[k]->Some_0 {
                Some(n - 1)
            } else {
                Some(k)
            },
            None => if starts[n - 1] is Some {
                Some(n - 1)
            } else {
                None
            },
        }
    }
}

/// The start of the next note of each stream, when `pos[k]` notes of
/// stream `k` have been handed out.
pub open spec fn spec_starts_at(notes: Seq<Seq<Note<u64>>>, pos: Seq<int>) -> Seq<Option<u64>> {
    Seq::new(
        notes.len(),
        |k: int|
            if 0 <= pos[k] < notes[k].len() {
                Some(notes[k][pos[k]].start)
            } else {
                None
            },
    )
}

/// The merge of streams with the notes `notes` and the failures `errors`,
/// of which `pos[k]` notes of stream `k` have been handed out, in at most
/// `fuel` steps.
pub open spec fn spec_merge_notes_array_from<X>(
    notes: Seq<Seq<Note<u64>>>,
    errors: Seq<Option<X>>,
    pos: Seq<int>,
    fuel: nat,
) -> Seq<Result<Note<u64>, X>>
    decreases fuel,
{
    if fuel == 0 {
        Seq::empty()
    } else {
        match spec_first_earliest(spec_starts_at(notes, pos), notes.len() as int) {
            None => Seq::empty(),
            Some(c) => seq![Ok(notes[c][pos[c]])] + spec_then_note(
                notes[c],
                errors[c],
                pos[c] + 1,
                spec_merge_notes_array_from(
                    notes,
                    errors,
                    pos.update(c, pos[c] + 1),
                    (fuel - 1) as nat,
                ),
            ),
        }
    }
}

/// The failure of the first of the first `n` streams that starts with one.
pub open spec fn spec_first_head_failure<X>(
    notes: Seq<Seq<Note<u64>>>,
    errors: Seq<Option<X>>,
    n: int,
) -> Option<X>
    decreases n,
{
    if n <= 0 {
        None
    } else {
        match spec_first_head_failure(notes, errors, n - 1) {
            Some(e) => Some(e),
            None => if notes[n - 1].len() == 0 {
                errors[n - 1]
            } else {
                None
            },
        }
    }
}

/// The number of notes in the first `n` streams.
pub open spec fn spec_total_notes(notes: Seq<Seq<Note<u64>>>, n: int) -> nat
    decreases n,
{
    if n <= 0 {
        0
    } else {
        spec_total_notes(notes, n - 1) + notes[n - 1].len()
    }
}

/// The merge of many streams of notes. The first note of every stream is
/// pulled first, in the order of the streams; a failure there is all there
/// is. A step is allowed for every note.
pub open spec fn spec_merge_notes_array<X>(
    notes: Seq<Seq<Note<u64>>>,
    errors: Seq<Option<X>>,
) -> Seq<Result<Note<u64>, X>> {
    match spec_first_head_failure(notes, errors, notes.len() as int) {
        Some(e) => seq![Err(e)],
        None => spec_merge_notes_array_from(
            notes,
            errors,
            Seq::new(notes.len(), |k: int| 0int),
            spec_total_notes(notes, notes.len() as int),
        ),
    }
}

/// The notes of each stream of `array` before its first failure.
pub open spec fn spec_note_items<X>(array: Seq<Vec<Result<Note<u64>, X>>>) -> Seq<Seq<Note<u64>>> {
    Seq::new(array.len(), |k: int| spec_ok_prefix(array[k]@))
}

/// The first failure of each stream of `array`.
pub open spec fn spec_note_errors<X>(array: Seq<Vec<Result<Note<u64>, X>>>) -> Seq<Option<X>> {
    Seq::new(array.len(), |k: int| spec_first_error(array[k]@))
}

pub proof fn lemma_head_failure_kept<X>(
    notes: Seq<Seq<Note<u64>>>,
    errors: Seq<Option<X>>,
    n: int,
    m: int,
)
    requires
        0 <= n <= m,
        spec_first_head_failure(notes, errors, n) is Some,
    ensures
        spec_first_head_failure(notes, errors, m) == spec_first_head_failure(notes, errors, n),
    decreases m,
{
    if n < m {
        lemma_head_failure_kept(notes, errors, n, m - 1);
    }
}

/// Merges many streams of notes into one, in the order of their starts.
pub fn merge_notes_array<X>(array: Vec<Vec<Result<Note<u64>, X>>>) -> (r: Vec<
    Result<Note<u64>, X>,
>)
    ensures
        r@ == spec_merge_notes_array(spec_note_items(array@), spec_note_errors(array@)),
{
    let ghost notes = spec_note_items(array@);
    let ghost errs = spec_note_errors(array@);
    let ghost whole = spec_merge_notes_array(notes, errs);
    let n: usize = array.len();
    let mut items: Vec<Vec<Note<u64>>> = Vec::new();
    let mut errors: Vec<Option<X>> = Vec::new();
    let mut positions: Vec<usize> = Vec::new();
    let mut out: Vec<Result<Note<u64>, X>> = Vec::new();
    let mut fuel: u128 = 0;
    let mut count: usize = 0;
    for stream in it: array
        invariant
            it.seq() == array@,
            array@.len() == n,
            count == it.index(),
            notes == spec_note_items(array@),
            errs == spec_note_errors(array@),
            whole == spec_merge_notes_array(notes, errs),
            out@.len() == 0,
            items@.len() == count,
            errors@.len() == count,
            positions@.len() == count,
            forall|k: int| 0 <= k < count ==> (#[trigger] items@[k])@ == notes[k],
            forall|k: int| 0 <= k < count ==> #[trigger] errors@[k] == errs[k],
            forall|k: int| 0 <= k < count ==> #[trigger] positions@[k] == 0,
            spec_first_head_failure(notes, errs, count as int) is None,
            fuel == spec_total_notes(notes, count as int),
            fuel <= count * usize::MAX,
    {
        let (notes_here, error) = split_stream(stream);
        if notes_here.len() == 0 && error.is_some() {
            proof {
                lemma_head_failure_kept(notes, errs, count + 1, n as int);
            }
            match error {
                Some(e) => {
                    out.push(Err(e));
                },
                None => {},
            }
            assert(out@ =~= whole);
            return out;
        }
        assert((count + 1) * usize::MAX == count * usize::MAX + usize::MAX) by (nonlinear_arith);
        assert(count * usize::MAX <= usize::MAX * usize::MAX) by (nonlinear_arith)
            requires
                0 <= count <= usize::MAX,
        ;
        assert(usize::MAX * usize::MAX <= 0xFFFF_FFFF_FFFF_FFFF * 0xFFFF_FFFF_FFFF_FFFF)
            by (nonlinear_arith)
            requires
                0 <= usize::MAX <= 0xFFFF_FFFF_FFFF_FFFF,
        ;
        fuel = fuel + notes_here.len() as u128;
        items.push(notes_here);
        errors.push(error);
        positions.push(0);
        count += 1;
    }
    let ghost mut pos: Seq<int> = Seq::new(n as nat, |k: int| 0int);
    assert(out@ + spec_merge_notes_array_from(notes, errs, pos, fuel as nat) =~= whole);
    while fuel > 0
        invariant
            items@.len() == n,
            errors@.len() == n,
            positions@.len() == n,
            notes.len() == n,
            errs.len() == n,
            pos.len() == n,
            whole == spec_merge_notes_array(spec_note_items(array@), spec_note_errors(array@)),
            forall|k: int| 0 <= k < n ==> (#[trigger] items@[k])@ == notes[k],
            forall|k: int| 0 <= k < n ==> #[trigger] errors@[k] == errs[k],
            forall|k: int| 0 <= k < n ==> #[trigger] positions@[k] == pos[k],
            forall|k: int| 0 <= k < n ==> 0 <= #[trigger] pos[k] <= notes[k].len(),
            out@ + spec_merge_notes_array_from(notes, errs, pos, fuel as nat) == whole,
        decreases fuel,
    {
        let ghost starts = spec_starts_at(notes, pos);
        let mut smallest: Option<usize> = None;
        let mut smallest_time: u64 = 0;
        let mut k: usize = 0;
        while k < n
            invariant
                k <= n,
                items@.len() == n,
                positions@.len() == n,
                notes.len() == n,
                pos.len() == n,
                starts == spec_starts_at(notes, pos),
                forall|x: int| 0 <= x < n ==> (#[trigger] items@[x])@ == notes[x],
                forall|x: int| 0 <= x < n ==> #[trigger] positions@[x] == pos[x],
                forall|x: int| 0 <= x < n ==> 0 <= #[trigger] pos[x] <= notes[x].len(),
                match spec_first_earliest(starts, k as int) {
                    Some(c) => smallest == Some(c as usize) && 0 <= c < k && starts[c] == Some(
                        smallest_time,
                    ),
                    None => smallest is None,
                },
            decreases n - k,
        {
            let at: usize = positions[k];
            if at < items[k].len() {
                let start: u64 = items[k][at].start;
                if smallest.is_none() || start < smallest_time {
                    smallest = Some(k);
                    smallest_time = start;
                }
            }
            k += 1;
        }
        let c: usize = match smallest {
            None => {
                assert(out@ + Seq::<Result<Note<u64>, X>>::empty() =~= out@);
                return out;
            },
            Some(c) => c,
        };
        let at: usize = positions[c];
        let len_here: usize = items[c].len();
        assert(starts[c as int] is Some);
        assert(at < len_here);
        let note = items[c][at];
        let ghost before = out@;
        let ghost after = pos.update(c as int, pos[c as int] + 1);
        let ghost tail = spec_then_note(
            notes[c as int],
            errs[c as int],
            at + 1,
            spec_merge_notes_array_from(notes, errs, after, (fuel - 1) as nat),
        );
        out.push(Ok(note));
        positions[c] = at + 1;
        proof {
            pos = after;
        }
        fuel = fuel - 1;
        assert(out@ + tail =~= before + (seq![Ok(note)] + tail));
        if at + 1 == len_here && errors[c].is_some() {
            match errors[c].take() {
                Some(e) => {
                    out.push(Err(e));
                },
                None => {},
            }
            assert(out@ =~= whole);
            return out;
        }
    }
    assert(out@ + Seq::<Result<Note<u64>, X>>::empty() =~= out@);
    out
}

/// The first stream at or after `from` that has a note, and the failure
/// of a stream before it that holds nothing but a failure, which ends the
/// search. Streams that hold nothing at all are passed over. Where no
/// stream is left the index is the number of streams.
pub open spec fn spec_next_open<X>(notes: Seq<Seq<Note<u64>>>, errors: Seq<Option<X>>, from: int) -> (
    int,
    Option<X>,
)
    decreases notes.len() - from,
{
    if from < 0 || from >= notes.len() {
        (notes.len() as int, None)
    } else if notes[from].len() > 0 {
        (from, None)
    } else if errors[from] is Some {
        (from, errors[from])
    } else {
        spec_next_open(notes, errors, from + 1)
    }
}

/// The merge of streams of notes that join one after the other, in at most
/// `fuel` steps. The streams before `open` have joined, `pos[k]` notes of
/// stream `k` have been handed out, and stream `open` waits with its first
/// note. It joins when no joined stream has a note left, or when its first
/// note starts before the earliest next note of the joined streams; the
/// stream after it then waits in its place. Else the earliest next note of
/// the joined streams is handed out, of several that start together that
/// of the first stream.
pub open spec fn spec_merge_notes_lazy_from<X>(
    notes: Seq<Seq<Note<u64>>>,
    errors: Seq<Option<X>>,
    pos: Seq<int>,
    open: int,
    fuel: nat,
) -> Seq<Result<Note<u64>, X>>
    decreases fuel,
{
    if fuel == 0 {
        Seq::empty()
    } else {
        let earliest = spec_first_earliest(spec_starts_at(notes, pos), open);
        let joins = open < notes.len() && (earliest is None || notes[open][0].start
            < notes[earliest->Some_0][pos[earliest->Some_0]].start);
        if joins {
            let after = spec_next_open(notes, errors, open + 1);
            match after.1 {
                Some(e) => seq![Err(e)],
                None => spec_merge_notes_lazy_from(notes, errors, pos, after.0, (fuel - 1) as nat),
            }
        } else {
            match earliest {
                None => Seq::empty(),
                Some(c) => seq![Ok(notes[c][pos[c]])] + spec_then_note(
                    notes[c],
                    errors[c],
                    pos[c] + 1,
                    spec_merge_notes_lazy_from(
                        notes,
                        errors,
                        pos.update(c, pos[c] + 1),
                        open,
                        (fuel - 1) as nat,
                    ),
                ),
            }
        }
    }
}

/// The merge of streams of notes that join one after the other. A step is
/// allowed for every note and for every stream.
pub open spec fn spec_merge_notes_lazy<X>(
    notes: Seq<Seq<Note<u64>>>,
    errors: Seq<Option<X>>,
) -> Seq<Result<Note<u64>, X>> {
    let first = spec_next_open(notes, errors, 0);
    match first.1 {
        Some(e) => seq![Err(e)],
        None => spec_merge_notes_lazy_from(
            notes,
            errors,
            Seq::new(notes.len(), |k: int| 0int),
            first.0,
            spec_total_notes(notes, notes.len() as int) + notes.len() + 1,
        ),
    }
}

pub proof fn lemma_next_open_bounds<X>(notes: Seq<Seq<Note<u64>>>, errors: Seq<Option<X>>, from: int)
    requires
        0 <= from <= notes.len(),
        errors.len() == notes.len(),
    ensures
        from <= spec_next_open(notes, errors, from).0 <= notes.len(),
        spec_next_open(notes, errors, from).1 is None && spec_next_open(notes, errors, from).0
            < notes.len() ==> notes[spec_next_open(notes, errors, from).0].len() > 0,
    decreases notes.len() - from,
{
    if from < notes.len() && notes[from].len() == 0 && errors[from] is None {
        lemma_next_open_bounds(notes, errors, from + 1);
    }
}

/// Finds the stream that waits next; see [`spec_next_open`]. A failure
/// that ends the search is taken out of `errors`.
fn next_open<X>(items: &Vec<Vec<Note<u64>>>, errors: &mut Vec<Option<X>>, from: usize) -> (r: (
    usize,
    Option<X>,
))
    requires
        from <= items@.len(),
        old(errors)@.len() == items@.len(),
    ensures
        final(errors)@.len() == items@.len(),
        r.0 == spec_next_open(spec_groups_of(items@), old(errors)@, from as int).0,
        r.1 == spec_next_open(spec_groups_of(items@), old(errors)@, from as int).1,
        r.1 is None ==> final(errors)@ == old(errors)@,
{
    let ghost notes = spec_groups_of(items@);
    let mut k: usize = from;
    while k < items.len()
        invariant
            from <= k <= items@.len(),
            errors@ == old(errors)@,
            errors@.len() == items@.len(),
            notes == spec_groups_of(items@),
            spec_next_open(notes, errors@, from as int) == spec_next_open(notes, errors@, k as int),
        decreases items@.len() - k,
    {
        if items[k].len() > 0 {
            return (k, None);
        }
        if errors[k].is_some() {
            let e = errors[k].take();
            return (k, e);
        }
        k += 1;
    }
    (k, None)
}

/// The notes of each stream of a vector, as sequences.
pub open spec fn spec_groups_of(items: Seq<Vec<Note<u64>>>) -> Seq<Seq<Note<u64>>> {
    Seq::new(items.len(), |k: int| items[k]@)
}

/// Merges streams of notes that join one after the other: a stream takes
/// part only from the moment at which its first note starts before the
/// earliest note of the streams that take part, or at which those have
/// nothing left.
pub fn merge_notes_iterator<X>(iter: Vec<Vec<Result<Note<u64>, X>>>) -> (r: Vec<
    Result<Note<u64>, X>,
>)
    ensures
        r@ == spec_merge_notes_lazy(spec_note_items(iter@), spec_note_errors(iter@)),
{
    let ghost notes = spec_note_items(iter@);
    let ghost errs = spec_note_errors(iter@);
    let ghost whole = spec_merge_notes_lazy(notes, errs);
    let n: usize = iter.len();
    let mut items: Vec<Vec<Note<u64>>> = Vec::new();
    let mut errors: Vec<Option<X>> = Vec::new();
    let mut positions: Vec<usize> = Vec::new();
    let mut out: Vec<Result<Note<u64>, X>> = Vec::new();
    let mut fuel: u128 = 0;
    let mut count: usize = 0;
    for stream in it: iter
        invariant
            it.seq() == iter@,
            iter@.len() == n,
            count == it.index(),
            notes == spec_note_items(iter@),
            errs == spec_note_errors(iter@),
            items@.len() == count,
            errors@.len() == count,
            positions@.len() == count,
            forall|k: int| 0 <= k < count ==> (#[trigger] items@[k])@ == notes[k],
            forall|k: int| 0 <= k < count ==> #[trigger] errors@[k] == errs[k],
            forall|k: int| 0 <= k < count ==> #[trigger] positions@[k] == 0,
            fuel == spec_total_notes(notes, count as int),
            fuel <= count * usize::MAX,
    {
        let (notes_here, error) = split_stream(stream);
        assert((count + 1) * usize::MAX == count * usize::MAX + usize::MAX) by (nonlinear_arith);
        assert(count * usize::MAX <= usize::MAX * usize::MAX) by (nonlinear_arith)
            requires
                0 <= count <= usize::MAX,
        ;
        assert(usize::MAX * usize::MAX <= 0xFFFF_FFFF_FFFF_FFFF * 0xFFFF_FFFF_FFFF_FFFF)
            by (nonlinear_arith)
            requires
                0 <= usize::MAX <= 0xFFFF_FFFF_FFFF_FFFF,
        ;
        fuel = fuel + notes_here.len() as u128;
        items.push(notes_here);
        errors.push(error);
        positions.push(0);
        count += 1;
    }
    assert(n * usize::MAX <= usize::MAX * usize::MAX) by (nonlinear_arith)
        requires
            0 <= n <= usize::MAX,
    ;
    assert(usize::MAX * usize::MAX <= 0xFFFF_FFFF_FFFF_FFFF * 0xFFFF_FFFF_FFFF_FFFF)
        by (nonlinear_arith)
        requires
            0 <= usize::MAX <= 0xFFFF_FFFF_FFFF_FFFF,
    ;
    fuel = fuel + n as u128 + 1;
    assert(spec_groups_of(items@) =~= notes);
    assert(errors@ =~= errs);
    proof {
        lemma_next_open_bounds(notes, errs, 0);
    }
    let (first, failure) = next_open(&items, &mut errors, 0);
    match failure {
        Some(e) => {
            out.push(Err(e));
            assert(out@ =~= whole);
            return out;
        },
        None => {},
    }
    let mut open: usize = first;
    let ghost mut pos: Seq<int> = Seq::new(n as nat, |k: int| 0int);
    assert(out@ + spec_merge_notes_lazy_from(notes, errs, pos, open as int, fuel as nat) =~= whole);
    while fuel > 0
        invariant
            items@.len() == n,
            errors@.len() == n,
            positions@.len() == n,
            notes.len() == n,
            errs.len() == n,
            pos.len() == n,
            open <= n,
            open < n ==> notes[open as int].len() > 0,
            notes == spec_groups_of(items@),
            errors@ == errs,
            whole == spec_merge_notes_lazy(spec_note_items(iter@), spec_note_errors(iter@)),
            forall|k: int| 0 <= k < n ==> #[trigger] positions@[k] == pos[k],
            forall|k: int| 0 <= k < n ==> 0 <= #[trigger] pos[k] <= notes[k].len(),
            out@ + spec_merge_notes_lazy_from(notes, errs, pos, open as int, fuel as nat) == whole,
        decreases fuel,
    {
        let ghost starts = spec_starts_at(notes, pos);
        let mut smallest: Option<usize> = None;
        let mut smallest_time: u64 = 0;
        let mut k: usize = 0;
        while k < open
            invariant
                k <= open <= n,
                items@.len() == n,
                positions@.len() == n,
                notes.len() == n,
                pos.len() == n,
                notes == spec_groups_of(items@),
                starts == spec_starts_at(notes, pos),
                forall|x: int| 0 <= x < n ==> #[trigger] positions@[x] == pos[x],
                forall|x: int| 0 <= x < n ==> 0 <= #[trigger] pos[x] <= notes[x].len(),
                match spec_first_earliest(starts, k as int) {
                    Some(c) => smallest == Some(c as usize) && 0 <= c < k && starts[c] == Some(
                        smallest_time,
                    ),
                    None => smallest is None,
                },
            decreases open - k,
        {
            assert(notes[k as int] == items@[k as int]@);
            let at: usize = positions[k];
            if at < items[k].len() {
                let start: u64 = items[k][at].start;
                if smallest.is_none() || start < smallest_time {
                    smallest = Some(k);
                    smallest_time = start;
                }
            }
            k += 1;
        }
        let joins: bool = if open < n {
            assert(notes[open as int] == items@[open as int]@);
            smallest.is_none() || items[open][0].start < smallest_time
        } else {
            false
        };
        let ghost before = out@;
        if joins {
            proof {
                lemma_next_open_bounds(notes, errs, open + 1);
            }
            let (after, failure) = next_open(&items, &mut errors, open + 1);
            match failure {
                Some(e) => {
                    out.push(Err(e));
                    assert(out@ =~= whole);
                    return out;
                },
                None => {},
            }
            open = after;
            fuel = fuel - 1;
        } else {
            let c: usize = match smallest {
                None => {
                    assert(out@ + Seq::<Result<Note<u64>, X>>::empty() =~= out@);
                    return out;
                },
                Some(c) => c,
            };
            assert(notes[c as int] == items@[c as int]@);
            let at: usize = positions[c];
            let len_here: usize = items[c].len();
            assert(starts[c as int] is Some);
            assert(at < len_here);
            let note = items[c][at];
            let ghost after = pos.update(c as int, pos[c as int] + 1);
            let ghost tail = spec_then_note(
                notes[c as int],
                errs[c as int],
                at + 1,
                spec_merge_notes_lazy_from(notes, errs, after, open as int, (fuel - 1) as nat),
            );
            out.push(Ok(note));
            positions[c] = at + 1;
            proof {
                pos = after;
            }
            fuel = fuel - 1;
            assert(out@ + tail =~= before + (seq![Ok(note)] + tail));
            if at + 1 == len_here && errors[c].is_some() {
                match errors[c].take() {
                    Some(e) => {
                        out.push(Err(e));
                    },
                    None => {},
                }
                assert(out@ =~= whole);
                return out;
            }
        }
    }
    assert(out@ + Seq::<Result<Note<u64>, X>>::empty() =~= out@);
    out
}

} // verus!
