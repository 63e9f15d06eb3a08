use vstd::prelude::*;

pub mod cast_delta;
pub mod merge_threaded;
pub mod threaded_buffer;

pub use cast_delta::TimeCaster;
pub use merge_threaded::group_streams;
pub use merge_threaded::merge_in_pairs;
pub use merge_threaded::merge_notes_in_pairs;
pub use threaded_buffer::BufferFill;

verus! {

/// The index of the first failure in `s` at or after `from`, or the length
/// of `s` if there is none.
pub open spec fn spec_error_index<T, X>(s: Seq<Result<T, X>>, from: int) -> int
    decreases s.len() - from,
{
    if from < 0 || from >= s.len() {
        s.len() as int
    } else if s[from] is Err {
        from
    } else {
        spec_error_index(s, from + 1)
    }
}

/// The items of a stream that come before its first failure.
pub open spec fn spec_ok_prefix<T, X>(s: Seq<Result<T, X>>) -> Seq<T> {
    Seq::new(spec_error_index(s, 0) as nat, |i: int| s[i]->Ok_0)
}

/// The first failure of a stream.
pub open spec fn spec_first_error<T, X>(s: Seq<Result<T, X>>) -> Option<X> {
    if spec_error_index(s, 0) < s.len() {
        Some(s[spec_error_index(s, 0)]->Err_0)
    } else {
        None
    }
}

/// The stream that yields `items` and then fails with `error`, if there is
/// one.
pub open spec fn spec_stream<T, X>(items: Seq<T>, error: Option<X>) -> Seq<Result<T, X>> {
    let head = items.map_values(|v: T| Ok::<T, X>(v));
    match error {
        Some(e) => head.push(Err(e)),
        None => head,
    }
}

pub proof fn lemma_error_index_bounds<T, X>(s: Seq<Result<T, X>>, from: int)
    requires
        0 <= from <= s.len(),
    ensures
        from <= spec_error_index(s, from) <= s.len(),
        forall|i: int| from <= i < spec_error_index(s, from) ==> (#[trigger] s[i]) is Ok,
        spec_error_index(s, from) < s.len() ==> s[spec_error_index(s, from)] is Err,
    decreases s.len() - from,
{
    if from < s.len() && s[from] is Ok {
        lemma_error_index_bounds(s, from + 1);
    }
}

/// A stream put together from items and a failure has those items before
/// its first failure, and that failure.
pub proof fn lemma_stream_parts<T, X>(items: Seq<T>, error: Option<X>)
    ensures
        spec_ok_prefix(spec_stream(items, error)) == items,
        spec_first_error(spec_stream(items, error)) == error,
{
    let s = spec_stream(items, error);
    lemma_error_index_is(s, items.len() as int, 0);
    assert(spec_ok_prefix(s) =~= items);
}

pub proof fn lemma_error_index_is<T, X>(s: Seq<Result<T, X>>, at: int, from: int)
    requires
        0 <= from <= at <= s.len(),
        forall|i: int| 0 <= i < at ==> (#[trigger] s[i]) is Ok,
        at < s.len() ==> s[at] is Err,
    ensures
        spec_error_index(s, from) == at,
    decreases at - from,
{
    if from < at {
        lemma_error_index_is(s, at, from + 1);
    }
}

/// Wraps every item as a success.
pub fn wrap_ok<T>(iter: Vec<T>) -> (r: Vec<Result<T, ()>>)
    ensures
        r@ == spec_stream::<T, ()>(iter@, None),
{
    let ghost items = iter@;
    let mut out: Vec<Result<T, ()>> = Vec::new();
    for v in it: iter
        invariant
            it.seq() == items,
            out@ == items.take(it.index() as int).map_values(|v: T| Ok::<T, ()>(v)),
    {
        out.push(Ok(v));
        assert(out@ =~= items.take(it.index() + 1).map_values(|v: T| Ok::<T, ()>(v)));
    }
    assert(items.take(items.len() as int) =~= items);
    out
}

/// Collects a stream; here a stream is a vector already.
pub fn to_vec<T>(iter: Vec<T>) -> (r: Vec<T>)
    ensures
        r == iter,
{
    iter
}

/// Splits a stream into the items before its first failure and that
/// failure. What follows the first failure is dropped.
pub fn split_stream<T, X>(iter: Vec<Result<T, X>>) -> (r: (Vec<T>, Option<X>))
    ensures
        r.0@ == spec_ok_prefix(iter@),
        r.1 == spec_first_error(iter@),
{
    let ghost s = iter@;
    let mut out: Vec<T> = Vec::new();
    let mut error: Option<X> = None;
    proof {
        lemma_error_index_bounds(s, 0);
    }
    for v in it: iter
        invariant
            it.seq() == s,
            error is None ==> spec_error_index(s, 0) == spec_error_index(s, it.index() as int)
                && out@ == Seq::new(it.index() as nat, |i: int| s[i]->Ok_0),
            error is Some ==> out@ == spec_ok_prefix(s) && error == spec_first_error(s),
    {
        if error.is_none() {
            match v {
                Ok(x) => {
                    out.push(x);
                    assert(out@ =~= Seq::new((it.index() + 1) as nat, |i: int| s[i]->Ok_0));
                },
                Err(e) => {
                    assert(out@ =~= spec_ok_prefix(s));
                    error = Some(e);
                },
            }
        }
    }
    assert(error is None ==> out@ =~= spec_ok_prefix(s));
    (out, error)
}

/// Puts a stream together from its items and the failure that ends it.
pub fn join_stream<T, X>(items: Vec<T>, error: Option<X>) -> (r: Vec<Result<T, X>>)
    ensures
        r@ == spec_stream(items@, error),
{
    let ghost s = items@;
    let mut out: Vec<Result<T, X>> = Vec::new();
    for v in it: items
        invariant
            it.seq() == s,
            out@ == s.take(it.index() as int).map_values(|v: T| Ok::<T, X>(v)),
    {
        out.push(Ok(v));
        assert(out@ =~= s.take(it.index() + 1).map_values(|v: T| Ok::<T, X>(v)));
    }
    assert(s.take(s.len() as int) =~= s);
    match error {
        Some(e) => {
            out.push(Err(e));
        },
        None => {},
    }
    out
}

/// Collects a stream into its items, or into its first failure.
pub fn to_vec_result<T, X>(iter: Vec<Result<T, X>>) -> (r: Result<Vec<T>, X>)
    ensures
        match spec_first_error(iter@) {
            Some(e) => r == Err::<Vec<T>, X>(e),
            None => r is Ok && r->Ok_0@ == spec_ok_prefix(iter@),
        },
{
    let (items, error) = split_stream(iter);
    match error {
        Some(e) => Err(e),
        None => Ok(items),
    }
}

/// Takes every item out of its wrapping. The stream must hold no failure.
pub fn unwrap_items<T, X>(iter: Vec<Result<T, X>>) -> (r: Vec<T>)
    requires
        spec_first_error(iter@) is None,
    ensures
        r@ == spec_ok_prefix(iter@),
        r@.len() == iter@.len(),
{
    proof {
        lemma_error_index_bounds(iter@, 0);
    }
    let (items, _error) = split_stream(iter);
    items
}

} // verus!
