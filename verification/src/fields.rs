//! Whole queries, read field by field.

use crate::error;
use crate::error::ApiError;
use crate::percent;
use crate::query;
use crate::query::{plan_query, required_field};
use crate::text;
use vstd::prelude::*;
use vstd::string::*;
use vstd::utf8::*;

verus! {

/// Whether a reader may have read the value of a field so.
pub open spec fn was_read<T, F: Fn(usize, String) -> Result<T, ApiError>>(
    read: F,
    assignment: (int, Seq<char>),
    reading: Result<T, ApiError>,
) -> bool {
    exists|value: String|
        value@ == assignment.1 && #[trigger] call_ensures(
            read,
            (assignment.0 as usize, value),
            reading,
        )
}

/// Whether values were read in order, up to the first that could not be.
pub open spec fn read_in_order<T, F: Fn(usize, String) -> Result<T, ApiError>>(
    read: F,
    assignments: Seq<(int, Seq<char>)>,
    readings: Seq<Result<T, ApiError>>,
) -> bool {
    &&& readings.len() <= assignments.len()
    &&& forall|i: int|
        0 <= i < readings.len() ==> was_read(read, assignments[i], #[trigger] readings[i])
    &&& forall|i: int| 0 <= i < readings.len() - 1 ==> (#[trigger] readings[i]) is Ok
    &&& readings.len() < assignments.len() ==> readings.len() > 0 && readings.last() is Err
}

/// Fields of which none has a value.
pub open spec fn no_values<T>(count: nat) -> Seq<Option<T>> {
    Seq::new(count, |i: int| None)
}

/// The values of the fields after the first `n` assignments.
pub open spec fn values_after<T>(
    count: nat,
    assignments: Seq<(int, Seq<char>)>,
    readings: Seq<Result<T, ApiError>>,
    n: nat,
) -> Seq<Option<T>>
    decreases n,
{
    if n == 0 {
        no_values(count)
    } else {
        values_after(count, assignments, readings, (n - 1) as nat).update(
            assignments[n - 1].0,
            Some(readings[n - 1]->Ok_0),
        )
    }
}

/// The first required field from the `n`th on that has no value.
pub open spec fn first_missing<T>(
    required: Seq<bool>,
    values: Seq<Option<T>>,
    n: int,
) -> Option<int>
    decreases required.len() - n,
{
    if n < 0 || n >= required.len() {
        None
    } else if required[n] && values[n] is None {
        Some(n)
    } else {
        first_missing(required, values, n + 1)
    }
}

/// The values of the fields, or the problem of the first required field without one.
pub open spec fn complete<T>(
    fields: Seq<Seq<char>>,
    required: Seq<bool>,
    values: Seq<Option<T>>,
) -> Result<Seq<Option<T>>, error::Problem> {
    match first_missing(required, values, 0) {
        Some(i) => Err(query::missing_field_problem(fields[i])),
        None => Ok(values),
    }
}

/// What a query comes to: the problem of a value that could not be read, then that of a text
/// that does not decode, then that of a missing field; and else the values.
pub open spec fn outcome_of<T>(
    fields: Seq<Seq<char>>,
    required: Seq<bool>,
    plan: (Seq<(int, Seq<char>)>, Option<error::Problem>),
    readings: Seq<Result<T, ApiError>>,
) -> Result<Seq<Option<T>>, error::Problem> {
    if readings.len() > 0 && readings.last() is Err {
        Err((readings.last()->Err_0)@)
    } else {
        match plan.1 {
            Some(problem) => Err(problem),
            None => complete(
                fields,
                required,
                values_after(fields.len(), plan.0, readings, plan.0.len()),
            ),
        }
    }
}

/// What a result says.
pub open spec fn values_view<T>(result: Result<Vec<Option<T>>, ApiError>) -> Result<
    Seq<Option<T>>,
    error::Problem,
> {
    match result {
        Ok(values) => Ok(values@),
        Err(error) => Err(error@),
    }
}

/// Whether a query came to a result, with values that were read in order.
pub open spec fn came_to<T, F: Fn(usize, String) -> Result<T, ApiError>>(
    query: Seq<char>,
    fields: Seq<Seq<char>>,
    required: Seq<bool>,
    read: F,
    readings: Seq<Result<T, ApiError>>,
    result: Result<Seq<Option<T>>, error::Problem>,
) -> bool {
    let plan = query::assignments_of(fields, query::pairs_of(query), 0);
    read_in_order(read, plan.0, readings) && result == outcome_of(fields, required, plan, readings)
}

/// Reads a query field by field: `read` is given the number of a field and a value for it. A
/// later value overwrites an earlier one.
pub fn read_fields<T, F: Fn(usize, String) -> Result<T, ApiError>>(
    query: &str,
    fields: &[&str],
    required: &[bool],
    read: F,
) -> (r: Result<Vec<Option<T>>, ApiError>)
    requires
        fields@.len() == required@.len(),
        forall|field: usize, value: String|
            field < fields@.len() ==> #[trigger] call_requires(read, (field, value)),
    ensures
        exists|readings: Seq<Result<T, ApiError>>| #[trigger]
            came_to(
                query@,
                query::name_texts(fields@),
                required@,
                read,
                readings,
                values_view(r),
            ),
{
    let ghost names = query::name_texts(fields@);
    let plan = plan_query(query, fields);
    let ghost assigned = plan@.0;
    let ghost mut readings: Seq<Result<T, ApiError>> = Seq::empty();
    let mut values: Vec<Option<T>> = Vec::new();
    let mut i: usize = 0;
    while i < fields.len()
        invariant
            i <= fields@.len(),
            values@.len() == i,
            forall|j: int| 0 <= j < i ==> (#[trigger] values@[j]) is None,
        decreases fields@.len() - i,
    {
        values.push(None);
        i += 1;
    }
    assert(values@ =~= no_values::<T>(names.len()));
    let mut n: usize = 0;
    while n < plan.assignments.len()
        invariant
            n <= plan.assignments@.len(),
            names == query::name_texts(fields@),
            plan@ == query::assignments_of(names, query::pairs_of(query@), 0),
            assigned == plan@.0,
            fields@.len() == required@.len(),
            forall|field: usize, value: String|
                field < fields@.len() ==> #[trigger] call_requires(read, (field, value)),
            forall|j: int|
                0 <= j < plan.assignments@.len() ==> (#[trigger] plan.assignments@[j]).0
                    < fields@.len(),
            readings.len() == n,
            forall|j: int|
                0 <= j < n ==> was_read(read, assigned[j], #[trigger] readings[j]),
            forall|j: int| 0 <= j < n ==> (#[trigger] readings[j]) is Ok,
            values@.len() == fields@.len(),
            values@ == values_after(names.len(), assigned, readings, n as nat),
        decreases plan.assignments@.len() - n,
    {
        let field: usize = plan.assignments[n].0;
        let value = plan.assignments[n].1.clone();
        let ghost text = value;
        let ghost before = readings;
        let reading = read(field, value);
        proof {
            assert(assigned[n as int] == (field as int, text@));
            assert(was_read(read, assigned[n as int], reading)) by {
                assert(call_ensures(read, (assigned[n as int].0 as usize, text), reading));
            }
            readings = readings.push(reading);
        }
        match reading {
            Ok(value) => {
                values.set(field, Some(value));
                proof {
                    lemma_values_prefix(names.len(), assigned, before, readings, n as nat);
                }
            },
            Err(error) => {
                let r = Err(error);
                assert(came_to(query@, names, required@, read, readings, values_view(r)));
                return r;
            },
        }
        n += 1;
    }
    assert(assigned.len() == n);
    if let Some(error) = plan.error {
        let r = Err(error);
        assert(came_to(query@, names, required@, read, readings, values_view(r)));
        return r;
    }
    let mut i: usize = 0;
    while i < required.len()
        invariant
            i <= required@.len(),
            names == query::name_texts(fields@),
            fields@.len() == required@.len(),
            values@.len() == fields@.len(),
            first_missing(required@, values@, 0) == first_missing(required@, values@, i as int),
            plan@ == query::assignments_of(names, query::pairs_of(query@), 0),
            assigned == plan@.0,
            plan@.1 is None,
            readings.len() == assigned.len(),
            read_in_order(read, assigned, readings),
            forall|j: int| 0 <= j < readings.len() ==> (#[trigger] readings[j]) is Ok,
            values@ == values_after(names.len(), assigned, readings, assigned.len()),
        decreases required@.len() - i,
    {
        if required[i] && values[i].is_none() {
            assert(names[i as int] == fields@[i as int]@);
            if let Err(error) = required_field::<bool>(None, fields[i]) {
                let r = Err(error);
                assert(came_to(query@, names, required@, read, readings, values_view(r)));
                return r;
            }
        }
        i += 1;
    }
    let r = Ok(values);
    assert(came_to(query@, names, required@, read, readings, values_view(r)));
    r
}

/// The values after some assignments depend on their readings alone.
proof fn lemma_values_prefix<T>(
    count: nat,
    assignments: Seq<(int, Seq<char>)>,
    some: Seq<Result<T, ApiError>>,
    more: Seq<Result<T, ApiError>>,
    n: nat,
)
    requires
        n <= some.len() <= more.len(),
        forall|i: int| 0 <= i < some.len() ==> some[i] == more[i],
    ensures
        values_after(count, assignments, some, n) == values_after(count, assignments, more, n),
    decreases n,
{
    if n > 0 {
        lemma_values_prefix(count, assignments, some, more, (n - 1) as nat);
    }
}

/// The values of the fields after the first `n` assignments, with a reader that always reads
/// alike, or the problem of the first value that it cannot read.
pub open spec fn values_of<T>(
    count: nat,
    assignments: Seq<(int, Seq<char>)>,
    read: spec_fn(int, Seq<char>) -> Result<T, error::Problem>,
    n: nat,
) -> Result<Seq<Option<T>>, error::Problem>
    decreases n,
{
    if n == 0 {
        Ok(no_values(count))
    } else {
        match values_of(count, assignments, read, (n - 1) as nat) {
            Err(problem) => Err(problem),
            Ok(values) => match read(assignments[n - 1].0, assignments[n - 1].1) {
                Err(problem) => Err(problem),
                Ok(value) => Ok(values.update(assignments[n - 1].0, Some(value))),
            },
        }
    }
}

/// What a query comes to with a reader that always reads alike.
pub open spec fn parse_of<T>(
    query: Seq<char>,
    fields: Seq<Seq<char>>,
    required: Seq<bool>,
    read: spec_fn(int, Seq<char>) -> Result<T, error::Problem>,
) -> Result<Seq<Option<T>>, error::Problem> {
    let plan = query::assignments_of(fields, query::pairs_of(query), 0);
    match values_of(fields.len(), plan.0, read, plan.0.len()) {
        Err(problem) => Err(problem),
        Ok(values) => match plan.1 {
            Some(problem) => Err(problem),
            None => complete(fields, required, values),
        },
    }
}

/// What a reading says.
pub open spec fn reading_view<T>(reading: Result<T, ApiError>) -> Result<T, error::Problem> {
    match reading {
        Ok(value) => Ok(value),
        Err(error) => Err(error@),
    }
}

/// With a reader that always reads alike, a query comes to one result.
pub proof fn law_readers_decide<T, F: Fn(usize, String) -> Result<T, ApiError>>(
    query: Seq<char>,
    fields: Seq<Seq<char>>,
    required: Seq<bool>,
    reader: F,
    read: spec_fn(int, Seq<char>) -> Result<T, error::Problem>,
    readings: Seq<Result<T, ApiError>>,
    result: Result<Seq<Option<T>>, error::Problem>,
)
    requires
        came_to(query, fields, required, reader, readings, result),
        forall|field: usize, value: String, reading: Result<T, ApiError>| #[trigger]
            call_ensures(reader, (field, value), reading) ==> reading_view(reading) == read(
                field as int,
                value@,
            ),
        fields.len() <= usize::MAX,
    ensures
        result == parse_of(query, fields, required, read),
{
    let plan = query::assignments_of(fields, query::pairs_of(query), 0);
    query::lemma_assigned_fields(fields, query::pairs_of(query), 0);
    assert forall|i: int| 0 <= i < readings.len() implies reading_view(#[trigger] readings[i])
        == read(plan.0[i].0, plan.0[i].1) by {
        assert(was_read(reader, plan.0[i], readings[i]));
    }
    if readings.len() > 0 && readings.last() is Err {
        let n = (readings.len() - 1) as nat;
        lemma_values_alike(fields.len(), plan.0, readings, read, n);
        assert(readings[n as int] == readings.last());
        lemma_failure_stays(fields.len(), plan.0, read, readings.len(), plan.0.len());
    } else {
        assert forall|i: int| 0 <= i < readings.len() implies (#[trigger] readings[i]) is Ok by {
            if i == readings.len() - 1 {
                assert(readings[i] == readings.last());
            }
        }
        lemma_values_alike(fields.len(), plan.0, readings, read, plan.0.len());
    }
}

/// Values that were read alike are the same.
proof fn lemma_values_alike<T>(
    count: nat,
    assignments: Seq<(int, Seq<char>)>,
    readings: Seq<Result<T, ApiError>>,
    read: spec_fn(int, Seq<char>) -> Result<T, error::Problem>,
    n: nat,
)
    requires
        n <= readings.len() <= assignments.len(),
        forall|i: int| 0 <= i < n ==> (#[trigger] readings[i]) is Ok,
        forall|i: int|
            0 <= i < n ==> reading_view(#[trigger] readings[i]) == read(
                assignments[i].0,
                assignments[i].1,
            ),
    ensures
        values_of(count, assignments, read, n) == Ok::<Seq<Option<T>>, error::Problem>(
            values_after(count, assignments, readings, n),
        ),
    decreases n,
{
    if n > 0 {
        lemma_values_alike(count, assignments, readings, read, (n - 1) as nat);
        assert(reading_view(readings[n - 1]) == read(assignments[n - 1].0, assignments[n - 1].1));
    }
}

/// A value that cannot be read is the end.
pub proof fn lemma_failure_stays<T>(
    count: nat,
    assignments: Seq<(int, Seq<char>)>,
    read: spec_fn(int, Seq<char>) -> Result<T, error::Problem>,
    m: nat,
    n: nat,
)
    requires
        m <= n,
        values_of(count, assignments, read, m) is Err,
    ensures
        values_of(count, assignments, read, n) == values_of(count, assignments, read, m),
    decreases n,
{
    if m < n {
        lemma_failure_stays(count, assignments, read, m, (n - 1) as nat);
    }
}

/// The pairs whose keys name a field, with the number of that field.
pub open spec fn named_pairs(
    fields: Seq<Seq<char>>,
    pairs: Seq<(Seq<char>, Seq<char>)>,
) -> Seq<(int, Seq<char>)>
    decreases pairs.len(),
{
    if pairs.len() == 0 {
        Seq::empty()
    } else {
        let before = named_pairs(fields, pairs.drop_last());
        match query::field_index(fields, pairs.last().0) {
            Some(i) => before.push((i, pairs.last().1)),
            None => before,
        }
    }
}

/// Pairs are named one after the other.
proof fn lemma_named_concat(
    fields: Seq<Seq<char>>,
    a: Seq<(Seq<char>, Seq<char>)>,
    b: Seq<(Seq<char>, Seq<char>)>,
)
    ensures
        named_pairs(fields, a + b) == named_pairs(fields, a) + named_pairs(fields, b),
    decreases b.len(),
{
    if b.len() == 0 {
        assert(a + b =~= a);
        assert(named_pairs(fields, a) + named_pairs(fields, b) =~= named_pairs(fields, a));
    } else {
        lemma_named_concat(fields, a, b.drop_last());
        assert((a + b).drop_last() =~= a + b.drop_last());
        assert((a + b).last() == b.last());
        assert(named_pairs(fields, a + b) =~= named_pairs(fields, a) + named_pairs(fields, b));
    }
}

/// Where no field has a `%` in its name, a query assigns the decoded pairs whose keys name a
/// field, and fails exactly where its pairs do not decode.
pub proof fn law_assignments_are_decoded_pairs(
    fields: Seq<Seq<char>>,
    pairs: Seq<(Seq<char>, Seq<char>)>,
    n: int,
)
    requires
        0 <= n <= pairs.len(),
        forall|i: int| 0 <= i < fields.len() ==> !(#[trigger] fields[i]).contains('%'),
    ensures
        match query::decoded_pairs(pairs, n) {
            Ok(decoded) => query::assignments_of(fields, pairs, n) == (
                named_pairs(fields, decoded),
                None::<error::Problem>,
            ),
            Err(problem) => query::assignments_of(fields, pairs, n).1 == Some(problem),
        },
    decreases pairs.len() - n,
{
    if n < pairs.len() {
        law_assignments_are_decoded_pairs(fields, pairs, n + 1);
        let key = pairs[n].0;
        query::lemma_field_index(fields, key);
        if query::field_index(fields, key) is Some {
            text::lemma_ascii_contains(key, '%');
            percent::lemma_plain_bytes(encode_utf8(key));
            encode_utf8_valid_utf8(key);
            encode_utf8_decode_utf8(key);
        }
        if let Ok(decoded) = query::decoded_pairs(pairs, n) {
            let rest = query::decoded_pairs(pairs, n + 1)->Ok_0;
            let first = seq![decoded[0]];
            assert(decoded =~= first + rest);
            lemma_named_concat(fields, first, rest);
            assert(first.drop_last() =~= Seq::empty());
            assert(named_pairs(fields, first.drop_last()) =~= Seq::empty());
            assert(query::assignments_of(fields, pairs, n).0 =~= named_pairs(fields, decoded));
        }
    } else {
        assert(named_pairs(fields, Seq::empty()) =~= Seq::empty());
    }
}

/// Whether a pair is the last one with its key.
pub open spec fn is_last(pairs: Seq<(Seq<char>, Seq<char>)>, k: int) -> bool {
    &&& 0 <= k < pairs.len()
    &&& forall|j: int| k < j < pairs.len() ==> (#[trigger] pairs[j]).0 != pairs[k].0
}

/// Whether a pair has the given key.
pub open spec fn has_key(pairs: Seq<(Seq<char>, Seq<char>)>, key: Seq<char>) -> bool {
    exists|k: int| 0 <= k < pairs.len() && (#[trigger] pairs[k]).0 == key
}

/// Whether the value of a pair is one of a field and cannot be read.
pub open spec fn unreadable<T>(
    fields: Seq<Seq<char>>,
    read: spec_fn(int, Seq<char>) -> Result<T, error::Problem>,
    pair: (Seq<char>, Seq<char>),
) -> bool {
    query::field_index(fields, pair.0) matches Some(i) && read(i, pair.1) is Err
}

/// Whether values are those of the last pairs with the names of the fields, and none where
/// there is no such pair.
pub open spec fn last_values<T>(
    fields: Seq<Seq<char>>,
    read: spec_fn(int, Seq<char>) -> Result<T, error::Problem>,
    pairs: Seq<(Seq<char>, Seq<char>)>,
    values: Seq<Option<T>>,
) -> bool {
    &&& values.len() == fields.len()
    &&& forall|i: int|
        0 <= i < fields.len() ==> match #[trigger] values[i] {
            Some(value) => exists|k: int| #[trigger]
                is_last(pairs, k) && pairs[k].0 == fields[i] && read(i, pairs[k].1) == Ok::<
                    T,
                    error::Problem,
                >(value),
            None => !has_key(pairs, fields[i]),
        }
}

/// Whether no two fields have the same name.
pub open spec fn distinct(fields: Seq<Seq<char>>) -> bool {
    forall|i: int, j: int|
        0 <= i < fields.len() && 0 <= j < fields.len() && #[trigger] fields[i]
            == #[trigger] fields[j] ==> i == j
}

/// The values of pairs are those of the last of them, and cannot be had where one cannot be
/// read.
pub proof fn lemma_last_values<T>(
    fields: Seq<Seq<char>>,
    read: spec_fn(int, Seq<char>) -> Result<T, error::Problem>,
    pairs: Seq<(Seq<char>, Seq<char>)>,
)
    requires
        distinct(fields),
    ensures
        ({
            let named = named_pairs(fields, pairs);
            match values_of(fields.len(), named, read, named.len()) {
                Ok(values) => {
                    &&& last_values(fields, read, pairs, values)
                    &&& forall|k: int|
                        0 <= k < pairs.len() ==> !unreadable(fields, read, #[trigger] pairs[k])
                },
                Err(problem) => exists|k: int|
                    0 <= k < pairs.len() && #[trigger] unreadable(fields, read, pairs[k])
                        && read(query::field_index(fields, pairs[k].0)->0, pairs[k].1) == Err::<
                        T,
                        error::Problem,
                    >(problem),
            }
        }),
    decreases pairs.len(),
{
    let named = named_pairs(fields, pairs);
    if pairs.len() == 0 {
    } else {
        let front = pairs.drop_last();
        let before = named_pairs(fields, front);
        let last = pairs.last();
        lemma_last_values(fields, read, front);
        query::lemma_field_index(fields, last.0);
        if query::field_index(fields, last.0) is Some {
            lemma_values_of_prefix(fields.len(), before, named, read, before.len());
        }
        let earlier = values_of(fields.len(), before, read, before.len());
        let result = values_of(fields.len(), named, read, named.len());
        if earlier is Err {
            let problem = earlier->Err_0;
            let k = choose|k: int|
                0 <= k < front.len() && #[trigger] unreadable(fields, read, front[k]) && read(
                    query::field_index(fields, front[k].0)->0,
                    front[k].1,
                ) == Err::<T, error::Problem>(problem);
            assert(unreadable(fields, read, pairs[k]));
        } else if unreadable(fields, read, last) {
            assert(unreadable(fields, read, pairs[pairs.len() - 1]));
        } else {
            let old = earlier->Ok_0;
            let values = result->Ok_0;
            assert forall|k: int| 0 <= k < pairs.len() implies !unreadable(
                fields,
                read,
                #[trigger] pairs[k],
            ) by {
                if k < front.len() {
                    assert(pairs[k] == front[k]);
                }
            }
            assert forall|i: int| 0 <= i < fields.len() implies match #[trigger] values[i] {
                Some(value) => exists|k: int| #[trigger]
                    is_last(pairs, k) && pairs[k].0 == fields[i] && read(i, pairs[k].1) == Ok::<
                        T,
                        error::Problem,
                    >(value),
                None => !has_key(pairs, fields[i]),
            } by {
                lemma_has_key(pairs, fields[i]);
                lemma_field_found(fields, last.0, i);
                if last.0 == fields[i] {
                    let k = pairs.len() - 1;
                    assert(is_last(pairs, k));
                    assert(pairs[k] == last);
                } else {
                    assert(values[i] == old[i]);
                    if let Some(value) = old[i] {
                        let k = choose|k: int| #[trigger]
                            is_last(front, k) && front[k].0 == fields[i] && read(i, front[k].1)
                                == Ok::<T, error::Problem>(value);
                        assert forall|j: int| k < j < pairs.len() implies (#[trigger] pairs[j]).0
                            != pairs[k].0 by {
                            if j < front.len() {
                                assert(front[j].0 != front[k].0);
                            }
                        }
                        assert(is_last(pairs, k));
                        assert(front[k] == pairs[k]);
                    }
                }
            }
        }
    }
}

/// A key is that of the last pair or of one before it.
proof fn lemma_has_key(pairs: Seq<(Seq<char>, Seq<char>)>, key: Seq<char>)
    requires
        pairs.len() > 0,
    ensures
        has_key(pairs, key) <==> has_key(pairs.drop_last(), key) || pairs.last().0 == key,
{
    let front = pairs.drop_last();
    if has_key(front, key) {
        let k = choose|k: int| 0 <= k < front.len() && (#[trigger] front[k]).0 == key;
        assert(pairs[k].0 == key);
    }
    if pairs.last().0 == key {
        assert(pairs[pairs.len() - 1].0 == key);
    }
    if has_key(pairs, key) {
        let k = choose|k: int| 0 <= k < pairs.len() && (#[trigger] pairs[k]).0 == key;
        if k < front.len() {
            assert(front[k].0 == key);
        }
    }
}

/// A field is found by its name.
pub proof fn lemma_field_found(fields: Seq<Seq<char>>, key: Seq<char>, i: int)
    requires
        distinct(fields),
        0 <= i < fields.len(),
    ensures
        query::field_index(fields, key) == Some(i) <==> fields[i] == key,
{
    query::lemma_field_index(fields, key);
    if fields[i] == key {
        lemma_field_known(fields, key, i);
    }
}

/// A name that a field has is found.
proof fn lemma_field_known(fields: Seq<Seq<char>>, key: Seq<char>, i: int)
    requires
        0 <= i < fields.len(),
        fields[i] == key,
    ensures
        query::field_index(fields, key) is Some,
    decreases fields.len(),
{
    if i > 0 {
        lemma_field_known(fields.drop_first(), key, i - 1);
    }
}

/// The values after the first assignments depend on these alone.
proof fn lemma_values_of_prefix<T>(
    count: nat,
    some: Seq<(int, Seq<char>)>,
    more: Seq<(int, Seq<char>)>,
    read: spec_fn(int, Seq<char>) -> Result<T, error::Problem>,
    n: nat,
)
    requires
        n <= some.len() <= more.len(),
        forall|i: int| 0 <= i < some.len() ==> some[i] == more[i],
    ensures
        values_of(count, some, read, n) == values_of(count, more, read, n),
    decreases n,
{
    if n > 0 {
        lemma_values_of_prefix(count, some, more, read, (n - 1) as nat);
    }
}

/// A required field without a value is missing.
proof fn lemma_missing<T>(required: Seq<bool>, values: Seq<Option<T>>, n: int)
    requires
        0 <= n <= required.len(),
    ensures
        match first_missing(required, values, n) {
            Some(i) => n <= i < required.len() && required[i] && values[i] is None,
            None => forall|i: int|
                n <= i < required.len() && #[trigger] required[i] ==> values[i] is Some,
        },
    decreases required.len() - n,
{
    if n < required.len() {
        lemma_missing(required, values, n + 1);
    }
}

/// A query is refused exactly where a key or a value does not decode, a value of a field cannot
/// be read, or a required field has no pair. Otherwise each field has the value of the last pair
/// with its name and none without such a pair, and pairs with other keys are ignored. The fields
/// have different names, and no `%` in them.
pub proof fn law_queries_are_read<T>(
    query: Seq<char>,
    fields: Seq<Seq<char>>,
    required: Seq<bool>,
    read: spec_fn(int, Seq<char>) -> Result<T, error::Problem>,
)
    requires
        fields.len() == required.len(),
        distinct(fields),
        forall|i: int| 0 <= i < fields.len() ==> !(#[trigger] fields[i]).contains('%'),
    ensures
        match query::decoded_pairs(query::pairs_of(query), 0) {
            Err(_) => parse_of(query, fields, required, read) is Err,
            Ok(pairs) => {
                &&& parse_of(query, fields, required, read) is Err <==> {
                    ||| exists|k: int|
                        0 <= k < pairs.len() && #[trigger] unreadable(fields, read, pairs[k])
                    ||| exists|i: int|
                        0 <= i < fields.len() && #[trigger] required[i] && !has_key(
                            pairs,
                            fields[i],
                        )
                }
                &&& parse_of(query, fields, required, read) matches Ok(values) ==> last_values(
                    fields,
                    read,
                    pairs,
                    values,
                )
            },
        },
{
    let raw = query::pairs_of(query);
    law_assignments_are_decoded_pairs(fields, raw, 0);
    if let Ok(pairs) = query::decoded_pairs(raw, 0) {
        let named = named_pairs(fields, pairs);
        lemma_last_values(fields, read, pairs);
        if let Ok(values) = values_of(fields.len(), named, read, named.len()) {
            lemma_missing(required, values, 0);
            assert forall|i: int|
                0 <= i < fields.len() && #[trigger] values[i] is Some implies has_key(
                pairs,
                fields[i],
            ) by {
                let k = choose|k: int| #[trigger] is_last(pairs, k) && pairs[k].0 == fields[i];
                assert(pairs[k].0 == fields[i]);
            }
            if let Some(i) = first_missing(required, values, 0) {
                assert(required[i] && !has_key(pairs, fields[i]));
            } else {
                assert forall|i: int|
                    0 <= i < fields.len() && #[trigger] required[i] implies has_key(
                    pairs,
                    fields[i],
                ) by {
                    assert(values[i] is Some);
                }
            }
        }
    }
}

/// A query is refused as a bad request, where the reader refuses values so.
pub proof fn law_refused_queries_are_bad_requests<T>(
    query: Seq<char>,
    fields: Seq<Seq<char>>,
    required: Seq<bool>,
    read: spec_fn(int, Seq<char>) -> Result<T, error::Problem>,
)
    requires
        forall|i: int, value: Seq<char>|
            (#[trigger] read(i, value)) matches Err(problem) ==> problem.status == 400,
    ensures
        parse_of(query, fields, required, read) matches Err(problem) ==> problem.status == 400,
{
    let plan = query::assignments_of(fields, query::pairs_of(query), 0);
    lemma_reading_status(fields.len(), plan.0, read, plan.0.len());
    lemma_decoding_status(fields, query::pairs_of(query), 0);
}

/// A value that cannot be read gives the problem of the reader.
proof fn lemma_reading_status<T>(
    count: nat,
    assignments: Seq<(int, Seq<char>)>,
    read: spec_fn(int, Seq<char>) -> Result<T, error::Problem>,
    n: nat,
)
    requires
        forall|i: int, value: Seq<char>|
            (#[trigger] read(i, value)) matches Err(problem) ==> problem.status == 400,
    ensures
        values_of(count, assignments, read, n) matches Err(problem) ==> problem.status == 400,
    decreases n,
{
    if n > 0 {
        lemma_reading_status(count, assignments, read, (n - 1) as nat);
    }
}

/// A text that does not decode is a bad request.
proof fn lemma_decoding_status(
    fields: Seq<Seq<char>>,
    pairs: Seq<(Seq<char>, Seq<char>)>,
    n: int,
)
    requires
        0 <= n <= pairs.len(),
    ensures
        query::assignments_of(fields, pairs, n).1 matches Some(problem) ==> problem.status == 400,
    decreases pairs.len() - n,
{
    if n < pairs.len() {
        lemma_decoding_status(fields, pairs, n + 1);
    }
}

} // verus!
