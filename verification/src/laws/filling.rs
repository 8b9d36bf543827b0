//! What holds of structs that are read out of a query.

use crate::error::Problem;
use crate::fields;
use crate::percent;
use crate::query;
use crate::text;
use vstd::prelude::*;
use vstd::string::*;
use vstd::utf8::*;

verus! {

/// The text that a key or a value stands for.
pub open spec fn decoded(text: Seq<char>) -> Result<Seq<char>, Problem> {
    percent::percent_text(encode_utf8(text))
}

/// Whether the key and the value of a pair decode, and the value can be read where the key names
/// a field.
pub open spec fn passes<T>(
    names: Seq<Seq<char>>,
    read: spec_fn(int, Seq<char>) -> Result<T, Problem>,
    pair: (Seq<char>, Seq<char>),
) -> bool {
    &&& decoded(pair.0) is Ok
    &&& decoded(pair.1) is Ok
    &&& forall|i: int|
        0 <= i < names.len() && #[trigger] names[i] == decoded(pair.0)->Ok_0 ==> read(
            i,
            decoded(pair.1)->Ok_0,
        ) is Ok
}

/// The effect of a pair is that of its decoded key and value.
proof fn lemma_effect(names: Seq<Seq<char>>, pair: (Seq<char>, Seq<char>))
    requires
        forall|i: int| 0 <= i < names.len() ==> !(#[trigger] names[i]).contains('%'),
    ensures
        query::pair_effect(names, pair) == match decoded(pair.0) {
            Err(problem) => query::PairEffect::Fail(problem),
            Ok(key) => match decoded(pair.1) {
                Err(problem) => query::PairEffect::Fail(problem),
                Ok(value) => match query::field_index(names, key) {
                    Some(i) => query::PairEffect::Assign(i, value),
                    None => query::PairEffect::Ignore,
                },
            },
        },
{
    let key = pair.0;
    query::lemma_field_index(names, key);
    if query::field_index(names, key) is Some {
        text::lemma_ascii_contains(key, '%');
        percent::lemma_plain_bytes(encode_utf8(key));
        encode_utf8_valid_utf8(key);
        encode_utf8_decode_utf8(key);
    }
}

/// Whether the first pairs pass, and what follows them is behind what they assign.
proof fn lemma_first_pairs<T>(
    names: Seq<Seq<char>>,
    read: spec_fn(int, Seq<char>) -> Result<T, Problem>,
    pairs: Seq<(Seq<char>, Seq<char>)>,
    n: int,
    k: int,
) -> (count: int)
    requires
        forall|i: int| 0 <= i < names.len() ==> !(#[trigger] names[i]).contains('%'),
        0 <= n <= k <= pairs.len(),
        forall|j: int| n <= j < k ==> passes(names, read, #[trigger] pairs[j]),
    ensures
        ({
            let all = query::assignments_of(names, pairs, n);
            let rest = query::assignments_of(names, pairs, k);
            &&& 0 <= count <= all.0.len()
            &&& all.0.skip(count) == rest.0
            &&& all.1 == rest.1
            &&& forall|j: int|
                0 <= j < count ==> read((#[trigger] all.0[j]).0, all.0[j].1) is Ok
        }),
    decreases k - n,
{
    if n == k {
        let all = query::assignments_of(names, pairs, n);
        assert(all.0.skip(0) =~= all.0);
        0
    } else {
        let after = lemma_first_pairs(names, read, pairs, n + 1, k);
        lemma_effect(names, pairs[n]);
        query::lemma_field_index(names, decoded(pairs[n].0)->Ok_0);
        let all = query::assignments_of(names, pairs, n);
        let rest = query::assignments_of(names, pairs, n + 1);
        let end = query::assignments_of(names, pairs, k);
        match query::pair_effect(names, pairs[n]) {
            query::PairEffect::Assign(i, value) => {
                assert(all.0 == seq![(i, value)] + rest.0);
                assert(all.0.skip(after + 1) =~= rest.0.skip(after));
                assert(names[i] == decoded(pairs[n].0)->Ok_0);
                assert forall|j: int| 0 <= j < after + 1 implies read(
                    (#[trigger] all.0[j]).0,
                    all.0[j].1,
                ) is Ok by {
                    if j > 0 {
                        assert(all.0[j] == rest.0[j - 1]);
                    }
                }
                after + 1
            },
            _ => after,
        }
    }
}

/// Values that can be read are there.
proof fn lemma_readable<T>(
    count: nat,
    assignments: Seq<(int, Seq<char>)>,
    read: spec_fn(int, Seq<char>) -> Result<T, Problem>,
    n: nat,
)
    requires
        n <= assignments.len(),
        forall|j: int|
            0 <= j < n ==> read((#[trigger] assignments[j]).0, assignments[j].1) is Ok,
    ensures
        fields::values_of(count, assignments, read, n) is Ok,
    decreases n,
{
    if n > 0 {
        lemma_readable(count, assignments, read, (n - 1) as nat);
        assert(read(assignments[n - 1].0, assignments[n - 1].1) is Ok);
    }
}

/// A query is refused for its first pair that does not pass: with the problem of the reader,
/// where its value is one of a field and cannot be read. What comes behind that pair does not
/// matter.
pub proof fn law_first_unreadable_value_is_reported<T>(
    text: Seq<char>,
    names: Seq<Seq<char>>,
    required: Seq<bool>,
    read: spec_fn(int, Seq<char>) -> Result<T, Problem>,
    k: int,
    index: int,
    value: Seq<char>,
)
    requires
        fields::distinct(names),
        forall|i: int| 0 <= i < names.len() ==> !(#[trigger] names[i]).contains('%'),
        0 <= k < query::pairs_of(text).len(),
        forall|j: int|
            0 <= j < k ==> passes(names, read, #[trigger] query::pairs_of(text)[j]),
        0 <= index < names.len(),
        decoded(query::pairs_of(text)[k].0) == Ok::<_, Problem>(names[index]),
        decoded(query::pairs_of(text)[k].1) == Ok::<_, Problem>(value),
        read(index, value) is Err,
    ensures
        fields::parse_of(text, names, required, read) == Err::<Seq<Option<T>>, _>(
            read(index, value)->Err_0,
        ),
{
    let pairs = query::pairs_of(text);
    let count = lemma_first_pairs(names, read, pairs, 0, k);
    lemma_effect(names, pairs[k]);
    fields::lemma_field_found(names, names[index], index);
    let all = query::assignments_of(names, pairs, 0);
    let rest = query::assignments_of(names, pairs, k);
    let behind = query::assignments_of(names, pairs, k + 1);
    assert(rest.0 == seq![(index, value)] + behind.0);
    assert(all.0.skip(count)[0] == rest.0[0]);
    assert(all.0[count] == (index, value));
    lemma_readable(names.len(), all.0, read, count as nat);
    assert(fields::values_of(names.len(), all.0, read, (count + 1) as nat) is Err);
    fields::lemma_failure_stays(names.len(), all.0, read, (count + 1) as nat, all.0.len());
}

/// A query is refused for its first pair that does not pass: with the problem of the decoding,
/// where its key or its value does not decode, and that of the key where neither does.
pub proof fn law_first_broken_pair_is_reported<T>(
    text: Seq<char>,
    names: Seq<Seq<char>>,
    required: Seq<bool>,
    read: spec_fn(int, Seq<char>) -> Result<T, Problem>,
    k: int,
)
    requires
        forall|i: int| 0 <= i < names.len() ==> !(#[trigger] names[i]).contains('%'),
        0 <= k < query::pairs_of(text).len(),
        forall|j: int|
            0 <= j < k ==> passes(names, read, #[trigger] query::pairs_of(text)[j]),
        decoded(query::pairs_of(text)[k].0) is Err || decoded(query::pairs_of(text)[k].1) is Err,
    ensures
        fields::parse_of(text, names, required, read) == Err::<Seq<Option<T>>, _>(
            if decoded(query::pairs_of(text)[k].0) is Err {
                decoded(query::pairs_of(text)[k].0)->Err_0
            } else {
                decoded(query::pairs_of(text)[k].1)->Err_0
            },
        ),
{
    let pairs = query::pairs_of(text);
    let count = lemma_first_pairs(names, read, pairs, 0, k);
    lemma_effect(names, pairs[k]);
    let all = query::assignments_of(names, pairs, 0);
    assert(all.0.skip(count).len() == 0);
    lemma_readable(names.len(), all.0, read, count as nat);
}

/// A query that decodes and whose values can be read is refused for the first required field
/// without a pair, and the refusal names it.
pub proof fn law_first_missing_field_is_named<T>(
    text: Seq<char>,
    names: Seq<Seq<char>>,
    required: Seq<bool>,
    read: spec_fn(int, Seq<char>) -> Result<T, Problem>,
    pairs: Seq<(Seq<char>, Seq<char>)>,
    index: int,
)
    requires
        names.len() == required.len(),
        fields::distinct(names),
        forall|i: int| 0 <= i < names.len() ==> !(#[trigger] names[i]).contains('%'),
        query::decoded_pairs(query::pairs_of(text), 0) == Ok::<_, Problem>(pairs),
        forall|k: int|
            0 <= k < pairs.len() ==> !fields::unreadable(names, read, #[trigger] pairs[k]),
        0 <= index < names.len(),
        required[index],
        !fields::has_key(pairs, names[index]),
        forall|i: int|
            0 <= i < index && #[trigger] required[i] ==> fields::has_key(pairs, names[i]),
    ensures
        fields::parse_of(text, names, required, read) matches Err(problem) && problem.status == 400
            && problem.title == "Bad Request"@ && !problem.missing && problem.detail
            == "missing query parameter "@ + names[index],
{
    fields::law_assignments_are_decoded_pairs(names, query::pairs_of(text), 0);
    fields::lemma_last_values(names, read, pairs);
    let named = fields::named_pairs(names, pairs);
    let values = fields::values_of(names.len(), named, read, named.len())->Ok_0;
    assert(fields::last_values(names, read, pairs, values));
    assert forall|i: int| 0 <= i < names.len() implies (#[trigger] values[i] is Some
        <==> fields::has_key(pairs, names[i])) by {
        if values[i] is Some {
            let k = choose|k: int| #[trigger]
                fields::is_last(pairs, k) && pairs[k].0 == names[i];
            assert(pairs[k].0 == names[i]);
        }
    }
    lemma_first_missing(required, values, 0, index);
}

/// The first required field without a value is the one before which none is missing.
proof fn lemma_first_missing<T>(
    required: Seq<bool>,
    values: Seq<Option<T>>,
    n: int,
    index: int,
)
    requires
        0 <= n <= index < required.len(),
        required[index],
        values[index] is None,
        forall|i: int| n <= i < index && #[trigger] required[i] ==> values[i] is Some,
    ensures
        fields::first_missing(required, values, n) == Some(index),
    decreases index - n,
{
    if n < index {
        lemma_first_missing(required, values, n + 1, index);
    }
}

} // verus!
