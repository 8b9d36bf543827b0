//! Query strings: their pairs, how values are read, and the fields of a parsed query.

use crate::error;
use crate::error::ApiError;
use crate::json;
use crate::json::{map_insert, new_map, object_value};
use crate::number;
use crate::number::parse_i64;
use crate::percent;
use crate::percent::{decode_query_component, percent_decode};
use crate::text;
use crate::text::{split_once, str_equal};
use serde_json::Value;
use std::borrow::Cow;
use vstd::prelude::*;
use vstd::string::*;
use vstd::utf8::*;

verus! {

/// The key and the value of a piece of a query: the texts around the first `=`, or the whole
/// piece and nothing.
pub open spec fn pair_of(piece: Seq<char>) -> (Seq<char>, Seq<char>) {
    let at = text::position(piece, '=');
    if at < piece.len() {
        (piece.take(at), piece.skip(at + 1))
    } else {
        (piece, Seq::empty())
    }
}

/// The pairs of a query, as they are written: its nonempty pieces between `&` characters.
pub open spec fn pairs_of(query: Seq<char>) -> Seq<(Seq<char>, Seq<char>)>
    decreases query.len(),
{
    proof {
        text::lemma_position_range(query, '&');
    }
    let at = text::position(query, '&');
    let first = if at > 0 {
        seq![pair_of(query.take(at))]
    } else {
        Seq::empty()
    };
    if at < query.len() {
        first + pairs_of(query.skip(at + 1))
    } else {
        first
    }
}

/// The texts of a list of pairs.
pub open spec fn pair_texts(pairs: Seq<(&str, &str)>) -> Seq<(Seq<char>, Seq<char>)> {
    pairs.map_values(|pair: (&str, &str)| (pair.0@, pair.1@))
}

/// The key and the value of a piece of a query.
fn split_pair(piece: &str) -> (r: (&str, &str))
    ensures
        (r.0@, r.1@) == pair_of(piece@),
{
    match split_once(piece, 61) {
        Some((key, value)) => {
            proof {
                text::lemma_position(piece@, '=', key@, value@);
            }
            (key, value)
        },
        None => {
            proof {
                text::lemma_no_position(piece@, '=');
                reveal_strlit("");
            }
            (piece, "")
        },
    }
}

/// The pairs of a query, as they are written.
pub fn query_pairs(query: &str) -> (r: Vec<(&str, &str)>)
    ensures
        pair_texts(r@) == pairs_of(query@),
{
    let mut pairs: Vec<(&str, &str)> = Vec::new();
    let mut rest: &str = query;
    let mut done = false;
    proof {
        assert(pair_texts(pairs@) + pairs_of(rest@) =~= pairs_of(query@));
    }
    while !done
        invariant
            done ==> pair_texts(pairs@) == pairs_of(query@),
            !done ==> pair_texts(pairs@) + pairs_of(rest@) == pairs_of(query@),
        decreases if done { 0nat } else { rest@.len() + 1 },
    {
        let ghost before = pairs@;
        let ghost text = rest@;
        let (piece, next) = match split_once(rest, 38) {
            Some((piece, next)) => {
                proof {
                    text::lemma_position(rest@, '&', piece@, next@);
                }
                (piece, Some(next))
            },
            None => {
                proof {
                    text::lemma_no_position(rest@, '&');
                    assert(rest@.take(rest@.len() as int) =~= rest@);
                }
                (rest, None)
            },
        };
        proof {
            text::lemma_encode_len(piece@);
        }
        if !piece.is_empty() {
            pairs.push(split_pair(piece));
        }
        let ghost first = if piece@.len() > 0 {
            seq![pair_of(piece@)]
        } else {
            Seq::empty()
        };
        assert(pair_texts(pairs@) =~= pair_texts(before) + first);
        match next {
            Some(next) => {
                proof {
                    assert(pair_texts(pairs@) + pairs_of(next@) =~= pair_texts(before) + (first
                        + pairs_of(next@)));
                }
                rest = next;
            },
            None => {
                done = true;
            },
        }
    }
    pairs
}

/// The decoded pairs of a query from the `n`th on, or the problem of the first text that
/// cannot be decoded. A key comes before its value.
pub open spec fn decoded_pairs(pairs: Seq<(Seq<char>, Seq<char>)>, n: int) -> Result<
    Seq<(Seq<char>, Seq<char>)>,
    error::Problem,
>
    decreases pairs.len() - n,
{
    if n < 0 || n >= pairs.len() {
        Ok(Seq::empty())
    } else {
        match percent::percent_text(encode_utf8(pairs[n].0)) {
            Err(problem) => Err(problem),
            Ok(key) => match percent::percent_text(encode_utf8(pairs[n].1)) {
                Err(problem) => Err(problem),
                Ok(value) => match decoded_pairs(pairs, n + 1) {
                    Err(problem) => Err(problem),
                    Ok(rest) => Ok(seq![(key, value)] + rest),
                },
            },
        }
    }
}

/// The texts of a list of decoded pairs.
pub open spec fn string_pairs(pairs: Seq<(String, String)>) -> Seq<(Seq<char>, Seq<char>)> {
    pairs.map_values(|pair: (String, String)| (pair.0@, pair.1@))
}

/// Decodes the pairs of a query.
pub fn decode_query(query: &str) -> (r: Result<Vec<(String, String)>, ApiError>)
    ensures
        match r {
            Ok(pairs) => decoded_pairs(pairs_of(query@), 0) == Ok::<_, error::Problem>(
                string_pairs(pairs@),
            ),
            Err(problem) => decoded_pairs(pairs_of(query@), 0) == Err::<
                Seq<(Seq<char>, Seq<char>)>,
                _,
            >(problem@),
        },
{
    let raw = query_pairs(query);
    let ghost all = pairs_of(query@);
    let mut pairs: Vec<(String, String)> = Vec::new();
    let mut i: usize = 0;
    proof {
        if let Ok(rest) = decoded_pairs(all, 0) {
            assert(string_pairs(pairs@) + rest =~= rest);
        }
    }
    while i < raw.len()
        invariant
            i <= raw@.len(),
            pair_texts(raw@) == all,
            all == pairs_of(query@),
            match decoded_pairs(all, i as int) {
                Ok(rest) => decoded_pairs(all, 0) == Ok::<_, error::Problem>(
                    string_pairs(pairs@) + rest,
                ),
                Err(problem) => decoded_pairs(all, 0) == Err::<Seq<(Seq<char>, Seq<char>)>, _>(
                    problem,
                ),
            },
        decreases raw@.len() - i,
    {
        let (key, value) = raw[i];
        assert(all[i as int] == (key@, value@));
        let ghost before = pairs@;
        let key = match percent_decode(key) {
            Ok(key) => key,
            Err(problem) => {
                return Err(problem);
            },
        };
        let value = match percent_decode(value) {
            Ok(value) => value,
            Err(problem) => {
                return Err(problem);
            },
        };
        let ghost pair = (key@, value@);
        pairs.push((key, value));
        proof {
            assert(string_pairs(pairs@) =~= string_pairs(before).push(pair));
            if let Ok(rest) = decoded_pairs(all, i + 1) {
                assert(string_pairs(before) + (seq![pair] + rest) =~= string_pairs(pairs@) + rest);
            }
        }
        i += 1;
    }
    proof {
        assert(all.len() == raw@.len());
        assert(string_pairs(pairs@) + Seq::empty() =~= string_pairs(pairs@));
    }
    Ok(pairs)
}

/// How the value of a query pair is read when it is not known which type is wanted.
#[derive(Debug)]
pub enum QueryScalar {
    Bool(bool),
    Integer(i64),
    Text(String),
}

/// What a [`QueryScalar`] holds.
pub enum ScalarView {
    Bool(bool),
    Integer(int),
    Text(Seq<char>),
}

impl View for QueryScalar {
    type V = ScalarView;

    open spec fn view(&self) -> ScalarView {
        match self {
            QueryScalar::Bool(value) => ScalarView::Bool(*value),
            QueryScalar::Integer(value) => ScalarView::Integer(*value as int),
            QueryScalar::Text(value) => ScalarView::Text(value@),
        }
    }
}

/// The reading of a value: `true` and `false`, then integers of 64 bits, then text.
pub open spec fn scalar_of(value: Seq<char>) -> ScalarView {
    if value == "true"@ {
        ScalarView::Bool(true)
    } else if value == "false"@ {
        ScalarView::Bool(false)
    } else {
        match number::integer_value(encode_utf8(value)) {
            Some(n) if i64::MIN <= n <= i64::MAX => ScalarView::Integer(n),
            _ => ScalarView::Text(value),
        }
    }
}

/// Reads a value.
pub fn query_scalar(value: String) -> (r: QueryScalar)
    ensures
        r@ == scalar_of(value@),
{
    if str_equal(value.as_str(), "true") {
        QueryScalar::Bool(true)
    } else if str_equal(value.as_str(), "false") {
        QueryScalar::Bool(false)
    } else {
        match parse_i64(value.as_str()) {
            Some(n) => QueryScalar::Integer(n),
            None => QueryScalar::Text(value),
        }
    }
}

/// The fields that pairs set, where a later pair overwrites an earlier one.
pub open spec fn fields_of(pairs: Seq<(Seq<char>, json::JsonTree)>) -> Map<
    Seq<char>,
    json::JsonTree,
>
    decreases pairs.len(),
{
    if pairs.len() == 0 {
        Map::empty()
    } else {
        fields_of(pairs.drop_last()).insert(pairs.last().0, pairs.last().1)
    }
}

/// What a list of named values holds.
pub open spec fn value_pairs(pairs: Seq<(String, Value)>) -> Seq<(Seq<char>, json::JsonTree)> {
    pairs.map_values(|pair: (String, Value)| (pair.0@, json::json_tree(pair.1)))
}

/// The JSON object of a query, given the value of each pair.
pub fn query_object(pairs: Vec<(String, Value)>) -> (r: Value)
    ensures
        json::json_tree(r) == json::JsonTree::Object(fields_of(value_pairs(pairs@))),
{
    let ghost all = value_pairs(pairs@);
    let mut map = new_map();
    let mut i: usize = 0;
    assert(all.take(0) =~= Seq::empty());
    while i < pairs.len()
        invariant
            i <= pairs@.len(),
            all == value_pairs(pairs@),
            json::json_fields(map) == fields_of(all.take(i as int)),
        decreases pairs@.len() - i,
    {
        map_insert(&mut map, pairs[i].0.clone(), json::clone_value(&pairs[i].1));
        proof {
            assert(all.take(i + 1).drop_last() =~= all.take(i as int));
            assert(all.take(i + 1).last() == all[i as int]);
        }
        i += 1;
    }
    assert(all.take(i as int) =~= all);
    object_value(map)
}

/// The first field with the given name.
pub open spec fn field_index(fields: Seq<Seq<char>>, key: Seq<char>) -> Option<int>
    decreases fields.len(),
{
    if fields.len() == 0 {
        None
    } else if fields[0] == key {
        Some(0)
    } else {
        match field_index(fields.drop_first(), key) {
            Some(i) => Some(i + 1),
            None => None,
        }
    }
}

/// What a pair does to the fields of a query.
pub enum PairEffect {
    Assign(int, Seq<char>),
    Ignore,
    Fail(error::Problem),
}

/// What a pair does: a key that names a field as it is written sets that field; otherwise the
/// decoded key decides, and a key that names no field is ignored once it and its value are
/// known to decode.
pub open spec fn pair_effect(fields: Seq<Seq<char>>, pair: (Seq<char>, Seq<char>)) -> PairEffect {
    let key = percent::percent_text(encode_utf8(pair.0));
    let value = percent::percent_text(encode_utf8(pair.1));
    match field_index(fields, pair.0) {
        Some(i) => match value {
            Ok(value) => PairEffect::Assign(i, value),
            Err(problem) => PairEffect::Fail(problem),
        },
        None => match (key, value) {
            (Err(problem), _) => PairEffect::Fail(problem),
            (Ok(_), Err(problem)) => PairEffect::Fail(problem),
            (Ok(key), Ok(value)) => match field_index(fields, key) {
                Some(i) => PairEffect::Assign(i, value),
                None => PairEffect::Ignore,
            },
        },
    }
}

/// The assignments that pairs make, in order, up to the first that fails, and its problem.
pub open spec fn assignments_of(
    fields: Seq<Seq<char>>,
    pairs: Seq<(Seq<char>, Seq<char>)>,
    n: int,
) -> (Seq<(int, Seq<char>)>, Option<error::Problem>)
    decreases pairs.len() - n,
{
    if n < 0 || n >= pairs.len() {
        (Seq::empty(), None)
    } else {
        let rest = assignments_of(fields, pairs, n + 1);
        match pair_effect(fields, pairs[n]) {
            PairEffect::Assign(i, value) => (seq![(i, value)] + rest.0, rest.1),
            PairEffect::Ignore => rest,
            PairEffect::Fail(problem) => (Seq::empty(), Some(problem)),
        }
    }
}

/// The assignments that a query makes to the fields of a type, in order, and the error that
/// ends it, if one does. Each value is to be read before the error counts.
pub struct QueryPlan {
    pub assignments: Vec<(usize, String)>,
    pub error: Option<ApiError>,
}

/// What the assignments of a plan say.
pub open spec fn assignment_views(assignments: Seq<(usize, String)>) -> Seq<(int, Seq<char>)> {
    assignments.map_values(|entry: (usize, String)| (entry.0 as int, entry.1@))
}

impl View for QueryPlan {
    type V = (Seq<(int, Seq<char>)>, Option<error::Problem>);

    open spec fn view(&self) -> (Seq<(int, Seq<char>)>, Option<error::Problem>) {
        (
            assignment_views(self.assignments@),
            match self.error {
                Some(error) => Some(error@),
                None => None,
            },
        )
    }
}

/// The texts of a list of names.
pub open spec fn name_texts(names: Seq<&str>) -> Seq<Seq<char>> {
    names.map_values(|name: &str| name@)
}

/// The first field with the given name.
fn find_field(fields: &[&str], key: &str) -> (r: Option<usize>)
    ensures
        match r {
            Some(i) => field_index(name_texts(fields@), key@) == Some(i as int),
            None => field_index(name_texts(fields@), key@) is None,
        },
{
    let ghost names = name_texts(fields@);
    let mut i: usize = 0;
    assert(names.skip(0) =~= names);
    while i < fields.len()
        invariant
            i <= fields@.len(),
            names == name_texts(fields@),
            match field_index(names.skip(i as int), key@) {
                Some(j) => field_index(names, key@) == Some(i + j),
                None => field_index(names, key@) is None,
            },
        decreases fields@.len() - i,
    {
        assert(names.skip(i as int)[0] == fields@[i as int]@);
        assert(names.skip(i as int).drop_first() =~= names.skip(i + 1));
        if str_equal(fields[i], key) {
            return Some(i);
        }
        i += 1;
    }
    assert(names.skip(i as int) =~= Seq::empty());
    None
}

/// The effect of one pair, as it is carried out.
enum Effect {
    Assign(usize, String),
    Ignore,
    Fail(ApiError),
}

/// What an [`Effect`] says.
spec fn effect_view(effect: Effect) -> PairEffect {
    match effect {
        Effect::Assign(i, value) => PairEffect::Assign(i as int, value@),
        Effect::Ignore => PairEffect::Ignore,
        Effect::Fail(error) => PairEffect::Fail(error@),
    }
}

/// A text as a string of its own.
pub(crate) fn owned_text(text: Cow<'_, str>) -> (r: String)
    ensures
        r@ == text@,
{
    match text {
        Cow::Borrowed(text) => text.to_owned(),
        Cow::Owned(text) => text,
    }
}

/// What a pair does to the fields.
fn apply_pair(fields: &[&str], key: &str, value: &str) -> (r: Effect)
    ensures
        effect_view(r) == pair_effect(name_texts(fields@), (key@, value@)),
{
    match find_field(fields, key) {
        Some(i) => match decode_query_component(value) {
            Ok(value) => Effect::Assign(i, owned_text(value)),
            Err(error) => Effect::Fail(error),
        },
        None => match decode_query_component(key) {
            Err(error) => Effect::Fail(error),
            Ok(key) => match decode_query_component(value) {
                Err(error) => Effect::Fail(error),
                Ok(value) => match find_field(fields, owned_text(key).as_str()) {
                    Some(i) => Effect::Assign(i, owned_text(value)),
                    None => Effect::Ignore,
                },
            },
        },
    }
}

/// The assignments that a query makes to the fields of a type.
pub fn plan_query(query: &str, fields: &[&str]) -> (r: QueryPlan)
    ensures
        r@ == assignments_of(name_texts(fields@), pairs_of(query@), 0),
        forall|i: int|
            0 <= i < r.assignments@.len() ==> (#[trigger] r.assignments@[i]).0 < fields@.len(),
{
    let raw = query_pairs(query);
    let ghost all = pairs_of(query@);
    let ghost names = name_texts(fields@);
    let mut assignments: Vec<(usize, String)> = Vec::new();
    let mut i: usize = 0;
    proof {
        assert(assignment_views(assignments@) + assignments_of(names, all, 0).0
            =~= assignments_of(names, all, 0).0);
    }
    while i < raw.len()
        invariant
            i <= raw@.len(),
            pair_texts(raw@) == all,
            all == pairs_of(query@),
            names == name_texts(fields@),
            assignments_of(names, all, 0) == (
                assignment_views(assignments@) + assignments_of(names, all, i as int).0,
                assignments_of(names, all, i as int).1,
            ),
            forall|j: int|
                0 <= j < assignments@.len() ==> (#[trigger] assignments@[j]).0 < fields@.len(),
        decreases raw@.len() - i,
    {
        let (key, value) = raw[i];
        assert(all[i as int] == (key@, value@));
        let ghost before = assignments@;
        let ghost rest = assignments_of(names, all, i + 1);
        match apply_pair(fields, key, value) {
            Effect::Assign(field, value) => {
                let ghost entry = (field as int, value@);
                assignments.push((field, value));
                proof {
                    assert(assignment_views(assignments@) =~= assignment_views(before).push(entry));
                    assert(assignment_views(before) + (seq![entry] + rest.0)
                        =~= assignment_views(assignments@) + rest.0);
                    lemma_field_index(names, key@);
                    if let Ok(decoded) = percent::percent_text(encode_utf8(key@)) {
                        lemma_field_index(names, decoded);
                    }
                }
            },
            Effect::Ignore => {},
            Effect::Fail(error) => {
                proof {
                    assert(assignment_views(assignments@) + Seq::empty()
                        =~= assignment_views(assignments@));
                }
                return QueryPlan { assignments, error: Some(error) };
            },
        }
        i += 1;
    }
    proof {
        assert(all.len() == raw@.len());
        assert(assignment_views(assignments@) + Seq::empty() =~= assignment_views(assignments@));
    }
    QueryPlan { assignments, error: None }
}

/// Assignments are made to the fields alone.
pub proof fn lemma_assigned_fields(
    fields: Seq<Seq<char>>,
    pairs: Seq<(Seq<char>, Seq<char>)>,
    n: int,
)
    ensures
        forall|i: int|
            0 <= i < assignments_of(fields, pairs, n).0.len() ==> 0 <= (
            #[trigger] assignments_of(fields, pairs, n).0[i]).0 < fields.len(),
    decreases pairs.len() - n,
{
    if 0 <= n < pairs.len() {
        lemma_assigned_fields(fields, pairs, n + 1);
        lemma_field_index(fields, pairs[n].0);
        if let Ok(key) = percent::percent_text(encode_utf8(pairs[n].0)) {
            lemma_field_index(fields, key);
        }
        let all = assignments_of(fields, pairs, n).0;
        let rest = assignments_of(fields, pairs, n + 1).0;
        assert forall|i: int| 0 <= i < all.len() implies 0 <= (#[trigger] all[i]).0
            < fields.len() by {
            if let PairEffect::Assign(field, value) = pair_effect(fields, pairs[n]) {
                if i > 0 {
                    assert(all[i] == rest[i - 1]);
                }
            }
        }
    }
}

/// The first field with a name is one of the fields.
pub proof fn lemma_field_index(fields: Seq<Seq<char>>, key: Seq<char>)
    ensures
        field_index(fields, key) matches Some(i) ==> 0 <= i < fields.len() && fields[i] == key,
    decreases fields.len(),
{
    if fields.len() > 0 {
        lemma_field_index(fields.drop_first(), key);
    }
}

/// The problem of a query without a required field.
pub open spec fn missing_field_problem(name: Seq<char>) -> error::Problem {
    error::bad_request_problem("missing query parameter "@ + name)
}

/// The value of a required field.
pub fn required_field<T>(value: Option<T>, name: &str) -> (r: Result<T, ApiError>)
    ensures
        match value {
            Some(value) => r == Ok::<T, ApiError>(value),
            None => r matches Err(error) && error@ == missing_field_problem(name@),
        },
{
    match value {
        Some(value) => Ok(value),
        None => {
            let mut detail = "missing query parameter ".to_owned();
            detail.append(name);
            Err(ApiError::bad_request(detail.as_str()))
        },
    }
}

} // verus!
