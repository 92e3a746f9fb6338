//! The decoder that turns a value of the engine into a [`Variant`].
//!
//! A value of the engine carries a type descriptor, a short string, beside what
//! it holds. The decoder reads the descriptor, compares it with the five that
//! it supports, and reads what the value holds accordingly. A map is read entry
//! by entry and a list of maps map by map, each value inside in the same way.

use vstd::prelude::*;
use crate::error::{Error, Failure};
use crate::text::same_text;
use crate::variant::{
    fold_entries, lemma_entry_is_smaller, mappings_of, nests_within, Dict, Value, Variant,
};

verus! {

/// How many maps may stand inside one another in a value that is decoded.
pub const MAX_DEPTH: usize = 64;

/// What a value of the engine holds, as the reads of it return it.
#[derive(Debug)]
pub enum Payload {
    /// A string.
    Text(String),
    /// A boolean.
    Flag(bool),
    /// A 64-bit integer.
    Integer(i64),
    /// The pairs of a map from strings to values, in the order in which the
    /// engine hands them out.
    Entries(Vec<(String, RawValue)>),
    /// The maps of a list of maps, each one as its pairs.
    Rows(Vec<Vec<(String, RawValue)>>),
    /// Anything else; the decoder does not read it.
    Opaque,
}

/// A value of the engine: its type descriptor and what it holds.
#[derive(Debug)]
pub struct RawValue {
    pub descriptor: String,
    pub payload: Payload,
}

/// The kinds of value that the decoder supports, one for each descriptor.
#[derive(Debug, Clone, Copy, PartialEq, Eq, Structural)]
pub enum Kind {
    /// `s`
    String,
    /// `b`
    Boolean,
    /// `x`
    Int64,
    /// `a{sv}`
    Mapping,
    /// `aa{sv}`
    MapList,
}

/// The kind that the descriptor names: the whole descriptor has to be one of
/// the five, a descriptor that only begins like one names none.
pub open spec fn kind_of(descriptor: Seq<char>) -> Option<Kind> {
    if descriptor == seq!['s'] {
        Some(Kind::String)
    } else if descriptor == seq!['b'] {
        Some(Kind::Boolean)
    } else if descriptor == seq!['x'] {
        Some(Kind::Int64)
    } else if descriptor == seq!['a', '{', 's', 'v', '}'] {
        Some(Kind::Mapping)
    } else if descriptor == seq!['a', 'a', '{', 's', 'v', '}'] {
        Some(Kind::MapList)
    } else {
        None
    }
}

/// The outcome of decoding `raw` when `budget` more maps may stand inside one
/// another: the value, or the first failure that is met on the way through
/// `raw`, entries before the entries that follow them.
pub open spec fn decode_spec(raw: RawValue, budget: nat) -> Result<Value, Failure>
    decreases budget, 0nat, 0nat,
{
    match kind_of(raw.descriptor@) {
        None => Err(Failure::UnsupportedVariant(raw.descriptor@)),
        Some(kind) => match (kind, raw.payload) {
            (Kind::String, Payload::Text(text)) => Ok(Value::String(text@)),
            (Kind::Boolean, Payload::Flag(flag)) => Ok(Value::Boolean(flag)),
            (Kind::Int64, Payload::Integer(number)) => Ok(Value::Int64(number)),
            (Kind::Mapping, Payload::Entries(entries)) => if budget == 0 {
                Err(Failure::NestingTooDeep)
            } else {
                match decode_entries_spec(entries@, (budget - 1) as nat) {
                    Ok(mapping) => Ok(Value::Mapping(mapping)),
                    Err(failure) => Err(failure),
                }
            },
            (Kind::MapList, Payload::Rows(rows)) => if budget == 0 {
                Err(Failure::NestingTooDeep)
            } else {
                match decode_rows_spec(rows@, (budget - 1) as nat) {
                    Ok(list) => Ok(Value::MapList(list)),
                    Err(failure) => Err(failure),
                }
            },
            _ => Err(Failure::MalformedVariant(raw.descriptor@)),
        },
    }
}

/// The outcome of decoding the pairs of one map: the mapping that comes of
/// writing each decoded value under its key, in turn, into an empty one, so
/// that of two pairs with one key the later one stays.
pub open spec fn decode_entries_spec(entries: Seq<(String, RawValue)>, budget: nat) -> Result<
    Map<Seq<char>, Value>,
    Failure,
>
    decreases budget, 1nat, entries.len(),
{
    if entries.len() == 0 {
        Ok(Map::empty())
    } else {
        match decode_entries_spec(entries.drop_last(), budget) {
            Err(failure) => Err(failure),
            Ok(mapping) => match decode_spec(entries.last().1, budget) {
                Err(failure) => Err(failure),
                Ok(value) => Ok(mapping.insert(entries.last().0@, value)),
            },
        }
    }
}

/// The outcome of decoding the maps of a list of maps: the mappings in the
/// order of the list.
pub open spec fn decode_rows_spec(rows: Seq<Vec<(String, RawValue)>>, budget: nat) -> Result<
    Seq<Map<Seq<char>, Value>>,
    Failure,
>
    decreases budget, 2nat, rows.len(),
{
    if rows.len() == 0 {
        Ok(Seq::empty())
    } else {
        match decode_rows_spec(rows.drop_last(), budget) {
            Err(failure) => Err(failure),
            Ok(list) => match decode_entries_spec(rows.last()@, budget) {
                Err(failure) => Err(failure),
                Ok(mapping) => Ok(list.push(mapping)),
            },
        }
    }
}

/// An outcome of the decoder, as a mathematical value.
pub open spec fn outcome(result: Result<Variant, Error>) -> Result<Value, Failure> {
    match result {
        Ok(variant) => Ok(variant@),
        Err(error) => Err(error@),
    }
}

/// A failure among the first pairs of a map is the failure of the whole map.
proof fn lemma_entries_failure_stays(entries: Seq<(String, RawValue)>, k: int, budget: nat)
    requires
        0 <= k <= entries.len(),
        decode_entries_spec(entries.take(k), budget) is Err,
    ensures
        decode_entries_spec(entries, budget) == decode_entries_spec(entries.take(k), budget),
    decreases entries.len() - k,
{
    if k == entries.len() {
        assert(entries.take(k) =~= entries);
    } else {
        assert(entries.drop_last().take(k) =~= entries.take(k));
        lemma_entries_failure_stays(entries.drop_last(), k, budget);
    }
}

/// A failure among the first maps of a list is the failure of the whole list.
proof fn lemma_rows_failure_stays(rows: Seq<Vec<(String, RawValue)>>, k: int, budget: nat)
    requires
        0 <= k <= rows.len(),
        decode_rows_spec(rows.take(k), budget) is Err,
    ensures
        decode_rows_spec(rows, budget) == decode_rows_spec(rows.take(k), budget),
    decreases rows.len() - k,
{
    if k == rows.len() {
        assert(rows.take(k) =~= rows);
    } else {
        assert(rows.drop_last().take(k) =~= rows.take(k));
        lemma_rows_failure_stays(rows.drop_last(), k, budget);
    }
}

impl Kind {
    /// The kind that the descriptor names, if it is one of the five supported
    /// descriptors, letter for letter.
    pub fn parse(descriptor: &str) -> (kind: Option<Kind>)
        ensures
            kind == kind_of(descriptor@),
    {
        proof {
            reveal_strlit("s");
            reveal_strlit("b");
            reveal_strlit("x");
            reveal_strlit("a{sv}");
            reveal_strlit("aa{sv}");
            assert("s"@ =~= seq!['s']);
            assert("b"@ =~= seq!['b']);
            assert("x"@ =~= seq!['x']);
            assert("a{sv}"@ =~= seq!['a', '{', 's', 'v', '}']);
            assert("aa{sv}"@ =~= seq!['a', 'a', '{', 's', 'v', '}']);
        }
        if same_text(descriptor, "s") {
            Some(Kind::String)
        } else if same_text(descriptor, "b") {
            Some(Kind::Boolean)
        } else if same_text(descriptor, "x") {
            Some(Kind::Int64)
        } else if same_text(descriptor, "a{sv}") {
            Some(Kind::Mapping)
        } else if same_text(descriptor, "aa{sv}") {
            Some(Kind::MapList)
        } else {
            None
        }
    }
}

/// Decodes a value of the engine.
///
/// A descriptor that is none of the five supported ones ends the decoding with
/// `UnsupportedVariant` and that descriptor, wherever in the value it stands;
/// nothing of what was decoded before is handed out then.
pub fn decode(raw: &RawValue) -> (result: Result<Variant, Error>)
    ensures
        outcome(result) == decode_spec(*raw, MAX_DEPTH as nat),
{
    decode_within(raw, MAX_DEPTH)
}

/// Decodes a value in which `budget` more maps may stand inside one another.
pub fn decode_within(raw: &RawValue, budget: usize) -> (result: Result<Variant, Error>)
    ensures
        outcome(result) == decode_spec(*raw, budget as nat),
    decreases budget, 0nat,
{
    let kind = match Kind::parse(raw.descriptor.as_str()) {
        Some(kind) => kind,
        None => {
            return Err(Error::UnsupportedVariant(raw.descriptor.clone()));
        },
    };
    match (kind, &raw.payload) {
        (Kind::String, Payload::Text(text)) => Ok(Variant::String(text.clone())),
        (Kind::Boolean, Payload::Flag(flag)) => Ok(Variant::Boolean(*flag)),
        (Kind::Int64, Payload::Integer(number)) => Ok(Variant::Int64(*number)),
        (Kind::Mapping, Payload::Entries(entries)) => {
            if budget == 0 {
                return Err(Error::NestingTooDeep);
            }
            match sv_array_to_map(entries, budget - 1) {
                Ok(dict) => Ok(Variant::Mapping(dict)),
                Err(error) => Err(error),
            }
        },
        (Kind::MapList, Payload::Rows(rows)) => {
            if budget == 0 {
                return Err(Error::NestingTooDeep);
            }
            match asv_array_to_maplist(rows, budget - 1) {
                Ok(list) => Ok(Variant::MapList(list)),
                Err(error) => Err(error),
            }
        },
        _ => Err(Error::MalformedVariant(raw.descriptor.clone())),
    }
}

/// Decodes the pairs of one map into a fresh mapping.
pub fn sv_array_to_map(entries: &Vec<(String, RawValue)>, budget: usize) -> (result: Result<Dict, Error>)
    ensures
        match result {
            Ok(dict) => decode_entries_spec(entries@, budget as nat) == Ok::<_, Failure>(dict@),
            Err(error) => decode_entries_spec(entries@, budget as nat) == Err::<Map<Seq<char>, Value>, _>(
                error@,
            ),
        },
    decreases budget, 1nat,
{
    let mut dict = Dict::new();
    let mut i: usize = 0;
    while i < entries.len()
        invariant
            i <= entries@.len(),
            decode_entries_spec(entries@.take(i as int), budget as nat) == Ok::<_, Failure>(dict@),
        decreases entries@.len() - i,
    {
        proof {
            assert(entries@.take(i + 1).drop_last() =~= entries@.take(i as int));
        }
        match decode_within(&entries[i].1, budget) {
            Ok(value) => {
                dict.insert(entries[i].0.clone(), value);
            },
            Err(error) => {
                proof {
                    lemma_entries_failure_stays(entries@, i + 1, budget as nat);
                }
                return Err(error);
            },
        }
        i += 1;
    }
    proof {
        assert(entries@.take(i as int) =~= entries@);
    }
    Ok(dict)
}

/// Decodes the maps of a list of maps, keeping their order.
pub fn asv_array_to_maplist(rows: &Vec<Vec<(String, RawValue)>>, budget: usize) -> (result: Result<
    Vec<Dict>,
    Error,
>)
    ensures
        match result {
            Ok(list) => decode_rows_spec(rows@, budget as nat) == Ok::<_, Failure>(mappings_of(list@)),
            Err(error) => decode_rows_spec(rows@, budget as nat) == Err::<
                Seq<Map<Seq<char>, Value>>,
                _,
            >(error@),
        },
    decreases budget, 2nat,
{
    let mut list: Vec<Dict> = Vec::new();
    let mut i: usize = 0;
    while i < rows.len()
        invariant
            i <= rows@.len(),
            decode_rows_spec(rows@.take(i as int), budget as nat) == Ok::<_, Failure>(
                mappings_of(list@),
            ),
        decreases rows@.len() - i,
    {
        proof {
            assert(rows@.take(i + 1).drop_last() =~= rows@.take(i as int));
        }
        match sv_array_to_map(&rows[i], budget) {
            Ok(dict) => {
                proof {
                    assert(list@.push(dict).drop_last() =~= list@);
                }
                list.push(dict);
            },
            Err(error) => {
                proof {
                    lemma_rows_failure_stays(rows@, i + 1, budget as nat);
                }
                return Err(error);
            },
        }
        i += 1;
    }
    proof {
        assert(rows@.take(i as int) =~= rows@);
    }
    Ok(list)
}

/// Each kind is the kind that its descriptor names.
pub proof fn lemma_kind_of_descriptor(kind: Kind)
    ensures
        kind_of(kind.descriptor()) == Some(kind),
{
    assert(seq!['s'].len() == 1 && seq!['s'][0] == 's');
    assert(seq!['b'].len() == 1 && seq!['b'][0] == 'b');
    assert(seq!['x'].len() == 1 && seq!['x'][0] == 'x');
    assert(seq!['a', '{', 's', 'v', '}'].len() == 5);
    assert(seq!['a', 'a', '{', 's', 'v', '}'].len() == 6);
}

/// Whether `raw` is well formed, has a supported descriptor wherever a value
/// stands in it, and has at most `budget` maps standing inside one another.
pub open spec fn decodable(raw: RawValue, budget: nat) -> bool
    decreases budget,
{
    match kind_of(raw.descriptor@) {
        None => false,
        Some(kind) => match (kind, raw.payload) {
            (Kind::String, Payload::Text(_)) => true,
            (Kind::Boolean, Payload::Flag(_)) => true,
            (Kind::Int64, Payload::Integer(_)) => true,
            (Kind::Mapping, Payload::Entries(entries)) => budget > 0 && forall|i: int|
                0 <= i < entries@.len() ==> decodable(
                    (#[trigger] entries@[i]).1,
                    (budget - 1) as nat,
                ),
            (Kind::MapList, Payload::Rows(rows)) => budget > 0 && forall|r: int, i: int|
                0 <= r < rows@.len() && 0 <= i < rows@[r]@.len() ==> decodable(
                    (#[trigger] rows@[r]@[i]).1,
                    (budget - 1) as nat,
                ),
            _ => false,
        },
    }
}

/// A value whose descriptor is none of the five supported ones is never
/// decoded: the outcome is `UnsupportedVariant` with that descriptor, whatever
/// the value holds.
pub proof fn lemma_unsupported_descriptor_fails(raw: RawValue, budget: nat)
    requires
        kind_of(raw.descriptor@) is None,
    ensures
        decode_spec(raw, budget) == Err::<Value, _>(Failure::UnsupportedVariant(raw.descriptor@)),
{
}

/// Decoding succeeds on exactly the values that are well formed, have
/// supported descriptors throughout and are nested no deeper than the budget.
pub proof fn lemma_decode_total(raw: RawValue, budget: nat)
    ensures
        decode_spec(raw, budget) is Ok <==> decodable(raw, budget),
    decreases budget, 0nat, 0nat,
{
    if budget > 0 {
        match raw.payload {
            Payload::Entries(entries) => {
                lemma_decode_entries_total(entries@, (budget - 1) as nat);
            },
            Payload::Rows(rows) => {
                lemma_decode_rows_total(rows@, (budget - 1) as nat);
            },
            _ => {},
        }
    }
}

/// The pairs of a map are decoded exactly when each value among them is.
pub proof fn lemma_decode_entries_total(entries: Seq<(String, RawValue)>, budget: nat)
    ensures
        decode_entries_spec(entries, budget) is Ok <==> forall|i: int|
            0 <= i < entries.len() ==> decodable((#[trigger] entries[i]).1, budget),
    decreases budget, 1nat, entries.len(),
{
    if entries.len() > 0 {
        let before = entries.drop_last();
        lemma_decode_entries_total(before, budget);
        lemma_decode_total(entries.last().1, budget);
        if decode_entries_spec(entries, budget) is Ok {
            assert forall|i: int| 0 <= i < entries.len() implies decodable(
                (#[trigger] entries[i]).1,
                budget,
            ) by {
                if i < before.len() {
                    assert(decodable(before[i].1, budget));
                }
            }
        }
        if forall|i: int| 0 <= i < entries.len() ==> decodable((#[trigger] entries[i]).1, budget) {
            assert forall|i: int| 0 <= i < before.len() implies decodable(
                (#[trigger] before[i]).1,
                budget,
            ) by {
                assert(decodable(entries[i].1, budget));
            }
            assert(decodable(entries[entries.len() - 1].1, budget));
        }
    }
}

/// The maps of a list are decoded exactly when each value in each of them is.
pub proof fn lemma_decode_rows_total(rows: Seq<Vec<(String, RawValue)>>, budget: nat)
    ensures
        decode_rows_spec(rows, budget) is Ok <==> forall|r: int, i: int|
            0 <= r < rows.len() && 0 <= i < rows[r]@.len() ==> decodable(
                (#[trigger] rows[r]@[i]).1,
                budget,
            ),
    decreases budget, 2nat, rows.len(),
{
    if rows.len() > 0 {
        let before = rows.drop_last();
        lemma_decode_rows_total(before, budget);
        lemma_decode_entries_total(rows.last()@, budget);
        if decode_rows_spec(rows, budget) is Ok {
            assert forall|r: int, i: int|
                0 <= r < rows.len() && 0 <= i < rows[r]@.len() implies decodable(
                (#[trigger] rows[r]@[i]).1,
                budget,
            ) by {
                if r < before.len() {
                    assert(decodable(before[r]@[i].1, budget));
                } else {
                    assert(decodable(rows.last()@[i].1, budget));
                }
            }
        }
        if forall|r: int, i: int|
            0 <= r < rows.len() && 0 <= i < rows[r]@.len() ==> decodable(
                (#[trigger] rows[r]@[i]).1,
                budget,
            ) {
            assert forall|r: int, i: int|
                0 <= r < before.len() && 0 <= i < before[r]@.len() implies decodable(
                (#[trigger] before[r]@[i]).1,
                budget,
            ) by {
                assert(decodable(rows[r]@[i].1, budget));
            }
            assert forall|i: int| 0 <= i < rows.last()@.len() implies decodable(
                (#[trigger] rows.last()@[i]).1,
                budget,
            ) by {
                assert(decodable(rows[rows.len() - 1]@[i].1, budget));
            }
        }
    }
}

/// Whether `raw` is `variant` written as a value of the engine: the descriptor
/// of its kind, and what it holds, pair by pair in the order of its entries.
pub open spec fn encodes(raw: RawValue, variant: Variant) -> bool
    decreases raw,
{
    match (variant, raw.payload) {
        (Variant::String(held), Payload::Text(text)) => raw.descriptor@ == Kind::String.descriptor()
            && text@ == held@,
        (Variant::Boolean(held), Payload::Flag(flag)) => raw.descriptor@
            == Kind::Boolean.descriptor() && flag == held,
        (Variant::Int64(held), Payload::Integer(number)) => raw.descriptor@
            == Kind::Int64.descriptor() && number == held,
        (Variant::Mapping(dict), Payload::Entries(pairs)) => raw.descriptor@
            == Kind::Mapping.descriptor() && pairs_encode(pairs@, dict.spec_entries()),
        (Variant::MapList(list), Payload::Rows(rows)) => raw.descriptor@
            == Kind::MapList.descriptor() && rows@.len() == list@.len() && forall|r: int|
            0 <= r < rows@.len() ==> pairs_encode((#[trigger] rows@[r])@, list@[r].spec_entries()),
        _ => false,
    }
}

/// Whether `pairs` are `entries` written as values of the engine, one for one.
pub open spec fn pairs_encode(pairs: Seq<(String, RawValue)>, entries: Seq<(String, Variant)>) -> bool
    decreases pairs,
{
    pairs.len() == entries.len() && forall|i: int|
        0 <= i < pairs.len() ==> (#[trigger] pairs[i]).0@ == entries[i].0@ && encodes(
            pairs[i].1,
            entries[i].1,
        )
}

/// Decoding gives back the value that was written: where `raw` is `variant`
/// written as a value of the engine, and `variant` is nested no deeper than the
/// budget, `raw` decodes to `variant`.
pub proof fn lemma_decode_inverts_encode(raw: RawValue, variant: Variant, budget: nat)
    requires
        encodes(raw, variant),
        nests_within(variant, budget),
    ensures
        decode_spec(raw, budget) == Ok::<_, Failure>(variant@),
    decreases budget, 0nat, 0nat,
{
    lemma_kind_of_descriptor(Kind::String);
    lemma_kind_of_descriptor(Kind::Boolean);
    lemma_kind_of_descriptor(Kind::Int64);
    lemma_kind_of_descriptor(Kind::Mapping);
    lemma_kind_of_descriptor(Kind::MapList);
    match variant {
        Variant::Mapping(dict) => {
            match raw.payload {
                Payload::Entries(pairs) => {
                    lemma_pairs_decode(pairs@, dict.spec_entries(), (budget - 1) as nat);
                },
                _ => {},
            }
        },
        Variant::MapList(list) => {
            match raw.payload {
                Payload::Rows(rows) => {
                    lemma_rows_decode(rows@, list@, (budget - 1) as nat);
                },
                _ => {},
            }
        },
        _ => {},
    }
}

/// The pairs written for the entries of a mapping decode to that mapping.
proof fn lemma_pairs_decode(
    pairs: Seq<(String, RawValue)>,
    entries: Seq<(String, Variant)>,
    budget: nat,
)
    requires
        pairs_encode(pairs, entries),
        forall|i: int| 0 <= i < entries.len() ==> nests_within((#[trigger] entries[i]).1, budget),
    ensures
        decode_entries_spec(pairs, budget) == Ok::<_, Failure>(fold_entries(entries)),
    decreases budget, 1nat, pairs.len(),
{
    if pairs.len() > 0 {
        let last = pairs.len() - 1;
        assert(pairs_encode(pairs.drop_last(), entries.drop_last())) by {
            assert forall|i: int| 0 <= i < pairs.drop_last().len() implies (
            #[trigger] pairs.drop_last()[i]).0@ == entries.drop_last()[i].0@ && encodes(
                pairs.drop_last()[i].1,
                entries.drop_last()[i].1,
            ) by {
                assert(pairs[i].0@ == entries[i].0@);
            }
        }
        assert forall|i: int| 0 <= i < entries.drop_last().len() implies nests_within(
            (#[trigger] entries.drop_last()[i]).1,
            budget,
        ) by {
            assert(nests_within(entries[i].1, budget));
        }
        lemma_pairs_decode(pairs.drop_last(), entries.drop_last(), budget);
        assert(pairs[last].0@ == entries[last].0@);
        assert(nests_within(entries[last].1, budget));
        lemma_decode_inverts_encode(pairs[last].1, entries[last].1, budget);
    }
}

/// The maps written for a list of mappings decode to those mappings, in order.
proof fn lemma_rows_decode(rows: Seq<Vec<(String, RawValue)>>, list: Seq<Dict>, budget: nat)
    requires
        rows.len() == list.len(),
        forall|r: int| 0 <= r < rows.len() ==> pairs_encode((#[trigger] rows[r])@, list[r].spec_entries()),
        forall|r: int, i: int|
            0 <= r < list.len() && 0 <= i < list[r].spec_entries().len() ==> nests_within(
                (#[trigger] list[r].spec_entries()[i]).1,
                budget,
            ),
    ensures
        decode_rows_spec(rows, budget) == Ok::<_, Failure>(mappings_of(list)),
    decreases budget, 2nat, rows.len(),
{
    if rows.len() > 0 {
        let last = rows.len() - 1;
        assert forall|r: int| 0 <= r < rows.drop_last().len() implies pairs_encode(
            (#[trigger] rows.drop_last()[r])@,
            list.drop_last()[r].spec_entries(),
        ) by {
            assert(pairs_encode(rows[r]@, list[r].spec_entries()));
        }
        assert forall|r: int, i: int|
            0 <= r < list.drop_last().len() && 0 <= i < list.drop_last()[r].spec_entries().len() implies nests_within(
            (#[trigger] list.drop_last()[r].spec_entries()[i]).1,
            budget,
        ) by {
            assert(nests_within(list[r].spec_entries()[i].1, budget));
        }
        lemma_rows_decode(rows.drop_last(), list.drop_last(), budget);
        assert(pairs_encode(rows[last]@, list[last].spec_entries()));
        assert forall|i: int| 0 <= i < list[last].spec_entries().len() implies nests_within(
            (#[trigger] list[last].spec_entries()[i]).1,
            budget,
        ) by {
            assert(nests_within(list[last].spec_entries()[i].1, budget));
        }
        lemma_pairs_decode(rows[last]@, list[last].spec_entries(), budget);
        assert(rows.last() == rows[last]);
        assert(list.last() == list[last]);
        assert(crate::variant::mapping_of(list.last()) == fold_entries(list[last].spec_entries()));
        assert(mappings_of(list) == mappings_of(list.drop_last()).push(
            crate::variant::mapping_of(list.last()),
        ));
    }
}

/// Writes a value as a value of the engine: the descriptor of its kind, and
/// what it holds, each entry of a mapping as one pair, in the order of the
/// entries.
pub fn encode(variant: &Variant) -> (raw: RawValue)
    ensures
        encodes(raw, *variant),
    decreases variant,
{
    match variant {
        Variant::String(held) => RawValue {
            descriptor: descriptor_text(Kind::String),
            payload: Payload::Text(held.clone()),
        },
        Variant::Boolean(held) => RawValue {
            descriptor: descriptor_text(Kind::Boolean),
            payload: Payload::Flag(*held),
        },
        Variant::Int64(held) => RawValue {
            descriptor: descriptor_text(Kind::Int64),
            payload: Payload::Integer(*held),
        },
        Variant::Mapping(dict) => RawValue {
            descriptor: descriptor_text(Kind::Mapping),
            payload: Payload::Entries(encode_entries(dict)),
        },
        Variant::MapList(list) => {
            let mut rows: Vec<Vec<(String, RawValue)>> = Vec::new();
            let mut r: usize = 0;
            while r < list.len()
                invariant
                    r <= list@.len(),
                    rows@.len() == r,
                    *variant == Variant::MapList(*list),
                    forall|k: int|
                        0 <= k < r ==> pairs_encode((#[trigger] rows@[k])@, list@[k].spec_entries()),
                decreases list@.len() - r,
            {
                proof {
                    assert(decreases_to!(*variant => variant->MapList_0));
                    assert(decreases_to!(variant->MapList_0 => (variant->MapList_0)@));
                    assert(decreases_to!((variant->MapList_0)@ => (variant->MapList_0)@[r as int]));
                }
                let pairs = encode_entries(&list[r]);
                rows.push(pairs);
                r += 1;
            }
            RawValue { descriptor: descriptor_text(Kind::MapList), payload: Payload::Rows(rows) }
        },
    }
}

/// Writes the entries of a mapping as pairs of the engine.
fn encode_entries(dict: &Dict) -> (pairs: Vec<(String, RawValue)>)
    ensures
        pairs_encode(pairs@, dict.spec_entries()),
    decreases dict,
{
    let entries = dict.entries();
    let mut pairs: Vec<(String, RawValue)> = Vec::new();
    let mut i: usize = 0;
    while i < entries.len()
        invariant
            i <= entries@.len(),
            pairs@.len() == i,
            entries@ == dict.spec_entries(),
            forall|k: int|
                0 <= k < i ==> (#[trigger] pairs@[k]).0@ == entries@[k].0@ && encodes(
                    pairs@[k].1,
                    entries@[k].1,
                ),
        decreases entries@.len() - i,
    {
        proof {
            lemma_entry_is_smaller(*dict, i as int);
        }
        let raw = encode(&entries[i].1);
        pairs.push((entries[i].0.clone(), raw));
        i += 1;
    }
    pairs
}

impl Kind {
    /// The descriptor of the kind.
    pub open spec fn descriptor(self) -> Seq<char> {
        match self {
            Kind::String => seq!['s'],
            Kind::Boolean => seq!['b'],
            Kind::Int64 => seq!['x'],
            Kind::Mapping => seq!['a', '{', 's', 'v', '}'],
            Kind::MapList => seq!['a', 'a', '{', 's', 'v', '}'],
        }
    }
}

/// The descriptor of a kind, as a text.
pub fn descriptor_text(kind: Kind) -> (text: String)
    ensures
        text@ == kind.descriptor(),
        kind_of(text@) == Some(kind),
{
    proof {
        reveal_strlit("s");
        reveal_strlit("b");
        reveal_strlit("x");
        reveal_strlit("a{sv}");
        reveal_strlit("aa{sv}");
        assert("s"@ =~= seq!['s']);
        assert("b"@ =~= seq!['b']);
        assert("x"@ =~= seq!['x']);
        assert("a{sv}"@ =~= seq!['a', '{', 's', 'v', '}']);
        assert("aa{sv}"@ =~= seq!['a', 'a', '{', 's', 'v', '}']);
        lemma_kind_of_descriptor(kind);
    }
    match kind {
        Kind::String => "s".to_owned(),
        Kind::Boolean => "b".to_owned(),
        Kind::Int64 => "x".to_owned(),
        Kind::Mapping => "a{sv}".to_owned(),
        Kind::MapList => "aa{sv}".to_owned(),
    }
}

/// The kind of a value.
pub open spec fn kind_of_value(value: Value) -> Kind {
    match value {
        Value::String(_) => Kind::String,
        Value::Boolean(_) => Kind::Boolean,
        Value::Int64(_) => Kind::Int64,
        Value::Mapping(_) => Kind::Mapping,
        Value::MapList(_) => Kind::MapList,
    }
}

/// The kind of a decoded value is the kind that the descriptor names.
pub proof fn lemma_decoded_kind(raw: RawValue, budget: nat)
    ensures
        match decode_spec(raw, budget) {
            Ok(value) => kind_of(raw.descriptor@) == Some(kind_of_value(value)),
            Err(_) => true,
        },
{
}

/// Whether one of the pairs has the key `key`.
pub open spec fn has_pair(entries: Seq<(String, RawValue)>, key: Seq<char>) -> bool {
    exists|i: int| 0 <= i < entries.len() && (#[trigger] entries[i]).0@ == key
}

/// The keys of a decoded map are the keys of its pairs.
pub proof fn lemma_decoded_keys(entries: Seq<(String, RawValue)>, budget: nat, key: Seq<char>)
    requires
        decode_entries_spec(entries, budget) is Ok,
    ensures
        decode_entries_spec(entries, budget)->Ok_0.contains_key(key) <==> has_pair(entries, key),
    decreases entries.len(),
{
    if entries.len() > 0 {
        let before = entries.drop_last();
        lemma_decoded_keys(before, budget, key);
        if has_pair(entries, key) {
            let i = choose|i: int| 0 <= i < entries.len() && (#[trigger] entries[i]).0@ == key;
            if i < before.len() {
                assert(before[i].0@ == key);
            }
        }
        if has_pair(before, key) {
            let i = choose|i: int| 0 <= i < before.len() && (#[trigger] before[i]).0@ == key;
            assert(entries[i].0@ == key);
        }
        if entries.last().0@ == key {
            assert(entries[entries.len() - 1].0@ == key);
        }
    }
}

/// The last write wins: under the key of a pair that no later pair has the key
/// of, a decoded map holds the decoded value of that pair.
pub proof fn lemma_last_write_wins(entries: Seq<(String, RawValue)>, budget: nat, i: int)
    requires
        decode_entries_spec(entries, budget) is Ok,
        0 <= i < entries.len(),
        forall|j: int| i < j < entries.len() ==> (#[trigger] entries[j]).0@ != entries[i].0@,
    ensures
        decode_entries_spec(entries, budget)->Ok_0.contains_key(entries[i].0@),
        decode_spec(entries[i].1, budget) == Ok::<_, Failure>(
            decode_entries_spec(entries, budget)->Ok_0[entries[i].0@],
        ),
    decreases entries.len(),
{
    if i < entries.len() - 1 {
        let before = entries.drop_last();
        assert forall|j: int| i < j < before.len() implies (#[trigger] before[j]).0@
            != before[i].0@ by {
            assert(entries[j].0@ != entries[i].0@);
        }
        lemma_last_write_wins(before, budget, i);
        assert(entries[entries.len() - 1].0@ != entries[i].0@);
    }
}

/// The order of a list of maps is kept: a decoded list has one mapping for each
/// map of the list, in its place.
pub proof fn lemma_rows_keep_order(rows: Seq<Vec<(String, RawValue)>>, budget: nat, r: int)
    requires
        decode_rows_spec(rows, budget) is Ok,
        0 <= r < rows.len(),
    ensures
        decode_rows_spec(rows, budget)->Ok_0.len() == rows.len(),
        decode_entries_spec(rows[r]@, budget) == Ok::<_, Failure>(
            decode_rows_spec(rows, budget)->Ok_0[r],
        ),
    decreases rows.len(),
{
    lemma_rows_length(rows, budget);
    if r < rows.len() - 1 {
        lemma_rows_length(rows.drop_last(), budget);
        lemma_rows_keep_order(rows.drop_last(), budget, r);
    }
}

/// A decoded list has as many mappings as the list has maps.
pub proof fn lemma_rows_length(rows: Seq<Vec<(String, RawValue)>>, budget: nat)
    requires
        decode_rows_spec(rows, budget) is Ok,
    ensures
        decode_rows_spec(rows, budget)->Ok_0.len() == rows.len(),
    decreases rows.len(),
{
    if rows.len() > 0 {
        lemma_rows_length(rows.drop_last(), budget);
    }
}

} // verus!
