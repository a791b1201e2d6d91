//! The header codec: between a header map and the ordered list of
//! (name, value) text pairs that crosses the host boundary.
//!
//! Outward, every entry of the map becomes one pair; a value that cannot be
//! shown as text leaves as the empty text, and the entry stays. Inward, every
//! pair becomes one entry; a pair that is no header is an error. Entries that
//! share a name are kept apart in both directions.

use crate::error::FetcherError;
use crate::grammar::{
    ascii_text, canonical_name, grouped, insert_grouped, is_name_char, is_upper, is_value_byte,
    is_visible_byte, lemma_insert_at_end, lemma_insert_grouped_keeps, lemma_insert_grouped_len,
    lower_name, valid_name, valid_value, visible_value,
};
use crate::http_types::{entries_of, entry_seq, header_entries, try_append, ASSURED_ENTRIES};
use http::{HeaderMap, HeaderName, HeaderValue};
use std::str::FromStr;
use vstd::prelude::*;
use vstd::utf8::{encode_utf8, is_ascii_chars, is_ascii_chars_encode_utf8};

verus! {

/// The text that stands for a header value on the wire: the value itself
/// where all of it is visible ASCII, the empty text otherwise.
pub open spec fn wire_value(bytes: Seq<u8>) -> Seq<char> {
    if visible_value(bytes) {
        ascii_text(bytes)
    } else {
        Seq::empty()
    }
}

/// The wire pairs of a header list: one pair per entry, in the same order.
pub open spec fn encode_entries(entries: Seq<(Seq<char>, Seq<u8>)>) -> Seq<(Seq<char>, Seq<char>)> {
    Seq::new(entries.len(), |i: int| (entries[i].0, wire_value(entries[i].1)))
}

/// Every name of the list is canonical, and the entries of one name stand
/// together: what holds of a header list that was read from wire pairs.
pub open spec fn canonical_entries(entries: Seq<(Seq<char>, Seq<u8>)>) -> bool {
    &&& grouped(entries)
    &&& forall|i: int| 0 <= i < entries.len() ==> canonical_name((#[trigger] entries[i]).0)
}

/// Turns the entries of `map` into wire pairs.
///
/// Each entry yields one pair, in the map's order, in which the entries of
/// one name stand together. The name is carried as it is. A value made of
/// visible ASCII is carried as text; any other value is carried as the empty
/// text.
pub fn to_pairs(map: &HeaderMap) -> (pairs: Vec<(String, String)>)
    ensures
        pairs.deep_view() == encode_entries(header_entries(*map)),
        grouped(header_entries(*map)),
{
    let entries = entries_of(map);
    let mut pairs: Vec<(String, String)> = Vec::new();
    let mut i: usize = 0;
    while i < entries.len()
        invariant
            i <= entries.len(),
            pairs.len() == i,
            entry_seq(entries@) == header_entries(*map),
            forall|k: int|
                0 <= k < i ==> (#[trigger] pairs@[k]).deep_view() == encode_entries(
                    header_entries(*map),
                )[k],
        decreases entries.len() - i,
    {
        let name = entries[i].0.as_str().to_owned();
        let value = match entries[i].1.to_str() {
            Ok(text) => text.to_owned(),
            Err(_) => String::new(),
        };
        proof {
            assert(entry_seq(entries@)[i as int] == header_entries(*map)[i as int]);
        }
        pairs.push((name, value));
        i += 1;
    }
    assert(pairs.deep_view() =~= encode_entries(header_entries(*map)));
    pairs
}

/// Why a list of wire pairs is no header list.
#[derive(Clone, Copy, Debug, PartialEq, Eq, Structural)]
pub enum HeaderFault {
    /// A name is empty, too long, or holds a character that no header name
    /// may hold.
    Name,
    /// A value holds a control character.
    Value,
    /// The header map took no further entry.
    TooMany,
}

impl HeaderFault {
    /// The message that reports this fault.
    pub open spec fn text(self) -> Seq<char> {
        match self {
            HeaderFault::Name => "invalid header name"@,
            HeaderFault::Value => "invalid header value"@,
            HeaderFault::TooMany => "too many headers"@,
        }
    }

    /// The message that reports this fault.
    pub fn message(&self) -> (message: String)
        ensures
            message@ == self.text(),
    {
        match self {
            HeaderFault::Name => "invalid header name".to_owned(),
            HeaderFault::Value => "invalid header value".to_owned(),
            HeaderFault::TooMany => "too many headers".to_owned(),
        }
    }
}

/// The header list that wire pairs stand for, or the fault of the first
/// pair that is no header.
///
/// Pairs are taken in order. A name is folded to lower case, a value keeps
/// its bytes, and each new entry joins the entries of its name.
pub open spec fn decode_pairs(pairs: Seq<(Seq<char>, Seq<char>)>) -> Result<
    Seq<(Seq<char>, Seq<u8>)>,
    HeaderFault,
>
    decreases pairs.len(),
{
    if pairs.len() == 0 {
        Ok(Seq::empty())
    } else {
        match decode_pairs(pairs.drop_last()) {
            Err(fault) => Err(fault),
            Ok(entries) => {
                let (name, value) = pairs.last();
                if !valid_name(name) {
                    Err(HeaderFault::Name)
                } else if !valid_value(encode_utf8(value)) {
                    Err(HeaderFault::Value)
                } else {
                    Ok(insert_grouped(entries, lower_name(name), encode_utf8(value)))
                }
            },
        }
    }
}

/// Once a prefix of the pairs has a fault, the whole list has that fault.
pub proof fn lemma_fault_stays(pairs: Seq<(Seq<char>, Seq<char>)>, n: int)
    requires
        0 <= n <= pairs.len(),
        decode_pairs(pairs.take(n)) is Err,
    ensures
        decode_pairs(pairs) == decode_pairs(pairs.take(n)),
    decreases pairs.len() - n,
{
    if n < pairs.len() {
        assert(pairs.take(n + 1).drop_last() == pairs.take(n));
        lemma_fault_stays(pairs, n + 1);
    } else {
        assert(pairs.take(n) == pairs);
    }
}

/// Decoding yields one entry per pair.
pub proof fn lemma_decode_len(pairs: Seq<(Seq<char>, Seq<char>)>)
    ensures
        decode_pairs(pairs) matches Ok(entries) ==> entries.len() == pairs.len(),
    decreases pairs.len(),
{
    if pairs.len() > 0 {
        lemma_decode_len(pairs.drop_last());
        if let Ok(entries) = decode_pairs(pairs.drop_last()) {
            let (name, value) = pairs.last();
            lemma_insert_grouped_len(entries, lower_name(name), encode_utf8(value));
        }
    }
}

/// Builds a header map from wire pairs.
///
/// Every pair must be a header: the first one that is not decides the error.
/// Otherwise each pair becomes one entry of the map, the name in lower case,
/// pairs of one name kept apart and in their order. A list of at most
/// [`ASSURED_ENTRIES`] headers is always accepted; a longer one may be
/// refused by the map, which is reported only where every pair is a header.
pub fn from_pairs(pairs: &Vec<(String, String)>) -> (outcome: Result<HeaderMap, FetcherError>)
    ensures
        match decode_pairs(pairs.deep_view()) {
            Err(fault) => outcome matches Err(error) && error@ == fault.text(),
            Ok(entries) => match outcome {
                Ok(map) => header_entries(map) == entries,
                Err(error) => error@ == HeaderFault::TooMany.text() && pairs.len()
                    > ASSURED_ENTRIES,
            },
        },
{
    let ghost wire = pairs.deep_view();
    let mut map = HeaderMap::new();
    let mut refused = false;
    let mut i: usize = 0;
    while i < pairs.len()
        invariant
            i <= pairs.len(),
            wire == pairs.deep_view(),
            decode_pairs(wire.take(i as int)) is Ok,
            !refused ==> decode_pairs(wire.take(i as int)) == Ok::<_, HeaderFault>(
                header_entries(map),
            ),
            refused ==> pairs.len() > ASSURED_ENTRIES,
        decreases pairs.len() - i,
    {
        proof {
            assert(wire.take(i + 1).drop_last() == wire.take(i as int));
            assert(wire.take(i + 1).last() == wire[i as int]);
            assert(wire[i as int] == (pairs@[i as int].0@, pairs@[i as int].1@));
            lemma_decode_len(wire.take(i as int));
        }
        let name = match HeaderName::from_str(pairs[i].0.as_str()) {
            Ok(name) => name,
            Err(_) => {
                proof {
                    lemma_fault_stays(wire, i + 1);
                }
                return Err(FetcherError::new(HeaderFault::Name.message()));
            },
        };
        let value = match HeaderValue::from_str(pairs[i].1.as_str()) {
            Ok(value) => value,
            Err(_) => {
                proof {
                    lemma_fault_stays(wire, i + 1);
                }
                return Err(FetcherError::new(HeaderFault::Value.message()));
            },
        };
        if !refused {
            refused = try_append(&mut map, name, value).is_err();
        }
        i += 1;
    }
    proof {
        assert(wire.take(i as int) == wire);
    }
    if refused {
        Err(FetcherError::new(HeaderFault::TooMany.message()))
    } else {
        Ok(map)
    }
}

/// The text of a visible value is ASCII and encodes back to the value.
pub proof fn lemma_visible_text(bytes: Seq<u8>)
    requires
        visible_value(bytes),
    ensures
        valid_value(bytes),
        is_ascii_chars(ascii_text(bytes)),
        encode_utf8(ascii_text(bytes)) == bytes,
{
    let text = ascii_text(bytes);
    assert forall|i: int| 0 <= i < text.len() implies '\0' <= #[trigger] text[i] <= '\u{7f}' by {
        assert(is_visible_byte(bytes[i]));
    }
    is_ascii_chars_encode_utf8(text);
    assert forall|i: int| 0 <= i < bytes.len() implies encode_utf8(text)[i] == bytes[i] by {
        assert(is_visible_byte(bytes[i]));
        assert(text[i] as u8 == encode_utf8(text)[i]);
    }
    assert(encode_utf8(text) =~= bytes);
    assert forall|i: int| 0 <= i < bytes.len() implies is_value_byte(#[trigger] bytes[i]) by {
        assert(is_visible_byte(bytes[i]));
    }
}

/// A canonical name is its own lower-case form.
pub proof fn lemma_canonical_is_lower(name: Seq<char>)
    requires
        canonical_name(name),
    ensures
        lower_name(name) == name,
{
    assert(lower_name(name) =~= name);
}

/// Header round trip: a header list whose names are canonical and whose
/// values are visible ASCII, sent out as wire pairs and read back, is the list
/// it was.
pub proof fn lemma_round_trip(entries: Seq<(Seq<char>, Seq<u8>)>)
    requires
        canonical_entries(entries),
        forall|i: int| 0 <= i < entries.len() ==> visible_value((#[trigger] entries[i]).1),
    ensures
        decode_pairs(encode_entries(entries)) == Ok::<_, HeaderFault>(entries),
{
    lemma_round_trip_prefix(entries, entries.len() as int);
    assert(encode_entries(entries).take(entries.len() as int) == encode_entries(entries));
    assert(entries.take(entries.len() as int) == entries);
}

proof fn lemma_round_trip_prefix(entries: Seq<(Seq<char>, Seq<u8>)>, n: int)
    requires
        canonical_entries(entries),
        forall|i: int| 0 <= i < entries.len() ==> visible_value((#[trigger] entries[i]).1),
        0 <= n <= entries.len(),
    ensures
        decode_pairs(encode_entries(entries).take(n)) == Ok::<_, HeaderFault>(entries.take(n)),
    decreases n,
{
    let wire = encode_entries(entries);
    if n == 0 {
        assert(entries.take(0) =~= Seq::empty());
    } else {
        lemma_round_trip_prefix(entries, n - 1);
        assert(wire.take(n).drop_last() == wire.take(n - 1));
        assert(wire.take(n).last() == wire[n - 1]);
        let entry = entries[n - 1];
        assert(wire[n - 1] == (entry.0, ascii_text(entry.1)));
        lemma_visible_text(entry.1);
        lemma_canonical_is_lower(entry.0);
        lemma_insert_at_end(entries, n - 1);
    }
}

/// What each wire pair stands for: its name in lower case, its value as
/// bytes.
pub open spec fn lowered(pairs: Seq<(Seq<char>, Seq<char>)>) -> Seq<(Seq<char>, Seq<u8>)> {
    Seq::new(pairs.len(), |i: int| (lower_name(pairs[i].0), encode_utf8(pairs[i].1)))
}

/// The lower-case form of a valid name is a canonical name.
pub proof fn lemma_lower_is_canonical(name: Seq<char>)
    requires
        valid_name(name),
    ensures
        canonical_name(lower_name(name)),
{
    let low = lower_name(name);
    assert forall|i: int| 0 <= i < low.len() implies is_name_char(#[trigger] low[i]) && !is_upper(
        low[i],
    ) by {
        assert(is_name_char(name[i]));
    }
}

/// Reading wire pairs keeps every pair as an entry of its own, with the name
/// in lower case: nothing is merged, dropped or added, and the entries of one
/// name end up together.
pub proof fn lemma_decode_keeps_all(pairs: Seq<(Seq<char>, Seq<char>)>)
    ensures
        decode_pairs(pairs) matches Ok(entries) ==> {
            &&& entries.len() == pairs.len()
            &&& entries.to_multiset() == lowered(pairs).to_multiset()
            &&& canonical_entries(entries)
        },
    decreases pairs.len(),
{
    if pairs.len() == 0 {
        assert(lowered(pairs) =~= Seq::empty());
    } else {
        let front = pairs.drop_last();
        lemma_decode_keeps_all(front);
        lemma_decode_len(pairs);
        if let Ok(entries) = decode_pairs(pairs) {
            let before = decode_pairs(front)->Ok_0;
            let (name, value) = pairs.last();
            let entry = (lower_name(name), encode_utf8(value));
            lemma_insert_grouped_keeps(before, entry.0, entry.1);
            assert(lowered(pairs) =~= lowered(front).push(entry));
            vstd::seq_lib::to_multiset_build(lowered(front), entry);
            lemma_lower_is_canonical(name);
            assert forall|i: int| 0 <= i < entries.len() implies canonical_name(
                (#[trigger] entries[i]).0,
            ) by {
                vstd::seq_lib::to_multiset_contains(entries, entries[i]);
                vstd::seq_lib::to_multiset_contains(before, entries[i]);
                if before.contains(entries[i]) {
                    let k = choose|k: int| 0 <= k < before.len() && before[k] == entries[i];
                    assert(canonical_name(before[k].0));
                }
            }
        }
    }
}

/// Wire round trip: pairs that are headers, with text values and the pairs
/// of one name together, read in and sent out again are the pairs they were,
/// except that names are in lower case.
pub proof fn lemma_wire_round_trip(pairs: Seq<(Seq<char>, Seq<char>)>)
    requires
        forall|i: int| 0 <= i < pairs.len() ==> valid_name((#[trigger] pairs[i]).0),
        forall|i: int|
            0 <= i < pairs.len() ==> visible_value(encode_utf8((#[trigger] pairs[i]).1)),
        grouped(lowered(pairs)),
    ensures
        decode_pairs(pairs) == Ok::<_, HeaderFault>(lowered(pairs)),
        encode_entries(lowered(pairs)) == Seq::new(
            pairs.len(),
            |i: int| (lower_name(pairs[i].0), pairs[i].1),
        ),
{
    lemma_decode_grouped_prefix(pairs, pairs.len() as int);
    assert(pairs.take(pairs.len() as int) == pairs);
    assert(lowered(pairs).take(pairs.len() as int) == lowered(pairs));
    let sent = encode_entries(lowered(pairs));
    let kept = Seq::new(pairs.len(), |i: int| (lower_name(pairs[i].0), pairs[i].1));
    assert forall|i: int| 0 <= i < pairs.len() implies sent[i] == kept[i] by {
        let bytes = encode_utf8(pairs[i].1);
        lemma_visible_text(bytes);
        vstd::utf8::encode_utf8_decode_utf8(pairs[i].1);
        vstd::utf8::encode_utf8_decode_utf8(ascii_text(bytes));
    }
    assert(sent =~= kept);
}

proof fn lemma_decode_grouped_prefix(pairs: Seq<(Seq<char>, Seq<char>)>, n: int)
    requires
        forall|i: int| 0 <= i < pairs.len() ==> valid_name((#[trigger] pairs[i]).0),
        forall|i: int|
            0 <= i < pairs.len() ==> visible_value(encode_utf8((#[trigger] pairs[i]).1)),
        grouped(lowered(pairs)),
        0 <= n <= pairs.len(),
    ensures
        decode_pairs(pairs.take(n)) == Ok::<_, HeaderFault>(lowered(pairs).take(n)),
    decreases n,
{
    if n == 0 {
        assert(lowered(pairs).take(0) =~= Seq::empty());
    } else {
        lemma_decode_grouped_prefix(pairs, n - 1);
        assert(pairs.take(n).drop_last() == pairs.take(n - 1));
        assert(pairs.take(n).last() == pairs[n - 1]);
        lemma_visible_text(encode_utf8(pairs[n - 1].1));
        lemma_insert_at_end(lowered(pairs), n - 1);
    }
}

} // verus!
