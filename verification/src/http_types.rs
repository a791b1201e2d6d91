//! The types this crate borrows from `http` and `url`, and what it takes as
//! given about them.
//!
//! Nothing in this file is proved. Each item states, over plain sequences,
//! what the named function of the other crate does; the rest of the crate is
//! verified against these statements.

use crate::grammar::{
    ascii_text, grouped, insert_grouped, is_value_byte, last_named, lower_name, valid_name,
    visible_value,
};
use http::header::{InvalidHeaderName, InvalidHeaderValue, MaxSizeReached, ToStrError};
use http::{HeaderMap, HeaderName, HeaderValue, Method};
use std::str::FromStr;
use url::Url;
use vstd::prelude::*;
use vstd::string::StringSliceAdditionalSpecFns;

verus! {

#[verifier::external_type_specification]
#[verifier::external_body]
#[verifier::reject_recursive_types(T)]
pub struct ExHeaderMap<T>(HeaderMap<T>);

#[verifier::external_type_specification]
#[verifier::external_body]
pub struct ExHeaderName(HeaderName);

#[verifier::external_type_specification]
#[verifier::external_body]
pub struct ExHeaderValue(HeaderValue);

#[verifier::external_type_specification]
#[verifier::external_body]
pub struct ExMethod(Method);

#[verifier::external_type_specification]
#[verifier::external_body]
pub struct ExUrl(Url);

#[verifier::external_type_specification]
#[verifier::external_body]
pub struct ExInvalidHeaderName(InvalidHeaderName);

#[verifier::external_type_specification]
#[verifier::external_body]
pub struct ExInvalidHeaderValue(InvalidHeaderValue);

#[verifier::external_type_specification]
#[verifier::external_body]
pub struct ExToStrError(ToStrError);

#[verifier::external_type_specification]
#[verifier::external_body]
pub struct ExMaxSizeReached(MaxSizeReached);

/// A header map never refuses a new entry while it holds at most this many.
pub const ASSURED_ENTRIES: usize = 6553;

/// The entries of a header map, in the order in which the map yields them.
pub uninterp spec fn header_entries(map: HeaderMap) -> Seq<(Seq<char>, Seq<u8>)>;

/// The text of a header name.
pub uninterp spec fn header_name_text(name: HeaderName) -> Seq<char>;

/// The bytes of a header value.
pub uninterp spec fn header_value_bytes(value: HeaderValue) -> Seq<u8>;

/// The canonical text of an HTTP method, such as `GET`.
pub uninterp spec fn method_text(method: Method) -> Seq<char>;

/// The serialisation of a parsed URL.
pub uninterp spec fn url_text(url: Url) -> Seq<char>;

/// What a list of owned (name, value) pairs stands for.
pub open spec fn entry_seq(pairs: Seq<(HeaderName, HeaderValue)>) -> Seq<(Seq<char>, Seq<u8>)> {
    Seq::new(
        pairs.len(),
        |i: int| (header_name_text(pairs[i].0), header_value_bytes(pairs[i].1)),
    )
}

/// `Method::as_str`: the method's canonical text.
pub assume_specification[ http::Method::as_str ](method: &http::Method) -> (text: &str)
    ensures
        text@ == method_text(*method),
;

/// `Url::as_str`: the URL's serialisation.
pub assume_specification[ url::Url::as_str ](url: &url::Url) -> (text: &str)
    ensures
        text@ == url_text(*url),
;

/// `HeaderName::as_str`: the name's text.
pub assume_specification[ HeaderName::as_str ](name: &HeaderName) -> (text: &str)
    ensures
        text@ == header_name_text(*name),
;

/// `HeaderName::from_str`: accepts exactly the valid names, and folds the
/// accepted text to lower case.
pub assume_specification[ <HeaderName as FromStr>::from_str ](text: &str) -> (parsed: Result<
    HeaderName,
    InvalidHeaderName,
>)
    ensures
        parsed is Ok <==> valid_name(text@),
        parsed matches Ok(name) ==> header_name_text(name) == lower_name(text@),
;

/// `HeaderValue::from_str`: accepts exactly the texts whose UTF-8 bytes are
/// all value bytes, and keeps those bytes as they are.
pub assume_specification[ HeaderValue::from_str ](text: &str) -> (parsed: Result<
    HeaderValue,
    InvalidHeaderValue,
>)
    ensures
        parsed is Ok <==> (forall|i: int|
            0 <= i < text.spec_bytes().len() ==> is_value_byte(#[trigger] text.spec_bytes()[i])),
        parsed matches Ok(value) ==> header_value_bytes(value) == text.spec_bytes(),
;

/// `HeaderValue::to_str`: the value as text where every byte is visible
/// ASCII, and a failure otherwise.
pub assume_specification[ HeaderValue::to_str ](value: &HeaderValue) -> (shown: Result<
    &str,
    ToStrError,
>)
    ensures
        shown is Ok <==> visible_value(header_value_bytes(*value)),
        shown matches Ok(text) ==> text@ == ascii_text(header_value_bytes(*value)),
;

/// `HeaderMap::new`: a map without entries.
pub assume_specification[ HeaderMap::<HeaderValue>::new ]() -> (map: HeaderMap)
    ensures
        header_entries(map) == Seq::<(Seq<char>, Seq<u8>)>::empty(),
;

/// `HeaderMap::try_append`: on success the value joins the values that the
/// name already has, or opens a new entry at the end, and the result tells
/// whether the name was present. On failure the map is as before.
///
/// The map refuses an entry only when its table would have to grow beyond
/// 32768 slots, which takes more than [`ASSURED_ENTRIES`] distinct names.
#[verifier::external_body]
pub(crate) fn try_append(map: &mut HeaderMap, name: HeaderName, value: HeaderValue) -> (outcome:
    Result<bool, MaxSizeReached>)
    ensures
        outcome is Ok ==> header_entries(*final(map)) == insert_grouped(
            header_entries(*old(map)),
            header_name_text(name),
            header_value_bytes(value),
        ),
        outcome matches Ok(present) ==> present == (last_named(
            header_entries(*old(map)),
            header_name_text(name),
        ) >= 0),
        outcome is Err ==> header_entries(*final(map)) == header_entries(*old(map)),
        header_entries(*old(map)).len() <= ASSURED_ENTRIES ==> outcome is Ok,
{
    map.try_append(name, value)
}

/// `HeaderMap::iter`: every entry of the map as an owned pair, in the map's
/// own order, in which the values of one name follow each other.
#[verifier::external_body]
pub(crate) fn entries_of(map: &HeaderMap) -> (pairs: Vec<(HeaderName, HeaderValue)>)
    ensures
        entry_seq(pairs@) == header_entries(*map),
        grouped(entry_seq(pairs@)),
{
    map.iter().map(|(name, value)| (name.clone(), value.clone())).collect()
}

} // verus!
