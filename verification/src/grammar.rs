//! What counts as a header name and a header value, as mathematics.
//!
//! Names are sequences of characters, values are sequences of bytes. A
//! canonical header list is a sequence of (name, value) entries in which the
//! entries of one name stand next to each other.

use vstd::prelude::*;

verus! {

/// Longest header name accepted, in characters.
pub const MAX_NAME_LEN: usize = 65535;

/// An upper-case ASCII letter.
pub open spec fn is_upper(c: char) -> bool {
    'A' <= c <= 'Z'
}

/// A character allowed in a header name: an ASCII letter or digit, or one
/// of ``! # $ % & ' * + - . ^ _ ` | ~``.
pub open spec fn is_name_char(c: char) -> bool {
    ||| 'a' <= c <= 'z'
    ||| 'A' <= c <= 'Z'
    ||| '0' <= c <= '9'
    ||| c == '!'
    ||| c == '#'
    ||| c == '$'
    ||| c == '%'
    ||| c == '&'
    ||| c == '\''
    ||| c == '*'
    ||| c == '+'
    ||| c == '-'
    ||| c == '.'
    ||| c == '^'
    ||| c == '_'
    ||| c == '`'
    ||| c == '|'
    ||| c == '~'
}

/// `c` with an upper-case ASCII letter replaced by its lower-case form.
pub open spec fn lower_char(c: char) -> char {
    if is_upper(c) {
        ((c as u8) + 32) as char
    } else {
        c
    }
}

/// A text that can be a header name: not empty, not longer than
/// [`MAX_NAME_LEN`], made of name characters only.
pub open spec fn valid_name(text: Seq<char>) -> bool {
    &&& 1 <= text.len() <= MAX_NAME_LEN
    &&& forall|i: int| 0 <= i < text.len() ==> is_name_char(#[trigger] text[i])
}

/// `text` with every upper-case ASCII letter folded to lower case.
pub open spec fn lower_name(text: Seq<char>) -> Seq<char> {
    Seq::new(text.len(), |i: int| lower_char(text[i]))
}

/// A header name in canonical form: valid and free of upper-case letters.
pub open spec fn canonical_name(text: Seq<char>) -> bool {
    &&& valid_name(text)
    &&& forall|i: int| 0 <= i < text.len() ==> !is_upper(#[trigger] text[i])
}

/// A byte allowed in a header value: horizontal tab, or anything from
/// space upwards except DEL.
pub open spec fn is_value_byte(b: u8) -> bool {
    (b >= 32 && b != 127) || b == 9
}

/// A byte that can be shown as text: horizontal tab or printable ASCII.
pub open spec fn is_visible_byte(b: u8) -> bool {
    (32 <= b < 127) || b == 9
}

/// Bytes that can be a header value.
pub open spec fn valid_value(bytes: Seq<u8>) -> bool {
    forall|i: int| 0 <= i < bytes.len() ==> is_value_byte(#[trigger] bytes[i])
}

/// Bytes that can be shown as text without loss.
pub open spec fn visible_value(bytes: Seq<u8>) -> bool {
    forall|i: int| 0 <= i < bytes.len() ==> is_visible_byte(#[trigger] bytes[i])
}

/// The characters that ASCII `bytes` stand for, one per byte.
pub open spec fn ascii_text(bytes: Seq<u8>) -> Seq<char> {
    Seq::new(bytes.len(), |i: int| bytes[i] as char)
}

/// Index of the last entry of `entries` named `name`, or -1 where no
/// entry has that name.
pub open spec fn last_named(entries: Seq<(Seq<char>, Seq<u8>)>, name: Seq<char>) -> int
    decreases entries.len(),
{
    if entries.len() == 0 {
        -1
    } else if entries.last().0 == name {
        entries.len() - 1
    } else {
        last_named(entries.drop_last(), name)
    }
}

/// `entries` with one more value for `name`: placed behind the values that
/// `name` already has, or at the very end where the name is new.
pub open spec fn insert_grouped(
    entries: Seq<(Seq<char>, Seq<u8>)>,
    name: Seq<char>,
    value: Seq<u8>,
) -> Seq<(Seq<char>, Seq<u8>)> {
    let last = last_named(entries, name);
    if last < 0 {
        entries.push((name, value))
    } else {
        entries.insert(last + 1, (name, value))
    }
}

/// Where [`last_named`] points: at an entry of that name behind which no
/// entry has the name, or nowhere if no entry has it.
pub proof fn lemma_last_named(entries: Seq<(Seq<char>, Seq<u8>)>, name: Seq<char>)
    ensures
        -1 <= last_named(entries, name) < entries.len(),
        last_named(entries, name) >= 0 ==> entries[last_named(entries, name)].0 == name,
        forall|k: int|
            last_named(entries, name) < k < entries.len() ==> (#[trigger] entries[k]).0 != name,
    decreases entries.len(),
{
    if entries.len() > 0 && entries.last().0 != name {
        lemma_last_named(entries.drop_last(), name);
        assert forall|k: int| last_named(entries, name) < k < entries.len() implies (
        #[trigger] entries[k]).0 != name by {
            if k < entries.len() - 1 {
                assert(entries.drop_last()[k] == entries[k]);
            }
        }
    }
}

/// [`insert_grouped`] adds exactly one entry.
pub proof fn lemma_insert_grouped_len(
    entries: Seq<(Seq<char>, Seq<u8>)>,
    name: Seq<char>,
    value: Seq<u8>,
)
    ensures
        insert_grouped(entries, name, value).len() == entries.len() + 1,
{
    lemma_last_named(entries, name);
}

/// [`insert_grouped`] keeps every entry that was there, adds the new one
/// once, and keeps a grouped list grouped.
pub proof fn lemma_insert_grouped_keeps(
    entries: Seq<(Seq<char>, Seq<u8>)>,
    name: Seq<char>,
    value: Seq<u8>,
)
    requires
        grouped(entries),
    ensures
        grouped(insert_grouped(entries, name, value)),
        insert_grouped(entries, name, value).to_multiset() == entries.to_multiset().insert(
            (name, value),
        ),
{
    lemma_last_named(entries, name);
    let last = last_named(entries, name);
    let at = if last < 0 {
        entries.len() as int
    } else {
        last + 1
    };
    let grown = entries.insert(at, (name, value));
    assert(grown =~= insert_grouped(entries, name, value));
    vstd::seq_lib::to_multiset_insert(entries, at, (name, value));
    assert forall|i: int, k: int, j: int|
        #![trigger grown[i], grown[k], grown[j]]
        0 <= i < k < j < grown.len() && grown[i].0 == grown[j].0 implies grown[k].0
            == grown[i].0 by {
        let oi = if i < at { i } else { i - 1 };
        let ok = if k < at { k } else { k - 1 };
        let oj = if j < at { j } else { j - 1 };
        if i != at {
            assert(grown[i] == entries[oi]);
        }
        if k != at {
            assert(grown[k] == entries[ok]);
        }
        if j != at {
            assert(grown[j] == entries[oj]);
        }
        if i != at && k != at && j != at {
            assert(entries[ok].0 == entries[oi].0);
        } else if j == at {
            if k < last {
                assert(entries[last].0 == entries[i].0);
                assert(entries[k].0 == entries[i].0);
            }
        } else if k == at {
            if i < last {
                assert(entries[last].0 != entries[oj].0);
                assert(entries[last].0 == entries[i].0);
            }
        }
    }
}

/// The entries of one name stand next to each other.
pub open spec fn grouped(entries: Seq<(Seq<char>, Seq<u8>)>) -> bool {
    forall|i: int, k: int, j: int|
        #![trigger entries[i], entries[k], entries[j]]
        0 <= i < k < j < entries.len() && entries[i].0 == entries[j].0 ==> entries[k].0
            == entries[i].0
}

/// Building a grouped list entry by entry, in its own order, puts each
/// entry at the end.
pub proof fn lemma_insert_at_end(entries: Seq<(Seq<char>, Seq<u8>)>, n: int)
    requires
        grouped(entries),
        0 <= n < entries.len(),
    ensures
        insert_grouped(entries.take(n), entries[n].0, entries[n].1) == entries.take(n + 1),
{
    let prefix = entries.take(n);
    let name = entries[n].0;
    lemma_last_named(prefix, name);
    let last = last_named(prefix, name);
    if last >= 0 && last + 1 < n {
        assert(prefix[last] == entries[last]);
        assert(prefix[last + 1] == entries[last + 1]);
        assert(entries[last].0 == entries[n].0);
        assert(entries[last + 1].0 == entries[last].0);
    }
    assert(insert_grouped(prefix, name, entries[n].1) =~= entries.take(n + 1));
}

} // verus!
