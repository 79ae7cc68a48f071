//! The JSON texts that are written into contract events.

use vstd::prelude::*;

verus! {

/// Text that stands in a JSON string as it is.
pub open spec fn needs_no_escape(s: Seq<char>) -> bool {
    forall|i: int|
        0 <= i < s.len() ==> (#[trigger] s[i]) != '"' && s[i] != '\\' && ' ' <= s[i]
}

/// `a` comes before `b` in the order of strings.
pub open spec fn comes_before(a: Seq<char>, b: Seq<char>) -> bool {
    exists|k: int| #[trigger] differ_first_at(a, b, k)
}

/// `a` and `b` agree before `k`, and there `a` ends or has the smaller character.
pub open spec fn differ_first_at(a: Seq<char>, b: Seq<char>, k: int) -> bool {
    &&& 0 <= k <= a.len()
    &&& k < b.len()
    &&& a.take(k) == b.take(k)
    &&& k == a.len() || a[k] < b[k]
}

/// A JSON string of text that needs no escape.
pub open spec fn quoted(s: Seq<char>) -> Seq<char> {
    seq!['"'] + s + seq!['"']
}

/// The members of an object, keys with the text of their values, separated by
/// commas.
pub open spec fn members_text(members: Seq<(Seq<char>, Seq<char>)>) -> Seq<char>
    decreases members.len(),
{
    if members.len() == 0 {
        Seq::empty()
    } else {
        let last = quoted(members.last().0) + seq![':'] + members.last().1;
        if members.len() == 1 {
            last
        } else {
            members_text(members.drop_last()) + seq![','] + last
        }
    }
}

/// A JSON object without white space.
pub open spec fn object_text(members: Seq<(Seq<char>, Seq<char>)>) -> Seq<char> {
    seq!['{'] + members_text(members) + seq!['}']
}

/// The keys need no escape and stand in strictly ascending order.
pub open spec fn has_plain_sorted_keys(members: Seq<(Seq<char>, Seq<char>)>) -> bool {
    &&& forall|i: int| 0 <= i < members.len() ==> needs_no_escape(#[trigger] members[i].0)
    &&& forall|i: int, j: int|
        0 <= i < j < members.len() ==> comes_before(
            #[trigger] members[i].0,
            #[trigger] members[j].0,
        )
}

/// Members whose values are numbers, with the text of the numbers.
pub open spec fn number_members(members: Seq<(&str, u64)>) -> Seq<(Seq<char>, Seq<char>)> {
    members.map_values(|m: (&str, u64)| (m.0@, crate::text::decimal(m.1 as nat)))
}

/// A `serde_json` object of numbers, as `Value::to_string` prints it: without
/// white space and with the keys in ascending order. Nothing is said of keys
/// that are given out of order or need an escape.
#[verifier::external_body]
pub(crate) fn number_object(members: &Vec<(&str, u64)>) -> (r: String)
    ensures
        has_plain_sorted_keys(number_members(members@)) ==> r@ == object_text(
            number_members(members@),
        ),
{
    let map = members.iter().map(|m| (m.0.to_string(), serde_json::Value::from(m.1))).collect();
    serde_json::Value::Object(map).to_string()
}

/// Members whose values are texts, with the texts in quotes.
pub open spec fn text_members(members: Seq<(&str, &str)>) -> Seq<(Seq<char>, Seq<char>)> {
    members.map_values(|m: (&str, &str)| (m.0@, quoted(m.1@)))
}

/// The keys are plain and sorted and the values need no escape.
pub open spec fn is_plain_record(members: Seq<(&str, &str)>) -> bool {
    &&& has_plain_sorted_keys(text_members(members))
    &&& forall|i: int| 0 <= i < members.len() ==> needs_no_escape((#[trigger] members[i]).1@)
}

/// The elements of an array of objects, separated by commas.
pub open spec fn records_text(records: Seq<Vec<(&str, &str)>>) -> Seq<char>
    decreases records.len(),
{
    if records.len() == 0 {
        Seq::empty()
    } else {
        let last = object_text(text_members(records.last()@));
        if records.len() == 1 {
            last
        } else {
            records_text(records.drop_last()) + seq![','] + last
        }
    }
}

/// A `serde_json` array of objects of strings, as `Value::to_string` prints it:
/// without white space and with the keys in ascending order. Nothing is said of
/// keys that are given out of order and of texts that need an escape.
#[verifier::external_body]
pub(crate) fn record_array(records: &Vec<Vec<(&str, &str)>>) -> (r: String)
    ensures
        (forall|i: int| 0 <= i < records@.len() ==> is_plain_record((#[trigger] records@[i])@))
            ==> r@ == seq!['['] + records_text(records@) + seq![']'],
{
    let objects = records.iter().map(
        |o|
            serde_json::Value::Object(
                o.iter().map(|m| (m.0.to_string(), serde_json::Value::from(m.1))).collect(),
            ),
    );
    serde_json::Value::Array(objects.collect()).to_string()
}

} // verus!
