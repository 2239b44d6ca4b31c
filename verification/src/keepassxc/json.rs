//! Compact JSON text, written the way serde_json writes it: objects and
//! arrays with their items separated by `,` and no whitespace.

use vstd::prelude::*;
use crate::keepassxc::encoding::{json_string, spec_json_string};

verus! {

/// The texts of a sequence of strings.
pub open spec fn texts(v: Seq<String>) -> Seq<Seq<char>> {
    v.map_values(|s: String| s@)
}

/// The items, separated by commas.
pub open spec fn joined(items: Seq<Seq<char>>) -> Seq<char>
    decreases items.len(),
{
    if items.len() == 0 {
        Seq::empty()
    } else if items.len() == 1 {
        items[0]
    } else {
        joined(items.drop_last()) + seq![','] + items.last()
    }
}

/// A JSON object with the given members, each already written as `"key":value`.
pub open spec fn object(members: Seq<Seq<char>>) -> Seq<char> {
    seq!['{'] + joined(members) + seq!['}']
}

/// A JSON array with the given items, each already written as JSON.
pub open spec fn array(items: Seq<Seq<char>>) -> Seq<char> {
    seq!['['] + joined(items) + seq![']']
}

/// An object member: the key as a JSON string, a colon, then the value's JSON.
pub open spec fn member(key: Seq<char>, value: Seq<char>) -> Seq<char> {
    spec_json_string(key) + seq![':'] + value
}

/// An object member whose value is a JSON string.
pub open spec fn string_member(key: Seq<char>, value: Seq<char>) -> Seq<char> {
    member(key, spec_json_string(value))
}

/// The items of `items`, separated by commas.
pub fn join_items(items: &Vec<String>) -> (r: String)
    ensures
        r@ == joined(texts(items@)),
{
    let mut out = String::new();
    let n = items.len();
    let mut i: usize = 0;
    while i < n
        invariant
            n == items@.len(),
            i <= n,
            out@ == joined(texts(items@).take(i as int)),
        decreases n - i,
    {
        proof {
            reveal_strlit(",");
            assert(texts(items@).take(i + 1).drop_last() =~= texts(items@).take(i as int));
        }
        if i > 0 {
            out.append(",");
        }
        out.append(items[i].as_str());
        proof {
            if i == 0 {
                assert(out@ =~= joined(texts(items@).take(1)));
            } else {
                assert(out@ =~= joined(texts(items@).take(i + 1)));
            }
        }
        i = i + 1;
    }
    assert(texts(items@).take(n as int) =~= texts(items@));
    out
}

/// The JSON object with the given members.
pub fn object_of(members: &Vec<String>) -> (r: String)
    ensures
        r@ == object(texts(members@)),
{
    let mut out = String::new();
    out.append("{");
    out.append(join_items(members).as_str());
    out.append("}");
    proof {
        reveal_strlit("{");
        reveal_strlit("}");
        assert(out@ =~= object(texts(members@)));
    }
    out
}

/// The JSON array with the given items.
pub fn array_of(items: &Vec<String>) -> (r: String)
    ensures
        r@ == array(texts(items@)),
{
    let mut out = String::new();
    out.append("[");
    out.append(join_items(items).as_str());
    out.append("]");
    proof {
        reveal_strlit("[");
        reveal_strlit("]");
        assert(out@ =~= array(texts(items@)));
    }
    out
}

/// The member `"key":value`, where `value` is already JSON.
pub fn member_of(key: &str, value: &str) -> (r: String)
    ensures
        r@ == member(key@, value@),
{
    let mut out = json_string(key);
    out.append(":");
    out.append(value);
    proof {
        reveal_strlit(":");
        assert(out@ =~= member(key@, value@));
    }
    out
}

/// The member `"key":"value"`, with `value` written as a JSON string.
pub fn string_member_of(key: &str, value: &str) -> (r: String)
    ensures
        r@ == string_member(key@, value@),
{
    let quoted = json_string(value);
    member_of(key, quoted.as_str())
}

} // verus!
