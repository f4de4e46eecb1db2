//! The part of JSON that canonical records are written in: texts, unsigned numbers and
//! objects whose members stand in a fixed order, without any space between tokens.

use serde_json::value::RawValue;
use std::collections::BTreeMap;
use vstd::prelude::*;

use crate::text::{decimal, decimal_text, digit_char};

verus! {

/// The JSON text of a string: quoted and escaped.
pub uninterp spec fn json_quoted(text: Seq<char>) -> Seq<u8>;

/// What a JSON text of an object holds: the raw JSON text of each member's value, or the
/// reason why the bytes are no JSON object.
pub uninterp spec fn json_members(bytes: Seq<u8>) -> Result<Map<Seq<char>, Seq<u8>>, Seq<char>>;

/// The string that a JSON text holds, or the reason why it holds none.
pub uninterp spec fn json_string(bytes: Seq<u8>) -> Result<Seq<char>, Seq<char>>;

/// The unsigned 64-bit number that a JSON text holds, or the reason why it holds none.
pub uninterp spec fn json_number(bytes: Seq<u8>) -> Result<u64, Seq<char>>;

/// The JSON text of an unsigned number: its decimal numeral.
pub open spec fn number_text(n: u64) -> Seq<u8> {
    decimal(n as nat).map_values(|c: char| c as u8)
}

/// One member of an object: its quoted name, a colon and its value.
pub open spec fn member_text(member: (Seq<char>, Seq<u8>)) -> Seq<u8> {
    json_quoted(member.0) + seq![58u8] + member.1
}

/// The members of an object, separated by commas.
pub open spec fn members_text(members: Seq<(Seq<char>, Seq<u8>)>) -> Seq<u8>
    decreases members.len(),
{
    if members.len() == 0 {
        Seq::empty()
    } else if members.len() == 1 {
        member_text(members[0])
    } else {
        members_text(members.drop_last()) + seq![44u8] + member_text(members.last())
    }
}

/// The JSON text of an object: its members between braces.
pub open spec fn object_text(members: Seq<(Seq<char>, Seq<u8>)>) -> Seq<u8> {
    seq![123u8] + members_text(members) + seq![125u8]
}

/// No two members have the same name.
pub open spec fn distinct_names(members: Seq<(Seq<char>, Seq<u8>)>) -> bool {
    forall|i: int, j: int|
        0 <= i < j < members.len() ==> (#[trigger] members[i]).0 != (#[trigger] members[j]).0
}

/// A JSON text that is a string or a number.
pub open spec fn is_leaf_text(bytes: Seq<u8>) -> bool {
    ||| exists|text: Seq<char>| bytes == #[trigger] json_quoted(text)
    ||| exists|n: u64| bytes == #[trigger] number_text(n)
}

/// A JSON text that is a string, a number, or an object of strings and numbers.
pub open spec fn is_value_text(bytes: Seq<u8>) -> bool {
    ||| is_leaf_text(bytes)
    ||| exists|members: Seq<(Seq<char>, Seq<u8>)>|
        bytes == #[trigger] object_text(members) && distinct_names(members) && (forall|i: int|
            0 <= i < members.len() ==> is_leaf_text((#[trigger] members[i]).1))
}

/// Members that an object can be written with and read back from.
pub open spec fn writable(members: Seq<(Seq<char>, Seq<u8>)>) -> bool {
    &&& distinct_names(members)
    &&& forall|i: int| 0 <= i < members.len() ==> is_value_text((#[trigger] members[i]).1)
}

/// The members by name.
pub open spec fn member_map(members: Seq<(Seq<char>, Seq<u8>)>) -> Map<Seq<char>, Seq<u8>>
    decreases members.len(),
{
    if members.len() == 0 {
        Map::empty()
    } else {
        member_map(members.drop_last()).insert(members.last().0, members.last().1)
    }
}

/// The contents of named members.
pub open spec fn member_views(members: Seq<(String, Vec<u8>)>) -> Seq<(Seq<char>, Seq<u8>)> {
    members.map_values(|m: (String, Vec<u8>)| (m.0@, m.1@))
}

/// Two byte texts differ at a place that both have, so neither begins with the other.
pub open spec fn differ(a: Seq<u8>, b: Seq<u8>) -> bool {
    exists|i: int| 0 <= i < a.len() && i < b.len() && #[trigger] a[i] != b[i]
}

/// What stands behind a member's value: a comma or a closing brace.
pub open spec fn ends_value(tail: Seq<u8>) -> bool {
    tail.len() > 0 && (tail[0] == 44 || tail[0] == 125)
}

/// Two JSON texts that cannot be taken for each other as members' values: they differ, or
/// the longer one goes on with a byte that ends no value.
pub open spec fn told_apart(a: Seq<u8>, b: Seq<u8>) -> bool {
    ||| a == b
    ||| differ(a, b)
    ||| a.len() < b.len() && !ends_value(b.skip(a.len() as int))
    ||| b.len() < a.len() && !ends_value(a.skip(b.len() as int))
}

/// The JSON text of this string differs from that of every other.
pub open spec fn quotes_apart(text: Seq<char>) -> bool {
    forall|other: Seq<char>|
        other != text ==> differ(json_quoted(text), #[trigger] json_quoted(other))
}

/// Calls `serde_json::to_vec` on a string, which never fails. The escaping is only named,
/// but the text begins with a quotation mark and ends with the only other one that is not
/// escaped. So nothing is lost, and no other string's text is this one or begins with it.
#[verifier::external_body]
pub(crate) fn quote(text: &str) -> (bytes: Vec<u8>)
    ensures
        bytes@ == json_quoted(text@),
        bytes@.len() > 0 && bytes@[0] == 34,
        forall|other: Seq<char>| other != text@ ==> differ(bytes@, #[trigger] json_quoted(other)),
{
    serde_json::to_vec(text).expect("a string is always written")
}

/// Calls `serde_json::from_slice` for a map from strings to raw values. What it gives
/// for arbitrary bytes is only named; a name that is written twice keeps its last
/// value. An object written without spaces, whose names differ, is read back with the
/// raw text of every value as it was written.
#[verifier::external_body]
pub(crate) fn read_object(bytes: &[u8]) -> (read: Result<Vec<(String, Vec<u8>)>, String>)
    ensures
        match read {
            Ok(members) => json_members(bytes@) == Ok::<Map<Seq<char>, Seq<u8>>, Seq<char>>(
                member_map(member_views(members@)),
            ) && distinct_names(member_views(members@)),
            Err(reason) => json_members(bytes@) == Err::<Map<Seq<char>, Seq<u8>>, Seq<char>>(
                reason@,
            ),
        },
        forall|members: Seq<(Seq<char>, Seq<u8>)>|
            writable(members) && bytes@ == #[trigger] object_text(members) ==> {
                &&& read is Ok
                &&& member_map(member_views(read->Ok_0@)) == member_map(members)
            },
{
    let members: BTreeMap<String, Box<RawValue>> =
        serde_json::from_slice(bytes).map_err(|error| error.to_string())?;
    Ok(members.into_iter().map(|(name, value)| (name, value.get().as_bytes().to_vec())).collect())
}

/// Calls `serde_json::from_slice` for a string. The string it gives is only named, but
/// the text that `serde_json::to_vec` writes for a string gives that string, and an
/// object is no string.
#[verifier::external_body]
pub(crate) fn read_string(bytes: &[u8]) -> (read: Result<String, String>)
    ensures
        match read {
            Ok(text) => json_string(bytes@) == Ok::<Seq<char>, Seq<char>>(text@),
            Err(reason) => json_string(bytes@) == Err::<Seq<char>, Seq<char>>(reason@),
        },
        forall|text: Seq<char>|
            bytes@ == #[trigger] json_quoted(text) ==> read is Ok && read->Ok_0@ == text,
        forall|members: Seq<(Seq<char>, Seq<u8>)>|
            bytes@ == #[trigger] object_text(members) ==> read is Err,
{
    serde_json::from_slice(bytes).map_err(|error| error.to_string())
}

/// Calls `serde_json::from_slice` for an unsigned 64-bit number. The number it gives is
/// only named, but a decimal numeral gives its number.
#[verifier::external_body]
pub(crate) fn read_number(bytes: &[u8]) -> (read: Result<u64, String>)
    ensures
        match read {
            Ok(n) => json_number(bytes@) == Ok::<u64, Seq<char>>(n),
            Err(reason) => json_number(bytes@) == Err::<u64, Seq<char>>(reason@),
        },
        forall|n: u64| bytes@ == #[trigger] number_text(n) ==> read is Ok && read->Ok_0 == n,
{
    serde_json::from_slice(bytes).map_err(|error| error.to_string())
}

fn ascii_byte(c: char) -> (byte: u8)
    requires
        c as int <= 127,
    ensures
        byte == c as u8,
{
    c as u8
}

/// Writes an unsigned number.
pub fn write_number(n: u64) -> (bytes: Vec<u8>)
    ensures
        bytes@ == number_text(n),
{
    let text: String = decimal_text(n);
    proof {
        lemma_decimal_is_digits(n as nat);
    }
    let chars: Vec<char> = crate::text::chars_of(text.as_str());
    let mut bytes: Vec<u8> = Vec::new();
    let mut i: usize = 0;
    while i < chars.len()
        invariant
            i <= chars.len(),
            chars@ == decimal(n as nat),
            forall|j: int| 0 <= j < chars@.len() ==> (#[trigger] chars@[j]) as int <= 127,
            bytes@ == chars@.take(i as int).map_values(|c: char| c as u8),
        decreases chars.len() - i,
    {
        let c: char = chars[i];
        assert(chars@[i as int] as int <= 127);
        let ghost before = bytes@;
        bytes.push(ascii_byte(c));
        i = i + 1;
        assert(chars@.take(i as int) =~= chars@.take(i - 1).push(c));
        assert(bytes@ =~= chars@.take(i as int).map_values(|c: char| c as u8));
    }
    assert(chars@.take(chars@.len() as int) =~= chars@);
    bytes
}

/// Two numerals can be told apart, and are the same only for the same number.
pub proof fn lemma_numbers_apart(n: u64, m: u64)
    ensures
        told_apart(number_text(n), number_text(m)),
        number_text(n) == number_text(m) ==> n == m,
{
    let (a, b) = (number_text(n), number_text(m));
    lemma_decimal_is_digits(n as nat);
    lemma_decimal_is_digits(m as nat);
    if !differ(a, b) {
        if a.len() < b.len() {
            assert(b.skip(a.len() as int)[0] == b[a.len() as int]);
            assert(b[a.len() as int] == decimal(m as nat)[a.len() as int] as u8);
        } else if b.len() < a.len() {
            assert(a.skip(b.len() as int)[0] == a[b.len() as int]);
            assert(a[b.len() as int] == decimal(n as nat)[b.len() as int] as u8);
        } else {
            assert(a =~= b);
        }
    }
    if a == b {
        let (x, y) = (decimal(n as nat), decimal(m as nat));
        assert(x.len() == a.len() && y.len() == b.len());
        assert forall|i: int| 0 <= i < x.len() implies x[i] == y[i] by {
            assert(a[i] == x[i] as u8);
            assert(b[i] == y[i] as u8);
        }
        assert(x =~= y);
        lemma_decimal_is_injective(n as nat, m as nat);
    }
}

proof fn lemma_decimal_is_digits(n: nat)
    ensures
        forall|j: int|
            0 <= j < decimal(n).len() ==> 48 <= (#[trigger] decimal(n)[j]) as int <= 57,
        decimal(n).len() > 0,
    decreases n,
{
    if n >= 10 {
        lemma_decimal_is_digits(n / 10);
        assert forall|j: int| 0 <= j < decimal(n).len() implies 48 <= (#[trigger] decimal(
            n,
        )[j]) as int <= 57 by {
            if j < decimal(n / 10).len() {
                assert(decimal(n)[j] == decimal(n / 10)[j]);
            }
        }
    }
}

proof fn lemma_decimal_is_injective(n: nat, m: nat)
    requires
        decimal(n) == decimal(m),
    ensures
        n == m,
    decreases n,
{
    lemma_decimal_is_digits(n / 10);
    lemma_decimal_is_digits(m / 10);
    assert(decimal(n).last() == digit_char(n % 10));
    assert(decimal(m).last() == digit_char(m % 10));
    if n >= 10 && m >= 10 {
        assert(decimal(n).drop_last() =~= decimal(n / 10));
        assert(decimal(m).drop_last() =~= decimal(m / 10));
        lemma_decimal_is_injective(n / 10, m / 10);
    }
}

proof fn lemma_value_ends(a: Seq<u8>, b: Seq<u8>, after_a: Seq<u8>, after_b: Seq<u8>)
    requires
        told_apart(a, b),
        ends_value(after_a),
        ends_value(after_b),
        a + after_a == b + after_b,
    ensures
        a == b,
        after_a == after_b,
{
    let (x, y) = (a + after_a, b + after_b);
    if differ(a, b) {
        let i = choose|i: int| 0 <= i < a.len() && i < b.len() && #[trigger] a[i] != b[i];
        assert(x[i] == a[i] && y[i] == b[i]);
    } else if a.len() < b.len() {
        assert(x[a.len() as int] == after_a[0]);
        assert(y[a.len() as int] == b.skip(a.len() as int)[0]);
    } else if b.len() < a.len() {
        assert(y[b.len() as int] == after_b[0]);
        assert(x[b.len() as int] == a.skip(b.len() as int)[0]);
    }
    assert(after_a =~= x.skip(a.len() as int));
    assert(after_b =~= y.skip(b.len() as int));
}

/// Lists of members with the same names, whose values can be told apart.
pub open spec fn alike(a: Seq<(Seq<char>, Seq<u8>)>, b: Seq<(Seq<char>, Seq<u8>)>) -> bool {
    &&& a.len() == b.len()
    &&& forall|i: int|
        0 <= i < a.len() ==> (#[trigger] a[i]).0 == b[i].0 && told_apart(a[i].1, b[i].1)
}

proof fn lemma_members_determined(
    a: Seq<(Seq<char>, Seq<u8>)>,
    b: Seq<(Seq<char>, Seq<u8>)>,
    after_a: Seq<u8>,
    after_b: Seq<u8>,
)
    requires
        alike(a, b),
        ends_value(after_a),
        ends_value(after_b),
        members_text(a) + after_a == members_text(b) + after_b,
    ensures
        a == b,
        after_a == after_b,
    decreases a.len(),
{
    if a.len() == 0 {
        assert(members_text(a) + after_a =~= after_a);
        assert(members_text(b) + after_b =~= after_b);
        assert(a =~= b);
    } else {
        let (x, y) = (a.last(), b.last());
        let last = a.len() - 1;
        assert(a[last].0 == b[last].0 && told_apart(a[last].1, b[last].1));
        let (from_x, from_y) = (member_text(x) + after_a, member_text(y) + after_b);
        if a.len() == 1 {
            assert(from_x == from_y);
        } else {
            let (rest_a, rest_b) = (seq![44u8] + from_x, seq![44u8] + from_y);
            assert(members_text(a) + after_a =~= members_text(a.drop_last()) + rest_a);
            assert(members_text(b) + after_b =~= members_text(b.drop_last()) + rest_b);
            assert(alike(a.drop_last(), b.drop_last())) by {
                assert forall|i: int| 0 <= i < a.drop_last().len() implies (#[trigger] a.drop_last()[i]).0
                    == b.drop_last()[i].0 && told_apart(a.drop_last()[i].1, b.drop_last()[i].1) by {
                    assert(a[i].0 == b[i].0);
                }
            }
            lemma_members_determined(a.drop_last(), b.drop_last(), rest_a, rest_b);
            assert(rest_a.skip(1) =~= from_x);
            assert(rest_b.skip(1) =~= from_y);
        }
        let name = json_quoted(x.0) + seq![58u8];
        assert(from_x.skip(name.len() as int) =~= x.1 + after_a);
        assert(from_y.skip(name.len() as int) =~= y.1 + after_b);
        lemma_value_ends(x.1, y.1, after_a, after_b);
        assert(a =~= a.drop_last().push(x));
        assert(b =~= b.drop_last().push(y));
        if a.len() == 1 {
            assert(a.drop_last() =~= b.drop_last());
        }
    }
}

proof fn lemma_object_not_longer(a: Seq<(Seq<char>, Seq<u8>)>, b: Seq<(Seq<char>, Seq<u8>)>)
    requires
        alike(a, b),
        !differ(object_text(a), object_text(b)),
        object_text(a).len() <= object_text(b).len(),
    ensures
        a == b,
{
    let (x, y) = (object_text(a), object_text(b));
    let more = y.skip(x.len() as int);
    assert(x + more =~= y);
    let after = seq![125u8] + more;
    assert(members_text(a) + after =~= (x + more).skip(1));
    assert(members_text(b) + seq![125u8] =~= y.skip(1));
    lemma_members_determined(a, b, after, seq![125u8]);
}

/// Objects with the same names, whose values can be told apart, are written the same way
/// only where all of their values are the same; else their texts differ.
pub proof fn lemma_objects_apart(a: Seq<(Seq<char>, Seq<u8>)>, b: Seq<(Seq<char>, Seq<u8>)>)
    requires
        alike(a, b),
    ensures
        a == b || differ(object_text(a), object_text(b)),
{
    let (x, y) = (object_text(a), object_text(b));
    if !differ(x, y) {
        if x.len() <= y.len() {
            lemma_object_not_longer(a, b);
        } else {
            assert(!differ(y, x)) by {
                if differ(y, x) {
                    let i = choose|i: int| 0 <= i < y.len() && i < x.len() && #[trigger] y[i] != x[i];
                    assert(x[i] != y[i]);
                }
            }
            assert(alike(b, a)) by {
                assert forall|i: int| 0 <= i < b.len() implies (#[trigger] b[i]).0 == a[i].0
                    && told_apart(b[i].1, a[i].1) by {
                    assert(a[i].0 == b[i].0 && told_apart(a[i].1, b[i].1));
                    if differ(a[i].1, b[i].1) {
                        let (u, v) = (a[i].1, b[i].1);
                        let k = choose|k: int| 0 <= k < u.len() && k < v.len() && #[trigger] u[k] != v[k];
                        assert(v[k] != u[k]);
                    }
                }
            }
            lemma_object_not_longer(b, a);
        }
    }
}

proof fn lemma_first_member(members: Seq<(Seq<char>, Seq<u8>)>)
    requires
        members.len() > 0,
    ensures
        member_text(members[0]).is_prefix_of(members_text(members)),
    decreases members.len(),
{
    if members.len() > 1 {
        lemma_first_member(members.drop_last());
        assert(members.drop_last()[0] == members[0]);
        let front = members_text(members.drop_last());
        assert(front.is_prefix_of(members_text(members)));
        let first = member_text(members[0]);
        assert(members_text(members).subrange(0, first.len() as int) =~= front.subrange(
            0,
            first.len() as int,
        ));
    } else {
        assert(members_text(members).subrange(0, member_text(members[0]).len() as int)
            =~= member_text(members[0]));
    }
}

/// Objects whose first members have one name and values that differ are written with
/// texts that differ.
pub proof fn lemma_first_members_apart(
    a: Seq<(Seq<char>, Seq<u8>)>,
    b: Seq<(Seq<char>, Seq<u8>)>,
)
    requires
        a.len() > 0,
        b.len() > 0,
        a[0].0 == b[0].0,
        differ(a[0].1, b[0].1),
    ensures
        differ(object_text(a), object_text(b)),
{
    lemma_first_member(a);
    lemma_first_member(b);
    let (u, v) = (a[0].1, b[0].1);
    let k = choose|k: int| 0 <= k < u.len() && k < v.len() && #[trigger] u[k] != v[k];
    let at = json_quoted(a[0].0).len() + 1 + k;
    assert(member_text(a[0])[at] == u[k]);
    assert(member_text(b[0])[at] == v[k]);
    assert(members_text(a)[at] == member_text(a[0])[at]);
    assert(members_text(b)[at] == member_text(b[0])[at]);
    assert(object_text(a)[at + 1] == members_text(a)[at]);
    assert(object_text(b)[at + 1] == members_text(b)[at]);
}

/// Writes an object with these members, in this order.
pub fn write_object(members: &Vec<(String, Vec<u8>)>) -> (bytes: Vec<u8>)
    ensures
        bytes@ == object_text(member_views(members@)),
{
    let ghost all = member_views(members@);
    let mut bytes: Vec<u8> = Vec::new();
    bytes.push(123u8);
    let mut i: usize = 0;
    assert(all.take(0) =~= Seq::<(Seq<char>, Seq<u8>)>::empty());
    while i < members.len()
        invariant
            i <= members.len(),
            all == member_views(members@),
            bytes@ == seq![123u8] + members_text(all.take(i as int)),
        decreases members.len() - i,
    {
        let ghost before = bytes@;
        assert(all.take(i + 1).drop_last() =~= all.take(i as int));
        assert(all.take(i + 1).last() == all[i as int]);
        if i > 0 {
            bytes.push(44u8);
        }
        let name: Vec<u8> = quote(members[i].0.as_str());
        bytes.extend_from_slice(name.as_slice());
        bytes.push(58u8);
        bytes.extend_from_slice(members[i].1.as_slice());
        assert(bytes@ =~= before + (if i > 0 {
            seq![44u8]
        } else {
            Seq::empty()
        }) + member_text(all[i as int]));
        i = i + 1;
        assert(bytes@ =~= seq![123u8] + members_text(all.take(i as int)));
    }
    assert(all.take(all.len() as int) =~= all);
    bytes.push(125u8);
    bytes
}

/// The value of the member `name`, or `None` where the object has no such member.
pub fn member<'a>(members: &'a Vec<(String, Vec<u8>)>, name: &str) -> (value: Option<&'a Vec<u8>>)
    requires
        distinct_names(member_views(members@)),
    ensures
        match value {
            Some(bytes) => member_map(member_views(members@)).contains_pair(name@, bytes@),
            None => !member_map(member_views(members@)).contains_key(name@),
        },
{
    let ghost all = member_views(members@);
    let mut i: usize = 0;
    while i < members.len()
        invariant
            i <= members.len(),
            all == member_views(members@),
            distinct_names(all),
            forall|j: int| 0 <= j < i ==> (#[trigger] all[j]).0 != name@,
        decreases members.len() - i,
    {
        if crate::text::same_text(members[i].0.as_str(), name) {
            proof {
                lemma_member_map(all, name@);
                assert(all[i as int].0 == name@);
            }
            return Some(&members[i].1);
        }
        assert(all[i as int].0 != name@);
        i = i + 1;
    }
    proof {
        lemma_member_map(all, name@);
    }
    None
}

/// A name is in the map exactly where a member has it, and then with that member's value.
pub proof fn lemma_member_map(members: Seq<(Seq<char>, Seq<u8>)>, name: Seq<char>)
    requires
        distinct_names(members),
    ensures
        forall|i: int|
            0 <= i < members.len() && (#[trigger] members[i]).0 == name ==> member_map(
                members,
            ).contains_pair(name, members[i].1),
        (forall|i: int| 0 <= i < members.len() ==> (#[trigger] members[i]).0 != name)
            ==> !member_map(members).contains_key(name),
        member_map(members).dom().finite(),
        member_map(members).len() == members.len(),
    decreases members.len(),
{
    if members.len() > 0 {
        let rest = members.drop_last();
        assert(distinct_names(rest)) by {
            assert forall|i: int, j: int| 0 <= i < j < rest.len() implies (#[trigger] rest[i]).0 != (
            #[trigger] rest[j]).0 by {
                assert(members[i].0 != members[j].0);
            }
        }
        lemma_member_map(rest, name);
        lemma_member_map(rest, members.last().0);
        assert(forall|i: int| 0 <= i < rest.len() ==> rest[i] == members[i]);
        assert(forall|i: int| 0 <= i < rest.len() ==> (#[trigger] rest[i]).0 != members.last().0) by {
            assert forall|i: int| 0 <= i < rest.len() implies (#[trigger] rest[i]).0
                != members.last().0 by {
                assert(members[i].0 != members[members.len() - 1].0);
            }
        }
        assert(!member_map(rest).contains_key(members.last().0));
        assert forall|i: int|
            0 <= i < members.len() && (#[trigger] members[i]).0 == name implies member_map(
            members,
        ).contains_pair(name, members[i].1) by {
            if i < rest.len() {
                assert(rest[i].0 == name);
            }
        }
        if forall|i: int| 0 <= i < members.len() ==> (#[trigger] members[i]).0 != name {
            assert(members[members.len() - 1].0 != name);
            assert forall|i: int| 0 <= i < rest.len() implies (#[trigger] rest[i]).0 != name by {
                assert(members[i].0 != name);
            }
        }
    }
}

/// Where one stands in a JSON text: in how many braces and brackets, in a string or not,
/// behind a backslash or not, and behind how many colons of the outermost object.
pub ghost struct Scan {
    pub depth: int,
    pub in_string: bool,
    pub escaped: bool,
    pub colons: nat,
}

/// Where one stands behind these bytes.
pub open spec fn scanned(bytes: Seq<u8>) -> Scan
    decreases bytes.len(),
{
    if bytes.len() == 0 {
        Scan { depth: 0, in_string: false, escaped: false, colons: 0 }
    } else {
        let before = scanned(bytes.drop_last());
        let byte = bytes.last();
        if before.escaped {
            Scan { escaped: false, ..before }
        } else if before.in_string {
            Scan { escaped: byte == 92, in_string: byte != 34, ..before }
        } else if byte == 34 {
            Scan { in_string: true, ..before }
        } else if byte == 123 || byte == 91 {
            Scan { depth: before.depth + 1, ..before }
        } else if byte == 125 || byte == 93 {
            Scan { depth: before.depth - 1, ..before }
        } else if byte == 58 && before.depth == 1 {
            Scan { colons: before.colons + 1, ..before }
        } else {
            before
        }
    }
}

/// How many members the text of an object writes, counting a doubled name twice: each has
/// one colon that is in no string and in no inner value.
pub open spec fn member_count(bytes: Seq<u8>) -> nat {
    scanned(bytes).colons
}

/// Counts the members that the text of an object writes.
pub fn count_members(bytes: &[u8]) -> (count: usize)
    ensures
        count == member_count(bytes@),
{
    let mut depth: i128 = 0;
    let mut in_string: bool = false;
    let mut escaped: bool = false;
    let mut colons: usize = 0;
    let mut i: usize = 0;
    assert(bytes@.take(0) =~= Seq::<u8>::empty());
    while i < bytes.len()
        invariant
            i <= bytes.len(),
            colons <= i,
            -(i as int) <= depth <= i,
            scanned(bytes@.take(i as int)) == (Scan {
                depth: depth as int,
                in_string,
                escaped,
                colons: colons as nat,
            }),
        decreases bytes.len() - i,
    {
        let byte: u8 = bytes[i];
        assert(bytes@.take(i + 1).drop_last() =~= bytes@.take(i as int));
        assert(bytes@.take(i + 1).last() == byte);
        if escaped {
            escaped = false;
        } else if in_string {
            escaped = byte == 92;
            in_string = byte != 34;
        } else if byte == 34 {
            in_string = true;
        } else if byte == 123 || byte == 91 {
            depth = depth + 1;
        } else if byte == 125 || byte == 93 {
            depth = depth - 1;
        } else if byte == 58 && depth == 1 {
            colons = colons + 1;
        }
        i = i + 1;
    }
    assert(bytes@.take(i as int) =~= bytes@);
    colons
}

/// The string member `name`.
pub open spec fn string_member(members: Map<Seq<char>, Seq<u8>>, name: Seq<char>) -> Option<
    Seq<char>,
> {
    if members.contains_key(name) && json_string(members[name]) is Ok {
        Some(json_string(members[name])->Ok_0)
    } else {
        None
    }
}

/// Reads the string member `name`, or nothing where there is none. A string that was
/// written is read back.
pub fn read_string_member(members: &Vec<(String, Vec<u8>)>, name: &str) -> (text: Option<String>)
    requires
        distinct_names(member_views(members@)),
    ensures
        match text {
            Some(t) => string_member(member_map(member_views(members@)), name@) == Some(t@),
            None => string_member(member_map(member_views(members@)), name@) is None,
        },
        forall|value: Seq<char>|
            member_map(member_views(members@)).contains_pair(name@, #[trigger] json_quoted(value))
                ==> text is Some && text->0@ == value,
{
    match member(members, name) {
        None => None,
        Some(bytes) => match read_string(bytes.as_slice()) {
            Ok(text) => Some(text),
            Err(_) => None,
        },
    }
}

} // verus!
