//! JSON objects whose members are all `u32`, as text, through `serde_json`.

use vstd::prelude::*;
use crate::decimal::{decimal, is_digit};

verus! {

/// A member name that JSON writes without escapes.
pub open spec fn is_plain_char(c: char) -> bool {
    ('a' <= c && c <= 'z') || ('A' <= c && c <= 'Z') || ('0' <= c && c <= '9') || c == '_'
}

pub open spec fn plain_key(k: Seq<char>) -> bool {
    forall|i: int| 0 <= i < k.len() ==> is_plain_char(#[trigger] k[i])
}

/// `a` sorts strictly before `b`, comparing characters one by one.
pub open spec fn key_less(a: Seq<char>, b: Seq<char>) -> bool
    decreases a.len(),
{
    if a.len() == 0 {
        b.len() > 0
    } else if b.len() == 0 {
        false
    } else if a[0] != b[0] {
        (a[0] as u32) < (b[0] as u32)
    } else {
        key_less(a.drop_first(), b.drop_first())
    }
}

/// Members with plain names, in strictly increasing name order.
pub open spec fn ordered_plain(ms: Seq<(Seq<char>, u32)>) -> bool {
    &&& forall|i: int| 0 <= i < ms.len() ==> plain_key(#[trigger] ms[i].0)
    &&& forall|i: int| 0 <= i < ms.len() - 1 ==> key_less(#[trigger] ms[i].0, ms[i + 1].0)
}

pub open spec fn ascii_bytes(k: Seq<char>) -> Seq<u8> {
    k.map_values(|c: char| (c as u32) as u8)
}

/// `"name":value`
pub open spec fn member_text(m: (Seq<char>, u32)) -> Seq<u8> {
    seq![34u8] + ascii_bytes(m.0) + seq![34u8, 58u8] + decimal(m.1 as nat)
}

/// The members, separated by commas.
pub open spec fn members_text(ms: Seq<(Seq<char>, u32)>) -> Seq<u8>
    decreases ms.len(),
{
    if ms.len() == 0 {
        Seq::empty()
    } else if ms.len() == 1 {
        member_text(ms[0])
    } else {
        members_text(ms.drop_last()) + seq![44u8] + member_text(ms.last())
    }
}

/// The compact JSON text of an object: `{"a":1,"b":2}`.
pub open spec fn object_text(ms: Seq<(Seq<char>, u32)>) -> Seq<u8> {
    seq![123u8] + members_text(ms) + seq![125u8]
}

pub open spec fn members_view(v: Seq<(String, u32)>) -> Seq<(Seq<char>, u32)> {
    v.map_values(|m: (String, u32)| (m.0@, m.1))
}

/// The value of the first member named `k`.
pub open spec fn lookup(ms: Seq<(Seq<char>, u32)>, k: Seq<char>) -> Option<u32>
    decreases ms.len(),
{
    if ms.len() == 0 {
        None
    } else if ms[0].0 == k {
        Some(ms[0].1)
    } else {
        lookup(ms.drop_first(), k)
    }
}

/// The members, in name order, of the JSON object that `b` holds, where `b`
/// holds one whose values are all `u32`.
pub uninterp spec fn parsed_u32_object(b: Seq<u8>) -> Option<Seq<(Seq<char>, u32)>>;

/// Relies on `serde_json::to_vec` over a `BTreeMap<String, u32>`: the compact
/// formatter writes `{`, the members in map order separated by `,`, each as the
/// quoted name (plain names need no escape), `:` and the value in decimal
/// (itoa), then `}`. A map with string keys always serializes.
#[verifier::external_body]
pub(crate) fn object_to_json(members: &Vec<(String, u32)>) -> (r: Vec<u8>)
    requires
        ordered_plain(members_view(members@)),
    ensures
        r@ == object_text(members_view(members@)),
{
    let map: std::collections::BTreeMap<String, u32> = members.iter().cloned().collect();
    serde_json::to_vec(&map).unwrap_or_default()
}

/// Relies on `serde_json::from_slice` into a `BTreeMap<String, u32>`: it
/// succeeds on the text of a JSON object whose values are all `u32`, and the
/// map's entries come out in name order; the compact text of an object gives
/// its members back.
#[verifier::external_body]
pub(crate) fn json_to_object(b: &[u8]) -> (r: Option<Vec<(String, u32)>>)
    ensures
        r is Some ==> parsed_u32_object(b@) == Some(members_view(r->0@)),
        r is None ==> parsed_u32_object(b@) is None,
        forall|ms: Seq<(Seq<char>, u32)>|
            ordered_plain(ms) && b@ == #[trigger] object_text(ms) ==> r is Some && members_view(
                r->0@,
            ) == ms,
{
    serde_json::from_slice::<std::collections::BTreeMap<String, u32>>(b).ok().map(
        |m| m.into_iter().collect(),
    )
}

/// The value of the first member named `key`.
pub fn member_value(members: &Vec<(String, u32)>, key: &String) -> (r: Option<u32>)
    ensures
        r == lookup(members_view(members@), key@),
{
    let ghost ms = members_view(members@);
    let mut i: usize = 0;
    assert(ms.subrange(0, ms.len() as int) =~= ms);
    while i < members.len()
        invariant
            i <= members.len(),
            ms == members_view(members@),
            lookup(ms, key@) == lookup(ms.subrange(i as int, ms.len() as int), key@),
        decreases members.len() - i,
    {
        let ghost rest = ms.subrange(i as int, ms.len() as int);
        assert(rest.drop_first() =~= ms.subrange(i + 1, ms.len() as int));
        assert(rest[0] == (members@[i as int].0@, members@[i as int].1));
        if members[i].0 == *key {
            return Some(members[i].1);
        }
        i = i + 1;
    }
    assert(ms.subrange(i as int, ms.len() as int).len() == 0);
    None
}

pub proof fn lemma_decimal_digits(n: nat)
    ensures
        forall|i: int| 0 <= i < decimal(n).len() ==> is_digit(#[trigger] decimal(n)[i]),
        decimal(n).len() > 0,
    decreases n,
{
    if n >= 10 {
        lemma_decimal_digits(n / 10);
    }
}

/// Object text holds no line feed.
pub proof fn lemma_object_text_one_line(ms: Seq<(Seq<char>, u32)>)
    requires
        ordered_plain(ms),
    ensures
        forall|i: int| 0 <= i < object_text(ms).len() ==> #[trigger] object_text(ms)[i] != 10,
{
    lemma_members_text_one_line(ms);
}

proof fn lemma_members_text_one_line(ms: Seq<(Seq<char>, u32)>)
    requires
        ordered_plain(ms),
    ensures
        forall|i: int| 0 <= i < members_text(ms).len() ==> #[trigger] members_text(ms)[i] != 10,
    decreases ms.len(),
{
    if ms.len() > 0 {
        let m = ms.last();
        assert(plain_key(ms[ms.len() - 1].0));
        lemma_decimal_digits(m.1 as nat);
        let t = member_text(m);
        assert forall|i: int| 0 <= i < t.len() implies #[trigger] t[i] != 10 by {
            let k = ascii_bytes(m.0);
            if 1 <= i < 1 + k.len() {
                assert(is_plain_char(m.0[i - 1]));
            }
        }
        let whole = members_text(ms);
        if ms.len() == 1 {
            assert(whole == t);
        } else {
            let p = ms.drop_last();
            assert(ordered_plain(p));
            lemma_members_text_one_line(p);
            let mp = members_text(p);
            assert(whole == mp + seq![44u8] + t);
            assert forall|i: int| 0 <= i < whole.len() implies #[trigger] whole[i] != 10 by {
                if i < mp.len() {
                    assert(whole[i] == mp[i]);
                } else if i > mp.len() {
                    assert(whole[i] == t[i - mp.len() - 1]);
                }
            }
        }
    }
}

} // verus!
