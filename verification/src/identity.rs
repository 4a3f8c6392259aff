//! What a completion is identified by: its id and the time of its making.

use crate::text::{concat, other_than, remove_char, without};
use vstd::prelude::*;

verus! {

/// A digit of a hexadecimal number, in lower case.
pub open spec fn is_hex_digit(c: char) -> bool {
    '0' <= c <= '9' || 'a' <= c <= 'f'
}

/// Whether a hyphen stands at this place of a UUID.
pub open spec fn is_hyphen_place(i: int) -> bool {
    i == 8 || i == 13 || i == 18 || i == 23
}

/// The hyphenated text of a random UUID: 32 hexadecimal digits in five groups, of
/// which two places tell the version and the variant.
pub open spec fn is_uuid_text(s: Seq<char>) -> bool {
    &&& s.len() == 36
    &&& forall|i: int|
        0 <= i < 36 ==> if is_hyphen_place(i) {
            #[trigger] s[i] == '-'
        } else {
            is_hex_digit(s[i])
        }
    &&& s[14] == '4'
    &&& s[19] == '8' || s[19] == '9' || s[19] == 'a' || s[19] == 'b'
}

/// The id of a completion, made from another id without its hyphens.
pub open spec fn chat_id_of(id: Seq<char>) -> Seq<char> {
    "chatcmpl_"@ + without(id, '-')
}

/// Whether an id of a completion was made from a random UUID.
pub open spec fn is_fresh_chat_id(id: Seq<char>) -> bool {
    exists|uuid: Seq<char>| is_uuid_text(uuid) && id == chat_id_of(uuid)
}

/// `uuid::Uuid::new_v4`, as text: some random UUID in lower case with hyphens.
/// Which one it is, no clause tells.
#[verifier::external_body]
fn new_uuid_text() -> (r: String)
    ensures
        is_uuid_text(r@),
{
    uuid::Uuid::new_v4().to_string()
}

/// `chrono::Utc::now`, as a Unix timestamp. Nothing is claimed of the time.
#[verifier::external_body]
pub(crate) fn now_timestamp() -> (r: i64) {
    chrono::Utc::now().timestamp()
}

/// The id of a completion, made from another id.
pub fn make_chat_id(id: &str) -> (r: String)
    ensures
        r@ == chat_id_of(id@),
{
    concat("chatcmpl_", remove_char(id, '-').as_str())
}

/// An id for a completion that has none.
pub(crate) fn fresh_chat_id() -> (r: String)
    ensures
        is_fresh_chat_id(r@),
{
    let uuid = new_uuid_text();
    make_chat_id(uuid.as_str())
}

/// Where the character does not occur, nothing is left out.
proof fn lemma_without_none(s: Seq<char>, c: char)
    requires
        forall|i: int| 0 <= i < s.len() ==> s[i] != c,
    ensures
        without(s, c) == s,
    decreases s.len(),
{
    reveal(Seq::filter);
    if s.len() > 0 {
        lemma_without_none(s.drop_last(), c);
        assert(s.drop_last().push(s.last()) =~= s);
    }
}

/// The character between two texts is left out.
proof fn lemma_without_between(a: Seq<char>, b: Seq<char>, c: char)
    requires
        forall|i: int| 0 <= i < b.len() ==> b[i] != c,
    ensures
        without(a.push(c) + b, c) == without(a, c) + b,
{
    let f = other_than(c);
    Seq::filter_distributes_over_add(a.push(c), b, f);
    lemma_without_none(b, c);
    assert(a.push(c).filter(f) =~= a.filter(f)) by {
        reveal(Seq::filter);
        assert(a.push(c).drop_last() =~= a);
    }
}

/// A made-up id is the prefix and the 32 hexadecimal digits of a UUID, without a
/// hyphen.
pub proof fn law_fresh_chat_id_form(id: Seq<char>)
    requires
        is_fresh_chat_id(id),
    ensures
        id.len() == "chatcmpl_"@.len() + 32,
        id.take("chatcmpl_"@.len() as int) == "chatcmpl_"@,
        forall|i: int| "chatcmpl_"@.len() <= i < id.len() ==> is_hex_digit(#[trigger] id[i]),
{
    let u = choose|uuid: Seq<char>| is_uuid_text(uuid) && id == chat_id_of(uuid);
    let a = u.subrange(0, 8);
    let b = u.subrange(9, 13);
    let c = u.subrange(14, 18);
    let d = u.subrange(19, 23);
    let e = u.subrange(24, 36);
    lemma_without_none(a, '-');
    lemma_without_between(a, b, '-');
    lemma_without_between(u.take(13), c, '-');
    lemma_without_between(u.take(18), d, '-');
    lemma_without_between(u.take(23), e, '-');
    assert(u.take(13) =~= a.push('-') + b);
    assert(u.take(18) =~= u.take(13).push('-') + c);
    assert(u.take(23) =~= u.take(18).push('-') + d);
    assert(u =~= u.take(23).push('-') + e);
    assert(id =~= "chatcmpl_"@ + (a + b + c + d + e));
}

} // verus!
