//! Fresh record ids.
use vstd::prelude::*;

verus! {

/// A lower-case hexadecimal digit.
pub open spec fn is_hex(c: char) -> bool {
    '0' <= c <= '9' || 'a' <= c <= 'f'
}

/// The hyphenated lower-case form of a random (version 4) UUID, such as
/// `67e55044-10b1-426f-9247-bb680e5fe0c8`.
pub open spec fn is_uuid_v4(text: Seq<char>) -> bool {
    &&& text.len() == 36
    &&& forall|i: int|
        #![trigger text[i]]
        0 <= i < 36 ==> if i == 8 || i == 13 || i == 18 || i == 23 {
            text[i] == '-'
        } else {
            is_hex(text[i])
        }
    &&& text[14] == '4'
    &&& text[19] == '8' || text[19] == '9' || text[19] == 'a' || text[19] == 'b'
}

/// Draws a fresh id with `uuid::Uuid::new_v4` and writes it out with the
/// `Display` of `uuid::Uuid`.
///
/// Claimed of every outcome: the text has the hyphenated lower-case form, with
/// the version and variant digits of a random UUID. The other digits come from
/// the operating system's random numbers, so nothing is claimed of them, and
/// not that two draws differ. The call panics where the operating system gives
/// no random numbers.
#[verifier::external_body]
fn new_uuid() -> (id: String)
    ensures
        is_uuid_v4(id@),
{
    uuid::Uuid::new_v4().to_string()
}

/// Draws `count` fresh ids.
pub fn fresh_ids(count: usize) -> (ids: Vec<String>)
    ensures
        ids@.len() == count,
        forall|i: int| 0 <= i < count ==> is_uuid_v4(#[trigger] ids@[i]@),
{
    let mut ids: Vec<String> = Vec::new();
    while ids.len() < count
        invariant
            ids@.len() <= count,
            forall|i: int| 0 <= i < ids@.len() ==> is_uuid_v4(#[trigger] ids@[i]@),
        decreases count - ids@.len(),
    {
        ids.push(new_uuid());
    }
    ids
}

/// A fresh id is 36 characters in five groups of 8, 4, 4, 4 and 12 lower-case
/// hexadecimal digits, joined by hyphens, with the version digit 4.
pub proof fn law_uuid_form(text: Seq<char>)
    requires
        is_uuid_v4(text),
    ensures
        text.len() == 36,
        text[8] == '-' && text[13] == '-' && text[18] == '-' && text[23] == '-',
        text[14] == '4',
        text[19] == '8' || text[19] == '9' || text[19] == 'a' || text[19] == 'b',
        forall|i: int|
            0 <= i < 36 && i != 8 && i != 13 && i != 18 && i != 23 ==> ('0' <= #[trigger] text[i]
                <= '9' || 'a' <= text[i] <= 'f'),
{
}

} // verus!
