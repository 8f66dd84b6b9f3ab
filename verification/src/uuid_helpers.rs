use vstd::prelude::*;

verus! {

/// A digit of a lower-case hexadecimal number.
pub open spec fn is_hex(c: char) -> bool {
    ('0' <= c <= '9') || ('a' <= c <= 'f')
}

/// The text of a random UUID of version 4: 36 characters, hyphens at the
/// places 8, 13, 18 and 23 and lower-case hexadecimal digits elsewhere, the
/// digit `4` at place 14 for the version, and one of `8`, `9`, `a`, `b` at
/// place 19 for the variant.
pub open spec fn is_uuid_v4(text: Seq<char>) -> bool {
    &&& text.len() == 36
    &&& forall|i: int|
        0 <= i < 36 ==> if i == 8 || i == 13 || i == 18 || i == 23 {
            #[trigger] text[i] == '-'
        } else {
            is_hex(text[i])
        }
    &&& text[14] == '4'
    &&& (text[19] == '8' || text[19] == '9' || text[19] == 'a' || text[19] == 'b')
}

/// `uuid::Uuid::new_v4`, printed by `Display`: a new random UUID in its
/// hyphenated lower-case form. Which one is chance; every one has the form
/// that [`is_uuid_v4`] says.
#[verifier::external_body]
fn new_v4_text() -> (r: String)
    ensures
        is_uuid_v4(r@),
{
    uuid::Uuid::new_v4().to_string()
}

/// The helper `uuid_new_v4`: the text of a new random UUID.
pub fn uuid_new_v4_fct() -> (r: String)
    ensures
        is_uuid_v4(r@),
{
    new_v4_text()
}

/// The helper `uuid_new_v7`: the text of a new random UUID, of version 4 as
/// well.
pub fn uuid_new_v7_fct() -> (r: String)
    ensures
        is_uuid_v4(r@),
{
    new_v4_text()
}

} // verus!
