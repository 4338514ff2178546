use vstd::prelude::*;

verus! {

#[verifier::external_type_specification]
#[verifier::external_body]
pub struct ExGitError(git2::Error);

pub open spec fn is_hex_digit(c: char) -> bool {
    ('0' <= c && c <= '9') || ('a' <= c && c <= 'f') || ('A' <= c && c <= 'F')
}

pub open spec fn hex_value(c: char) -> int {
    if '0' <= c && c <= '9' {
        c as int - '0' as int
    } else if 'a' <= c && c <= 'f' {
        c as int - 'a' as int + 10
    } else if 'A' <= c && c <= 'F' {
        c as int - 'A' as int + 10
    } else {
        0
    }
}

/// A commit identifier as git accepts it: one to forty hexadecimal digits.
pub open spec fn is_revision_id(s: Seq<char>) -> bool {
    &&& 0 < s.len() <= 40
    &&& forall|i: int| 0 <= i < s.len() ==> is_hex_digit(#[trigger] s[i])
}

/// The value of digit `p` of `s`, zero past its end.
pub open spec fn nibble(s: Seq<char>, p: int) -> int {
    if 0 <= p < s.len() {
        hex_value(s[p])
    } else {
        0
    }
}

/// The twenty bytes of the object id that `s` spells, padded with zero digits.
pub open spec fn revision_bytes(s: Seq<char>) -> Seq<u8> {
    Seq::new(20, |k: int| (nibble(s, 2 * k) * 16 + nibble(s, 2 * k + 1)) as u8)
}

/// Relies on git2::Oid::from_str (libgit2's git_oid_fromstrn): it accepts one
/// to forty hex digits, fills the id two digits per byte and pads with zeros;
/// the id is handed on as its bytes (Oid::as_bytes, twenty for SHA-1).
#[verifier::external_body]
fn oid_from_str(s: &str) -> (r: Result<Vec<u8>, git2::Error>)
    ensures
        r.is_ok() <==> is_revision_id(s@),
        r matches Ok(b) ==> b@ == revision_bytes(s@),
{
    git2::Oid::from_str(s).map(|oid| oid.as_bytes().to_vec())
}

/// The object id named by `rev`, or `None` when `rev` does not name one.
pub fn parse_revision(rev: &str) -> (r: Option<Vec<u8>>)
    ensures
        r is Some <==> is_revision_id(rev@),
        r matches Some(b) ==> b@ == revision_bytes(rev@),
{
    match oid_from_str(rev) {
        Ok(bytes) => Some(bytes),
        Err(_) => None,
    }
}

} // verus!
