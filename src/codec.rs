use vstd::prelude::*;

verus! {

/// The decimal digit `d` as a character.
pub open spec fn digit_char(d: nat) -> char {
    seq!['0', '1', '2', '3', '4', '5', '6', '7', '8', '9'][d as int]
}

/// The decimal notation of `n`, without sign or leading zeros.
pub open spec fn decimal_chars(n: nat) -> Seq<char>
    decreases n,
{
    if n < 10 {
        seq![digit_char(n)]
    } else {
        decimal_chars(n / 10).push(digit_char(n % 10))
    }
}

/// Relies on `serde_json::to_string` for a `u128`: the JSON form of an
/// unsigned integer is its decimal notation (written by `itoa`), and writing
/// into the in-memory buffer cannot fail.
#[verifier::external_body]
pub(crate) fn json_u128(v: u128) -> (r: Option<String>)
    ensures
        r is Some,
        r matches Some(s) ==> s@ == decimal_chars(v as nat),
{
    serde_json::to_string(&v).ok()
}

} // verus!
