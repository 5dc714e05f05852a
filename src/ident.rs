use vstd::prelude::*;

verus! {

/// The decimal digit character for `d < 10`.
pub open spec fn digit_char(d: nat) -> char {
    if d == 0 { '0' } else if d == 1 { '1' } else if d == 2 { '2' } else if d == 3 { '3' }
    else if d == 4 { '4' } else if d == 5 { '5' } else if d == 6 { '6' } else if d == 7 { '7' }
    else if d == 8 { '8' } else { '9' }
}

/// The decimal text of `n`, most significant digit first, without leading zeros.
pub open spec fn decimal_text(n: nat) -> Seq<char>
    decreases n,
{
    if n < 10 {
        seq![digit_char(n)]
    } else {
        decimal_text(n / 10).push(digit_char(n % 10))
    }
}

/// The name-based (version 5, SHA-1) UUID text derived from `target`.
pub uninterp spec fn uuid_of(target: Seq<char>) -> Seq<char>;

/// The identifier allocated at time `now` (nanoseconds).
pub open spec fn fresh_id(now: u64) -> Seq<char> {
    uuid_of(decimal_text(now as nat))
}

/// Relies on `u64`'s `Display` (via `to_string`): plain decimal digits.
#[verifier::external_body]
fn u64_text(n: u64) -> (r: String)
    ensures
        r@ == decimal_text(n as nat),
{
    n.to_string()
}

/// Relies on `uuid_by_string::uuid_no_namespace::generate_v5`: a deterministic
/// UUID text that depends on the target string alone.
#[verifier::external_body]
fn uuid_v5(target: &str) -> (r: String)
    ensures
        r@ == uuid_of(target@),
{
    #[allow(deprecated)]
    uuid_by_string::uuid_no_namespace::generate_v5(target)
}

/// The decimal text of a timestamp, as stored in log entries.
pub fn timestamp_text(now: u64) -> (r: String)
    ensures
        r@ == decimal_text(now as nat),
{
    u64_text(now)
}

/// A fresh opaque identifier derived from the timestamp `now`.
pub fn create_uuid(now: u64) -> (r: String)
    ensures
        r@ == fresh_id(now),
{
    let ts = u64_text(now);
    uuid_v5(ts.as_str())
}

} // verus!
