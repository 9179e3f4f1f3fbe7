//! Small string helpers shared by the compiler and the renderer: a trusted
//! view of `str::trim`, and verified decimal formatting for chapter numbers
//! and progress messages.
use vstd::prelude::*;

verus! {

use vstd::string::StrSliceExecFns;
use vstd::string::StringExecFns;

/// The character sequence that `str::trim` returns for a given input.
pub uninterp spec fn trim_of(s: Seq<char>) -> Seq<char>;

/// Relies on `str::trim`: the result is a contiguous slice of the input
/// (leading and trailing whitespace removed), so every character of the
/// result occurs in the input, and an empty input stays empty.
#[verifier::external_body]
pub fn trimmed(s: &str) -> (r: &str)
    ensures
        r@ == trim_of(s@),
        forall|k: int| 0 <= k < r@.len() ==> s@.contains(#[trigger] r@[k]),
        s@.len() == 0 ==> r@.len() == 0,
{
    s.trim()
}

/// The decimal digit character for a value below ten.
pub open spec fn dec_digit(d: nat) -> char {
    (((d + 48) as u8) as char)
}

/// The usual decimal rendering of a natural number, most significant digit
/// first, with no leading zeroes.
pub open spec fn dec_rep(n: nat) -> Seq<char>
    decreases n,
{
    if n < 10 {
        seq![dec_digit(n)]
    } else {
        dec_rep(n / 10).push(dec_digit(n % 10))
    }
}

fn digit_str(d: u64) -> (r: &'static str)
    requires
        d < 10,
    ensures
        r@ =~= seq![dec_digit(d as nat)],
{
    let s = "0123456789";
    proof {
        reveal_strlit("0123456789");
    }
    let r = s.substring_ascii(d as usize, d as usize + 1);
    assert(r@ =~= seq![dec_digit(d as nat)]);
    r
}

/// Renders a number in decimal, as `format!("{}", n)` would.
pub fn u64_to_dec(n: u64) -> (r: String)
    ensures
        r@ == dec_rep(n as nat),
    decreases n,
{
    if n < 10 {
        let r = digit_str(n).to_owned();
        assert(r@ =~= dec_rep(n as nat));
        r
    } else {
        let mut r = u64_to_dec(n / 10);
        r.append(digit_str(n % 10));
        assert(r@ =~= dec_rep(n as nat));
        r
    }
}

/// Whether two string slices hold the same characters.
pub fn str_eq(a: &str, b: &str) -> (r: bool)
    ensures
        r == (a@ == b@),
{
    let sa = a.to_owned();
    let sb = b.to_owned();
    sa == sb
}

} // verus!
