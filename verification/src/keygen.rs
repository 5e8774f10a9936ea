//! Random identifiers.
//!
//! Service ids (16 characters), API keys (32 characters) and, on one
//! code path, session tokens are random alphanumeric strings. Only the
//! draw of a single character is trusted to the random-number crate;
//! the strings are assembled by verified code, so their length and
//! alphabet are proved, while uniqueness is left to the store's unique
//! constraints.

use vstd::prelude::*;

verus! {

/// Whether `c` is one of the 62 ASCII alphanumeric characters.
pub open spec fn alphanumeric_char(c: char) -> bool {
    ('0' <= c && c <= '9') || ('a' <= c && c <= 'z') || ('A' <= c && c <= 'Z')
}

/// Whether every character of `s` is ASCII alphanumeric.
pub open spec fn alphanumeric_string(s: Seq<char>) -> bool {
    forall|i: int| 0 <= i < s.len() ==> alphanumeric_char(#[trigger] s[i])
}

/// Relies on rand's `Alphanumeric` distribution: every sample is one of
/// the 62 ASCII alphanumeric bytes, drawn from the thread's
/// cryptographically seeded generator. Nothing is assumed about which.
#[verifier::external_body]
fn sample_alphanumeric() -> (c: char)
    ensures
        alphanumeric_char(c),
{
    let b: u8 = rand::Rng::sample(&mut rand::thread_rng(), rand::distributions::Alphanumeric);
    char::from(b)
}

/// Relies on std's `String::push`: appends exactly the one character.
#[verifier::external_body]
fn push_char(s: &mut String, c: char)
    ensures
        final(s)@ == old(s)@.push(c),
{
    s.push(c);
}

/// A fresh random key of exactly `length` alphanumeric characters.
pub fn generate_key(length: usize) -> (r: String)
    ensures
        r@.len() == length,
        alphanumeric_string(r@),
{
    let mut s = String::new();
    let mut i: usize = 0;
    while i < length
        invariant
            i <= length,
            s@.len() == i,
            alphanumeric_string(s@),
        decreases length - i,
    {
        let c = sample_alphanumeric();
        push_char(&mut s, c);
        i = i + 1;
    }
    s
}

/// Relies on rand's `random`, seeded from the thread generator; nothing
/// is assumed about the value drawn.
pub assume_specification<T>[ rand::random::<T> ]() -> (r: T)
    where
        rand::distributions::Standard: rand::distributions::Distribution<T>,
;

/// The character for one decimal digit.
pub open spec fn digit_char(d: int) -> char {
    ((d + 48) as u8) as char
}

/// The decimal text of `n`: no sign, no leading zero except for zero
/// itself.
pub open spec fn dec_digits(n: nat) -> Seq<char>
    decreases n,
{
    if n < 10 {
        seq![digit_char(n as int)]
    } else {
        dec_digits(n / 10).push(digit_char((n % 10) as int))
    }
}

/// A random session token: the decimal text of a random machine word.
pub fn random_token() -> (r: String)
    ensures
        r@.len() > 0,
        exists|n: nat| r@ == dec_digits(n),
{
    let n: u64 = rand::random();
    let r = u64_to_decimal(n);
    proof {
        lemma_dec_digits_len(n as nat);
        assert(r@ == dec_digits(n as nat));
    }
    r
}

/// The decimal text is never empty.
proof fn lemma_dec_digits_len(n: nat)
    ensures
        dec_digits(n).len() >= 1,
    decreases n,
{
    if n >= 10 {
        lemma_dec_digits_len(n / 10);
    }
}

/// Render `n` in decimal.
pub fn u64_to_decimal(n: u64) -> (r: String)
    ensures
        r@ == dec_digits(n as nat),
{
    let mut digits: Vec<char> = Vec::new();
    let mut x: u64 = n;
    if x == 0 {
        digits.push('0');
        proof {
            assert(digits@ =~= dec_digits(0).reverse());
        }
    } else {
        while x > 0
            invariant
                x > 0 ==> dec_digits(n as nat) == dec_digits(x as nat) + digits@.reverse(),
                x == 0 ==> dec_digits(n as nat) == digits@.reverse(),
            decreases x,
        {
            let d: u8 = (x % 10) as u8;
            let c = digit_to_char(d);
            let ghost pre = digits@;
            digits.push(c);
            proof {
                assert(digits@.reverse() =~= seq![c] + pre.reverse());
                if x >= 10 {
                    assert(dec_digits(x as nat) == dec_digits((x / 10) as nat).push(
                        digit_char((x % 10) as int),
                    ));
                    assert(dec_digits((x / 10) as nat) + digits@.reverse() =~= dec_digits(
                        x as nat,
                    ) + pre.reverse());
                } else {
                    assert(dec_digits(x as nat) =~= seq![c]);
                    assert(digits@.reverse() =~= dec_digits(x as nat) + pre.reverse());
                }
            }
            x = x / 10;
        }
    }
    let mut s = String::new();
    let count: usize = digits.len();
    let mut i: usize = 0;
    while i < count
        invariant
            count == digits@.len(),
            i <= count,
            s@ =~= digits@.reverse().take(i as int),
        decreases count - i,
    {
        let c = digits[count - 1 - i];
        push_char(&mut s, c);
        proof {
            assert(digits@.reverse().take(i as int + 1) =~= digits@.reverse().take(i as int).push(
                digits@.reverse()[i as int],
            ));
            assert(digits@.reverse()[i as int] == digits@[count - 1 - i]);
        }
        i = i + 1;
    }
    proof {
        assert(digits@.reverse().take(count as int) =~= digits@.reverse());
    }
    s
}

/// The character for the decimal digit `d`.
fn digit_to_char(d: u8) -> (c: char)
    requires
        d < 10,
    ensures
        c == digit_char(d as int),
{
    (d + 48) as char
}

} // verus!
