//! Random passwords drawn from a chosen character set.
use vstd::prelude::*;
use rand::Rng;

verus! {

/// Lower-case ASCII letters, always part of the character set.
pub open spec fn lowercase_chars() -> Seq<char> {
    seq!['a', 'b', 'c', 'd', 'e', 'f', 'g', 'h', 'i', 'j', 'k', 'l', 'm', 'n', 'o', 'p', 'q', 'r', 's', 't', 'u', 'v', 'w', 'x', 'y', 'z']
}

/// Upper-case ASCII letters.
pub open spec fn uppercase_chars() -> Seq<char> {
    seq!['A', 'B', 'C', 'D', 'E', 'F', 'G', 'H', 'I', 'J', 'K', 'L', 'M', 'N', 'O', 'P', 'Q', 'R', 'S', 'T', 'U', 'V', 'W', 'X', 'Y', 'Z']
}

/// Decimal digits.
pub open spec fn digit_chars() -> Seq<char> {
    seq!['0', '1', '2', '3', '4', '5', '6', '7', '8', '9']
}

/// Punctuation symbols.
pub open spec fn symbol_chars() -> Seq<char> {
    seq!['!', '@', '#', '$', '%', '^', '&', '*', '(', ')', '-', '_', '=', '+', '[', ']', '{', '}', ';', ':', ',', '.', '<', '>', '?']
}

/// The characters a password is drawn from: lower-case letters, then each
/// chosen group in the order upper-case, digits, symbols.
pub open spec fn charset_of(uppercase: bool, numbers: bool, symbols: bool) -> Seq<char> {
    lowercase_chars()
        + (if uppercase { uppercase_chars() } else { Seq::empty() })
        + (if numbers { digit_chars() } else { Seq::empty() })
        + (if symbols { symbol_chars() } else { Seq::empty() })
}

/// Relies on rand::thread_rng and `Rng::gen_range` over `0..bound`: a value
/// below `bound`; the range is never empty.
#[verifier::external_body]
fn random_below(bound: usize) -> (r: usize)
    requires
        bound > 0,
    ensures
        r < bound,
{
    rand::thread_rng().gen_range(0..bound)
}

/// Relies on std's `String::push`: appends the character.
#[verifier::external_body]
fn push_char(s: &mut String, c: char)
    ensures
        final(s)@ == old(s)@.push(c),
{
    s.push(c)
}

/// The character set for the chosen groups.
pub fn charset(include_uppercase: bool, include_numbers: bool, include_symbols: bool) -> (r: Vec<char>)
    ensures
        r@ == charset_of(include_uppercase, include_numbers, include_symbols),
{
    let mut r = vec!['a', 'b', 'c', 'd', 'e', 'f', 'g', 'h', 'i', 'j', 'k', 'l', 'm', 'n', 'o', 'p', 'q', 'r', 's', 't', 'u', 'v', 'w', 'x', 'y', 'z'];
    assert(r@ == lowercase_chars());
    let ghost lower = r@;
    if include_uppercase {
        let mut upper = vec!['A', 'B', 'C', 'D', 'E', 'F', 'G', 'H', 'I', 'J', 'K', 'L', 'M', 'N', 'O', 'P', 'Q', 'R', 'S', 'T', 'U', 'V', 'W', 'X', 'Y', 'Z'];
        r.append(&mut upper);
    }
    let ghost upper_part = r@;
    if include_numbers {
        let mut digits = vec!['0', '1', '2', '3', '4', '5', '6', '7', '8', '9'];
        r.append(&mut digits);
    }
    let ghost digit_part = r@;
    if include_symbols {
        let mut symbols = vec!['!', '@', '#', '$', '%', '^', '&', '*', '(', ')', '-', '_', '=', '+', '[', ']', '{', '}', ';', ':', ',', '.', '<', '>', '?'];
        r.append(&mut symbols);
    }
    assert(upper_part =~= lower + (if include_uppercase { uppercase_chars() } else { Seq::empty() }));
    assert(digit_part =~= upper_part + (if include_numbers { digit_chars() } else { Seq::empty() }));
    assert(r@ =~= digit_part + (if include_symbols { symbol_chars() } else { Seq::empty() }));
    r
}

/// A password of `length` characters, each drawn uniformly from the
/// character set of the chosen groups.
pub fn generate_password(length: usize, include_uppercase: bool, include_numbers: bool, include_symbols: bool) -> (r: String)
    ensures
        r@.len() == length,
        forall|i: int| 0 <= i < length ==> charset_of(include_uppercase, include_numbers, include_symbols).contains(#[trigger] r@[i]),
{
    let chars = charset(include_uppercase, include_numbers, include_symbols);
    let mut r = String::new();
    let mut n: usize = 0;
    while n < length
        invariant
            n <= length,
            chars@ == charset_of(include_uppercase, include_numbers, include_symbols),
            chars@.len() >= 26,
            r@.len() == n,
            forall|i: int| 0 <= i < n ==> chars@.contains(#[trigger] r@[i]),
        decreases length - n,
    {
        let k = random_below(chars.len());
        let ghost pre = r@;
        push_char(&mut r, chars[k]);
        assert(r@[n as int] == chars@[k as int]);
        assert forall|i: int| 0 <= i < n + 1 implies chars@.contains(#[trigger] r@[i]) by {
            if i < n {
                assert(r@[i] == pre[i]);
            }
        }
        n = n + 1;
    }
    r
}

} // verus!
