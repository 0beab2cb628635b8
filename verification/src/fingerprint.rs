//! A session key computed from request metadata.
//!
//! The fingerprint gives a caller without a token the same key on every
//! request. It is session affinity only: whoever sends the same metadata gets
//! the same key, so it proves nothing about who the caller is.
use std::collections::hash_map::DefaultHasher;
use std::hash::{Hash, Hasher};
use vstd::prelude::*;
use vstd::std_specs::hash::DefaultHasherAdditionalSpecFns;
use vstd::string::StringExecFns;

verus! {

/// The character of a decimal digit.
pub open spec fn digit_char(d: nat) -> char {
    if d == 0 {
        '0'
    } else if d == 1 {
        '1'
    } else if d == 2 {
        '2'
    } else if d == 3 {
        '3'
    } else if d == 4 {
        '4'
    } else if d == 5 {
        '5'
    } else if d == 6 {
        '6'
    } else if d == 7 {
        '7'
    } else if d == 8 {
        '8'
    } else {
        '9'
    }
}

/// A number in decimal, without leading zeros.
pub open spec fn decimal(n: nat) -> Seq<char>
    decreases n,
{
    if n < 10 {
        seq![digit_char(n)]
    } else {
        decimal(n / 10).push(digit_char(n % 10))
    }
}

/// The characters of digits that were collected lowest first.
pub open spec fn high_first(digits: Seq<u8>) -> Seq<char> {
    Seq::new(digits.len(), |i: int| digit_char(digits[digits.len() - 1 - i] as nat))
}

/// The text of one decimal digit.
fn digit_str(d: u8) -> (s: &'static str)
    requires
        d < 10,
    ensures
        s@ == seq![digit_char(d as nat)],
{
    proof {
        reveal_strlit("0");
        reveal_strlit("1");
        reveal_strlit("2");
        reveal_strlit("3");
        reveal_strlit("4");
        reveal_strlit("5");
        reveal_strlit("6");
        reveal_strlit("7");
        reveal_strlit("8");
        reveal_strlit("9");
    }
    let s = if d == 0 {
        "0"
    } else if d == 1 {
        "1"
    } else if d == 2 {
        "2"
    } else if d == 3 {
        "3"
    } else if d == 4 {
        "4"
    } else if d == 5 {
        "5"
    } else if d == 6 {
        "6"
    } else if d == 7 {
        "7"
    } else if d == 8 {
        "8"
    } else {
        "9"
    };
    assert(s@ =~= seq![digit_char(d as nat)]);
    s
}

/// `n` written in decimal.
pub fn decimal_text(n: u64) -> (s: String)
    ensures
        s@ == decimal(n as nat),
{
    let mut digits: Vec<u8> = Vec::new();
    let mut rest: u64 = n;
    while rest >= 10
        invariant
            forall|j: int| 0 <= j < digits@.len() ==> digits@[j] < 10,
            decimal(n as nat) == decimal(rest as nat) + high_first(digits@),
        decreases rest,
    {
        let low: u8 = (rest % 10) as u8;
        proof {
            let grown = digits@.push(low);
            assert(high_first(grown) =~= seq![digit_char(low as nat)] + high_first(digits@));
            assert(decimal(rest as nat) == decimal((rest / 10) as nat).push(digit_char(low as nat)));
            assert(decimal((rest / 10) as nat).push(digit_char(low as nat)) + high_first(digits@)
                =~= decimal((rest / 10) as nat) + high_first(grown));
        }
        digits.push(low);
        rest = rest / 10;
    }
    let mut s = String::from_str(digit_str(rest as u8));
    let mut i: usize = digits.len();
    assert(digits@.subrange(0, i as int) =~= digits@);
    while i > 0
        invariant
            i <= digits@.len(),
            forall|j: int| 0 <= j < digits@.len() ==> digits@[j] < 10,
            s@ + high_first(digits@.subrange(0, i as int)) == decimal(n as nat),
        decreases i,
    {
        i -= 1;
        proof {
            let longer = digits@.subrange(0, i + 1);
            let shorter = digits@.subrange(0, i as int);
            assert(high_first(longer) =~= seq![digit_char(digits@[i as int] as nat)] + high_first(
                shorter,
            ));
            assert(s@ + high_first(longer) =~= (s@ + seq![digit_char(digits@[i as int] as nat)])
                + high_first(shorter));
        }
        s.append(digit_str(digits[i]));
    }
    assert(high_first(digits@.subrange(0, 0)) =~= Seq::<char>::empty());
    assert(s@ + Seq::<char>::empty() =~= s@);
    s
}

/// The text that stands for an absent address.
pub open spec fn unknown_ip() -> Seq<char> {
    "unknown-ip"@
}

/// The characters of an optional text.
pub open spec fn chars_of(text: Option<&str>) -> Option<Seq<char>> {
    match text {
        Some(t) => Some(t@),
        None => None,
    }
}

/// The characters of an optional string.
pub open spec fn owned_chars(text: Option<String>) -> Option<Seq<char>> {
    match text {
        Some(t) => Some(t@),
        None => None,
    }
}

/// The characters given; `absent` where there are none.
pub open spec fn text_or(text: Option<Seq<char>>, absent: Seq<char>) -> Seq<char> {
    match text {
        Some(t) => t,
        None => absent,
    }
}

/// What is hashed: address, user agent and accepted language, with a colon
/// between them. An absent address reads `unknown-ip`, the others are empty.
pub open spec fn fingerprint_source(
    ip: Option<Seq<char>>,
    user_agent: Option<Seq<char>>,
    accept_language: Option<Seq<char>>,
) -> Seq<char> {
    text_or(ip, unknown_ip()) + ":"@ + text_or(user_agent, Seq::empty()) + ":"@ + text_or(
        accept_language,
        Seq::empty(),
    )
}

/// The text that is hashed for a caller's metadata.
pub fn fingerprint_text(
    ip: Option<&str>,
    user_agent: Option<&str>,
    accept_language: Option<&str>,
) -> (text: String)
    ensures
        text@ == fingerprint_source(chars_of(ip), chars_of(user_agent), chars_of(accept_language)),
{
    let mut text = String::from_str(
        match ip {
            Some(t) => t,
            None => "unknown-ip",
        },
    );
    text.append(":");
    match user_agent {
        Some(t) => text.append(t),
        None => {},
    }
    text.append(":");
    match accept_language {
        Some(t) => text.append(t),
        None => {},
    }
    assert(text@ =~= fingerprint_source(
        chars_of(ip),
        chars_of(user_agent),
        chars_of(accept_language),
    ));
    text
}

/// What `Hash::hash` of a string writes to a hasher, write by write.
pub uninterp spec fn str_hash_writes(s: Seq<char>) -> Seq<Seq<u8>>;

/// Feeds `s` to `hasher`: `std::hash::Hash::hash` of a `str`.
///
/// The contract claims that what the hasher receives depends on the
/// characters of `s` alone and comes after what it had received before.
#[verifier::external_body]
fn feed_str(hasher: &mut DefaultHasher, s: &str)
    ensures
        final(hasher)@ == old(hasher)@ + str_hash_writes(s@),
{
    s.hash(hasher)
}

/// The hash of a text with the default hasher in its initial state.
pub open spec fn text_hash(text: Seq<char>) -> u64 {
    DefaultHasher::spec_finish(str_hash_writes(text))
}

/// The hash of `text` with the default hasher in its initial state.
pub fn hash_text(text: &str) -> (h: u64)
    ensures
        h == text_hash(text@),
{
    let mut hasher = DefaultHasher::new();
    feed_str(&mut hasher, text);
    assert(hasher@ =~= str_hash_writes(text@));
    hasher.finish()
}

/// The fingerprint key of a caller's metadata: the hash of the fingerprint
/// text, in decimal.
pub open spec fn fingerprint_key(
    ip: Option<Seq<char>>,
    user_agent: Option<Seq<char>>,
    accept_language: Option<Seq<char>>,
) -> Seq<char> {
    decimal(text_hash(fingerprint_source(ip, user_agent, accept_language)) as nat)
}

/// The session key of a caller known by metadata only.
pub fn fingerprint(
    ip: Option<&str>,
    user_agent: Option<&str>,
    accept_language: Option<&str>,
) -> (key: String)
    ensures
        key@ == fingerprint_key(chars_of(ip), chars_of(user_agent), chars_of(accept_language)),
{
    let text = fingerprint_text(ip, user_agent, accept_language);
    decimal_text(hash_text(text.as_str()))
}

} // verus!
