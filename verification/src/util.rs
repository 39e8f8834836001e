//! Small string helpers shared across the bundler core: building
//! strings one character at a time, decimal rendering of counters for
//! disambiguated display names, and turning an arbitrary module
//! identity into a legal identifier.

use vstd::prelude::*;

verus! {

/// Relies on String::push: appends exactly one character at the end.
#[verifier::external_body]
pub(crate) fn push_char(s: &mut String, c: char)
    ensures
        final(s)@ == old(s)@.push(c),
{
    s.push(c);
}

/// Compares a string against a literal by contents.
pub fn string_eq_lit(a: &String, b: &str) -> (r: bool)
    ensures
        r == (a@ == b@),
{
    let bs = String::from_str(b);
    a.eq(&bs)
}

/// True for the characters that may appear in an emitted identifier.
pub open spec fn is_ident_char(c: char) -> bool {
    ('a' <= c && c <= 'z') || ('A' <= c && c <= 'Z') || ('0' <= c && c <= '9') || c == '_' || c
        == '$'
}

/// True for an ASCII decimal digit.
pub open spec fn is_digit_char(c: char) -> bool {
    '0' <= c && c <= '9'
}

/// The character for one decimal digit value.
pub open spec fn spec_digit_char(d: nat) -> char {
    if d == 0 {
        '0'
    } else if d == 1 {
        '1'
    } else if d == 2 {
        '2'
    } else if d == 3 {
        '3'
    } else if d == 4 {
        '4'
    } else if d == 5 {
        '5'
    } else if d == 6 {
        '6'
    } else if d == 7 {
        '7'
    } else if d == 8 {
        '8'
    } else {
        '9'
    }
}

/// The decimal rendering of a number, most significant digit first.
pub open spec fn spec_dec(n: nat) -> Seq<char>
    decreases n,
{
    if n < 10 {
        seq![spec_digit_char(n)]
    } else {
        spec_dec(n / 10).push(spec_digit_char(n % 10))
    }
}

fn digit_char(d: u64) -> (c: char)
    requires
        d < 10,
    ensures
        c == spec_digit_char(d as nat),
{
    match d {
        0 => '0',
        1 => '1',
        2 => '2',
        3 => '3',
        4 => '4',
        5 => '5',
        6 => '6',
        7 => '7',
        8 => '8',
        _ => '9',
    }
}

/// Renders a number in decimal.
pub fn u64_to_dec(n: u64) -> (s: String)
    ensures
        s@ == spec_dec(n as nat),
    decreases n,
{
    if n < 10 {
        let mut s = String::new();
        push_char(&mut s, digit_char(n));
        assert(s@ =~= spec_dec(n as nat));
        s
    } else {
        let mut s = u64_to_dec(n / 10);
        push_char(&mut s, digit_char(n % 10));
        s
    }
}

/// Every decimal rendering is nonempty.
pub proof fn lemma_dec_len(n: nat)
    ensures
        spec_dec(n).len() >= 1,
    decreases n,
{
    if n >= 10 {
        lemma_dec_len(n / 10);
    }
}

/// The digit characters are pairwise distinct.
proof fn lemma_digit_char_injective(x: nat, y: nat)
    requires
        x < 10,
        y < 10,
        spec_digit_char(x) == spec_digit_char(y),
    ensures
        x == y,
{
}

/// Two distinct numbers never share a decimal rendering.
pub proof fn lemma_dec_injective(a: nat, b: nat)
    requires
        spec_dec(a) == spec_dec(b),
    ensures
        a == b,
    decreases a,
{
    if a < 10 && b < 10 {
        assert(spec_dec(a) == seq![spec_digit_char(a)]);
        assert(spec_dec(b) == seq![spec_digit_char(b)]);
        assert(spec_dec(a)[0] == spec_digit_char(a));
        assert(spec_dec(b)[0] == spec_digit_char(b));
        lemma_digit_char_injective(a, b);
    } else if a < 10 && b >= 10 {
        lemma_dec_len(b / 10);
        assert(spec_dec(b) == spec_dec(b / 10).push(spec_digit_char(b % 10)));
        assert(spec_dec(b).len() >= 2);
        assert(spec_dec(a).len() == 1);
    } else if a >= 10 && b < 10 {
        lemma_dec_len(a / 10);
        assert(spec_dec(a) == spec_dec(a / 10).push(spec_digit_char(a % 10)));
        assert(spec_dec(a).len() >= 2);
        assert(spec_dec(b).len() == 1);
    } else {
        let pa = spec_dec(a / 10);
        let pb = spec_dec(b / 10);
        assert(spec_dec(a) == pa.push(spec_digit_char(a % 10)));
        assert(spec_dec(b) == pb.push(spec_digit_char(b % 10)));
        assert(spec_dec(a).last() == spec_digit_char(a % 10));
        assert(spec_dec(b).last() == spec_digit_char(b % 10));
        lemma_digit_char_injective(a % 10, b % 10);
        assert(pa =~= spec_dec(a).drop_last());
        assert(pb =~= spec_dec(b).drop_last());
        lemma_dec_injective(a / 10, b / 10);
        assert(a == 10 * (a / 10) + a % 10);
        assert(b == 10 * (b / 10) + b % 10);
    }
}

/// The character a module identity's character maps to in an
/// identifier: kept if legal, replaced by an underscore otherwise.
pub open spec fn spec_legitimized_char(c: char) -> char {
    if is_ident_char(c) {
        c
    } else {
        '_'
    }
}

/// The identifier derived from an arbitrary identity string: every
/// illegal character becomes an underscore, and a leading digit is
/// guarded by an underscore prefix.
pub open spec fn spec_legitimize(s: Seq<char>) -> Seq<char> {
    let mapped = s.map_values(|c: char| spec_legitimized_char(c));
    if s.len() > 0 && is_digit_char(s[0]) {
        seq!['_'] + mapped
    } else {
        mapped
    }
}

/// Turns an arbitrary module identity into a legal identifier.
pub fn legitimize_identifier_name(s: &str) -> (r: String)
    ensures
        r@ == spec_legitimize(s@),
{
    let n = s.unicode_len();
    let mut out = String::new();
    let ghost prefix: Seq<char> = if s@.len() > 0 && is_digit_char(s@[0]) {
        seq!['_']
    } else {
        Seq::<char>::empty()
    };
    if n > 0 {
        let c0 = s.get_char(0);
        if '0' <= c0 && c0 <= '9' {
            push_char(&mut out, '_');
        }
    }
    let mut i: usize = 0;
    while i < n
        invariant
            n == s@.len(),
            0 <= i <= n,
            out@.len() == prefix.len() + i,
            prefix == (if s@.len() > 0 && is_digit_char(s@[0]) {
                seq!['_']
            } else {
                Seq::<char>::empty()
            }),
            forall|j: int| 0 <= j < prefix.len() ==> out@[j] == '_',
            forall|j: int|
                0 <= j < i ==> out@[prefix.len() + j] == spec_legitimized_char(s@[j]),
        decreases n - i,
    {
        let c = s.get_char(i);
        if ('a' <= c && c <= 'z') || ('A' <= c && c <= 'Z') || ('0' <= c && c <= '9') || c == '_'
            || c == '$' {
            push_char(&mut out, c);
        } else {
            push_char(&mut out, '_');
        }
        i += 1;
    }
    proof {
        assert(out@ =~= spec_legitimize(s@));
    }
    out
}

} // verus!
