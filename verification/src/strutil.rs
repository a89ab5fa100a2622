//! Small string helpers shared by the lexer, the renderer and the evaluator.

use vstd::prelude::*;

verus! {

/// Compares an owned string against a string slice, character for character.
pub fn str_eq(a: &String, b: &str) -> (r: bool)
    ensures
        r == (a@ == b@),
{
    let owned: String = b.to_owned();
    *a == owned
}

/// Relies on `String::from_iter` over `str::chars`: collecting a sequence of
/// characters yields the string whose view is exactly that sequence.
#[verifier::external_body]
pub fn string_from_chars(chars: &Vec<char>) -> (r: String)
    ensures
        r@ == chars@,
{
    chars.iter().collect()
}

/// Relies on `str::chars`: the characters of a string slice are exactly its
/// view, in order.
#[verifier::external_body]
pub fn chars_of_str(s: &str) -> (r: Vec<char>)
    ensures
        r@ == s@,
{
    s.chars().collect()
}

/// Appends the characters of a string slice to a character buffer.
pub fn push_str_chars(out: &mut Vec<char>, s: &str)
    ensures
        final(out)@ == old(out)@.add(s@),
{
    let mut v = chars_of_str(s);
    out.append(&mut v);
}

/// The decimal digit character for a value between 0 and 9.
pub open spec fn digit_char(d: int) -> char {
    ((48 + d) as u8) as char
}

/// The decimal rendering of a nonnegative integer, most significant digit
/// first and without leading zeros (a single `'0'` for zero).
pub open spec fn nat_chars(n: int) -> Seq<char>
    recommends
        n >= 0,
    decreases n,
{
    if n < 10 {
        seq![digit_char(n)]
    } else {
        nat_chars(n / 10).push(digit_char(n % 10))
    }
}

/// The decimal rendering of an integer: a minus sign for negative values,
/// then the digits of the magnitude.
pub open spec fn int_chars(n: int) -> Seq<char> {
    if n < 0 {
        seq!['-'].add(nat_chars(-n))
    } else {
        nat_chars(n)
    }
}

/// Concatenates two string slices.
pub fn concat2(a: &str, b: &str) -> (r: String)
    ensures
        r@ == a@.add(b@),
{
    let mut out: Vec<char> = Vec::new();
    push_str_chars(&mut out, a);
    push_str_chars(&mut out, b);
    string_from_chars(&out)
}

/// Concatenates three string slices.
pub fn concat3(a: &str, b: &str, c: &str) -> (r: String)
    ensures
        r@ == a@.add(b@).add(c@),
{
    let mut out: Vec<char> = Vec::new();
    push_str_chars(&mut out, a);
    push_str_chars(&mut out, b);
    push_str_chars(&mut out, c);
    string_from_chars(&out)
}

/// Renders an unsigned machine integer in decimal notation.
pub fn u64_to_string(v: u64) -> (r: String)
    ensures
        r@ == nat_chars(v as int),
{
    if v == 0 {
        let mut out: Vec<char> = Vec::new();
        out.push('0');
        proof {
            assert(digit_char(0) == '0');
            assert(out@ =~= nat_chars(0));
        }
        return string_from_chars(&out);
    }
    let mut mag: u64 = v;
    let ghost total: int = mag as int;
    // Digits of `mag`, least significant first.
    let mut rev: Vec<char> = Vec::new();
    proof {
        assert(nat_chars(total) =~= nat_chars(mag as int).add(rev@.reverse()));
    }
    while mag > 0
        invariant
            total > 0,
            mag as int > 0 ==> nat_chars(total) == nat_chars(mag as int).add(rev@.reverse()),
            mag as int == 0 ==> nat_chars(total) == rev@.reverse(),
        decreases mag,
    {
        let d: u8 = (mag % 10) as u8;
        let c: char = (48 + d) as char;
        let ghost old_mag: int = mag as int;
        let ghost old_rev: Seq<char> = rev@;
        rev.push(c);
        mag = mag / 10;
        proof {
            assert(c == digit_char(old_mag % 10));
            assert(rev@.reverse() =~= seq![c].add(old_rev.reverse()));
            if old_mag >= 10 {
                assert(nat_chars(old_mag) == nat_chars(old_mag / 10).push(digit_char(old_mag % 10)));
                assert(nat_chars(mag as int).add(rev@.reverse()) =~= nat_chars(old_mag).add(
                    old_rev.reverse(),
                ));
            } else {
                assert(nat_chars(old_mag) == seq![digit_char(old_mag)]);
                assert(rev@.reverse() =~= nat_chars(old_mag).add(old_rev.reverse()));
            }
        }
    }
    let mut out: Vec<char> = Vec::new();
    let mut i: usize = rev.len();
    while i > 0
        invariant
            i <= rev.len(),
            out@ == rev@.reverse().take(rev@.len() - i),
        decreases i,
    {
        i = i - 1;
        out.push(rev[i]);
        proof {
            assert(rev@.reverse()[rev@.len() - 1 - i] == rev@[i as int]);
            assert(out@ =~= rev@.reverse().take(rev@.len() - i));
        }
    }
    proof {
        assert(rev@.reverse().take(rev@.len() as int) =~= rev@.reverse());
    }
    string_from_chars(&out)
}

/// Renders a machine integer in decimal notation.
pub fn int_to_string(v: i64) -> (r: String)
    ensures
        r@ == int_chars(v as int),
{
    if v == 0 {
        let mut out: Vec<char> = Vec::new();
        out.push('0');
        proof {
            assert(digit_char(0) == '0');
            assert(out@ =~= int_chars(0));
        }
        return string_from_chars(&out);
    }
    let negative: bool = v < 0;
    let mut mag: u64 = if v >= 0 {
        v as u64
    } else {
        ((-1 - v) as u64) + 1
    };
    let ghost total: int = mag as int;
    proof {
        if v < 0 {
            assert(total == -(v as int));
        } else {
            assert(total == v as int);
        }
    }
    // Digits of `mag`, least significant first.
    let mut rev: Vec<char> = Vec::new();
    proof {
        assert(nat_chars(total) =~= nat_chars(mag as int).add(rev@.reverse()));
    }
    while mag > 0
        invariant
            total > 0,
            mag as int > 0 ==> nat_chars(total) == nat_chars(mag as int).add(rev@.reverse()),
            mag as int == 0 ==> nat_chars(total) == rev@.reverse(),
        decreases mag,
    {
        let d: u8 = (mag % 10) as u8;
        let c: char = (48 + d) as char;
        let ghost old_mag: int = mag as int;
        let ghost old_rev: Seq<char> = rev@;
        rev.push(c);
        mag = mag / 10;
        proof {
            assert(c == digit_char(old_mag % 10));
            assert(rev@.reverse() =~= seq![c].add(old_rev.reverse()));
            if old_mag >= 10 {
                assert(nat_chars(old_mag) == nat_chars(old_mag / 10).push(digit_char(old_mag % 10)));
                assert(nat_chars(mag as int).add(rev@.reverse()) =~= nat_chars(old_mag).add(
                    old_rev.reverse(),
                ));
            } else {
                assert(nat_chars(old_mag) == seq![digit_char(old_mag)]);
                assert(rev@.reverse() =~= nat_chars(old_mag).add(old_rev.reverse()));
            }
        }
    }
    let mut out: Vec<char> = Vec::new();
    if negative {
        out.push('-');
    }
    let ghost sign: Seq<char> = if negative {
        seq!['-']
    } else {
        Seq::empty()
    };
    assert(out@ =~= sign);
    let mut i: usize = rev.len();
    while i > 0
        invariant
            i <= rev.len(),
            out@ == sign.add(rev@.reverse().take(rev@.len() - i)),
        decreases i,
    {
        i = i - 1;
        out.push(rev[i]);
        proof {
            assert(rev@.reverse()[rev@.len() - 1 - i] == rev@[i as int]);
            assert(out@ =~= sign.add(rev@.reverse().take(rev@.len() - i)));
        }
    }
    proof {
        assert(rev@.reverse().take(rev@.len() as int) =~= rev@.reverse());
        assert(out@ == sign.add(nat_chars(total)));
        assert(sign.add(nat_chars(total)) =~= int_chars(v as int));
    }
    string_from_chars(&out)
}

} // verus!
