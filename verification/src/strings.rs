//! Character-level helpers: concatenation, OBO escaping, decimal rendering
//! and integer parsing, all specified over `Seq<char>`.

use vstd::prelude::*;

verus! {

/// Append `b` onto `a`, returning the concatenation.
pub fn concat2(a: &str, b: &str) -> (r: String)
    ensures
        r@ == a@ + b@,
{
    let mut s = String::new();
    s.append(a);
    s.append(b);
    assert(s@ =~= a@ + b@);
    s
}

pub fn concat3(a: &str, b: &str, c: &str) -> (r: String)
    ensures
        r@ == a@ + b@ + c@,
{
    let mut s = String::new();
    s.append(a);
    s.append(b);
    s.append(c);
    assert(s@ =~= a@ + b@ + c@);
    s
}

/// Whether two string slices hold the same text.
pub fn str_eq(a: &str, b: &str) -> (r: bool)
    ensures
        r == (a@ == b@),
{
    let x = String::from_str(a);
    let y = String::from_str(b);
    x == y
}

/// How a single character is written in the serialized form of an OBO
/// identifier: whitespace, quotes, colons and backslashes are escaped.
pub open spec fn ident_escape_char(c: char) -> Seq<char> {
    if c == '\r' {
        seq!['\\', 'r']
    } else if c == '\n' {
        seq!['\\', 'n']
    } else if c == '\u{000c}' {
        seq!['\\', 'f']
    } else if c == ' ' {
        seq!['\\', ' ']
    } else if c == '\t' {
        seq!['\\', 't']
    } else if c == ':' {
        seq!['\\', ':']
    } else if c == '"' {
        seq!['\\', '"']
    } else if c == '\\' {
        seq!['\\', '\\']
    } else {
        seq![c]
    }
}

/// How a single character is written in the serialized form of an OBO
/// unquoted string value: line breaks, quotes, backslashes, comment and
/// brace characters are escaped.
pub open spec fn unquoted_escape_char(c: char) -> Seq<char> {
    if c == '\r' {
        seq!['\\', 'r']
    } else if c == '\n' {
        seq!['\\', 'n']
    } else if c == '\u{000c}' {
        seq!['\\', 'f']
    } else if c == '"' {
        seq!['\\', '"']
    } else if c == '\\' {
        seq!['\\', '\\']
    } else if c == '!' {
        seq!['\\', '!']
    } else if c == '{' {
        seq!['\\', '{']
    } else if c == '}' {
        seq!['\\', '}']
    } else {
        seq![c]
    }
}

pub open spec fn ident_escape(s: Seq<char>) -> Seq<char>
    decreases s.len(),
{
    if s.len() == 0 {
        Seq::empty()
    } else {
        ident_escape(s.drop_last()) + ident_escape_char(s.last())
    }
}

pub open spec fn unquoted_escape(s: Seq<char>) -> Seq<char>
    decreases s.len(),
{
    if s.len() == 0 {
        Seq::empty()
    } else {
        unquoted_escape(s.drop_last()) + unquoted_escape_char(s.last())
    }
}

/// Serialize an identifier component, escaping the characters that the OBO
/// grammar reserves.
pub fn escape_ident(s: &str) -> (r: String)
    ensures
        r@ == ident_escape(s@),
{
    let n: usize = s.unicode_len();
    let mut out = String::new();
    let mut i: usize = 0;
    while i < n
        invariant
            n == s@.len(),
            i <= n,
            out@ == ident_escape(s@.subrange(0, i as int)),
        decreases n - i,
    {
        let c = s.get_char(i);
        if c == '\r' {
            out.append("\\r");
            proof { reveal_strlit("\\r"); }
        } else if c == '\n' {
            out.append("\\n");
            proof { reveal_strlit("\\n"); }
        } else if c == '\u{000c}' {
            out.append("\\f");
            proof { reveal_strlit("\\f"); }
        } else if c == ' ' {
            out.append("\\ ");
            proof { reveal_strlit("\\ "); }
        } else if c == '\t' {
            out.append("\\t");
            proof { reveal_strlit("\\t"); }
        } else if c == ':' {
            out.append("\\:");
            proof { reveal_strlit("\\:"); }
        } else if c == '"' {
            out.append("\\\"");
            proof { reveal_strlit("\\\""); }
        } else if c == '\\' {
            out.append("\\\\");
            proof { reveal_strlit("\\\\"); }
        } else {
            let piece = s.substring_char(i, i + 1);
            out.append(piece);
        }
        proof {
            let prefix = s@.subrange(0, i as int);
            let prefix1 = s@.subrange(0, i + 1int);
            assert(prefix1.drop_last() =~= prefix);
            assert(prefix1.last() == c);
            assert(out@ =~= ident_escape(prefix) + ident_escape_char(c));
        }
        i = i + 1;
    }
    proof {
        assert(s@.subrange(0, n as int) =~= s@);
    }
    out
}

/// Serialize an unquoted string value, escaping the characters that the OBO
/// grammar reserves.
pub fn escape_unquoted(s: &str) -> (r: String)
    ensures
        r@ == unquoted_escape(s@),
{
    let n: usize = s.unicode_len();
    let mut out = String::new();
    let mut i: usize = 0;
    while i < n
        invariant
            n == s@.len(),
            i <= n,
            out@ == unquoted_escape(s@.subrange(0, i as int)),
        decreases n - i,
    {
        let c = s.get_char(i);
        if c == '\r' {
            out.append("\\r");
            proof { reveal_strlit("\\r"); }
        } else if c == '\n' {
            out.append("\\n");
            proof { reveal_strlit("\\n"); }
        } else if c == '\u{000c}' {
            out.append("\\f");
            proof { reveal_strlit("\\f"); }
        } else if c == '"' {
            out.append("\\\"");
            proof { reveal_strlit("\\\""); }
        } else if c == '\\' {
            out.append("\\\\");
            proof { reveal_strlit("\\\\"); }
        } else if c == '!' {
            out.append("\\!");
            proof { reveal_strlit("\\!"); }
        } else if c == '{' {
            out.append("\\{");
            proof { reveal_strlit("\\{"); }
        } else if c == '}' {
            out.append("\\}");
            proof { reveal_strlit("\\}"); }
        } else {
            let piece = s.substring_char(i, i + 1);
            out.append(piece);
        }
        proof {
            let prefix = s@.subrange(0, i as int);
            let prefix1 = s@.subrange(0, i + 1int);
            assert(prefix1.drop_last() =~= prefix);
            assert(prefix1.last() == c);
            assert(out@ =~= unquoted_escape(prefix) + unquoted_escape_char(c));
        }
        i = i + 1;
    }
    proof {
        assert(s@.subrange(0, n as int) =~= s@);
    }
    out
}

/// The decimal digits of `n`, most significant first, no leading zeros.
pub open spec fn dec_digits(n: nat) -> Seq<char>
    decreases n,
{
    if n < 10 {
        seq![digit_char(n)]
    } else {
        dec_digits(n / 10) + seq![digit_char(n % 10)]
    }
}

pub open spec fn digit_char(d: nat) -> char {
    if d == 0 { '0' }
    else if d == 1 { '1' }
    else if d == 2 { '2' }
    else if d == 3 { '3' }
    else if d == 4 { '4' }
    else if d == 5 { '5' }
    else if d == 6 { '6' }
    else if d == 7 { '7' }
    else if d == 8 { '8' }
    else { '9' }
}

/// The decimal form of `n` zero-padded on the left to at least `w` characters,
/// as the `{:0w}` format writes it.
pub open spec fn dec_padded(n: nat, w: nat) -> Seq<char> {
    if dec_digits(n).len() >= w {
        dec_digits(n)
    } else {
        Seq::new((w - dec_digits(n).len()) as nat, |i: int| '0') + dec_digits(n)
    }
}

fn digit_str(d: u32) -> (r: &'static str)
    requires
        d < 10,
    ensures
        r@ == seq![digit_char(d as nat)],
{
    proof {
        reveal_strlit("0");
        reveal_strlit("1");
        reveal_strlit("2");
        reveal_strlit("3");
        reveal_strlit("4");
        reveal_strlit("5");
        reveal_strlit("6");
        reveal_strlit("7");
        reveal_strlit("8");
        reveal_strlit("9");
    }
    let r = match d {
        0 => "0",
        1 => "1",
        2 => "2",
        3 => "3",
        4 => "4",
        5 => "5",
        6 => "6",
        7 => "7",
        8 => "8",
        _ => "9",
    };
    proof {
        assert(r@ =~= seq![digit_char(d as nat)]);
    }
    r
}

fn push_dec(out: &mut String, n: u32)
    ensures
        final(out)@ == old(out)@ + dec_digits(n as nat),
    decreases n,
{
    if n < 10 {
        out.append(digit_str(n));
    } else {
        push_dec(out, n / 10);
        out.append(digit_str(n % 10));
        assert(final(out)@ =~= old(out)@ + dec_digits(n as nat));
    }
}

/// Append the decimal form of `n`, zero-padded to at least `w` characters.
pub fn push_dec_padded(out: &mut String, n: u32, w: usize)
    requires
        w <= 10,
    ensures
        final(out)@ == old(out)@ + dec_padded(n as nat, w as nat),
{
    let mut digits = String::new();
    push_dec(&mut digits, n);
    assert(digits@ =~= dec_digits(n as nat));
    let d: usize = digits.as_str().unicode_len();
    let target: usize = if d >= w { 0 } else { w - d };
    let mut pad: usize = 0;
    let ghost padding = Seq::new(target as nat, |i: int| '0');
    while pad < target
        invariant
            pad <= padding.len(),
            target == if d >= w { 0int } else { w - d },
            padding =~= Seq::new(target as nat, |i: int| '0'),
            d == dec_digits(n as nat).len(),
            digits@ == dec_digits(n as nat),
            out@ == old(out)@ + padding.subrange(0, pad as int),
        decreases padding.len() - pad,
    {
        out.append("0");
        proof {
            reveal_strlit("0");
            assert(padding.subrange(0, pad + 1int) =~= padding.subrange(0, pad as int) + seq!['0']);
            assert(out@ =~= old(out)@ + padding.subrange(0, pad + 1int));
        }
        pad = pad + 1;
    }
    proof {
        assert(padding.subrange(0, padding.len() as int) =~= padding);
    }
    out.append(digits.as_str());
    proof {
        if d >= w {
            assert(padding =~= Seq::<char>::empty());
            assert(old(out)@ + padding + dec_digits(n as nat) =~= old(out)@ + dec_digits(n as nat));
            assert(dec_padded(n as nat, w as nat) == dec_digits(n as nat));
        } else {
            assert(dec_padded(n as nat, w as nat) =~= padding + dec_digits(n as nat));
            assert(old(out)@ + padding + dec_digits(n as nat) =~= old(out)@ + (padding + dec_digits(n as nat)));
        }
    }
}

pub open spec fn is_digit(c: char) -> bool {
    '0' <= c && c <= '9'
}

pub open spec fn digit_val(c: char) -> nat {
    (c as nat - '0' as nat) as nat
}

pub open spec fn all_digits(s: Seq<char>) -> bool {
    forall|i: int| 0 <= i < s.len() ==> is_digit(#[trigger] s[i])
}

/// The numeric value of a sequence of decimal digits.
pub open spec fn digits_val(s: Seq<char>) -> nat
    decreases s.len(),
{
    if s.len() == 0 {
        0
    } else {
        digits_val(s.drop_last()) * 10 + digit_val(s.last())
    }
}

/// The digits of a number, with an optional leading sign stripped.
/// Mirrors how `str::parse` for integer types splits its input.
pub open spec fn sign_split(s: Seq<char>, signed: bool) -> (bool, Seq<char>) {
    if s.len() > 0 && s[0] == '+' {
        (false, s.subrange(1, s.len() as int))
    } else if signed && s.len() > 0 && s[0] == '-' {
        (true, s.subrange(1, s.len() as int))
    } else {
        (false, s)
    }
}

/// What `str::parse::<u32>` returns: an optional `+` sign, then one or more
/// decimal digits whose value fits in the type.
pub open spec fn parse_u32_spec(s: Seq<char>) -> Option<u32> {
    let (_, digits) = sign_split(s, false);
    if digits.len() >= 1 && all_digits(digits) && digits_val(digits) <= u32::MAX {
        Some(digits_val(digits) as u32)
    } else {
        None
    }
}

/// What `str::parse::<i32>` returns: an optional sign, then one or more
/// decimal digits whose signed value fits in the type.
pub open spec fn parse_i32_spec(s: Seq<char>) -> Option<i32> {
    let (neg, digits) = sign_split(s, true);
    if digits.len() >= 1 && all_digits(digits) && (if neg {
        digits_val(digits) <= 0x8000_0000
    } else {
        digits_val(digits) <= 0x7fff_ffff
    }) {
        if neg {
            Some((0 - digits_val(digits) as int) as i32)
        } else {
            Some(digits_val(digits) as i32)
        }
    } else {
        None
    }
}

proof fn lemma_digits_val_prefix(s: Seq<char>, i: int)
    requires
        0 <= i <= s.len(),
    ensures
        digits_val(s.subrange(0, i)) <= digits_val(s),
    decreases s.len() - i,
{
    if i < s.len() {
        let t = s.subrange(0, i + 1);
        assert(t.drop_last() =~= s.subrange(0, i));
        assert(digits_val(s.subrange(0, i)) <= digits_val(t));
        lemma_digits_val_prefix(s, i + 1);
        assert(s.subrange(0, s.len() as int) =~= s);
    } else {
        assert(s.subrange(0, i) =~= s);
    }
}

/// Parse the digits of `s` from position `from` on, accepting values up
/// to `limit`.
fn parse_digits_limited(s: &str, from: usize, limit: u32) -> (r: Option<u32>)
    requires
        from <= s@.len(),
    ensures
        ({
            let digits = s@.subrange(from as int, s@.len() as int);
            match r {
                Some(v) => digits.len() >= 1 && all_digits(digits) && digits_val(digits) == v
                    && v <= limit,
                None => !(digits.len() >= 1 && all_digits(digits) && digits_val(digits)
                    <= limit),
            }
        }),
{
    let n: usize = s.unicode_len();
    let ghost digits = s@.subrange(from as int, s@.len() as int);
    if from == n {
        return None;
    }
    let mut acc: u32 = 0;
    let mut i: usize = from;
    while i < n
        invariant
            from < n,
            from <= i <= n,
            n == s@.len(),
            digits =~= s@.subrange(from as int, s@.len() as int),
            all_digits(s@.subrange(from as int, i as int)),
            acc == digits_val(s@.subrange(from as int, i as int)),
            acc <= limit,
        decreases n - i,
    {
        let c = s.get_char(i);
        if c < '0' || c > '9' {
            proof {
                assert(digits[i - from] == c);
                assert(!all_digits(digits));
            }
            return None;
        }
        let d: u32 = (c as u32) - ('0' as u32);
        proof {
            let p = s@.subrange(from as int, i as int);
            let p1 = s@.subrange(from as int, i + 1int);
            assert(p1.drop_last() =~= p);
            assert(p1.last() == c);
            assert(digits_val(p1) == acc * 10 + d);
        }
        if acc > limit / 10 || (acc == limit / 10 && d > limit % 10) {
            proof {
                let p1 = s@.subrange(from as int, i + 1int);
                assert(digits_val(p1) > limit);
                assert(p1 =~= digits.subrange(0, i + 1 - from));
                lemma_digits_val_prefix(digits, i + 1 - from);
            }
            return None;
        }
        assert(acc * 10 + d <= limit);
        acc = acc * 10 + d;
        i = i + 1;
    }
    proof {
        assert(s@.subrange(from as int, i as int) =~= digits);
    }
    Some(acc)
}

/// Parse a `u32` exactly as `str::parse::<u32>` does.
pub fn parse_u32(s: &str) -> (r: Option<u32>)
    ensures
        r == parse_u32_spec(s@),
{
    let n: usize = s.unicode_len();
    let from: usize = if n > 0 && s.get_char(0) == '+' {
        1
    } else {
        0
    };
    proof {
        let (neg, digits) = sign_split(s@, false);
        assert(digits =~= s@.subrange(from as int, s@.len() as int));
    }
    parse_digits_limited(s, from, u32::MAX)
}

/// Parse an `i32` exactly as `str::parse::<i32>` does.
pub fn parse_i32(s: &str) -> (r: Option<i32>)
    ensures
        r == parse_i32_spec(s@),
{
    let n: usize = s.unicode_len();
    let mut neg = false;
    let mut from: usize = 0;
    if n > 0 && s.get_char(0) == '+' {
        from = 1;
    } else if n > 0 && s.get_char(0) == '-' {
        neg = true;
        from = 1;
    }
    proof {
        let (sneg, digits) = sign_split(s@, true);
        assert(sneg == neg);
        assert(digits =~= s@.subrange(from as int, s@.len() as int));
    }
    let limit: u32 = if neg {
        0x8000_0000
    } else {
        0x7fff_ffff
    };
    match parse_digits_limited(s, from, limit) {
        None => None,
        Some(v) => {
            if neg {
                if v == 0x8000_0000 {
                    Some(i32::MIN)
                } else {
                    Some(-(v as i32))
                }
            } else {
                Some(v as i32)
            }
        }
    }
}

} // verus!
