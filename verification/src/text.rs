//! Text utilities on Rust strings, specified over their sequences of `char`s
//! and, where the bot's rules count bytes, over their UTF-8 encodings.

use vstd::prelude::*;
use vstd::utf8::*;

verus! {

/// `s` with `rep` put before each of its characters and at its end: what
/// replacing the empty pattern gives.
pub open spec fn interleave_spec(s: Seq<char>, rep: Seq<char>) -> Seq<char>
    decreases s.len(),
{
    if s.len() == 0 {
        rep
    } else {
        rep + seq![s[0]] + interleave_spec(s.drop_first(), rep)
    }
}

/// `s` with every occurrence of `pat` replaced by `rep`, scanning from the
/// left and never letting two replaced occurrences overlap; an empty
/// pattern occurs before every character and at the end.
pub open spec fn replace_spec(s: Seq<char>, pat: Seq<char>, rep: Seq<char>) -> Seq<char>
    decreases s.len(),
{
    if pat.len() == 0 {
        interleave_spec(s, rep)
    } else if s.len() == 0 {
        s
    } else if pat.is_prefix_of(s) {
        rep + replace_spec(s.skip(pat.len() as int), pat, rep)
    } else {
        seq![s[0]] + replace_spec(s.drop_first(), pat, rep)
    }
}

/// Appends one character to a string with `String::push`: the contract
/// claims that the string's characters are then the old ones followed by `c`.
#[verifier::external_body]
pub(crate) fn push_char(s: &mut String, c: char)
    ensures
        final(s)@ == old(s)@.push(c),
{
    s.push(c)
}

/// The characters of `s`, in order.
pub fn chars_of(s: &str) -> (res: Vec<char>)
    ensures
        res@ == s@,
{
    let mut res: Vec<char> = Vec::new();
    for c in it: s.chars()
        invariant
            res@ == it.seq().take(it.index() as int),
    {
        res.push(c);
    }
    res
}

/// The string made of the characters of `v`, in order.
pub fn string_of(v: &Vec<char>) -> (res: String)
    ensures
        res@ == v@,
{
    let mut res = String::new();
    let mut i: usize = 0;
    while i < v.len()
        invariant
            i <= v.len(),
            res@ == v@.take(i as int),
        decreases v.len() - i,
    {
        push_char(&mut res, v[i]);
        assert(res@ =~= v@.take(i as int + 1));
        i += 1;
    }
    assert(v@.take(v.len() as int) =~= v@);
    res
}

/// Appends the characters of `rep` to `out`.
fn push_all(out: &mut Vec<char>, rep: &Vec<char>)
    ensures
        final(out)@ == old(out)@ + rep@,
{
    let mut k: usize = 0;
    let ghost start = out@;
    while k < rep.len()
        invariant
            k <= rep.len(),
            out@ == start + rep@.take(k as int),
        decreases rep.len() - k,
    {
        out.push(rep[k]);
        assert(out@ =~= start + rep@.take(k as int + 1));
        k += 1;
    }
    assert(rep@.take(rep.len() as int) =~= rep@);
}

/// `s` with `rep` put before each of its characters and at its end.
fn interleave(s: &Vec<char>, rep: &Vec<char>) -> (res: Vec<char>)
    ensures
        res@ == interleave_spec(s@, rep@),
{
    let mut out: Vec<char> = Vec::new();
    let mut i: usize = 0;
    assert(s@.skip(0) =~= s@);
    while i < s.len()
        invariant
            i <= s.len(),
            out@ + interleave_spec(s@.skip(i as int), rep@) == interleave_spec(s@, rep@),
        decreases s.len() - i,
    {
        let ghost rest = s@.skip(i as int);
        let ghost start = out@;
        push_all(&mut out, rep);
        out.push(s[i]);
        assert(rest.drop_first() =~= s@.skip(i + 1));
        assert(start + (rep@ + seq![rest[0]] + interleave_spec(rest.drop_first(), rep@)) =~= out@
            + interleave_spec(s@.skip(i + 1), rep@));
        i += 1;
    }
    push_all(&mut out, rep);
    out
}

/// Whether `pat` occurs in `s` starting at position `i`.
fn occurs_at(s: &Vec<char>, i: usize, pat: &Vec<char>) -> (res: bool)
    requires
        i <= s.len(),
    ensures
        res == pat@.is_prefix_of(s@.skip(i as int)),
{
    if pat.len() > s.len() - i {
        return false;
    }
    let mut k: usize = 0;
    while k < pat.len()
        invariant
            k <= pat.len(),
            i + pat.len() <= s.len(),
            forall|j: int| 0 <= j < k ==> s@[i + j] == pat@[j],
        decreases pat.len() - k,
    {
        if s[i + k] != pat[k] {
            assert(s@.skip(i as int)[k as int] == s@[i + k]);
            return false;
        }
        k += 1;
    }
    assert(pat@ =~= s@.skip(i as int).subrange(0, pat.len() as int));
    true
}

/// The characters of `s` with every occurrence of `pat` replaced by those of `rep`.
pub fn replace_chars(s: &Vec<char>, pat: &Vec<char>, rep: &Vec<char>) -> (res: Vec<char>)
    ensures
        res@ == replace_spec(s@, pat@, rep@),
{
    if pat.len() == 0 {
        return interleave(s, rep);
    }
    let mut out: Vec<char> = Vec::new();
    let mut i: usize = 0;
    assert(s@.skip(0) =~= s@);
    while i < s.len()
        invariant
            i <= s.len(),
            pat.len() > 0,
            out@ + replace_spec(s@.skip(i as int), pat@, rep@) == replace_spec(s@, pat@, rep@),
        decreases s.len() - i,
    {
        let ghost rest = s@.skip(i as int);
        if occurs_at(s, i, pat) {
            let ghost start = out@;
            push_all(&mut out, rep);
            assert(rest.skip(pat.len() as int) =~= s@.skip(i + pat.len()));
            assert(start + (rep@ + replace_spec(rest.skip(pat.len() as int), pat@, rep@)) =~= out@
                + replace_spec(s@.skip(i + pat.len()), pat@, rep@));
            i += pat.len();
        } else {
            let ghost start = out@;
            out.push(s[i]);
            assert(rest.drop_first() =~= s@.skip(i + 1));
            assert(start + (seq![rest[0]] + replace_spec(rest.drop_first(), pat@, rep@)) =~= out@
                + replace_spec(s@.skip(i + 1), pat@, rep@));
            i += 1;
        }
    }
    assert(out@ + replace_spec(s@.skip(i as int), pat@, rep@) =~= out@);
    out
}

/// `s` with every occurrence of `pat` replaced by `rep`, as `str::replace` computes it.
pub fn replace(s: &str, pat: &str, rep: &str) -> (res: String)
    ensures
        res@ == replace_spec(s@, pat@, rep@),
{
    let sc = chars_of(s);
    let pc = chars_of(pat);
    let rc = chars_of(rep);
    let out = replace_chars(&sc, &pc, &rc);
    string_of(&out)
}

/// The number of bytes of the UTF-8 encoding of `s`: what `str::len` returns.
pub open spec fn byte_len(s: Seq<char>) -> nat {
    encode_utf8(s).len()
}

/// Whether byte offset `n` falls between two characters of `s` (or at either end).
pub open spec fn is_boundary(s: Seq<char>, n: int) -> bool {
    is_char_boundary(encode_utf8(s), n)
}

/// The characters whose encodings make up the first `n` bytes of `s`.
pub open spec fn byte_prefix(s: Seq<char>, n: int) -> Seq<char> {
    decode_utf8(encode_utf8(s).subrange(0, n))
}

/// The number of bytes of the UTF-8 encoding of `s`.
pub fn byte_length(s: &str) -> (n: usize)
    ensures
        n == byte_len(s@),
{
    s.as_bytes().len()
}

/// The first `n` bytes of `s`, read back as characters, form a prefix of `s`.
pub proof fn lemma_byte_prefix(s: Seq<char>, n: int)
    requires
        is_boundary(s, n),
    ensures
        byte_prefix(s, n).is_prefix_of(s),
        encode_utf8(byte_prefix(s, n)) == encode_utf8(s).subrange(0, n),
{
    let bytes = encode_utf8(s);
    encode_utf8_valid_utf8(s);
    encode_utf8_decode_utf8(s);
    valid_utf8_split(bytes, n);
    decode_utf8_split(bytes, n);
    decode_utf8_encode_utf8(bytes.subrange(0, n));
    let p = byte_prefix(s, n);
    assert(p =~= s.subrange(0, p.len() as int));
}

/// The encoding of `x + r` is that of `x` followed by that of `r`, and the
/// end of the encoding of `x` is a character boundary of `x + r`.
proof fn lemma_encode_concat(x: Seq<char>, r: Seq<char>)
    ensures
        encode_utf8(x + r) == encode_utf8(x) + encode_utf8(r),
        is_boundary(x + r, encode_utf8(x).len() as int),
    decreases x.len(),
{
    encode_utf8_valid_utf8(x + r);
    if x.len() == 0 {
        assert(x + r =~= r);
        assert(encode_utf8(x) + encode_utf8(r) =~= encode_utf8(r));
    } else {
        lemma_encode_concat(x.drop_first(), r);
        assert((x + r).drop_first() =~= x.drop_first() + r);
        let bytes = encode_utf8(x + r);
        let first = encode_scalar(x[0] as u32);
        assert(bytes == first + encode_utf8(x.drop_first() + r));
        assert(encode_utf8(x) == first + encode_utf8(x.drop_first()));
        assert(bytes =~= encode_utf8(x) + encode_utf8(r));
        encode_utf8_first_scalar(x + r);
        assert(first.len() >= 1);
        assert(pop_first_scalar(bytes) =~= encode_utf8(x.drop_first() + r));
    }
}

/// Cutting an ASCII head `x` off `x + r` by bytes gives back `x`.
pub proof fn lemma_ascii_cut(x: Seq<char>, r: Seq<char>)
    requires
        is_ascii_chars(x),
    ensures
        is_boundary(x + r, x.len() as int),
        byte_prefix(x + r, x.len() as int) == x,
{
    lemma_encode_concat(x, r);
    is_ascii_chars_encode_utf8(x);
    let bytes = encode_utf8(x + r);
    assert(bytes.subrange(0, x.len() as int) =~= encode_utf8(x));
    encode_utf8_decode_utf8(x);
}

/// `s` cut after its first `n` bytes, as `String::truncate` leaves it:
/// unchanged where it is no longer than `n` bytes.
pub fn truncate_bytes(s: &str, n: usize) -> (res: String)
    requires
        n >= byte_len(s@) || is_boundary(s@, n as int),
    ensures
        n >= byte_len(s@) ==> res@ == s@,
        n < byte_len(s@) ==> res@ == byte_prefix(s@, n as int),
        res@.is_prefix_of(s@),
        byte_len(res@) == if n < byte_len(s@) { n as nat } else { byte_len(s@) },
{
    if n >= byte_length(s) {
        assert(s@.is_prefix_of(s@)) by {
            assert(s@ =~= s@.subrange(0, s@.len() as int));
        }
        s.to_owned()
    } else {
        let (head, _tail) = s.split_at(n);
        proof {
            encode_utf8_decode_utf8(head@);
            lemma_byte_prefix(s@, n as int);
        }
        head.to_owned()
    }
}

/// `s` with everything from byte `n` on replaced by `rep`, as
/// `String::replace_range(n.., rep)` leaves it.
pub fn replace_tail(s: &str, n: usize, rep: &str) -> (res: String)
    requires
        is_boundary(s@, n as int),
    ensures
        res@ == byte_prefix(s@, n as int) + rep@,
{
    let (head, _tail) = s.split_at(n);
    proof {
        encode_utf8_decode_utf8(head@);
    }
    let mut res = head.to_owned();
    res.append(rep);
    res
}

/// Whether `c` is one of the ASCII digits `0` to `9`.
pub open spec fn is_digit(c: char) -> bool {
    '0' <= c <= '9'
}

/// The value of the ASCII digit `c`.
pub open spec fn digit_value(c: char) -> nat {
    (c as int - '0' as int) as nat
}

/// The number that the decimal digits `s` spell, most significant first.
pub open spec fn digits_value(s: Seq<char>) -> nat
    decreases s.len(),
{
    if s.len() == 0 {
        0
    } else {
        digits_value(s.drop_last()) * 10 + digit_value(s.last())
    }
}

/// Whether every character of `s` is a decimal digit.
pub open spec fn all_digits(s: Seq<char>) -> bool {
    forall|i: int| 0 <= i < s.len() ==> is_digit(#[trigger] s[i])
}

/// `s` without the one `+` that may lead it.
pub open spec fn unsigned_digits(s: Seq<char>) -> Seq<char> {
    if s.len() > 0 && s[0] == '+' {
        s.drop_first()
    } else {
        s
    }
}

/// What `str::parse::<u128>` makes of `s`: an optional `+`, then at least one
/// decimal digit and nothing else, for a value that fits in 128 bits.
pub open spec fn parse_u128_spec(s: Seq<char>) -> Option<u128> {
    let d = unsigned_digits(s);
    if d.len() > 0 && all_digits(d) && digits_value(d) <= u128::MAX {
        Some(digits_value(d) as u128)
    } else {
        None
    }
}

/// The value of a run of digits is at least that of any of its prefixes.
proof fn lemma_digits_value_prefix(s: Seq<char>, k: int)
    requires
        0 <= k <= s.len(),
    ensures
        digits_value(s.take(k)) <= digits_value(s),
    decreases s.len() - k,
{
    if k < s.len() {
        lemma_digits_value_prefix(s, k + 1);
        assert(s.take(k + 1).drop_last() =~= s.take(k));
    } else {
        assert(s.take(k) =~= s);
    }
}

/// The number that `s` spells in decimal, as `str::parse::<u128>` reads it;
/// `None` where that parse fails.
pub fn parse_u128(s: &str) -> (res: Option<u128>)
    ensures
        res == parse_u128_spec(s@),
{
    let cs = chars_of(s);
    let mut i: usize = 0;
    if cs.len() > 0 && cs[0] == '+' {
        i = 1;
    }
    let ghost d = unsigned_digits(s@);
    assert(d =~= s@.skip(i as int));
    if i == cs.len() {
        return None;
    }
    let start = i;
    let mut acc: u128 = 0;
    while i < cs.len()
        invariant
            start <= i <= cs.len(),
            cs@ == s@,
            d == unsigned_digits(s@),
            d == cs@.skip(start as int),
            all_digits(d.take(i - start)),
            acc == digits_value(d.take(i - start)),
        decreases cs.len() - i,
    {
        let c = cs[i];
        let k = i - start;
        assert(d[k as int] == c);
        if c < '0' || c > '9' {
            assert(!all_digits(d));
            return None;
        }
        let dv: u32 = (c as u32) - ('0' as u32);
        assert(d.take(k + 1).drop_last() =~= d.take(k as int));
        assert(d.take(k + 1).last() == c);
        assert(all_digits(d.take(k + 1)));
        match acc.checked_mul(10) {
            Some(m) => match m.checked_add(dv as u128) {
                Some(v) => {
                    acc = v;
                },
                None => {
                    proof {
                        lemma_digits_value_prefix(d, k + 1);
                    }
                    return None;
                },
            },
            None => {
                proof {
                    lemma_digits_value_prefix(d, k + 1);
                }
                return None;
            },
        }
        i += 1;
    }
    assert(d.take(i - start) =~= d);
    Some(acc)
}

/// The decimal digit character for `k`, which is below ten.
pub open spec fn digit_char(k: nat) -> char {
    ('0' as int + k) as char
}

/// The decimal rendering of `n`, without leading zeros.
pub open spec fn decimal_spec(n: nat) -> Seq<char>
    decreases n,
{
    if n < 10 {
        seq![digit_char(n)]
    } else {
        decimal_spec(n / 10) + seq![digit_char(n % 10)]
    }
}

/// The decimal digit character for `k`.
fn digit(k: usize) -> (c: char)
    requires
        k < 10,
    ensures
        c == digit_char(k as nat),
{
    match k {
        0 => '0',
        1 => '1',
        2 => '2',
        3 => '3',
        4 => '4',
        5 => '5',
        6 => '6',
        7 => '7',
        8 => '8',
        _ => '9',
    }
}

/// The decimal rendering of `n`, as `format!("{}", n)` writes it.
pub fn decimal(n: usize) -> (res: String)
    ensures
        res@ == decimal_spec(n as nat),
    decreases n,
{
    let c = digit(n % 10);
    let mut res = if n < 10 {
        String::new()
    } else {
        decimal(n / 10)
    };
    push_char(&mut res, c);
    res
}

/// Reading back the decimal rendering of a number gives the number:
/// `parse_u128` undoes `decimal` for every value that fits in 128 bits.
pub proof fn lemma_parse_decimal(n: nat)
    requires
        n <= u128::MAX,
    ensures
        parse_u128_spec(decimal_spec(n)) == Some(n as u128),
{
    lemma_decimal_digits(n);
    let d = decimal_spec(n);
    assert(is_digit(d[0]));
}

/// The decimal rendering of `n` is a non-empty run of digits worth `n`.
pub proof fn lemma_decimal_digits(n: nat)
    ensures
        decimal_spec(n).len() > 0,
        all_digits(decimal_spec(n)),
        digits_value(decimal_spec(n)) == n,
    decreases n,
{
    if n < 10 {
        let d = decimal_spec(n);
        assert(d.drop_last() =~= Seq::<char>::empty());
        assert(digit_value(digit_char(n)) == n);
        assert(digits_value(d) == digits_value(d.drop_last()) * 10 + digit_value(d.last()));
    } else {
        lemma_decimal_digits(n / 10);
        let d = decimal_spec(n);
        let hi = decimal_spec(n / 10);
        assert(d.drop_last() =~= hi);
        assert(digit_value(digit_char(n % 10)) == n % 10);
        assert(digits_value(d) == digits_value(hi) * 10 + n % 10);
        assert forall|i: int| 0 <= i < d.len() implies is_digit(#[trigger] d[i]) by {
            if i < hi.len() {
                assert(d[i] == hi[i]);
            }
        }
    }
}

/// Where no occurrence of `pat` starts inside `x`, replacing in `x + b`
/// leaves `x` as it is and replaces in `b`.
pub proof fn lemma_replace_unmatched_head(x: Seq<char>, b: Seq<char>, pat: Seq<char>, rep: Seq<char>)
    requires
        pat.len() > 0,
        forall|i: int| 0 <= i < x.len() ==> !pat.is_prefix_of(#[trigger] (x + b).skip(i)),
    ensures
        replace_spec(x + b, pat, rep) == x + replace_spec(b, pat, rep),
    decreases x.len(),
{
    if x.len() == 0 {
        assert(x + b =~= b);
        assert(x + replace_spec(b, pat, rep) =~= replace_spec(b, pat, rep));
    } else {
        let s = x + b;
        assert(s.skip(0) =~= s);
        let xd = x.drop_first();
        assert(s.drop_first() =~= xd + b);
        assert forall|i: int| 0 <= i < xd.len() implies !pat.is_prefix_of(#[trigger] (xd + b).skip(i)) by {
            assert((xd + b).skip(i) =~= s.skip(i + 1));
        }
        lemma_replace_unmatched_head(xd, b, pat, rep);
        assert(seq![s[0]] + (xd + replace_spec(b, pat, rep)) =~= x + replace_spec(b, pat, rep));
    }
}

/// Replacing in a text that starts with `pat` replaces that occurrence first.
pub proof fn lemma_replace_matched_head(b: Seq<char>, pat: Seq<char>, rep: Seq<char>)
    requires
        pat.len() > 0,
    ensures
        replace_spec(pat + b, pat, rep) == rep + replace_spec(b, pat, rep),
{
    let s = pat + b;
    assert(pat =~= s.subrange(0, pat.len() as int));
    assert(s.skip(pat.len() as int) =~= b);
}

/// Removing every `c` from a text leaves no `c` in it.
pub proof fn lemma_remove_all(s: Seq<char>, c: char)
    ensures
        !replace_spec(s, seq![c], Seq::<char>::empty()).contains(c),
    decreases s.len(),
{
    let pat = seq![c];
    let out = replace_spec(s, pat, Seq::<char>::empty());
    if s.len() == 0 {
    } else if pat.is_prefix_of(s) {
        lemma_remove_all(s.skip(1), c);
        assert(out =~= replace_spec(s.skip(1), pat, Seq::<char>::empty()));
    } else {
        lemma_remove_all(s.drop_first(), c);
        let rest = replace_spec(s.drop_first(), pat, Seq::<char>::empty());
        assert(s[0] != c) by {
            if s[0] == c {
                assert(pat =~= s.subrange(0, 1));
            }
        }
        assert forall|i: int| 0 <= i < out.len() implies out[i] != c by {
            if i > 0 {
                assert(out[i] == rest[i - 1]);
            }
        }
    }
}

/// The characters of `s` other than double quotes, in order.
pub open spec fn quoteless(s: Seq<char>) -> Seq<char> {
    s.filter(|x: char| x != '"')
}

/// Removing every double quote from a text keeps all its other characters,
/// in order, and nothing else.
pub proof fn lemma_remove_quotes_keeps_the_rest(s: Seq<char>)
    ensures
        replace_spec(s, seq!['"'], Seq::<char>::empty()) == quoteless(s),
    decreases s.len(),
{
    let pred = |x: char| x != '"';
    if s.len() > 0 {
        let head = seq![s[0]];
        let rest = s.drop_first();
        assert(s =~= head + rest);
        Seq::filter_distributes_over_add(head, rest, pred);
        reveal_with_fuel(Seq::filter, 2);
        assert(head.drop_last() =~= Seq::<char>::empty());
        lemma_remove_quotes_keeps_the_rest(rest);
        let pat = seq!['"'];
        if s[0] == '"' {
            assert(pat =~= s.subrange(0, 1));
            assert(s.skip(1) =~= rest);
            assert(head.filter(pred) =~= Seq::<char>::empty());
            assert(quoteless(s) =~= quoteless(rest));
        } else {
            assert(!pat.is_prefix_of(s)) by {
                if pat.is_prefix_of(s) {
                    assert(pat[0] == s.subrange(0, 1)[0]);
                }
            }
            assert(head.filter(pred) =~= head);
            assert(quoteless(s) =~= head + quoteless(rest));
        }
    }
}

/// Removing a character that a text does not hold leaves the text unchanged.
pub proof fn lemma_replace_absent(s: Seq<char>, c: char)
    requires
        !s.contains(c),
    ensures
        replace_spec(s, seq![c], Seq::<char>::empty()) == s,
    decreases s.len(),
{
    if s.len() > 0 {
        let pat = seq![c];
        assert(s[0] != c);
        assert(!pat.is_prefix_of(s)) by {
            if pat.is_prefix_of(s) {
                assert(pat[0] == s.subrange(0, 1)[0]);
            }
        }
        assert(!s.drop_first().contains(c)) by {
            if s.drop_first().contains(c) {
                let i = choose|i: int| 0 <= i < s.drop_first().len() && s.drop_first()[i] == c;
                assert(s[i + 1] == c);
            }
        }
        lemma_replace_absent(s.drop_first(), c);
        assert(seq![s[0]] + s.drop_first() =~= s);
    }
}

/// The text with every double quote preceded by a backslash.
pub open spec fn escape_quotes_spec(s: Seq<char>) -> Seq<char> {
    replace_spec(s, seq!['"'], seq!['\\', '"'])
}

/// In a text whose quotes have been escaped, every double quote is preceded by a backslash.
pub proof fn lemma_escaped_quotes(s: Seq<char>)
    ensures
        forall|i: int|
            0 <= i < escape_quotes_spec(s).len() && #[trigger] escape_quotes_spec(s)[i] == '"'
                ==> i > 0 && escape_quotes_spec(s)[i - 1] == '\\',
    decreases s.len(),
{
    let pat = seq!['"'];
    let rep = seq!['\\', '"'];
    let out = escape_quotes_spec(s);
    if s.len() == 0 {
    } else if pat.is_prefix_of(s) {
        lemma_escaped_quotes(s.skip(1));
        let rest = escape_quotes_spec(s.skip(1));
        assert(out =~= rep + rest);
        assert forall|i: int| 0 <= i < out.len() && #[trigger] out[i] == '"' implies i > 0 && out[i
            - 1] == '\\' by {
            if i >= 2 {
                assert(out[i] == rest[i - 2]);
                if i - 2 > 0 {
                    assert(out[i - 1] == rest[i - 3]);
                }
            }
        }
    } else {
        lemma_escaped_quotes(s.drop_first());
        let rest = escape_quotes_spec(s.drop_first());
        assert(out =~= seq![s[0]] + rest);
        assert(s[0] != '"') by {
            if s[0] == '"' {
                assert(pat =~= s.subrange(0, 1));
            }
        }
        assert forall|i: int| 0 <= i < out.len() && #[trigger] out[i] == '"' implies i > 0 && out[i
            - 1] == '\\' by {
            if i >= 1 {
                assert(out[i] == rest[i - 1]);
                if i - 1 > 0 {
                    assert(out[i - 1] == rest[i - 2]);
                }
            }
        }
    }
}

/// `s` with every double quote preceded by a backslash, as
/// `s.replace("\"", "\\\"")` leaves it.
pub fn escape_quotes(s: &str) -> (res: String)
    ensures
        res@ == escape_quotes_spec(s@),
{
    let pat = vec!['"'];
    let rep = vec!['\\', '"'];
    assert(pat@ =~= seq!['"']);
    assert(rep@ =~= seq!['\\', '"']);
    let cs = chars_of(s);
    let out = replace_chars(&cs, &pat, &rep);
    string_of(&out)
}

/// `s` without any double quote, as `s.replace("\"", "")` leaves it.
pub fn remove_quotes(s: &str) -> (res: String)
    ensures
        res@ == replace_spec(s@, seq!['"'], Seq::<char>::empty()),
{
    let pat = vec!['"'];
    let rep: Vec<char> = Vec::new();
    assert(pat@ =~= seq!['"']);
    assert(rep@ =~= Seq::<char>::empty());
    let cs = chars_of(s);
    let out = replace_chars(&cs, &pat, &rep);
    string_of(&out)
}

} // verus!
