//! Text primitives: building strings, comparing them, and the small lexical rules (trimming,
//! splitting, numbers) that the settings and the validation rules are written in.

use vstd::prelude::*;
use vstd::string::*;
use vstd::utf8::*;

verus! {

broadcast use group_string_axioms;

/// `String::push` appends one character at the end of the string and changes nothing else.
pub assume_specification[ String::push ](s: &mut String, c: char)
    ensures
        final(s)@ == old(s)@.push(c),
;

/// The characters of `s`, in order.
pub fn chars_of(s: &str) -> (v: Vec<char>)
    ensures
        v@ == s@,
{
    let mut v: Vec<char> = Vec::new();
    for c in it: s.chars()
        invariant
            it.seq() == s@,
            v@ == s@.take(it.index()),
    {
        v.push(c);
    }
    assert(s@.take(s@.len() as int) =~= s@);
    v
}

/// The string made of the characters `v[from..to]`.
pub fn string_of(v: &Vec<char>, from: usize, to: usize) -> (r: String)
    requires
        from <= to <= v.len(),
    ensures
        r@ == v@.subrange(from as int, to as int),
{
    let mut r = String::new();
    let mut i: usize = from;
    while i < to
        invariant
            from <= i <= to <= v.len(),
            r@ == v@.subrange(from as int, i as int),
        decreases to - i,
    {
        r.push(v[i]);
        i = i + 1;
    }
    r
}

/// Whether two strings hold the same characters.
pub fn same(a: &str, b: &str) -> (r: bool)
    ensures
        r == (a@ == b@),
{
    let x = a.as_bytes();
    let y = b.as_bytes();
    proof {
        encode_utf8_decode_utf8(a@);
        encode_utf8_decode_utf8(b@);
    }
    if x.len() != y.len() {
        return false;
    }
    let mut i: usize = 0;
    while i < x.len()
        invariant
            i <= x.len() == y.len(),
            x@ == encode_utf8(a@),
            y@ == encode_utf8(b@),
            x@.take(i as int) == y@.take(i as int),
        decreases x.len() - i,
    {
        if x[i] != y[i] {
            assert(x@[i as int] != y@[i as int]);
            return false;
        }
        assert(x@.take(i + 1) =~= x@.take(i as int).push(x@[i as int]));
        assert(y@.take(i + 1) =~= y@.take(i as int).push(y@[i as int]));
        i = i + 1;
    }
    assert(x@.take(i as int) =~= x@);
    assert(y@.take(i as int) =~= y@);
    true
}


/// Whether `x` is among the strings `v`.
pub fn among(v: &Vec<String>, x: &str) -> (r: bool)
    ensures
        r == v.deep_view().contains(x@),
{
    let mut i: usize = 0;
    while i < v.len()
        invariant
            i <= v.len(),
            forall|k: int| 0 <= k < i ==> v.deep_view()[k] != x@,
        decreases v.len() - i,
    {
        if same(v[i].as_str(), x) {
            assert(v.deep_view()[i as int] == x@);
            return true;
        }
        i = i + 1;
    }
    false
}

/// Whether two optional strings are both absent, or hold the same characters.
pub fn same_opt(a: &Option<String>, b: &Option<String>) -> (r: bool)
    ensures
        r == (a.deep_view() == b.deep_view()),
{
    match (a, b) {
        (Some(x), Some(y)) => same(x.as_str(), y.as_str()),
        (None, None) => true,
        _ => false,
    }
}

/// A borrowed view of an optional string.
pub fn opt_str(o: &Option<String>) -> (r: Option<&str>)
    ensures
        r.deep_view() == o.deep_view(),
{
    match o {
        Some(s) => Some(s.as_str()),
        None => None,
    }
}

// ---------------------------------------------------------------------------------------------
// Whitespace
// ---------------------------------------------------------------------------------------------

/// The characters with the Unicode `White_Space` property.
pub open spec fn is_white_space(c: char) -> bool {
    let n = c as int;
    ||| 0x9 <= n <= 0xd
    ||| n == 0x20
    ||| n == 0x85
    ||| n == 0xa0
    ||| n == 0x1680
    ||| 0x2000 <= n <= 0x200a
    ||| n == 0x2028
    ||| n == 0x2029
    ||| n == 0x202f
    ||| n == 0x205f
    ||| n == 0x3000
}

/// Whether `c` is white space.
pub fn white_space(c: char) -> (r: bool)
    ensures
        r == is_white_space(c),
{
    let n: u32 = c as u32;
    (0x9 <= n && n <= 0xd) || n == 0x20 || n == 0x85 || n == 0xa0 || n == 0x1680 || (0x2000 <= n
        && n <= 0x200a) || n == 0x2028 || n == 0x2029 || n == 0x202f || n == 0x205f || n == 0x3000
}

/// `s` without its leading white space.
pub open spec fn trim_start(s: Seq<char>) -> Seq<char>
    decreases s.len(),
{
    if s.len() > 0 && is_white_space(s[0]) {
        trim_start(s.drop_first())
    } else {
        s
    }
}

/// `s` without its trailing white space.
pub open spec fn trim_end(s: Seq<char>) -> Seq<char>
    decreases s.len(),
{
    if s.len() > 0 && is_white_space(s.last()) {
        trim_end(s.drop_last())
    } else {
        s
    }
}

/// `s` without the run of `c` at its end.
pub open spec fn trim_end_char(s: Seq<char>, c: char) -> Seq<char>
    decreases s.len(),
{
    if s.len() > 0 && s.last() == c {
        trim_end_char(s.drop_last(), c)
    } else {
        s
    }
}

/// `s` without white space at either end.
pub open spec fn trim(s: Seq<char>) -> Seq<char> {
    trim_end(trim_start(s))
}

/// `s` without white space at either end.
pub fn trimmed(s: &str) -> (r: String)
    ensures
        r@ == trim(s@),
{
    let v = chars_of(s);
    assert(v@.subrange(0, v@.len() as int) =~= s@);
    trimmed_range(&v, 0, v.len())
}

/// The characters `v[from..to]` without white space at either end.
pub fn trimmed_range(v: &Vec<char>, from: usize, to: usize) -> (r: String)
    requires
        from <= to <= v.len(),
    ensures
        r@ == trim(v@.subrange(from as int, to as int)),
{
    let ghost s = v@.subrange(from as int, to as int);
    let mut i: usize = from;
    while i < to && white_space(v[i])
        invariant
            from <= i <= to <= v.len(),
            trim_start(s) == trim_start(v@.subrange(i as int, to as int)),
        decreases to - i,
    {
        assert(v@.subrange(i as int, to as int).drop_first() =~= v@.subrange(i + 1, to as int));
        i = i + 1;
    }
    let ghost t = v@.subrange(i as int, to as int);
    assert(trim_start(s) == t);
    let mut j: usize = to;
    assert(v@.subrange(i as int, j as int) =~= t);
    while i < j && white_space(v[j - 1])
        invariant
            i <= j <= to <= v.len(),
            trim_end(t) == trim_end(v@.subrange(i as int, j as int)),
        decreases j - i,
    {
        assert(v@.subrange(i as int, j as int).drop_last() =~= v@.subrange(i as int, j - 1));
        j = j - 1;
    }
    string_of(v, i, j)
}

/// `s` without the run of `c` at its end.
pub fn without_trailing(s: &str, c: char) -> (r: String)
    ensures
        r@ == trim_end_char(s@, c),
{
    let v = chars_of(s);
    let mut j: usize = v.len();
    assert(v@.subrange(0, j as int) =~= s@);
    while 0 < j && v[j - 1] == c
        invariant
            j <= v.len(),
            trim_end_char(s@, c) == trim_end_char(v@.subrange(0, j as int), c),
        decreases j,
    {
        assert(v@.subrange(0, j as int).drop_last() =~= v@.subrange(0, j - 1));
        j = j - 1;
    }
    string_of(&v, 0, j)
}

// ---------------------------------------------------------------------------------------------
// Length in bytes
// ---------------------------------------------------------------------------------------------

/// How many bytes `s` takes in UTF-8.
pub open spec fn byte_len(s: Seq<char>) -> nat {
    encode_utf8(s).len()
}

/// Joined strings take as many bytes as both together.
pub proof fn lemma_byte_len_add(a: Seq<char>, b: Seq<char>)
    ensures
        byte_len(a + b) == byte_len(a) + byte_len(b),
    decreases a.len(),
{
    if a.len() == 0 {
        assert(a + b =~= b);
    } else {
        assert((a + b).drop_first() =~= a.drop_first() + b);
        lemma_byte_len_add(a.drop_first(), b);
    }
}

// ---------------------------------------------------------------------------------------------
// Splitting
// ---------------------------------------------------------------------------------------------

/// The position of the first `c` in `s`, or the length of `s` if there is none.
pub open spec fn find(s: Seq<char>, c: char) -> int
    decreases s.len(),
{
    if s.len() == 0 || s[0] == c {
        0
    } else {
        1 + find(s.drop_first(), c)
    }
}

/// The pieces of `s` between the separators: one more piece than there are separators.
pub open spec fn split(s: Seq<char>, sep: char) -> Seq<Seq<char>>
    decreases s.len(),
{
    if s.len() == 0 {
        seq![Seq::empty()]
    } else {
        let init = split(s.drop_last(), sep);
        if s.last() == sep {
            init.push(Seq::empty())
        } else {
            init.drop_last().push(init.last().push(s.last()))
        }
    }
}

/// The pieces joined again, with `sep` between each two.
pub open spec fn join(pieces: Seq<Seq<char>>, sep: Seq<char>) -> Seq<char>
    decreases pieces.len(),
{
    if pieces.len() == 0 {
        Seq::empty()
    } else if pieces.len() == 1 {
        pieces[0]
    } else {
        join(pieces.drop_last(), sep) + sep + pieces.last()
    }
}

/// Joining what `split` gives restores the text, and no piece holds the separator.
pub proof fn lemma_split(s: Seq<char>, sep: char)
    ensures
        split(s, sep).len() > 0,
        join(split(s, sep), seq![sep]) == s,
        forall|i: int| 0 <= i < split(s, sep).len() ==> !(#[trigger] split(s, sep)[i]).contains(sep),
    decreases s.len(),
{
    if s.len() > 0 {
        let init = split(s.drop_last(), sep);
        lemma_split(s.drop_last(), sep);
        if s.last() == sep {
            let all = init.push(Seq::empty());
            assert(all.drop_last() =~= init);
            assert(join(all, seq![sep]) =~= s);
        } else {
            let all = init.drop_last().push(init.last().push(s.last()));
            assert(all.drop_last() =~= init.drop_last());
            assert(s =~= s.drop_last().push(s.last()));
            if init.len() > 1 {
                let head = join(init.drop_last(), seq![sep]) + seq![sep];
                assert(head + init.last().push(s.last()) =~= (head + init.last()).push(s.last()));
            }
            assert(join(all, seq![sep]) =~= s);
            let last = init.last().push(s.last());
            assert(!init[init.len() - 1].contains(sep));
            assert forall|i: int| 0 <= i < all.len() implies !(#[trigger] all[i]).contains(sep) by {
                if i == all.len() - 1 {
                    assert forall|k: int| 0 <= k < last.len() implies last[k] != sep by {
                        if k < init.last().len() {
                            assert(last[k] == init.last()[k]);
                        }
                    }
                } else {
                    assert(all[i] == init[i]);
                }
            }
        }
    }
}

/// `find` points at the first occurrence.
pub proof fn lemma_find(s: Seq<char>, c: char)
    ensures
        0 <= find(s, c) <= s.len(),
        forall|i: int| 0 <= i < find(s, c) ==> s[i] != c,
        find(s, c) < s.len() ==> s[find(s, c)] == c,
    decreases s.len(),
{
    if s.len() > 0 && s[0] != c {
        let t = s.drop_first();
        lemma_find(t, c);
        assert forall|i: int| 0 <= i < find(s, c) implies s[i] != c by {
            if i > 0 {
                assert(s[i] == t[i - 1]);
            }
        }
    }
}

/// A position is `find`'s if nothing before it is `c` and it is `c` itself, or the end.
pub proof fn lemma_find_unique(s: Seq<char>, c: char, n: int)
    requires
        0 <= n <= s.len(),
        forall|i: int| 0 <= i < n ==> s[i] != c,
        n < s.len() ==> s[n] == c,
    ensures
        find(s, c) == n,
{
    lemma_find(s, c);
    let f = find(s, c);
    if f < n {
        assert(s[f] != c);
    }
}

/// The position of the first `c` in `v`, or its length.
pub fn find_char(v: &Vec<char>, c: char) -> (r: usize)
    ensures
        r == find(v@, c),
        r <= v.len(),
{
    let mut i: usize = 0;
    while i < v.len() && v[i] != c
        invariant
            i <= v.len(),
            forall|k: int| 0 <= k < i ==> v@[k] != c,
        decreases v.len() - i,
    {
        i = i + 1;
    }
    proof {
        lemma_find_unique(v@, c, i as int);
    }
    i
}

/// The pieces of `s` between the separators.
pub fn split_at_each(s: &str, sep: char) -> (r: Vec<String>)
    ensures
        r.deep_view() == split(s@, sep),
{
    let v = chars_of(s);
    let mut r: Vec<String> = Vec::new();
    let mut cur = String::new();
    let mut i: usize = 0;
    assert(r.deep_view().push(cur@) =~= split(v@.take(0), sep));
    while i < v.len()
        invariant
            i <= v.len(),
            r.deep_view().push(cur@) == split(v@.take(i as int), sep),
        decreases v.len() - i,
    {
        let ghost before = r.deep_view();
        let ghost piece = cur@;
        assert(v@.take(i + 1).drop_last() =~= v@.take(i as int));
        assert(split(v@.take(i as int), sep).drop_last() =~= before);
        assert(split(v@.take(i as int), sep).last() == piece);
        let c = v[i];
        if c == sep {
            r.push(cur);
            cur = String::new();
            assert(r.deep_view() =~= before.push(piece));
        } else {
            cur.push(c);
        }
        i = i + 1;
    }
    assert(v@.take(i as int) =~= s@);
    let ghost before = r.deep_view();
    let ghost piece = cur@;
    r.push(cur);
    assert(r.deep_view() =~= before.push(piece));
    r
}

/// The strings of `pieces` with `sep` between each two.
pub fn joined(pieces: &Vec<String>, sep: &str) -> (r: String)
    ensures
        r@ == join(pieces.deep_view(), sep@),
{
    let mut r = String::new();
    let mut i: usize = 0;
    while i < pieces.len()
        invariant
            i <= pieces.len(),
            r@ == join(pieces.deep_view().take(i as int), sep@),
        decreases pieces.len() - i,
    {
        let ghost all = pieces.deep_view();
        assert(all.take(i + 1).drop_last() =~= all.take(i as int));
        if i > 0 {
            r.append(sep);
        }
        r.append(pieces[i].as_str());
        assert(all.take(i + 1).last() == pieces@[i as int]@);
        if i == 0 {
            assert(Seq::<char>::empty() + pieces@[0]@ =~= pieces@[0]@);
        }
        i = i + 1;
    }
    assert(pieces.deep_view().take(i as int) =~= pieces.deep_view());
    r
}

// ---------------------------------------------------------------------------------------------
// Decimal numbers
// ---------------------------------------------------------------------------------------------

/// The decimal digit for `d`.
pub open spec fn digit(d: int) -> char {
    ('0' as int + d) as char
}

/// `n` written in decimal, without leading zeros.
pub open spec fn decimal(n: nat) -> Seq<char>
    decreases n,
{
    if n < 10 {
        seq![digit(n as int)]
    } else {
        decimal(n / 10).push(digit((n % 10) as int))
    }
}

/// `n` written in decimal, with a leading `-` when negative.
pub open spec fn decimal_int(n: int) -> Seq<char> {
    if n < 0 {
        seq!['-'] + decimal((-n) as nat)
    } else {
        decimal(n as nat)
    }
}

/// Whether `c` is a decimal digit.
pub open spec fn is_digit(c: char) -> bool {
    '0' <= c <= '9'
}

/// The number that a run of decimal digits stands for.
pub open spec fn digits_value(s: Seq<char>) -> nat
    decreases s.len(),
{
    if s.len() == 0 {
        0
    } else {
        (digits_value(s.drop_last()) * 10 + (s.last() as int - '0' as int)) as nat
    }
}

/// Whether `s` is a non-empty run of decimal digits.
pub open spec fn is_digits(s: Seq<char>) -> bool {
    s.len() > 0 && forall|i: int| 0 <= i < s.len() ==> is_digit(#[trigger] s[i])
}

/// The unsigned number that `s` spells, if it does: digits, after an optional `+`.
pub open spec fn unsigned_of(s: Seq<char>) -> Option<nat> {
    let body = if s.len() > 0 && s[0] == '+' {
        s.skip(1)
    } else {
        s
    };
    if is_digits(body) {
        Some(digits_value(body))
    } else {
        None
    }
}

/// The signed number that `s` spells, if it does: digits, after an optional `+` or `-`.
pub open spec fn signed_of(s: Seq<char>) -> Option<int> {
    if s.len() > 0 && s[0] == '-' {
        if is_digits(s.skip(1)) {
            Some(-(digits_value(s.skip(1)) as int))
        } else {
            None
        }
    } else {
        match unsigned_of(s) {
            Some(n) => Some(n as int),
            None => None,
        }
    }
}

/// Appends `n` in decimal.
pub fn push_decimal(out: &mut String, n: u64)
    ensures
        final(out)@ == old(out)@ + decimal(n as nat),
    decreases n,
{
    let ghost before = out@;
    if n >= 10 {
        push_decimal(out, n / 10);
    }
    let d: u8 = (n % 10) as u8;
    let c: char = (48 + d) as char;
    out.push(c);
    assert(out@ =~= before + decimal(n as nat));
}

/// `n` in decimal.
pub fn decimal_of(n: i64) -> (r: String)
    ensures
        r@ == decimal_int(n as int),
{
    let mut r = String::new();
    if n < 0 {
        r.push('-');
        let m: u64 = if n == i64::MIN {
            0x8000_0000_0000_0000
        } else {
            (-n) as u64
        };
        push_decimal(&mut r, m);
        assert(r@ =~= seq!['-'] + decimal((-n) as nat));
    } else {
        push_decimal(&mut r, n as u64);
        assert(r@ =~= decimal(n as nat));
    }
    r
}

/// Adding a digit makes the value at least ten times as large.
proof fn lemma_digits_value_grows(s: Seq<char>, i: int)
    requires
        0 <= i <= s.len(),
        forall|k: int| 0 <= k < s.len() ==> is_digit(#[trigger] s[k]),
    ensures
        digits_value(s.take(i)) <= digits_value(s),
    decreases s.len() - i,
{
    if i == s.len() {
        assert(s.take(i) =~= s);
    } else {
        lemma_digits_value_grows(s, i + 1);
        assert(s.take(i + 1).drop_last() =~= s.take(i));
        assert(is_digit(s[i]));
    }
}

/// The value of the digits `v[from..]`, unless they are no digits or the value is over `max`.
fn parse_digits(v: &Vec<char>, from: usize, max: u64) -> (r: Option<u64>)
    requires
        from <= v.len(),
        max <= 0xffff_ffff,
    ensures
        r == (if is_digits(v@.skip(from as int)) && digits_value(v@.skip(from as int)) <= max {
            Some(digits_value(v@.skip(from as int)) as u64)
        } else {
            None
        }),
{
    let ghost s = v@.skip(from as int);
    if from == v.len() {
        return None;
    }
    let mut n: u64 = 0;
    let mut i: usize = from;
    while i < v.len()
        invariant
            from <= i <= v.len(),
            max <= 0xffff_ffff,
            s == v@.skip(from as int),
            n <= max,
            n == digits_value(s.take(i - from)),
            forall|k: int| 0 <= k < i - from ==> is_digit(#[trigger] s[k]),
        decreases v.len() - i,
    {
        let c = v[i];
        assert(c == s[i - from]);
        if !('0' <= c && c <= '9') {
            return None;
        }
        let d: u64 = c as u64 - 48;
        assert(s.take(i + 1 - from).drop_last() =~= s.take(i - from));
        n = n * 10 + d;
        i = i + 1;
        if n > max {
            proof {
                if is_digits(s) {
                    lemma_digits_value_grows(s, i - from);
                }
            }
            return None;
        }
    }
    assert(s.take(i - from) =~= s);
    Some(n)
}

/// Parses an unsigned number of at most `max`: digits, after an optional `+`.
pub fn parse_unsigned(s: &str, max: u64) -> (r: Option<u64>)
    requires
        max <= 0xffff_ffff,
    ensures
        r == (match unsigned_of(s@) {
            Some(n) => if n <= max {
                Some(n as u64)
            } else {
                None
            },
            None => None,
        }),
{
    let v = chars_of(s);
    if v.len() > 0 && v[0] == '+' {
        parse_digits(&v, 1, max)
    } else {
        assert(v@.skip(0) =~= v@);
        parse_digits(&v, 0, max)
    }
}

/// Parses an `i32`: digits, after an optional `+` or `-`.
pub fn parse_i32(s: &str) -> (r: Option<i32>)
    ensures
        r == (match signed_of(s@) {
            Some(n) => if i32::MIN <= n <= i32::MAX {
                Some(n as i32)
            } else {
                None
            },
            None => None,
        }),
{
    let v = chars_of(s);
    if v.len() > 0 && v[0] == '-' {
        match parse_digits(&v, 1, 0x8000_0000) {
            Some(n) => Some((-(n as i64)) as i32),
            None => None,
        }
    } else {
        match parse_unsigned(s, 0x7fff_ffff) {
            Some(n) => Some(n as i32),
            None => None,
        }
    }
}

// ---------------------------------------------------------------------------------------------
// Letter case
// ---------------------------------------------------------------------------------------------

/// `c` in lower case, if it is an ASCII letter.
pub open spec fn lower(c: char) -> char {
    if 'A' <= c <= 'Z' {
        (c as int + 32) as char
    } else {
        c
    }
}

/// `c` in upper case, if it is an ASCII letter.
pub open spec fn upper(c: char) -> char {
    if 'a' <= c <= 'z' {
        (c as int - 32) as char
    } else {
        c
    }
}

/// `c` in lower case, if it is an ASCII letter.
pub fn to_lower(c: char) -> (r: char)
    ensures
        r == lower(c),
{
    if 'A' <= c && c <= 'Z' {
        (c as u8 + 32) as char
    } else {
        c
    }
}

/// `c` in upper case, if it is an ASCII letter.
pub fn to_upper(c: char) -> (r: char)
    ensures
        r == upper(c),
{
    if 'a' <= c && c <= 'z' {
        (c as u8 - 32) as char
    } else {
        c
    }
}

// ---------------------------------------------------------------------------------------------
// Laws
// ---------------------------------------------------------------------------------------------

/// Numbers below ten are written with one digit, and a further digit behind a number multiplies it
/// by ten.
pub proof fn law_decimal_is_positional(n: nat, d: nat)
    requires
        d < 10,
    ensures
        decimal(d) == seq![('0' as int + d) as char],
        n > 0 ==> decimal(10 * n + d) == decimal(n) + decimal(d),
        digits_value(decimal(n)) == n,
        digits_value(decimal(n).push(('0' as int + d) as char)) == 10 * n + d,
{
    let c = ('0' as int + d) as char;
    lemma_decimal(n);
    let s = decimal(n).push(c);
    assert(s.drop_last() =~= decimal(n));
    assert(s.last() == c);
    if n > 0 {
        let m = 10 * n + d;
        assert(m / 10 == n && m % 10 == d);
        assert(decimal(m) =~= decimal(n) + decimal(d));
    }
}

/// A number is written with digits alone and without leading zeros.
pub proof fn lemma_decimal(n: nat)
    ensures
        is_digits(decimal(n)),
        digits_value(decimal(n)) == n,
        decimal(n).len() == 1 || decimal(n)[0] != '0',
        decimal(n)[0] == '0' <==> n == 0,
    decreases n,
{
    let s = decimal(n);
    if n < 10 {
        assert(s.drop_last() =~= Seq::empty());
        assert(digits_value(Seq::<char>::empty()) == 0);
        assert(s.last() == digit(n as int));
    } else {
        lemma_decimal(n / 10);
        let init = decimal(n / 10);
        let d = (n % 10) as int;
        assert(s.drop_last() =~= init);
        assert(s.last() == digit(d));
        assert(s[0] == init[0]);
        assert forall|i: int| 0 <= i < s.len() implies is_digit(#[trigger] s[i]) by {
            if i < init.len() {
                assert(s[i] == init[i]);
            }
        }
    }
}

/// Digits without leading zeros are how their value is written.
pub proof fn lemma_decimal_of_value(s: Seq<char>)
    requires
        is_digits(s),
        s.len() == 1 || s[0] != '0',
    ensures
        decimal(digits_value(s)) == s,
    decreases s.len(),
{
    let init = s.drop_last();
    let c = s.last();
    assert(is_digit(s[s.len() - 1]));
    assert(s =~= init.push(c));
    if s.len() == 1 {
        assert(init =~= Seq::empty());
        assert(digits_value(Seq::<char>::empty()) == 0);
        assert(decimal(digits_value(s)) =~= s);
    } else {
        assert forall|i: int| 0 <= i < init.len() implies is_digit(#[trigger] init[i]) by {
            assert(init[i] == s[i]);
        }
        assert(init[0] == s[0]);
        lemma_decimal_of_value(init);
        lemma_decimal(digits_value(init));
        let n = digits_value(init);
        if n == 0 {
            assert(decimal(0nat)[0] == '0');
        }
        let m = digits_value(s);
        assert(m == n * 10 + (c as int - '0' as int));
        assert(m / 10 == n && m % 10 == c as int - '0' as int);
    }
}

/// What is written in decimal is read back, with a sign or without one; what holds anything but
/// digits behind the sign is not read.
pub proof fn law_numbers_are_read_back(n: nat, s: Seq<char>, i: int)
    ensures
        unsigned_of(decimal(n)) == Some(n),
        unsigned_of(seq!['+'] + decimal(n)) == Some(n),
        signed_of(decimal(n)) == Some(n as int),
        signed_of(seq!['+'] + decimal(n)) == Some(n as int),
        signed_of(seq!['-'] + decimal(n)) == Some(-(n as int)),
        n > 0 ==> signed_of(decimal_int(-(n as int))) == Some(-(n as int)),
        decimal_int(n as int) == decimal(n),
        n > 0 ==> decimal_int(-(n as int)) == seq!['-'] + decimal(n),
        unsigned_of(Seq::empty()) is None && signed_of(Seq::empty()) is None,
        unsigned_of(seq!['+']) is None && signed_of(seq!['-']) is None,
        0 <= i < s.len() && !('0' <= s[i] <= '9') && (i > 0 || s[0] != '+') ==> unsigned_of(s)
            is None,
        0 <= i < s.len() && !('0' <= s[i] <= '9') && (i > 0 || s[0] != '+' && s[0] != '-')
            ==> signed_of(s) is None,
{
    lemma_decimal(n);
    let d = decimal(n);
    assert(is_digit(d[0]));
    assert((seq!['+'] + d).skip(1) =~= d);
    assert((seq!['-'] + d).skip(1) =~= d);
    assert(seq!['+'].skip(1) =~= Seq::<char>::empty());
    assert(seq!['-'].skip(1) =~= Seq::<char>::empty());
    if 0 <= i < s.len() && !('0' <= s[i] <= '9') {
        if i > 0 {
            assert(s.skip(1)[i - 1] == s[i]);
            assert(!is_digits(s.skip(1)));
        }
        assert(!is_digits(s));
    }
}

/// White space at either end is all that is trimmed: what is left is a stretch of the text that
/// neither begins nor ends with white space, and what was cut off holds nothing else.
pub proof fn law_trim(s: Seq<char>) -> (cut: (int, int))
    ensures
        ({
            let (i, j) = cut;
            &&& 0 <= i <= j <= s.len()
            &&& trim(s) == s.subrange(i, j)
            &&& forall|k: int| 0 <= k < i ==> is_white_space(#[trigger] s[k])
            &&& forall|k: int| j <= k < s.len() ==> is_white_space(#[trigger] s[k])
            &&& i < j ==> !is_white_space(s[i]) && !is_white_space(s[j - 1])
        }),
{
    let i = lemma_trim_start(s);
    let t = s.skip(i);
    let j = lemma_trim_end(t);
    assert(trim(s) =~= s.subrange(i, i + j));
    assert forall|k: int| i + j <= k < s.len() implies is_white_space(#[trigger] s[k]) by {
        assert(t[k - i] == s[k]);
    }
    if j > 0 {
        assert(t[j - 1] == s[i + j - 1]);
        assert(t[0] == s[i]);
        assert(!is_white_space(t[0]));
    }
    (i, i + j)
}

proof fn lemma_trim_start(s: Seq<char>) -> (i: int)
    ensures
        0 <= i <= s.len(),
        trim_start(s) == s.skip(i),
        forall|k: int| 0 <= k < i ==> is_white_space(#[trigger] s[k]),
        i < s.len() ==> !is_white_space(s[i]),
    decreases s.len(),
{
    if s.len() > 0 && is_white_space(s[0]) {
        let i = lemma_trim_start(s.drop_first());
        assert(s.drop_first().skip(i) =~= s.skip(i + 1));
        assert forall|k: int| 0 <= k < i + 1 implies is_white_space(#[trigger] s[k]) by {
            if k > 0 {
                assert(s.drop_first()[k - 1] == s[k]);
            }
        }
        i + 1
    } else {
        assert(s.skip(0) =~= s);
        0
    }
}

proof fn lemma_trim_end(s: Seq<char>) -> (j: int)
    ensures
        0 <= j <= s.len(),
        trim_end(s) == s.take(j),
        forall|k: int| j <= k < s.len() ==> is_white_space(#[trigger] s[k]),
        j > 0 ==> !is_white_space(s[j - 1]),
    decreases s.len(),
{
    if s.len() > 0 && is_white_space(s.last()) {
        let j = lemma_trim_end(s.drop_last());
        assert(s.drop_last().take(j) =~= s.take(j));
        assert forall|k: int| j <= k < s.len() implies is_white_space(#[trigger] s[k]) by {
            if k < s.len() - 1 {
                assert(s.drop_last()[k] == s[k]);
            }
        }
        j
    } else {
        assert(s.take(s.len() as int) =~= s);
        s.len() as int
    }
}

/// Blanks, tabs and line ends are white space, and so are the wide and the unbreakable blanks; no
/// other character of ASCII from `!` on is.
pub proof fn law_white_space(c: char)
    ensures
        is_white_space('\u{85}') && is_white_space('\u{a0}') && is_white_space('\u{2003}')
            && is_white_space('\u{2028}') && is_white_space('\u{3000}'),
        is_white_space(' ') && is_white_space('\t') && is_white_space('\n') && is_white_space('\r'),
        '!' <= c <= '~' ==> !is_white_space(c),
{
}

/// Only the run of `c` at the end is cut off.
pub proof fn law_trim_end_char(s: Seq<char>, c: char) -> (j: int)
    ensures
        0 <= j <= s.len(),
        trim_end_char(s, c) == s.take(j),
        forall|k: int| j <= k < s.len() ==> #[trigger] s[k] == c,
        j > 0 ==> s[j - 1] != c,
    decreases s.len(),
{
    if s.len() > 0 && s.last() == c {
        let j = law_trim_end_char(s.drop_last(), c);
        assert(s.drop_last().take(j) =~= s.take(j));
        assert forall|k: int| j <= k < s.len() implies #[trigger] s[k] == c by {
            if k < s.len() - 1 {
                assert(s.drop_last()[k] == s[k]);
            }
        }
        j
    } else {
        assert(s.take(s.len() as int) =~= s);
        s.len() as int
    }
}

/// One text is its own join, and a further one stands behind the separator.
pub proof fn law_join(pieces: Seq<Seq<char>>, x: Seq<char>, sep: Seq<char>)
    ensures
        join(seq![x], sep) == x,
        pieces.len() > 0 ==> join(pieces.push(x), sep) == join(pieces, sep) + sep + x,
{
    if pieces.len() > 0 {
        assert(pieces.push(x).drop_last() =~= pieces);
    }
}

/// Splitting takes a join apart again: pieces that do not hold the separator are what it gives.
pub proof fn law_split_takes_a_join_apart(pieces: Seq<Seq<char>>, sep: char)
    requires
        pieces.len() > 0,
        forall|i: int| 0 <= i < pieces.len() ==> !(#[trigger] pieces[i]).contains(sep),
    ensures
        split(join(pieces, seq![sep]), sep) == pieces,
    decreases pieces.len(),
{
    let x = pieces.last();
    assert(!pieces[pieces.len() - 1].contains(sep));
    if pieces.len() == 1 {
        lemma_split_behind(Seq::empty(), x, sep);
        assert(Seq::<char>::empty() + x =~= x);
        assert(split(Seq::<char>::empty(), sep) =~= seq![Seq::<char>::empty()]);
        assert(split(x, sep) =~= pieces);
    } else {
        let init = pieces.drop_last();
        assert forall|i: int| 0 <= i < init.len() implies !(#[trigger] init[i]).contains(sep) by {
            assert(init[i] == pieces[i]);
        }
        law_split_takes_a_join_apart(init, sep);
        let head = join(init, seq![sep]) + seq![sep];
        assert(head.drop_last() =~= join(init, seq![sep]));
        assert(split(head, sep) == init.push(Seq::empty()));
        lemma_split_behind(head, x, sep);
        assert(split(head, sep).last() + x =~= x);
        assert(split(head, sep).drop_last() =~= init);
        assert(init.push(x) =~= pieces);
    }
}

/// Text without the separator extends the last piece.
pub proof fn lemma_split_behind(s: Seq<char>, x: Seq<char>, sep: char)
    requires
        !x.contains(sep),
    ensures
        split(s, sep).len() > 0,
        split(s + x, sep) == split(s, sep).drop_last().push(split(s, sep).last() + x),
    decreases x.len(),
{
    lemma_split(s, sep);
    let p = split(s, sep);
    if x.len() == 0 {
        assert(s + x =~= s);
        assert(p.last() + x =~= p.last());
        assert(p.drop_last().push(p.last()) =~= p);
    } else {
        let y = x.drop_last();
        assert(x[x.len() - 1] != sep);
        assert forall|k: int| 0 <= k < y.len() implies y[k] != sep by {
            assert(x[k] != sep);
        }
        lemma_split_behind(s, y, sep);
        assert((s + x).drop_last() =~= s + y);
        assert((s + x).last() == x.last());
        let q = split(s + y, sep);
        assert(q.drop_last() =~= p.drop_last());
        assert(q.last().push(x.last()) =~= p.last() + x);
    }
}

/// Letters of ASCII change their case and come back; nothing else changes.
pub proof fn law_letter_case(c: char)
    ensures
        'A' <= c <= 'Z' ==> lower(c) as int == c as int + ('a' as int - 'A' as int) && upper(lower(c))
            == c && upper(c) == c,
        'a' <= c <= 'z' ==> upper(c) as int == c as int + ('A' as int - 'a' as int) && lower(upper(c))
            == c && lower(c) == c,
        !('A' <= c <= 'Z') && !('a' <= c <= 'z') ==> lower(c) == c && upper(c) == c,
{
}

/// Any run of digits is read, with leading zeros or without: each digit counts ten times what the
/// one behind it does, and a zero in front counts for nothing.
pub proof fn law_digits_are_read(s: Seq<char>, c: char)
    requires
        forall|i: int| 0 <= i < s.len() ==> '0' <= #[trigger] s[i] <= '9',
        '0' <= c <= '9',
    ensures
        s.len() > 0 ==> unsigned_of(s) == Some(digits_value(s)),
        digits_value(s.push(c)) == 10 * digits_value(s) + (c as int - '0' as int),
        digits_value(seq!['0'] + s) == digits_value(s),
        digits_value(Seq::empty()) == 0,
    decreases s.len(),
{
    assert(s.push(c).drop_last() =~= s);
    assert forall|i: int| 0 <= i < s.len() implies is_digit(#[trigger] s[i]) by {}
    let z = seq!['0'] + s;
    if s.len() == 0 {
        assert(z.drop_last() =~= s);
        assert(s =~= Seq::empty());
    } else {
        assert(s[0] != '+');
        let init = s.drop_last();
        assert forall|i: int| 0 <= i < init.len() implies '0' <= #[trigger] init[i] <= '9' by {
            assert(init[i] == s[i]);
        }
        assert('0' <= s[s.len() - 1] <= '9');
        law_digits_are_read(init, s.last());
        assert(z.drop_last() =~= seq!['0'] + init);
        assert(z.last() == s.last());
    }
}

} // verus!
