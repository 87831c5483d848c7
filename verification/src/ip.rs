//! Textual IP addresses and address blocks.

use vstd::prelude::*;

use crate::text;

verus! {

// ---------------------------------------------------------------------------------------------
// Addresses
// ---------------------------------------------------------------------------------------------

/// Whether `s` is one of the four numbers of an IPv4 address: at most three decimal digits, no
/// leading zero, at most 255.
pub open spec fn is_octet(s: Seq<char>) -> bool {
    &&& text::is_digits(s)
    &&& s.len() <= 3
    &&& s.len() == 1 || s[0] != '0'
    &&& text::digits_value(s) <= 255
}

/// Whether `s` is an IPv4 address: four numbers with dots between them.
pub open spec fn is_ipv4(s: Seq<char>) -> bool {
    let parts = text::split(s, '.');
    parts.len() == 4 && forall|i: int| 0 <= i < 4 ==> is_octet(#[trigger] parts[i])
}

/// Whether `c` is a hexadecimal digit.
pub open spec fn is_hex_digit(c: char) -> bool {
    '0' <= c <= '9' || 'a' <= c <= 'f' || 'A' <= c <= 'F'
}

/// Whether `s` is one group of an IPv6 address: one to four hexadecimal digits.
pub open spec fn is_group(s: Seq<char>) -> bool {
    1 <= s.len() <= 4 && forall|i: int| 0 <= i < s.len() ==> is_hex_digit(#[trigger] s[i])
}

/// How many groups the pieces stand for, if each is a group; the last may be an IPv4 address where
/// `v4` says so, and then stands for two.
pub open spec fn width(pieces: Seq<Seq<char>>, v4: bool) -> Option<nat> {
    if pieces.len() == 0 {
        Some(0)
    } else if !(forall|i: int| 0 <= i < pieces.len() - 1 ==> is_group(#[trigger] pieces[i])) {
        None
    } else if is_group(pieces.last()) {
        Some(pieces.len())
    } else if v4 && is_ipv4(pieces.last()) {
        Some(pieces.len() + 1)
    } else {
        None
    }
}

/// The groups of a part of an IPv6 address; an empty part has none.
pub open spec fn groups(s: Seq<char>) -> Seq<Seq<char>> {
    if s.len() == 0 {
        Seq::empty()
    } else {
        text::split(s, ':')
    }
}

/// The position of the first `::` in `s`, or the length of `s` if there is none.
pub open spec fn find_gap(s: Seq<char>) -> int
    decreases s.len(),
{
    if s.len() < 2 {
        s.len() as int
    } else if s[0] == ':' && s[1] == ':' {
        0
    } else {
        1 + find_gap(s.drop_first())
    }
}

/// Whether `s` is an IPv6 address: eight groups with colons between them, or a `::` in place of at
/// least one group. The last two groups may be written as an IPv4 address.
pub open spec fn is_ipv6(s: Seq<char>) -> bool {
    let at = find_gap(s);
    if at >= s.len() {
        width(groups(s), true) == Some(8nat)
    } else {
        match (width(groups(s.take(at)), false), width(groups(s.skip(at + 2)), true)) {
            (Some(head), Some(tail)) => head + tail <= 7,
            _ => false,
        }
    }
}

/// Whether `s` is one of the four numbers of an IPv4 address.
fn octet(s: &str) -> (r: bool)
    ensures
        r == is_octet(s@),
{
    let v = text::chars_of(s);
    if v.len() == 0 || v.len() > 3 {
        return false;
    }
    if v.len() > 1 && v[0] == '0' {
        return false;
    }
    if v[0] == '+' {
        assert(!text::is_digit(s@[0]));
        return false;
    }
    match text::parse_unsigned(s, 255) {
        Some(_) => true,
        None => false,
    }
}

/// Whether `s` is an IPv4 address.
pub fn ipv4(s: &str) -> (r: bool)
    ensures
        r == is_ipv4(s@),
{
    let parts = text::split_at_each(s, '.');
    if parts.len() != 4 {
        return false;
    }
    let mut i: usize = 0;
    while i < 4
        invariant
            i <= 4,
            parts.len() == 4,
            parts.deep_view() == text::split(s@, '.'),
            forall|k: int| 0 <= k < i ==> is_octet(#[trigger] parts.deep_view()[k]),
        decreases 4 - i,
    {
        if !octet(parts[i].as_str()) {
            assert(!is_octet(parts.deep_view()[i as int]));
            return false;
        }
        assert(is_octet(parts.deep_view()[i as int]));
        i = i + 1;
    }
    true
}

/// Whether `s` is one group of an IPv6 address.
fn group(s: &str) -> (r: bool)
    ensures
        r == is_group(s@),
{
    let v = text::chars_of(s);
    if v.len() == 0 || v.len() > 4 {
        return false;
    }
    let mut i: usize = 0;
    while i < v.len()
        invariant
            i <= v.len(),
            v@ == s@,
            forall|k: int| 0 <= k < i ==> is_hex_digit(#[trigger] s@[k]),
        decreases v.len() - i,
    {
        let c = v[i];
        if !(('0' <= c && c <= '9') || ('a' <= c && c <= 'f') || ('A' <= c && c <= 'F')) {
            assert(!is_hex_digit(s@[i as int]));
            return false;
        }
        i = i + 1;
    }
    true
}

/// How many groups a part of an IPv6 address stands for, if it is well formed.
fn part_width(s: &str, v4: bool) -> (r: Option<usize>)
    ensures
        match r {
            Some(n) => width(groups(s@), v4) == Some(n as nat),
            None => width(groups(s@), v4) is None || width(groups(s@), v4)->0 > 8,
        },
{
    if s.is_empty() {
        return Some(0);
    }
    let pieces = text::split_at_each(s, ':');
    proof {
        text::lemma_split(s@, ':');
    }
    let ghost all = pieces.deep_view();
    let n = pieces.len();
    let mut i: usize = 0;
    while i < n - 1
        invariant
            i <= n - 1,
            n == pieces.len(),
            n > 0,
            s@.len() > 0,
            all == pieces.deep_view(),
            all == groups(s@),
            forall|k: int| 0 <= k < i ==> is_group(#[trigger] all[k]),
        decreases n - i,
    {
        if !group(pieces[i].as_str()) {
            assert(!is_group(all[i as int]));
            return None;
        }
        assert(is_group(all[i as int]));
        i = i + 1;
    }
    assert(all.last() == pieces@[n - 1]@);
    if group(pieces[n - 1].as_str()) {
        Some(n)
    } else if v4 && ipv4(pieces[n - 1].as_str()) {
        if n < 8 {
            Some(n + 1)
        } else {
            None
        }
    } else {
        None
    }
}

/// The position of the first `::`, or the length.
fn gap(v: &Vec<char>) -> (r: usize)
    ensures
        r == find_gap(v@),
        r <= v.len(),
{
    let mut i: usize = 0;
    assert(v@.skip(0) =~= v@);
    while i < v.len()
        invariant
            i <= v.len(),
            find_gap(v@) == i + find_gap(v@.skip(i as int)),
        decreases v.len() - i,
    {
        if v.len() - i < 2 {
            return v.len();
        }
        if v[i] == ':' && v[i + 1] == ':' {
            return i;
        }
        assert(v@.skip(i as int).drop_first() =~= v@.skip(i + 1));
        i = i + 1;
    }
    i
}

/// Whether `s` is an IPv6 address.
pub fn ipv6(s: &str) -> (r: bool)
    ensures
        r == is_ipv6(s@),
{
    let v = text::chars_of(s);
    let at = gap(&v);
    if at >= v.len() {
        return match part_width(s, true) {
            Some(n) => n == 8,
            None => false,
        };
    }
    proof {
        lemma_gap(v@);
    }
    let head = text::string_of(&v, 0, at);
    let tail = text::string_of(&v, at + 2, v.len());
    assert(head@ =~= s@.take(at as int));
    assert(tail@ =~= s@.skip(at + 2));
    match part_width(head.as_str(), false) {
        Some(h) => match part_width(tail.as_str(), true) {
            Some(t) => h <= 7 && t <= 7 - h,
            None => false,
        },
        None => false,
    }
}

/// Where there is a gap, two characters stand there.
proof fn lemma_gap(s: Seq<char>)
    ensures
        0 <= find_gap(s) <= s.len(),
        find_gap(s) < s.len() ==> find_gap(s) + 2 <= s.len(),
    decreases s.len(),
{
    if s.len() >= 2 && !(s[0] == ':' && s[1] == ':') {
        lemma_gap(s.drop_first());
    }
}

// ---------------------------------------------------------------------------------------------
// Blocks
// ---------------------------------------------------------------------------------------------

/// What is wrong with an address block, if anything is.
pub open spec fn block_problem(cidr: Seq<char>) -> Option<Seq<char>> {
    let at = text::find(cidr, '/');
    let addr = cidr.take(at);
    let prefix = text::unsigned_of(cidr.skip(at + 1));
    let max = if is_ipv4(addr) {
        32nat
    } else {
        128nat
    };
    if at >= cidr.len() {
        Some("missing a /prefix length"@)
    } else if !is_ipv4(addr) && !is_ipv6(addr) {
        Some("not an IP address"@)
    } else if prefix matches Some(n) && n <= max {
        None
    } else {
        Some("prefix length out of range"@)
    }
}

/// Why an egress CIDR is invalid, if it is: it needs an IPv4 or IPv6 address and a `/prefix` no
/// longer than the address (32 or 128 bits).
pub fn cidr_problem(cidr: &str) -> (r: Option<&'static str>)
    ensures
        r.deep_view() == block_problem(cidr@),
{
    let v = text::chars_of(cidr);
    let at = text::find_char(&v, '/');
    if at >= v.len() {
        return Some("missing a /prefix length");
    }
    let addr = text::string_of(&v, 0, at);
    let prefix = text::string_of(&v, at + 1, v.len());
    assert(addr@ =~= cidr@.take(at as int));
    assert(prefix@ =~= cidr@.skip(at + 1));
    let is_v4 = ipv4(addr.as_str());
    if !is_v4 && !ipv6(addr.as_str()) {
        return Some("not an IP address");
    }
    let max: u64 = if is_v4 {
        32
    } else {
        128
    };
    match text::parse_unsigned(prefix.as_str(), max) {
        Some(_) => None,
        None => Some("prefix length out of range"),
    }
}

// ---------------------------------------------------------------------------------------------
// Laws
// ---------------------------------------------------------------------------------------------

/// No text is both an IPv4 and an IPv6 address, so the longest prefix of a block is never in
/// doubt.
pub proof fn law_families_are_disjoint(s: Seq<char>)
    ensures
        !(is_ipv4(s) && is_ipv6(s)),
{
    if is_ipv4(s) && is_ipv6(s) {
        lemma_ipv4_has_no(s, ':');
        lemma_gap(s);
        lemma_gap_is_colon(s);
        if find_gap(s) < s.len() {
            assert(s.contains(s[find_gap(s)]));
        } else {
            lemma_split_without(s, ':');
        }
    }
}

/// Joined pieces hold a character only if a piece or the separator does.
proof fn lemma_join_without(pieces: Seq<Seq<char>>, sep: char, c: char)
    requires
        sep != c,
        forall|i: int| 0 <= i < pieces.len() ==> !(#[trigger] pieces[i]).contains(c),
    ensures
        !text::join(pieces, seq![sep]).contains(c),
    decreases pieces.len(),
{
    if pieces.len() > 1 {
        let init = pieces.drop_last();
        assert forall|i: int| 0 <= i < init.len() implies !(#[trigger] init[i]).contains(c) by {
            assert(init[i] == pieces[i]);
        }
        lemma_join_without(init, sep, c);
        let all = text::join(pieces, seq![sep]);
        let head = text::join(init, seq![sep]);
        let last = pieces[pieces.len() - 1];
        assert forall|k: int| 0 <= k < all.len() implies all[k] != c by {
            if k < head.len() {
                assert(all[k] == head[k]);
            } else if k > head.len() {
                assert(all[k] == last[k - head.len() - 1]);
            }
        }
    } else if pieces.len() == 1 {
        assert(!pieces[0].contains(c));
    }
}

/// A gap starts with a colon.
proof fn lemma_gap_is_colon(s: Seq<char>)
    ensures
        0 <= find_gap(s) < s.len() ==> s[find_gap(s)] == ':',
    decreases s.len(),
{
    if s.len() >= 2 && !(s[0] == ':' && s[1] == ':') {
        lemma_gap_is_colon(s.drop_first());
        lemma_gap(s.drop_first());
    }
}

/// A text without the separator is one piece.
proof fn lemma_split_without(s: Seq<char>, sep: char)
    requires
        !s.contains(sep),
    ensures
        text::split(s, sep) == seq![s],
    decreases s.len(),
{
    if s.len() > 0 {
        let init = s.drop_last();
        assert forall|k: int| 0 <= k < init.len() implies init[k] != sep by {
            assert(s[k] != sep);
        }
        lemma_split_without(init, sep);
        assert(s[s.len() - 1] != sep);
        assert(init.push(s.last()) =~= s);
        assert(text::split(s, sep) =~= seq![s]);
    } else {
        assert(s =~= Seq::empty());
    }
}

/// Four numbers, written in decimal without leading zeros, with dots between them.
pub open spec fn dotted(a: nat, b: nat, c: nat, d: nat) -> Seq<char> {
    text::decimal(a) + "."@ + text::decimal(b) + "."@ + text::decimal(c) + "."@ + text::decimal(d)
}

/// Any four numbers from 0 to 255 with dots between them are an IPv4 address.
pub proof fn law_dotted_numbers_are_ipv4(a: nat, b: nat, c: nat, d: nat)
    requires
        a <= 255,
        b <= 255,
        c <= 255,
        d <= 255,
    ensures
        is_ipv4(dotted(a, b, c, d)),
{
    lemma_octet(a);
    lemma_octet(b);
    lemma_octet(c);
    lemma_octet(d);
    let parts = seq![text::decimal(a), text::decimal(b), text::decimal(c), text::decimal(d)];
    lemma_four(parts);
    assert forall|i: int| 0 <= i < parts.len() implies !(#[trigger] parts[i]).contains('.') by {
        assert(is_octet(parts[i]));
        assert forall|k: int| 0 <= k < parts[i].len() implies parts[i][k] != '.' by {
            assert(text::is_digit(parts[i][k]));
        }
    }
    text::law_split_takes_a_join_apart(parts, '.');
}

/// Nothing but four numbers from 0 to 255 with dots between them is an IPv4 address.
pub proof fn law_ipv4_is_dotted_numbers(s: Seq<char>)
    requires
        is_ipv4(s),
    ensures
        exists|a: nat, b: nat, c: nat, d: nat|
            a <= 255 && b <= 255 && c <= 255 && d <= 255 && s == #[trigger] dotted(a, b, c, d),
{
    let parts = text::split(s, '.');
    text::lemma_split(s, '.');
    lemma_four(parts);
    assert(is_octet(parts[0]) && is_octet(parts[1]) && is_octet(parts[2]) && is_octet(parts[3]));
    text::lemma_decimal_of_value(parts[0]);
    text::lemma_decimal_of_value(parts[1]);
    text::lemma_decimal_of_value(parts[2]);
    text::lemma_decimal_of_value(parts[3]);
    assert(s == dotted(
        text::digits_value(parts[0]),
        text::digits_value(parts[1]),
        text::digits_value(parts[2]),
        text::digits_value(parts[3]),
    ));
}

/// A number up to 255 has at most three digits.
proof fn lemma_octet(n: nat)
    requires
        n <= 255,
    ensures
        is_octet(text::decimal(n)),
{
    text::lemma_decimal(n);
    reveal_with_fuel(text::decimal, 4);
}

/// Four pieces joined with dots.
proof fn lemma_four(parts: Seq<Seq<char>>)
    requires
        parts.len() == 4,
    ensures
        text::join(parts, seq!['.']) == parts[0] + "."@ + parts[1] + "."@ + parts[2] + "."@
            + parts[3],
{
    reveal_strlit(".");
    assert("."@ =~= seq!['.']);
    reveal_with_fuel(text::join, 5);
    assert(parts.drop_last().drop_last().drop_last()[0] == parts[0]);
    assert(parts.drop_last().drop_last().last() == parts[1]);
    assert(parts.drop_last().last() == parts[2]);
}

/// A block is an address, a slash, and a number of bits that the address has: at most 32 for an
/// IPv4 address, and at most 128 for an IPv6 address. The first thing wrong is said.
pub proof fn law_blocks(addr: Seq<char>, bits: Seq<char>)
    requires
        !addr.contains('/'),
    ensures
        block_problem(addr) == Some("missing a /prefix length"@),
        ({
            let problem = block_problem(addr + "/"@ + bits);
            let fits = |max: nat| text::unsigned_of(bits) matches Some(n) && n <= max;
            if is_ipv4(addr) && fits(32) || is_ipv6(addr) && fits(128) {
                problem is None
            } else if is_ipv4(addr) || is_ipv6(addr) {
                problem == Some("prefix length out of range"@)
            } else {
                problem == Some("not an IP address"@)
            }
        }),
{
    reveal_strlit("/");
    let n = addr.len() as int;
    let cidr = addr + "/"@ + bits;
    assert forall|i: int| 0 <= i < n implies addr[i] != '/' by {
        assert(addr.contains(addr[i]));
    }
    text::lemma_find_unique(addr, '/', n);
    assert forall|i: int| 0 <= i < n implies cidr[i] != '/' by {
        assert(cidr[i] == addr[i]);
    }
    assert(cidr[n] == '/');
    text::lemma_find_unique(cidr, '/', n);
    assert(cidr.take(n) =~= addr);
    assert(cidr.skip(n + 1) =~= bits);
    law_families_are_disjoint(addr);
}

/// Every IPv4 block in its usual notation is accepted, and none with more than 32 bits.
pub proof fn law_ipv4_blocks(a: nat, b: nat, c: nat, d: nat, n: nat)
    requires
        a <= 255,
        b <= 255,
        c <= 255,
        d <= 255,
    ensures
        block_problem(dotted(a, b, c, d) + "/"@ + text::decimal(n)) == (if n <= 32 {
            None
        } else {
            Some("prefix length out of range"@)
        }),
{
    let addr = dotted(a, b, c, d);
    law_dotted_numbers_are_ipv4(a, b, c, d);
    lemma_ipv4_has_no(addr, '/');
    law_blocks(addr, text::decimal(n));
    law_families_are_disjoint(addr);
    text::law_numbers_are_read_back(n, addr, 0);
}

/// An IPv4 address holds digits and dots.
proof fn lemma_ipv4_has_no(s: Seq<char>, c: char)
    requires
        is_ipv4(s),
        c != '.',
        !text::is_digit(c),
    ensures
        !s.contains(c),
{
    let parts = text::split(s, '.');
    text::lemma_split(s, '.');
    assert forall|i: int| 0 <= i < parts.len() implies !(#[trigger] parts[i]).contains(c) by {
        assert(is_octet(parts[i]));
        assert forall|k: int| 0 <= k < parts[i].len() implies parts[i][k] != c by {
            assert(text::is_digit(parts[i][k]));
        }
    }
    lemma_join_without(parts, '.', c);
}

/// Whether each piece is one to four hexadecimal digits, of either case.
pub open spec fn are_hex(pieces: Seq<Seq<char>>) -> bool {
    forall|i: int|
        0 <= i < pieces.len() ==> 1 <= (#[trigger] pieces[i]).len() <= 4 && forall|k: int|
            0 <= k < pieces[i].len() ==> {
                let c = #[trigger] pieces[i][k];
                '0' <= c <= '9' || 'a' <= c <= 'f' || 'A' <= c <= 'F'
            }
}

/// Whether the pieces spell `n` groups: hexadecimal ones, of which the last two may be written as
/// an IPv4 address.
pub open spec fn spell(pieces: Seq<Seq<char>>, n: int) -> bool {
    ||| are_hex(pieces) && pieces.len() == n
    ||| pieces.len() > 0 && are_hex(pieces.drop_last()) && is_ipv4(pieces.last()) && pieces.len()
        + 1 == n
}

/// Eight groups with colons between them are an IPv6 address, and so are at most seven with a `::`
/// at any one place among them.
pub proof fn law_groups_are_ipv6(head: Seq<Seq<char>>, tail: Seq<Seq<char>>, n: int)
    requires
        are_hex(head),
        spell(tail, n),
    ensures
        n == 8 ==> is_ipv6(text::join(tail, ":"@)),
        head.len() + n <= 7 ==> is_ipv6(text::join(head, ":"@) + "::"@ + text::join(tail, ":"@)),
{
    reveal_strlit(":");
    reveal_strlit("::");
    assert(":"@ =~= seq![':']);
    let h = text::join(head, seq![':']);
    let t = text::join(tail, seq![':']);
    assert(spell(head, head.len() as int));
    lemma_spelled(head, head.len() as int);
    lemma_spelled(tail, n);
    if n == 8 {
        lemma_gap_place(t);
    }
    let s = h + "::"@ + t;
    lemma_gap_place(s);
    let at = find_gap(s);
    let m = h.len() as int;
    assert(s[m] == ':' && s[m + 1] == ':');
    if at < m {
        if at + 1 < m {
            assert(s[at] == h[at] && s[at + 1] == h[at + 1]);
        } else {
            assert(s[at] == h[m - 1]);
        }
    }
    assert(at == m);
    assert(s.take(m) =~= h);
    assert(s.skip(m + 2) =~= t);
    if are_hex(head) && head.len() > 0 {
        lemma_hex(head);
    }
}

/// Nothing else is an IPv6 address.
pub proof fn law_ipv6_is_groups(s: Seq<char>)
    requires
        is_ipv6(s),
    ensures
        ({
            ||| exists|tail: Seq<Seq<char>>| #[trigger]
                spell(tail, 8) && s == text::join(tail, ":"@)
            ||| exists|head: Seq<Seq<char>>, tail: Seq<Seq<char>>, n: int|
                #![trigger are_hex(head), spell(tail, n)]
                are_hex(head) && spell(tail, n) && head.len() + n <= 7 && s == text::join(head, ":"@)
                    + "::"@ + text::join(tail, ":"@)
        }),
{
    reveal_strlit(":");
    reveal_strlit("::");
    assert(":"@ =~= seq![':']);
    let at = find_gap(s);
    lemma_gap_place(s);
    if at >= s.len() {
        let tail = groups(s);
        lemma_width(tail, true, 8);
        lemma_groups_join(s);
        assert(spell(tail, 8));
    } else {
        let h = s.take(at);
        let t = s.skip(at + 2);
        let head = groups(h);
        let tail = groups(t);
        let m = width(head, false)->0 as int;
        let n = width(tail, true)->0 as int;
        lemma_width(head, false, m);
        lemma_width(tail, true, n);
        lemma_groups_join(h);
        lemma_groups_join(t);
        assert(s =~= h + "::"@ + t);
        assert(are_hex(head) && spell(tail, n));
    }
}

/// Pieces of hexadecimal digits are groups.
proof fn lemma_hex(pieces: Seq<Seq<char>>)
    ensures
        are_hex(pieces) <==> (forall|i: int| 0 <= i < pieces.len() ==> is_group(#[trigger] pieces[i])),
{
    if are_hex(pieces) {
        assert forall|i: int| 0 <= i < pieces.len() implies is_group(#[trigger] pieces[i]) by {
            assert forall|k: int| 0 <= k < pieces[i].len() implies is_hex_digit(
                #[trigger] pieces[i][k],
            ) by {}
        }
    }
    if forall|i: int| 0 <= i < pieces.len() ==> is_group(#[trigger] pieces[i]) {
        assert forall|i: int| 0 <= i < pieces.len() implies 1 <= (#[trigger] pieces[i]).len() <= 4
            && forall|k: int|
            0 <= k < pieces[i].len() ==> {
                let c = #[trigger] pieces[i][k];
                '0' <= c <= '9' || 'a' <= c <= 'f' || 'A' <= c <= 'F'
            } by {
            assert(is_group(pieces[i]));
            assert forall|k: int| 0 <= k < pieces[i].len() implies {
                let c = #[trigger] pieces[i][k];
                '0' <= c <= '9' || 'a' <= c <= 'f' || 'A' <= c <= 'F'
            } by {
                assert(is_hex_digit(pieces[i][k]));
            }
        }
    }
}

/// What the pieces stand for is what they spell.
proof fn lemma_width(pieces: Seq<Seq<char>>, v4: bool, n: int)
    requires
        n >= 0,
        width(pieces, v4) == Some(n as nat),
    ensures
        spell(pieces, n),
        !v4 ==> are_hex(pieces) && pieces.len() == n,
{
    lemma_hex(pieces);
    if pieces.len() > 0 {
        lemma_hex(pieces.drop_last());
        assert forall|i: int| 0 <= i < pieces.len() - 1 implies is_group(
            #[trigger] pieces.drop_last()[i],
        ) by {
            assert(pieces.drop_last()[i] == pieces[i]);
        }
    }
}

/// The groups of a text, joined again, are the text.
proof fn lemma_groups_join(s: Seq<char>)
    ensures
        text::join(groups(s), seq![':']) == s,
{
    if s.len() == 0 {
        assert(s =~= Seq::empty());
    } else {
        text::lemma_split(s, ':');
    }
}

/// An IPv4 address is no group: it holds a dot.
proof fn lemma_ipv4_is_no_group(s: Seq<char>)
    requires
        is_ipv4(s),
    ensures
        !is_group(s),
        s.len() > 0,
{
    if !s.contains('.') {
        lemma_split_without(s, '.');
    }
    let k = choose|k: int| 0 <= k < s.len() && s[k] == '.';
    assert(!is_hex_digit(s[k]));
}

/// Pieces that spell groups stand for as many, and joined they hold no `::` and neither begin nor
/// end with a colon.
proof fn lemma_spelled(pieces: Seq<Seq<char>>, n: int)
    requires
        spell(pieces, n),
    ensures
        n >= 0,
        width(groups(text::join(pieces, seq![':'])), true) == Some(n as nat),
        are_hex(pieces) ==> width(groups(text::join(pieces, seq![':'])), false) == Some(n as nat),
        no_gap(text::join(pieces, seq![':'])),
{
    let j = text::join(pieces, seq![':']);
    lemma_hex(pieces);
    if pieces.len() == 0 {
        assert(j =~= Seq::empty());
    } else {
        let init = pieces.drop_last();
        let last = pieces.last();
        lemma_hex(init);
        assert forall|i: int| 0 <= i < init.len() implies is_group(#[trigger] init[i]) by {
            if are_hex(pieces) {
                assert(init[i] == pieces[i]);
                assert(is_group(pieces[i]));
            }
        }
        if are_hex(pieces) {
            assert(is_group(pieces[pieces.len() - 1]));
        } else {
            lemma_ipv4_is_no_group(last);
        }
        assert forall|i: int| 0 <= i < pieces.len() implies (#[trigger] pieces[i]).len() > 0
            && !pieces[i].contains(':') by {
            if i < init.len() {
                assert(is_group(init[i]));
                lemma_group_has_no_colon(pieces[i]);
            } else if are_hex(pieces) {
                lemma_group_has_no_colon(pieces[i]);
            } else {
                lemma_ipv4_has_no(last, ':');
            }
        }
        if is_ipv4(last) {
            lemma_ipv4_is_no_group(last);
        }
        if are_hex(pieces) {
            assert(pieces.len() == n) by {
                if pieces.len() != n {
                    assert(is_group(last));
                }
            }
        }
        lemma_no_gap(pieces);
        text::law_split_takes_a_join_apart(pieces, ':');
        assert(groups(j) == pieces);
        assert forall|i: int| 0 <= i < pieces.len() - 1 implies is_group(#[trigger] pieces[i]) by {
            assert(is_group(init[i]));
        }
    }
}

proof fn lemma_group_has_no_colon(s: Seq<char>)
    requires
        is_group(s),
    ensures
        !s.contains(':'),
{
    assert forall|k: int| 0 <= k < s.len() implies s[k] != ':' by {
        assert(is_hex_digit(s[k]));
    }
}

/// Whether no two colons stand side by side, and none at either end.
spec fn no_gap(s: Seq<char>) -> bool {
    &&& forall|i: int| 0 <= i < s.len() - 1 && #[trigger] s[i] == ':' ==> s[i + 1] != ':'
    &&& s.len() > 0 ==> s[0] != ':' && s[s.len() - 1] != ':'
}

proof fn lemma_no_gap(pieces: Seq<Seq<char>>)
    requires
        forall|i: int|
            0 <= i < pieces.len() ==> (#[trigger] pieces[i]).len() > 0 && !pieces[i].contains(':'),
    ensures
        no_gap(text::join(pieces, seq![':'])),
        pieces.len() > 0 ==> text::join(pieces, seq![':']).len() > 0,
    decreases pieces.len(),
{
    let j = text::join(pieces, seq![':']);
    if pieces.len() > 0 {
        let last = pieces.last();
        assert(pieces[pieces.len() - 1] == last);
        assert forall|k: int| 0 <= k < last.len() implies last[k] != ':' by {
            assert(last.contains(last[k]));
        }
        if pieces.len() > 1 {
            let init = pieces.drop_last();
            assert forall|i: int| 0 <= i < init.len() implies (#[trigger] init[i]).len() > 0
                && !init[i].contains(':') by {
                assert(init[i] == pieces[i]);
            }
            lemma_no_gap(init);
            let head = text::join(init, seq![':']);
            let m = head.len() as int;
            assert(j[0] == head[0]);
            assert(j[j.len() - 1] == last[last.len() - 1]);
            assert forall|i: int| 0 <= i < j.len() - 1 && #[trigger] j[i] == ':' implies j[i + 1]
                != ':' by {
                if i < m - 1 {
                    assert(j[i] == head[i] && j[i + 1] == head[i + 1]);
                } else if i == m - 1 {
                    assert(j[i] == head[m - 1]);
                } else {
                    assert(j[i + 1] == last[i - m]);
                }
            }
        }
    }
}

/// The first `::` stands where two colons first stand side by side.
proof fn lemma_gap_place(s: Seq<char>)
    ensures
        0 <= find_gap(s) <= s.len(),
        find_gap(s) < s.len() ==> find_gap(s) + 1 < s.len() && s[find_gap(s)] == ':' && s[find_gap(s)
            + 1] == ':',
        forall|i: int| 0 <= i < find_gap(s) && i + 1 < s.len() && #[trigger] s[i] == ':' ==> s[i + 1]
            != ':',
    decreases s.len(),
{
    if s.len() >= 2 && !(s[0] == ':' && s[1] == ':') {
        let t = s.drop_first();
        lemma_gap_place(t);
        assert forall|i: int| 0 <= i < find_gap(s) && i + 1 < s.len() && #[trigger] s[i] == ':' implies s[i
            + 1] != ':' by {
            if i > 0 {
                assert(t[i - 1] == s[i] && t[i] == s[i + 1]);
            }
        }
    }
}

} // verus!
