//! What texts stand for: numbers, words, pieces of a text, and addresses.
use vstd::arithmetic::div_mod::{lemma_div_denominator, lemma_fundamental_div_mod_converse};
use vstd::prelude::*;

use crate::addr::{octet_value, octets_of_new, parse_ipv4_spec, pow2, Ipv4Addr, Ipv4Net};
use crate::text::{
    after_first_word, dec, dec_reads_back, digit_char, digit_value, digits_value, find_from,
    find_from_is_first, first_word, hex, is_space, join, lower, number_value, occurs_at,
    parse_number, split, split_from, split_once, starts_with, text_lt, trim, trim_end,
    trim_end_char, trim_start, trim_start_char, upper, word_end,
};

verus! {

// ── numbers ──────────────────────────────────────────────────────────

/// A digit has the value it shows, in decimal and in hexadecimal, in either case; other
/// characters have none.
pub proof fn digits_have_their_values(c: char)
    ensures
        '0' <= c <= '9' ==> digit_value(c, 10) == Some(c as int - '0' as int) && digit_value(c, 16)
            == Some(c as int - '0' as int),
        'a' <= c <= 'f' ==> digit_value(c, 16) == Some(c as int - 'a' as int + 10) && digit_value(
            c,
            10,
        ) is None,
        'A' <= c <= 'F' ==> digit_value(c, 16) == Some(c as int - 'A' as int + 10) && digit_value(
            c,
            10,
        ) is None,
        !('0' <= c <= '9') ==> digit_value(c, 10) is None,
        !('0' <= c <= '9') && !('a' <= c <= 'f') && !('A' <= c <= 'F') ==> digit_value(c, 16)
            is None,
{
}

/// A number reads back from its decimal text where it is not above the limit, and is
/// refused where it is.
pub proof fn decimals_read_back(n: nat, max: int)
    ensures
        n <= max ==> parse_number(dec(n), 10, max) == Some(n as int),
        n > max ==> parse_number(dec(n), 10, max) is None,
{
    dec_reads_back(n);
}

/// A number reads back from its hexadecimal text.
pub proof fn hexadecimals_read_back(n: nat)
    ensures
        digits_value(hex(n), 16) == Some(n as int),
        hex(n).len() > 0,
        hex(n)[0] != '+',
        number_value(hex(n), 16) == Some(n as int),
    decreases n,
{
    let s = hex(n);
    if n < 16 {
        assert(s.drop_last() =~= Seq::<char>::empty());
        assert(digits_value(Seq::<char>::empty(), 16) == Some(0int));
    } else {
        hexadecimals_read_back(n / 16);
        assert(s.drop_last() =~= hex(n / 16));
        assert(s[0] == hex(n / 16)[0]);
    }
}

/// Each digit counts as many times as much as the one behind it as the base says. A plus
/// may stand in front; without a digit there is no number.
pub proof fn numbers_are_positional(s: Seq<char>, c: char, radix: int)
    ensures
        digits_value(Seq::empty(), radix) == Some(0int),
        digits_value(s, radix) is Some && digit_value(c, radix) is Some ==> digits_value(
            s.push(c),
            radix,
        ) == Some(digits_value(s, radix)->0 * radix + digit_value(c, radix)->0),
        digits_value(s, radix) is None || digit_value(c, radix) is None ==> digits_value(
            s.push(c),
            radix,
        ) is None,
        number_value(Seq::empty(), radix) is None,
        s.len() > 0 ==> number_value(seq!['+'] + s, radix) == digits_value(s, radix),
        s.len() > 0 && s[0] != '+' ==> number_value(s, radix) == digits_value(s, radix),
{
    assert(s.push(c).drop_last() =~= s);
    assert((seq!['+'] + s).drop_first() =~= s);
}

// ── pieces ───────────────────────────────────────────────────────────

/// Trimming takes white space off both ends and nothing else: what is left is a piece of
/// the text, with nothing but white space before and behind it, and it neither begins nor
/// ends with white space.
pub proof fn trimming_takes_white_space(s: Seq<char>) -> (r: (int, int))
    ensures
        0 <= r.0 <= r.1 <= s.len(),
        trim(s) == s.subrange(r.0, r.1),
        forall|i: int| 0 <= i < r.0 || r.1 <= i < s.len() ==> is_space(#[trigger] s[i]),
        trim(s).len() > 0 ==> !is_space(trim(s)[0]) && !is_space(trim(s).last()),
{
    let a = start_of(s);
    let t = trim_start(s);
    let b = end_of(t);
    assert(t.subrange(0, b) =~= s.subrange(a, a + b));
    assert forall|i: int| 0 <= i < a || a + b <= i < s.len() implies is_space(
        #[trigger] s[i],
    ) by {
        if i >= a + b {
            assert(t[i - a] == s[i]);
        }
    }
    if trim(s).len() > 0 {
        assert(trim(s)[0] == t[0]);
    }
    (a, a + b)
}

proof fn start_of(s: Seq<char>) -> (a: int)
    ensures
        0 <= a <= s.len(),
        trim_start(s) == s.subrange(a, s.len() as int),
        forall|i: int| 0 <= i < a ==> is_space(#[trigger] s[i]),
        a < s.len() ==> !is_space(s[a]),
    decreases s.len(),
{
    if s.len() > 0 && is_space(s[0]) {
        let rest = s.drop_first();
        let b = start_of(rest);
        assert(rest.subrange(b, rest.len() as int) =~= s.subrange(b + 1, s.len() as int));
        assert forall|i: int| 0 <= i < b + 1 implies is_space(#[trigger] s[i]) by {
            if i > 0 {
                assert(rest[i - 1] == s[i]);
            }
        }
        b + 1
    } else {
        assert(s.subrange(0, s.len() as int) =~= s);
        0
    }
}

proof fn end_of(s: Seq<char>) -> (b: int)
    ensures
        0 <= b <= s.len(),
        trim_end(s) == s.subrange(0, b),
        forall|i: int| b <= i < s.len() ==> is_space(#[trigger] s[i]),
        b > 0 ==> !is_space(s[b - 1]),
    decreases s.len(),
{
    if s.len() > 0 && is_space(s.last()) {
        let front = s.drop_last();
        let b = end_of(front);
        assert(front.subrange(0, b) =~= s.subrange(0, b));
        assert forall|i: int| b <= i < s.len() implies is_space(#[trigger] s[i]) by {
            if i < s.len() - 1 {
                assert(front[i] == s[i]);
            }
        }
        b
    } else {
        assert(s.subrange(0, s.len() as int) =~= s);
        s.len() as int
    }
}

/// Which characters are white space among those of ASCII: tab, line feed, vertical tab,
/// form feed, carriage return and blank.
pub proof fn ascii_white_space(c: char)
    requires
        c < '\u{80}',
    ensures
        is_space(c) <==> c == '\t' || c == '\n' || c == '\u{b}' || c == '\u{c}' || c == '\r' || c
            == ' ',
{
}

/// A text that is cut at a separator is the pieces with the separator between them.
pub proof fn pieces_make_the_text(s: Seq<char>, sep: Seq<char>)
    requires
        sep.len() > 0,
    ensures
        join(split(s, sep), sep) == s,
        split(s, sep).len() > 0,
{
    pieces_make_the_rest(s, sep, 0);
    assert(s.skip(0) =~= s);
}

proof fn pieces_make_the_rest(s: Seq<char>, sep: Seq<char>, from: int)
    requires
        sep.len() > 0,
        0 <= from <= s.len(),
    ensures
        join(split_from(s, sep, from), sep) == s.skip(from),
        split_from(s, sep, from).len() > 0,
    decreases s.len() - from,
{
    find_from_is_first(s, sep, from);
    match find_from(s, sep, from) {
        Some(k) => {
            let rest = split_from(s, sep, k + sep.len());
            pieces_make_the_rest(s, sep, k + sep.len());
            one_piece_first(s.subrange(from, k), rest, sep);
            assert(s.subrange(k, k + sep.len()) == sep);
            assert(s.subrange(from, k) + sep + s.skip(k + sep.len()) =~= s.skip(from));
        },
        None => {
            assert(seq![s.skip(from)][0] == s.skip(from));
        },
    }
}

proof fn one_piece_first(a: Seq<char>, rest: Seq<Seq<char>>, sep: Seq<char>)
    requires
        rest.len() > 0,
    ensures
        join(seq![a] + rest, sep) == a + sep + join(rest, sep),
    decreases rest.len(),
{
    let all = seq![a] + rest;
    if rest.len() == 1 {
        assert(all.drop_last() =~= seq![a]);
        assert(join(seq![a], sep) == a);
        assert(join(rest, sep) == rest[0]);
        assert(all.last() == rest[0]);
    } else {
        one_piece_first(a, rest.drop_last(), sep);
        assert(all.drop_last() =~= seq![a] + rest.drop_last());
        assert(all.last() == rest.last());
        assert(a + sep + join(rest.drop_last(), sep) + sep + rest.last() =~= a + sep + (join(
            rest.drop_last(),
            sep,
        ) + sep + rest.last()));
    }
}

/// No piece of a text that was cut holds the separator.
pub proof fn pieces_hold_no_separator(s: Seq<char>, sep: Seq<char>, from: int, k: int, i: int)
    requires
        sep.len() > 0,
        0 <= from <= s.len(),
        0 <= k < split_from(s, sep, from).len(),
    ensures
        !occurs_at(split_from(s, sep, from)[k], sep, i),
    decreases s.len() - from,
{
    find_from_is_first(s, sep, from);
    match find_from(s, sep, from) {
        Some(p) => {
            if k == 0 {
                let piece = s.subrange(from, p);
                if occurs_at(piece, sep, i) {
                    assert(s.subrange(from + i, from + i + sep.len()) =~= piece.subrange(
                        i,
                        i + sep.len(),
                    ));
                    assert(occurs_at(s, sep, from + i));
                }
            } else {
                let rest = split_from(s, sep, p + sep.len());
                assert(split_from(s, sep, from)[k] == rest[k - 1]);
                pieces_hold_no_separator(s, sep, p + sep.len(), k - 1, i);
            }
        },
        None => {
            let piece = s.skip(from);
            if occurs_at(piece, sep, i) {
                assert(s.subrange(from + i, from + i + sep.len()) =~= piece.subrange(
                    i,
                    i + sep.len(),
                ));
                assert(occurs_at(s, sep, from + i));
            }
        },
    }
}

/// A text that is cut once is cut at the first separator; where there is none it is not
/// cut.
pub proof fn texts_are_cut_at_the_first(s: Seq<char>, sep: Seq<char>, i: int)
    ensures
        split_once(s, sep) matches Some((a, b)) ==> s == a + sep + b && (0 <= i < a.len()
            ==> !occurs_at(s, sep, i)),
        split_once(s, sep) is None ==> (0 <= i ==> !occurs_at(s, sep, i)),
{
    find_from_is_first(s, sep, 0);
    if let Some(k) = find_from(s, sep, 0) {
        assert(s.take(k) + s.subrange(k, k + sep.len()) + s.skip(k + sep.len()) =~= s);
    }
}

/// A text begins with another where what follows completes it.
pub proof fn beginnings(s: Seq<char>, head: Seq<char>, tail: Seq<char>)
    ensures
        starts_with(head + tail, head),
        starts_with(s, head) ==> s == head + s.skip(head.len() as int),
{
    assert((head + tail).take(head.len() as int) =~= head);
    if starts_with(s, head) {
        assert(s =~= s.take(head.len() as int) + s.skip(head.len() as int));
    }
}

/// Letters of ASCII change size one by one, 32 places apart; other characters stay.
pub proof fn letters_change_size(s: Seq<char>, i: int)
    requires
        0 <= i < s.len(),
    ensures
        lower(s).len() == s.len() && upper(s).len() == s.len(),
        'A' <= s[i] <= 'Z' ==> lower(s)[i] as int == s[i] as int + 32,
        !('A' <= s[i] <= 'Z') ==> lower(s)[i] == s[i],
        'a' <= s[i] <= 'z' ==> upper(s)[i] as int == s[i] as int - 32,
        !('a' <= s[i] <= 'z') ==> upper(s)[i] == s[i],
{
}

/// Texts are ordered by their first difference; a text comes before those that it is the
/// beginning of.
pub proof fn texts_are_ordered_by_their_first_difference(a: Seq<char>, b: Seq<char>, k: int)
    requires
        0 <= k <= a.len(),
        k <= b.len(),
        forall|i: int| 0 <= i < k ==> #[trigger] a[i] == b[i],
    ensures
        k < a.len() && k < b.len() && a[k] != b[k] ==> (text_lt(a, b) <==> a[k] < b[k]),
        k == a.len() && k < b.len() ==> text_lt(a, b),
        k == b.len() ==> !text_lt(a, b),
    decreases k,
{
    if k > 0 {
        let (x, y) = (a.drop_first(), b.drop_first());
        assert forall|i: int| 0 <= i < k - 1 implies #[trigger] x[i] == y[i] by {
            assert(a[i + 1] == b[i + 1]);
        }
        texts_are_ordered_by_their_first_difference(x, y, k - 1);
        assert(a[0] == b[0]);
    }
}

/// Leading or trailing characters of one kind are taken off, one at a time.
pub proof fn characters_are_taken_off(s: Seq<char>, c: char)
    ensures
        trim_start_char(seq![c] + s, c) == trim_start_char(s, c),
        trim_end_char(s.push(c), c) == trim_end_char(s, c),
        s.len() > 0 && s[0] != c ==> trim_start_char(s, c) == s,
        s.len() > 0 && s.last() != c ==> trim_end_char(s, c) == s,
{
    assert((seq![c] + s).drop_first() =~= s);
    assert(s.push(c).drop_last() =~= s);
}

/// The first word of a text is its first run of characters that are not white space.
pub proof fn first_words(s: Seq<char>)
    ensures
        ({
            let w = first_word(s);
            let rest = after_first_word(s);
            &&& trim_start(s) == w + rest
            &&& forall|i: int| 0 <= i < w.len() ==> !is_space(#[trigger] w[i])
            &&& rest.len() > 0 ==> is_space(rest[0])
        }),
{
    let t = trim_start(s);
    word_runs(t, 0);
    let e = word_end(t, 0);
    assert(t =~= t.take(e) + t.skip(e));
}

proof fn word_runs(s: Seq<char>, i: int)
    requires
        0 <= i <= s.len(),
    ensures
        i <= word_end(s, i) <= s.len(),
        forall|j: int| i <= j < word_end(s, i) ==> !is_space(#[trigger] s[j]),
        word_end(s, i) < s.len() ==> is_space(s[word_end(s, i)]),
    decreases s.len() - i,
{
    if i < s.len() && !is_space(s[i]) {
        word_runs(s, i + 1);
    }
}

// ── addresses ────────────────────────────────────────────────────────

/// An address is written as its four octets in decimal, with dots between them.
pub proof fn addresses_are_dotted(a: u8, b: u8, c: u8, d: u8)
    ensures
        Ipv4Addr::of(a as int, b as int, c as int, d as int).spec_text() == dec(a as nat) + "."@
            + dec(b as nat) + "."@ + dec(c as nat) + "."@ + dec(d as nat),
        Ipv4Addr::of(a as int, b as int, c as int, d as int).bits as int == a * 0x100_0000 + b
            * 0x1_0000 + c * 256 + d,
{
    octets_of_new(a, b, c, d);
}

/// An octet is one to three digits without a needless zero, at most 255; every octet
/// reads back from its text.
pub proof fn octets_read_back(n: nat)
    requires
        n < 256,
    ensures
        octet_value(dec(n)) == Some(n as int),
{
    dec_reads_back(n);
    reveal_with_fuel(dec, 4);
    assert(dec(n).len() <= 3);
    if n >= 10 {
        first_digit(n);
    }
}

proof fn first_digit(n: nat)
    requires
        n > 0,
    ensures
        dec(n)[0] != '0',
        dec(n).len() > 0,
    decreases n,
{
    if n >= 10 {
        first_digit(n / 10);
        assert(dec(n)[0] == dec(n / 10)[0]);
    }
}

/// Which addresses a network holds: with a prefix of 24 bits those with the same first
/// three octets, with 16 those with the same first two, with 32 itself alone, and with 0
/// all.
#[verifier::rlimit(40)]
pub proof fn networks_hold_their_addresses(net: Ipv4Net, ip: Ipv4Addr)
    ensures
        net.prefix_len == 32 ==> (net.holds(ip) <==> net.addr == ip),
        net.prefix_len == 24 ==> (net.holds(ip) <==> net.addr.bits as int / 256 == ip.bits as int
            / 256),
        net.prefix_len == 16 ==> (net.holds(ip) <==> net.addr.bits as int / 0x1_0000
            == ip.bits as int / 0x1_0000),
        net.prefix_len == 0 ==> net.holds(ip),
{
    reveal_with_fuel(pow2, 33);
    assert(pow2(0) == 1);
    assert(pow2(8) == 256);
    assert(pow2(16) == 0x1_0000);
    assert(pow2(32) == 0x1_0000_0000);
    assert(net.addr.bits as int / 0x1_0000_0000 == 0 && ip.bits as int / 0x1_0000_0000 == 0);
}

/// An address with another last octet keeps the first three; one of another block keeps
/// the first two, and ends in 0.
#[verifier::rlimit(40)]
pub proof fn octets_are_replaced(ip: Ipv4Addr, n: u8)
    ensures
        ip.host(n as int).octet(0) == ip.octet(0),
        ip.host(n as int).octet(1) == ip.octet(1),
        ip.host(n as int).octet(2) == ip.octet(2),
        ip.host(n as int).octet(3) == n,
        ip.block(n as int).octet(0) == ip.octet(0),
        ip.block(n as int).octet(1) == ip.octet(1),
        ip.block(n as int).octet(2) == n,
        ip.block(n as int).octet(3) == 0,
{
    let x = ip.bits as int;
    let h = ip.host(n as int).bits as int;
    let b = ip.block(n as int).bits as int;
    assert(h == (x / 256) * 256 + n);
    assert(b == ((x / 0x1_0000) * 256 + n) * 256);
    lemma_fundamental_div_mod_converse(h, 256, x / 256, n as int);
    lemma_fundamental_div_mod_converse(b, 256, (x / 0x1_0000) * 256 + n, 0);
    lemma_fundamental_div_mod_converse((x / 0x1_0000) * 256 + n, 256, x / 0x1_0000, n as int);
    by_octets(x);
    by_octets(h);
    by_octets(b);
}

proof fn by_octets(x: int)
    requires
        0 <= x,
    ensures
        x / 0x1_0000 == (x / 256) / 256,
        x / 0x100_0000 == ((x / 256) / 256) / 256,
{
    lemma_div_denominator(x, 256, 256);
    lemma_div_denominator(x, 0x1_0000, 256);
}

/// Dotted decimal reads back.
#[verifier::rlimit(40)]
pub proof fn dotted_addresses_read_back(a: u8, b: u8, c: u8, d: u8)
    ensures
        parse_ipv4_spec(
            dec(a as nat) + "."@ + dec(b as nat) + "."@ + dec(c as nat) + "."@ + dec(d as nat),
        ) == Some(Ipv4Addr::of(a as int, b as int, c as int, d as int)),
{
    octets_read_back(a as nat);
    octets_read_back(b as nat);
    octets_read_back(c as nat);
    octets_read_back(d as nat);
    let (x, y, z, w) = (dec(a as nat), dec(b as nat), dec(c as nat), dec(d as nat));
    let s = x + "."@ + y + "."@ + z + "."@ + w;
    dotted_pieces(a, b, c, d);
    let p = split(s, "."@);
    assert(p[0] == x && p[1] == y && p[2] == z && p[3] == w);
}

proof fn dotted_pieces(a: u8, b: u8, c: u8, d: u8)
    ensures
        split(
            dec(a as nat) + "."@ + dec(b as nat) + "."@ + dec(c as nat) + "."@ + dec(d as nat),
            "."@,
        ) == seq![dec(a as nat), dec(b as nat), dec(c as nat), dec(d as nat)],
{
    no_dots(a as nat);
    no_dots(b as nat);
    no_dots(c as nat);
    no_dots(d as nat);
    four_pieces(dec(a as nat), dec(b as nat), dec(c as nat), dec(d as nat));
}

spec fn dotless(x: Seq<char>) -> bool {
    forall|i: int| 0 <= i < x.len() ==> #[trigger] x[i] != '.'
}

#[verifier::rlimit(40)]
proof fn four_pieces(x: Seq<char>, y: Seq<char>, z: Seq<char>, w: Seq<char>)
    requires
        dotless(x),
        dotless(y),
        dotless(z),
        dotless(w),
    ensures
        split(x + "."@ + y + "."@ + z + "."@ + w, "."@) == seq![x, y, z, w],
{
    let dot = "."@;
    let t3 = z + dot + w;
    let t2 = y + dot + t3;
    assert(split(t3, dot) =~= seq![z, w]) by {
        only_piece(w);
        first_piece(z, w);
    }
    assert(split(t2, dot) =~= seq![y, z, w]) by {
        first_piece(y, t3);
    }
    first_piece(x, t2);
    assert(x + dot + y + dot + z + dot + w =~= x + dot + t2);
    assert(seq![x] + seq![y, z, w] =~= seq![x, y, z, w]);
}

proof fn no_dots(n: nat)
    ensures
        dotless(dec(n)),
    decreases n,
{
    assert(digit_char((n % 10) as int) != '.');
    if n >= 10 {
        no_dots(n / 10);
        let front = dec(n / 10);
        assert forall|i: int| 0 <= i < dec(n).len() implies #[trigger] dec(n)[i] != '.' by {
            if i < front.len() {
                assert(dec(n)[i] == front[i]);
            }
        }
    } else {
        assert(n % 10 == n);
    }
}

proof fn only_piece(x: Seq<char>)
    requires
        dotless(x),
    ensures
        split(x, "."@) == seq![x],
{
    reveal_strlit(".");
    find_from_is_first(x, "."@, 0);
    if let Some(k) = find_from(x, "."@, 0) {
        assert(x.subrange(k, k + 1)[0] == x[k]);
    }
    assert(x.skip(0) =~= x);
}

proof fn first_piece(x: Seq<char>, rest: Seq<char>)
    requires
        dotless(x),
    ensures
        split(x + "."@ + rest, "."@) == seq![x] + split(rest, "."@),
{
    reveal_strlit(".");
    let dot = "."@;
    let s = x + dot + rest;
    find_from_is_first(s, dot, 0);
    let n = x.len() as int;
    assert(s.subrange(n, n + 1) =~= dot);
    assert(occurs_at(s, dot, n));
    let k = find_from(s, dot, 0)->0;
    assert(s.subrange(k, k + 1)[0] == s[k]);
    assert(k == n);
    assert(s.subrange(0, k) =~= x);
    pieces_behind(x + dot, rest, dot, 0);
}

proof fn pieces_behind(x: Seq<char>, t: Seq<char>, sep: Seq<char>, from: int)
    requires
        sep.len() > 0,
        0 <= from <= t.len(),
    ensures
        split_from(x + t, sep, x.len() + from) == split_from(t, sep, from),
    decreases t.len() - from,
{
    let n = x.len() as int;
    let s = x + t;
    place_behind(x, t, sep, from);
    find_from_is_first(t, sep, from);
    match find_from(t, sep, from) {
        Some(k) => {
            pieces_behind(x, t, sep, k + sep.len());
            assert(n + (k + sep.len()) == (n + k) + sep.len());
            assert(s.subrange(n + from, n + k) =~= t.subrange(from, k));
        },
        None => {
            assert(s.skip(n + from) =~= t.skip(from));
        },
    }
}

proof fn place_behind(x: Seq<char>, t: Seq<char>, sep: Seq<char>, from: int)
    requires
        sep.len() > 0,
        0 <= from <= t.len(),
    ensures
        find_from(x + t, sep, x.len() + from) == (match find_from(t, sep, from) {
            Some(k) => Some(x.len() + k),
            None => None::<int>,
        }),
    decreases t.len() - from,
{
    let n = x.len() as int;
    if from + sep.len() <= t.len() {
        assert((x + t).subrange(n + from, n + from + sep.len()) =~= t.subrange(
            from,
            from + sep.len(),
        ));
        if !occurs_at(t, sep, from) {
            place_behind(x, t, sep, from + 1);
        }
    }
}

/// An IPv4-mapped address has the IPv4 address in its last 32 bits, sixteen ones before
/// it, and zeros in front.
pub proof fn mapped_addresses(ip: Ipv4Addr)
    ensures
        ip.mapped().bits as int == 0xffff * 0x1_0000_0000 + ip.bits,
{
}

} // verus!
