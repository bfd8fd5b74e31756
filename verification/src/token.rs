//! The opaque continuation token: a hexadecimal encoding of the filter
//! fingerprint together with the last-seen sort key, and its decoder.
//!
//! A token is issued when a page is cut short by the limit and must resume
//! the listing at the exact next record, but only under the same filter
//! set.  The token therefore spells out, in a canonical character
//! encoding, every filter dimension followed by the identifier of the last
//! machine of the page.  Decoding is total: any corrupt token decodes to
//! `None` and surfaces as `InvalidToken`.

use vstd::prelude::*;
use crate::query::{Filters, FiltersModel, opt_view};
use crate::text::{str_chars, string_from_chars};

verus! {

/// Powers of sixteen.
pub open spec fn pow16(k: nat) -> nat
    decreases k,
{
    if k == 0 {
        1
    } else {
        16 * pow16((k - 1) as nat)
    }
}

/// The lowercase hexadecimal digit character of a value below sixteen.
pub open spec fn hex_char(n: nat) -> char
    recommends
        n < 16,
{
    if n == 0 {
        '0'
    } else if n == 1 {
        '1'
    } else if n == 2 {
        '2'
    } else if n == 3 {
        '3'
    } else if n == 4 {
        '4'
    } else if n == 5 {
        '5'
    } else if n == 6 {
        '6'
    } else if n == 7 {
        '7'
    } else if n == 8 {
        '8'
    } else if n == 9 {
        '9'
    } else if n == 10 {
        'a'
    } else if n == 11 {
        'b'
    } else if n == 12 {
        'c'
    } else if n == 13 {
        'd'
    } else if n == 14 {
        'e'
    } else {
        'f'
    }
}

/// The value of a lowercase hexadecimal digit character, if it is one.
pub open spec fn hex_val(c: char) -> Option<nat> {
    if c == '0' {
        Some(0 as nat)
    } else if c == '1' {
        Some(1 as nat)
    } else if c == '2' {
        Some(2 as nat)
    } else if c == '3' {
        Some(3 as nat)
    } else if c == '4' {
        Some(4 as nat)
    } else if c == '5' {
        Some(5 as nat)
    } else if c == '6' {
        Some(6 as nat)
    } else if c == '7' {
        Some(7 as nat)
    } else if c == '8' {
        Some(8 as nat)
    } else if c == '9' {
        Some(9 as nat)
    } else if c == 'a' {
        Some(10 as nat)
    } else if c == 'b' {
        Some(11 as nat)
    } else if c == 'c' {
        Some(12 as nat)
    } else if c == 'd' {
        Some(13 as nat)
    } else if c == 'e' {
        Some(14 as nat)
    } else if c == 'f' {
        Some(15 as nat)
    } else {
        None
    }
}

/// The `k`-digit hexadecimal rendering of `n`, high digit first.
pub open spec fn hex_digits(n: nat, k: nat) -> Seq<char>
    decreases k,
{
    if k == 0 {
        Seq::empty()
    } else {
        hex_digits(n / 16, (k - 1) as nat).push(hex_char(n % 16))
    }
}

/// The value of a sequence of hexadecimal digit characters, if every
/// character is one.
pub open spec fn hex_value(s: Seq<char>) -> Option<nat>
    decreases s.len(),
{
    if s.len() == 0 {
        Some(0 as nat)
    } else {
        match (hex_value(s.drop_last()), hex_val(s.last())) {
            (Some(v), Some(d)) => Some(v * 16 + d),
            _ => None,
        }
    }
}

/// Reading back the hexadecimal rendering of `n` yields `n`.
pub proof fn lemma_hex_value_of_digits(n: nat, k: nat)
    requires
        n < pow16(k),
    ensures
        hex_value(hex_digits(n, k)) == Some(n),
    decreases k,
{
    if k == 0 {
    } else {
        let s = hex_digits(n, k);
        assert(n / 16 < pow16((k - 1) as nat)) by {
            assert(pow16(k) == 16 * pow16((k - 1) as nat));
        }
        lemma_hex_value_of_digits(n / 16, (k - 1) as nat);
        assert(s.drop_last() =~= hex_digits(n / 16, (k - 1) as nat));
        assert(s.last() == hex_char(n % 16));
        assert(hex_val(hex_char(n % 16)) == Some(n % 16));
        assert((n / 16) * 16 + n % 16 == n) by (nonlinear_arith);
    }
}

/// Powers of sixteen are positive.
pub proof fn lemma_pow16_pos(k: nat)
    ensures
        pow16(k) >= 1,
    decreases k,
{
    if k > 0 {
        lemma_pow16_pos((k - 1) as nat);
    }
}

/// Powers of sixteen are monotone.
pub proof fn lemma_pow16_le(a: nat, b: nat)
    requires
        a <= b,
    ensures
        pow16(a) <= pow16(b),
    decreases b,
{
    if a < b {
        lemma_pow16_le(a, (b - 1) as nat);
        lemma_pow16_pos((b - 1) as nat);
    }
}

/// The sixteenth power of sixteen.
pub proof fn lemma_pow16_16()
    ensures
        pow16(16) == 0x10000000000000000,
{
    reveal_with_fuel(pow16, 17);
}

/// No hexadecimal digit character is the terminator.
pub proof fn lemma_hex_char_not_dot(n: nat)
    ensures
        hex_char(n) != '.',
        hex_char(n) != 'n',
        hex_char(n) != 'v',
        hex_char(n) != 't',
{
}

/// Two characters with the same scalar value are the same character.
pub proof fn lemma_char_injective(a: char, b: char)
    requires
        a as u32 == b as u32,
    ensures
        a == b,
{
}

/// A hexadecimal rendering has exactly `k` characters.
pub proof fn lemma_hex_digits_len(n: nat, k: nat)
    ensures
        hex_digits(n, k).len() == k,
    decreases k,
{
    if k > 0 {
        lemma_hex_digits_len(n / 16, (k - 1) as nat);
    }
}

/// Every character of a hexadecimal rendering is a digit character.
pub proof fn lemma_hex_digits_chars(n: nat, k: nat)
    ensures
        forall|j: int|
            0 <= j < hex_digits(n, k).len() ==> exists|m: nat|
                m < 16 && #[trigger] hex_digits(n, k)[j] == hex_char(m),
    decreases k,
{
    if k > 0 {
        lemma_hex_digits_len(n / 16, (k - 1) as nat);
        lemma_hex_digits_chars(n / 16, (k - 1) as nat);
        let s = hex_digits(n, k);
        let s0 = hex_digits(n / 16, (k - 1) as nat);
        assert forall|j: int| 0 <= j < s.len() implies exists|m: nat|
            m < 16 && #[trigger] s[j] == hex_char(m) by {
            if j < s.len() - 1 {
                assert(s[j] == s0[j]);
            } else {
                let m = n % 16;
                assert(m < 16 && s[j] == hex_char(m));
            }
        }
    }
}

/// The scalar value of a character.
pub open spec fn char_code(c: char) -> nat {
    (c as u32) as nat
}

/// The six-digit group encoding one character: the hexadecimal rendering
/// of its scalar value.
pub open spec fn enc_char(c: char) -> Seq<char> {
    hex_digits(char_code(c), 6)
}

/// The character a six-digit group at `i` decodes to, when the group is
/// the canonical encoding of one.
pub open spec fn dec_group(s: Seq<char>, i: int) -> Option<char> {
    if 0 <= i && i + 6 <= s.len() {
        match hex_value(s.subrange(i, i + 6)) {
            Some(v) => if exists|c: char| #[trigger] char_code(c) == v {
                Some(choose|c: char| #[trigger] char_code(c) == v)
            } else {
                None
            },
            None => None,
        }
    } else {
        None
    }
}

/// Scalar values of characters fit in six hexadecimal digits.
pub proof fn lemma_char_fits(c: char)
    ensures
        char_code(c) < pow16(6),
{
    assert(pow16(6) == 0x1000000) by {
        reveal_with_fuel(pow16, 7);
    }
}

/// Decoding a group that encodes a character yields that character.
pub proof fn lemma_dec_group_of_enc(t: Seq<char>, i: int, c: char)
    requires
        0 <= i,
        i + 6 <= t.len(),
        t.subrange(i, i + 6) == enc_char(c),
    ensures
        dec_group(t, i) == Some(c),
{
    lemma_char_fits(c);
    lemma_hex_value_of_digits(char_code(c), 6);
    let v = char_code(c);
    assert(hex_value(t.subrange(i, i + 6)) == Some(v));
    let c2 = choose|c2: char| #[trigger] char_code(c2) == v;
    lemma_char_injective(c2, c);
}

/// The encoding of a character sequence: one six-digit group per
/// character, closed by the terminator.
pub open spec fn enc_str(cs: Seq<char>) -> Seq<char>
    decreases cs.len(),
{
    if cs.len() == 0 {
        seq!['.']
    } else {
        enc_char(cs[0]) + enc_str(cs.skip(1))
    }
}

/// Decodes six-digit groups starting at `i` up to the terminator,
/// returning the characters and the position after the terminator.
pub open spec fn dec_str(s: Seq<char>, i: int) -> Option<(Seq<char>, int)>
    decreases s.len() - i,
{
    if i < 0 || i >= s.len() {
        None
    } else if s[i] == '.' {
        Some((Seq::empty(), i + 1))
    } else if i + 6 <= s.len() {
        match dec_group(s, i) {
            Some(c) => match dec_str(s, i + 6) {
                Some((cs, j)) => Some((seq![c] + cs, j)),
                None => None,
            },
            None => None,
        }
    } else {
        None
    }
}

/// Decoding an embedded string encoding yields the string and stops right
/// after its terminator.
pub proof fn lemma_dec_str_of_enc(t: Seq<char>, i: int, cs: Seq<char>)
    requires
        0 <= i,
        i + enc_str(cs).len() <= t.len(),
        t.subrange(i, i + enc_str(cs).len()) == enc_str(cs),
    ensures
        dec_str(t, i) == Some((cs, i + enc_str(cs).len())),
    decreases cs.len(),
{
    let e = enc_str(cs);
    if cs.len() == 0 {
        assert(t[i] == e[0]);
    } else {
        let ec = enc_char(cs[0]);
        let rest = enc_str(cs.skip(1));
        lemma_hex_digits_len(char_code(cs[0]), 6);
        assert(ec.len() == 6);
        assert(e == ec + rest);
        assert(t[i] == e[0]);
        assert(e[0] == ec[0]);
        lemma_hex_digits_chars(char_code(cs[0]), 6);
        assert(exists|m: nat| m < 16 && ec[0] == hex_char(m));
        let m = choose|m: nat| m < 16 && ec[0] == hex_char(m);
        lemma_hex_char_not_dot(m);
        assert(t[i] != '.');
        assert(t.subrange(i, i + 6) =~= ec) by {
            assert(forall|j: int| 0 <= j < 6 ==> #[trigger] t.subrange(i, i + e.len() as int)[j] == e[j]);
        }
        lemma_dec_group_of_enc(t, i, cs[0]);
        assert forall|j: int| 0 <= j < rest.len() implies t.subrange(
            i + 6,
            i + 6 + rest.len() as int,
        )[j] == rest[j] by {
            assert(t.subrange(i, i + e.len() as int)[j + 6] == e[j + 6]);
            assert(e[j + 6] == (ec + rest)[j + 6]);
            assert((ec + rest)[j + 6] == rest[j]);
        }
        assert(t.subrange(i + 6, i + 6 + rest.len()) =~= rest);
        lemma_dec_str_of_enc(t, i + 6, cs.skip(1));
        assert(seq![cs[0]] + cs.skip(1) =~= cs);
        assert(i + 6 + rest.len() == i + e.len());
    }
}

/// The encoding of an optional string filter: `n` for absent, `v` plus the
/// string encoding for present.
pub open spec fn enc_opt_str(o: Option<Seq<char>>) -> Seq<char> {
    match o {
        None => seq!['n'],
        Some(cs) => seq!['v'] + enc_str(cs),
    }
}

/// Decodes an optional string filter at `i`.
pub open spec fn dec_opt_str(s: Seq<char>, i: int) -> Option<(Option<Seq<char>>, int)> {
    if i < 0 || i >= s.len() {
        None
    } else if s[i] == 'n' {
        Some((None, i + 1))
    } else if s[i] == 'v' {
        match dec_str(s, i + 1) {
            Some((cs, j)) => Some((Some(cs), j)),
            None => None,
        }
    } else {
        None
    }
}

/// Decoding an embedded optional-string encoding yields the field back.
pub proof fn lemma_dec_opt_str_of_enc(t: Seq<char>, i: int, o: Option<Seq<char>>)
    requires
        0 <= i,
        i + enc_opt_str(o).len() <= t.len(),
        t.subrange(i, i + enc_opt_str(o).len()) == enc_opt_str(o),
    ensures
        dec_opt_str(t, i) == Some((o, i + enc_opt_str(o).len())),
{
    let e = enc_opt_str(o);
    assert(t[i] == e[0]);
    match o {
        None => {
        },
        Some(cs) => {
            let rest = enc_str(cs);
            let head = seq!['v'];
            assert(e == head + rest);
            assert forall|j: int| 0 <= j < rest.len() implies t.subrange(
                i + 1,
                i + 1 + rest.len() as int,
            )[j] == rest[j] by {
                assert(t.subrange(i, i + e.len() as int)[j + 1] == e[j + 1]);
                assert(e[j + 1] == (head + rest)[j + 1]);
                assert((head + rest)[j + 1] == rest[j]);
            }
            assert(t.subrange(i + 1, i + 1 + rest.len()) =~= rest);
            lemma_dec_str_of_enc(t, i + 1, cs);
        },
    }
}

/// The encoding of the optional memory filter: `n` for absent, `v` plus a
/// sixteen-digit rendering for present.
pub open spec fn enc_opt_u64(o: Option<u64>) -> Seq<char> {
    match o {
        None => seq!['n'],
        Some(v) => seq!['v'] + hex_digits(v as nat, 16),
    }
}

/// Decodes the optional memory filter at `i`.
pub open spec fn dec_opt_u64(s: Seq<char>, i: int) -> Option<(Option<u64>, int)> {
    if i < 0 || i >= s.len() {
        None
    } else if s[i] == 'n' {
        Some((None, i + 1))
    } else if s[i] == 'v' && i + 17 <= s.len() {
        match hex_value(s.subrange(i + 1, i + 17)) {
            Some(v) => Some((Some(v as u64), i + 17)),
            None => None,
        }
    } else {
        None
    }
}

/// Decoding an embedded optional-number encoding yields the field back.
pub proof fn lemma_dec_opt_u64_of_enc(t: Seq<char>, i: int, o: Option<u64>)
    requires
        0 <= i,
        i + enc_opt_u64(o).len() <= t.len(),
        t.subrange(i, i + enc_opt_u64(o).len()) == enc_opt_u64(o),
    ensures
        dec_opt_u64(t, i) == Some((o, i + enc_opt_u64(o).len())),
{
    let e = enc_opt_u64(o);
    assert(t[i] == e[0]);
    match o {
        None => {
        },
        Some(v) => {
            lemma_hex_digits_len(v as nat, 16);
            assert(e.len() == 17);
            assert((v as nat) < pow16(16)) by {
                reveal_with_fuel(pow16, 17);
            }
            lemma_hex_value_of_digits(v as nat, 16);
            let head = seq!['v'];
            let rest = hex_digits(v as nat, 16);
            assert(e == head + rest);
            assert forall|j: int| 0 <= j < 16 implies t.subrange(i + 1, i + 17)[j] == rest[j] by {
                assert(t.subrange(i, i + e.len() as int)[j + 1] == e[j + 1]);
                assert(e[j + 1] == (head + rest)[j + 1]);
                assert((head + rest)[j + 1] == rest[j]);
            }
            assert(t.subrange(i + 1, i + 17) =~= rest);
        },
    }
}

/// The encoding of an optional boolean filter.
pub open spec fn enc_opt_bool(o: Option<bool>) -> Seq<char> {
    match o {
        None => seq!['n'],
        Some(true) => seq!['t'],
        Some(false) => seq!['f'],
    }
}

/// Decodes an optional boolean filter at `i`.
pub open spec fn dec_opt_bool(s: Seq<char>, i: int) -> Option<(Option<bool>, int)> {
    if i < 0 || i >= s.len() {
        None
    } else if s[i] == 'n' {
        Some((None, i + 1))
    } else if s[i] == 't' {
        Some((Some(true), i + 1))
    } else if s[i] == 'f' {
        Some((Some(false), i + 1))
    } else {
        None
    }
}

/// Decoding an embedded optional-boolean encoding yields the field back.
pub proof fn lemma_dec_opt_bool_of_enc(t: Seq<char>, i: int, o: Option<bool>)
    requires
        0 <= i,
        i + enc_opt_bool(o).len() <= t.len(),
        t.subrange(i, i + enc_opt_bool(o).len()) == enc_opt_bool(o),
    ensures
        dec_opt_bool(t, i) == Some((o, i + enc_opt_bool(o).len())),
{
    let e = enc_opt_bool(o);
    assert(t[i] == e[0]);
}

/// The filter fingerprint: every filter dimension, encoded in a fixed
/// order.
pub open spec fn enc_filters(f: FiltersModel) -> Seq<char> {
    enc_opt_str(f.machine_type) + enc_opt_str(f.brand) + enc_opt_str(f.name) + enc_opt_str(f.image)
        + enc_opt_str(f.state) + enc_opt_u64(f.memory) + enc_opt_bool(f.tombstone) + enc_opt_str(
        f.tag_name,
    ) + enc_opt_bool(f.docker)
}

/// The continuation token issued for a filter set and a last-seen machine
/// identifier.
pub open spec fn spec_token(f: FiltersModel, last: Seq<char>) -> Seq<char> {
    enc_filters(f) + enc_str(last)
}

/// Decodes a continuation token: the filter set it was issued under and
/// the last-seen machine identifier.  `None` for anything that is not
/// exactly a token this library issues.
pub open spec fn dec_token(s: Seq<char>) -> Option<(FiltersModel, Seq<char>)> {
    match dec_opt_str(s, 0) {
        Some((machine_type, i1)) => match dec_opt_str(s, i1) {
            Some((brand, i2)) => match dec_opt_str(s, i2) {
                Some((name, i3)) => match dec_opt_str(s, i3) {
                    Some((image, i4)) => match dec_opt_str(s, i4) {
                        Some((state, i5)) => match dec_opt_u64(s, i5) {
                            Some((memory, i6)) => match dec_opt_bool(s, i6) {
                                Some((tombstone, i7)) => match dec_opt_str(s, i7) {
                                    Some((tag_name, i8)) => match dec_opt_bool(s, i8) {
                                        Some((docker, i9)) => match dec_str(s, i9) {
                                            Some((last, j)) => if j == s.len() {
                                                Some(
                                                    (
                                                        FiltersModel {
                                                            machine_type,
                                                            brand,
                                                            name,
                                                            image,
                                                            state,
                                                            memory,
                                                            tombstone,
                                                            tag_name,
                                                            docker,
                                                        },
                                                        last,
                                                    ),
                                                )
                                            } else {
                                                None
                                            },
                                            None => None,
                                        },
                                        None => None,
                                    },
                                    None => None,
                                },
                                None => None,
                            },
                            None => None,
                        },
                        None => None,
                    },
                    None => None,
                },
                None => None,
            },
            None => None,
        },
        None => None,
    }
}

/// Decoding a token this library issued yields exactly the filter set and
/// identifier it was issued for: repeating the identical request can
/// resume at the identical place, and nothing else.
#[verifier::rlimit(60)]
pub proof fn lemma_token_round_trip(f: FiltersModel, last: Seq<char>)
    ensures
        dec_token(spec_token(f, last)) == Some((f, last)),
{
    let t = spec_token(f, last);
    let p1 = enc_opt_str(f.machine_type);
    let p2 = enc_opt_str(f.brand);
    let p3 = enc_opt_str(f.name);
    let p4 = enc_opt_str(f.image);
    let p5 = enc_opt_str(f.state);
    let p6 = enc_opt_u64(f.memory);
    let p7 = enc_opt_bool(f.tombstone);
    let p8 = enc_opt_str(f.tag_name);
    let p9 = enc_opt_bool(f.docker);
    let p10 = enc_str(last);
    let o1 = p1.len() as int;
    let o2 = o1 + p2.len();
    let o3 = o2 + p3.len();
    let o4 = o3 + p4.len();
    let o5 = o4 + p5.len();
    let o6 = o5 + p6.len();
    let o7 = o6 + p7.len();
    let o8 = o7 + p8.len();
    let o9 = o8 + p9.len();
    let o10 = o9 + p10.len();
    assert(t =~= p1 + p2 + p3 + p4 + p5 + p6 + p7 + p8 + p9 + p10);
    assert(t.len() == o10);
    assert(t.subrange(0, o1) =~= p1);
    assert(t.subrange(o1, o2) =~= p2);
    assert(t.subrange(o2, o3) =~= p3);
    assert(t.subrange(o3, o4) =~= p4);
    assert(t.subrange(o4, o5) =~= p5);
    assert(t.subrange(o5, o6) =~= p6);
    assert(t.subrange(o6, o7) =~= p7);
    assert(t.subrange(o7, o8) =~= p8);
    assert(t.subrange(o8, o9) =~= p9);
    assert(t.subrange(o9, o10) =~= p10);
    lemma_dec_opt_str_of_enc(t, 0, f.machine_type);
    lemma_dec_opt_str_of_enc(t, o1, f.brand);
    lemma_dec_opt_str_of_enc(t, o2, f.name);
    lemma_dec_opt_str_of_enc(t, o3, f.image);
    lemma_dec_opt_str_of_enc(t, o4, f.state);
    lemma_dec_opt_u64_of_enc(t, o5, f.memory);
    lemma_dec_opt_bool_of_enc(t, o6, f.tombstone);
    lemma_dec_opt_str_of_enc(t, o7, f.tag_name);
    lemma_dec_opt_bool_of_enc(t, o8, f.docker);
    lemma_dec_str_of_enc(t, o9, last);
}

/// Token isolation: a token issued under filter set `a` decodes to `a`
/// itself, so checking it against any different filter set `b` fails.
pub proof fn lemma_token_isolation(a: FiltersModel, b: FiltersModel, last: Seq<char>)
    requires
        a != b,
    ensures
        dec_token(spec_token(a, last)) is Some,
        dec_token(spec_token(a, last))->Some_0.0 != b,
{
    lemma_token_round_trip(a, last);
}

pub(crate) fn hex_digit_char(d: u64) -> (c: char)
    requires
        d < 16,
    ensures
        c == hex_char(d as nat),
{
    if d == 0 {
        '0'
    } else if d == 1 {
        '1'
    } else if d == 2 {
        '2'
    } else if d == 3 {
        '3'
    } else if d == 4 {
        '4'
    } else if d == 5 {
        '5'
    } else if d == 6 {
        '6'
    } else if d == 7 {
        '7'
    } else if d == 8 {
        '8'
    } else if d == 9 {
        '9'
    } else if d == 10 {
        'a'
    } else if d == 11 {
        'b'
    } else if d == 12 {
        'c'
    } else if d == 13 {
        'd'
    } else if d == 14 {
        'e'
    } else {
        'f'
    }
}

fn hex_val_of(c: char) -> (r: Option<u64>)
    ensures
        r == (match hex_val(c) {
            Some(n) => Some(n as u64),
            None => None,
        }),
{
    if c == '0' {
        Some(0)
    } else if c == '1' {
        Some(1)
    } else if c == '2' {
        Some(2)
    } else if c == '3' {
        Some(3)
    } else if c == '4' {
        Some(4)
    } else if c == '5' {
        Some(5)
    } else if c == '6' {
        Some(6)
    } else if c == '7' {
        Some(7)
    } else if c == '8' {
        Some(8)
    } else if c == '9' {
        Some(9)
    } else if c == 'a' {
        Some(10)
    } else if c == 'b' {
        Some(11)
    } else if c == 'c' {
        Some(12)
    } else if c == 'd' {
        Some(13)
    } else if c == 'e' {
        Some(14)
    } else if c == 'f' {
        Some(15)
    } else {
        None
    }
}

fn push_hex(out: &mut Vec<char>, n: u64, k: usize)
    requires
        k <= 16,
    ensures
        final(out)@ == old(out)@ + hex_digits(n as nat, k as nat),
    decreases k,
{
    if k == 0 {
        proof {
            assert(out@ =~= old(out)@ + hex_digits(n as nat, 0));
        }
    } else {
        let ghost pre = out@;
        push_hex(out, n / 16, k - 1);
        out.push(hex_digit_char(n % 16));
        proof {
            assert((n as nat) / 16 == (n / 16) as nat);
            assert((n as nat) % 16 == (n % 16) as nat);
            assert(out@ =~= pre + hex_digits(n as nat, k as nat));
        }
    }
}

fn push_enc_str_from(out: &mut Vec<char>, v: &Vec<char>, i: usize)
    requires
        i <= v.len(),
    ensures
        final(out)@ == old(out)@ + enc_str(v@.skip(i as int)),
    decreases v.len() - i,
{
    if i == v.len() {
        out.push('.');
        proof {
            assert(v@.skip(i as int) =~= Seq::<char>::empty());
            assert(out@ =~= old(out)@ + enc_str(v@.skip(i as int)));
        }
    } else {
        let ghost pre = out@;
        let c = v[i];
        let cu: u32 = c as u32;
        push_hex(out, cu as u64, 6);
        push_enc_str_from(out, v, i + 1);
        proof {
            let tailseq = v@.skip(i as int);
            assert(tailseq[0] == v@[i as int]);
            assert(tailseq.skip(1) =~= v@.skip(i as int + 1));
            assert((cu as u64) as nat == char_code(c));
            assert(enc_str(tailseq) == enc_char(c) + enc_str(v@.skip(i as int + 1)));
            assert(out@ =~= pre + enc_str(tailseq));
        }
    }
}

fn push_enc_str(out: &mut Vec<char>, s: &str)
    ensures
        final(out)@ == old(out)@ + enc_str(s@),
{
    let v = str_chars(s);
    proof {
        assert(v@.skip(0) =~= s@);
    }
    push_enc_str_from(out, &v, 0);
}

fn push_enc_opt_str(out: &mut Vec<char>, o: &Option<String>)
    ensures
        final(out)@ == old(out)@ + enc_opt_str(opt_view(*o)),
{
    match o {
        None => {
            out.push('n');
            proof {
                assert(out@ =~= old(out)@ + enc_opt_str(None));
            }
        },
        Some(s) => {
            let ghost pre = out@;
            out.push('v');
            push_enc_str(out, s.as_str());
            proof {
                assert(out@ =~= pre + enc_opt_str(Some(s@)));
            }
        },
    }
}

fn push_enc_opt_u64(out: &mut Vec<char>, o: &Option<u64>)
    ensures
        final(out)@ == old(out)@ + enc_opt_u64(*o),
{
    match o {
        None => {
            out.push('n');
            proof {
                assert(out@ =~= old(out)@ + enc_opt_u64(None));
            }
        },
        Some(v) => {
            let ghost pre = out@;
            out.push('v');
            push_hex(out, *v, 16);
            proof {
                assert(out@ =~= pre + enc_opt_u64(Some(*v)));
            }
        },
    }
}

fn push_enc_opt_bool(out: &mut Vec<char>, o: &Option<bool>)
    ensures
        final(out)@ == old(out)@ + enc_opt_bool(*o),
{
    match o {
        None => out.push('n'),
        Some(true) => out.push('t'),
        Some(false) => out.push('f'),
    }
    proof {
        assert(out@ =~= old(out)@ + enc_opt_bool(*o));
    }
}

/// Builds the continuation token for a filter set and the identifier of
/// the last machine of the page just returned.
pub fn encode_token(f: &Filters, last: &str) -> (t: String)
    ensures
        t@ == spec_token(f@, last@),
{
    let mut out: Vec<char> = Vec::new();
    push_enc_opt_str(&mut out, &f.machine_type);
    push_enc_opt_str(&mut out, &f.brand);
    push_enc_opt_str(&mut out, &f.name);
    push_enc_opt_str(&mut out, &f.image);
    push_enc_opt_str(&mut out, &f.state);
    push_enc_opt_u64(&mut out, &f.memory);
    push_enc_opt_bool(&mut out, &f.tombstone);
    push_enc_opt_str(&mut out, &f.tag_name);
    push_enc_opt_bool(&mut out, &f.docker);
    push_enc_str(&mut out, last);
    proof {
        assert(out@ =~= spec_token(f@, last@));
    }
    string_from_chars(&out)
}

/// Relies on `char::from_u32`: `Some` exactly for valid scalar values,
/// returning the character with that value; `None` only for values no
/// character has.
#[verifier::external_body]
fn char_from_u32(n: u32) -> (r: Option<char>)
    ensures
        match r {
            Some(c) => char_code(c) == n as nat,
            None => forall|c: char| #[trigger] char_code(c) != n as nat,
        },
{
    char::from_u32(n)
}

/// A sequence holding a character that is no hexadecimal digit has no
/// hexadecimal value.
proof fn lemma_hex_value_none(s: Seq<char>, m: int)
    requires
        0 <= m < s.len(),
        hex_val(s[m]) is None,
    ensures
        hex_value(s) is None,
    decreases s.len(),
{
    if s.len() > 0 {
        if m == s.len() - 1 {
        } else {
            lemma_hex_value_none(s.drop_last(), m);
        }
    }
}

fn read_group(v: &Vec<char>, i: usize) -> (r: Option<char>)
    requires
        i + 6 <= v.len(),
    ensures
        r == dec_group(v@, i as int),
{
    let mut acc: u64 = 0;
    let mut j: usize = 0;
    while j < 6
        invariant
            j <= 6,
            i + 6 <= v.len(),
            hex_value(v@.subrange(i as int, i as int + j)) == Some(acc as nat),
            acc < pow16(j as nat),
        decreases 6 - j,
    {
        proof {
            lemma_pow16_le((j + 1) as nat, 6);
            assert(pow16(6) == 0x1000000) by {
                reveal_with_fuel(pow16, 7);
            }
        }
        match hex_val_of(v[i + j]) {
            None => {
                proof {
                    let g = v@.subrange(i as int, i as int + 6);
                    assert(g[j as int] == v@[i as int + j]);
                    lemma_hex_value_none(g, j as int);
                }
                return None;
            },
            Some(d) => {
                proof {
                    let pre = v@.subrange(i as int, i as int + j);
                    let cur = v@.subrange(i as int, i as int + j + 1);
                    assert(cur.drop_last() =~= pre);
                    assert(cur.last() == v@[i as int + j]);
                    assert(pow16((j + 1) as nat) == 16 * pow16(j as nat));
                }
                acc = acc * 16 + d;
            },
        }
        j += 1;
    }
    proof {
        assert(pow16(6) == 0x1000000) by {
            reveal_with_fuel(pow16, 7);
        }
    }
    match char_from_u32(acc as u32) {
        Some(c) => {
            proof {
                assert(exists|c2: char| #[trigger] char_code(c2) == acc as nat);
                let c2 = choose|c2: char| #[trigger] char_code(c2) == acc as nat;
                lemma_char_injective(c2, c);
            }
            Some(c)
        },
        None => {
            None
        },
    }
}

fn dec_str_exec(v: &Vec<char>, i: usize) -> (r: Option<(Vec<char>, usize)>)
    ensures
        match (r, dec_str(v@, i as int)) {
            (Some((cs, j)), Some(sp)) => cs@ == sp.0 && j as int == sp.1,
            (None, None) => true,
            _ => false,
        },
    decreases v.len() - i,
{
    if i >= v.len() {
        None
    } else if v[i] == '.' {
        Some((Vec::new(), i + 1))
    } else if v.len() - i >= 6 {
        match read_group(v, i) {
            Some(c) => match dec_str_exec(v, i + 6) {
                Some((rest, j)) => {
                    let ghost spec_rest = dec_str(v@, i as int + 6)->Some_0.0;
                    let mut cs: Vec<char> = Vec::new();
                    cs.push(c);
                    let mut rest = rest;
                    cs.append(&mut rest);
                    proof {
                        assert(cs@ =~= seq![c] + spec_rest);
                    }
                    Some((cs, j))
                },
                None => None,
            },
            None => None,
        }
    } else {
        None
    }
}

fn dec_opt_str_exec(v: &Vec<char>, i: usize) -> (r: Option<(Option<String>, usize)>)
    ensures
        match (r, dec_opt_str(v@, i as int)) {
            (Some((o, j)), Some(sp)) => opt_view(o) == sp.0 && j as int == sp.1,
            (None, None) => true,
            _ => false,
        },
{
    if i >= v.len() {
        None
    } else if v[i] == 'n' {
        Some((None, i + 1))
    } else if v[i] == 'v' {
        match dec_str_exec(v, i + 1) {
            Some((cs, j)) => Some((Some(string_from_chars(&cs)), j)),
            None => None,
        }
    } else {
        None
    }
}

fn dec_opt_u64_exec(v: &Vec<char>, i: usize) -> (r: Option<(Option<u64>, usize)>)
    ensures
        match (r, dec_opt_u64(v@, i as int)) {
            (Some((o, j)), Some(sp)) => o == sp.0 && j as int == sp.1,
            (None, None) => true,
            _ => false,
        },
{
    if i >= v.len() {
        None
    } else if v[i] == 'n' {
        Some((None, i + 1))
    } else if v[i] == 'v' && v.len() - i >= 17 {
        let mut acc: u64 = 0;
        let mut j: usize = 0;
        while j < 16
            invariant
                j <= 16,
                i < v.len(),
                i + 17 <= v.len(),
                v@[i as int] == 'v',
                hex_value(v@.subrange(i as int + 1, i as int + 1 + j)) == Some(acc as nat),
                acc < pow16(j as nat),
            decreases 16 - j,
        {
            proof {
                lemma_pow16_le((j + 1) as nat, 16);
                lemma_pow16_16();
            }
            match hex_val_of(v[i + 1 + j]) {
                None => {
                    proof {
                        let g = v@.subrange(i as int + 1, i as int + 17);
                        assert(g[j as int] == v@[i as int + 1 + j]);
                        lemma_hex_value_none(g, j as int);
                    }
                    return None;
                },
                Some(d) => {
                    proof {
                        let pre = v@.subrange(i as int + 1, i as int + 1 + j);
                        let cur = v@.subrange(i as int + 1, i as int + 1 + j + 1);
                        assert(cur.drop_last() =~= pre);
                        assert(cur.last() == v@[i as int + 1 + j]);
                        assert(pow16((j + 1) as nat) == 16 * pow16(j as nat));
                    }
                    acc = acc * 16 + d;
                },
            }
            j += 1;
        }
        proof {
            assert(hex_value(v@.subrange(i as int + 1, i as int + 17)) == Some(acc as nat));
        }
        Some((Some(acc), i + 17))
    } else {
        None
    }
}

fn dec_opt_bool_exec(v: &Vec<char>, i: usize) -> (r: Option<(Option<bool>, usize)>)
    ensures
        match (r, dec_opt_bool(v@, i as int)) {
            (Some((o, j)), Some(sp)) => o == sp.0 && j as int == sp.1,
            (None, None) => true,
            _ => false,
        },
{
    if i >= v.len() {
        None
    } else if v[i] == 'n' {
        Some((None, i + 1))
    } else if v[i] == 't' {
        Some((Some(true), i + 1))
    } else if v[i] == 'f' {
        Some((Some(false), i + 1))
    } else {
        None
    }
}

/// Decodes a continuation token.  Yields the filter set the token was
/// issued under and the last-seen machine identifier, or `None` for any
/// string that is not exactly a token this library issues.
pub fn decode_token(tok: &str) -> (r: Option<(Filters, String)>)
    ensures
        match (r, dec_token(tok@)) {
            (Some((f, last)), Some(sp)) => f@ == sp.0 && last@ == sp.1,
            (None, None) => true,
            _ => false,
        },
{
    let v = str_chars(tok);
    let r1 = dec_opt_str_exec(&v, 0);
    if r1.is_none() {
        return None;
    }
    let (machine_type, i1) = r1.unwrap();
    let r2 = dec_opt_str_exec(&v, i1);
    if r2.is_none() {
        return None;
    }
    let (brand, i2) = r2.unwrap();
    let r3 = dec_opt_str_exec(&v, i2);
    if r3.is_none() {
        return None;
    }
    let (name, i3) = r3.unwrap();
    let r4 = dec_opt_str_exec(&v, i3);
    if r4.is_none() {
        return None;
    }
    let (image, i4) = r4.unwrap();
    let r5 = dec_opt_str_exec(&v, i4);
    if r5.is_none() {
        return None;
    }
    let (state, i5) = r5.unwrap();
    let r6 = dec_opt_u64_exec(&v, i5);
    if r6.is_none() {
        return None;
    }
    let (memory, i6) = r6.unwrap();
    let r7 = dec_opt_bool_exec(&v, i6);
    if r7.is_none() {
        return None;
    }
    let (tombstone, i7) = r7.unwrap();
    let r8 = dec_opt_str_exec(&v, i7);
    if r8.is_none() {
        return None;
    }
    let (tag_name, i8) = r8.unwrap();
    let r9 = dec_opt_bool_exec(&v, i8);
    if r9.is_none() {
        return None;
    }
    let (docker, i9) = r9.unwrap();
    let r10 = dec_str_exec(&v, i9);
    if r10.is_none() {
        return None;
    }
    let (last, j) = r10.unwrap();
    if j != v.len() {
        return None;
    }
    let f = Filters { machine_type, brand, name, image, state, memory, tombstone, tag_name, docker };
    Some((f, string_from_chars(&last)))
}

} // verus!
