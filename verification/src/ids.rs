//! Build and deployment identifiers.
//!
//! An identifier is an opaque 128-bit value.  Its canonical text form is
//! the usual hyphenated rendering: 32 lowercase hex digits in groups of
//! 8-4-4-4-12.  Formatting and parsing are verified inverses.

use vstd::prelude::*;

verus! {

/// Sixteen to the power `n`.
pub open spec fn pow16(n: nat) -> int
    decreases n,
{
    if n == 0 {
        1
    } else {
        16 * pow16((n - 1) as nat)
    }
}

proof fn lemma_pow16_32()
    ensures
        pow16(32nat) == 0x100000000000000000000000000000000,
{
    reveal_with_fuel(pow16, 33);
}

proof fn lemma_pow16_pos(n: nat)
    ensures
        pow16(n) >= 1,
    decreases n,
{
    if n > 0 {
        lemma_pow16_pos((n - 1) as nat);
    }
}

/// The lowercase hex digit character for a value below sixteen.
pub open spec fn hex_char(d: int) -> char {
    if d == 0 {
        '0'
    } else if d == 1 {
        '1'
    } else if d == 2 {
        '2'
    } else if d == 3 {
        '3'
    } else if d == 4 {
        '4'
    } else if d == 5 {
        '5'
    } else if d == 6 {
        '6'
    } else if d == 7 {
        '7'
    } else if d == 8 {
        '8'
    } else if d == 9 {
        '9'
    } else if d == 10 {
        'a'
    } else if d == 11 {
        'b'
    } else if d == 12 {
        'c'
    } else if d == 13 {
        'd'
    } else if d == 14 {
        'e'
    } else {
        'f'
    }
}

/// The value of a lowercase hex digit character, if it is one.
pub open spec fn hex_val(c: char) -> Option<int> {
    if c == '0' {
        Some(0)
    } else if c == '1' {
        Some(1)
    } else if c == '2' {
        Some(2)
    } else if c == '3' {
        Some(3)
    } else if c == '4' {
        Some(4)
    } else if c == '5' {
        Some(5)
    } else if c == '6' {
        Some(6)
    } else if c == '7' {
        Some(7)
    } else if c == '8' {
        Some(8)
    } else if c == '9' {
        Some(9)
    } else if c == 'a' {
        Some(10)
    } else if c == 'b' {
        Some(11)
    } else if c == 'c' {
        Some(12)
    } else if c == 'd' {
        Some(13)
    } else if c == 'e' {
        Some(14)
    } else if c == 'f' {
        Some(15)
    } else {
        None
    }
}

/// The `i`-th hex digit of `id`, most significant first, of 32.
pub open spec fn nib_at(id: u128, i: int) -> int {
    (id as int / pow16((31 - i) as nat)) % 16
}

/// The 32 hex digits of `id`, most significant first.
pub open spec fn hex_str(id: u128) -> Seq<char> {
    Seq::new(32, |i: int| hex_char(nib_at(id, i)))
}

/// The canonical hyphenated text form of an identifier.
pub open spec fn id_str(id: u128) -> Seq<char> {
    hex_str(id).subrange(0, 8) + seq!['-'] + hex_str(id).subrange(8, 12) + seq!['-'] + hex_str(
        id,
    ).subrange(12, 16) + seq!['-'] + hex_str(id).subrange(16, 20) + seq!['-'] + hex_str(
        id,
    ).subrange(20, 32)
}

fn append_hex_digit(out: &mut String, d: u128)
    requires
        d < 16,
    ensures
        final(out)@ == old(out)@.push(hex_char(d as int)),
{
    proof {
        reveal_strlit("0");
        reveal_strlit("1");
        reveal_strlit("2");
        reveal_strlit("3");
        reveal_strlit("4");
        reveal_strlit("5");
        reveal_strlit("6");
        reveal_strlit("7");
        reveal_strlit("8");
        reveal_strlit("9");
        reveal_strlit("a");
        reveal_strlit("b");
        reveal_strlit("c");
        reveal_strlit("d");
        reveal_strlit("e");
        reveal_strlit("f");
    }
    if d == 0 {
        out.append("0");
    } else if d == 1 {
        out.append("1");
    } else if d == 2 {
        out.append("2");
    } else if d == 3 {
        out.append("3");
    } else if d == 4 {
        out.append("4");
    } else if d == 5 {
        out.append("5");
    } else if d == 6 {
        out.append("6");
    } else if d == 7 {
        out.append("7");
    } else if d == 8 {
        out.append("8");
    } else if d == 9 {
        out.append("9");
    } else if d == 10 {
        out.append("a");
    } else if d == 11 {
        out.append("b");
    } else if d == 12 {
        out.append("c");
    } else if d == 13 {
        out.append("d");
    } else if d == 14 {
        out.append("e");
    } else {
        out.append("f");
    }
    proof {
        assert(old(out)@.push(hex_char(d as int)) =~= out@);
    }
}

/// The 32 hex digits of `id` as a string, most significant first.
fn hex32(id: u128) -> (r: String)
    ensures
        r@ =~= hex_str(id),
{
    let mut vals: Vec<u128> = Vec::new();
    let mut cur: u128 = id;
    let mut k: usize = 0;
    while k < 32
        invariant
            vals@.len() == k,
            0 <= k <= 32,
            cur as int == id as int / pow16(k as nat),
            forall|j: int| 0 <= j < k ==> #[trigger] vals@[j] == (id as int / pow16(j as nat))
                % 16,
        decreases 32 - k,
    {
        proof {
            lemma_pow16_pos(k as nat);
            vstd::arithmetic::div_mod::lemma_div_denominator(id as int, pow16(k as nat), 16);
        }
        vals.push(cur % 16);
        cur = cur / 16;
        k += 1;
    }
    let mut out = String::new();
    let mut i: usize = 0;
    while i < 32
        invariant
            vals@.len() == 32,
            0 <= i <= 32,
            forall|j: int| 0 <= j < 32 ==> #[trigger] vals@[j] == (id as int / pow16(j as nat))
                % 16,
            out@ =~= hex_str(id).subrange(0, i as int),
        decreases 32 - i,
    {
        let d = vals[31 - i];
        assert(d == nib_at(id, i as int));
        append_hex_digit(&mut out, d);
        proof {
            assert(hex_str(id).subrange(0, i + 1) =~= hex_str(id).subrange(0, i as int).push(
                hex_str(id)[i as int],
            ));
        }
        i += 1;
    }
    proof {
        assert(out@ =~= hex_str(id));
    }
    out
}

/// Renders an identifier in its canonical hyphenated form.
pub fn format_id(id: u128) -> (r: String)
    ensures
        r@ == id_str(id),
{
    proof {
        reveal_strlit("-");
    }
    let h = hex32(id);
    let mut out = String::new();
    out.append(h.as_str().substring_char(0, 8));
    out.append("-");
    out.append(h.as_str().substring_char(8, 12));
    out.append("-");
    out.append(h.as_str().substring_char(12, 16));
    out.append("-");
    out.append(h.as_str().substring_char(16, 20));
    out.append("-");
    out.append(h.as_str().substring_char(20, 32));
    proof {
        assert(out@ =~= id_str(id));
    }
    out
}

/// The value of a sequence of hex digit characters, most significant
/// first; `None` if any character is not a lowercase hex digit.
pub open spec fn parse_hex_seq(s: Seq<char>) -> Option<int>
    decreases s.len(),
{
    if s.len() == 0 {
        Some(0)
    } else {
        match (parse_hex_seq(s.drop_last()), hex_val(s.last())) {
            (Some(hi), Some(d)) => Some(hi * 16 + d),
            _ => None,
        }
    }
}

/// The 32 hex digit characters of a 36-character hyphenated form.
pub open spec fn hex_chars_of(s: Seq<char>) -> Seq<char> {
    s.subrange(0, 8) + s.subrange(9, 13) + s.subrange(14, 18) + s.subrange(19, 23) + s.subrange(
        24,
        36,
    )
}

/// Whether a 36-character sequence has hyphens exactly where the
/// canonical form puts them.
pub open spec fn id_shape(s: Seq<char>) -> bool {
    s.len() == 36 && s[8] == '-' && s[13] == '-' && s[18] == '-' && s[23] == '-'
}

/// What parsing an identifier yields: the value of the 32 hex digits,
/// if the shape and every digit are canonical.
pub open spec fn parse_id_spec(s: Seq<char>) -> Option<u128> {
    if id_shape(s) {
        match parse_hex_seq(hex_chars_of(s)) {
            Some(v) => if v < 0x100000000000000000000000000000000 {
                Some(v as u128)
            } else {
                None
            },
            None => None,
        }
    } else {
        None
    }
}

proof fn lemma_parse_hex_bound(s: Seq<char>)
    ensures
        match parse_hex_seq(s) {
            Some(v) => 0 <= v < pow16(s.len()),
            None => true,
        },
    decreases s.len(),
{
    if s.len() > 0 {
        lemma_parse_hex_bound(s.drop_last());
    }
}

fn hex_digit_of(c: char) -> (r: Option<u128>)
    ensures
        match r {
            Some(d) => hex_val(c) == Some(d as int) && d < 16,
            None => hex_val(c) is None,
        },
{
    if c == '0' {
        Some(0)
    } else if c == '1' {
        Some(1)
    } else if c == '2' {
        Some(2)
    } else if c == '3' {
        Some(3)
    } else if c == '4' {
        Some(4)
    } else if c == '5' {
        Some(5)
    } else if c == '6' {
        Some(6)
    } else if c == '7' {
        Some(7)
    } else if c == '8' {
        Some(8)
    } else if c == '9' {
        Some(9)
    } else if c == 'a' {
        Some(10)
    } else if c == 'b' {
        Some(11)
    } else if c == 'c' {
        Some(12)
    } else if c == 'd' {
        Some(13)
    } else if c == 'e' {
        Some(14)
    } else if c == 'f' {
        Some(15)
    } else {
        None
    }
}

/// The character index, in the hyphenated form, of hex digit `j`.
spec fn hex_pos(j: int) -> int {
    if j < 8 {
        j
    } else if j < 12 {
        j + 1
    } else if j < 16 {
        j + 2
    } else if j < 20 {
        j + 3
    } else {
        j + 4
    }
}

fn hex_pos_exec(j: usize) -> (r: usize)
    requires
        j < 32,
    ensures
        r == hex_pos(j as int),
{
    if j < 8 {
        j
    } else if j < 12 {
        j + 1
    } else if j < 16 {
        j + 2
    } else if j < 20 {
        j + 3
    } else {
        j + 4
    }
}

/// Parses the canonical hyphenated form of an identifier.  Succeeds on
/// exactly the strings that `format_id` produces.
pub fn parse_id(s: &str) -> (r: Option<u128>)
    ensures
        r == parse_id_spec(s@),
{
    proof {
        reveal_strlit("-");
    }
    if s.unicode_len() != 36 {
        return None;
    }
    if s.get_char(8) != '-' || s.get_char(13) != '-' || s.get_char(18) != '-' || s.get_char(23)
        != '-' {
        return None;
    }
    let ghost hex = hex_chars_of(s@);
    proof {
        assert(hex.len() == 32);
    }
    let mut acc: u128 = 0;
    let mut j: usize = 0;
    while j < 32
        invariant
            s@.len() == 36,
            id_shape(s@),
            hex == hex_chars_of(s@),
            0 <= j <= 32,
            Some(acc as int) == parse_hex_seq(hex.subrange(0, j as int)),
            (acc as int) < pow16(j as nat),
        decreases 32 - j,
    {
        let pos = hex_pos_exec(j);
        let c = s.get_char(pos);
        proof {
            assert(hex[j as int] == s@[hex_pos(j as int)]);
        }
        match hex_digit_of(c) {
            Some(d) => {
                proof {
                    lemma_pow16_pos(j as nat);
                    assert(acc as int * 16 + d < pow16((j + 1) as nat)) by {
                        assert(pow16((j + 1) as nat) == 16 * pow16(j as nat));
                    };
                    lemma_pow16_32();
                    lemma_pow16_le(((j + 1) as nat), 32nat);
                    let pre = hex.subrange(0, j + 1);
                    assert(pre.drop_last() =~= hex.subrange(0, j as int));
                    assert(pre.last() == hex[j as int]);
                    assert(parse_hex_seq(pre) == Some(acc as int * 16 + d as int));
                }
                acc = acc * 16 + d;
            },
            None => {
                proof {
                    let pre = hex.subrange(0, 32);
                    assert(pre =~= hex);
                    lemma_hex_prefix_none(hex, j as int);
                }
                return None;
            },
        }
        j += 1;
    }
    proof {
        assert(hex.subrange(0, 32) =~= hex);
        assert(parse_hex_seq(hex) == Some(acc as int));
    }
    Some(acc)
}

proof fn lemma_pow16_le(a: nat, b: nat)
    requires
        a <= b,
    ensures
        pow16(a) <= pow16(b),
    decreases b,
{
    if a < b {
        lemma_pow16_le(a, (b - 1) as nat);
        lemma_pow16_pos((b - 1) as nat);
    }
}

/// If some digit of `s` is not hex, parsing any extension of that
/// prefix fails.
proof fn lemma_hex_prefix_none(s: Seq<char>, j: int)
    requires
        0 <= j < s.len(),
        hex_val(s[j]) is None,
    ensures
        parse_hex_seq(s) is None,
    decreases s.len(),
{
    if s.len() > 0 {
        if j == s.len() - 1 {
        } else {
            lemma_hex_prefix_none(s.drop_last(), j);
        }
    }
}

/// Parsing inverts formatting: the canonical text of an identifier
/// parses back to that identifier.
pub proof fn lemma_id_round_trip(id: u128)
    ensures
        parse_id_spec(id_str(id)) == Some(id),
{
    let s = id_str(id);
    assert(s.len() == 36);
    assert(id_shape(s)) by {
        assert(s[8] == '-');
        assert(s[13] == '-');
        assert(s[18] == '-');
        assert(s[23] == '-');
    }
    assert(hex_chars_of(s) =~= hex_str(id));
    lemma_parse_of_hex_str(id, 32);
    assert(hex_str(id).subrange(0, 32) =~= hex_str(id));
    lemma_pow16_pos(0nat);
    assert(id as int / pow16(0nat) == id as int);
    assert(parse_hex_seq(hex_str(id)) == Some(id as int));
}

/// Parsing the first `k` hex digits of `id` yields `id` shifted down by
/// the remaining digits.
proof fn lemma_parse_of_hex_str(id: u128, k: int)
    requires
        0 <= k <= 32,
    ensures
        parse_hex_seq(hex_str(id).subrange(0, k)) == Some(
            id as int / pow16((32 - k) as nat),
        ),
    decreases k,
{
    if k == 0 {
        assert(hex_str(id).subrange(0, 0) =~= Seq::<char>::empty());
        lemma_pow16_pos(32nat);
        lemma_pow16_32();
        assert(id as int / pow16(32nat) == 0) by {
            vstd::arithmetic::div_mod::lemma_basic_div(id as int, pow16(32nat));
        };
    } else {
        lemma_parse_of_hex_str(id, k - 1);
        let pre = hex_str(id).subrange(0, k);
        assert(pre.drop_last() =~= hex_str(id).subrange(0, k - 1));
        assert(pre.last() == hex_char(nib_at(id, k - 1)));
        let d = nib_at(id, k - 1);
        assert(0 <= d < 16);
        assert(hex_val(hex_char(d)) == Some(d));
        let hi = id as int / pow16((33 - k) as nat);
        let q = id as int / pow16((32 - k) as nat);
        assert(hi == q / 16) by {
            lemma_pow16_pos((32 - k) as nat);
            vstd::arithmetic::div_mod::lemma_div_denominator(
                id as int,
                pow16((32 - k) as nat),
                16,
            );
            assert(pow16((33 - k) as nat) == pow16((32 - k) as nat) * 16) by {
                assert(pow16((33 - k) as nat) == 16 * pow16((32 - k) as nat));
            };
        };
        assert(d == q % 16);
        assert(hi * 16 + d == q) by {
            vstd::arithmetic::div_mod::lemma_fundamental_div_mod(q, 16);
        };
        assert(parse_hex_seq(pre) == Some(hi * 16 + d));
    }
}

/// Relies on uuid::Uuid::new_v4 and Uuid::as_u128: a freshly generated
/// random identifier, taken as its 128-bit value.  Nothing is promised
/// of the value.
#[verifier::external_body]
pub(crate) fn fresh_id() -> u128 {
    uuid::Uuid::new_v4().as_u128()
}

} // verus!
