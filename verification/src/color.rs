//! Tag colours: stored as a packed `0xRRGGBB` integer, written as `#rrggbb` text.

use vstd::prelude::*;
use vstd::string::StrSliceExecFns;

verus! {

/// The value of a hexadecimal digit (either case), if `c` is one.
pub open spec fn hex_value(c: char) -> Option<int> {
    if '0' <= c && c <= '9' {
        Some(c as int - 48)
    } else if 'a' <= c && c <= 'f' {
        Some(c as int - 87)
    } else if 'A' <= c && c <= 'F' {
        Some(c as int - 55)
    } else {
        None
    }
}

/// The lower-case hexadecimal digit for `d` in `0..16`.
pub open spec fn hex_digit(d: int) -> char {
    if d < 10 {
        (d + 48) as char
    } else {
        (d + 87) as char
    }
}

/// Holds of colour text: `#` followed by six hexadecimal digits.
pub open spec fn is_color_text(s: Seq<char>) -> bool {
    &&& s.len() == 7
    &&& s[0] == '#'
    &&& forall|i: int| 1 <= i < 7 ==> #[trigger] hex_value(s[i]) is Some
}

/// The number that the digits `s[1..k]` spell in base 16.
pub open spec fn hex_prefix_value(s: Seq<char>, k: nat) -> int
    decreases k,
{
    if k <= 1 {
        0
    } else {
        hex_prefix_value(s, (k - 1) as nat) * 16 + hex_value(s[k - 1]).unwrap_or(0)
    }
}

/// The packed colour that text stands for; text that is not a colour stands for 0.
pub open spec fn color_int_of_text(s: Seq<char>) -> i32 {
    if is_color_text(s) {
        hex_prefix_value(s, 7) as i32
    } else {
        0
    }
}

/// The packed colour as `#rrggbb`, taking the low 24 bits of `c` (Euclidean remainder).
pub open spec fn color_text_of_int(c: i32) -> Seq<char> {
    let v = (c as int) % 0x1000000;
    seq![
        '#',
        hex_digit((v / 0x100000) % 16),
        hex_digit((v / 0x10000) % 16),
        hex_digit((v / 0x1000) % 16),
        hex_digit((v / 0x100) % 16),
        hex_digit((v / 0x10) % 16),
        hex_digit(v % 16),
    ]
}

fn hex_digit_value(c: char) -> (r: Option<i32>)
    ensures
        r is Some <==> hex_value(c) is Some,
        r matches Some(d) ==> d == hex_value(c).unwrap() && 0 <= d < 16,
{
    if '0' <= c && c <= '9' {
        Some(c as i32 - 48)
    } else if 'a' <= c && c <= 'f' {
        Some(c as i32 - 87)
    } else if 'A' <= c && c <= 'F' {
        Some(c as i32 - 55)
    } else {
        None
    }
}

/// The lower-case hexadecimal digit for `d`, as a one-character string.
fn hex_digit_str(d: u32) -> (r: &'static str)
    requires
        d < 16,
    ensures
        r@ == seq![hex_digit(d as int)],
{
    if d == 0 {
        proof {
            reveal_strlit("0");
        }
        "0"
    } else if d == 1 {
        proof {
            reveal_strlit("1");
        }
        "1"
    } else if d == 2 {
        proof {
            reveal_strlit("2");
        }
        "2"
    } else if d == 3 {
        proof {
            reveal_strlit("3");
        }
        "3"
    } else if d == 4 {
        proof {
            reveal_strlit("4");
        }
        "4"
    } else if d == 5 {
        proof {
            reveal_strlit("5");
        }
        "5"
    } else if d == 6 {
        proof {
            reveal_strlit("6");
        }
        "6"
    } else if d == 7 {
        proof {
            reveal_strlit("7");
        }
        "7"
    } else if d == 8 {
        proof {
            reveal_strlit("8");
        }
        "8"
    } else if d == 9 {
        proof {
            reveal_strlit("9");
        }
        "9"
    } else if d == 10 {
        proof {
            reveal_strlit("a");
        }
        "a"
    } else if d == 11 {
        proof {
            reveal_strlit("b");
        }
        "b"
    } else if d == 12 {
        proof {
            reveal_strlit("c");
        }
        "c"
    } else if d == 13 {
        proof {
            reveal_strlit("d");
        }
        "d"
    } else if d == 14 {
        proof {
            reveal_strlit("e");
        }
        "e"
    } else if d == 15 {
        proof {
            reveal_strlit("f");
        }
        "f"
    } else {
        proof {
            reveal_strlit("f");
        }
        "f"
    }
}

/// Sixteen to the power `n`.
pub open spec fn pow16(n: nat) -> int
    decreases n,
{
    if n == 0 {
        1
    } else {
        16 * pow16((n - 1) as nat)
    }
}

proof fn lemma_pow16_up_to_six()
    ensures
        pow16(0) == 1,
        pow16(1) == 0x10,
        pow16(2) == 0x100,
        pow16(3) == 0x1000,
        pow16(4) == 0x10000,
        pow16(5) == 0x100000,
        pow16(6) == 0x1000000,
{
    reveal_with_fuel(pow16, 7);
}

/// Reads colour text as a packed `0xRRGGBB` integer; text that is not `#`
/// followed by six hexadecimal digits reads as 0.
pub fn string_to_rgb_int(s: &str) -> (r: i32)
    ensures
        r == color_int_of_text(s@),
{
    let n = s.unicode_len();
    if n != 7 {
        return 0;
    }
    if s.get_char(0) != '#' {
        return 0;
    }
    let mut v: i32 = 0;
    for i in 1..7usize
        invariant
            s@.len() == 7,
            s@[0] == '#',
            forall|j: int| 1 <= j < i ==> #[trigger] hex_value(s@[j]) is Some,
            v == hex_prefix_value(s@, i as nat),
            0 <= v < pow16((i - 1) as nat),
    {
        match hex_digit_value(s.get_char(i)) {
            Some(d) => {
                proof {
                    lemma_pow16_up_to_six();
                }
                v = v * 16 + d;
            },
            None => {
                return 0;
            },
        }
    }
    proof {
        assert(is_color_text(s@));
        lemma_pow16_up_to_six();
    }
    v
}

/// Writes a packed colour as `#rrggbb` (lower case), from the low 24 bits of `c`.
pub fn rgb_int_to_string(c: i32) -> (r: String)
    ensures
        r@ == color_text_of_int(c),
{
    let v: u32 = (((c as i64) % 0x1000000 + 0x1000000) % 0x1000000) as u32;
    assert(v as int == (c as int) % 0x1000000);
    let mut r = String::new();
    proof {
        reveal_strlit("#");
    }
    r.append("#");
    r.append(hex_digit_str((v / 0x100000) % 16));
    r.append(hex_digit_str((v / 0x10000) % 16));
    r.append(hex_digit_str((v / 0x1000) % 16));
    r.append(hex_digit_str((v / 0x100) % 16));
    r.append(hex_digit_str((v / 0x10) % 16));
    r.append(hex_digit_str(v % 16));
    assert(r@ =~= color_text_of_int(c));
    r
}

/// Holds of colour text whose digits are all lower case, as [`rgb_int_to_string`] writes them.
pub open spec fn is_lower_color_text(s: Seq<char>) -> bool {
    &&& s.len() == 7
    &&& s[0] == '#'
    &&& forall|i: int| 1 <= i < 7 ==> ('0' <= #[trigger] s[i] <= '9' || 'a' <= s[i] <= 'f')
}

proof fn lemma_hex_digit_value(d: int)
    requires
        0 <= d < 16,
    ensures
        hex_value(hex_digit(d)) == Some(d),
{
}

proof fn lemma_digit_of_lower_char(c: char)
    requires
        '0' <= c <= '9' || 'a' <= c <= 'f',
    ensures
        hex_value(c) is Some,
        0 <= hex_value(c).unwrap() < 16,
        hex_digit(hex_value(c).unwrap()) == c,
{
}

proof fn lemma_split_hex_digits(v: u32)
    requires
        v < 0x1000000,
    ensures
        ((((((v / 0x100000) % 16) * 16 + (v / 0x10000) % 16) * 16 + (v / 0x1000) % 16) * 16
            + (v / 0x100) % 16) * 16 + (v / 0x10) % 16) * 16 + v % 16 == v,
{
    assert(((((((v / 0x100000) % 16) * 16 + (v / 0x10000) % 16) * 16 + (v / 0x1000) % 16) * 16
        + (v / 0x100) % 16) * 16 + (v / 0x10) % 16) * 16 + v % 16 == v) by (bit_vector)
        requires
            v < 0x1000000,
    ;
}

proof fn lemma_join_hex_digits(h5: u32, h4: u32, h3: u32, h2: u32, h1: u32, h0: u32)
    requires
        h5 < 16,
        h4 < 16,
        h3 < 16,
        h2 < 16,
        h1 < 16,
        h0 < 16,
    ensures
        ({
            let v = ((((h5 * 16 + h4) * 16 + h3) * 16 + h2) * 16 + h1) * 16 + h0;
            &&& v < 0x1000000
            &&& (v / 0x100000) % 16 == h5
            &&& (v / 0x10000) % 16 == h4
            &&& (v / 0x1000) % 16 == h3
            &&& (v / 0x100) % 16 == h2
            &&& (v / 0x10) % 16 == h1
            &&& v % 16 == h0
        }),
{
    let v: u32 = (((((h5 * 16 + h4) * 16 + h3) * 16 + h2) * 16 + h1) * 16 + h0) as u32;
    assert({
        &&& v < 0x1000000
        &&& (v / 0x100000) % 16 == h5
        &&& (v / 0x10000) % 16 == h4
        &&& (v / 0x1000) % 16 == h3
        &&& (v / 0x100) % 16 == h2
        &&& (v / 0x10) % 16 == h1
        &&& v % 16 == h0
    }) by (bit_vector)
        requires
            h5 < 16,
            h4 < 16,
            h3 < 16,
            h2 < 16,
            h1 < 16,
            h0 < 16,
            v == ((((h5 * 16 + h4) * 16 + h3) * 16 + h2) * 16 + h1) * 16 + h0,
    ;
}

/// Writing a colour and reading it back gives the colour again, for every
/// colour in the packed range `0..=0xFFFFFF`.
#[verifier::spinoff_prover]
pub proof fn lemma_color_write_then_read(c: i32)
    requires
        0 <= c < 0x1000000,
    ensures
        color_int_of_text(color_text_of_int(c)) == c,
{
    let t = color_text_of_int(c);
    let v = c as u32;
    assert((c as int) % 0x1000000 == c);
    lemma_split_hex_digits(v);
    lemma_hex_digit_value((c as int / 0x100000) % 16);
    lemma_hex_digit_value((c as int / 0x10000) % 16);
    lemma_hex_digit_value((c as int / 0x1000) % 16);
    lemma_hex_digit_value((c as int / 0x100) % 16);
    lemma_hex_digit_value((c as int / 0x10) % 16);
    lemma_hex_digit_value((c as int) % 16);
    assert(is_color_text(t));
    reveal_with_fuel(hex_prefix_value, 7);
}

/// The number that the six digits of seven-character colour text spell.
proof fn lemma_prefix_value_of_seven(s: Seq<char>)
    ensures
        hex_prefix_value(s, 7) == (((((hex_value(s[1]).unwrap_or(0)) * 16 + hex_value(s[2]).unwrap_or(0)) * 16
            + hex_value(s[3]).unwrap_or(0)) * 16 + hex_value(s[4]).unwrap_or(0)) * 16 + hex_value(
            s[5],
        ).unwrap_or(0)) * 16 + hex_value(s[6]).unwrap_or(0),
{
    reveal_with_fuel(hex_prefix_value, 7);
}

/// Reading colour text and writing the colour back gives the same text, for
/// every colour text written in lower case.
#[verifier::spinoff_prover]
pub proof fn lemma_color_read_then_write(s: Seq<char>)
    requires
        is_lower_color_text(s),
    ensures
        color_text_of_int(color_int_of_text(s)) == s,
{
    lemma_digit_of_lower_char(s[1]);
    lemma_digit_of_lower_char(s[2]);
    lemma_digit_of_lower_char(s[3]);
    lemma_digit_of_lower_char(s[4]);
    lemma_digit_of_lower_char(s[5]);
    lemma_digit_of_lower_char(s[6]);
    assert(is_color_text(s));
    let a5 = hex_value(s[1]).unwrap();
    let a4 = hex_value(s[2]).unwrap();
    let a3 = hex_value(s[3]).unwrap();
    let a2 = hex_value(s[4]).unwrap();
    let a1 = hex_value(s[5]).unwrap();
    let a0 = hex_value(s[6]).unwrap();
    lemma_join_hex_digits(a5 as u32, a4 as u32, a3 as u32, a2 as u32, a1 as u32, a0 as u32);
    lemma_prefix_value_of_seven(s);
    let v = hex_prefix_value(s, 7);
    assert(v == ((((a5 * 16 + a4) * 16 + a3) * 16 + a2) * 16 + a1) * 16 + a0);
    assert(0 <= v < 0x1000000);
    let c = color_int_of_text(s);
    assert(c as int == v);
    assert((c as int) % 0x1000000 == v);
    assert(v / 0x100000 % 16 == a5);
    assert(v / 0x10000 % 16 == a4);
    assert(v / 0x1000 % 16 == a3);
    assert(v / 0x100 % 16 == a2);
    assert(v / 0x10 % 16 == a1);
    assert(v % 16 == a0);
    let t = color_text_of_int(c);
    assert(t[1] == s[1]);
    assert(t[2] == s[2]);
    assert(t[3] == s[3]);
    assert(t[4] == s[4]);
    assert(t[5] == s[5]);
    assert(t[6] == s[6]);
    assert(t =~= s);
}

} // verus!
