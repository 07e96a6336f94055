use vstd::prelude::*;
use vstd::arithmetic::div_mod::lemma_fundamental_div_mod_converse;

verus! {

/// A color with 8-bit channels; a channel value `c` stands for the intensity `c / 255`,
/// so 0 is none and 255 is full.
#[derive(Clone, Copy, Debug, PartialEq, Eq, Structural)]
pub struct Color {
    pub r: u8,
    pub g: u8,
    pub b: u8,
    pub a: u8,
}

pub open spec fn is_hex_digit(c: char) -> bool {
    ('0' <= c && c <= '9') || ('a' <= c && c <= 'f') || ('A' <= c && c <= 'F')
}

pub open spec fn hex_digit_value(c: char) -> int {
    if '0' <= c && c <= '9' {
        c as int - '0' as int
    } else if 'a' <= c && c <= 'f' {
        c as int - 'a' as int + 10
    } else {
        c as int - 'A' as int + 10
    }
}

/// The text after an optional leading `#`.
pub open spec fn hex_body(s: Seq<char>) -> Seq<char> {
    if s.len() > 0 && s[0] == '#' {
        s.drop_first()
    } else {
        s
    }
}

/// An optional `#` followed by exactly six hexadecimal digits.
pub open spec fn is_hex_color(s: Seq<char>) -> bool {
    let d = hex_body(s);
    d.len() == 6 && forall|i: int| 0 <= i < 6 ==> is_hex_digit(#[trigger] d[i])
}

/// The byte written by the two digits at positions `2k` and `2k + 1` of the body.
pub open spec fn hex_channel(s: Seq<char>, k: int) -> int {
    let d = hex_body(s);
    16 * hex_digit_value(d[2 * k]) + hex_digit_value(d[2 * k + 1])
}

/// The opaque color that a valid hex string names: red, green and blue from its
/// three digit pairs.
pub open spec fn color_of_hex(s: Seq<char>) -> Color {
    Color {
        r: hex_channel(s, 0) as u8,
        g: hex_channel(s, 1) as u8,
        b: hex_channel(s, 2) as u8,
        a: 255,
    }
}

proof fn lemma_hex_color_is_ascii(s: Seq<char>)
    requires
        is_hex_color(s),
    ensures
        vstd::utf8::is_ascii_chars(s),
{
    let d = hex_body(s);
    assert forall|i: int| 0 <= i < s.len() implies '\0' <= #[trigger] s[i] <= '\u{7f}' by {
        if s.len() > 0 && s[0] == '#' {
            if i > 0 {
                assert(s[i] == d[i - 1]);
            }
        } else {
            assert(s[i] == d[i]);
        }
    }
}

/// ASCII codes: `0` is 48, `9` is 57, `a` is 97, `f` is 102, `A` is 65, `F` is 70.
fn hex_digit_of_byte(b: u8) -> (r: Option<u8>)
    ensures
        r is Some <==> is_hex_digit(b as char),
        r is Some ==> r->0 as int == hex_digit_value(b as char) && r->0 < 16,
{
    if 48u8 <= b && b <= 57u8 {
        Some(b - 48u8)
    } else if 97u8 <= b && b <= 102u8 {
        Some(b - 97u8 + 10)
    } else if 65u8 <= b && b <= 70u8 {
        Some(b - 65u8 + 10)
    } else {
        None
    }
}

/// The number that a string of hexadecimal digits writes, most significant digit first.
pub open spec fn hex_number(d: Seq<char>) -> int
    decreases d.len(),
{
    if d.len() == 0 {
        0
    } else {
        16 * hex_number(d.subrange(0, d.len() - 1)) + hex_digit_value(d[d.len() - 1])
    }
}

/// Read as one 24-bit number `v`, a hex color has red in bits 16 to 23, green in bits 8 to
/// 15 and blue in bits 0 to 7 of `v`, and full alpha.
pub proof fn lemma_hex_color_channels(s: Seq<char>)
    requires
        is_hex_color(s),
    ensures
        0 <= hex_number(hex_body(s)) < 0x100_0000,
        color_of_hex(s).r == (hex_number(hex_body(s)) / 0x1_0000) % 0x100,
        color_of_hex(s).g == (hex_number(hex_body(s)) / 0x100) % 0x100,
        color_of_hex(s).b == hex_number(hex_body(s)) % 0x100,
        color_of_hex(s).a == 255,
{
    let d = hex_body(s);
    assert forall|i: int| 0 <= i < 6 implies 0 <= #[trigger] hex_digit_value(d[i]) < 16 by {
        assert(is_hex_digit(d[i]));
    }
    let d0 = hex_digit_value(d[0]);
    let d1 = hex_digit_value(d[1]);
    let d2 = hex_digit_value(d[2]);
    let d3 = hex_digit_value(d[3]);
    let d4 = hex_digit_value(d[4]);
    let d5 = hex_digit_value(d[5]);
    assert(d.subrange(0, 0).len() == 0);
    assert(hex_number(d.subrange(0, 1)) == d0) by {
        assert(d.subrange(0, 1).subrange(0, 0) =~= d.subrange(0, 0));
        assert(hex_number(d.subrange(0, 0)) == 0);
        assert(d.subrange(0, 1)[0] == d[0]);
    }
    assert(hex_number(d.subrange(0, 2)) == 16 * d0 + d1) by {
        assert(d.subrange(0, 2).subrange(0, 1) =~= d.subrange(0, 1));
    }
    assert(hex_number(d.subrange(0, 3)) == 16 * (16 * d0 + d1) + d2) by {
        assert(d.subrange(0, 3).subrange(0, 2) =~= d.subrange(0, 2));
    }
    assert(hex_number(d.subrange(0, 4)) == 16 * (16 * (16 * d0 + d1) + d2) + d3) by {
        assert(d.subrange(0, 4).subrange(0, 3) =~= d.subrange(0, 3));
    }
    assert(hex_number(d.subrange(0, 5)) == 16 * (16 * (16 * (16 * d0 + d1) + d2) + d3) + d4) by {
        assert(d.subrange(0, 5).subrange(0, 4) =~= d.subrange(0, 4));
    }
    assert(d.subrange(0, 5) =~= d.subrange(0, d.len() - 1));
    let v = hex_number(d);
    let r = 16 * d0 + d1;
    let g = 16 * d2 + d3;
    let b = 16 * d4 + d5;
    assert(v == 0x1_0000 * r + 0x100 * g + b);
    assert(0 <= r < 0x100 && 0 <= g < 0x100 && 0 <= b < 0x100);
    lemma_fundamental_div_mod_converse(v, 0x1_0000, r, 0x100 * g + b);
    lemma_fundamental_div_mod_converse(r, 0x100, 0, r);
    lemma_fundamental_div_mod_converse(v, 0x100, 0x100 * r + g, b);
    lemma_fundamental_div_mod_converse(0x100 * r + g, 0x100, r, g);
}

impl Color {
    /// Reads an optional `#` and six hexadecimal digits; `None` for any other text.
    pub fn try_from_hex(hex: &str) -> (r: Option<Color>)
        ensures
            r is Some <==> is_hex_color(hex@),
            r is Some ==> r->0 == color_of_hex(hex@),
    {
        if !hex.is_ascii() {
            proof {
                if is_hex_color(hex@) {
                    lemma_hex_color_is_ascii(hex@);
                }
            }
            return None;
        }
        let bytes = hex.as_bytes();
        proof {
            vstd::string::is_ascii_spec_bytes(hex);
        }
        assert(bytes@.len() == hex@.len());
        let start: usize = if bytes.len() > 0 && bytes[0] == 35u8 { 1 } else { 0 };
        assert(start == 1 <==> (hex@.len() > 0 && hex@[0] == '#')) by {
            if hex@.len() > 0 {
                assert(bytes@[0] == hex@[0] as u8);
            }
        }
        if bytes.len() - start != 6 {
            return None;
        }
        let ghost d = hex_body(hex@);
        assert forall|i: int| 0 <= i < 6 implies #[trigger] d[i] == bytes@[start + i] as char by {
            assert(d[i] == hex@[start + i]);
        }
        let mut vals: [u8; 6] = [0; 6];
        let mut i: usize = 0;
        while i < 6
            invariant
                0 <= i <= 6,
                start <= 1,
                start + 6 == bytes@.len(),
                d == hex_body(hex@),
                d.len() == 6,
                forall|j: int| 0 <= j < 6 ==> #[trigger] d[j] == bytes@[start + j] as char,
                forall|j: int| 0 <= j < i ==> is_hex_digit(#[trigger] d[j]),
                forall|j: int| 0 <= j < i ==> vals[j] as int == hex_digit_value(#[trigger] d[j]),
                forall|j: int| 0 <= j < 6 ==> #[trigger] vals[j] < 16,
                vals@.len() == 6,
            decreases 6 - i,
        {
            match hex_digit_of_byte(bytes[start + i]) {
                Some(v) => {
                    vals[i] = v;
                },
                None => {
                    assert(!is_hex_digit(d[i as int]));
                    return None;
                },
            }
            i = i + 1;
        }
        Some(Color {
            r: vals[0] * 16 + vals[1],
            g: vals[2] * 16 + vals[3],
            b: vals[4] * 16 + vals[5],
            a: 255,
        })
    }

    /// The color named by a hex string such as `#514B8E` or `FFFFFF`; fully opaque.
    pub fn from_hex(hex: &str) -> (c: Color)
        requires
            is_hex_color(hex@),
        ensures
            c == color_of_hex(hex@),
    {
        match Color::try_from_hex(hex) {
            Some(c) => c,
            None => Color { r: 0, g: 0, b: 0, a: 255 },
        }
    }
}

} // verus!
