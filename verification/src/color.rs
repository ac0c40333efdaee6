use vstd::prelude::*;
use vstd::utf8::{
    encode_utf8, encode_utf8_valid_utf8, is_ascii_chars, is_ascii_chars_encode_utf8, is_char_boundary,
    is_char_boundary_iff_not_is_continuation_byte, is_char_boundary_start_end_of_seq,
};
use vstd::string::*;

verus! {

/// An item's display color as red, green and blue components.
#[derive(Copy, Clone, Debug, PartialEq, Eq, Hash, Structural)]
pub struct ItemColor(pub u8, pub u8, pub u8);

/// Why a color text was refused.
#[derive(Copy, Clone, Debug, PartialEq, Eq, Structural)]
pub enum ColorParseError {
    MissingRed,
    InvalidRed,
    MissingGreen,
    InvalidGreen,
    MissingBlue,
    InvalidBlue,
}

impl ColorParseError {
    /// The human-readable description of the error.
    pub fn message(&self) -> (r: &'static str)
        ensures
            r@ == color_error_message(*self),
    {
        match self {
            ColorParseError::MissingRed => "Color is missing red component value",
            ColorParseError::InvalidRed => "Red component of color is not a valid hexadecimal value",
            ColorParseError::MissingGreen => "Color is missing green component value",
            ColorParseError::InvalidGreen =>
                "Green component of color is not a valid hexadecimal value",
            ColorParseError::MissingBlue => "Color is missing blue component value",
            ColorParseError::InvalidBlue =>
                "Blue component of color is not a valid hexadecimal value",
        }
    }
}

pub open spec fn color_error_message(e: ColorParseError) -> Seq<char> {
    match e {
        ColorParseError::MissingRed => "Color is missing red component value"@,
        ColorParseError::InvalidRed => "Red component of color is not a valid hexadecimal value"@,
        ColorParseError::MissingGreen => "Color is missing green component value"@,
        ColorParseError::InvalidGreen =>
            "Green component of color is not a valid hexadecimal value"@,
        ColorParseError::MissingBlue => "Color is missing blue component value"@,
        ColorParseError::InvalidBlue => "Blue component of color is not a valid hexadecimal value"@,
    }
}

// ---------------------------------------------------------------------------
// Formatting
// ---------------------------------------------------------------------------

/// The lowercase hexadecimal digit of a value below 16.
pub open spec fn hex_digit_text(d: nat) -> Seq<char> {
    if d == 0 {
        "0"@
    } else if d == 1 {
        "1"@
    } else if d == 2 {
        "2"@
    } else if d == 3 {
        "3"@
    } else if d == 4 {
        "4"@
    } else if d == 5 {
        "5"@
    } else if d == 6 {
        "6"@
    } else if d == 7 {
        "7"@
    } else if d == 8 {
        "8"@
    } else if d == 9 {
        "9"@
    } else if d == 10 {
        "a"@
    } else if d == 11 {
        "b"@
    } else if d == 12 {
        "c"@
    } else if d == 13 {
        "d"@
    } else if d == 14 {
        "e"@
    } else {
        "f"@
    }
}

/// A byte as two lowercase hexadecimal digits.
pub open spec fn hex_byte_text(b: u8) -> Seq<char> {
    hex_digit_text((b / 16) as nat) + hex_digit_text((b % 16) as nat)
}

/// The text of a color: six lowercase hexadecimal digits, preceded by `#`
/// in the alternate form.
pub open spec fn color_text(c: ItemColor, alternate: bool) -> Seq<char> {
    (if alternate {
        "#"@
    } else {
        Seq::empty()
    }) + hex_byte_text(c.0) + hex_byte_text(c.1) + hex_byte_text(c.2)
}

fn hex_digit_str(d: u8) -> (r: &'static str)
    requires
        d < 16,
    ensures
        r@ == hex_digit_text(d as nat),
{
    if d == 0 {
        "0"
    } else if d == 1 {
        "1"
    } else if d == 2 {
        "2"
    } else if d == 3 {
        "3"
    } else if d == 4 {
        "4"
    } else if d == 5 {
        "5"
    } else if d == 6 {
        "6"
    } else if d == 7 {
        "7"
    } else if d == 8 {
        "8"
    } else if d == 9 {
        "9"
    } else if d == 10 {
        "a"
    } else if d == 11 {
        "b"
    } else if d == 12 {
        "c"
    } else if d == 13 {
        "d"
    } else if d == 14 {
        "e"
    } else {
        "f"
    }
}

fn push_hex_byte(s: &mut String, b: u8)
    ensures
        final(s)@ == old(s)@ + hex_byte_text(b),
{
    s.append(hex_digit_str(b / 16));
    s.append(hex_digit_str(b % 16));
}

impl ItemColor {
    /// Formats the color as `rrggbb`, or as `#rrggbb` in the alternate form.
    pub fn to_hex_string(&self, alternate: bool) -> (r: String)
        ensures
            r@ == color_text(*self, alternate),
    {
        let mut s = String::new();
        if alternate {
            s.append("#");
        }
        push_hex_byte(&mut s, self.0);
        push_hex_byte(&mut s, self.1);
        push_hex_byte(&mut s, self.2);
        s
    }
}

// ---------------------------------------------------------------------------
// Parsing
// ---------------------------------------------------------------------------

/// The value of a hexadecimal digit byte (either case).
pub open spec fn hex_value(b: u8) -> Option<u8> {
    if 48 <= b <= 57 {
        Some((b - 48) as u8)
    } else if 97 <= b <= 102 {
        Some((b - 87) as u8)
    } else if 65 <= b <= 70 {
        Some((b - 55) as u8)
    } else {
        None
    }
}

/// Base-16 reading of a two-byte text as an unsigned byte: two hex digits,
/// or a `+` sign followed by one hex digit.
pub open spec fn hex_pair_value(x: u8, y: u8) -> Option<u8> {
    match (hex_value(x), hex_value(y)) {
        (Some(hx), Some(hy)) => Some((hx * 16 + hy) as u8),
        (None, Some(hy)) => if x == 43 {
            Some(hy)
        } else {
            None
        },
        _ => None,
    }
}

/// What a component of a color text holds.
pub enum Component {
    Missing,
    Invalid,
    Value(u8),
}

/// The `k`-th two-byte component of `b`, counted from byte offset `o`: it is
/// missing when it does not lie inside `b` between character boundaries.
pub open spec fn component(b: Seq<u8>, o: int, k: int) -> Component {
    let start = o + 2 * k;
    let end = start + 2;
    if end > b.len() || !is_char_boundary(b, start) || !is_char_boundary(b, end) {
        Component::Missing
    } else {
        match hex_pair_value(b[start], b[start + 1]) {
            Some(v) => Component::Value(v),
            None => Component::Invalid,
        }
    }
}

/// Byte offset of the components: a single leading `#` is skipped.
pub open spec fn component_offset(b: Seq<u8>) -> int {
    if b.len() > 0 && b[0] == 35 {
        1
    } else {
        0
    }
}

/// The result of reading a color from the UTF-8 bytes of a text.
pub open spec fn parse_color_bytes(b: Seq<u8>) -> Result<ItemColor, ColorParseError> {
    let o = component_offset(b);
    match component(b, o, 0) {
        Component::Missing => Err(ColorParseError::MissingRed),
        Component::Invalid => Err(ColorParseError::InvalidRed),
        Component::Value(r) => match component(b, o, 1) {
            Component::Missing => Err(ColorParseError::MissingGreen),
            Component::Invalid => Err(ColorParseError::InvalidGreen),
            Component::Value(g) => match component(b, o, 2) {
                Component::Missing => Err(ColorParseError::MissingBlue),
                Component::Invalid => Err(ColorParseError::InvalidBlue),
                Component::Value(bl) => Ok(ItemColor(r, g, bl)),
            },
        },
    }
}

fn hex_value_exec(b: u8) -> (r: Option<u8>)
    ensures
        r == hex_value(b),
{
    if 48 <= b && b <= 57 {
        Some(b - 48)
    } else if 97 <= b && b <= 102 {
        Some(b - 87)
    } else if 65 <= b && b <= 70 {
        Some(b - 55)
    } else {
        None
    }
}

fn hex_pair_value_exec(x: u8, y: u8) -> (r: Option<u8>)
    ensures
        r == hex_pair_value(x, y),
{
    match (hex_value_exec(x), hex_value_exec(y)) {
        (Some(hx), Some(hy)) => {
            assert(hx * 16 + hy <= 255);
            Some(hx * 16 + hy)
        },
        (None, Some(hy)) => if x == 43 {
            Some(hy)
        } else {
            None
        },
        _ => None,
    }
}

fn component_exec(s: &str, b: &[u8], o: usize, k: usize) -> (r: Component)
    requires
        b@ == s.spec_bytes(),
        o <= 1,
        k <= 2,
    ensures
        r == component(b@, o as int, k as int),
{
    let start = o + 2 * k;
    let end = start + 2;
    if end > b.len() || !s.is_char_boundary(start) || !s.is_char_boundary(end) {
        Component::Missing
    } else {
        match hex_pair_value_exec(b[start], b[start + 1]) {
            Some(v) => Component::Value(v),
            None => Component::Invalid,
        }
    }
}

impl ItemColor {
    /// Reads a color written as `rrggbb`, optionally preceded by `#`; the
    /// components are read from the first six bytes after the `#`, and
    /// anything after them is ignored.
    pub fn parse(s: &str) -> (r: Result<ItemColor, ColorParseError>)
        ensures
            r == parse_color_bytes(s.spec_bytes()),
    {
        let b = s.as_bytes();
        let o: usize = if b.len() > 0 && b[0] == 35 {
            1
        } else {
            0
        };
        let red = match component_exec(s, b, o, 0) {
            Component::Missing => {
                return Err(ColorParseError::MissingRed);
            },
            Component::Invalid => {
                return Err(ColorParseError::InvalidRed);
            },
            Component::Value(v) => v,
        };
        let green = match component_exec(s, b, o, 1) {
            Component::Missing => {
                return Err(ColorParseError::MissingGreen);
            },
            Component::Invalid => {
                return Err(ColorParseError::InvalidGreen);
            },
            Component::Value(v) => v,
        };
        let blue = match component_exec(s, b, o, 2) {
            Component::Missing => {
                return Err(ColorParseError::MissingBlue);
            },
            Component::Invalid => {
                return Err(ColorParseError::InvalidBlue);
            },
            Component::Value(v) => v,
        };
        Ok(ItemColor(red, green, blue))
    }
}

proof fn lemma_hex_digit(d: nat)
    requires
        d < 16,
    ensures
        hex_digit_text(d).len() == 1,
        '0' <= hex_digit_text(d)[0] <= 'f',
        hex_value(hex_digit_text(d)[0] as u8) == Some(d as u8),
{
    reveal_strlit("0");
    reveal_strlit("1");
    reveal_strlit("2");
    reveal_strlit("3");
    reveal_strlit("4");
    reveal_strlit("5");
    reveal_strlit("6");
    reveal_strlit("7");
    reveal_strlit("8");
    reveal_strlit("9");
    reveal_strlit("a");
    reveal_strlit("b");
    reveal_strlit("c");
    reveal_strlit("d");
    reveal_strlit("e");
    reveal_strlit("f");
}

proof fn lemma_hex_byte(v: u8)
    ensures
        hex_byte_text(v).len() == 2,
        is_ascii_chars(hex_byte_text(v)),
        hex_byte_text(v)[0] != '#',
        hex_pair_value(hex_byte_text(v)[0] as u8, hex_byte_text(v)[1] as u8) == Some(v),
{
    lemma_hex_digit((v / 16) as nat);
    lemma_hex_digit((v % 16) as nat);
    let t = hex_byte_text(v);
    assert(t[0] == hex_digit_text((v / 16) as nat)[0]);
    assert(t[1] == hex_digit_text((v % 16) as nat)[0]);
}

/// Law: a color's text, with or without `#`, reads back as the same color.
pub proof fn lemma_color_text_roundtrip(c: ItemColor, alternate: bool)
    ensures
        parse_color_bytes(encode_utf8(color_text(c, alternate))) == Ok::<
            ItemColor,
            ColorParseError,
        >(c),
{
    reveal_strlit("#");
    lemma_hex_byte(c.0);
    lemma_hex_byte(c.1);
    lemma_hex_byte(c.2);
    let pre: Seq<char> = if alternate {
        "#"@
    } else {
        Seq::empty()
    };
    let o = pre.len() as int;
    let (h0, h1, h2) = (hex_byte_text(c.0), hex_byte_text(c.1), hex_byte_text(c.2));
    let t = color_text(c, alternate);
    assert(t == pre + h0 + h1 + h2);
    assert(t.len() == o + 6);
    assert forall|i: int| 0 <= i < 2 implies t[o + i] == h0[i] && t[o + 2 + i] == h1[i] && t[o + 4
        + i] == h2[i] by {}
    assert(is_ascii_chars(t)) by {
        assert forall|i: int| 0 <= i < t.len() implies '\0' <= #[trigger] t[i] <= '\u{7f}' by {
            if i < o {
                assert(t[i] == '#');
            } else if i < o + 2 {
                assert(t[i] == h0[i - o]);
            } else if i < o + 4 {
                assert(t[i] == h1[i - o - 2]);
            } else {
                assert(t[i] == h2[i - o - 4]);
            }
        }
    }
    let b = encode_utf8(t);
    is_ascii_chars_encode_utf8(t);
    encode_utf8_valid_utf8(t);
    is_char_boundary_start_end_of_seq(b);
    assert forall|i: int| 0 <= i <= b.len() implies is_char_boundary(b, i) by {
        if i < b.len() {
            is_char_boundary_iff_not_is_continuation_byte(b, i);
            assert(b[i] == t[i] as u8);
        }
    }
    assert(b[0] == t[0] as u8);
    assert(component_offset(b) == o) by {
        if !alternate {
            assert(t[0] == h0[0]);
        }
    }
    assert(b[o] == t[o] as u8 && b[o + 1] == t[o + 1] as u8);
    assert(b[o + 2] == t[o + 2] as u8 && b[o + 3] == t[o + 3] as u8);
    assert(b[o + 4] == t[o + 4] as u8 && b[o + 5] == t[o + 5] as u8);
    assert(component(b, o, 0) == Component::Value(c.0));
    assert(component(b, o, 1) == Component::Value(c.1));
    assert(component(b, o, 2) == Component::Value(c.2));
}

/// The leading byte of a multi-byte UTF-8 encoding is not ASCII; a one-byte
/// encoding is the scalar itself.
proof fn lemma_leading_bytes(v: u32)
    ensures
        vstd::utf8::leading_byte_width_2(v) >= 0xC0,
        vstd::utf8::leading_byte_width_3(v) >= 0xC0,
        vstd::utf8::leading_byte_width_4(v) >= 0xC0,
        v <= 0x7F ==> vstd::utf8::leading_byte_width_1(v) == v,
{
    assert(0xC0u8 | ((v >> 6) & 0x1F) as u8 >= 0xC0u8) by (bit_vector);
    assert(0xE0u8 | ((v >> 12) & 0x0F) as u8 >= 0xC0u8) by (bit_vector);
    assert(0xF0u8 | ((v >> 18) & 0x7) as u8 >= 0xC0u8) by (bit_vector);
    assert(v <= 0x7F ==> (v & 0x7F) as u8 == v) by (bit_vector);
}

/// When the first `k` bytes of a text's encoding are ASCII, the text has at
/// least `k` characters and those characters are these bytes.
proof fn lemma_ascii_prefix(t: Seq<char>, k: int)
    requires
        0 <= k <= encode_utf8(t).len(),
        forall|i: int| 0 <= i < k ==> encode_utf8(t)[i] < 128,
    ensures
        t.len() >= k,
        forall|i: int| 0 <= i < k ==> t[i] as u32 == encode_utf8(t)[i],
    decreases t.len(),
{
    if k > 0 {
        let v = t[0] as u32;
        vstd::utf8::char_is_scalar(t[0]);
        lemma_leading_bytes(v);
        let e = vstd::utf8::encode_scalar(v);
        let rest = t.drop_first();
        assert(encode_utf8(t) == e + encode_utf8(rest));
        assert(e[0] == encode_utf8(t)[0]);
        assert(vstd::utf8::has_width_1_encoding(v));
        assert(e.len() == 1);
        assert forall|i: int| 0 <= i < k - 1 implies encode_utf8(rest)[i] < 128 by {
            assert(encode_utf8(rest)[i] == encode_utf8(t)[i + 1]);
        }
        lemma_ascii_prefix(rest, k - 1);
        assert forall|i: int| 0 <= i < k implies t[i] as u32 == encode_utf8(t)[i] by {
            if i > 0 {
                assert(t[i] == rest[i - 1]);
                assert(encode_utf8(t)[i] == encode_utf8(rest)[i - 1]);
            }
        }
    }
}

/// Law: a text reads as a color only if, after one optional leading `#`, it
/// has at least six characters; a shorter text is refused.
pub proof fn lemma_short_color_text_refused(t: Seq<char>)
    requires
        t.len() < (if t.len() > 0 && t[0] == '#' {
            1int
        } else {
            0int
        }) + 6,
    ensures
        parse_color_bytes(encode_utf8(t)) is Err,
{
    let b = encode_utf8(t);
    let o = component_offset(b);
    if parse_color_bytes(b) is Ok {
        assert(component(b, o, 0) is Value);
        assert(component(b, o, 1) is Value);
        assert(component(b, o, 2) is Value);
        assert(o + 6 <= b.len());
        assert forall|i: int| 0 <= i < o + 6 implies b[i] < 128 by {
            if i < o {
                assert(b[0] == 35);
            } else if i < o + 2 {
                assert(hex_pair_value(b[o], b[o + 1]) is Some);
            } else if i < o + 4 {
                assert(hex_pair_value(b[o + 2], b[o + 3]) is Some);
            } else {
                assert(hex_pair_value(b[o + 4], b[o + 5]) is Some);
            }
        }
        lemma_ascii_prefix(t, o + 6);
        if o == 1 {
            assert(t[0] as u32 == 35);
            assert(t[0] == '#');
        } else {
            assert(t[0] as u32 == b[0]);
            assert(b[0] != 35);
        }
    }
}

} // verus!
