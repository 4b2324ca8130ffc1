//! Colors: hex parsing in the four digit widths, channel-wise mixing, and
//! keyword/`color-mix` resolution. Channels are bytes; mix weights are
//! fixed-point thousandths of one.

use vstd::prelude::*;
use crate::ordmap::OrdMap;
use crate::strutil::{
    chars_eq_str, chars_to_string, digit_of, is_digit, is_digit_exec, is_prefix_of, opt_i64_is,
    parse_milli, parse_milli_spec, split_char, split_char_spec, split_ws, split_ws_spec,
    starts_with_str, str_to_chars, subvec, trim, trim_spec,
};
use crate::value::SpecVal;

verus! {

/// A color as red, green, blue and alpha bytes; 255 is full.
#[derive(Debug, Clone, Copy, PartialEq, Eq, Structural)]
pub struct Color {
    pub r: u8,
    pub g: u8,
    pub b: u8,
    pub a: u8,
}

pub open spec fn opaque_black() -> Color {
    Color { r: 0, g: 0, b: 0, a: 255 }
}

// ===== hex digits =====

pub open spec fn is_hex_digit(c: char) -> bool {
    is_digit(c) || (97 <= c as u32 && c as u32 <= 102) || (65 <= c as u32 && c as u32 <= 70)
}

pub open spec fn hex_val(c: char) -> nat {
    if is_digit(c) {
        digit_of(c)
    } else if 97 <= c as u32 {
        (c as u32 - 87) as nat
    } else {
        (c as u32 - 55) as nat
    }
}

fn is_hex_digit_exec(c: char) -> (r: bool)
    ensures
        r == is_hex_digit(c),
{
    let u = c as u32;
    is_digit_exec(c) || (97 <= u && u <= 102) || (65 <= u && u <= 70)
}

fn hex_val_exec(c: char) -> (r: u32)
    requires
        is_hex_digit(c),
    ensures
        r == hex_val(c),
        r < 16,
{
    let u = c as u32;
    if 48 <= u && u <= 57 {
        u - 48
    } else if 97 <= u {
        u - 87
    } else {
        u - 55
    }
}

/// Lowercase hex digit for a value below sixteen.
pub open spec fn hex_digit_char(d: nat) -> char {
    if d < 10 {
        ((d + 48) as u8) as char
    } else {
        ((d + 87) as u8) as char
    }
}

fn hex_digit_char_exec(d: u32) -> (c: char)
    requires
        d < 16,
    ensures
        c == hex_digit_char(d as nat),
{
    if d < 10 {
        ((d + 48) as u8) as char
    } else {
        ((d + 87) as u8) as char
    }
}

pub open spec fn hex2(n: nat) -> Seq<char> {
    seq![hex_digit_char(n / 16), hex_digit_char(n % 16)]
}

// ===== parsing hex colors =====

/// The input without its leading hash marks.
pub open spec fn strip_hash_spec(s: Seq<char>) -> Seq<char>
    decreases s.len(),
{
    if s.len() > 0 && s[0] == '#' {
        strip_hash_spec(s.subrange(1, s.len() as int))
    } else {
        s
    }
}

proof fn lemma_strip_hash(s: Seq<char>, a: int)
    requires
        0 <= a <= s.len(),
        forall|j: int| 0 <= j < a ==> s[j] == '#',
        a < s.len() ==> s[a] != '#',
    ensures
        strip_hash_spec(s) == s.subrange(a, s.len() as int),
    decreases a,
{
    if a == 0 {
        assert(s.subrange(0, s.len() as int) =~= s);
    } else {
        let rest = s.subrange(1, s.len() as int);
        lemma_strip_hash(rest, a - 1);
        assert(rest.subrange(a - 1, rest.len() as int) =~= s.subrange(a, s.len() as int));
    }
}

pub open spec fn all_hex(s: Seq<char>) -> bool {
    forall|j: int| 0 <= j < s.len() ==> is_hex_digit(#[trigger] s[j])
}

/// The color a hex string denotes: three or four digits give one nibble per
/// channel (duplicated), six or eight give a byte per channel; three- and
/// six-digit forms are fully opaque. Anything else is no color.
pub open spec fn from_hex_spec(s: Seq<char>) -> Option<Color> {
    let h = strip_hash_spec(s);
    if !all_hex(h) {
        None
    } else if h.len() == 3 {
        Some(
            Color {
                r: (17 * hex_val(h[0])) as u8,
                g: (17 * hex_val(h[1])) as u8,
                b: (17 * hex_val(h[2])) as u8,
                a: 255,
            },
        )
    } else if h.len() == 4 {
        Some(
            Color {
                r: (17 * hex_val(h[0])) as u8,
                g: (17 * hex_val(h[1])) as u8,
                b: (17 * hex_val(h[2])) as u8,
                a: (17 * hex_val(h[3])) as u8,
            },
        )
    } else if h.len() == 6 {
        Some(
            Color {
                r: (16 * hex_val(h[0]) + hex_val(h[1])) as u8,
                g: (16 * hex_val(h[2]) + hex_val(h[3])) as u8,
                b: (16 * hex_val(h[4]) + hex_val(h[5])) as u8,
                a: 255,
            },
        )
    } else if h.len() == 8 {
        Some(
            Color {
                r: (16 * hex_val(h[0]) + hex_val(h[1])) as u8,
                g: (16 * hex_val(h[2]) + hex_val(h[3])) as u8,
                b: (16 * hex_val(h[4]) + hex_val(h[5])) as u8,
                a: (16 * hex_val(h[6]) + hex_val(h[7])) as u8,
            },
        )
    } else {
        None
    }
}

fn hex_byte(h: &Vec<char>, i: usize) -> (r: u8)
    requires
        i + 1 < h@.len(),
        all_hex(h@),
    ensures
        r == (16 * hex_val(h@[i as int]) + hex_val(h@[i + 1])) as u8,
{
    let n = h.len();
    let hi = hex_val_exec(h[i]);
    let lo = hex_val_exec(h[i + 1]);
    (16 * hi + lo) as u8
}

fn hex_nibble(h: &Vec<char>, i: usize) -> (r: u8)
    requires
        i < h@.len(),
        all_hex(h@),
    ensures
        r == (17 * hex_val(h@[i as int])) as u8,
{
    let v = hex_val_exec(h[i]);
    (17 * v) as u8
}

fn skip_hashes(s: &Vec<char>) -> (a: usize)
    ensures
        a <= s@.len(),
        forall|j: int| 0 <= j < a ==> s@[j] == '#',
        a < s@.len() ==> s@[a as int] != '#',
{
    let mut a: usize = 0;
    while a < s.len()
        invariant
            a <= s@.len(),
            forall|j: int| 0 <= j < a ==> s@[j] == '#',
        decreases s@.len() - a,
    {
        if s[a] != '#' {
            return a;
        }
        a += 1;
    }
    a
}

fn mix_chan(x1: u8, x2: u8, w: u32) -> (r: u8)
    requires
        w <= 1000,
    ensures
        r as int == ((x1 as int) * (1000 - w as int) + (x2 as int) * (w as int)) / 1000,
{
    proof {
        assert(0 <= (x1 as int) * (1000 - w as int) + (x2 as int) * (w as int)
            <= 255000) by (nonlinear_arith)
            requires
                (w as int) <= 1000,
                0 <= (w as int),
                (x1 as int) <= 255,
                0 <= (x1 as int),
                (x2 as int) <= 255,
                0 <= (x2 as int),
        ;
    }
    let v: u32 = ((x1 as u32) * (1000 - w) + (x2 as u32) * w) / 1000;
    v as u8
}

impl Color {
    /// Parse a hex color string.
    pub fn from_hex(hex: &str) -> (r: Option<Color>)
        ensures
            r == from_hex_spec(hex@),
    {
        let s = str_to_chars(hex);
        let a = skip_hashes(&s);
        proof {
            lemma_strip_hash(s@, a as int);
        }
        let h = subvec(&s, a, s.len());
        let mut i: usize = 0;
        while i < h.len()
            invariant
                i <= h@.len(),
                s@ == hex@,
                h@ == strip_hash_spec(hex@),
                forall|j: int| 0 <= j < i ==> is_hex_digit(#[trigger] h@[j]),
            decreases h@.len() - i,
        {
            if !is_hex_digit_exec(h[i]) {
                proof {
                    assert(!is_hex_digit(h@[i as int]));
                    assert(!all_hex(h@));
                }
                return None;
            }
            i += 1;
        }
        proof {
            assert(all_hex(h@));
        }
        if h.len() == 3 {
            Some(
                Color {
                    r: hex_nibble(&h, 0),
                    g: hex_nibble(&h, 1),
                    b: hex_nibble(&h, 2),
                    a: 255,
                },
            )
        } else if h.len() == 4 {
            Some(
                Color {
                    r: hex_nibble(&h, 0),
                    g: hex_nibble(&h, 1),
                    b: hex_nibble(&h, 2),
                    a: hex_nibble(&h, 3),
                },
            )
        } else if h.len() == 6 {
            Some(
                Color { r: hex_byte(&h, 0), g: hex_byte(&h, 2), b: hex_byte(&h, 4), a: 255 },
            )
        } else if h.len() == 8 {
            Some(
                Color {
                    r: hex_byte(&h, 0),
                    g: hex_byte(&h, 2),
                    b: hex_byte(&h, 4),
                    a: hex_byte(&h, 6),
                },
            )
        } else {
            None
        }
    }

    /// Hex text of the color: six digits when fully opaque, eight otherwise.
    pub open spec fn to_hex_spec(&self) -> Seq<char> {
        if self.a == 255 {
            seq!['#'] + hex2(self.r as nat) + hex2(self.g as nat) + hex2(self.b as nat)
        } else {
            seq!['#'] + hex2(self.r as nat) + hex2(self.g as nat) + hex2(self.b as nat) + hex2(
                self.a as nat,
            )
        }
    }

    pub fn to_hex(&self) -> (r: String)
        ensures
            r@ == self.to_hex_spec(),
    {
        let mut v: Vec<char> = Vec::new();
        v.push('#');
        v.push(hex_digit_char_exec((self.r / 16) as u32));
        v.push(hex_digit_char_exec((self.r % 16) as u32));
        v.push(hex_digit_char_exec((self.g / 16) as u32));
        v.push(hex_digit_char_exec((self.g % 16) as u32));
        v.push(hex_digit_char_exec((self.b / 16) as u32));
        v.push(hex_digit_char_exec((self.b % 16) as u32));
        if self.a != 255 {
            v.push(hex_digit_char_exec((self.a / 16) as u32));
            v.push(hex_digit_char_exec((self.a % 16) as u32));
        }
        proof {
            assert(v@ =~= self.to_hex_spec());
        }
        chars_to_string(&v)
    }

    /// The channel-wise blend at a weight: zero keeps the first color, a
    /// thousand gives the second; out-of-range weights clamp.
    pub open spec fn mix_spec(c1: Color, c2: Color, w_milli: int) -> Color {
        let w = if w_milli < 0 {
            0
        } else if w_milli > 1000 {
            1000
        } else {
            w_milli
        };
        Color {
            r: ((c1.r * (1000 - w) + c2.r * w) / 1000) as u8,
            g: ((c1.g * (1000 - w) + c2.g * w) / 1000) as u8,
            b: ((c1.b * (1000 - w) + c2.b * w) / 1000) as u8,
            a: ((c1.a * (1000 - w) + c2.a * w) / 1000) as u8,
        }
    }

    pub fn mix(c1: Color, c2: Color, w_milli: i64) -> (r: Color)
        ensures
            r == Color::mix_spec(c1, c2, w_milli as int),
    {
        let w: u32 = if w_milli < 0 {
            0
        } else if w_milli > 1000 {
            1000
        } else {
            w_milli as u32
        };
        let r = mix_chan(c1.r, c2.r, w);
        let g = mix_chan(c1.g, c2.g, w);
        let b = mix_chan(c1.b, c2.b, w);
        let a = mix_chan(c1.a, c2.a, w);
        Color { r, g, b, a }
    }
}

// ===== keyword and color-mix resolution =====

pub open spec fn opt_str_view(o: Option<&str>) -> Option<Seq<char>> {
    match o {
        Some(s) => Some(s@),
        None => None,
    }
}

/// The fixed hex forms of the color keywords; `currentColor` takes the
/// element's current color, black when there is none.
pub open spec fn named_color_spec(t: Seq<char>, current: Option<Seq<char>>) -> Option<Seq<char>> {
    if t == "currentColor"@ {
        Some(
            match current {
                Some(c) => c,
                None => "#000000"@,
            },
        )
    } else if t == "transparent"@ {
        Some("#00000000"@)
    } else if t == "black"@ {
        Some("#000000"@)
    } else if t == "white"@ {
        Some("#ffffff"@)
    } else if t == "gray"@ || t == "grey"@ {
        Some("#808080"@)
    } else if t == "red"@ {
        Some("#ff0000"@)
    } else if t == "green"@ {
        Some("#00ff00"@)
    } else if t == "blue"@ {
        Some("#0000ff"@)
    } else {
        None
    }
}

fn named_color_exec(t: &Vec<char>, current: Option<&str>) -> (r: Option<String>)
    ensures
        match r {
            Some(s) => named_color_spec(t@, opt_str_view(current)) == Some(s@),
            None => named_color_spec(t@, opt_str_view(current)) is None,
        },
{
    if chars_eq_str(t, "currentColor") {
        match current {
            Some(c) => Some(String::from_str(c)),
            None => Some(String::from_str("#000000")),
        }
    } else if chars_eq_str(t, "transparent") {
        Some(String::from_str("#00000000"))
    } else if chars_eq_str(t, "black") {
        Some(String::from_str("#000000"))
    } else if chars_eq_str(t, "white") {
        Some(String::from_str("#ffffff"))
    } else if chars_eq_str(t, "gray") || chars_eq_str(t, "grey") {
        Some(String::from_str("#808080"))
    } else if chars_eq_str(t, "red") {
        Some(String::from_str("#ff0000"))
    } else if chars_eq_str(t, "green") {
        Some(String::from_str("#00ff00"))
    } else if chars_eq_str(t, "blue") {
        Some(String::from_str("#0000ff"))
    } else {
        None
    }
}

/// Resolution of a mix term: keywords and the current color resolve; any
/// other text passes through trimmed. A term is never itself a mix, so this
/// resolution is not recursive.
pub open spec fn resolve_term_spec(v: Seq<char>, current: Option<Seq<char>>) -> Seq<char> {
    let t = trim_spec(v);
    match named_color_spec(t, current) {
        Some(h) => h,
        None => t,
    }
}

fn resolve_term_exec(v: &Vec<char>, current: Option<&str>) -> (r: String)
    ensures
        r@ == resolve_term_spec(v@, opt_str_view(current)),
{
    let t = trim(v);
    match named_color_exec(&t, current) {
        Some(h) => h,
        None => chars_to_string(&t),
    }
}

/// Truncating division, as machine division behaves.
pub open spec fn tdiv100(p: int) -> int {
    if p >= 0 {
        p / 100
    } else {
        -((-p) / 100)
    }
}

/// The mix weight, in thousandths: the second color's percentage when given,
/// else the complement of the first's, else one half.
pub open spec fn mix_weight_spec(p1: Option<int>, p2: Option<int>) -> int {
    match p2 {
        Some(p) => tdiv100(p),
        None => match p1 {
            Some(p) => 1000 - tdiv100(p),
            None => 500,
        },
    }
}

/// A mix part split into its color text and optional percentage: two
/// whitespace-separated words where the second is a numeral ending in `%`.
pub open spec fn parse_cp_spec(part: Seq<char>) -> (Seq<char>, Option<int>) {
    let ws = split_ws_spec(part);
    if ws.len() == 2 && ws[1].len() > 0 && ws[1].last() == '%' && parse_milli_spec(
        ws[1].drop_last(),
    ) is Some {
        (ws[0], Some(parse_milli_spec(ws[1].drop_last())->0))
    } else {
        (part, None)
    }
}

fn parse_cp_exec(part: &Vec<char>) -> (r: (Vec<char>, Option<i64>))
    ensures
        r.0@ == parse_cp_spec(part@).0,
        opt_i64_is(r.1, parse_cp_spec(part@).1),
        r.1 is Some ==> -1_000_000_000_000 < r.1->0 < 1_000_000_000_000,
{
    let ws = split_ws(part);
    if ws.len() == 2 {
        proof {
            assert(ws@[1].deep_view() =~= ws@[1]@);
            assert(ws@[0].deep_view() =~= ws@[0]@);
            assert(ws.deep_view()[1] == ws@[1]@);
            assert(ws.deep_view()[0] == ws@[0]@);
        }
        let tok = &ws[1];
        if tok.len() > 0 {
            let last = tok[tok.len() - 1];
            if last == '%' {
                let num = subvec(tok, 0, tok.len() - 1);
                proof {
                    assert(num@ =~= ws.deep_view()[1].drop_last());
                }
                match parse_milli(&num) {
                    Some(v) => {
                        let color = subvec(&ws[0], 0, ws[0].len());
                        proof {
                            assert(color@ =~= ws.deep_view()[0]);
                        }
                        return (color, Some(v));
                    },
                    None => {
                        let whole = subvec(part, 0, part.len());
                        proof {
                            assert(whole@ =~= part@);
                        }
                        return (whole, None);
                    },
                }
            }
        }
    }
    let whole = subvec(part, 0, part.len());
    proof {
        assert(whole@ =~= part@);
        if split_ws_spec(part@).len() == 2 {
            assert(ws.deep_view()[1] =~= ws@[1]@);
        }
    }
    (whole, None)
}

/// The color a mix term denotes, opaque black when its text is no color.
pub open spec fn color_of_term(t: Seq<char>, current: Option<Seq<char>>) -> Color {
    match from_hex_spec(resolve_term_spec(t, current)) {
        Some(c) => c,
        None => opaque_black(),
    }
}

/// The meaning of a `color-mix(...)` form: the two comma-separated terms
/// after the color-space word are resolved and blended; any malformed
/// content degrades to opaque black.
pub open spec fn resolve_mix_spec(t: Seq<char>, current: Option<Seq<char>>) -> Seq<char> {
    if t.len() < 11 {
        "#000000"@
    } else {
        let content = t.subrange(10, t.len() - 1);
        let parts = split_char_spec(content, ',');
        if parts.len() < 3 {
            "#000000"@
        } else {
            let cp1 = parse_cp_spec(trim_spec(parts[1]));
            let cp2 = parse_cp_spec(trim_spec(parts[2]));
            let c1 = color_of_term(cp1.0, current);
            let c2 = color_of_term(cp2.0, current);
            Color::mix_spec(c1, c2, mix_weight_spec(cp1.1, cp2.1)).to_hex_spec()
        }
    }
}

fn resolve_mix_exec(t: &Vec<char>, current: Option<&str>) -> (r: String)
    ensures
        r@ == resolve_mix_spec(t@, opt_str_view(current)),
{
    if t.len() < 11 {
        return String::from_str("#000000");
    }
    let content = subvec(t, 10, t.len() - 1);
    let parts = split_char(&content, ',');
    if parts.len() < 3 {
        proof {
            assert(parts.deep_view().len() == parts@.len());
        }
        return String::from_str("#000000");
    }
    proof {
        assert(parts.deep_view().len() == parts@.len());
        assert(parts.deep_view()[1] =~= parts@[1]@);
        assert(parts.deep_view()[2] =~= parts@[2]@);
    }
    let p1t = trim(&parts[1]);
    let p2t = trim(&parts[2]);
    let cp1 = parse_cp_exec(&p1t);
    let cp2 = parse_cp_exec(&p2t);
    let c1hex = resolve_term_exec(&cp1.0, current);
    let c2hex = resolve_term_exec(&cp2.0, current);
    let c1 = match Color::from_hex(c1hex.as_str()) {
        Some(c) => c,
        None => Color { r: 0, g: 0, b: 0, a: 255 },
    };
    let c2 = match Color::from_hex(c2hex.as_str()) {
        Some(c) => c,
        None => Color { r: 0, g: 0, b: 0, a: 255 },
    };
    let w: i64 = match cp2.1 {
        Some(p) => {
            if p >= 0 {
                p / 100
            } else {
                -((-p) / 100)
            }
        },
        None => match cp1.1 {
            Some(p) => {
                if p >= 0 {
                    1000 - p / 100
                } else {
                    1000 + ((-p) / 100)
                }
            },
            None => 500,
        },
    };
    Color::mix(c1, c2, w).to_hex()
}

/// What a color-bearing value resolves to: keyword colors and the current
/// color become hex; a `color-mix(...)` form is blended; hex and every
/// other text pass through trimmed.
pub open spec fn resolve_color_spec(v: Seq<char>, current: Option<Seq<char>>) -> Seq<char> {
    let t = trim_spec(v);
    match named_color_spec(t, current) {
        Some(h) => h,
        None => {
            if is_prefix_of("color-mix("@, t) && t.len() > 0 && t.last() == ')' {
                resolve_mix_spec(t, current)
            } else {
                t
            }
        },
    }
}

/// Resolve one color value against the current color. The variable table
/// plays no part here: variable references are substituted before a value
/// reaches color resolution.
pub fn resolve_color(value: &str, current_color: Option<&str>, _vars: &OrdMap<String>) -> (r:
    String)
    ensures
        r@ == resolve_color_spec(value@, opt_str_view(current_color)),
{
    let v = str_to_chars(value);
    let t = trim(&v);
    match named_color_exec(&t, current_color) {
        Some(h) => h,
        None => {
            if starts_with_str(&t, "color-mix(") && t.len() > 0 && {
                let c = t[t.len() - 1];
                c == ')'
            } {
                resolve_mix_exec(&t, current_color)
            } else {
                chars_to_string(&t)
            }
        },
    }
}

} // verus!
