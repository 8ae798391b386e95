//! Colors with an opacity: `#rgb`, `#rrggbb`, `#rrggbbaa`, `rgb(..)` and `rgba(..)` are
//! rewritten as `rgba(r,g,b,alpha)`; anything else is kept as written.
use vstd::prelude::*;

use crate::workspaces::{is_number_char, lemma_decimal_chars};
use crate::text::{
    ascii_lower, lacks, lemma_find_char_at, lemma_split_after_piece, lemma_split_pieces_lack,
    lemma_trim_fixed, lemma_trim_twice,
    append_chars, byte_len, chars_of, decimal, eq_ignore_ascii_case, eq_ignore_ascii_case_chars,
    find, find_chars, lemma_byte_len_push, lemma_find_bounds, push_decimal, slice_chars, split_on,
    split_on_chars, starts_with, starts_with_chars, string_of, trim, trim_chars, trim_end,
    trim_start, is_space, utf8_width,
    utf8_width_of, views,
};

verus! {

broadcast use vstd::string::group_string_axioms;

/// The word that means "no color".
pub open spec fn transparent() -> Seq<char> {
    "transparent"@
}

pub open spec fn is_hex_digit(c: char) -> bool {
    ||| '0' <= c <= '9'
    ||| 'a' <= c <= 'f'
    ||| 'A' <= c <= 'F'
}

pub open spec fn hex_value(c: char) -> nat {
    if '0' <= c <= '9' {
        ((c as u32) - 48) as nat
    } else if 'a' <= c <= 'f' {
        ((c as u32) - 87) as nat
    } else {
        ((c as u32) - 55) as nat
    }
}

/// `u8::from_str_radix(s, 16)` for a two-character `s = [a, b]`: two hex digits, or a
/// `+` sign and one hex digit.
pub open spec fn hex_pair(a: char, b: char) -> Option<nat> {
    if is_hex_digit(a) && is_hex_digit(b) {
        Some(16 * hex_value(a) + hex_value(b))
    } else if a == '+' && is_hex_digit(b) {
        Some(hex_value(b))
    } else {
        None
    }
}

pub open spec fn all_ascii(s: Seq<char>) -> bool {
    forall|i: int| 0 <= i < s.len() ==> (#[trigger] s[i] as u32) < 0x80
}

/// The six characters read as `rrggbb` from what follows `#`: a three-byte text with
/// each character doubled, a six-byte text, or the first six bytes of an eight-byte text,
/// when those bytes are ASCII characters.
pub open spec fn hex_six(h: Seq<char>) -> Option<Seq<char>> {
    let n = byte_len(h);
    if n == 3 && h.len() == 3 {
        Some(seq![h[0], h[0], h[1], h[1], h[2], h[2]])
    } else if n == 6 && h.len() == 6 {
        Some(h)
    } else if n == 8 && h.len() >= 6 && all_ascii(h.take(6)) {
        Some(h.take(6))
    } else {
        None
    }
}

/// The red, green and blue values written after `#`, if they read as hex bytes.
pub open spec fn hex_rgb(h: Seq<char>) -> Option<(nat, nat, nat)> {
    match hex_six(h) {
        Some(x) => match (hex_pair(x[0], x[1]), hex_pair(x[2], x[3]), hex_pair(x[4], x[5])) {
            (Some(r), Some(g), Some(b)) => Some((r, g, b)),
            _ => None,
        },
        None => None,
    }
}

/// `rgba(r,g,b,alpha)` with the three channels given as text.
pub open spec fn rgba_text(r: Seq<char>, g: Seq<char>, b: Seq<char>, alpha: Seq<char>) -> Seq<
    char,
> {
    "rgba("@ + r + seq![','] + g + seq![','] + b + seq![','] + alpha + seq![')']
}

/// The channels of `rgb(a, b, c)` or `rgba(a, b, c, d)`: what follows the first `(`,
/// without the final `)`, split at commas, each piece trimmed; at least three pieces.
pub open spec fn functional_channels(c: Seq<char>) -> Option<Seq<Seq<char>>> {
    match find(c, seq!['(']) {
        None => None,
        Some(k) => {
            let value = c.skip(k + 1);
            if value.len() > 0 && value.last() == ')' {
                let parts = split_on(value.drop_last(), ',');
                if parts.len() >= 3 {
                    Some(seq![trim(parts[0]), trim(parts[1]), trim(parts[2])])
                } else {
                    None
                }
            } else {
                None
            }
        },
    }
}

/// What `color_with_opacity` writes for `color` at the opacity written `alpha`.
pub open spec fn color_text(color: Seq<char>, alpha: Seq<char>) -> Seq<char> {
    let c = trim(color);
    if c.len() == 0 || eq_ignore_ascii_case(c, transparent()) {
        transparent()
    } else if c[0] == '#' && hex_rgb(c.drop_first()) is Some {
        let (r, g, b) = hex_rgb(c.drop_first()).unwrap();
        rgba_text(decimal(r), decimal(g), decimal(b), alpha)
    } else if (starts_with(c, "rgb("@) || starts_with(c, "rgba("@)) && functional_channels(
        c,
    ) is Some {
        let p = functional_channels(c).unwrap();
        rgba_text(p[0], p[1], p[2], alpha)
    } else {
        c
    }
}

/// Whether byte position `k` of the UTF-8 text `s` falls between two characters.
pub open spec fn is_char_boundary_at(s: Seq<char>, k: int) -> bool {
    exists|i: int| 0 <= i <= s.len() && byte_len(s.take(i)) == k
}

/// Whether reading the hex digits after `#` slices the text inside a character, as
/// byte-indexed slicing would (and panic).
pub open spec fn hex_slicing_fails(h: Seq<char>) -> bool {
    let n = byte_len(h);
    ||| n == 3 && h.len() == 1
    ||| n == 6 && !(is_char_boundary_at(h, 2) && is_char_boundary_at(h, 4))
    ||| n == 8 && !(is_char_boundary_at(h, 2) && is_char_boundary_at(h, 4)
        && is_char_boundary_at(h, 6))
}

/// Whether `color` is a `#` color whose digits would be sliced inside a character.
pub open spec fn color_slicing_fails(color: Seq<char>) -> bool {
    let c = trim(color);
    c.len() > 0 && c[0] == '#' && hex_slicing_fails(c.drop_first())
}

// ------------------------------------------------------------
// Executable parts
// ------------------------------------------------------------

fn is_hex_digit_char(c: char) -> (b: bool)
    ensures
        b == is_hex_digit(c),
{
    ('0' <= c && c <= '9') || ('a' <= c && c <= 'f') || ('A' <= c && c <= 'F')
}

fn hex_value_of(c: char) -> (v: u64)
    requires
        is_hex_digit(c),
    ensures
        v == hex_value(c),
        v < 16,
{
    if '0' <= c && c <= '9' {
        (c as u32 - 48) as u64
    } else if 'a' <= c && c <= 'f' {
        (c as u32 - 87) as u64
    } else {
        (c as u32 - 55) as u64
    }
}

fn hex_pair_of(a: char, b: char) -> (r: Option<u64>)
    ensures
        match r {
            Some(v) => hex_pair(a, b) == Some(v as nat) && v < 256,
            None => hex_pair(a, b) is None,
        },
{
    if is_hex_digit_char(a) && is_hex_digit_char(b) {
        Some(16 * hex_value_of(a) + hex_value_of(b))
    } else if a == '+' && is_hex_digit_char(b) {
        Some(hex_value_of(b))
    } else {
        None
    }
}

/// `min(byte_len(s), cap)`.
fn byte_len_capped(s: &[char], cap: usize) -> (n: usize)
    requires
        cap > 0,
    ensures
        n == if byte_len(s@) < cap {
            byte_len(s@)
        } else {
            cap as nat
        },
{
    let mut n: usize = 0;
    let mut i: usize = 0;
    assert(s@.take(0) =~= Seq::<char>::empty());
    while i < s.len()
        invariant
            i <= s@.len(),
            n == byte_len(s@.take(i as int)),
            n < cap,
        decreases s.len() - i,
    {
        proof {
            assert(s@.take(i + 1) =~= s@.take(i as int).push(s@[i as int]));
            lemma_byte_len_push(s@.take(i as int), s@[i as int]);
        }
        let w = utf8_width_of(s[i]);
        if w >= cap - n {
            proof {
                crate::text::lemma_byte_len_prefix(s@, i + 1);
            }
            return cap;
        }
        n = n + w;
        i = i + 1;
    }
    assert(s@.take(i as int) =~= s@);
    n
}

fn all_ascii_prefix(s: &[char], k: usize) -> (b: bool)
    requires
        k <= s@.len(),
    ensures
        b == all_ascii(s@.take(k as int)),
{
    let mut i: usize = 0;
    while i < k
        invariant
            i <= k <= s@.len(),
            forall|j: int| 0 <= j < i ==> (s@[j] as u32) < 0x80,
        decreases k - i,
    {
        if s[i] as u32 >= 0x80 {
            assert(!((s@.take(k as int)[i as int] as u32) < 0x80));
            return false;
        }
        i = i + 1;
    }
    true
}

fn hex_six_of(h: &[char]) -> (r: Option<Vec<char>>)
    ensures
        match r {
            Some(x) => hex_six(h@) == Some(x@),
            None => hex_six(h@) is None,
        },
{
    let n = byte_len_capped(h, 9);
    if n == 3 && h.len() == 3 {
        let x = vec![h[0], h[0], h[1], h[1], h[2], h[2]];
        assert(x@ =~= seq![h@[0], h@[0], h@[1], h@[1], h@[2], h@[2]]);
        Some(x)
    } else if n == 6 && h.len() == 6 {
        Some(slice_chars(h, 0, 6))
    } else if n == 8 && h.len() >= 6 && all_ascii_prefix(h, 6) {
        Some(slice_chars(h, 0, 6))
    } else {
        None
    }
}

fn hex_rgb_of(h: &[char]) -> (r: Option<(u64, u64, u64)>)
    ensures
        match r {
            Some((a, b, c)) => hex_rgb(h@) == Some((a as nat, b as nat, c as nat)),
            None => hex_rgb(h@) is None,
        },
{
    match hex_six_of(h) {
        Some(x) => {
            assert(x@.len() == 6);
            match (hex_pair_of(x[0], x[1]), hex_pair_of(x[2], x[3]), hex_pair_of(x[4], x[5])) {
                (Some(r), Some(g), Some(b)) => Some((r, g, b)),
                _ => None,
            }
        },
        None => None,
    }
}

fn push_literal(out: &mut Vec<char>, lit: &str)
    ensures
        final(out)@ == old(out)@ + lit@,
{
    let v = chars_of(lit);
    append_chars(out, v.as_slice());
}

fn rgba_chars(r: &[char], g: &[char], b: &[char], alpha: &[char]) -> (out: Vec<char>)
    ensures
        out@ == rgba_text(r@, g@, b@, alpha@),
{
    let mut out: Vec<char> = Vec::new();
    push_literal(&mut out, "rgba(");
    append_chars(&mut out, r);
    out.push(',');
    append_chars(&mut out, g);
    out.push(',');
    append_chars(&mut out, b);
    out.push(',');
    append_chars(&mut out, alpha);
    out.push(')');
    assert(out@ =~= rgba_text(r@, g@, b@, alpha@));
    out
}

fn decimal_chars(n: u64) -> (v: Vec<char>)
    ensures
        v@ == decimal(n as nat),
{
    let mut v: Vec<char> = Vec::new();
    push_decimal(&mut v, n);
    assert(Seq::<char>::empty() + decimal(n as nat) =~= decimal(n as nat));
    v
}

fn functional_channels_of(c: &[char]) -> (r: Option<(Vec<char>, Vec<char>, Vec<char>)>)
    ensures
        match r {
            Some((a, b, d)) => functional_channels(c@) == Some(seq![a@, b@, d@]),
            None => functional_channels(c@) is None,
        },
{
    let open = vec!['('];
    assert(open@ =~= seq!['(']);
    let k = match find_chars(c, open.as_slice()) {
        Some(k) => k,
        None => return None,
    };
    proof {
        lemma_find_bounds(c@, seq!['(']);
    }
    assert(k + 1 <= c.len());
    let value = slice_chars(c, k + 1, c.len());
    assert(value@ =~= c@.skip(k + 1));
    if value.len() == 0 || value[value.len() - 1] != ')' {
        return None;
    }
    let inner = slice_chars(value.as_slice(), 0, value.len() - 1);
    assert(inner@ =~= value@.drop_last());
    let parts = split_on_chars(inner.as_slice(), ',');
    if parts.len() < 3 {
        return None;
    }
    proof {
        assert(views(parts@)[0] == parts@[0]@);
        assert(views(parts@)[1] == parts@[1]@);
        assert(views(parts@)[2] == parts@[2]@);
    }
    let a = trim_chars(parts[0].as_slice());
    let b = trim_chars(parts[1].as_slice());
    let d = trim_chars(parts[2].as_slice());
    Some((a, b, d))
}

proof fn lemma_byte_len_prefix_mono(s: Seq<char>, i: int, j: int)
    requires
        0 <= i <= j <= s.len(),
    ensures
        byte_len(s.take(i)) <= byte_len(s.take(j)),
{
    crate::text::lemma_byte_len_prefix(s.take(j), i);
    assert(s.take(j).take(i) =~= s.take(i));
}

/// Whether byte position `k` of `s` falls between two characters.
fn char_boundary_at(s: &[char], k: usize) -> (b: bool)
    requires
        k <= 8,
    ensures
        b == is_char_boundary_at(s@, k as int),
{
    let mut i: usize = 0;
    let mut sum: usize = 0;
    assert(s@.take(0) =~= Seq::<char>::empty());
    loop
        invariant
            i <= s@.len(),
            k <= 8,
            sum == byte_len(s@.take(i as int)),
            forall|j: int| 0 <= j < i ==> byte_len(#[trigger] s@.take(j)) < k,
        decreases s@.len() - i,
    {
        if sum == k {
            return true;
        }
        if sum > k {
            assert forall|j: int| 0 <= j <= s@.len() implies byte_len(#[trigger] s@.take(j))
                != k by {
                if j >= i {
                    lemma_byte_len_prefix_mono(s@, i as int, j);
                }
            }
            return false;
        }
        if i == s.len() {
            return false;
        }
        proof {
            assert(s@.take(i + 1) =~= s@.take(i as int).push(s@[i as int]));
            lemma_byte_len_push(s@.take(i as int), s@[i as int]);
        }
        sum = sum + utf8_width_of(s[i]);
        i = i + 1;
    }
}

/// Whether `color_with_opacity` can read `color` without slicing inside a character
/// (see `color_slicing_fails`).
pub fn color_is_sliceable(color: &str) -> (b: bool)
    ensures
        b == !color_slicing_fails(color@),
{
    let cv = chars_of(color);
    let c = trim_chars(cv.as_slice());
    if c.len() == 0 || c[0] != '#' {
        return true;
    }
    let h = slice_chars(c.as_slice(), 1, c.len());
    assert(h@ =~= c@.drop_first());
    let n = byte_len_capped(h.as_slice(), 9);
    if n == 3 {
        h.len() != 1
    } else if n == 6 {
        char_boundary_at(h.as_slice(), 2) && char_boundary_at(h.as_slice(), 4)
    } else if n == 8 {
        char_boundary_at(h.as_slice(), 2) && char_boundary_at(h.as_slice(), 4) && char_boundary_at(
            h.as_slice(),
            6,
        )
    } else {
        true
    }
}

/// `color` written with the opacity `alpha` (the text of the opacity, already limited
/// to the range 0 to 1): empty or `transparent` (in any case) gives `transparent`; a
/// `#` color of three, six or eight hex digits and an `rgb(..)` or `rgba(..)` color with
/// at least three channels give `rgba(r,g,b,alpha)`; anything else is returned trimmed.
pub fn color_with_opacity(color: &str, alpha: &str) -> (r: String)
    requires
        !color_slicing_fails(color@),
    ensures
        r@ == color_text(color@, alpha@),
{
    let cv = chars_of(color);
    let c = trim_chars(cv.as_slice());
    let word = chars_of("transparent");
    if c.len() == 0 || eq_ignore_ascii_case_chars(c.as_slice(), word.as_slice()) {
        return String::from_str("transparent");
    }
    let alpha_chars = chars_of(alpha);
    if c[0] == '#' {
        let h = slice_chars(c.as_slice(), 1, c.len());
        assert(h@ =~= c@.drop_first());
        match hex_rgb_of(h.as_slice()) {
            Some((r, g, b)) => {
                let rv = decimal_chars(r);
                let gv = decimal_chars(g);
                let bv = decimal_chars(b);
                let out = rgba_chars(
                    rv.as_slice(),
                    gv.as_slice(),
                    bv.as_slice(),
                    alpha_chars.as_slice(),
                );
                return string_of(out.as_slice());
            },
            None => {},
        }
    }
    let rgb = chars_of("rgb(");
    let rgba = chars_of("rgba(");
    if starts_with_chars(c.as_slice(), rgb.as_slice()) || starts_with_chars(
        c.as_slice(),
        rgba.as_slice(),
    ) {
        match functional_channels_of(c.as_slice()) {
            Some((a, b, d)) => {
                let out = rgba_chars(
                    a.as_slice(),
                    b.as_slice(),
                    d.as_slice(),
                    alpha_chars.as_slice(),
                );
                return string_of(out.as_slice());
            },
            None => {},
        }
    }
    proof {
        if c@[0] == '#' {
            reveal_strlit("rgb(");
            reveal_strlit("rgba(");
            if c@.len() >= 4 {
                assert(c@.take(4)[0] == '#');
                assert("rgb("@[0] == 'r');
            }
            if c@.len() >= 5 {
                assert(c@.take(5)[0] == '#');
                assert("rgba("@[0] == 'r');
            }
            assert(!starts_with(c@, "rgb("@));
            assert(!starts_with(c@, "rgba("@));
        }
    }
    string_of(c.as_slice())
}


// ------------------------------------------------------------
// Properties
// ------------------------------------------------------------

/// Whether every character of `s` is a hex digit.
pub open spec fn all_hex(s: Seq<char>) -> bool {
    forall|i: int| 0 <= i < s.len() ==> is_hex_digit(#[trigger] s[i])
}

proof fn lemma_ascii_byte_len(s: Seq<char>)
    requires
        all_ascii(s),
    ensures
        byte_len(s) == s.len(),
    decreases s.len(),
{
    if s.len() > 0 {
        assert((s[0] as u32) < 0x80);
        assert(all_ascii(s.drop_first())) by {
            assert forall|i: int| 0 <= i < s.drop_first().len() implies (#[trigger] s.drop_first()[
                i
            ] as u32) < 0x80 by {
                assert(s.drop_first()[i] == s[i + 1]);
            }
        }
        lemma_ascii_byte_len(s.drop_first());
    }
}

proof fn lemma_hex_ascii(s: Seq<char>)
    requires
        all_hex(s),
    ensures
        all_ascii(s),
        byte_len(s) == s.len(),
{
    assert forall|i: int| 0 <= i < s.len() implies (#[trigger] s[i] as u32) < 0x80 by {
        assert(is_hex_digit(s[i]));
    }
    lemma_ascii_byte_len(s);
}

/// A `#` color with its hex digits is its own trimmed text, and is not `transparent`.
proof fn lemma_hash_color_plain(c: Seq<char>)
    requires
        c.len() >= 2,
        c.len() != 11,
        c[0] == '#',
        all_hex(c.drop_first()),
    ensures
        trim(c) == c,
        !eq_ignore_ascii_case(c, transparent()),
        c.len() > 0,
{
    reveal_strlit("transparent");
    assert(is_hex_digit(c.drop_first()[c.len() - 2]));
    assert(c.last() == c.drop_first()[c.len() - 2]);
    assert(!is_space(c[0]));
    assert(!is_space(c.last()));
    assert(trim_start(c) == c);
    assert(trim_end(c) == c);
}

/// The short form `#rgb` gives the same color as `#rrggbb`, each digit doubled.
pub proof fn law_short_hex_color(r: char, g: char, b: char, alpha: Seq<char>)
    requires
        is_hex_digit(r),
        is_hex_digit(g),
        is_hex_digit(b),
    ensures
        color_text(seq!['#', r, g, b], alpha) == color_text(seq!['#', r, r, g, g, b, b], alpha),
{
    let short = seq!['#', r, g, b];
    let long = seq!['#', r, r, g, g, b, b];
    let hs = short.drop_first();
    let hl = long.drop_first();
    assert(hs =~= seq![r, g, b]);
    assert(hl =~= seq![r, r, g, g, b, b]);
    assert(all_hex(hs));
    assert(all_hex(hl));
    lemma_hash_color_plain(short);
    lemma_hash_color_plain(long);
    lemma_hex_ascii(hs);
    lemma_hex_ascii(hl);
    assert(hex_six(hs) == Some(hl));
    assert(hex_six(hl) == Some(hl));
    assert(hex_rgb(hs) is Some);
}

/// The alpha digits of `#rrggbbaa` are ignored: the color is that of `#rrggbb`.
pub proof fn law_hex_alpha_ignored(six: Seq<char>, aa: Seq<char>, alpha: Seq<char>)
    requires
        six.len() == 6,
        aa.len() == 2,
        all_hex(six),
        all_hex(aa),
    ensures
        color_text(seq!['#'] + six + aa, alpha) == color_text(seq!['#'] + six, alpha),
{
    let eight = seq!['#'] + six + aa;
    let short = seq!['#'] + six;
    let h8 = eight.drop_first();
    let h6 = short.drop_first();
    assert(h8 =~= six + aa);
    assert(h6 =~= six);
    assert(all_hex(h8)) by {
        assert forall|i: int| 0 <= i < h8.len() implies is_hex_digit(#[trigger] h8[i]) by {
            if i < 6 {
                assert(h8[i] == six[i]);
            } else {
                assert(h8[i] == aa[i - 6]);
            }
        }
    }
    assert(all_hex(eight.drop_first()));
    assert(all_hex(short.drop_first()));
    lemma_hash_color_plain(eight);
    lemma_hash_color_plain(short);
    lemma_hex_ascii(h8);
    lemma_hex_ascii(h6);
    assert(h8.take(6) =~= six);
    assert(all_ascii(h8.take(6)));
    assert(hex_six(h8) == Some(six));
    assert(hex_six(h6) == Some(six));
}

/// The decimal text of a number holds no comma and is its own trimmed text.
proof fn lemma_decimal_plain(n: nat)
    ensures
        lacks(decimal(n), ','),
        trim(decimal(n)) == decimal(n),
{
    let d = decimal(n);
    lemma_decimal_chars(n);
    assert(is_number_char(d[0]));
    assert(is_number_char(d[d.len() - 1]));
    assert(d.last() == d[d.len() - 1]);
    lemma_trim_fixed(d);
    assert forall|j: int| 0 <= j < d.len() implies d[j] != ',' by {
        assert(is_number_char(d[j]));
    }
}

/// An `rgba(..)` text the bar wrote, with channels that hold no comma and are trimmed,
/// is written again unchanged.
proof fn lemma_rgba_text_fixed(r: Seq<char>, g: Seq<char>, b: Seq<char>, alpha: Seq<char>)
    requires
        lacks(r, ','),
        lacks(g, ','),
        lacks(b, ','),
        trim(r) == r,
        trim(g) == g,
        trim(b) == b,
    ensures
        color_text(rgba_text(r, g, b, alpha), alpha) == rgba_text(r, g, b, alpha),
{
    reveal_strlit("rgba(");
    reveal_strlit("rgb(");
    reveal_strlit("transparent");
    let o = rgba_text(r, g, b, alpha);
    let tail = seq![','] + g + seq![','] + b + seq![','] + alpha + seq![')'];
    assert(o =~= seq!['r', 'g', 'b', 'a', '('] + r + tail);
    assert(o[0] == 'r' && o[1] == 'g' && o[2] == 'b' && o[3] == 'a' && o[4] == '(');
    assert(o.last() == ')');
    lemma_trim_fixed(o);
    assert(!eq_ignore_ascii_case(o, transparent())) by {
        if o.len() == 11 {
            assert(ascii_lower(o[4]) != ascii_lower(transparent()[4]));
        }
    }
    assert(o.take(5) =~= "rgba("@);
    assert(starts_with(o, "rgba("@));
    lemma_find_char_at(o, '(', 0, 4);
    let value = o.skip(5);
    assert(value.last() == ')');
    let inner = value.drop_last();
    let rest_b = b + seq![','] + alpha;
    let rest_g = g + seq![','] + rest_b;
    assert(inner =~= r + seq![','] + rest_g);
    lemma_split_after_piece(r, rest_g, ',');
    lemma_split_after_piece(g, rest_b, ',');
    lemma_split_after_piece(b, alpha, ',');
    lemma_split_pieces_lack(alpha, ',');
    let parts = split_on(inner, ',');
    assert(parts =~= seq![r] + (seq![g] + (seq![b] + split_on(alpha, ','))));
    assert(parts[0] == r && parts[1] == g && parts[2] == b);
    assert(functional_channels(o) == Some(seq![r, g, b]));
}

/// Writing a color a second time changes nothing: what the bar writes is read back as
/// itself.
pub proof fn law_color_twice(color: Seq<char>, alpha: Seq<char>)
    ensures
        color_text(color_text(color, alpha), alpha) == color_text(color, alpha),
{
    reveal_strlit("transparent");
    let c = trim(color);
    lemma_trim_twice(color, ',');
    if c.len() == 0 || eq_ignore_ascii_case(c, transparent()) {
        let t = transparent();
        lemma_trim_fixed(t);
        assert(eq_ignore_ascii_case(t, t));
    } else if c[0] == '#' && hex_rgb(c.drop_first()) is Some {
        let (r, g, b) = hex_rgb(c.drop_first()).unwrap();
        lemma_decimal_plain(r);
        lemma_decimal_plain(g);
        lemma_decimal_plain(b);
        lemma_rgba_text_fixed(decimal(r), decimal(g), decimal(b), alpha);
    } else if (starts_with(c, "rgb("@) || starts_with(c, "rgba("@)) && functional_channels(c) is Some {
        let k = find(c, seq!['(']).unwrap();
        let value = c.skip(k + 1);
        let parts = split_on(value.drop_last(), ',');
        lemma_split_pieces_lack(value.drop_last(), ',');
        assert(lacks(parts[0], ',') && lacks(parts[1], ',') && lacks(parts[2], ','));
        lemma_trim_twice(parts[0], ',');
        lemma_trim_twice(parts[1], ',');
        lemma_trim_twice(parts[2], ',');
        let p = functional_channels(c).unwrap();
        assert(p == seq![trim(parts[0]), trim(parts[1]), trim(parts[2])]);
        lemma_rgba_text_fixed(p[0], p[1], p[2], alpha);
    }
}

/// A hex digit has its base-16 value whatever its case: `0`..`9` are 0..9, `a`..`f`
/// are 10..15, and an upper-case letter has the value of its lower-case form.
pub proof fn law_hex_digit_value(c: char)
    requires
        is_hex_digit(c),
    ensures
        hex_value(c) < 16,
        '0' <= c <= '9' ==> hex_value(c) == (c as u32) - ('0' as u32),
        'a' <= c <= 'f' ==> hex_value(c) == 10 + (c as u32) - ('a' as u32),
        'A' <= c <= 'F' ==> hex_value(c) == 10 + (c as u32) - ('A' as u32),
        is_hex_digit(ascii_lower(c)) && hex_value(ascii_lower(c)) == hex_value(c),
{
    if 'A' <= c <= 'F' {
        assert((ascii_lower(c) as u32) == (c as u32) + 32);
    }
}

/// A color written `#rrggbb` in hex digits gives the channels `16 * hi + lo` of each
/// pair of digits, each at most 255, whatever the case of the digits.
pub proof fn law_hex_channels(six: Seq<char>, alpha: Seq<char>)
    requires
        six.len() == 6,
        all_hex(six),
    ensures
        hex_rgb(six) == Some(
            (
                16 * hex_value(six[0]) + hex_value(six[1]),
                16 * hex_value(six[2]) + hex_value(six[3]),
                16 * hex_value(six[4]) + hex_value(six[5]),
            ),
        ),
        16 * hex_value(six[0]) + hex_value(six[1]) <= 255,
        color_text(seq!['#'] + six, alpha) == rgba_text(
            decimal(16 * hex_value(six[0]) + hex_value(six[1])),
            decimal(16 * hex_value(six[2]) + hex_value(six[3])),
            decimal(16 * hex_value(six[4]) + hex_value(six[5])),
            alpha,
        ),
{
    law_hex_digit_value(six[0]);
    law_hex_digit_value(six[1]);
    lemma_hex_ascii(six);
    let c = seq!['#'] + six;
    assert(c.drop_first() =~= six);
    assert(all_hex(c.drop_first()));
    lemma_hash_color_plain(c);
}

} // verus!
