//! Colours written as text: `rgb 1,2,3` and `rgba 1,2,3,4`.

use crate::color::Color;
use crate::text::{chars_of, parse_u8, u8_literal};
use vstd::prelude::*;

verus! {

/// The fields of a list written with commas: `s` is read from left to right,
/// a comma ends a field and begins the next, a space is passed over, and any
/// other character goes to the end of the field at hand. A text without
/// commas is one field.
pub open spec fn fields(s: Seq<char>) -> Seq<Seq<char>>
    decreases s.len(),
{
    if s.len() == 0 {
        seq![Seq::empty()]
    } else {
        let before = fields(s.drop_last());
        if s.last() == ',' {
            before.push(Seq::empty())
        } else if s.last() == ' ' {
            before
        } else {
            before.drop_last().push(before.last().push(s.last()))
        }
    }
}

/// The fields one after the other, with a comma between each two.
pub open spec fn joined(f: Seq<Seq<char>>) -> Seq<char>
    decreases f.len(),
{
    if f.len() == 0 {
        Seq::empty()
    } else if f.len() == 1 {
        f[0]
    } else {
        joined(f.drop_last()) + seq![','] + f.last()
    }
}

/// What is true of every character but the space.
pub open spec fn not_space() -> spec_fn(char) -> bool {
    |c: char| c != ' '
}

/// The fields of a text are what stands between its commas once the spaces
/// are out of it: there is at least one field, no field holds a comma or a
/// space, and the fields joined with commas are the text without its spaces.
pub proof fn lemma_fields_split_at_commas(s: Seq<char>)
    ensures
        fields(s).len() > 0,
        forall|i: int, j: int|
            0 <= i < fields(s).len() && 0 <= j < fields(s)[i].len() ==> #[trigger] fields(s)[i][j]
                != ',' && fields(s)[i][j] != ' ',
        joined(fields(s)) == s.filter(not_space()),
    decreases s.len(),
{
    reveal(Seq::filter);
    if s.len() > 0 {
        let before = fields(s.drop_last());
        let c = s.last();
        lemma_fields_split_at_commas(s.drop_last());
        if c == ',' {
            assert(fields(s).drop_last() =~= before);
            assert(joined(fields(s)) =~= joined(before).push(','));
        } else if c != ' ' {
            let grown = before.last().push(c);
            assert(fields(s) == before.drop_last().push(grown));
            assert(fields(s).drop_last() =~= before.drop_last());
            assert(joined(fields(s)) =~= joined(before).push(c));
            assert forall|i: int, j: int|
                0 <= i < fields(s).len() && 0 <= j < fields(s)[i].len() implies #[trigger] fields(
                s,
            )[i][j] != ',' && fields(s)[i][j] != ' ' by {
                if i < before.len() - 1 {
                    assert(fields(s)[i] == before[i]);
                } else if j < before.last().len() {
                    assert(fields(s)[i][j] == before.last()[j]);
                }
            }
        }
    }
}

/// The colour that three fields write, each of them a byte.
pub open spec fn rgb_literal(s: Seq<char>) -> Option<Color> {
    let f = fields(s);
    if f.len() == 3 && u8_literal(f[0]).is_some() && u8_literal(f[1]).is_some() && u8_literal(
        f[2],
    ).is_some() {
        Some(Color::RGB(u8_literal(f[0]).unwrap(), u8_literal(f[1]).unwrap(), u8_literal(f[2]).unwrap()))
    } else {
        None
    }
}

/// The colour that four fields write, each of them a byte.
pub open spec fn rgba_literal(s: Seq<char>) -> Option<Color> {
    let f = fields(s);
    if f.len() == 4 && u8_literal(f[0]).is_some() && u8_literal(f[1]).is_some() && u8_literal(
        f[2],
    ).is_some() && u8_literal(f[3]).is_some() {
        Some(
            Color::RGBA(
                u8_literal(f[0]).unwrap(),
                u8_literal(f[1]).unwrap(),
                u8_literal(f[2]).unwrap(),
                u8_literal(f[3]).unwrap(),
            ),
        )
    } else {
        None
    }
}

/// Whether `s` begins with `prefix`.
pub open spec fn starts_with(s: Seq<char>, prefix: Seq<char>) -> bool {
    prefix.len() <= s.len() && s.take(prefix.len() as int) == prefix
}

/// The colour that `s` writes: `rgb` and three bytes, or `rgba` and four.
pub open spec fn color_literal(s: Seq<char>) -> Option<Color> {
    if starts_with(s, seq!['r', 'g', 'b', ' ']) {
        rgb_literal(s.skip(4))
    } else if starts_with(s, seq!['r', 'g', 'b', 'a', ' ']) {
        rgba_literal(s.skip(5))
    } else {
        None
    }
}

/// The fields as mathematical values.
pub open spec fn field_views(f: Seq<Vec<char>>) -> Seq<Seq<char>> {
    f.map_values(|v: Vec<char>| v@)
}

/// Splits the characters from `from` on into fields.
pub fn split_fields(chars: &[char], from: usize) -> (f: Vec<Vec<char>>)
    requires
        from <= chars@.len(),
    ensures
        field_views(f@) == fields(chars@.skip(from as int)),
{
    let ghost s = chars@.skip(from as int);
    let n: usize = chars.len();
    let mut done: Vec<Vec<char>> = Vec::new();
    let mut field: Vec<char> = Vec::new();
    let mut i: usize = from;
    while i < n
        invariant
            from <= i <= n,
            n == chars@.len(),
            s == chars@.skip(from as int),
            field_views(done@).push(field@) == fields(s.take(i - from)),
        decreases n - i,
    {
        let c: char = chars[i];
        proof {
            assert(s.take(i + 1 - from).drop_last() =~= s.take(i - from));
        }
        if c == ',' {
            done.push(field);
            field = Vec::new();
        } else if c != ' ' {
            field.push(c);
        }
        i += 1;
    }
    assert(s.take(n - from) =~= s);
    done.push(field);
    done
}

/// Reads three bytes out of the characters from `from` on.
fn rgb_of_chars(chars: &[char], from: usize) -> (r: Option<Color>)
    requires
        from <= chars@.len(),
    ensures
        r == rgb_literal(chars@.skip(from as int)),
{
    let f = split_fields(chars, from);
    if f.len() != 3 {
        return None;
    }
    match (parse_u8(f[0].as_slice()), parse_u8(f[1].as_slice()), parse_u8(f[2].as_slice())) {
        (Some(r), Some(g), Some(b)) => Some(Color::RGB(r, g, b)),
        _ => None,
    }
}

/// Reads four bytes out of the characters from `from` on.
fn rgba_of_chars(chars: &[char], from: usize) -> (r: Option<Color>)
    requires
        from <= chars@.len(),
    ensures
        r == rgba_literal(chars@.skip(from as int)),
{
    let f = split_fields(chars, from);
    if f.len() != 4 {
        return None;
    }
    match (
        parse_u8(f[0].as_slice()),
        parse_u8(f[1].as_slice()),
        parse_u8(f[2].as_slice()),
        parse_u8(f[3].as_slice()),
    ) {
        (Some(r), Some(g), Some(b), Some(a)) => Some(Color::RGBA(r, g, b, a)),
        _ => None,
    }
}

/// Reads a colour out of the characters typed in.
pub fn color_of_chars(chars: &[char]) -> (r: Option<Color>)
    ensures
        r == color_literal(chars@),
{
    let n: usize = chars.len();
    if n >= 4 && chars[0] == 'r' && chars[1] == 'g' && chars[2] == 'b' && chars[3] == ' ' {
        assert(chars@.take(4) =~= seq!['r', 'g', 'b', ' ']);
        rgb_of_chars(chars, 4)
    } else if n >= 5 && chars[0] == 'r' && chars[1] == 'g' && chars[2] == 'b' && chars[3] == 'a'
        && chars[4] == ' ' {
        assert(chars@.take(5) =~= seq!['r', 'g', 'b', 'a', ' ']);
        rgba_of_chars(chars, 5)
    } else {
        None
    }
}

/// Reads a colour: `rgb` and three bytes, or `rgba` and four.
pub fn parse_color(string: &str) -> (r: Option<Color>)
    ensures
        r == color_literal(string@),
{
    let chars = chars_of(string);
    color_of_chars(chars.as_slice())
}

/// Reads three bytes with commas between them. Spaces do not count.
pub fn parse_rgb(string: &str) -> (r: Option<Color>)
    ensures
        r == rgb_literal(string@),
{
    let chars = chars_of(string);
    assert(chars@.skip(0) =~= chars@);
    rgb_of_chars(chars.as_slice(), 0)
}

/// Reads four bytes with commas between them. Spaces do not count.
pub fn parse_rgba(string: &str) -> (r: Option<Color>)
    ensures
        r == rgba_literal(string@),
{
    let chars = chars_of(string);
    assert(chars@.skip(0) =~= chars@);
    rgba_of_chars(chars.as_slice(), 0)
}

} // verus!
