//! The prompt template language.
//!
//! A template is a run of fragments: `&[#RRGGBB]` sets the text color,
//! `*[#RRGGBB]` the background color and `*[]` clears it, `$[x]` sets the
//! style (`x` one of `cbdurilhs`), `{{name}}` inserts a variable, and
//! `` `text` `` inserts non-empty literal text. Positions count characters.
use vstd::prelude::*;

verus! {

/// A 24-bit color.
#[derive(PartialEq, Eq, Structural, Debug, Clone, Copy)]
pub struct Color {
    pub red: u8,
    pub green: u8,
    pub blue: u8,
}

impl Color {
    pub fn new(red: u8, green: u8, blue: u8) -> (r: Self)
        ensures
            r == (Color { red, green, blue }),
    {
        Color { red, green, blue }
    }
}

/// A text style.
#[derive(PartialEq, Eq, Structural, Debug, Clone, Copy)]
pub enum Styles {
    Clear,
    Bold,
    Dimmed,
    Underline,
    Reversed,
    Italic,
    Blink,
    Hidden,
    Strikethrough,
}

/// A template with a position in it: what is left to parse starts at `offset`.
#[derive(Debug, Clone)]
pub struct Span {
    pub text: String,
    pub offset: usize,
}

impl Span {
    /// The whole of `s`, at its start.
    pub fn new(s: &str) -> (r: Self)
        ensures
            r.text@ == s@,
            r.offset == 0,
    {
        Span { text: String::from_str(s), offset: 0 }
    }

    /// The position, in characters from the start of the template.
    pub fn location_offset(&self) -> (r: usize)
        ensures
            r == self.offset,
    {
        self.offset
    }
}

#[derive(Debug, Clone)]
pub struct ColorToken {
    pub end_pos: Span,
    pub color: Color,
}

#[derive(Debug, Clone)]
pub struct BackgroundColorToken {
    pub end_pos: Span,
    pub background_color: Option<Color>,
}

#[derive(Debug, Clone)]
pub struct StyleToken {
    pub end_pos: Span,
    pub style: Styles,
}

#[derive(Debug, Clone)]
pub struct VarToken {
    pub end_pos: Span,
    pub var_name: String,
}

#[derive(Debug, Clone)]
pub struct LiteralToken {
    pub end_pos: Span,
    pub literal: String,
}

/// One fragment of a template.
#[derive(Debug, Clone)]
pub enum Node {
    Var(VarToken),
    Color(ColorToken),
    BackgroundColor(BackgroundColorToken),
    Style(StyleToken),
    Literal(LiteralToken),
}

/// A parsed template.
#[derive(Clone)]
pub struct Theme(pub Vec<Node>);

impl Theme {
    pub fn get_vec(&self) -> (r: &Vec<Node>)
        ensures
            r == &self.0,
    {
        &self.0
    }
}

impl Node {
    pub fn var(&self) -> (r: Option<&VarToken>)
        ensures
            r matches Some(t) ==> *self == Node::Var(*t),
            r is None ==> !(self is Var),
    {
        match self {
            Node::Var(c) => Some(c),
            _ => None,
        }
    }

    pub fn color(&self) -> (r: Option<&ColorToken>)
        ensures
            r matches Some(t) ==> *self == Node::Color(*t),
            r is None ==> !(self is Color),
    {
        match self {
            Node::Color(d) => Some(d),
            _ => None,
        }
    }

    pub fn background_color(&self) -> (r: Option<&BackgroundColorToken>)
        ensures
            r matches Some(t) ==> *self == Node::BackgroundColor(*t),
            r is None ==> !(self is BackgroundColor),
    {
        match self {
            Node::BackgroundColor(d) => Some(d),
            _ => None,
        }
    }

    pub fn style(&self) -> (r: Option<&StyleToken>)
        ensures
            r matches Some(t) ==> *self == Node::Style(*t),
            r is None ==> !(self is Style),
    {
        match self {
            Node::Style(d) => Some(d),
            _ => None,
        }
    }

    pub fn literal(&self) -> (r: Option<&LiteralToken>)
        ensures
            r matches Some(t) ==> *self == Node::Literal(*t),
            r is None ==> !(self is Literal),
    {
        match self {
            Node::Literal(d) => Some(d),
            _ => None,
        }
    }
}

/// The value of a hexadecimal digit.
pub open spec fn hex_value(c: char) -> Option<nat> {
    if '0' <= c && c <= '9' {
        Some((c as nat - '0' as nat) as nat)
    } else if 'a' <= c && c <= 'f' {
        Some((c as nat - 'a' as nat + 10) as nat)
    } else if 'A' <= c && c <= 'F' {
        Some((c as nat - 'A' as nat + 10) as nat)
    } else {
        None
    }
}

/// The byte written by the two hexadecimal digits at `p`.
pub open spec fn hex_byte_at(t: Seq<char>, p: int) -> Option<u8> {
    if 0 <= p && p + 2 <= t.len() && hex_value(t[p]) is Some && hex_value(t[p + 1]) is Some {
        Some((hex_value(t[p])->0 * 16 + hex_value(t[p + 1])->0) as u8)
    } else {
        None
    }
}

/// The color of a `L[#RRGGBB]` fragment at `p`, with `L` the lead character.
pub open spec fn color_at(t: Seq<char>, p: int, lead: char) -> Option<Color> {
    if 0 <= p && p + 10 <= t.len() && t[p] == lead && t[p + 1] == '[' && t[p + 2] == '#' && t[p + 9] == ']'
        && hex_byte_at(t, p + 3) is Some && hex_byte_at(t, p + 5) is Some && hex_byte_at(t, p + 7) is Some {
        Some(Color { red: hex_byte_at(t, p + 3)->0, green: hex_byte_at(t, p + 5)->0, blue: hex_byte_at(t, p + 7)->0 })
    } else {
        None
    }
}

/// A `*[]` fragment is at `p`.
pub open spec fn no_bg_at(t: Seq<char>, p: int) -> bool {
    0 <= p && p + 3 <= t.len() && t[p] == '*' && t[p + 1] == '[' && t[p + 2] == ']'
}

pub open spec fn style_of(c: char) -> Option<Styles> {
    if c == 'c' {
        Some(Styles::Clear)
    } else if c == 'b' {
        Some(Styles::Bold)
    } else if c == 'd' {
        Some(Styles::Dimmed)
    } else if c == 'u' {
        Some(Styles::Underline)
    } else if c == 'r' {
        Some(Styles::Reversed)
    } else if c == 'i' {
        Some(Styles::Italic)
    } else if c == 'l' {
        Some(Styles::Blink)
    } else if c == 'h' {
        Some(Styles::Hidden)
    } else if c == 's' {
        Some(Styles::Strikethrough)
    } else {
        None
    }
}

/// The style of a `$[x]` fragment at `p`.
pub open spec fn style_at(t: Seq<char>, p: int) -> Option<Styles> {
    if 0 <= p && p + 4 <= t.len() && t[p] == '$' && t[p + 1] == '[' && t[p + 3] == ']' {
        style_of(t[p + 2])
    } else {
        None
    }
}

/// The first index `k >= from` where `}}` starts.
pub open spec fn close_braces_from(t: Seq<char>, from: int) -> Option<int>
    decreases t.len() - from,
{
    if from < 0 || from + 2 > t.len() {
        None
    } else if t[from] == '}' && t[from + 1] == '}' {
        Some(from)
    } else {
        close_braces_from(t, from + 1)
    }
}

/// The first index `k >= from` holding a backtick.
pub open spec fn backtick_from(t: Seq<char>, from: int) -> Option<int>
    decreases t.len() - from,
{
    if from < 0 || from >= t.len() {
        None
    } else if t[from] == '`' {
        Some(from)
    } else {
        backtick_from(t, from + 1)
    }
}

/// Where the `{{name}}` fragment at `p` closes: the index of its `}}`.
pub open spec fn var_close_at(t: Seq<char>, p: int) -> Option<int> {
    if 0 <= p && p + 2 <= t.len() && t[p] == '{' && t[p + 1] == '{' {
        close_braces_from(t, p + 2)
    } else {
        None
    }
}

/// Where the `` `text` `` fragment at `p` closes: the index of its second
/// backtick, after at least one other character.
pub open spec fn literal_close_at(t: Seq<char>, p: int) -> Option<int> {
    if 0 <= p && p < t.len() && t[p] == '`' {
        match backtick_from(t, p + 1) {
            Some(k) => if k > p + 1 {
                Some(k)
            } else {
                None
            },
            None => None,
        }
    } else {
        None
    }
}

/// `n` is the fragment at `p` of the template `t`. Fragments are tried in
/// the order color, variable, literal, style, no background, background.
pub open spec fn frag_at(t: Seq<char>, p: int, n: Node) -> bool {
    if color_at(t, p, '&') is Some {
        n matches Node::Color(c) && c.color == color_at(t, p, '&')->0 && c.end_pos.text@ == t && c.end_pos.offset == p + 10
    } else if var_close_at(t, p) is Some {
        n matches Node::Var(v) && v.var_name@ == t.subrange(p + 2, var_close_at(t, p)->0) && v.end_pos.text@ == t
            && v.end_pos.offset == var_close_at(t, p)->0 + 2
    } else if literal_close_at(t, p) is Some {
        n matches Node::Literal(l) && l.literal@ == t.subrange(p + 1, literal_close_at(t, p)->0) && l.end_pos.text@
            == t && l.end_pos.offset == literal_close_at(t, p)->0 + 1
    } else if style_at(t, p) is Some {
        n matches Node::Style(s) && s.style == style_at(t, p)->0 && s.end_pos.text@ == t && s.end_pos.offset == p + 4
    } else if no_bg_at(t, p) {
        n matches Node::BackgroundColor(b) && b.background_color is None && b.end_pos.text@ == t && b.end_pos.offset
            == p + 3
    } else if color_at(t, p, '*') is Some {
        n matches Node::BackgroundColor(b) && b.background_color == color_at(t, p, '*') && b.end_pos.text@ == t
            && b.end_pos.offset == p + 10
    } else {
        false
    }
}

/// Some fragment starts at `p`.
pub open spec fn has_frag_at(t: Seq<char>, p: int) -> bool {
    color_at(t, p, '&') is Some || var_close_at(t, p) is Some || literal_close_at(t, p) is Some || style_at(t, p) is Some
        || no_bg_at(t, p) || color_at(t, p, '*') is Some
}

/// Where the fragment at `p` ends.
pub open spec fn frag_end(t: Seq<char>, p: int) -> int {
    if color_at(t, p, '&') is Some {
        p + 10
    } else if var_close_at(t, p) is Some {
        var_close_at(t, p)->0 + 2
    } else if literal_close_at(t, p) is Some {
        literal_close_at(t, p)->0 + 1
    } else if style_at(t, p) is Some {
        p + 4
    } else if no_bg_at(t, p) {
        p + 3
    } else {
        p + 10
    }
}

/// Whether `c` is a hexadecimal digit.
pub fn is_hex_digit(c: char) -> (r: bool)
    ensures
        r == hex_value(c) is Some,
{
    ('0' <= c && c <= '9') || ('a' <= c && c <= 'f') || ('A' <= c && c <= 'F')
}

fn hex_digit_value(c: char) -> (r: u8)
    requires
        hex_value(c) is Some,
    ensures
        r as nat == hex_value(c)->0,
{
    if '0' <= c && c <= '9' {
        (c as u32 - '0' as u32) as u8
    } else if 'a' <= c && c <= 'f' {
        (c as u32 - 'a' as u32 + 10) as u8
    } else {
        (c as u32 - 'A' as u32 + 10) as u8
    }
}

/// The byte written by the two hexadecimal digits at `p` of `t`.
pub fn hex_primary(t: &str, p: usize) -> (r: Option<u8>)
    ensures
        r == hex_byte_at(t@, p as int),
{
    let n = t.unicode_len();
    if p >= n || n - p < 2 {
        return None;
    }
    let a = t.get_char(p);
    let b = t.get_char(p + 1);
    if !is_hex_digit(a) || !is_hex_digit(b) {
        return None;
    }
    let hi = hex_digit_value(a);
    let lo = hex_digit_value(b);
    Some(hi * 16 + lo)
}

/// The color of a `L[#RRGGBB]` fragment at `p`, with `L` = `lead`.
fn color_fragment(t: &str, p: usize, lead: char) -> (r: Option<Color>)
    ensures
        r == color_at(t@, p as int, lead),
{
    let n = t.unicode_len();
    if p >= n || n - p < 10 {
        return None;
    }
    if t.get_char(p) != lead || t.get_char(p + 1) != '[' || t.get_char(p + 2) != '#' || t.get_char(p + 9) != ']' {
        return None;
    }
    let red = match hex_primary(t, p + 3) {
        Some(v) => v,
        None => {
            return None;
        },
    };
    let green = match hex_primary(t, p + 5) {
        Some(v) => v,
        None => {
            return None;
        },
    };
    let blue = match hex_primary(t, p + 7) {
        Some(v) => v,
        None => {
            return None;
        },
    };
    Some(Color { red, green, blue })
}

/// The style a style character stands for; `Clear` for any other.
pub fn char_to_style(ch: char) -> (r: Styles)
    ensures
        style_of(ch) matches Some(st) ==> r == st,
        style_of(ch) is None ==> r == Styles::Clear,
{
    match ch {
        'c' => Styles::Clear,
        'b' => Styles::Bold,
        'd' => Styles::Dimmed,
        'u' => Styles::Underline,
        'r' => Styles::Reversed,
        'i' => Styles::Italic,
        'l' => Styles::Blink,
        'h' => Styles::Hidden,
        's' => Styles::Strikethrough,
        _ => Styles::Clear,
    }
}

/// `rest` is the span after a fragment of `s` that ends at `end`.
pub open spec fn moved_to(s: Span, rest: Span, end: int) -> bool {
    rest.text@ == s.text@ && rest.offset == end
}

/// Parses `&[#RRGGBB]`: sets the text color.
pub fn parse_color(s: Span) -> (r: Option<(Span, Node)>)
    ensures
        r is Some <==> color_at(s.text@, s.offset as int, '&') is Some,
        r matches Some((rest, n)) ==> (moved_to(s, rest, frag_end(s.text@, s.offset as int)) && frag_at(
            s.text@,
            s.offset as int,
            n,
        )),
{
    let _n = s.text.as_str().unicode_len();
    match color_fragment(s.text.as_str(), s.offset, '&') {
        Some(color) => {
            let end = s.offset + 10;
            let end_pos = Span { text: s.text.clone(), offset: end };
            Some((Span { text: s.text, offset: end }, Node::Color(ColorToken { end_pos, color })))
        },
        None => None,
    }
}

/// Parses `*[#RRGGBB]`: sets the background color.
pub fn parse_background_color(s: Span) -> (r: Option<(Span, Node)>)
    ensures
        r is Some <==> color_at(s.text@, s.offset as int, '*') is Some,
        r matches Some((rest, n)) ==> (moved_to(s, rest, frag_end(s.text@, s.offset as int)) && frag_at(
            s.text@,
            s.offset as int,
            n,
        )),
{
    let _n = s.text.as_str().unicode_len();
    match color_fragment(s.text.as_str(), s.offset, '*') {
        Some(color) => {
            let end = s.offset + 10;
            let end_pos = Span { text: s.text.clone(), offset: end };
            Some(
                (
                    Span { text: s.text, offset: end },
                    Node::BackgroundColor(BackgroundColorToken { end_pos, background_color: Some(color) }),
                ),
            )
        },
        None => None,
    }
}

/// Parses `*[]`: clears the background color.
pub fn parse_no_bg_color(s: Span) -> (r: Option<(Span, Node)>)
    ensures
        r is Some <==> no_bg_at(s.text@, s.offset as int),
        r matches Some((rest, n)) ==> (moved_to(s, rest, frag_end(s.text@, s.offset as int)) && frag_at(
            s.text@,
            s.offset as int,
            n,
        )),
{
    let t = s.text.as_str();
    let n = t.unicode_len();
    let p = s.offset;
    if p >= n || n - p < 3 || t.get_char(p) != '*' || t.get_char(p + 1) != '[' || t.get_char(p + 2) != ']' {
        return None;
    }
    let end = p + 3;
    let end_pos = Span { text: s.text.clone(), offset: end };
    Some(
        (
            Span { text: s.text, offset: end },
            Node::BackgroundColor(BackgroundColorToken { end_pos, background_color: None }),
        ),
    )
}

/// Parses `$[x]`: sets the style.
pub fn parse_style(s: Span) -> (r: Option<(Span, Node)>)
    ensures
        r is Some <==> style_at(s.text@, s.offset as int) is Some,
        r matches Some((rest, n)) ==> (moved_to(s, rest, frag_end(s.text@, s.offset as int)) && frag_at(
            s.text@,
            s.offset as int,
            n,
        )),
{
    let t = s.text.as_str();
    let n = t.unicode_len();
    let p = s.offset;
    if p >= n || n - p < 4 || t.get_char(p) != '$' || t.get_char(p + 1) != '[' || t.get_char(p + 3) != ']' {
        return None;
    }
    let c = t.get_char(p + 2);
    if !(c == 'c' || c == 'b' || c == 'd' || c == 'u' || c == 'r' || c == 'i' || c == 'l' || c == 'h' || c == 's') {
        return None;
    }
    let end = p + 4;
    let end_pos = Span { text: s.text.clone(), offset: end };
    Some((Span { text: s.text, offset: end }, Node::Style(StyleToken { end_pos, style: char_to_style(c) })))
}

/// The first index from `from` on where `}}` starts.
fn find_close_braces(t: &str, from: usize) -> (r: Option<usize>)
    ensures
        r matches Some(k) ==> close_braces_from(t@, from as int) == Some(k as int) && from <= k && k + 2 <= t@.len(),
        r is None ==> close_braces_from(t@, from as int) is None,
{
    let n = t.unicode_len();
    let mut k: usize = from;
    while k < n && n - k >= 2
        invariant
            n == t@.len(),
            from <= k,
            close_braces_from(t@, from as int) == close_braces_from(t@, k as int),
        decreases n - k,
    {
        if t.get_char(k) == '}' && t.get_char(k + 1) == '}' {
            return Some(k);
        }
        k = k + 1;
    }
    None
}

/// The first index from `from` on that holds a backtick.
fn find_backtick(t: &str, from: usize) -> (r: Option<usize>)
    ensures
        r matches Some(k) ==> backtick_from(t@, from as int) == Some(k as int) && from <= k && k < t@.len(),
        r is None ==> backtick_from(t@, from as int) is None,
{
    let n = t.unicode_len();
    let mut k: usize = from;
    while k < n
        invariant
            n == t@.len(),
            from <= k,
            backtick_from(t@, from as int) == backtick_from(t@, k as int),
        decreases n - k,
    {
        if t.get_char(k) == '`' {
            return Some(k);
        }
        k = k + 1;
    }
    None
}

/// Parses `{{name}}`: inserts the variable `name`.
pub fn parse_var(s: Span) -> (r: Option<(Span, Node)>)
    ensures
        r is Some <==> var_close_at(s.text@, s.offset as int) is Some,
        r matches Some((rest, n)) ==> (moved_to(s, rest, frag_end(s.text@, s.offset as int)) && frag_at(
            s.text@,
            s.offset as int,
            n,
        )),
{
    let t = s.text.as_str();
    let n = t.unicode_len();
    let p = s.offset;
    if p >= n || n - p < 2 || t.get_char(p) != '{' || t.get_char(p + 1) != '{' {
        return None;
    }
    let k = match find_close_braces(t, p + 2) {
        Some(k) => k,
        None => {
            return None;
        },
    };
    let var_name = String::from_str(t.substring_char(p + 2, k));
    let end = k + 2;
    let end_pos = Span { text: s.text.clone(), offset: end };
    Some((Span { text: s.text, offset: end }, Node::Var(VarToken { end_pos, var_name })))
}

/// Parses `` `text` ``: inserts `text`, which is not empty.
pub fn parse_literal(s: Span) -> (r: Option<(Span, Node)>)
    ensures
        r is Some <==> literal_close_at(s.text@, s.offset as int) is Some,
        r matches Some((rest, n)) ==> (moved_to(s, rest, frag_end(s.text@, s.offset as int)) && frag_at(
            s.text@,
            s.offset as int,
            n,
        )),
{
    let t = s.text.as_str();
    let n = t.unicode_len();
    let p = s.offset;
    if p >= n || t.get_char(p) != '`' {
        return None;
    }
    let k = match find_backtick(t, p + 1) {
        Some(k) => k,
        None => {
            return None;
        },
    };
    if k <= p + 1 {
        return None;
    }
    let literal = String::from_str(t.substring_char(p + 1, k));
    let end = k + 1;
    let end_pos = Span { text: s.text.clone(), offset: end };
    Some((Span { text: s.text, offset: end }, Node::Literal(LiteralToken { end_pos, literal })))
}

/// Parses the fragment at the span's position, trying color, variable,
/// literal, style, no background and background in that order.
pub fn parse_frag(s: Span) -> (r: Option<(Span, Node)>)
    ensures
        r is Some <==> has_frag_at(s.text@, s.offset as int),
        r matches Some((rest, n)) ==> (moved_to(s, rest, frag_end(s.text@, s.offset as int)) && frag_at(
            s.text@,
            s.offset as int,
            n,
        )),
{
    let t = s.text.as_str();
    let p = s.offset;
    if color_fragment(t, p, '&').is_some() {
        return parse_color(s);
    }
    let n = t.unicode_len();
    let opens_var = p < n && n - p >= 2 && t.get_char(p) == '{' && t.get_char(p + 1) == '{' && find_close_braces(t, p + 2).is_some();
    if opens_var {
        return parse_var(s);
    }
    let opens_literal = p < n && t.get_char(p) == '`' && match find_backtick(t, p + 1) {
        Some(k) => k > p + 1,
        None => false,
    };
    if opens_literal {
        return parse_literal(s);
    }
    let opens_style = p < n && n - p >= 4 && t.get_char(p) == '$' && t.get_char(p + 1) == '[' && t.get_char(p + 3)
        == ']' && {
        let c = t.get_char(p + 2);
        c == 'c' || c == 'b' || c == 'd' || c == 'u' || c == 'r' || c == 'i' || c == 'l' || c == 'h' || c == 's'
    };
    if opens_style {
        return parse_style(s);
    }
    if p < n && n - p >= 3 && t.get_char(p) == '*' && t.get_char(p + 1) == '[' && t.get_char(p + 2) == ']' {
        return parse_no_bg_color(s);
    }
    parse_background_color(s)
}

/// `nodes` are the fragments that lead from position `p` to position `q`.
pub open spec fn parses_between(t: Seq<char>, p: int, q: int, nodes: Seq<Node>) -> bool
    decreases nodes.len(),
{
    if nodes.len() == 0 {
        p == q
    } else {
        has_frag_at(t, p) && frag_at(t, p, nodes[0]) && parses_between(t, frag_end(t, p), q, nodes.drop_first())
    }
}

/// From position `p` on, the fragments run into text that is none.
pub open spec fn theme_fails_from(t: Seq<char>, p: int) -> bool
    decreases t.len() - p,
{
    if p < 0 || p >= t.len() {
        false
    } else if !has_frag_at(t, p) {
        true
    } else if p < frag_end(t, p) <= t.len() {
        theme_fails_from(t, frag_end(t, p))
    } else {
        false
    }
}

proof fn lemma_parses_push(t: Seq<char>, p: int, q: int, nodes: Seq<Node>, n: Node)
    requires
        parses_between(t, p, q, nodes),
        has_frag_at(t, q),
        frag_at(t, q, n),
    ensures
        parses_between(t, p, frag_end(t, q), nodes.push(n)),
    decreases nodes.len(),
{
    assert(nodes.push(n)[0] == if nodes.len() > 0 { nodes[0] } else { n });
    if nodes.len() > 0 {
        assert(nodes.push(n).drop_first() =~= nodes.drop_first().push(n));
        lemma_parses_push(t, frag_end(t, p), q, nodes.drop_first(), n);
    } else {
        assert(nodes.push(n).drop_first() =~= Seq::<Node>::empty());
        assert(parses_between(t, frag_end(t, q), frag_end(t, q), Seq::<Node>::empty()));
        assert(p == q);
    }
}

proof fn lemma_frag_end_grows(t: Seq<char>, p: int)
    requires
        has_frag_at(t, p),
    ensures
        p < frag_end(t, p) <= t.len(),
{
    if var_close_at(t, p) is Some {
        assert(close_braces_from(t, p + 2) is Some);
        lemma_close_braces_bound(t, p + 2);
    }
    if literal_close_at(t, p) is Some {
        lemma_backtick_bound(t, p + 1);
    }
}

proof fn lemma_close_braces_bound(t: Seq<char>, from: int)
    requires
        close_braces_from(t, from) is Some,
    ensures
        from <= close_braces_from(t, from)->0 && close_braces_from(t, from)->0 + 2 <= t.len(),
    decreases t.len() - from,
{
    if !(t[from] == '}' && t[from + 1] == '}') {
        lemma_close_braces_bound(t, from + 1);
    }
}

proof fn lemma_backtick_bound(t: Seq<char>, from: int)
    requires
        backtick_from(t, from) is Some,
    ensures
        from <= backtick_from(t, from)->0 < t.len(),
    decreases t.len() - from,
{
    if t[from] != '`' {
        lemma_backtick_bound(t, from + 1);
    }
}

proof fn lemma_fails_from(t: Seq<char>, p: int, q: int, nodes: Seq<Node>)
    requires
        parses_between(t, p, q, nodes),
        theme_fails_from(t, q),
    ensures
        theme_fails_from(t, p),
    decreases nodes.len(),
{
    if nodes.len() > 0 {
        lemma_fails_from(t, frag_end(t, p), q, nodes.drop_first());
        lemma_frag_end_grows(t, p);
    }
}

/// Parses a whole template: fragments up to the end of the text.
pub fn parse_theme(s: Span) -> (r: Option<(Span, Theme)>)
    ensures
        r matches Some((rest, th)) ==> (parses_between(s.text@, s.offset as int, s.text@.len() as int, th.0@) && moved_to(
            s,
            rest,
            s.text@.len() as int,
        )),
        r is None ==> s.offset > s.text@.len() || theme_fails_from(s.text@, s.offset as int),
{
    let n = s.text.as_str().unicode_len();
    if s.offset > n {
        return None;
    }
    let ghost t = s.text@;
    let ghost start = s.offset as int;
    let mut cur = s;
    let mut nodes: Vec<Node> = Vec::new();
    while cur.offset < n
        invariant
            n == t.len(),
            t == s.text@,
            start == s.offset,
            cur.text@ == t,
            start <= cur.offset <= n,
            parses_between(t, start, cur.offset as int, nodes@),
        decreases n - cur.offset,
    {
        let ghost q = cur.offset as int;
        match parse_frag(cur) {
            Some((rest, node)) => {
                proof {
                    lemma_parses_push(t, start, q, nodes@, node);
                    lemma_frag_end_grows(t, q);
                }
                nodes.push(node);
                cur = rest;
            },
            None => {
                assert(theme_fails_from(t, q));
                proof {
                    lemma_fails_from(t, start, q, nodes@);
                }
                return None;
            },
        }
    }
    Some((cur, Theme(nodes)))
}

} // verus!
