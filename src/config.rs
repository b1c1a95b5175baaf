use vstd::prelude::*;
use vstd::string::StringSliceAdditionalSpecFns;
use crate::geometry::{Rectangle, SCALE};
use crate::keyboard::{Color, Keyboard, KeyboardElement};
use crate::scan::{field, scan_field};

verus! {

/// One line of a configuration.
#[derive(Clone, Copy, Debug, PartialEq, Eq, Structural)]
pub enum Directive {
    /// `pressed:r=..,g=..,b=..,a=..`
    Pressed(Color),
    /// `background:r=..,g=..,b=..,a=..`
    Background(Color),
    /// `key:x=..,y=..,w=..,h=..,keycode=..`, its rectangle already mapped.
    Key(Rectangle, u8),
}

/// Why a configuration was refused; line numbers count from zero.
#[derive(Clone, Copy, Debug, PartialEq, Eq, Structural)]
pub enum ConfigParseError {
    /// The line is none of the three directives, or a value in it is malformed
    /// or out of range.
    InvalidLine(usize),
    /// A second `pressed:` line.
    DuplicatePressed(usize),
    /// A second `background:` line.
    DuplicateBackground(usize),
    MissingPressed,
    MissingBackground,
    /// No `key:` line gave a region that fits the canvas.
    NoKeys,
}

/// A parsed configuration: the keyboard with its regions, none pressed, and
/// the `key:` lines that were skipped because their rectangle leaves the canvas.
pub struct Config {
    pub keyboard: Keyboard,
    pub skipped: Vec<usize>,
}

/// The four channels of a color line whose first label is `first`.
pub open spec fn color_fields(l: Seq<u8>, first: Seq<u8>) -> Option<Color> {
    match field(l, 0, first, false, 0, 255) {
        Some((r, p1)) => match field(l, p1, ",g=".spec_bytes(), false, 0, 255) {
            Some((g, p2)) => match field(l, p2, ",b=".spec_bytes(), false, 0, 255) {
                Some((b, p3)) => match field(l, p3, ",a=".spec_bytes(), false, 0, 255) {
                    Some((a, p4)) => if p4 == l.len() {
                        Some(Color(r as u8, g as u8, b as u8, a as u8))
                    } else {
                        None
                    },
                    None => None,
                },
                None => None,
            },
            None => None,
        },
        None => None,
    }
}

/// The rectangle that a `key:` line with these values maps to.
pub open spec fn key_rect(x: int, y: int, w: int, h: int) -> Rectangle {
    Rectangle { x: (x - SCALE) as i64, y: (y - SCALE) as i64, w: w as i64, h: h as i64 }
}

pub open spec fn i32_field(l: Seq<u8>, p: int, label: Seq<u8>) -> Option<(int, int)> {
    field(l, p, label, true, i32::MIN as int, i32::MAX as int)
}

/// The directive of a `key:` line: four signed 32-bit values and a code in `0..=247`.
pub open spec fn key_fields(l: Seq<u8>) -> Option<Directive> {
    match i32_field(l, 0, "key:x=".spec_bytes()) {
        Some((x, p1)) => match i32_field(l, p1, ",y=".spec_bytes()) {
            Some((y, p2)) => match i32_field(l, p2, ",w=".spec_bytes()) {
                Some((w, p3)) => match i32_field(l, p3, ",h=".spec_bytes()) {
                    Some((h, p4)) => match field(l, p4, ",keycode=".spec_bytes(), false, 0, 247) {
                        Some((c, p5)) => if p5 == l.len() {
                            Some(Directive::Key(key_rect(x, y, w, h), c as u8))
                        } else {
                            None
                        },
                        None => None,
                    },
                    None => None,
                },
                None => None,
            },
            None => None,
        },
        None => None,
    }
}

/// What a configuration line says, if it is well formed.
pub open spec fn line_directive(l: Seq<u8>) -> Option<Directive> {
    match color_fields(l, "pressed:r=".spec_bytes()) {
        Some(c) => Some(Directive::Pressed(c)),
        None => match color_fields(l, "background:r=".spec_bytes()) {
            Some(c) => Some(Directive::Background(c)),
            None => key_fields(l),
        },
    }
}

/// The colors and regions gathered from the lines so far, and the lines skipped.
pub type Gathered = (Option<Color>, Option<Color>, Seq<(Rectangle, u8)>, Seq<usize>);

/// Reads the lines in order; the first malformed or duplicate line ends it.
pub open spec fn gather(ls: Seq<Seq<u8>>) -> Result<Gathered, ConfigParseError>
    decreases ls.len(),
{
    if ls.len() == 0 {
        Ok((None, None, Seq::empty(), Seq::empty()))
    } else {
        let i = (ls.len() - 1) as usize;
        match gather(ls.drop_last()) {
            Err(e) => Err(e),
            Ok((p, b, rs, sk)) => match line_directive(ls.last()) {
                None => Err(ConfigParseError::InvalidLine(i)),
                Some(Directive::Pressed(c)) => if p is Some {
                    Err(ConfigParseError::DuplicatePressed(i))
                } else {
                    Ok((Some(c), b, rs, sk))
                },
                Some(Directive::Background(c)) => if b is Some {
                    Err(ConfigParseError::DuplicateBackground(i))
                } else {
                    Ok((p, Some(c), rs, sk))
                },
                Some(Directive::Key(r, code)) => if r.within_canvas() {
                    Ok((p, b, rs.push((r, code)), sk))
                } else {
                    Ok((p, b, rs, sk.push(i)))
                },
            },
        }
    }
}

/// The outcome of a whole configuration: pressed color, background color,
/// regions and skipped lines, or the reason it is refused.
pub open spec fn config_of(ls: Seq<Seq<u8>>) -> Result<
    (Color, Color, Seq<(Rectangle, u8)>, Seq<usize>),
    ConfigParseError,
> {
    match gather(ls) {
        Err(e) => Err(e),
        Ok((p, b, rs, sk)) => match p {
            None => Err(ConfigParseError::MissingPressed),
            Some(pc) => match b {
                None => Err(ConfigParseError::MissingBackground),
                Some(bc) => if rs.len() == 0 {
                    Err(ConfigParseError::NoKeys)
                } else {
                    Ok((pc, bc, rs, sk))
                },
            },
        },
    }
}

/// The elements are the given regions, each bound to its one code and not pressed.
pub open spec fn elements_are(es: Seq<KeyboardElement>, rs: Seq<(Rectangle, u8)>) -> bool {
    &&& es.len() == rs.len()
    &&& forall|i: int|
        0 <= i < es.len() ==> {
            &&& !(#[trigger] es[i]).pressed
            &&& es[i].area == rs[i].0
            &&& es[i].keys@ == seq![rs[i].1]
            &&& es[i].wf()
        }
}

/// `r` is what the lines `ls` configure.
pub open spec fn parsed_as(r: Result<Config, ConfigParseError>, ls: Seq<Seq<u8>>) -> bool {
    match r {
        Ok(c) => match config_of(ls) {
            Ok((p, b, rs, sk)) => {
                &&& c.keyboard.pressed == p
                &&& c.keyboard.background == b
                &&& c.keyboard.wf()
                &&& elements_are(c.keyboard.keys@, rs)
                &&& c.skipped@ == sk
            },
            Err(_) => false,
        },
        Err(e) => config_of(ls) == Err::<(Color, Color, Seq<(Rectangle, u8)>, Seq<usize>), _>(e),
    }
}

/// Reads a color line whose first label is `first`.
fn parse_color(l: &[u8], first: &str) -> (r: Option<Color>)
    ensures
        r == color_fields(l@, first.spec_bytes()),
{
    let (r, p1) = match scan_field(l, 0, first.as_bytes(), false, 0, 255) {
        Some(t) => t,
        None => return None,
    };
    let (g, p2) = match scan_field(l, p1, ",g=".as_bytes(), false, 0, 255) {
        Some(t) => t,
        None => return None,
    };
    let (b, p3) = match scan_field(l, p2, ",b=".as_bytes(), false, 0, 255) {
        Some(t) => t,
        None => return None,
    };
    let (a, p4) = match scan_field(l, p3, ",a=".as_bytes(), false, 0, 255) {
        Some(t) => t,
        None => return None,
    };
    if p4 == l.len() {
        Some(Color(r as u8, g as u8, b as u8, a as u8))
    } else {
        None
    }
}

/// Reads a signed 32-bit field.
fn parse_i32_field(l: &[u8], p: usize, label: &str) -> (r: Option<(i32, usize)>)
    requires
        p <= l@.len(),
    ensures
        match r {
            Some((v, e)) => i32_field(l@, p as int, label.spec_bytes()) == Some(
                (v as int, e as int),
            ) && e <= l@.len(),
            None => i32_field(l@, p as int, label.spec_bytes()) is None,
        },
{
    match scan_field(l, p, label.as_bytes(), true, i32::MIN as i64, i32::MAX as i64) {
        Some((v, e)) => Some((v as i32, e)),
        None => None,
    }
}

/// Reads a `key:` line.
fn parse_key(l: &[u8]) -> (r: Option<Directive>)
    ensures
        r == key_fields(l@),
{
    let (x, p1) = match parse_i32_field(l, 0, "key:x=") {
        Some(t) => t,
        None => return None,
    };
    let (y, p2) = match parse_i32_field(l, p1, ",y=") {
        Some(t) => t,
        None => return None,
    };
    let (w, p3) = match parse_i32_field(l, p2, ",w=") {
        Some(t) => t,
        None => return None,
    };
    let (h, p4) = match parse_i32_field(l, p3, ",h=") {
        Some(t) => t,
        None => return None,
    };
    let (c, p5) = match scan_field(l, p4, ",keycode=".as_bytes(), false, 0, 247) {
        Some(t) => t,
        None => return None,
    };
    if p5 == l.len() {
        Some(Directive::Key(Rectangle::new(x, y, w, h), c as u8))
    } else {
        None
    }
}

/// Reads one configuration line.
pub fn parse_line(l: &[u8]) -> (r: Option<Directive>)
    ensures
        r == line_directive(l@),
{
    if let Some(c) = parse_color(l, "pressed:r=") {
        return Some(Directive::Pressed(c));
    }
    if let Some(c) = parse_color(l, "background:r=") {
        return Some(Directive::Background(c));
    }
    parse_key(l)
}

/// Once the lines read so far are refused, so is every longer configuration.
proof fn lemma_refusal_sticks(ls: Seq<Seq<u8>>, k: int)
    requires
        0 <= k <= ls.len(),
        gather(ls.take(k)) is Err,
    ensures
        gather(ls) == gather(ls.take(k)),
    decreases ls.len() - k,
{
    if k < ls.len() {
        assert(ls.take(k + 1).drop_last() =~= ls.take(k));
        lemma_refusal_sticks(ls, k + 1);
    } else {
        assert(ls.take(k) =~= ls);
    }
}

/// Builds the keyboard that the configuration lines describe.
pub fn parse_lines(lines: &Vec<Vec<u8>>) -> (r: Result<Config, ConfigParseError>)
    ensures
        parsed_as(r, lines.deep_view()),
{
    let ghost ls = lines.deep_view();
    let mut pressed: Option<Color> = None;
    let mut background: Option<Color> = None;
    let mut regions: Vec<KeyboardElement> = Vec::new();
    let mut skipped: Vec<usize> = Vec::new();
    let ghost mut rs: Seq<(Rectangle, u8)> = Seq::empty();
    let mut i: usize = 0;
    assert(ls.take(0) =~= Seq::<Seq<u8>>::empty());
    while i < lines.len()
        invariant
            ls == lines.deep_view(),
            i <= lines@.len(),
            gather(ls.take(i as int)) == Ok::<Gathered, ConfigParseError>(
                (pressed, background, rs, skipped@),
            ),
            elements_are(regions@, rs),
        decreases lines@.len() - i,
    {
        assert(ls.take(i + 1).drop_last() =~= ls.take(i as int));
        assert(ls.take(i + 1).last() == lines@[i as int]@);
        let d = parse_line(lines[i].as_slice());
        match d {
            None => {
                proof {
                    lemma_refusal_sticks(ls, i + 1);
                }
                return Err(ConfigParseError::InvalidLine(i));
            },
            Some(Directive::Pressed(c)) => {
                if pressed.is_some() {
                    proof {
                        lemma_refusal_sticks(ls, i + 1);
                    }
                    return Err(ConfigParseError::DuplicatePressed(i));
                }
                pressed = Some(c);
            },
            Some(Directive::Background(c)) => {
                if background.is_some() {
                    proof {
                        lemma_refusal_sticks(ls, i + 1);
                    }
                    return Err(ConfigParseError::DuplicateBackground(i));
                }
                background = Some(c);
            },
            Some(Directive::Key(area, code)) => {
                if area.in_canvas() {
                    let codes = vec![code];
                    assert(codes@ == seq![code]);
                    assert(crate::keyboard::valid_codes(codes@));
                    regions.push(KeyboardElement::new(area, codes));
                    proof {
                        rs = rs.push((area, code));
                    }
                } else {
                    skipped.push(i);
                }
            },
        }
        i = i + 1;
    }
    assert(ls.take(i as int) =~= ls);
    let p = match pressed {
        Some(c) => c,
        None => return Err(ConfigParseError::MissingPressed),
    };
    let b = match background {
        Some(c) => c,
        None => return Err(ConfigParseError::MissingBackground),
    };
    if regions.len() == 0 {
        return Err(ConfigParseError::NoKeys);
    }
    Ok(Config { keyboard: Keyboard { keys: regions, background: b, pressed: p }, skipped })
}

/// The lines of a text as `str::lines` splits them, each as its UTF-8 bytes.
pub uninterp spec fn lines_of(s: Seq<char>) -> Seq<Seq<u8>>;

/// Relies on str::lines: splits at each `\n`, drops a `\r` before it and
/// gives no empty last line for a text that ends in a newline.
#[verifier::external_body]
fn split_lines(text: &str) -> (r: Vec<Vec<u8>>)
    ensures
        r.deep_view() == lines_of(text@),
{
    text.lines().map(|l| l.as_bytes().to_vec()).collect()
}

/// Builds the keyboard that a configuration text describes.
pub fn parse_config(text: &str) -> (r: Result<Config, ConfigParseError>)
    ensures
        parsed_as(r, lines_of(text@)),
{
    let lines = split_lines(text);
    parse_lines(&lines)
}

} // verus!
