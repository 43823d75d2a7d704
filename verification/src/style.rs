//! Colours and text attributes, and the Select-Graphic-Rendition sequences
//! that set them.

use vstd::prelude::*;
use crate::text::{
    ESC, chars_of, decimal, is_digit, parse_decimal, parse_number, push_decimal, string_of,
};

verus! {

/// Why a control sequence could not be applied.
#[derive(Clone, Copy, Debug, PartialEq, Eq, Structural)]
pub enum TerminalError {
    /// The sequence is not of the expected form, or one of its parameters
    /// lacks a value it needs.
    MalformedEscape,
}

#[derive(Eq, PartialEq, Debug, Copy, Clone, Structural)]
pub enum Color {
    Black,
    Red,
    Green,
    Yellow,
    Blue,
    Magenta,
    Cyan,
    White,
    /// One of the 256 palette colours.
    TWOFIFTYSIX(u8),
    RGB(u8, u8, u8),
}

/// The attributes under which text is drawn.
#[derive(Copy, Clone, Eq, PartialEq, Debug, Structural)]
pub struct PrintStyle {
    pub foreground: Color,
    pub background: Color,
    pub italicized: bool,
    pub underline: bool,
    pub blink: bool,
    pub bold: bool,
    pub invert: bool,
}

impl Color {
    /// The basic colour that an SGR code in one of the ranges 30-37, 40-47,
    /// 90-97 and 100-107 selects: it goes by the code's last digit.
    pub open spec fn basic(base: u8) -> Color {
        let d = base % 10;
        if d == 0 {
            Color::Black
        } else if d == 1 {
            Color::Red
        } else if d == 2 {
            Color::Green
        } else if d == 3 {
            Color::Yellow
        } else if d == 4 {
            Color::Blue
        } else if d == 5 {
            Color::Magenta
        } else if d == 6 {
            Color::Cyan
        } else {
            Color::White
        }
    }

    /// Whether this is one of the eight basic colours.
    pub open spec fn is_basic(self) -> bool {
        !(self is TWOFIFTYSIX) && !(self is RGB)
    }

    /// The place of a basic colour among the eight, and 255 for the others.
    pub open spec fn offset(self) -> u8 {
        match self {
            Color::Black => 0,
            Color::Red => 1,
            Color::Green => 2,
            Color::Yellow => 3,
            Color::Blue => 4,
            Color::Magenta => 5,
            Color::Cyan => 6,
            Color::White => 7,
            _ => 255,
        }
    }

    /// The colour that the parameters after a 38 or a 48 select, and how many
    /// of them it takes: `5;n` is palette colour `n`, `2;r;g;b` an RGB colour.
    pub open spec fn extended(args: Seq<u8>) -> Option<(Color, int)> {
        if args.len() >= 2 && args[0] == 5 {
            Some((Color::TWOFIFTYSIX(args[1]), 2))
        } else if args.len() >= 4 && args[0] == 2 {
            Some((Color::RGB(args[1], args[2], args[3]), 4))
        } else {
            None
        }
    }

    /// The SGR parameters that select this colour, where `base` is the code
    /// of basic colour 0 and `selector` the code that announces an extended
    /// colour.
    pub open spec fn codes(self, base: u8, selector: u8) -> Seq<u8> {
        match self {
            Color::TWOFIFTYSIX(n) => seq![selector, 5u8, n],
            Color::RGB(r, g, b) => seq![selector, 2u8, r, g, b],
            c => seq![(base + c.offset()) as u8],
        }
    }

    /// The basic colour that the SGR code `base` selects, see [`Color::basic`].
    pub fn eight_color(base: u8) -> (c: Color)
        ensures
            c == Color::basic(base),
            c.is_basic(),
    {
        match base % 10 {
            0 => Color::Black,
            1 => Color::Red,
            2 => Color::Green,
            3 => Color::Yellow,
            4 => Color::Blue,
            5 => Color::Magenta,
            6 => Color::Cyan,
            _ => Color::White,
        }
    }

    /// The place of a basic colour among the eight, and 255 for the others.
    pub fn to_offset(&self) -> (n: u8)
        ensures
            n == self.offset(),
            self.is_basic() <==> n < 8,
    {
        match self {
            Color::Black => 0,
            Color::Red => 1,
            Color::Green => 2,
            Color::Yellow => 3,
            Color::Blue => 4,
            Color::Magenta => 5,
            Color::Cyan => 6,
            Color::White => 7,
            _ => 255,
        }
    }

    /// Takes an extended colour from the front of `args`. Where the
    /// parameters do not make one, `args` is left as it was.
    pub fn extended_color(args: &mut Vec<u8>) -> (r: Result<Color, TerminalError>)
        ensures
            match Color::extended(old(args)@) {
                Some((c, used)) => r == Ok::<Color, TerminalError>(c) && final(args)@ == old(args)@.skip(used),
                None => r == Err::<Color, TerminalError>(TerminalError::MalformedEscape) && final(args)@ == old(args)@,
            },
    {
        if args.len() >= 2 && args[0] == 5 {
            let n = args[1];
            args.remove(0);
            args.remove(0);
            assert(args@ =~= old(args)@.skip(2));
            Ok(Color::TWOFIFTYSIX(n))
        } else if args.len() >= 4 && args[0] == 2 {
            let r = args[1];
            let g = args[2];
            let b = args[3];
            args.remove(0);
            args.remove(0);
            args.remove(0);
            args.remove(0);
            assert(args@ =~= old(args)@.skip(4));
            Ok(Color::RGB(r, g, b))
        } else {
            Err(TerminalError::MalformedEscape)
        }
    }
}

/// The parameters of a sequence, written out: decimal numbers with `;`
/// between them.
pub open spec fn join_codes(codes: Seq<u8>) -> Seq<char>
    decreases codes.len(),
{
    if codes.len() == 0 {
        Seq::empty()
    } else if codes.len() == 1 {
        decimal(codes[0] as nat)
    } else {
        join_codes(codes.drop_last()) + seq![';'] + decimal(codes.last() as nat)
    }
}

/// The SGR sequence with the parameters `codes`: `ESC [ c0 ; c1 ; .. m`.
pub open spec fn sgr(codes: Seq<u8>) -> Seq<char> {
    seq![ESC, '['] + join_codes(codes) + seq!['m']
}

/// The characters of all the `pieces`, one piece after the other.
pub open spec fn concat_all(pieces: Seq<Seq<char>>) -> Seq<char>
    decreases pieces.len(),
{
    if pieces.len() == 0 {
        Seq::empty()
    } else {
        concat_all(pieces.drop_last()) + pieces.last()
    }
}

/// Whether `c` may stand among the parameters of an SGR sequence.
pub open spec fn is_param_char(c: char) -> bool {
    is_digit(c) || c == ';'
}

/// Whether `raw` has the frame of an SGR sequence: `ESC [` in front and `m`
/// at the end.
pub open spec fn sgr_frame(raw: Seq<char>) -> bool {
    raw.len() >= 3 && raw[0] == ESC && raw[1] == '[' && raw.last() == 'm'
}

/// What stands between the frame of an SGR sequence, without the `%` that
/// may stand before the `m`.
pub open spec fn sgr_param_text(raw: Seq<char>) -> Seq<char>
    recommends
        sgr_frame(raw),
{
    let inner = raw.subrange(2, raw.len() - 1);
    if inner.len() > 0 && inner.last() == '%' {
        inner.drop_last()
    } else {
        inner
    }
}

/// The parameter text of an SGR sequence `ESC [ .. m`, in which a `%` may
/// stand before the `m`; nothing where `raw` is not such a sequence.
pub open spec fn sgr_body(raw: Seq<char>) -> Option<Seq<char>> {
    let body = sgr_param_text(raw);
    if sgr_frame(raw) && forall|i: int| 0 <= i < body.len() ==> is_param_char(#[trigger] body[i]) {
        Some(body)
    } else {
        None
    }
}

/// What the field `body[from..to]` adds to the parameters: its value where
/// it is a number up to 255, and nothing otherwise.
pub open spec fn field_value(body: Seq<char>, from: int, to: int) -> Seq<u8> {
    match parse_number(body.subrange(from, to), 255) {
        Some(n) => seq![n as u8],
        None => Seq::empty(),
    }
}

/// The parameters that are read from position `i` of `body` on, when the
/// field that `i` lies in started at `field_start`.
pub open spec fn params_scan(body: Seq<char>, i: int, field_start: int) -> Seq<u8>
    decreases body.len() - i,
{
    if i >= body.len() {
        field_value(body, field_start, body.len() as int)
    } else if body[i] == ';' {
        field_value(body, field_start, i) + params_scan(body, i + 1, i + 1)
    } else {
        params_scan(body, i + 1, field_start)
    }
}

/// The numeric parameters of a parameter text: its fields between `;`, in
/// order, without those that are no number up to 255.
pub open spec fn sgr_params(body: Seq<char>) -> Seq<u8> {
    params_scan(body, 0, 0)
}

impl PrintStyle {
    /// White on black, no attribute set.
    pub open spec fn initial() -> PrintStyle {
        PrintStyle {
            foreground: Color::White,
            background: Color::Black,
            italicized: false,
            underline: false,
            blink: false,
            bold: false,
            invert: false,
        }
    }

    /// The style after one SGR parameter that is neither 38 nor 48. A code
    /// that is not listed changes nothing.
    pub open spec fn apply_code(self, code: u8) -> PrintStyle {
        if code == 0 {
            PrintStyle::initial()
        } else if code == 1 {
            PrintStyle { bold: true, ..self }
        } else if code == 2 || code == 22 {
            PrintStyle { bold: false, ..self }
        } else if code == 3 {
            PrintStyle { italicized: true, ..self }
        } else if code == 23 {
            PrintStyle { italicized: false, ..self }
        } else if code == 4 {
            PrintStyle { underline: true, ..self }
        } else if code == 24 {
            PrintStyle { underline: false, ..self }
        } else if code == 5 {
            PrintStyle { blink: true, ..self }
        } else if code == 25 {
            PrintStyle { blink: false, ..self }
        } else if code == 7 {
            PrintStyle { invert: true, ..self }
        } else if code == 27 {
            PrintStyle { invert: false, ..self }
        } else if 30 <= code <= 37 {
            PrintStyle { foreground: Color::basic(code), ..self }
        } else if code == 39 {
            PrintStyle { foreground: Color::White, ..self }
        } else if 40 <= code <= 47 {
            PrintStyle { background: Color::basic(code), ..self }
        } else if code == 49 {
            PrintStyle { background: Color::Black, ..self }
        } else if 90 <= code <= 97 {
            PrintStyle { foreground: Color::basic(code), bold: true, ..self }
        } else if 100 <= code <= 107 {
            PrintStyle { background: Color::basic(code), bold: true, ..self }
        } else {
            self
        }
    }

    /// The style after the parameters `params`, applied from the left. A 38
    /// or 48 takes the parameters of its colour with it; where they are
    /// missing or malformed there is no result.
    pub open spec fn apply_params(self, params: Seq<u8>) -> Option<PrintStyle>
        decreases params.len(),
    {
        if params.len() == 0 {
            Some(self)
        } else if params[0] == 38 || params[0] == 48 {
            match Color::extended(params.skip(1)) {
                Some((c, used)) => {
                    let next = if params[0] == 38 {
                        PrintStyle { foreground: c, ..self }
                    } else {
                        PrintStyle { background: c, ..self }
                    };
                    next.apply_params(params.skip(1 + used))
                },
                None => None,
            }
        } else {
            self.apply_code(params[0]).apply_params(params.skip(1))
        }
    }

    /// The style after the SGR sequence `raw`. A sequence without numeric
    /// parameters resets the style. There is no result where `raw` is no SGR
    /// sequence or an extended colour in it is malformed.
    pub open spec fn apply_sgr(self, raw: Seq<char>) -> Option<PrintStyle> {
        match sgr_body(raw) {
            None => None,
            Some(body) => {
                let params = sgr_params(body);
                if params.len() == 0 {
                    Some(PrintStyle::initial())
                } else {
                    self.apply_params(params)
                }
            },
        }
    }

    /// The style after the SGR sequences `pieces`, applied one after the
    /// other; nothing if one of them cannot be applied.
    pub open spec fn replay(self, pieces: Seq<Seq<char>>) -> Option<PrintStyle>
        decreases pieces.len(),
    {
        if pieces.len() == 0 {
            Some(self)
        } else {
            match self.replay(pieces.drop_last()) {
                Some(s) => s.apply_sgr(pieces.last()),
                None => None,
            }
        }
    }

    /// The parameters that select the foreground colour. A basic colour is
    /// written with its bright code where the style is bold.
    pub open spec fn fg_codes(self) -> Seq<u8> {
        self.foreground.codes(
            if self.bold {
                90
            } else {
                30
            },
            38,
        )
    }

    /// The parameters that select the background colour. A basic colour is
    /// written with its bright code where the style is bold.
    pub open spec fn bg_codes(self) -> Seq<u8> {
        self.background.codes(
            if self.bold {
                100
            } else {
                40
            },
            48,
        )
    }

    /// Whether a terminal in style `self` is bold after the colour sequences
    /// of the change to `other`: a bright colour code sets bold with it.
    pub open spec fn bold_after_colors(self, other: PrintStyle) -> bool {
        self.bold || (other.bold && ((self.foreground != other.foreground
            && other.foreground.is_basic()) || (self.background != other.background
            && other.background.is_basic())))
    }

    /// The SGR sequences that take a terminal from style `self` to style
    /// `other`, in the order in which they are written: foreground,
    /// background, bold, underline, blink, italics, invert, each only where
    /// it has to change.
    pub open spec fn diff_sequences(self, other: PrintStyle) -> Seq<Seq<char>> {
        let p0 = Seq::<Seq<char>>::empty();
        let p1 = push_when(p0, self.foreground != other.foreground, other.fg_codes());
        let p2 = push_when(p1, self.background != other.background, other.bg_codes());
        let p3 = push_when(
            p2,
            self.bold_after_colors(other) != other.bold,
            seq![flag_code(other.bold, 1, 22)],
        );
        let p4 = push_when(
            p3,
            self.underline != other.underline,
            seq![flag_code(other.underline, 4, 24)],
        );
        let p5 = push_when(p4, self.blink != other.blink, seq![flag_code(other.blink, 5, 25)]);
        let p6 = push_when(
            p5,
            self.italicized != other.italicized,
            seq![flag_code(other.italicized, 3, 23)],
        );
        push_when(p6, self.invert != other.invert, seq![flag_code(other.invert, 7, 27)])
    }

    /// The text that takes a terminal from style `self` to style `other`.
    pub open spec fn diff_text(self, other: PrintStyle) -> Seq<char> {
        concat_all(self.diff_sequences(other))
    }

    /// The text that takes a terminal from the initial style to this one.
    pub open spec fn sgr_text(self) -> Seq<char> {
        PrintStyle::initial().diff_text(self)
    }

    /// The text that takes a terminal from style `self` to style `other`,
    /// see [`PrintStyle::diff_sequences`]. It is empty where the two are the
    /// same style.
    pub fn diff_str(&self, other: &PrintStyle) -> (out: String)
        ensures
            out@ == self.diff_text(*other),
    {
        let mut buf: Vec<char> = Vec::new();
        self.push_diff(other, &mut buf);
        string_of(&buf)
    }

    /// Appends to `out` what `diff_str` returns.
    pub fn push_diff(&self, other: &PrintStyle, out: &mut Vec<char>)
        ensures
            final(out)@ == old(out)@ + self.diff_text(*other),
    {
        let ghost start = out@;
        let ghost p0 = Seq::<Seq<char>>::empty();
        assert(out@ =~= start + concat_all(p0));
        let fg = other.foreground_codes();
        let bg = other.background_codes();
        let fg_changes = self.foreground != other.foreground;
        let bg_changes = self.background != other.background;
        let bold_now = self.bold || (other.bold && ((fg_changes && other.foreground.to_offset() < 8)
            || (bg_changes && other.background.to_offset() < 8)));
        push_sgr_when(out, fg_changes, &fg, Ghost(start), Ghost(p0));
        let ghost p1 = push_when(p0, fg_changes, fg@);
        push_sgr_when(out, bg_changes, &bg, Ghost(start), Ghost(p1));
        let ghost p2 = push_when(p1, bg_changes, bg@);
        push_flag_when(out, bold_now != other.bold, other.bold, 1, 22, Ghost(start), Ghost(p2));
        let ghost p3 = push_when(p2, bold_now != other.bold, seq![flag_code(other.bold, 1, 22)]);
        push_flag_when(
            out,
            self.underline != other.underline,
            other.underline,
            4,
            24,
            Ghost(start),
            Ghost(p3),
        );
        let ghost p4 = push_when(
            p3,
            self.underline != other.underline,
            seq![flag_code(other.underline, 4, 24)],
        );
        push_flag_when(out, self.blink != other.blink, other.blink, 5, 25, Ghost(start), Ghost(p4));
        let ghost p5 = push_when(
            p4,
            self.blink != other.blink,
            seq![flag_code(other.blink, 5, 25)],
        );
        push_flag_when(
            out,
            self.italicized != other.italicized,
            other.italicized,
            3,
            23,
            Ghost(start),
            Ghost(p5),
        );
        let ghost p6 = push_when(
            p5,
            self.italicized != other.italicized,
            seq![flag_code(other.italicized, 3, 23)],
        );
        push_flag_when(
            out,
            self.invert != other.invert,
            other.invert,
            7,
            27,
            Ghost(start),
            Ghost(p6),
        );
    }

    /// The SGR sequences that bring a terminal in the initial style to this
    /// one.
    pub fn to_str(&self) -> (out: String)
        ensures
            out@ == self.sgr_text(),
    {
        PrintStyle::default().diff_str(self)
    }

    /// The SGR sequence that selects the background colour.
    pub fn background_string(&self) -> (out: String)
        ensures
            out@ == sgr(self.bg_codes()),
    {
        let mut buf: Vec<char> = Vec::new();
        let codes = self.background_codes();
        push_sgr(&mut buf, &codes);
        string_of(&buf)
    }

    /// The SGR sequence that selects the foreground colour.
    pub fn foreground_string(&self) -> (out: String)
        ensures
            out@ == sgr(self.fg_codes()),
    {
        let mut buf: Vec<char> = Vec::new();
        let codes = self.foreground_codes();
        push_sgr(&mut buf, &codes);
        string_of(&buf)
    }

    fn background_codes(&self) -> (codes: Vec<u8>)
        ensures
            codes@ == self.bg_codes(),
    {
        let base: u8 = if self.bold { 100 } else { 40 };
        color_codes(self.background, base, 48)
    }

    fn foreground_codes(&self) -> (codes: Vec<u8>)
        ensures
            codes@ == self.fg_codes(),
    {
        let base: u8 = if self.bold { 90 } else { 30 };
        color_codes(self.foreground, base, 38)
    }

    /// Back to the initial style. Never fails.
    pub fn reset(&mut self) -> (r: Result<(), TerminalError>)
        ensures
            r is Ok,
            *final(self) == PrintStyle::initial(),
    {
        *self = PrintStyle::default();
        Ok(())
    }

    /// Applies the SGR sequence `s`. Where it cannot be applied the style
    /// stays as it was.
    pub fn apply_vt100(&mut self, s: &str) -> (r: Result<(), TerminalError>)
        ensures
            match old(self).apply_sgr(s@) {
                Some(style) => r is Ok && *final(self) == style,
                None => r == Err::<(), TerminalError>(TerminalError::MalformedEscape) && *final(self) == *old(self),
            },
    {
        let raw = chars_of(s);
        match read_sgr_params(&raw) {
            None => Err(TerminalError::MalformedEscape),
            Some(params) => {
                if params.len() == 0 {
                    *self = PrintStyle::default();
                    Ok(())
                } else {
                    match self.with_params(&params) {
                        Some(style) => {
                            *self = style;
                            Ok(())
                        },
                        None => Err(TerminalError::MalformedEscape),
                    }
                }
            },
        }
    }

    /// The style after one parameter that is neither 38 nor 48.
    fn with_code(&self, code: u8) -> (r: PrintStyle)
        ensures
            r == self.apply_code(code),
    {
        let mut s = *self;
        if code == 0 {
            s = PrintStyle::default();
        } else if code == 1 {
            s.bold = true;
        } else if code == 2 || code == 22 {
            s.bold = false;
        } else if code == 3 {
            s.italicized = true;
        } else if code == 23 {
            s.italicized = false;
        } else if code == 4 {
            s.underline = true;
        } else if code == 24 {
            s.underline = false;
        } else if code == 5 {
            s.blink = true;
        } else if code == 25 {
            s.blink = false;
        } else if code == 7 {
            s.invert = true;
        } else if code == 27 {
            s.invert = false;
        } else if 30 <= code && code <= 37 {
            s.foreground = Color::eight_color(code);
        } else if code == 39 {
            s.foreground = Color::White;
        } else if 40 <= code && code <= 47 {
            s.background = Color::eight_color(code);
        } else if code == 49 {
            s.background = Color::Black;
        } else if 90 <= code && code <= 97 {
            s.foreground = Color::eight_color(code);
            s.bold = true;
        } else if 100 <= code && code <= 107 {
            s.background = Color::eight_color(code);
            s.bold = true;
        }
        s
    }

    /// The style after the parameters `params`, see [`PrintStyle::apply_params`].
    fn with_params(&self, params: &Vec<u8>) -> (r: Option<PrintStyle>)
        ensures
            r == self.apply_params(params@),
    {
        let mut style = *self;
        let mut i: usize = 0;
        assert(params@.skip(0) =~= params@);
        while i < params.len()
            invariant
                i <= params.len(),
                self.apply_params(params@) == style.apply_params(params@.skip(i as int)),
            decreases params.len() - i,
        {
            let ghost rest = params@.skip(i as int);
            let code = params[i];
            assert(rest[0] == code);
            if code == 38 || code == 48 {
                let n = params.len() - i - 1;
                assert(rest.skip(1) =~= params@.skip(i + 1));
                let color;
                let used: usize;
                if n >= 2 && params[i + 1] == 5 {
                    color = Color::TWOFIFTYSIX(params[i + 2]);
                    used = 2;
                } else if n >= 4 && params[i + 1] == 2 {
                    color = Color::RGB(params[i + 2], params[i + 3], params[i + 4]);
                    used = 4;
                } else {
                    return None;
                }
                assert(Color::extended(rest.skip(1)) == Some((color, used as int)));
                if code == 38 {
                    style.foreground = color;
                } else {
                    style.background = color;
                }
                assert(rest.skip(1 + used) =~= params@.skip(i + 1 + used));
                i = i + 1 + used;
            } else {
                style = style.with_code(code);
                assert(rest.skip(1) =~= params@.skip(i + 1));
                i = i + 1;
            }
        }
        assert(params@.skip(i as int).len() == 0);
        Some(style)
    }
}

impl Default for PrintStyle {
    fn default() -> (s: PrintStyle)
        ensures
            s == PrintStyle::initial(),
    {
        PrintStyle {
            foreground: Color::White,
            background: Color::Black,
            italicized: false,
            underline: false,
            invert: false,
            blink: false,
            bold: false,
        }
    }
}

/// The text of one more piece goes behind the text of the pieces before it.
pub proof fn lemma_concat_push(pieces: Seq<Seq<char>>, piece: Seq<char>)
    ensures
        concat_all(pieces.push(piece)) == concat_all(pieces) + piece,
{
    assert(pieces.push(piece).drop_last() =~= pieces);
}

/// Appends the SGR sequence with the parameters `codes` to `out`.
fn push_sgr(out: &mut Vec<char>, codes: &Vec<u8>)
    ensures
        final(out)@ == old(out)@ + sgr(codes@),
{
    out.push(ESC);
    out.push('[');
    let mut i: usize = 0;
    while i < codes.len()
        invariant
            i <= codes.len(),
            out@ == old(out)@ + seq![ESC, '['] + join_codes(codes@.take(i as int)),
        decreases codes.len() - i,
    {
        let ghost before = join_codes(codes@.take(i as int));
        if i > 0 {
            out.push(';');
        }
        push_decimal(out, codes[i] as u32);
        proof {
            let next = codes@.take(i + 1);
            assert(next.drop_last() =~= codes@.take(i as int));
            assert(next.last() == codes[i as int]);
            assert(out@ =~= old(out)@ + seq![ESC, '['] + join_codes(next));
        }
        i += 1;
    }
    out.push('m');
    assert(codes@.take(codes.len() as int) =~= codes@);
    assert(out@ =~= old(out)@ + sgr(codes@));
}

/// `pieces`, with the SGR sequence of `codes` behind them where `cond` holds.
pub open spec fn push_when(pieces: Seq<Seq<char>>, cond: bool, codes: Seq<u8>) -> Seq<Seq<char>> {
    if cond {
        pieces.push(sgr(codes))
    } else {
        pieces
    }
}

/// The SGR parameter that switches an attribute on or off.
pub open spec fn flag_code(on: bool, code_on: u8, code_off: u8) -> u8 {
    if on {
        code_on
    } else {
        code_off
    }
}

/// Appends the SGR sequence of `codes` to `out` where `cond` holds.
fn push_sgr_when(
    out: &mut Vec<char>,
    cond: bool,
    codes: &Vec<u8>,
    Ghost(start): Ghost<Seq<char>>,
    Ghost(pieces): Ghost<Seq<Seq<char>>>,
)
    requires
        old(out)@ == start + concat_all(pieces),
    ensures
        final(out)@ == start + concat_all(push_when(pieces, cond, codes@)),
{
    if cond {
        push_sgr(out, codes);
        proof {
            lemma_concat_push(pieces, sgr(codes@));
            assert(out@ =~= start + concat_all(pieces.push(sgr(codes@))));
        }
    }
}

/// Appends the SGR sequence that switches an attribute to `out` where `cond`
/// holds.
fn push_flag_when(
    out: &mut Vec<char>,
    cond: bool,
    on: bool,
    code_on: u8,
    code_off: u8,
    Ghost(start): Ghost<Seq<char>>,
    Ghost(pieces): Ghost<Seq<Seq<char>>>,
)
    requires
        old(out)@ == start + concat_all(pieces),
    ensures
        final(out)@ == start + concat_all(
            push_when(pieces, cond, seq![flag_code(on, code_on, code_off)]),
        ),
{
    let mut codes: Vec<u8> = Vec::new();
    codes.push(if on { code_on } else { code_off });
    assert(codes@ =~= seq![flag_code(on, code_on, code_off)]);
    push_sgr_when(out, cond, &codes, Ghost(start), Ghost(pieces));
}

/// The SGR parameters that select `color`, see [`Color::codes`].
fn color_codes(color: Color, base: u8, selector: u8) -> (codes: Vec<u8>)
    requires
        base <= 100,
    ensures
        codes@ == color.codes(base, selector),
{
    let mut codes: Vec<u8> = Vec::new();
    match color {
        Color::TWOFIFTYSIX(n) => {
            codes.push(selector);
            codes.push(5);
            codes.push(n);
        },
        Color::RGB(r, g, b) => {
            codes.push(selector);
            codes.push(2);
            codes.push(r);
            codes.push(g);
            codes.push(b);
        },
        c => {
            codes.push(base + c.to_offset());
        },
    }
    assert(codes@ =~= color.codes(base, selector));
    codes
}

/// Reads the numeric parameters of the SGR sequence `raw`; nothing where
/// `raw` is no SGR sequence.
fn read_sgr_params(raw: &Vec<char>) -> (r: Option<Vec<u8>>)
    ensures
        match sgr_body(raw@) {
            Some(body) => r is Some && r->0@ == sgr_params(body),
            None => r is None,
        },
{
    let n = raw.len();
    if n < 3 || raw[0] != ESC || raw[1] != '[' || raw[n - 1] != 'm' {
        return None;
    }
    let ghost inner = raw@.subrange(2, n - 1);
    let end: usize = if n - 1 > 2 && raw[n - 2] == '%' {
        n - 2
    } else {
        n - 1
    };
    let ghost body = raw@.subrange(2, end as int);
    proof {
        if inner.len() > 0 && inner.last() == '%' {
            assert(inner.drop_last() =~= body);
        } else {
            assert(inner =~= body);
        }
    }
    let mut params: Vec<u8> = Vec::new();
    let mut i: usize = 2;
    let mut field_start: usize = 2;
    while i < end
        invariant
            2 <= field_start <= i <= end <= raw.len(),
            body == raw@.subrange(2, end as int),
            sgr_frame(raw@),
            body == sgr_param_text(raw@),
            forall|k: int| 0 <= k < i - 2 ==> is_param_char(#[trigger] body[k]),
            sgr_params(body) == params@ + params_scan(body, i - 2, field_start - 2),
        decreases end - i,
    {
        let c = raw[i];
        assert(body[i - 2] == c);
        if c == ';' {
            let ghost before = params@;
            let value = parse_decimal(raw, field_start, i, 255);
            proof {
                assert(body.subrange(field_start - 2, i - 2) =~= raw@.subrange(
                    field_start as int,
                    i as int,
                ));
            }
            match value {
                Some(v) => {
                    params.push(v as u8);
                },
                None => {},
            }
            assert(params@ =~= before + field_value(body, field_start - 2, i - 2));
            field_start = i + 1;
        } else if !(c >= '0' && c <= '9') {
            assert(!is_param_char(body[i - 2]));
            return None;
        }
        i += 1;
    }
    let ghost before = params@;
    let value = parse_decimal(raw, field_start, end, 255);
    proof {
        assert(body.subrange(field_start - 2, end - 2) =~= raw@.subrange(
            field_start as int,
            end as int,
        ));
    }
    match value {
        Some(v) => {
            params.push(v as u8);
        },
        None => {},
    }
    assert(params@ =~= before + field_value(body, field_start - 2, end - 2));
    Some(params)
}

} // verus!
