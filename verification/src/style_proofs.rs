//! What holds of every pair of styles: the sequences that are written to
//! get from one to the other, read back, do get there.

use vstd::prelude::*;
use crate::style::{
    Color, PrintStyle, field_value, flag_code, is_param_char, join_codes, params_scan, push_when,
    sgr, sgr_body, sgr_frame, sgr_param_text, sgr_params,
};
use crate::text::{
    all_digits, decimal, is_digit, lemma_decimal_digits, lemma_decimal_round_trip, parse_number,
};

verus! {

/// A number up to 255 is read back from its decimal form.
pub proof fn lemma_parse_decimal(n: u8)
    ensures
        parse_number(decimal(n as nat), 255) == Some(n as nat),
        decimal(n as nat).len() > 0,
        all_digits(decimal(n as nat)),
{
    lemma_decimal_digits(n as nat);
    lemma_decimal_round_trip(n as nat);
}

/// The written parameters hold digits and `;` only, and end in a digit.
pub proof fn lemma_join_codes_chars(codes: Seq<u8>)
    requires
        codes.len() > 0,
    ensures
        join_codes(codes).len() > 0,
        is_digit(join_codes(codes).last()),
        forall|i: int| 0 <= i < join_codes(codes).len() ==> is_param_char(
            #[trigger] join_codes(codes)[i],
        ),
    decreases codes.len(),
{
    lemma_decimal_digits(codes.last() as nat);
    if codes.len() > 1 {
        lemma_join_codes_chars(codes.drop_last());
    }
}

/// Where no `;` stands from position `i` on, what is read from there is the
/// one field that reaches to the end.
pub proof fn lemma_scan_last_field(body: Seq<char>, i: int, field_start: int)
    requires
        0 <= i <= body.len(),
        forall|k: int| i <= k < body.len() ==> #[trigger] body[k] != ';',
    ensures
        params_scan(body, i, field_start) == field_value(body, field_start, body.len() as int),
    decreases body.len() - i,
{
    if i < body.len() {
        lemma_scan_last_field(body, i + 1, field_start);
    }
}

/// What is read from a text with a `;` and more text behind it is what is
/// read from the text alone, and then what is read behind the `;`.
pub proof fn lemma_scan_prefix(head: Seq<char>, tail: Seq<char>, i: int, field_start: int)
    requires
        0 <= field_start <= i <= head.len(),
    ensures
        params_scan(head + seq![';'] + tail, i, field_start) == params_scan(head, i, field_start)
            + params_scan(head + seq![';'] + tail, (head.len() + 1) as int, (head.len() + 1) as int),
    decreases head.len() - i,
{
    let body = head + seq![';'] + tail;
    if i == head.len() {
        assert(body[i] == ';');
        assert(body.subrange(field_start, i) =~= head.subrange(field_start, head.len() as int));
    } else {
        assert(body[i] == head[i]);
        if head[i] == ';' {
            lemma_scan_prefix(head, tail, i + 1, i + 1);
            assert(body.subrange(field_start, i) =~= head.subrange(field_start, i));
            assert(field_value(body, field_start, i) + (params_scan(head, i + 1, i + 1)
                + params_scan(body, (head.len() + 1) as int, (head.len() + 1) as int)) =~= field_value(
                head,
                field_start,
                i,
            ) + params_scan(head, i + 1, i + 1) + params_scan(
                body,
                (head.len() + 1) as int,
                (head.len() + 1) as int,
            ));
        } else {
            lemma_scan_prefix(head, tail, i + 1, field_start);
        }
    }
}

/// The parameters are read back from their written form.
pub proof fn lemma_params_round_trip(codes: Seq<u8>)
    requires
        codes.len() > 0,
    ensures
        sgr_params(join_codes(codes)) == codes,
    decreases codes.len(),
{
    let last = codes.last();
    let digits = decimal(last as nat);
    lemma_parse_decimal(last);
    if codes.len() == 1 {
        assert forall|k: int| 0 <= k < digits.len() implies #[trigger] digits[k] != ';' by {
            assert(is_digit(digits[k]));
        }
        lemma_scan_last_field(digits, 0, 0);
        assert(digits.subrange(0, digits.len() as int) =~= digits);
        assert(seq![last] =~= codes);
    } else {
        let init = codes.drop_last();
        let head = join_codes(init);
        let body = head + seq![';'] + digits;
        lemma_params_round_trip(init);
        lemma_scan_prefix(head, digits, 0, 0);
        assert forall|k: int| (head.len() + 1) as int <= k < body.len() implies #[trigger] body[k]
            != ';' by {
            assert(body[k] == digits[k - head.len() - 1]);
            assert(is_digit(digits[k - head.len() - 1]));
        }
        lemma_scan_last_field(body, (head.len() + 1) as int, (head.len() + 1) as int);
        assert(body.subrange((head.len() + 1) as int, body.len() as int) =~= digits);
        assert(init + seq![last] =~= codes);
    }
}

/// An SGR sequence that was written from parameters is read as a sequence
/// with those parameters.
pub proof fn lemma_sgr_round_trip(style: PrintStyle, codes: Seq<u8>)
    requires
        codes.len() > 0,
    ensures
        sgr_body(sgr(codes)) == Some(join_codes(codes)),
        style.apply_sgr(sgr(codes)) == style.apply_params(codes),
{
    let raw = sgr(codes);
    let text = join_codes(codes);
    lemma_join_codes_chars(codes);
    lemma_params_round_trip(codes);
    assert(sgr_frame(raw));
    let inner = raw.subrange(2, raw.len() - 1);
    assert(inner =~= text);
    assert(inner.last() != '%');
    assert(sgr_param_text(raw) == text);
}

/// One parameter that is neither 38 nor 48 does what its code does.
pub proof fn lemma_apply_single(style: PrintStyle, code: u8)
    requires
        code != 38 && code != 48,
    ensures
        style.apply_params(seq![code]) == Some(style.apply_code(code)),
{
    let params = seq![code];
    assert(params.skip(1) =~= Seq::<u8>::empty());
    assert(style.apply_code(code).apply_params(params.skip(1)) == Some(style.apply_code(code)));
}

/// The style after the sequence that selects `color` as the foreground: the
/// colour is set, and a bright code sets bold with it.
pub proof fn lemma_apply_foreground(style: PrintStyle, color: Color, bold: bool)
    ensures
        style.apply_params(
            color.codes(
                if bold {
                    90
                } else {
                    30
                },
                38,
            ),
        ) == Some(
            PrintStyle {
                foreground: color,
                bold: style.bold || (bold && color.is_basic()),
                ..style
            },
        ),
{
    let base: u8 = if bold {
        90
    } else {
        30
    };
    let codes = color.codes(base, 38);
    match color {
        Color::TWOFIFTYSIX(n) => {
            let next = PrintStyle { foreground: color, ..style };
            assert(codes.skip(1) =~= seq![5u8, n]);
            assert(codes.skip(3) =~= Seq::<u8>::empty());
            assert(Color::extended(codes.skip(1)) == Some((color, 2int)));
            assert(next.apply_params(codes.skip(3)) == Some(next));
        },
        Color::RGB(r, g, b) => {
            let next = PrintStyle { foreground: color, ..style };
            assert(codes.skip(1) =~= seq![2u8, r, g, b]);
            assert(codes.skip(5) =~= Seq::<u8>::empty());
            assert(Color::extended(codes.skip(1)) == Some((color, 4int)));
            assert(next.apply_params(codes.skip(5)) == Some(next));
        },
        _ => {
            let code = (base + color.offset()) as u8;
            assert(codes =~= seq![code]);
            lemma_apply_single(style, code);
            assert(Color::basic(code) == color);
        },
    }
}

/// The style after the sequence that selects `color` as the background: the
/// colour is set, and a bright code sets bold with it.
pub proof fn lemma_apply_background(style: PrintStyle, color: Color, bold: bool)
    ensures
        style.apply_params(
            color.codes(
                if bold {
                    100
                } else {
                    40
                },
                48,
            ),
        ) == Some(
            PrintStyle {
                background: color,
                bold: style.bold || (bold && color.is_basic()),
                ..style
            },
        ),
{
    let base: u8 = if bold {
        100
    } else {
        40
    };
    let codes = color.codes(base, 48);
    match color {
        Color::TWOFIFTYSIX(n) => {
            let next = PrintStyle { background: color, ..style };
            assert(codes.skip(1) =~= seq![5u8, n]);
            assert(codes.skip(3) =~= Seq::<u8>::empty());
            assert(Color::extended(codes.skip(1)) == Some((color, 2int)));
            assert(next.apply_params(codes.skip(3)) == Some(next));
        },
        Color::RGB(r, g, b) => {
            let next = PrintStyle { background: color, ..style };
            assert(codes.skip(1) =~= seq![2u8, r, g, b]);
            assert(codes.skip(5) =~= Seq::<u8>::empty());
            assert(Color::extended(codes.skip(1)) == Some((color, 4int)));
            assert(next.apply_params(codes.skip(5)) == Some(next));
        },
        _ => {
            let code = (base + color.offset()) as u8;
            assert(codes =~= seq![code]);
            lemma_apply_single(style, code);
            assert(Color::basic(code) == color);
        },
    }
}

/// Replaying sequences with one more behind them, where `cond` holds, is
/// replaying them and then applying that one.
pub proof fn lemma_replay_push_when(
    start: PrintStyle,
    pieces: Seq<Seq<char>>,
    cond: bool,
    codes: Seq<u8>,
    reached: PrintStyle,
)
    requires
        codes.len() > 0,
        start.replay(pieces) == Some(reached),
    ensures
        start.replay(push_when(pieces, cond, codes)) == if cond {
            reached.apply_params(codes)
        } else {
            Some(reached)
        },
{
    if cond {
        lemma_sgr_round_trip(reached, codes);
        assert(pieces.push(sgr(codes)).drop_last() =~= pieces);
    }
}

/// The first of the sequences that take a terminal from style `a` to style
/// `b`: those that set the colours and bold.
pub open spec fn color_sequences(a: PrintStyle, b: PrintStyle) -> Seq<Seq<char>> {
    let p0 = Seq::<Seq<char>>::empty();
    let p1 = push_when(p0, a.foreground != b.foreground, b.fg_codes());
    let p2 = push_when(p1, a.background != b.background, b.bg_codes());
    push_when(p2, a.bold_after_colors(b) != b.bold, seq![flag_code(b.bold, 1, 22)])
}

/// Style `a` with the colours and bold of style `b`.
pub open spec fn with_colors_of(a: PrintStyle, b: PrintStyle) -> PrintStyle {
    PrintStyle { foreground: b.foreground, background: b.background, bold: b.bold, ..a }
}

/// The sequences that set the foreground and the background get there, and
/// leave bold as the bright codes among them set it.
pub proof fn lemma_colors_replay(a: PrintStyle, b: PrintStyle)
    ensures
        a.replay(
            push_when(
                push_when(
                    Seq::<Seq<char>>::empty(),
                    a.foreground != b.foreground,
                    b.fg_codes(),
                ),
                a.background != b.background,
                b.bg_codes(),
            ),
        ) == Some(
            PrintStyle {
                foreground: b.foreground,
                background: b.background,
                bold: a.bold_after_colors(b),
                ..a
            },
        ),
{
    let p0 = Seq::<Seq<char>>::empty();
    let p1 = push_when(p0, a.foreground != b.foreground, b.fg_codes());
    let s1 = PrintStyle {
        foreground: b.foreground,
        bold: a.bold || (a.foreground != b.foreground && b.bold && b.foreground.is_basic()),
        ..a
    };
    assert(a.replay(p1) == Some(s1)) by {
        lemma_apply_foreground(a, b.foreground, b.bold);
        lemma_replay_push_when(a, p0, a.foreground != b.foreground, b.fg_codes(), a);
    }
    assert(a.replay(push_when(p1, a.background != b.background, b.bg_codes())) == Some(
        PrintStyle {
            foreground: b.foreground,
            background: b.background,
            bold: a.bold_after_colors(b),
            ..a
        },
    )) by {
        lemma_apply_background(s1, b.background, b.bold);
        lemma_replay_push_when(a, p1, a.background != b.background, b.bg_codes(), s1);
    }
}

/// The sequences that set the colours and bold get there.
pub proof fn lemma_color_sequences_replay(a: PrintStyle, b: PrintStyle)
    ensures
        a.replay(color_sequences(a, b)) == Some(with_colors_of(a, b)),
{
    let p0 = Seq::<Seq<char>>::empty();
    let p1 = push_when(p0, a.foreground != b.foreground, b.fg_codes());
    let p2 = push_when(p1, a.background != b.background, b.bg_codes());
    let s2 = PrintStyle {
        foreground: b.foreground,
        background: b.background,
        bold: a.bold_after_colors(b),
        ..a
    };
    lemma_colors_replay(a, b);
    lemma_apply_single(s2, flag_code(b.bold, 1, 22));
    lemma_replay_push_when(a, p2, s2.bold != b.bold, seq![flag_code(b.bold, 1, 22)], s2);
}

/// One more sequence that switches an attribute, where it has to change,
/// gets the attribute there.
pub proof fn lemma_flag_replay(
    start: PrintStyle,
    pieces: Seq<Seq<char>>,
    reached: PrintStyle,
    on: bool,
    code_on: u8,
    code_off: u8,
    next: PrintStyle,
    changes: bool,
)
    requires
        start.replay(pieces) == Some(reached),
        code_on != 38 && code_on != 48 && code_off != 38 && code_off != 48,
        changes ==> next == reached.apply_code(flag_code(on, code_on, code_off)),
        !changes ==> next == reached,
    ensures
        start.replay(push_when(pieces, changes, seq![flag_code(on, code_on, code_off)])) == Some(
            next,
        ),
{
    lemma_apply_single(reached, flag_code(on, code_on, code_off));
    lemma_replay_push_when(
        start,
        pieces,
        changes,
        seq![flag_code(on, code_on, code_off)],
        reached,
    );
}

/// The sequences that `diff_str` writes to get from style `a` to style `b`
/// do get there: a terminal in style `a` that takes them, one after the
/// other, is in style `b`.
pub proof fn lemma_diff_replays(a: PrintStyle, b: PrintStyle)
    ensures
        a.replay(a.diff_sequences(b)) == Some(b),
{
    let p3 = color_sequences(a, b);
    let p4 = push_when(p3, a.underline != b.underline, seq![flag_code(b.underline, 4, 24)]);
    let p5 = push_when(p4, a.blink != b.blink, seq![flag_code(b.blink, 5, 25)]);
    let p6 = push_when(p5, a.italicized != b.italicized, seq![flag_code(b.italicized, 3, 23)]);
    let p7 = push_when(p6, a.invert != b.invert, seq![flag_code(b.invert, 7, 27)]);
    assert(a.diff_sequences(b) == p7);
    let s3 = with_colors_of(a, b);
    let s4 = PrintStyle { underline: b.underline, ..s3 };
    let s5 = PrintStyle { blink: b.blink, ..s4 };
    let s6 = PrintStyle { italicized: b.italicized, ..s5 };
    lemma_color_sequences_replay(a, b);
    lemma_flag_replay(a, p3, s3, b.underline, 4, 24, s4, a.underline != b.underline);
    lemma_flag_replay(a, p4, s4, b.blink, 5, 25, s5, a.blink != b.blink);
    lemma_flag_replay(a, p5, s5, b.italicized, 3, 23, s6, a.italicized != b.italicized);
    lemma_flag_replay(a, p6, s6, b.invert, 7, 27, b, a.invert != b.invert);
}

/// Replaying one run of sequences after another is replaying the two as
/// one.
pub proof fn lemma_replay_append(start: PrintStyle, first: Seq<Seq<char>>, second: Seq<Seq<char>>)
    ensures
        start.replay(first + second) == match start.replay(first) {
            Some(s) => s.replay(second),
            None => None,
        },
    decreases second.len(),
{
    if second.len() == 0 {
        assert(first + second =~= first);
    } else {
        lemma_replay_append(start, first, second.drop_last());
        assert((first + second).drop_last() =~= first + second.drop_last());
        assert((first + second).last() == second.last());
    }
}

/// A terminal in the initial style that takes what `to_str` writes for
/// style `b` shows what one shows that takes what `to_str` writes for style
/// `a` and then what `a.diff_str(b)` writes: both are in style `b`.
pub proof fn lemma_direct_and_by_way_agree(a: PrintStyle, b: PrintStyle)
    ensures
        PrintStyle::initial().replay(PrintStyle::initial().diff_sequences(b)) == Some(b),
        PrintStyle::initial().replay(
            PrintStyle::initial().diff_sequences(a) + a.diff_sequences(b),
        ) == Some(b),
{
    let start = PrintStyle::initial();
    lemma_diff_replays(start, b);
    lemma_diff_replays(start, a);
    lemma_diff_replays(a, b);
    lemma_replay_append(start, start.diff_sequences(a), a.diff_sequences(b));
}

/// Nothing is written to stay in a style, and only then.
pub proof fn lemma_diff_empty(a: PrintStyle, b: PrintStyle)
    ensures
        a.diff_sequences(b).len() == 0 <==> a == b,
{
}

} // verus!
