//! The rich-text markup parser.
//!
//! The grammar: `{commands:content}` applies comma-separated style commands
//! to `content`; bare `{expression}` is resolved to dynamic text by a
//! caller-supplied resolver; `*`, `**` and `***` toggle italic, bold, and
//! both; a backslash makes the next character literal; runs of whitespace
//! collapse to one space, or to their newlines when they contain any.
//!
//! The built-in style commands, tried before the caller's resolver: a color
//! name or `#hex` sets the fill color, `s-<uint>` the stroke width,
//! `s-<color>` the stroke color, and `v-<decimal>` the free-form numeric
//! tag.  The command `image` alone before the colon is reserved and
//! unsupported.
//!
//! At end of input the parser demands balance: a document that still has an
//! open `{` command, an unclosed `{commands:` scope, or more `}` than `{`,
//! is rejected with [`ParseError::BracketMismatch`].
//!
//! The whole parser is specified by [`spec_parse`], a character-at-a-time
//! machine; [`Text3d::parse`] returns exactly what that machine denotes.

use vstd::prelude::*;

use crate::chars::{
    chars_to_string, eq_chars_str, is_space, lemma_find_char, spec_find_char, spec_is_space,
    spec_trim, str_chars, subrange_chars, trim_chars,
};
use crate::color::{parse_color_chars, spec_parse_color};
use crate::num::{parse_fx_chars, parse_u32_chars, spec_parse_fx, spec_parse_u32};
use crate::style::{
    spec_join, spec_segment_style_empty, styles_view, SegmentStyle, SegmentStyleV, Style, Weight,
};
use crate::text::{segments_view, Text3d, Text3dSegment, Text3dSegmentV};

verus! {

/// Error emitted when parsing rich text.
#[derive(Debug)]
pub enum ParseError {
    /// Reserved but unimplemented syntax, such as `{image:...}`.
    NotSupported(&'static str),
    /// Unbalanced brackets: a stray `}`, or an unclosed `{` at end of input.
    BracketMismatch,
    /// The dynamic-value resolver rejected a bare `{expression}`.
    BadCommand(String),
    /// The style resolver rejected a command token.
    MissingStyle(String),
    /// A resolver-supplied message.
    Custom(String),
}

impl ParseError {
    /// The error as a human-readable line, in place of a formatter.
    pub fn message(&self) -> (r: String)
        ensures
            r@ == match self@ {
                ParseErrorV::NotSupported(s) => "Feature "@ + s + " is not supported."@,
                ParseErrorV::BracketMismatch => "Bracket mismatch."@,
                ParseErrorV::BadCommand(s) => "Bad command: "@ + s,
                ParseErrorV::MissingStyle(s) => "Style "@ + s + " missing."@,
                ParseErrorV::Custom(s) => s,
            },
    {
        match self {
            ParseError::NotSupported(s) => "Feature ".to_owned().concat(s).concat(
                " is not supported.",
            ),
            ParseError::BracketMismatch => "Bracket mismatch.".to_owned(),
            ParseError::BadCommand(s) => "Bad command: ".to_owned().concat(s.as_str()),
            ParseError::MissingStyle(s) => "Style ".to_owned().concat(s.as_str()).concat(
                " missing.",
            ),
            ParseError::Custom(s) => s.clone(),
        }
    }
}

/// The mathematical value of a [`ParseError`].
pub enum ParseErrorV {
    NotSupported(Seq<char>),
    BracketMismatch,
    BadCommand(Seq<char>),
    MissingStyle(Seq<char>),
    Custom(Seq<char>),
}

impl View for ParseError {
    type V = ParseErrorV;

    open spec fn view(&self) -> ParseErrorV {
        match self {
            ParseError::NotSupported(s) => ParseErrorV::NotSupported(s.view()),
            ParseError::BracketMismatch => ParseErrorV::BracketMismatch,
            ParseError::BadCommand(s) => ParseErrorV::BadCommand(s.view()),
            ParseError::MissingStyle(s) => ParseErrorV::MissingStyle(s.view()),
            ParseError::Custom(s) => ParseErrorV::Custom(s.view()),
        }
    }
}

/// What a parse result denotes: the segment views on success, the error
/// view on failure.
pub open spec fn res_parse_view(r: Result<Text3d, ParseError>) -> Result<
    Seq<(Text3dSegmentV, SegmentStyleV)>,
    ParseErrorV,
> {
    match r {
        Ok(t) => Ok(t@),
        Err(e) => Err(e@),
    }
}

/// What a resolved dynamic segment denotes.
pub open spec fn res_seg_view(r: Result<Text3dSegment, ParseError>) -> Result<
    Text3dSegmentV,
    ParseErrorV,
> {
    match r {
        Ok(s) => Ok(s@),
        Err(e) => Err(e@),
    }
}

/// What a resolved style denotes.
pub open spec fn res_style_view(r: Result<SegmentStyle, ParseError>) -> Result<
    SegmentStyleV,
    ParseErrorV,
> {
    match r {
        Ok(s) => Ok(s@),
        Err(e) => Err(e@),
    }
}

/// The two resolution hooks a caller hands to [`Text3d::parse`]: dynamic
/// text for bare `{expression}` commands, and styles for command tokens the
/// built-in table does not know.
///
/// Each hook is pinned to its own spec function, and a call may change the
/// resolver's state but not what it resolves: one parse sees one consistent
/// resolution.
pub trait TextResolver: Sized {
    /// What the resolver yields for a bare `{expression}`, by its trimmed text.
    spec fn fetch_spec(&self, s: Seq<char>) -> Result<Text3dSegmentV, ParseErrorV>;

    /// What the resolver yields for an unknown style token.
    spec fn style_spec(&self, s: Seq<char>) -> Result<SegmentStyleV, ParseErrorV>;

    /// Resolve a bare `{expression}` to a text segment.
    fn fetch_string(&mut self, s: &str) -> (r: Result<Text3dSegment, ParseError>)
        ensures
            res_seg_view(r) == old(self).fetch_spec(s@),
            forall|t: Seq<char>| final(self).fetch_spec(t) == old(self).fetch_spec(t),
            forall|t: Seq<char>| final(self).style_spec(t) == old(self).style_spec(t),
    ;

    /// Resolve an unknown style token to a segment style.
    fn stylesheet(&mut self, s: &str) -> (r: Result<SegmentStyle, ParseError>)
        ensures
            res_style_view(r) == old(self).style_spec(s@),
            forall|t: Seq<char>| final(self).fetch_spec(t) == old(self).fetch_spec(t),
            forall|t: Seq<char>| final(self).style_spec(t) == old(self).style_spec(t),
    ;
}

/// Whether two resolver states resolve everything alike.
pub open spec fn same_resolver_specs<R: TextResolver>(a: R, b: R) -> bool {
    (forall|t: Seq<char>| a.fetch_spec(t) == b.fetch_spec(t)) && (forall|t: Seq<char>|
        a.style_spec(t) == b.style_spec(t))
}

/// The dynamic-text hook of a resolver as one spec function.
pub open spec fn fetch_fn_of<R: TextResolver>(r: R) -> spec_fn(Seq<char>) -> Result<
    Text3dSegmentV,
    ParseErrorV,
> {
    |s: Seq<char>| r.fetch_spec(s)
}

/// The style hook of a resolver as one spec function.
pub open spec fn style_fn_of<R: TextResolver>(r: R) -> spec_fn(Seq<char>) -> Result<
    SegmentStyleV,
    ParseErrorV,
> {
    |s: Seq<char>| r.style_spec(s)
}

/// The mode the parser is in between two characters.
#[derive(Clone, Copy, PartialEq, Eq, Structural, Debug)]
pub enum ParseMode {
    /// Reading literal text.
    Text,
    /// Inside a run of consecutive stars, holding its length so far.
    Stars(usize),
    /// Inside a whitespace run, holding the newlines seen so far.
    Ws(usize),
    /// After `{`, reading a command.
    Command,
    /// After `{image:`, reading the reserved image reference.
    Image,
}

/// The whole parser state between two characters.
pub struct ParseStV {
    pub mode: ParseMode,
    /// Whether a backslash is pending.
    pub esc: bool,
    /// Literal text, or command text, gathered so far.
    pub buffer: Seq<char>,
    /// Finished segments, each with the style it was closed under.
    pub segments: Seq<(Text3dSegmentV, SegmentStyleV)>,
    /// The style stack: the block default below, inner scopes above.
    pub styles: Seq<SegmentStyleV>,
    /// The first error met, if any; an erring machine ignores the rest.
    pub err: Option<ParseErrorV>,
}

/// The state the parser starts in.
pub open spec fn spec_init_state() -> ParseStV {
    ParseStV {
        mode: ParseMode::Text,
        esc: false,
        buffer: Seq::empty(),
        segments: Seq::empty(),
        styles: seq![spec_segment_style_empty()],
        err: None,
    }
}

/// The state with an error recorded.
pub open spec fn spec_set_err(st: ParseStV, e: ParseErrorV) -> ParseStV {
    ParseStV { err: Some(e), ..st }
}

/// Close the gathered literal text into a segment under the innermost
/// style; an empty buffer closes nothing, an empty style stack is a
/// bracket mismatch.
pub open spec fn spec_flush_segment(st: ParseStV) -> ParseStV {
    if st.buffer.len() == 0 {
        st
    } else if st.styles.len() == 0 {
        spec_set_err(st, ParseErrorV::BracketMismatch)
    } else {
        ParseStV {
            segments: st.segments.push((Text3dSegmentV::Str(st.buffer), st.styles.last())),
            buffer: Seq::empty(),
            ..st
        }
    }
}

/// Italic toggle: an italic face turns normal, anything else turns italic.
pub open spec fn spec_flip_style(s: Option<Style>) -> Option<Style> {
    match s {
        Some(Style::Italic) => Some(Style::Normal),
        _ => Some(Style::Italic),
    }
}

/// Bold toggle: normal weight or lighter turns bold, anything heavier
/// turns normal.
pub open spec fn spec_flip_weight(w: Option<Weight>) -> Option<Weight> {
    match w {
        Some(x) => if x.0 <= 400 {
            Some(Weight(700))
        } else {
            Some(Weight(400))
        },
        None => Some(Weight(700)),
    }
}

/// Effect of a run of `n` stars on the innermost style: one star toggles
/// italic, two toggle bold, three toggle both; any longer even run is a
/// no-op and any longer odd run toggles italic.
pub open spec fn spec_star_toggle(top: SegmentStyleV, n: usize) -> SegmentStyleV {
    if n == 1 {
        SegmentStyleV { style: spec_flip_style(top.style), ..top }
    } else if n == 2 {
        SegmentStyleV { weight: spec_flip_weight(top.weight), ..top }
    } else if n == 3 {
        SegmentStyleV {
            style: spec_flip_style(top.style),
            weight: spec_flip_weight(top.weight),
            ..top
        }
    } else if n % 2 == 0 {
        top
    } else {
        SegmentStyleV { style: spec_flip_style(top.style), ..top }
    }
}

/// Apply a finished star run and return to text mode.
pub open spec fn spec_apply_stars(st: ParseStV, n: usize) -> ParseStV {
    if st.styles.len() == 0 {
        spec_set_err(ParseStV { mode: ParseMode::Text, ..st }, ParseErrorV::BracketMismatch)
    } else {
        ParseStV {
            mode: ParseMode::Text,
            styles: st.styles.update(
                st.styles.len() - 1,
                spec_star_toggle(st.styles.last(), n),
            ),
            ..st
        }
    }
}

/// What a finished whitespace run collapses to: one space, or its `n`
/// newlines when it contained any.
pub open spec fn spec_ws_chars(n: usize) -> Seq<char> {
    if n == 0 {
        seq![' ']
    } else {
        Seq::new(n as nat, |i: int| '\n')
    }
}

/// Append a finished whitespace run to the buffer and return to text mode.
pub open spec fn spec_flush_ws(st: ParseStV, n: usize) -> ParseStV {
    ParseStV { mode: ParseMode::Text, buffer: st.buffer + spec_ws_chars(n), ..st }
}

/// One character of literal text.
pub open spec fn spec_step_text(st: ParseStV, c: char) -> ParseStV {
    if st.esc {
        ParseStV { esc: false, buffer: st.buffer.push(c), ..st }
    } else if c == '\\' {
        ParseStV { esc: true, ..st }
    } else if c == '{' {
        let st2 = spec_flush_segment(st);
        if st2.err is Some {
            st2
        } else {
            ParseStV { mode: ParseMode::Command, ..st2 }
        }
    } else if c == '}' {
        let st2 = spec_flush_segment(st);
        if st2.err is Some {
            st2
        } else {
            ParseStV {
                styles: if st2.styles.len() > 0 {
                    st2.styles.drop_last()
                } else {
                    st2.styles
                },
                ..st2
            }
        }
    } else if c == '*' {
        let st2 = spec_flush_segment(st);
        if st2.err is Some {
            st2
        } else {
            ParseStV { mode: ParseMode::Stars(1), ..st2 }
        }
    } else if spec_is_space(c) {
        ParseStV {
            mode: ParseMode::Ws(
                if c == '\n' {
                    1
                } else {
                    0
                },
            ),
            ..st
        }
    } else {
        ParseStV { buffer: st.buffer.push(c), ..st }
    }
}

/// The style a single command token denotes: the built-in `v-`, `s-`,
/// color-name and `#hex` forms first, then the caller's style hook.
pub open spec fn spec_parse_style(
    tok: Seq<char>,
    g: spec_fn(Seq<char>) -> Result<SegmentStyleV, ParseErrorV>,
) -> Result<SegmentStyleV, ParseErrorV> {
    if tok.len() >= 2 && tok[0] == 'v' && tok[1] == '-' {
        match spec_parse_fx(tok.skip(2)) {
            Some(m) => Ok(SegmentStyleV { magic_number: Some(m), ..spec_segment_style_empty() }),
            None => g(tok),
        }
    } else if tok.len() >= 2 && tok[0] == 's' && tok[1] == '-' {
        match spec_parse_u32(tok.skip(2)) {
            Some(n) => Ok(
                SegmentStyleV {
                    stroke: if n == 0 {
                        None
                    } else {
                        Some(n)
                    },
                    ..spec_segment_style_empty()
                },
            ),
            None => match spec_parse_color(tok.skip(2)) {
                Some(c) => Ok(
                    SegmentStyleV { stroke_color: Some(c), ..spec_segment_style_empty() },
                ),
                None => g(tok),
            },
        }
    } else {
        match spec_parse_color(tok) {
            Some(c) => Ok(SegmentStyleV { fill_color: Some(c), ..spec_segment_style_empty() }),
            None => g(tok),
        }
    }
}

/// Join each comma-separated command of `s` onto `acc` in turn, trimming
/// each token; the first failing token decides the error.
pub open spec fn spec_command_fold(
    s: Seq<char>,
    acc: SegmentStyleV,
    g: spec_fn(Seq<char>) -> Result<SegmentStyleV, ParseErrorV>,
) -> Result<SegmentStyleV, ParseErrorV>
    decreases s.len(),
{
    let d = spec_find_char(s, ',');
    let tok = spec_trim(s.take(d as int));
    match spec_parse_style(tok, g) {
        Err(e) => Err(e),
        Ok(sty) => {
            let acc2 = spec_join(acc, sty);
            if d >= s.len() {
                Ok(acc2)
            } else {
                spec_command_fold(s.skip(d as int + 1), acc2, g)
            }
        },
    }
}

/// The colon ending a command list: `image` alone is reserved; otherwise
/// the commands are folded onto the innermost style and the result pushed
/// as a new scope.
pub open spec fn spec_command_colon(
    st: ParseStV,
    g: spec_fn(Seq<char>) -> Result<SegmentStyleV, ParseErrorV>,
) -> ParseStV {
    let trimmed = spec_trim(st.buffer);
    if trimmed == "image"@ {
        ParseStV { mode: ParseMode::Image, buffer: Seq::empty(), ..st }
    } else if st.styles.len() == 0 {
        spec_set_err(st, ParseErrorV::BracketMismatch)
    } else {
        match spec_command_fold(trimmed, st.styles.last(), g) {
            Ok(sty) => ParseStV {
                mode: ParseMode::Text,
                buffer: Seq::empty(),
                styles: st.styles.push(sty),
                ..st
            },
            Err(e) => spec_set_err(st, e),
        }
    }
}

/// One character of command text.
pub open spec fn spec_step_command(
    st: ParseStV,
    c: char,
    f: spec_fn(Seq<char>) -> Result<Text3dSegmentV, ParseErrorV>,
    g: spec_fn(Seq<char>) -> Result<SegmentStyleV, ParseErrorV>,
) -> ParseStV {
    if c == ':' {
        spec_command_colon(st, g)
    } else if c == '}' {
        match f(spec_trim(st.buffer)) {
            Err(e) => spec_set_err(st, e),
            Ok(seg) => if st.styles.len() == 0 {
                spec_set_err(st, ParseErrorV::BracketMismatch)
            } else {
                ParseStV {
                    mode: ParseMode::Text,
                    buffer: Seq::empty(),
                    segments: st.segments.push((seg, st.styles.last())),
                    ..st
                }
            },
        }
    } else {
        ParseStV { buffer: st.buffer.push(c), ..st }
    }
}

/// One character of the reserved image command.
pub open spec fn spec_step_image(st: ParseStV, c: char) -> ParseStV {
    if c == '}' {
        spec_set_err(st, ParseErrorV::NotSupported("image"@))
    } else {
        ParseStV { buffer: st.buffer.push(c), ..st }
    }
}

/// One character of input, in whatever mode the machine is in.  An erring
/// machine stays put.
pub open spec fn spec_step(
    st: ParseStV,
    c: char,
    f: spec_fn(Seq<char>) -> Result<Text3dSegmentV, ParseErrorV>,
    g: spec_fn(Seq<char>) -> Result<SegmentStyleV, ParseErrorV>,
) -> ParseStV {
    if st.err is Some {
        st
    } else {
        match st.mode {
            ParseMode::Text => spec_step_text(st, c),
            ParseMode::Stars(n) => if c == '*' {
                ParseStV { mode: ParseMode::Stars((n + 1) as usize), ..st }
            } else {
                let st2 = spec_apply_stars(st, n);
                if st2.err is Some {
                    st2
                } else {
                    spec_step_text(st2, c)
                }
            },
            ParseMode::Ws(n) => if spec_is_space(c) {
                ParseStV {
                    mode: ParseMode::Ws(
                        if c == '\n' {
                            (n + 1) as usize
                        } else {
                            n
                        },
                    ),
                    ..st
                }
            } else {
                spec_step_text(spec_flush_ws(st, n), c)
            },
            ParseMode::Command => spec_step_command(st, c, f, g),
            ParseMode::Image => spec_step_image(st, c),
        }
    }
}

/// The machine run over a whole character sequence.
pub open spec fn spec_fold_chars(
    cs: Seq<char>,
    st: ParseStV,
    f: spec_fn(Seq<char>) -> Result<Text3dSegmentV, ParseErrorV>,
    g: spec_fn(Seq<char>) -> Result<SegmentStyleV, ParseErrorV>,
) -> ParseStV
    decreases cs.len(),
{
    if cs.len() == 0 {
        st
    } else {
        spec_fold_chars(cs.drop_first(), spec_step(st, cs[0], f, g), f, g)
    }
}

/// End of input: finish any pending star or whitespace run, make a trailing
/// backslash literal, demand that every bracket was closed and that exactly
/// the block default remains on the style stack, and close the last
/// segment.
pub open spec fn spec_finish(st: ParseStV) -> Result<
    Seq<(Text3dSegmentV, SegmentStyleV)>,
    ParseErrorV,
> {
    if st.err is Some {
        Err(st.err->Some_0)
    } else {
        let st1 = match st.mode {
            ParseMode::Stars(n) => spec_apply_stars(st, n),
            ParseMode::Ws(n) => spec_flush_ws(st, n),
            _ => st,
        };
        if st1.err is Some {
            Err(st1.err->Some_0)
        } else {
            let st2 = if st1.esc {
                ParseStV { esc: false, buffer: st1.buffer.push('\\'), ..st1 }
            } else {
                st1
            };
            if st2.mode is Command || st2.mode is Image {
                Err(ParseErrorV::BracketMismatch)
            } else {
                let st3 = spec_flush_segment(st2);
                if st3.err is Some {
                    Err(st3.err->Some_0)
                } else if st3.styles.len() != 1 {
                    Err(ParseErrorV::BracketMismatch)
                } else {
                    Ok(st3.segments)
                }
            }
        }
    }
}

/// What parsing a text denotes, given the two resolution hooks.
pub open spec fn spec_parse(
    text: Seq<char>,
    f: spec_fn(Seq<char>) -> Result<Text3dSegmentV, ParseErrorV>,
    g: spec_fn(Seq<char>) -> Result<SegmentStyleV, ParseErrorV>,
) -> Result<Seq<(Text3dSegmentV, SegmentStyleV)>, ParseErrorV> {
    spec_finish(spec_fold_chars(text, spec_init_state(), f, g))
}

/// An erring machine ignores all further input.
proof fn lemma_fold_err(
    cs: Seq<char>,
    st: ParseStV,
    f: spec_fn(Seq<char>) -> Result<Text3dSegmentV, ParseErrorV>,
    g: spec_fn(Seq<char>) -> Result<SegmentStyleV, ParseErrorV>,
)
    requires
        st.err is Some,
    ensures
        spec_fold_chars(cs, st, f, g) == st,
    decreases cs.len(),
{
    if cs.len() > 0 {
        lemma_fold_err(cs.drop_first(), st, f, g);
    }
}

/// Running the machine over one more character steps it once.
proof fn lemma_fold_push(
    cs: Seq<char>,
    c: char,
    st: ParseStV,
    f: spec_fn(Seq<char>) -> Result<Text3dSegmentV, ParseErrorV>,
    g: spec_fn(Seq<char>) -> Result<SegmentStyleV, ParseErrorV>,
)
    ensures
        spec_fold_chars(cs.push(c), st, f, g) == spec_step(spec_fold_chars(cs, st, f, g), c, f, g),
    decreases cs.len(),
{
    if cs.len() == 0 {
        assert(cs.push(c)[0] == c);
        assert(cs.push(c).drop_first() =~= Seq::<char>::empty());
        assert(spec_fold_chars(cs.push(c), st, f, g) == spec_fold_chars(
            Seq::<char>::empty(),
            spec_step(st, c, f, g),
            f,
            g,
        ));
        assert(spec_fold_chars(cs, st, f, g) == st);
    } else {
        assert(cs.push(c)[0] == cs[0]);
        assert(cs.push(c).drop_first() =~= cs.drop_first().push(c));
        lemma_fold_push(cs.drop_first(), c, spec_step(st, cs[0], f, g), f, g);
        assert(spec_fold_chars(cs.push(c), st, f, g) == spec_fold_chars(
            cs.drop_first().push(c),
            spec_step(st, cs[0], f, g),
            f,
            g,
        ));
        assert(spec_fold_chars(cs, st, f, g) == spec_fold_chars(
            cs.drop_first(),
            spec_step(st, cs[0], f, g),
            f,
            g,
        ));
    }
}


/// Splitting the run of the machine at any point composes.
proof fn lemma_fold_split(
    cs: Seq<char>,
    i: int,
    st: ParseStV,
    f: spec_fn(Seq<char>) -> Result<Text3dSegmentV, ParseErrorV>,
    g: spec_fn(Seq<char>) -> Result<SegmentStyleV, ParseErrorV>,
)
    requires
        0 <= i <= cs.len(),
    ensures
        spec_fold_chars(cs, st, f, g) == spec_fold_chars(
            cs.skip(i),
            spec_fold_chars(cs.take(i), st, f, g),
            f,
            g,
        ),
    decreases i,
{
    if i == 0 {
        assert(cs.take(0) =~= Seq::<char>::empty());
        assert(cs.skip(0) =~= cs);
    } else {
        assert(cs.take(i)[0] == cs[0]);
        assert(cs.take(i).drop_first() =~= cs.drop_first().take(i - 1));
        assert(cs.skip(i) =~= cs.drop_first().skip(i - 1));
        lemma_fold_split(cs.drop_first(), i - 1, spec_step(st, cs[0], f, g), f, g);
    }
}

/// Close the gathered literal text into a segment under the innermost style.
fn flush_segment_exec(
    buffer: &mut Vec<char>,
    segments: &mut Vec<(Text3dSegment, SegmentStyle)>,
    styles: &Vec<SegmentStyle>,
) -> (r: Result<(), ParseError>)
    ensures
        ({
            let st0 = ParseStV {
                mode: ParseMode::Text,
                esc: false,
                buffer: old(buffer)@,
                segments: segments_view(old(segments)@),
                styles: styles_view(styles@),
                err: None,
            };
            let st1 = spec_flush_segment(st0);
            match r {
                Ok(_) => st1.err is None && final(buffer)@ == st1.buffer && segments_view(
                    final(segments)@,
                ) == st1.segments,
                Err(e) => st1.err == Some(e@),
            }
        }),
{
    if buffer.len() == 0 {
        return Ok(());
    }
    if styles.len() == 0 {
        return Err(ParseError::BracketMismatch);
    }
    let s = chars_to_string(buffer);
    let top = styles[styles.len() - 1].clone();
    segments.push((Text3dSegment::String(s), top));
    buffer.clear();
    proof {
        let st0 = ParseStV {
            mode: ParseMode::Text,
            esc: false,
            buffer: old(buffer)@,
            segments: segments_view(old(segments)@),
            styles: styles_view(styles@),
            err: None,
        };
        assert(styles_view(styles@).last() == styles@.last()@);
        assert(segments_view(segments@) =~= segments_view(old(segments)@).push(
            (Text3dSegmentV::Str(old(buffer)@), styles_view(styles@).last()),
        ));
    }
    Ok(())
}

/// Apply a finished star run to the innermost style.
fn apply_stars_exec(n: usize, styles: &mut Vec<SegmentStyle>) -> (r: Result<(), ParseError>)
    ensures
        ({
            let st0 = ParseStV {
                mode: ParseMode::Text,
                esc: false,
                buffer: Seq::empty(),
                segments: Seq::empty(),
                styles: styles_view(old(styles)@),
                err: None,
            };
            let st1 = spec_apply_stars(st0, n);
            match r {
                Ok(_) => st1.err is None && styles_view(final(styles)@) == st1.styles,
                Err(e) => st1.err == Some(e@),
            }
        }),
{
    if styles.len() == 0 {
        return Err(ParseError::BracketMismatch);
    }
    let top = match styles.pop() {
        Some(t) => t,
        None => {
            return Err(ParseError::BracketMismatch);
        },
    };
    let flipped_style = match top.style {
        Some(Style::Italic) => Some(Style::Normal),
        _ => Some(Style::Italic),
    };
    let flipped_weight = match top.weight {
        Some(x) => if x.0 <= 400 {
            Some(Weight(700))
        } else {
            Some(Weight(400))
        },
        None => Some(Weight(700)),
    };
    let mut new_top = top;
    if n == 1 {
        new_top.style = flipped_style;
    } else if n == 2 {
        new_top.weight = flipped_weight;
    } else if n == 3 {
        new_top.style = flipped_style;
        new_top.weight = flipped_weight;
    } else if n % 2 == 0 {
    } else {
        new_top.style = flipped_style;
    }
    styles.push(new_top);
    proof {
        let old_views = styles_view(old(styles)@);
        assert(styles_view(styles@) =~= old_views.update(
            old_views.len() - 1,
            spec_star_toggle(old_views.last(), n),
        ));
    }
    Ok(())
}

/// Append a finished whitespace run to the buffer.
fn flush_ws_exec(n: usize, buffer: &mut Vec<char>)
    ensures
        final(buffer)@ == old(buffer)@ + spec_ws_chars(n),
{
    if n == 0 {
        buffer.push(' ');
        proof {
            assert(final(buffer)@ =~= old(buffer)@ + spec_ws_chars(0));
        }
    } else {
        let mut k: usize = 0;
        while k < n
            invariant
                k <= n,
                buffer@ == old(buffer)@ + Seq::new(k as nat, |i: int| '\n'),
            decreases n - k,
        {
            buffer.push('\n');
            proof {
                assert(buffer@ =~= old(buffer)@ + Seq::new((k + 1) as nat, |i: int| '\n'));
            }
            k += 1;
        }
    }
}

/// Parse one style command token: the built-in forms first, then the
/// caller's style hook.
fn parse_style_exec<R: TextResolver>(tok: &Vec<char>, resolver: &mut R) -> (r: Result<
    SegmentStyle,
    ParseError,
>)
    ensures
        res_style_view(r) == spec_parse_style(tok@, style_fn_of(*old(resolver))),
        same_resolver_specs(*old(resolver), *final(resolver)),
{
    if tok.len() >= 2 && tok[0] == 'v' && tok[1] == '-' {
        let rest = subrange_chars(tok, 2, tok.len());
        proof {
            assert(rest@ =~= tok@.skip(2));
        }
        match parse_fx_chars(&rest) {
            Some(m) => {
                let mut sty = SegmentStyle::default();
                sty.magic_number = Some(m);
                Ok(sty)
            },
            None => {
                let s = chars_to_string(tok);
                resolver.stylesheet(s.as_str())
            },
        }
    } else if tok.len() >= 2 && tok[0] == 's' && tok[1] == '-' {
        let rest = subrange_chars(tok, 2, tok.len());
        proof {
            assert(rest@ =~= tok@.skip(2));
        }
        match parse_u32_chars(&rest) {
            Some(n) => {
                let mut sty = SegmentStyle::default();
                sty.stroke = if n == 0 {
                    None
                } else {
                    Some(n)
                };
                Ok(sty)
            },
            None => match parse_color_chars(&rest) {
                Some(c) => {
                    let mut sty = SegmentStyle::default();
                    sty.stroke_color = Some(c);
                    Ok(sty)
                },
                None => {
                    let s = chars_to_string(tok);
                    resolver.stylesheet(s.as_str())
                },
            },
        }
    } else {
        match parse_color_chars(tok) {
            Some(c) => {
                let mut sty = SegmentStyle::default();
                sty.fill_color = Some(c);
                Ok(sty)
            },
            None => {
                let s = chars_to_string(tok);
                resolver.stylesheet(s.as_str())
            },
        }
    }
}

/// Fold every comma-separated command of an already-trimmed command list
/// onto the innermost style.
fn apply_commands_exec<R: TextResolver>(
    trimmed: &Vec<char>,
    top: &SegmentStyle,
    resolver: &mut R,
) -> (r: Result<SegmentStyle, ParseError>)
    ensures
        res_style_view(r) == spec_command_fold(trimmed@, top@, style_fn_of(*old(resolver))),
        same_resolver_specs(*old(resolver), *final(resolver)),
{
    let ghost g = style_fn_of(*old(resolver));
    let mut acc = top.clone();
    let mut pos: usize = 0;
    proof {
        assert(trimmed@.skip(0) =~= trimmed@);
    }
    loop
        invariant
            pos <= trimmed@.len(),
            same_resolver_specs(*old(resolver), *resolver),
            g == style_fn_of(*old(resolver)),
            spec_command_fold(trimmed@, top@, g) == spec_command_fold(
                trimmed@.skip(pos as int),
                acc@,
                g,
            ),
        decreases trimmed@.len() - pos,
    {
        let ghost rem = trimmed@.skip(pos as int);
        let mut j: usize = pos;
        while j < trimmed.len() && trimmed[j] != ','
            invariant
                pos <= j <= trimmed@.len(),
                forall|k: int| pos <= k < j ==> trimmed@[k] != ',',
            decreases trimmed@.len() - j,
        {
            j += 1;
        }
        proof {
            assert(forall|k: int| 0 <= k < j - pos ==> rem[k] == trimmed@[k + pos]);
            lemma_find_char(rem, ',', j - pos);
        }
        let raw = subrange_chars(trimmed, pos, j);
        let tok = trim_chars(&raw);
        proof {
            assert(raw@ =~= rem.take(j - pos));
        }
        let ghost resolver_at_call = *resolver;
        let parsed = parse_style_exec(&tok, resolver);
        proof {
            assert(style_fn_of(resolver_at_call) =~= g);
        }
        match parsed {
            Err(e) => {
                return Err(e);
            },
            Ok(sty) => {
                acc = acc.join(sty);
            },
        }
        if j == trimmed.len() {
            return Ok(acc);
        }
        proof {
            assert(rem.skip(j - pos + 1) =~= trimmed@.skip(j + 1));
        }
        pos = j + 1;
    }
}

/// One character of literal text, on the executable state.
fn step_text_exec(
    c: char,
    mode: &mut ParseMode,
    esc: &mut bool,
    buffer: &mut Vec<char>,
    segments: &mut Vec<(Text3dSegment, SegmentStyle)>,
    styles: &mut Vec<SegmentStyle>,
) -> (r: Result<(), ParseError>)
    ensures
        ({
            let st0 = ParseStV {
                mode: *old(mode),
                esc: *old(esc),
                buffer: old(buffer)@,
                segments: segments_view(old(segments)@),
                styles: styles_view(old(styles)@),
                err: None,
            };
            let st1 = spec_step_text(st0, c);
            match r {
                Ok(_) => st1.err is None && *final(mode) == st1.mode && *final(esc) == st1.esc
                    && final(buffer)@ == st1.buffer && segments_view(final(segments)@)
                    == st1.segments && styles_view(final(styles)@) == st1.styles,
                Err(e) => st1.err == Some(e@),
            }
        }),
{
    if *esc {
        buffer.push(c);
        *esc = false;
        return Ok(());
    }
    if c == '\\' {
        *esc = true;
        return Ok(());
    }
    if c == '{' {
        match flush_segment_exec(buffer, segments, styles) {
            Err(e) => {
                return Err(e);
            },
            Ok(_) => {},
        }
        *mode = ParseMode::Command;
        return Ok(());
    }
    if c == '}' {
        match flush_segment_exec(buffer, segments, styles) {
            Err(e) => {
                return Err(e);
            },
            Ok(_) => {},
        }
        let _ = styles.pop();
        proof {
            if styles_view(old(styles)@).len() > 0 {
                assert(styles_view(styles@) =~= styles_view(old(styles)@).drop_last());
            } else {
                assert(styles_view(styles@) =~= styles_view(old(styles)@));
            }
        }
        return Ok(());
    }
    if c == '*' {
        match flush_segment_exec(buffer, segments, styles) {
            Err(e) => {
                return Err(e);
            },
            Ok(_) => {},
        }
        *mode = ParseMode::Stars(1);
        return Ok(());
    }
    if is_space(c) {
        *mode = ParseMode::Ws(
            if c == '\n' {
                1
            } else {
                0
            },
        );
        return Ok(());
    }
    buffer.push(c);
    Ok(())
}

/// A machine that has erred stays erred to the end.
proof fn lemma_parse_err(
    text: Seq<char>,
    i: int,
    f: spec_fn(Seq<char>) -> Result<Text3dSegmentV, ParseErrorV>,
    g: spec_fn(Seq<char>) -> Result<SegmentStyleV, ParseErrorV>,
)
    requires
        0 <= i <= text.len(),
        spec_fold_chars(text.take(i), spec_init_state(), f, g).err is Some,
    ensures
        spec_parse(text, f, g) == Err::<Seq<(Text3dSegmentV, SegmentStyleV)>, ParseErrorV>(
            spec_fold_chars(text.take(i), spec_init_state(), f, g).err->Some_0,
        ),
{
    lemma_fold_split(text, i, spec_init_state(), f, g);
    lemma_fold_err(text.skip(i), spec_fold_chars(text.take(i), spec_init_state(), f, g), f, g);
}

impl Text3d {
    /// Parse rich text against a caller-supplied resolver for dynamic
    /// values and unknown style tokens.  Returns exactly what the machine
    /// [`spec_parse`] denotes under the resolver's two hooks.
    pub fn parse<R: TextResolver>(text: &str, resolver: &mut R) -> (r: Result<Text3d, ParseError>)
        ensures
            res_parse_view(r) == spec_parse(
                text@,
                fetch_fn_of(*old(resolver)),
                style_fn_of(*old(resolver)),
            ),
            same_resolver_specs(*old(resolver), *final(resolver)),
    {
        let ghost f = fetch_fn_of(*old(resolver));
        let ghost g = style_fn_of(*old(resolver));
        let cs = str_chars(text);
        let mut mode = ParseMode::Text;
        let mut esc = false;
        let mut buffer: Vec<char> = Vec::new();
        let mut segments: Vec<(Text3dSegment, SegmentStyle)> = Vec::new();
        let mut styles: Vec<SegmentStyle> = Vec::new();
        styles.push(SegmentStyle::default());
        proof {
            assert(styles_view(styles@) =~= seq![spec_segment_style_empty()]);
            assert(segments_view(segments@) =~= Seq::<(Text3dSegmentV, SegmentStyleV)>::empty());
            assert(text@.take(0) =~= Seq::<char>::empty());
        }
        let mut i: usize = 0;
        while i < cs.len()
            invariant
                cs@ == text@,
                i <= cs@.len(),
                same_resolver_specs(*old(resolver), *resolver),
                f == fetch_fn_of(*old(resolver)),
                g == style_fn_of(*old(resolver)),
                ({
                    let st = spec_fold_chars(text@.take(i as int), spec_init_state(), f, g);
                    &&& st.err is None
                    &&& mode == st.mode
                    &&& esc == st.esc
                    &&& buffer@ == st.buffer
                    &&& segments_view(segments@) == st.segments
                    &&& styles_view(styles@) == st.styles
                }),
                match mode {
                    ParseMode::Stars(n) => n <= i,
                    ParseMode::Ws(n) => n <= i,
                    _ => true,
                },
            decreases cs@.len() - i,
        {
            let c = cs[i];
            let ghost st_pre = spec_fold_chars(text@.take(i as int), spec_init_state(), f, g);
            let ghost st_post = spec_step(st_pre, c, f, g);
            proof {
                assert(text@.take(i + 1) =~= text@.take(i as int).push(text@[i as int]));
                lemma_fold_push(text@.take(i as int), text@[i as int], spec_init_state(), f, g);
                assert(spec_fold_chars(text@.take(i + 1), spec_init_state(), f, g) == st_post);
            }
            match mode {
                ParseMode::Text => {
                    match step_text_exec(
                        c,
                        &mut mode,
                        &mut esc,
                        &mut buffer,
                        &mut segments,
                        &mut styles,
                    ) {
                        Ok(_) => {},
                        Err(e) => {
                            proof {
                                lemma_parse_err(text@, i + 1, f, g);
                            }
                            return Err(e);
                        },
                    }
                },
                ParseMode::Stars(n) => {
                    if c == '*' {
                        mode = ParseMode::Stars(n + 1);
                    } else {
                        match apply_stars_exec(n, &mut styles) {
                            Ok(_) => {},
                            Err(e) => {
                                proof {
                                    lemma_parse_err(text@, i + 1, f, g);
                                }
                                return Err(e);
                            },
                        }
                        mode = ParseMode::Text;
                        match step_text_exec(
                            c,
                            &mut mode,
                            &mut esc,
                            &mut buffer,
                            &mut segments,
                            &mut styles,
                        ) {
                            Ok(_) => {},
                            Err(e) => {
                                proof {
                                    lemma_parse_err(text@, i + 1, f, g);
                                }
                                return Err(e);
                            },
                        }
                    }
                },
                ParseMode::Ws(n) => {
                    if is_space(c) {
                        if c == '\n' {
                            mode = ParseMode::Ws(n + 1);
                        }
                    } else {
                        flush_ws_exec(n, &mut buffer);
                        mode = ParseMode::Text;
                        match step_text_exec(
                            c,
                            &mut mode,
                            &mut esc,
                            &mut buffer,
                            &mut segments,
                            &mut styles,
                        ) {
                            Ok(_) => {},
                            Err(e) => {
                                proof {
                                    lemma_parse_err(text@, i + 1, f, g);
                                }
                                return Err(e);
                            },
                        }
                    }
                },
                ParseMode::Command => {
                    if c == ':' {
                        let trimmed = trim_chars(&buffer);
                        if eq_chars_str(&trimmed, "image") {
                            buffer.clear();
                            mode = ParseMode::Image;
                        } else if styles.len() == 0 {
                            proof {
                                lemma_parse_err(text@, i + 1, f, g);
                            }
                            return Err(ParseError::BracketMismatch);
                        } else {
                            let top = styles[styles.len() - 1].clone();
                            let ghost r_at_call = *resolver;
                            let folded = apply_commands_exec(&trimmed, &top, resolver);
                            proof {
                                assert(style_fn_of(r_at_call) =~= g);
                                assert(styles_view(styles@).last() == top@);
                            }
                            match folded {
                                Err(e) => {
                                    proof {
                                        lemma_parse_err(text@, i + 1, f, g);
                                    }
                                    return Err(e);
                                },
                                Ok(sty) => {
                                    styles.push(sty);
                                    buffer.clear();
                                    mode = ParseMode::Text;
                                    proof {
                                        assert(styles_view(styles@) =~= st_pre.styles.push(sty@));
                                    }
                                },
                            }
                        }
                    } else if c == '}' {
                        let trimmed = trim_chars(&buffer);
                        let s = chars_to_string(&trimmed);
                        let ghost r_at_call = *resolver;
                        let fetched = resolver.fetch_string(s.as_str());
                        proof {
                            assert(r_at_call.fetch_spec(s@) == f(spec_trim(st_pre.buffer)));
                        }
                        match fetched {
                            Err(e) => {
                                proof {
                                    lemma_parse_err(text@, i + 1, f, g);
                                }
                                return Err(e);
                            },
                            Ok(seg) => {
                                if styles.len() == 0 {
                                    proof {
                                        lemma_parse_err(text@, i + 1, f, g);
                                    }
                                    return Err(ParseError::BracketMismatch);
                                }
                                let top = styles[styles.len() - 1].clone();
                                proof {
                                    assert(styles_view(styles@).last() == top@);
                                }
                                segments.push((seg, top));
                                buffer.clear();
                                mode = ParseMode::Text;
                                proof {
                                    assert(segments_view(segments@) =~= st_pre.segments.push(
                                        (seg@, st_pre.styles.last()),
                                    ));
                                }
                            },
                        }
                    } else {
                        buffer.push(c);
                    }
                },
                ParseMode::Image => {
                    if c == '}' {
                        proof {
                            lemma_parse_err(text@, i + 1, f, g);
                        }
                        return Err(ParseError::NotSupported("image"));
                    } else {
                        buffer.push(c);
                    }
                },
            }
            i += 1;
        }
        proof {
            assert(text@.take(cs@.len() as int) =~= text@);
        }
        let ghost st_end = spec_fold_chars(text@, spec_init_state(), f, g);
        match mode {
            ParseMode::Stars(n) => {
                match apply_stars_exec(n, &mut styles) {
                    Ok(_) => {
                        mode = ParseMode::Text;
                    },
                    Err(e) => {
                        return Err(e);
                    },
                }
            },
            ParseMode::Ws(n) => {
                flush_ws_exec(n, &mut buffer);
                mode = ParseMode::Text;
            },
            _ => {},
        }
        let ghost st1 = match st_end.mode {
            ParseMode::Stars(n) => spec_apply_stars(st_end, n),
            ParseMode::Ws(n) => spec_flush_ws(st_end, n),
            _ => st_end,
        };
        if esc {
            buffer.push('\\');
        }
        let ghost st2 = if st1.esc {
            ParseStV { esc: false, buffer: st1.buffer.push('\\'), ..st1 }
        } else {
            st1
        };
        match mode {
            ParseMode::Command | ParseMode::Image => {
                return Err(ParseError::BracketMismatch);
            },
            _ => {},
        }
        match flush_segment_exec(&mut buffer, &mut segments, &styles) {
            Err(e) => {
                return Err(e);
            },
            Ok(_) => {},
        }
        if styles.len() != 1 {
            return Err(ParseError::BracketMismatch);
        }
        Ok(Text3d { segments })
    }
}

/// The resolver behind [`Text3d::parse_raw`]: it rejects every dynamic
/// value as a bad command and every unknown style token as a missing style.
pub struct RejectResolver;

impl TextResolver for RejectResolver {
    open spec fn fetch_spec(&self, s: Seq<char>) -> Result<Text3dSegmentV, ParseErrorV> {
        Err(ParseErrorV::BadCommand(s))
    }

    open spec fn style_spec(&self, s: Seq<char>) -> Result<SegmentStyleV, ParseErrorV> {
        Err(ParseErrorV::MissingStyle(s))
    }

    fn fetch_string(&mut self, s: &str) -> (r: Result<Text3dSegment, ParseError>) {
        Err(ParseError::BadCommand(s.to_owned()))
    }

    fn stylesheet(&mut self, s: &str) -> (r: Result<SegmentStyle, ParseError>) {
        Err(ParseError::MissingStyle(s.to_owned()))
    }
}

/// What parsing with no custom resolution denotes: only the built-in style
/// commands are accepted, every bare `{expression}` is a bad command and
/// every unknown style token a missing style.
pub open spec fn spec_parse_raw(text: Seq<char>) -> Result<
    Seq<(Text3dSegmentV, SegmentStyleV)>,
    ParseErrorV,
> {
    spec_parse(
        text,
        |s: Seq<char>| Err(ParseErrorV::BadCommand(s)),
        |s: Seq<char>| Err(ParseErrorV::MissingStyle(s)),
    )
}

impl Text3d {
    /// Parse rich text with the built-in style commands only: see
    /// [`Text3d::parse`].
    pub fn parse_raw(text: &str) -> (r: Result<Text3d, ParseError>)
        ensures
            res_parse_view(r) == spec_parse_raw(text@),
    {
        let mut resolver = RejectResolver;
        let ghost r0 = resolver;
        let r = Text3d::parse(text, &mut resolver);
        proof {
            assert(fetch_fn_of(r0) =~= (|s: Seq<char>|
                Err::<Text3dSegmentV, ParseErrorV>(ParseErrorV::BadCommand(s))));
            assert(style_fn_of(r0) =~= (|s: Seq<char>|
                Err::<SegmentStyleV, ParseErrorV>(ParseErrorV::MissingStyle(s))));
        }
        r
    }
}

} // verus!
