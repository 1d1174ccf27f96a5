use vstd::prelude::*;

use crate::literal::{digit_of, digit_value};
use crate::report::{context_label, error_model, message_label, plain_label, Color, Label, Report, ReportModel};
use crate::span::Span;
use crate::text::{char_from_u32, concat, is_scalar, push_char, string_of};

verus! {

/// Bytes that `c` takes in UTF-8.
pub open spec fn utf8_len(c: char) -> nat {
    let u = c as u32;
    if u < 0x80 {
        1
    } else if u < 0x800 {
        2
    } else if u < 0x10000 {
        3
    } else {
        4
    }
}

pub fn utf8_len_of(c: char) -> (r: usize)
    ensures
        r == utf8_len(c),
{
    let u = c as u32;
    if u < 0x80 {
        1
    } else if u < 0x800 {
        2
    } else if u < 0x10000 {
        3
    } else {
        4
    }
}

/// The character an escape letter stands for, for the one-letter escapes.
pub open spec fn simple_escape(e: char) -> Option<char> {
    if e == '\\' || e == '\'' || e == '"' {
        Some(e)
    } else if e == 'n' {
        Some('\n')
    } else if e == 'r' {
        Some('\r')
    } else if e == 't' {
        Some('\t')
    } else if e == 'b' {
        Some('\u{0008}')
    } else if e == 'f' {
        Some('\u{000C}')
    } else if e == '0' {
        Some('\0')
    } else {
        None
    }
}

pub open spec fn is_hex(c: char) -> bool {
    digit_value(c) < 16
}

/// How many hex digits, up to four, stand from position `j + k` on, given that
/// `k` of them were already seen.
pub open spec fn hex_run(s: Seq<char>, j: int, k: nat) -> nat
    decreases 4 - k,
{
    if k >= 4 {
        4
    } else if j + k < s.len() && is_hex(s[j + k]) {
        hex_run(s, j, k + 1)
    } else {
        k
    }
}

/// The value of the `k` hex digits from position `j`.
pub open spec fn hex_value(s: Seq<char>, j: int, k: nat) -> nat
    decreases k,
{
    if k == 0 {
        0
    } else {
        hex_value(s, j, (k - 1) as nat) * 16 + digit_value(s[j + k - 1])
    }
}

/// The code of a character.
pub open spec fn code_of(c: char) -> int {
    c as int
}

/// The character whose code is `v`.
pub open spec fn char_with_code(v: int) -> char {
    choose|c: char| code_of(c) == v
}

/// The empty span at byte `off` of the text of a string literal spanned by `sp`
/// (its text starts one byte after the opening quote).
pub open spec fn text_at(sp: Span, off: int) -> Span {
    Span { filename: sp.filename, start: (sp.start + off + 1) as usize, end: (sp.start + off + 1) as usize }
}

/// The span of bytes `a` to `b` of the text of a string literal spanned by `sp`.
pub open spec fn text_between(sp: Span, a: int, b: int) -> Span {
    Span { filename: sp.filename, start: (sp.start + a + 1) as usize, end: (sp.start + b + 1) as usize }
}

pub open spec fn syntax_title(msg: Seq<char>) -> Seq<char> {
    "SyntaxError "@ + msg
}

/// The report for text that ends inside an escape, at byte `cur`; `from` is where
/// the escape's code began.
pub open spec fn end_of_string(sp: Span, from: int, cur: int) -> ReportModel {
    error_model(
        syntax_title("Unexpected end of string."@),
        seq![message_label(text_at(sp, cur), "here"@), context_label(text_between(sp, from, cur))],
    )
}

/// What `{:?}` writes for a character: the character quoted, with escapes.
pub uninterp spec fn char_debug_text(c: char) -> Seq<char>;

/// Relies on `Debug` for `char`: the quoted and escaped form of the
/// character, which depends on the character alone.
#[verifier::external_body]
fn char_debug(c: char) -> (r: String)
    ensures
        r@ == char_debug_text(c),
{
    format!("{:?}", c)
}

/// The report for a character `c` at byte `cur` inside a `\u` code that began at `from`.
pub open spec fn bad_code_char(sp: Span, c: char, from: int, cur: int) -> ReportModel {
    error_model(
        syntax_title("Unexpected character "@ + char_debug_text(c) + " for escape code"@),
        seq![message_label(text_at(sp, cur), "here"@), context_label(text_between(sp, from, cur))],
    )
}

/// The report for an escape letter `e` at byte `at` that no escape begins with.
pub open spec fn bad_escape(sp: Span, e: char, at: int) -> ReportModel {
    error_model(
        syntax_title("Invalid Escape Character: "@ + seq![e]),
        seq![plain_label(text_at(sp, at)), context_label(sp)],
    )
}

/// The report for four hex digits `code`, from byte `from`, that name no character.
pub open spec fn bad_code(sp: Span, code: Seq<char>, from: int) -> ReportModel {
    error_model(
        syntax_title("Invalid Unicode Escape Sequence: "@ + code),
        seq![plain_label(text_between(sp, from, from + 4)), context_label(sp)],
    )
}

/// Decoding the escapes of `s` from character `i`, which starts at byte `b`,
/// after `acc` was decoded: the text, or the report on the first bad escape.
pub open spec fn unescape_spec(s: Seq<char>, sp: Span, i: int, b: int, acc: Seq<char>) -> Result<Seq<char>, ReportModel>
    decreases s.len() - i,
{
    if i < 0 || i >= s.len() {
        Ok(acc)
    } else if s[i] != '\\' {
        unescape_spec(s, sp, i + 1, b + utf8_len(s[i]), acc.push(s[i]))
    } else if i + 1 >= s.len() {
        Err(end_of_string(sp, b + 1, b + 1))
    } else {
        let e = s[i + 1];
        let from = b + 2;
        match simple_escape(e) {
            Some(c) => unescape_spec(s, sp, i + 2, b + 1 + utf8_len(e), acc.push(c)),
            None => if e != 'u' {
                Err(bad_escape(sp, e, b + 1))
            } else {
                let run = hex_run(s, i + 2, 0);
                if run < 4 {
                    if i + 2 + run >= s.len() {
                        Err(end_of_string(sp, from, from + run))
                    } else {
                        Err(bad_code_char(sp, s[i + 2 + run], from, from + run))
                    }
                } else {
                    let v = hex_value(s, i + 2, 4);
                    if !is_scalar(v as int) {
                        Err(bad_code(sp, s.subrange(i + 2, i + 6), from))
                    } else if i + 6 <= s.len() {
                        unescape_spec(s, sp, i + 6, from + 4, acc.push(char_with_code(v as int)))
                    } else {
                        Ok(acc)
                    }
                }
            },
        }
    }
}

/// The text a string literal's body `s` stands for, or the report on its first bad
/// escape. `sp` is the span of the whole literal, quotes included.
pub open spec fn unescape(s: Seq<char>, sp: Span) -> Result<Seq<char>, ReportModel> {
    unescape_spec(s, sp, 0, 0, Seq::empty())
}

/// Spans stay in range for any offset inside the literal's body.
pub open spec fn fits(s: Seq<char>, sp: Span) -> bool {
    sp.start + 4 * s.len() + 8 <= usize::MAX
}

/// Decodes the escape sequences of a string literal's body.
pub struct StringParser {
    span: Span,
    source: Vec<char>,
    current_char: Option<char>,
    /// Position of the current character in `source`.
    current_pos: usize,
    /// Byte offset of the current character in the body.
    current_index: usize,
}

impl StringParser {
    pub closed spec fn wf(&self) -> bool {
        &&& self.current_pos <= self.source@.len()
        &&& self.current_index <= 4 * self.current_pos
        &&& fits(self.source@, self.span)
        &&& self.current_char == (if self.current_pos < self.source@.len() {
            Some(self.source@[self.current_pos as int])
        } else {
            None::<char>
        })
    }

    pub closed spec fn body(&self) -> Seq<char> {
        self.source@
    }

    pub closed spec fn literal_span(&self) -> Span {
        self.span
    }

    pub closed spec fn pos(&self) -> nat {
        self.current_pos as nat
    }

    /// The character the parser stands on, if any.
    pub closed spec fn current(&self) -> Option<char> {
        self.current_char
    }

    pub open spec fn fresh(&self) -> bool {
        self.pos() == 0
    }

    pub fn new(source: &str, span: Span) -> (r: StringParser)
        requires
            fits(source@, span),
        ensures
            r.wf(),
            r.body() == source@,
            r.literal_span() == span,
            r.fresh(),
            r.byte() == 0,
            r.current() == (if source@.len() > 0 { Some(source@[0]) } else { None::<char> }),
    {
        let n = source.unicode_len();
        let mut chars: Vec<char> = Vec::new();
        let mut i: usize = 0;
        while i < n
            invariant
                n == source@.len(),
                i <= n,
                chars@ == source@.subrange(0, i as int),
            decreases n - i,
        {
            chars.push(source.get_char(i));
            i = i + 1;
        }
        assert(chars@ =~= source@);
        let current_char = if n > 0 { Some(chars[0]) } else { None };
        StringParser { span, source: chars, current_char, current_pos: 0, current_index: 0 }
    }

    fn advance(&mut self)
        requires
            old(self).wf(),
            old(self).current_pos < old(self).source@.len(),
        ensures
            final(self).wf(),
            final(self).current_pos == old(self).current_pos + 1,
            final(self).current_index == old(self).current_index
                + utf8_len(old(self).source@[old(self).current_pos as int]),
            final(self).source == old(self).source,
            final(self).span == old(self).span,
    {
        let c = self.source[self.current_pos];
        self.current_index = self.current_index + utf8_len_of(c);
        self.current_pos = self.current_pos + 1;
        self.current_char = if self.current_pos < self.source.len() {
            Some(self.source[self.current_pos])
        } else {
            None
        };
    }

    fn span(&self, start: usize, end: usize) -> (r: Span)
        requires
            self.span.start + start + 1 <= usize::MAX,
            self.span.start + end + 1 <= usize::MAX,
        ensures
            r == text_between(self.span, start as int, end as int),
    {
        Span { filename: self.span.filename, start: self.span.start + start + 1, end: self.span.start + end + 1 }
    }

    fn span_from(&self, start: usize) -> (r: Span)
        requires
            self.span.start + start + 1 <= usize::MAX,
            self.span.start + self.current_index + 1 <= usize::MAX,
        ensures
            r == text_between(self.span, start as int, self.current_index as int),
    {
        self.span(start, self.current_index)
    }

    fn span_at(&self, start: usize) -> (r: Span)
        requires
            self.span.start + start + 1 <= usize::MAX,
        ensures
            r == text_at(self.span, start as int),
    {
        Span::at(self.span.filename, self.span.start + start + 1)
    }
}

/// An error report titled `SyntaxError <msg>`, with no labels yet.
pub fn syntax_error(msg: &str) -> (r: Report)
    ensures
        r@ == error_model(syntax_title(msg@), Seq::empty()),
{
    Report::error(concat(string_of("SyntaxError "), msg))
}

/// The report for text that ends inside an escape.
fn end_of_string_report(here: Span, context: Span) -> (r: Report)
    ensures
        r@ == error_model(
            syntax_title("Unexpected end of string."@),
            seq![message_label(here, "here"@), context_label(context)],
        ),
{
    let r = syntax_error("Unexpected end of string.")
        .with_label(Label::new(here).with_message(string_of("here")))
        .with_label(Label::new(context).with_color(Color::Blue));
    proof {
        assert(r@.labels =~= seq![message_label(here, "here"@), context_label(context)]);
    }
    r
}

impl StringParser {
    pub closed spec fn byte(&self) -> nat {
        self.current_index as nat
    }

    /// Reads the four hex digits of a `\u` escape, the parser standing on the first.
    fn parse_code(&mut self) -> (r: Result<char, Report>)
        requires
            old(self).wf(),
        ensures
            final(self).wf(),
            final(self).source@ == old(self).source@,
            final(self).span == old(self).span,
            ({
                let s = old(self).source@;
                let sp = old(self).span;
                let j = old(self).current_pos as int;
                let from = old(self).current_index as int;
                let run = hex_run(s, j, 0);
                let v = hex_value(s, j, 4);
                if run < 4 {
                    if j + run >= s.len() {
                        r matches Err(e) && e@ == end_of_string(sp, from, from + run)
                    } else {
                        r matches Err(e) && e@ == bad_code_char(sp, s[j + run], from, from + run)
                    }
                } else if !is_scalar(v as int) {
                    r matches Err(e) && e@ == bad_code(sp, s.subrange(j, j + 4), from)
                } else {
                    &&& r == Ok::<char, Report>(char_with_code(v as int))
                    &&& j + 4 <= s.len()
                    &&& final(self).current_pos == j + 4
                    &&& final(self).current_index == from + 4
                }
            }),
    {
        let ghost s = self.source@;
        let ghost j = self.current_pos as int;
        let code_start = self.current_index;
        let mut v: u32 = 0;
        let mut k: usize = 0;
        while k < 4
            invariant
                self.wf(),
                self.source@ == s,
                self.span == old(self).span,
                s == old(self).source@,
                j == old(self).current_pos,
                code_start == old(self).current_index,
                k <= 4,
                self.current_pos == j + k,
                self.current_index == code_start + k,
                hex_run(s, j, 0) == hex_run(s, j, k as nat),
                v == hex_value(s, j, k as nat),
                v < pow16(k as nat),
            decreases 4 - k,
        {
            match self.current_char {
                Some(c) => {
                    let d = digit_of(c);
                    if d < 16 {
                        proof {
                            assert(pow16((k + 1) as nat) == 16 * pow16(k as nat));
                            assert(v * 16 + d < pow16((k + 1) as nat)) by (nonlinear_arith)
                                requires
                                    v < pow16(k as nat),
                                    d < 16,
                                    pow16((k + 1) as nat) == 16 * pow16(k as nat),
                            ;
                            assert(pow16(k as nat) <= 65536) by {
                                lemma_pow16_le(k as nat);
                            }
                        }
                        v = v * 16 + d;
                        self.advance();
                        k = k + 1;
                    } else {
                        let title = concat(string_of("SyntaxError "), "Unexpected character ");
                        let shown = char_debug(c);
                        let title = concat(concat(title, shown.as_str()), " for escape code");
                        let here = self.span_at(self.current_index);
                        let context = self.span_from(code_start);
                        let r = Report::error(title)
                            .with_label(Label::new(here).with_message(string_of("here")))
                            .with_label(Label::new(context).with_color(Color::Blue));
                        proof {
                            assert(r@.labels =~= seq![message_label(here, "here"@), context_label(context)]);
                            assert(r@.title =~= syntax_title("Unexpected character "@ + char_debug_text(c) + " for escape code"@));
                        }
                        return Err(r);
                    }
                },
                None => {
                    let here = self.span_at(self.current_index);
                    let context = self.span_from(code_start);
                    return Err(end_of_string_report(here, context));
                },
            }
        }
        assert(j + 4 <= s.len());
        match char_from_u32(v) {
            Some(c) => {
                proof {
                    assert(exists|x: char| code_of(x) == v as int) by {
                        assert(code_of(c) == v as int);
                    }
                    let c2 = char_with_code(v as int);
                    assert(code_of(c2) == v as int);
                    assert(c == c2);
                }
                Ok(c)
            },
            None => {
                let mut title = concat(string_of("SyntaxError "), "Invalid Unicode Escape Sequence: ");
                let mut p: usize = self.current_pos - 4;
                while p < self.current_pos
                    invariant
                        self.wf(),
                        self.current_pos == j + 4,
                        self.source@ == s,
                        0 <= j <= p <= j + 4,
                        j + 4 <= s.len(),
                        title@ == "SyntaxError "@ + "Invalid Unicode Escape Sequence: "@ + s.subrange(j, p as int),
                    decreases j + 4 - p,
                {
                    push_char(&mut title, self.source[p]);
                    proof {
                        assert(s.subrange(j, p + 1) =~= s.subrange(j, p as int).push(s[p as int]));
                    }
                    p = p + 1;
                }
                let code_span = self.span(code_start, self.current_index);
                let r = Report::error(title)
                    .with_label(Label::new(code_span))
                    .with_label(Label::new(self.span).with_color(Color::Blue));
                proof {
                    assert(r@.labels =~= seq![plain_label(code_span), context_label(self.span)]);
                    assert(r@.title =~= syntax_title("Invalid Unicode Escape Sequence: "@ + s.subrange(j, j + 4)));
                }
                Err(r)
            },
        }
    }
}

impl StringParser {
    /// The decoded text of the body, or the report on its first bad escape.
    pub fn parse(&mut self) -> (r: Result<String, Report>)
        requires
            old(self).wf(),
            old(self).fresh(),
        ensures
            match unescape(old(self).body(), old(self).literal_span()) {
                Ok(t) => r matches Ok(s) && s@ == t,
                Err(m) => r matches Err(e) && e@ == m,
            },
    {
        let ghost s = self.source@;
        let ghost sp = self.span;
        let mut buf = String::new();
        let n = self.source.len();
        assert(buf@ =~= Seq::<char>::empty());
        while self.current_pos < n
            invariant
                self.wf(),
                n == s.len(),
                self.source@ == s,
                self.span == sp,
                sp == old(self).literal_span(),
                s == old(self).body(),
                unescape_spec(s, sp, self.current_pos as int, self.current_index as int, buf@)
                    == unescape(s, sp),
            decreases n - self.current_pos,
        {
            let i = self.current_pos;
            let start = self.current_index;
            let c = self.source[i];
            if c == '\\' {
                self.advance();
                if self.current_pos >= n {
                    let here = self.span_at(self.current_index);
                    let context = self.span_from(self.current_index);
                    return Err(end_of_string_report(here, context));
                }
                let e = self.source[self.current_pos];
                self.advance();
                let simple = match e {
                    '\\' | '\'' | '"' => Some(e),
                    'n' => Some('\n'),
                    'r' => Some('\r'),
                    't' => Some('\t'),
                    'b' => Some('\u{0008}'),
                    'f' => Some('\u{000C}'),
                    '0' => Some('\0'),
                    _ => None,
                };
                match simple {
                    Some(ch) => {
                        push_char(&mut buf, ch);
                    },
                    None => {
                        if e == 'u' {
                            let ch = self.parse_code()?;
                            push_char(&mut buf, ch);
                        } else {
                            let mut title = concat(string_of("SyntaxError "), "Invalid Escape Character: ");
                            push_char(&mut title, e);
                            let at = self.span_at(start + 1);
                            let r = Report::error(title)
                                .with_label(Label::new(at))
                                .with_label(Label::new(self.span).with_color(Color::Blue));
                            proof {
                                assert(r@.labels =~= seq![plain_label(at), context_label(sp)]);
                                assert(r@.title =~= syntax_title("Invalid Escape Character: "@ + seq![e]));
                            }
                            return Err(r);
                        }
                    },
                }
            } else {
                self.advance();
                push_char(&mut buf, c);
            }
        }
        Ok(buf)
    }
}

pub open spec fn pow16(k: nat) -> nat
    decreases k,
{
    if k == 0 {
        1
    } else {
        16 * pow16((k - 1) as nat)
    }
}

proof fn lemma_pow16_le(k: nat)
    requires
        k <= 4,
    ensures
        pow16(k) <= 65536,
{
    reveal_with_fuel(pow16, 5);
}

} // verus!
