//! The lexer: scans raw source text into a sequence of typed tokens with
//! positions, exact text, and decoded literal values. Every character of the
//! input belongs to exactly one token; unrecognized characters become
//! `BadToken`s with a diagnostic, and scanning always ends in an
//! `EndOfFile` token. The functions `spec_scan` and `spec_lex` are the
//! mathematical description of the scan; the executable lexer is proved to
//! produce exactly their value.

use vstd::prelude::*;
use vstd::string::StrSliceExecFns;
use vstd::string::StringExecFns;

use crate::diagnostics::DiagnosticBag;
use crate::diagnostics::Diagnostic;
use crate::diagnostics::spec_bad_character;
use crate::diagnostics::spec_invalid_number;
use crate::syntax_kind::SyntaxKind;
use crate::syntax_kind::spec_binary_operator_precedence;
use crate::syntax_kind::spec_fixed_text;
use crate::syntax_kind::spec_unary_operator_precedence;
use crate::token::MinskValue;
use crate::token::SyntaxToken;
use crate::token::TextSpan;
use crate::token::Tok;

verus! {

/// The characters treated as whitespace.
pub open spec fn is_whitespace_char(c: char) -> bool {
    c == ' ' || c == '\t' || c == '\n' || c == '\r'
}

/// The decimal digits.
pub open spec fn is_digit_char(c: char) -> bool {
    48 <= c as u32 && c as u32 <= 57
}

/// The characters that may form identifiers and keywords.
pub open spec fn is_letter_char(c: char) -> bool {
    (65 <= c as u32 && c as u32 <= 90) || (97 <= c as u32 && c as u32 <= 122)
}

/// Numeric value of a decimal digit character.
pub open spec fn digit_value(c: char) -> int {
    c as u32 - 48
}

pub open spec fn whitespace_pred() -> spec_fn(char) -> bool {
    |c: char| is_whitespace_char(c)
}

pub open spec fn digit_pred() -> spec_fn(char) -> bool {
    |c: char| is_digit_char(c)
}

pub open spec fn letter_pred() -> spec_fn(char) -> bool {
    |c: char| is_letter_char(c)
}

/// First position at or after `pos` where `pred` stops holding (or the end
/// of the text): the end of the run of `pred`-characters starting at `pos`.
pub open spec fn run_end(s: Seq<char>, pos: int, pred: spec_fn(char) -> bool) -> int
    decreases s.len() - pos,
{
    if pos < s.len() && pred(s[pos]) {
        run_end(s, pos + 1, pred)
    } else {
        pos
    }
}

proof fn lemma_run_end(s: Seq<char>, pos: int, pred: spec_fn(char) -> bool)
    requires
        0 <= pos <= s.len(),
    ensures
        pos <= run_end(s, pos, pred) <= s.len(),
        forall|i: int| pos <= i < run_end(s, pos, pred) ==> pred(#[trigger] s[i]),
        run_end(s, pos, pred) < s.len() ==> !pred(s[run_end(s, pos, pred)]),
    decreases s.len() - pos,
{
    if pos < s.len() && pred(s[pos]) {
        lemma_run_end(s, pos + 1, pred);
    }
}

proof fn lemma_run_end_unique(s: Seq<char>, pos: int, end: int, pred: spec_fn(char) -> bool)
    requires
        0 <= pos <= end <= s.len(),
        forall|i: int| pos <= i < end ==> pred(#[trigger] s[i]),
        end < s.len() ==> !pred(s[end]),
    ensures
        run_end(s, pos, pred) == end,
    decreases end - pos,
{
    if pos < end {
        lemma_run_end_unique(s, pos + 1, end, pred);
    }
}

/// Value of a run of decimal digits, most significant digit first.
pub open spec fn spec_digits_value(t: Seq<char>) -> int
    decreases t.len(),
{
    if t.len() == 0 {
        0
    } else {
        spec_digits_value(t.drop_last()) * 10 + digit_value(t.last())
    }
}

proof fn lemma_digits_value_nonneg(t: Seq<char>)
    requires
        forall|i: int| 0 <= i < t.len() ==> is_digit_char(#[trigger] t[i]),
    ensures
        spec_digits_value(t) >= 0,
    decreases t.len(),
{
    if t.len() > 0 {
        lemma_digits_value_nonneg(t.drop_last());
    }
}

/// The kind of an identifier-shaped piece of text: a keyword kind where the
/// text is one of the language's keywords, `Identifier` otherwise.
pub open spec fn spec_identifier_kind(t: Seq<char>) -> SyntaxKind {
    if t == "true"@ {
        SyntaxKind::TrueKeyword
    } else if t == "false"@ {
        SyntaxKind::FalseKeyword
    } else if t == "let"@ {
        SyntaxKind::LetKeyword
    } else if t == "var"@ {
        SyntaxKind::VarKeyword
    } else if t == "if"@ {
        SyntaxKind::IfKeyword
    } else if t == "else"@ {
        SyntaxKind::ElseKeyword
    } else if t == "while"@ {
        SyntaxKind::WhileKeyword
    } else if t == "for"@ {
        SyntaxKind::ForKeyword
    } else if t == "to"@ {
        SyntaxKind::ToKeyword
    } else {
        SyntaxKind::Identifier
    }
}

/// The `EndOfFile` token of a text: zero-width, positioned past the last
/// character.
pub open spec fn eof_tok(s: Seq<char>) -> Tok {
    Tok {
        kind: SyntaxKind::EndOfFile,
        position: s.len() as usize,
        text: Seq::empty(),
        value: None,
    }
}

/// End position in `s` of the single token starting at `pos`: the end of the
/// character run for whitespace, numbers and identifiers, one past `pos` for
/// every other character. (The bound into `[pos + 1, s.len()]` is needed to
/// make the scan well founded; a run always stays inside it.)
pub open spec fn scan_end(s: Seq<char>, pos: int, raw: int) -> int {
    if raw < pos + 1 {
        pos + 1
    } else if raw > s.len() {
        s.len() as int
    } else {
        raw
    }
}

/// The token starting at position `pos` of `s`, the position following it,
/// and the diagnostics its scan reports. Past the end of the text the result
/// is the `EndOfFile` token, so scanning after the end is harmless and
/// yields `EndOfFile` forever.
pub open spec fn spec_scan(s: Seq<char>, pos: int) -> (Tok, int, Seq<Diagnostic>) {
    if pos < 0 || pos >= s.len() {
        (eof_tok(s), s.len() as int, Seq::empty())
    } else {
        let c = s[pos];
        if is_whitespace_char(c) {
            let end = scan_end(s, pos, run_end(s, pos, whitespace_pred()));
            let text = s.subrange(pos, end);
            (
                Tok { kind: SyntaxKind::Whitespace, position: pos as usize, text, value: None },
                end,
                Seq::empty(),
            )
        } else if is_digit_char(c) {
            let end = scan_end(s, pos, run_end(s, pos, digit_pred()));
            let text = s.subrange(pos, end);
            let value = spec_digits_value(text);
            let span = TextSpan { start: pos as usize, length: (end - pos) as usize };
            if value <= i64::MAX {
                (
                    Tok {
                        kind: SyntaxKind::Number,
                        position: pos as usize,
                        text,
                        value: Some(MinskValue::Integer(value as i64)),
                    },
                    end,
                    Seq::empty(),
                )
            } else {
                (
                    Tok { kind: SyntaxKind::Number, position: pos as usize, text, value: None },
                    end,
                    seq![spec_invalid_number(span)],
                )
            }
        } else if is_letter_char(c) {
            let end = scan_end(s, pos, run_end(s, pos, letter_pred()));
            let text = s.subrange(pos, end);
            (
                Tok {
                    kind: spec_identifier_kind(text),
                    position: pos as usize,
                    text,
                    value: None,
                },
                end,
                Seq::empty(),
            )
        } else {
            let text = s.subrange(pos, pos + 1);
            let single = |kind: SyntaxKind|
                (
                    Tok { kind, position: pos as usize, text, value: None },
                    pos + 1,
                    Seq::<Diagnostic>::empty(),
                );
            if c == '+' {
                single(SyntaxKind::Plus)
            } else if c == '-' {
                single(SyntaxKind::Minus)
            } else if c == '*' {
                single(SyntaxKind::Star)
            } else if c == '/' {
                single(SyntaxKind::Slash)
            } else if c == '=' {
                single(SyntaxKind::Equals)
            } else if c == '(' {
                single(SyntaxKind::OpenParenthesis)
            } else if c == ')' {
                single(SyntaxKind::CloseParenthesis)
            } else if c == '{' {
                single(SyntaxKind::OpenBrace)
            } else if c == '}' {
                single(SyntaxKind::CloseBrace)
            } else {
                let span = TextSpan { start: pos as usize, length: 1 };
                (
                    Tok { kind: SyntaxKind::BadToken, position: pos as usize, text, value: None },
                    pos + 1,
                    seq![spec_bad_character(span, c)],
                )
            }
        }
    }
}

/// The full token sequence of a text: one token per scan step, ending in
/// (and never containing an earlier) `EndOfFile`. Lexing is a pure function
/// of the text alone.
pub open spec fn spec_lex(s: Seq<char>, pos: int) -> Seq<Tok>
    decreases s.len() - pos,
{
    if pos < 0 || pos >= s.len() {
        seq![eof_tok(s)]
    } else {
        let (t, end, _) = spec_scan(s, pos);
        seq![t] + spec_lex(s, end)
    }
}

/// The diagnostics of a full scan, in order of detection.
pub open spec fn spec_lex_diagnostics(s: Seq<char>, pos: int) -> Seq<Diagnostic>
    decreases s.len() - pos,
{
    if pos < 0 || pos >= s.len() {
        Seq::empty()
    } else {
        let (_, end, d) = spec_scan(s, pos);
        d + spec_lex_diagnostics(s, end)
    }
}

/// The token sequence the parser consumes: `spec_lex` with `Whitespace` and
/// `BadToken` tokens filtered out.
pub open spec fn spec_kept_tokens(s: Seq<char>, pos: int) -> Seq<Tok>
    decreases s.len() - pos,
{
    if pos < 0 || pos >= s.len() {
        seq![eof_tok(s)]
    } else {
        let (t, end, _) = spec_scan(s, pos);
        if t.kind == SyntaxKind::Whitespace || t.kind == SyntaxKind::BadToken {
            spec_kept_tokens(s, end)
        } else {
            seq![t] + spec_kept_tokens(s, end)
        }
    }
}

fn is_whitespace(c: char) -> (r: bool)
    ensures
        r == is_whitespace_char(c),
{
    c == ' ' || c == '\t' || c == '\n' || c == '\r'
}

fn is_digit(c: char) -> (r: bool)
    ensures
        r == is_digit_char(c),
{
    let u = c as u32;
    48 <= u && u <= 57
}

fn is_letter(c: char) -> (r: bool)
    ensures
        r == is_letter_char(c),
{
    let u = c as u32;
    (65 <= u && u <= 90) || (97 <= u && u <= 122)
}

/// Character-wise equality of two string slices.
fn str_content_eq(a: &str, b: &str) -> (r: bool)
    ensures
        r == (a@ == b@),
{
    let len_a = a.unicode_len();
    let len_b = b.unicode_len();
    if len_a != len_b {
        return false;
    }
    let mut i: usize = 0;
    while i < len_a
        invariant
            0 <= i <= len_a,
            len_a == a@.len(),
            len_a == b@.len(),
            forall|j: int| 0 <= j < i ==> a@[j] == b@[j],
        decreases len_a - i,
    {
        if a.get_char(i) != b.get_char(i) {
            return false;
        }
        i += 1;
    }
    proof {
        assert(a@ =~= b@);
    }
    true
}

fn identifier_kind(text: &str) -> (kind: SyntaxKind)
    ensures
        kind == spec_identifier_kind(text@),
{
    if str_content_eq(text, "true") {
        SyntaxKind::TrueKeyword
    } else if str_content_eq(text, "false") {
        SyntaxKind::FalseKeyword
    } else if str_content_eq(text, "let") {
        SyntaxKind::LetKeyword
    } else if str_content_eq(text, "var") {
        SyntaxKind::VarKeyword
    } else if str_content_eq(text, "if") {
        SyntaxKind::IfKeyword
    } else if str_content_eq(text, "else") {
        SyntaxKind::ElseKeyword
    } else if str_content_eq(text, "while") {
        SyntaxKind::WhileKeyword
    } else if str_content_eq(text, "for") {
        SyntaxKind::ForKeyword
    } else if str_content_eq(text, "to") {
        SyntaxKind::ToKeyword
    } else {
        SyntaxKind::Identifier
    }
}

/// Stateful cursor over one source text. `next_token` hands out the tokens
/// of `spec_lex` one at a time and records the diagnostics of the scan.
pub struct Lexer<'a> {
    text: &'a str,
    position: usize,
    diagnostics: DiagnosticBag,
}

impl<'a> Lexer<'a> {
    /// The source text as a character sequence.
    pub closed spec fn src(self) -> Seq<char> {
        self.text@
    }

    /// The cursor: the position the next token starts at.
    pub closed spec fn pos(self) -> int {
        self.position as int
    }

    /// The diagnostics recorded so far, in order of detection.
    pub closed spec fn diags(self) -> Seq<Diagnostic> {
        self.diagnostics@
    }

    pub open spec fn wf(self) -> bool {
        0 <= self.pos() <= self.src().len()
    }

    pub fn new(text: &'a str) -> (lexer: Lexer<'a>)
        ensures
            lexer.wf(),
            lexer.src() == text@,
            lexer.pos() == 0,
            lexer.diags() == Seq::<Diagnostic>::empty(),
    {
        Lexer { text, position: 0, diagnostics: DiagnosticBag::new() }
    }

    /// Scan past the run of characters satisfying the class that the
    /// character at `self.position` belongs to.
    fn run_length_from(&self, start: usize, class: u8) -> (end: usize)
        requires
            self.wf(),
            start < self.src().len(),
            class == 0 ==> is_whitespace_char(self.src()[start as int]),
            class == 1 ==> is_digit_char(self.src()[start as int]),
            class >= 2 ==> is_letter_char(self.src()[start as int]),
        ensures
            start < end <= self.src().len(),
            class == 0 ==> end == run_end(self.src(), start as int, whitespace_pred()),
            class == 1 ==> end == run_end(self.src(), start as int, digit_pred()),
            class >= 2 ==> end == run_end(self.src(), start as int, letter_pred()),
    {
        let ghost s = self.src();
        let ghost pred: spec_fn(char) -> bool = if class == 0 {
            whitespace_pred()
        } else if class == 1 {
            digit_pred()
        } else {
            letter_pred()
        };
        let len = self.text.unicode_len();
        let mut end = start + 1;
        while end < len
            invariant
                self.wf(),
                s == self.src(),
                len == s.len(),
                start < end <= len,
                forall|j: int| start <= j < end ==> pred(#[trigger] s[j]),
                class == 0 ==> pred == whitespace_pred(),
                class == 1 ==> pred == digit_pred(),
                class >= 2 ==> pred == letter_pred(),
            ensures
                start < end <= len,
                forall|j: int| start <= j < end ==> pred(#[trigger] s[j]),
                end == len || !pred(s[end as int]),
            decreases len - end,
        {
            let c = self.text.get_char(end);
            let more = if class == 0 {
                is_whitespace(c)
            } else if class == 1 {
                is_digit(c)
            } else {
                is_letter(c)
            };
            if !more {
                break;
            }
            end += 1;
        }
        proof {
            assert(end == len || !pred(s[end as int]));
            lemma_run_end_unique(s, start as int, end as int, pred);
        }
        end
    }

    /// Decode the decimal digit run `[start, end)` of the text, or report
    /// that it does not fit an `i64`.
    fn decode_number(&mut self, start: usize, end: usize) -> (value: Option<MinskValue>)
        requires
            old(self).wf(),
            start < end <= old(self).src().len(),
            forall|j: int| start <= j < end ==> is_digit_char(#[trigger] old(self).src()[j]),
        ensures
            final(self).src() == old(self).src(),
            final(self).pos() == old(self).pos(),
            ({
                let text = old(self).src().subrange(start as int, end as int);
                let v = spec_digits_value(text);
                let span = TextSpan { start, length: (end - start) as usize };
                if v <= i64::MAX {
                    value == Some(MinskValue::Integer(v as i64)) && final(self).diags() == old(
                        self,
                    ).diags()
                } else {
                    value is None && final(self).diags() == old(self).diags().push(
                        spec_invalid_number(span),
                    )
                }
            }),
    {
        let ghost s = self.src();
        let ghost text = s.subrange(start as int, end as int);
        let mut value: i64 = 0;
        let mut overflow = false;
        let mut i = start;
        while i < end
            invariant
                start <= i <= end <= s.len(),
                forall|j: int| start <= j < end ==> is_digit_char(#[trigger] s[j]),
                !overflow ==> value == spec_digits_value(s.subrange(start as int, i as int)),
                overflow ==> spec_digits_value(s.subrange(start as int, i as int)) > i64::MAX,
                self.src() == old(self).src(),
                self.pos() == old(self).pos(),
                self.diags() == old(self).diags(),
                self.src() == s,
            decreases end - i,
        {
            let ghost prefix = s.subrange(start as int, i as int);
            let ghost next_prefix = s.subrange(start as int, i + 1);
            proof {
                assert(next_prefix.drop_last() =~= prefix);
                assert(next_prefix.last() == s[i as int]);
                lemma_digits_value_nonneg(prefix);
            }
            let c = self.text.get_char(i);
            let digit = (c as u32 - 48) as i64;
            if !overflow {
                let stepped = match value.checked_mul(10) {
                    Some(v10) => v10.checked_add(digit),
                    None => None,
                };
                match stepped {
                    Some(v) => {
                        value = v;
                    },
                    None => {
                        overflow = true;
                    },
                }
            } else {
                proof {
                    lemma_digits_value_nonneg(next_prefix);
                    assert(spec_digits_value(next_prefix) == spec_digits_value(prefix) * 10
                        + digit_value(s[i as int]));
                    assert(spec_digits_value(prefix) * 10 >= spec_digits_value(prefix)) by {
                        lemma_digits_value_nonneg(prefix);
                    }
                }
            }
            i += 1;
        }
        proof {
            assert(s.subrange(start as int, end as int) == text);
        }
        if overflow {
            let span = TextSpan { start, length: end - start };
            self.diagnostics.report_invalid_number(span);
            None
        } else {
            Some(MinskValue::Integer(value))
        }
    }

    /// Scan exactly one token and advance past it. After the end of the
    /// text this keeps returning the `EndOfFile` token. Every diagnostic of
    /// the scan is appended to the bag.
    pub fn next_token(&mut self) -> (token: SyntaxToken)
        requires
            old(self).wf(),
        ensures
            final(self).wf(),
            final(self).src() == old(self).src(),
            ({
                let (t, end, d) = spec_scan(old(self).src(), old(self).pos());
                &&& token@ == t
                &&& final(self).pos() == end
                &&& final(self).diags() == old(self).diags() + d
            }),
    {
        let ghost s = self.src();
        let ghost pos = self.pos();
        let len = self.text.unicode_len();
        if self.position >= len {
            proof {
                assert(self.diags() =~= self.diags() + Seq::<Diagnostic>::empty());
            }
            self.position = len;
            return SyntaxToken::new(SyntaxKind::EndOfFile, len, String::new(), None);
        }
        let start = self.position;
        let c = self.text.get_char(start);
        if is_whitespace(c) {
            let end = self.run_length_from(start, 0);
            let text = self.text.substring_char(start, end).to_owned();
            self.position = end;
            proof {
                assert(self.diags() =~= self.diags() + Seq::<Diagnostic>::empty());
            }
            SyntaxToken::new(SyntaxKind::Whitespace, start, text, None)
        } else if is_digit(c) {
            let end = self.run_length_from(start, 1);
            proof {
                lemma_run_end(s, start as int, digit_pred());
            }
            let value = self.decode_number(start, end);
            let text = self.text.substring_char(start, end).to_owned();
            self.position = end;
            proof {
                if value is Some {
                    assert(self.diags() =~= self.diags() + Seq::<Diagnostic>::empty());
                } else {
                    let span = TextSpan { start, length: (end - start) as usize };
                    assert(old(self).diags().push(spec_invalid_number(span)) =~= old(self).diags()
                        + seq![spec_invalid_number(span)]);
                }
            }
            SyntaxToken::new(SyntaxKind::Number, start, text, value)
        } else if is_letter(c) {
            let end = self.run_length_from(start, 2);
            let slice = self.text.substring_char(start, end);
            let kind = identifier_kind(slice);
            let text = slice.to_owned();
            self.position = end;
            proof {
                assert(self.diags() =~= self.diags() + Seq::<Diagnostic>::empty());
            }
            SyntaxToken::new(kind, start, text, None)
        } else {
            let text = self.text.substring_char(start, start + 1).to_owned();
            self.position = start + 1;
            let kind = if c == '+' {
                SyntaxKind::Plus
            } else if c == '-' {
                SyntaxKind::Minus
            } else if c == '*' {
                SyntaxKind::Star
            } else if c == '/' {
                SyntaxKind::Slash
            } else if c == '=' {
                SyntaxKind::Equals
            } else if c == '(' {
                SyntaxKind::OpenParenthesis
            } else if c == ')' {
                SyntaxKind::CloseParenthesis
            } else if c == '{' {
                SyntaxKind::OpenBrace
            } else if c == '}' {
                SyntaxKind::CloseBrace
            } else {
                let span = TextSpan { start, length: 1 };
                self.diagnostics.report_bad_character(span, c);
                proof {
                    assert(old(self).diags().push(spec_bad_character(span, c)) =~= old(
                        self,
                    ).diags() + seq![spec_bad_character(span, c)]);
                }
                SyntaxKind::BadToken
            };
            proof {
                if kind != SyntaxKind::BadToken {
                    assert(self.diags() =~= self.diags() + Seq::<Diagnostic>::empty());
                }
            }
            SyntaxToken::new(kind, start, text, None)
        }
    }

    /// Hand the recorded diagnostics over to the caller.
    pub fn diagnostics(self) -> (bag: DiagnosticBag)
        ensures
            bag@ == self.diags(),
    {
        self.diagnostics
    }
}

/// A single letter never spells a keyword, so it scans to an `Identifier`.
pub proof fn lemma_single_letter_kind(c: char)
    requires
        is_letter_char(c),
    ensures
        spec_identifier_kind(seq![c]) == SyntaxKind::Identifier,
{
    broadcast use vstd::string::group_string_axioms;

    reveal_strlit("true");
    reveal_strlit("false");
    reveal_strlit("let");
    reveal_strlit("var");
    reveal_strlit("if");
    reveal_strlit("else");
    reveal_strlit("while");
    reveal_strlit("for");
    reveal_strlit("to");
    // Every keyword spelling is at least two characters long, so none can
    // equal a one-character text.
    assert(seq![c].len() == 1);
    assert("true"@.len() == 4);
    assert("false"@.len() == 5);
    assert("let"@.len() == 3);
    assert("var"@.len() == 3);
    assert("if"@.len() == 2);
    assert("else"@.len() == 4);
    assert("while"@.len() == 5);
    assert("for"@.len() == 3);
    assert("to"@.len() == 2);
}

/// A letter not followed by another letter scans to an `Identifier` token
/// of exactly that letter, without a diagnostic.
pub proof fn lemma_scan_letter(s: Seq<char>, pos: int)
    requires
        0 <= pos < s.len(),
        is_letter_char(s[pos]),
        pos + 1 == s.len() || !is_letter_char(s[pos + 1]),
    ensures
        spec_scan(s, pos) == (
            Tok {
                kind: SyntaxKind::Identifier,
                position: pos as usize,
                text: seq![s[pos]],
                value: None,
            },
            pos + 1,
            Seq::<Diagnostic>::empty(),
        ),
{
    lemma_run_end_unique(s, pos, pos + 1, letter_pred());
    assert(s.subrange(pos, pos + 1) =~= seq![s[pos]]);
    lemma_single_letter_kind(s[pos]);
}

/// An operator character scans to the single-character token of its kind,
/// without a diagnostic. The character is neither whitespace, a digit nor a
/// letter, so it also ends any run before it.
pub proof fn lemma_scan_operator(s: Seq<char>, pos: int, kind: SyntaxKind)
    requires
        0 <= pos < s.len(),
        spec_fixed_text(kind) == Some(seq![s[pos]]),
        spec_binary_operator_precedence(kind) > 0 || spec_unary_operator_precedence(kind) > 0,
    ensures
        !is_whitespace_char(s[pos]),
        !is_digit_char(s[pos]),
        !is_letter_char(s[pos]),
        spec_scan(s, pos) == (
            Tok { kind, position: pos as usize, text: seq![s[pos]], value: None },
            pos + 1,
            Seq::<Diagnostic>::empty(),
        ),
{
    reveal_strlit("+");
    reveal_strlit("-");
    reveal_strlit("*");
    reveal_strlit("/");
    assert(s[pos] == '+' || s[pos] == '-' || s[pos] == '*' || s[pos] == '/') by {
        if kind == SyntaxKind::Plus {
            assert(seq![s[pos]] =~= "+"@);
            assert(s[pos] == "+"@[0]);
        } else if kind == SyntaxKind::Minus {
            assert(seq![s[pos]] =~= "-"@);
            assert(s[pos] == "-"@[0]);
        } else if kind == SyntaxKind::Star {
            assert(seq![s[pos]] =~= "*"@);
            assert(s[pos] == "*"@[0]);
        } else {
            assert(kind == SyntaxKind::Slash);
            assert(seq![s[pos]] =~= "/"@);
            assert(s[pos] == "/"@[0]);
        }
    }
    assert(s.subrange(pos, pos + 1) =~= seq![s[pos]]);
}

/// Lex a whole text: the full token sequence, whitespace and bad tokens
/// included, ending in `EndOfFile`. The result is a pure function of the
/// text, so lexing the same text twice gives element-wise equal sequences.
pub fn lex_tokens(text: &str) -> (tokens: Vec<SyntaxToken>)
    ensures
        tokens.deep_view() == spec_lex(text@, 0),
{
    let ghost s = text@;
    let mut lexer = Lexer::new(text);
    let mut tokens: Vec<SyntaxToken> = Vec::new();
    loop
        invariant_except_break
            lexer.wf(),
            lexer.src() == s,
            tokens.deep_view() + spec_lex(s, lexer.pos()) =~= spec_lex(s, 0),
        ensures
            tokens.deep_view() =~= spec_lex(s, 0),
        decreases s.len() - lexer.pos() + 1,
    {
        let ghost p = lexer.pos();
        let ghost prev = tokens.deep_view();
        let token = lexer.next_token();
        let done = token.kind == SyntaxKind::EndOfFile;
        tokens.push(token);
        proof {
            assert(tokens.deep_view() =~= prev.push(token@));
            if p < s.len() {
                let (t, end, d) = spec_scan(s, p);
                assert(spec_lex(s, p) == seq![t] + spec_lex(s, end));
                assert(tokens.deep_view() + spec_lex(s, lexer.pos()) =~= prev + spec_lex(s, p));
            } else {
                assert(spec_lex(s, p) == seq![eof_tok(s)]);
                assert(tokens.deep_view() =~= prev + spec_lex(s, p));
            }
        }
        if done {
            proof {
                assert(tokens.deep_view() =~= spec_lex(s, 0));
            }
            break;
        }
    }
    tokens
}

} // verus!
