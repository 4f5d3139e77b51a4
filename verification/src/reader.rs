//! The reader: a recursive, delimiter-aware, one-character-lookahead state
//! machine that turns source text into a sequence of top-level values.
//!
//! The model of the whole read is a family of spec functions over the
//! remaining character sequence; each executable reader function is proved
//! to realize its spec function exactly, including every diagnostic and the
//! position at which it is reported.
use vstd::prelude::*;

verus! {

use crate::ast::AstVal;
use crate::diag::{ErrKind, ReadErr};
use crate::model::{vm, vmp, vms, ValModel};
use crate::num::{int_token_val, is_digit, is_float_chars, is_float_token, parse_i32};
use crate::strutil::{chars_of, string_of};

broadcast use crate::model::vms_len, crate::model::vms_index, crate::model::vmp_len,
    crate::model::vmp_index;

/// `c` is whitespace: space, tab or newline.
pub open spec fn is_ws(c: char) -> bool {
    c == ' ' || c == '\t' || c == '\n'
}

/// `c` terminates a token: one of `" ; @ ^ ` ~ ( ) [ ] { } \`.
pub open spec fn is_term(c: char) -> bool {
    c == '"' || c == ';' || c == '@' || c == '^' || c == '`' || c == '~' || c == '(' || c == ')'
        || c == '[' || c == ']' || c == '{' || c == '}' || c == '\\'
}

/// `c` ends a token: whitespace or a terminating character.
pub open spec fn is_break(c: char) -> bool {
    is_ws(c) || is_term(c)
}

/// `c` may be part of a number token.
pub open spec fn is_num_char(c: char) -> bool {
    is_digit(c) || c == '.' || c == 'e' || c == '+' || c == '-'
}

/// The longest token prefix of `s`: characters up to the first break.
pub open spec fn tok_take(s: Seq<char>) -> Seq<char>
    decreases s.len(),
{
    if s.len() == 0 || is_break(s[0]) {
        Seq::empty()
    } else {
        seq![s[0]] + tok_take(s.skip(1))
    }
}

/// What follows the longest token prefix of `s`.
pub open spec fn tok_rest(s: Seq<char>) -> Seq<char>
    decreases s.len(),
{
    if s.len() == 0 || is_break(s[0]) {
        s
    } else {
        tok_rest(s.skip(1))
    }
}

/// The longest number-character prefix of `s`.
pub open spec fn num_take(s: Seq<char>) -> Seq<char>
    decreases s.len(),
{
    if s.len() == 0 || !is_num_char(s[0]) {
        Seq::empty()
    } else {
        seq![s[0]] + num_take(s.skip(1))
    }
}

/// What follows the longest number-character prefix of `s`.
pub open spec fn num_rest(s: Seq<char>) -> Seq<char>
    decreases s.len(),
{
    if s.len() == 0 || !is_num_char(s[0]) {
        s
    } else {
        num_rest(s.skip(1))
    }
}

/// A sequence of number characters is one whole number token.
pub proof fn lemma_num_take_all(s: Seq<char>)
    requires
        forall|i: int| 0 <= i < s.len() ==> is_num_char(#[trigger] s[i]),
    ensures
        num_take(s) == s,
        num_rest(s) == Seq::<char>::empty(),
    decreases s.len(),
{
    if s.len() == 0 {
        assert(num_take(s) =~= s);
        assert(num_rest(s) =~= Seq::<char>::empty());
    } else {
        assert(forall|i: int| 0 <= i < s.skip(1).len() ==> is_num_char(#[trigger] s.skip(1)[i]));
        lemma_num_take_all(s.skip(1));
        assert(num_take(s) =~= s);
    }
}

/// The characters of `s` up to the first newline.
pub open spec fn line_take(s: Seq<char>) -> Seq<char>
    decreases s.len(),
{
    if s.len() == 0 || s[0] == '\n' {
        Seq::empty()
    } else {
        seq![s[0]] + line_take(s.skip(1))
    }
}

/// What follows the first line of `s`, after its newline when there is one.
pub open spec fn line_rest(s: Seq<char>) -> Seq<char>
    decreases s.len(),
{
    if s.len() == 0 {
        s
    } else if s[0] == '\n' {
        s.skip(1)
    } else {
        line_rest(s.skip(1))
    }
}

/// The raw character source: the remaining input, consumed from the front,
/// with a one-character push-back.
#[derive(Debug)]
pub struct RawReader {
    /// The remaining characters, last-to-read first.
    buf: Vec<char>,
    /// The character count of the input this reader started from.
    total: usize,
}

impl View for RawReader {
    type V = Seq<char>;

    /// The remaining input, in reading order.
    closed spec fn view(&self) -> Seq<char> {
        self.buf@.reverse()
    }
}

/// The position of the point `rem_len` characters before the end of an
/// input of `total` characters; zero when push-back went past the start.
pub open spec fn pos_of(total: nat, rem_len: nat) -> nat {
    if rem_len <= total {
        (total - rem_len) as nat
    } else {
        0
    }
}

impl RawReader {
    /// The character count of the input this reader started from.
    pub closed spec fn start_len(&self) -> nat {
        self.total as nat
    }

    /// Builds a reader over the whole of `s`.
    pub fn new(s: String) -> (r: RawReader)
        ensures
            r@ == s@,
            r.start_len() == s@.len(),
    {
        let cs = chars_of(s.as_str());
        let n = cs.len();
        let mut buf: Vec<char> = Vec::new();
        let mut i: usize = 0;
        while i < n
            invariant
                i <= n,
                n == cs@.len(),
                buf@.len() == i,
                forall|m: int| 0 <= m < i ==> buf@[m] == cs@[n - 1 - m],
            decreases n - i,
        {
            buf.push(cs[n - 1 - i]);
            i = i + 1;
        }
        let r = RawReader { buf, total: n };
        proof {
            assert(r@ =~= cs@);
        }
        r
    }

    /// The number of characters left to read.
    pub fn len(&self) -> (n: usize)
        ensures
            n == self@.len(),
    {
        proof {
            assert(self@.len() == self.buf@.len());
        }
        self.buf.len()
    }

    /// Removes and returns the next character, if any is left.
    pub fn consume_char(&mut self) -> (r: Option<char>)
        ensures
            final(self).start_len() == old(self).start_len(),
            old(self)@.len() == 0 ==> r is None && final(self)@ == old(self)@,
            old(self)@.len() > 0 ==> r == Some(old(self)@[0]) && final(self)@ == old(self)@.skip(
                1,
            ),
    {
        let ghost b0 = self.buf@;
        match self.buf.pop() {
            Some(c) => {
                proof {
                    assert(b0 == self.buf@.push(c));
                    assert(b0.reverse() =~= seq![c] + self.buf@.reverse());
                    assert(self.buf@.reverse() =~= b0.reverse().skip(1));
                }
                Some(c)
            },
            None => {
                proof {
                    assert(b0.reverse().len() == 0);
                }
                None
            },
        }
    }

    /// The next character without consuming it, if any is left.
    pub fn pre_read_next_char(&self) -> (r: Option<char>)
        ensures
            self@.len() == 0 ==> r is None,
            self@.len() > 0 ==> r == Some(self@[0]),
    {
        if self.buf.len() == 0 {
            proof {
                assert(self@.len() == self.buf@.len());
            }
            return None;
        }
        proof {
            assert(self@.len() == self.buf@.len());
            assert(self@[0] == self.buf@[self.buf@.len() - 1]);
        }
        Some(self.buf[self.buf.len() - 1])
    }

    /// Pushes one character back in front of the remaining input.
    pub fn unread_char(&mut self, ch: char)
        ensures
            final(self).start_len() == old(self).start_len(),
            final(self)@ == seq![ch] + old(self)@,
    {
        let ghost b0 = self.buf@;
        self.buf.push(ch);
        proof {
            assert(self.buf@.reverse() =~= seq![ch] + b0.reverse());
        }
    }

    /// The position of the read point, in characters from the start.
    fn pos(&self) -> (p: usize)
        ensures
            p == pos_of(self.start_len(), self@.len()),
    {
        proof {
            assert(self@.len() == self.buf@.len());
        }
        if self.buf.len() <= self.total {
            self.total - self.buf.len()
        } else {
            0
        }
    }
}

/// Decides [`is_term`]: `c` is one of the macro-terminating characters.
pub fn is_macro_terminating(ch: char) -> (r: bool)
    ensures
        r == is_term(ch),
{
    match ch {
        '"' => true,
        ';' => true,
        '@' => true,
        '^' => true,
        '`' => true,
        '~' => true,
        '(' => true,
        ')' => true,
        '[' => true,
        ']' => true,
        '{' => true,
        '}' => true,
        '\\' => true,
        _ => false,
    }
}

/// Decides [`is_ws`].
fn is_ws_exec(ch: char) -> (r: bool)
    ensures
        r == is_ws(ch),
{
    ch == ' ' || ch == '\t' || ch == '\n'
}

/// Decides [`is_break`].
fn is_break_exec(ch: char) -> (r: bool)
    ensures
        r == is_break(ch),
{
    is_ws_exec(ch) || is_macro_terminating(ch)
}

/// Decides [`is_num_char`].
fn is_num_char_exec(ch: char) -> (r: bool)
    ensures
        r == is_num_char(ch),
{
    let cu = ch as u32;
    (48 <= cu && cu <= 57) || ch == '.' || ch == 'e' || ch == '+' || ch == '-'
}

/// Consumes the longest token prefix into `acc`.
fn read_token_into(reader: &mut RawReader, acc: &mut Vec<char>)
    ensures
        final(reader).start_len() == old(reader).start_len(),
        final(acc)@ == old(acc)@ + tok_take(old(reader)@),
        final(reader)@ == tok_rest(old(reader)@),
        final(reader)@.len() + final(acc)@.len() == old(reader)@.len() + old(acc)@.len(),
    decreases old(reader)@.len(),
{
    let ghost s0 = reader@;
    match reader.pre_read_next_char() {
        None => {
            proof {
                assert(acc@ =~= acc@ + tok_take(s0));
            }
        },
        Some(c) => {
            if is_break_exec(c) {
                proof {
                    assert(acc@ =~= acc@ + tok_take(s0));
                }
            } else {
                reader.consume_char();
                acc.push(c);
                let ghost a1 = acc@;
                read_token_into(reader, acc);
                proof {
                    assert(acc@ =~= (a1.drop_last() + seq![c]) + tok_take(s0.skip(1)));
                    assert(a1.drop_last() + (seq![c] + tok_take(s0.skip(1))) =~= (a1.drop_last()
                        + seq![c]) + tok_take(s0.skip(1)));
                    assert(acc@ == a1.drop_last() + tok_take(s0));
                }
            }
        },
    }
}

/// Reads one token: the characters up to the next break. `None` only at
/// end of input.
pub fn read_token(reader: &mut RawReader) -> (res: Option<String>)
    ensures
        final(reader).start_len() == old(reader).start_len(),
        old(reader)@.len() == 0 ==> res is None && final(reader)@ == old(reader)@,
        old(reader)@.len() > 0 ==> (res matches Some(t) && t@ == tok_take(old(reader)@))
            && final(reader)@ == tok_rest(old(reader)@) && final(reader)@.len() + tok_take(
            old(reader)@,
        ).len() == old(reader)@.len(),
    decreases old(reader)@.len(),
{
    if reader.len() == 0 {
        return None;
    }
    let mut acc: Vec<char> = Vec::new();
    read_token_into(reader, &mut acc);
    proof {
        assert(Seq::<char>::empty() + tok_take(old(reader)@) =~= tok_take(old(reader)@));
    }
    Some(string_of(&acc))
}

/// The outcome of reading one form from a character sequence.
pub enum ReadOut {
    /// Nothing but whitespace was left.
    Eof,
    /// A closing delimiter, and what follows it.
    Delim(char, Seq<char>),
    /// A produced value, and what follows it.
    Val(ValModel, Seq<char>),
    /// A fatal condition, and what was left when it was detected.
    Fail(ErrKind, Seq<char>),
}

/// The outcome of reading the elements of one delimited form.
pub enum ItemsOut {
    /// The elements, and what follows the closing delimiter.
    Items(Seq<ValModel>, Seq<char>),
    /// A fatal condition, and what was left when it was detected.
    ItemsFail(ErrKind, Seq<char>),
}

/// The escape character written `\e`.
pub open spec fn esc_of(e: char) -> char {
    if e == 't' {
        '\t'
    } else if e == 'n' {
        '\n'
    } else if e == 'r' {
        '\r'
    } else {
        e
    }
}

/// `e` is a known escape character.
pub open spec fn is_escape(e: char) -> bool {
    e == 't' || e == 'n' || e == 'r' || e == '\\' || e == '"'
}

/// Reading a number token from the front of `s`: an integer when the token
/// is one in range, else a float literal when the token matches the float
/// grammar, else a fatal bad-number condition.
pub open spec fn spec_number(s: Seq<char>) -> ReadOut {
    let tok = num_take(s);
    let rest = num_rest(s);
    match int_token_val(tok) {
        Some(v) => ReadOut::Val(ValModel::VInt(v as i32), rest),
        None => if is_float_token(tok) {
            ReadOut::Val(ValModel::VFloat(tok), rest)
        } else {
            ReadOut::Fail(ErrKind::BadNumber, rest)
        },
    }
}

/// Reading a bare token from the front of `s`: the reserved words become
/// nil and the booleans, anything else a symbol.
pub open spec fn spec_symbol(s: Seq<char>) -> ReadOut {
    let tok = tok_take(s);
    let rest = tok_rest(s);
    if tok == "nil"@ {
        ReadOut::Val(ValModel::VNil, rest)
    } else if tok == "true"@ {
        ReadOut::Val(ValModel::VBool(true), rest)
    } else if tok == "false"@ {
        ReadOut::Val(ValModel::VBool(false), rest)
    } else {
        ReadOut::Val(ValModel::VSym(tok), rest)
    }
}

/// Reading `-` at the front of `s`: a number when a digit follows,
/// otherwise a symbol.
pub open spec fn spec_sym_or_num(s: Seq<char>) -> ReadOut {
    if s.len() >= 2 && is_digit(s[1]) {
        spec_number(s)
    } else {
        spec_symbol(s)
    }
}

/// Reading the body of a string literal, `s` starting after the opening
/// quote: fatal at end of input or on an unknown escape.
pub open spec fn spec_str_body(s: Seq<char>) -> ReadOut
    decreases s.len(),
{
    if s.len() == 0 {
        ReadOut::Fail(ErrKind::UnterminatedString, s)
    } else if s[0] == '"' {
        ReadOut::Val(ValModel::VStr(Seq::empty()), s.skip(1))
    } else if s[0] == '\\' {
        if s.len() < 2 {
            ReadOut::Fail(ErrKind::UnterminatedString, s.skip(1))
        } else if is_escape(s[1]) {
            match spec_str_body(s.skip(2)) {
                ReadOut::Val(m, r) => match m {
                    ValModel::VStr(content) => ReadOut::Val(
                        ValModel::VStr(seq![esc_of(s[1])] + content),
                        r,
                    ),
                    _ => ReadOut::Fail(ErrKind::UnterminatedString, r),
                },
                other => other,
            }
        } else {
            ReadOut::Fail(ErrKind::UnknownEscape, s.skip(2))
        }
    } else {
        match spec_str_body(s.skip(1)) {
            ReadOut::Val(m, r) => match m {
                ValModel::VStr(content) => ReadOut::Val(
                    ValModel::VStr(seq![s[0]] + content),
                    r,
                ),
                _ => ReadOut::Fail(ErrKind::UnterminatedString, r),
            },
            other => other,
        }
    }
}

/// Reading a string literal, `s` starting at the opening quote.
pub open spec fn spec_string(s: Seq<char>) -> ReadOut {
    spec_str_body(s.skip(1))
}

/// A string-body read ends in a string value or a fatal condition.
pub proof fn lemma_str_body_shape(s: Seq<char>)
    ensures
        spec_str_body(s) is Val || spec_str_body(s) is Fail,
        spec_str_body(s) matches ReadOut::Val(m, rest) ==> m is VStr,
    decreases s.len(),
{
    if s.len() > 0 && s[0] != '"' {
        if s[0] == '\\' {
            if s.len() >= 2 && is_escape(s[1]) {
                lemma_str_body_shape(s.skip(2));
            }
        } else {
            lemma_str_body_shape(s.skip(1));
        }
    }
}

/// Reading a comment, `s` starting at the `;`: the text to the end of the
/// line, the newline consumed but not kept.
pub open spec fn spec_comment(s: Seq<char>) -> ReadOut {
    ReadOut::Val(ValModel::VComment(line_take(s.skip(1))), line_rest(s.skip(1)))
}

/// Reading a keyword, `s` starting at the `:`: fatal when whitespace or
/// end of input follows the colon.
pub open spec fn spec_keyword(s: Seq<char>) -> ReadOut {
    let r0 = s.skip(1);
    if r0.len() == 0 {
        ReadOut::Fail(ErrKind::BadKeyword, r0)
    } else if is_ws(r0[0]) {
        ReadOut::Fail(ErrKind::BadKeyword, r0)
    } else {
        ReadOut::Val(ValModel::VKey(tok_take(r0)), tok_rest(r0))
    }
}

/// The unterminated-collection condition for a closing delimiter.
pub open spec fn unterm_kind(close: char) -> ErrKind {
    if close == ')' {
        ErrKind::UnterminatedList
    } else if close == ']' {
        ErrKind::UnterminatedVector
    } else {
        ErrKind::UnterminatedMap
    }
}

/// The flat elements of a map grouped into key/value pairs, in order.
pub open spec fn pair_up(ms: Seq<ValModel>) -> Seq<(ValModel, ValModel)>
    decreases ms.len(),
{
    if ms.len() < 2 {
        Seq::empty()
    } else {
        seq![(ms[0], ms[1])] + pair_up(ms.skip(2))
    }
}

/// What the metadata shorthand turns a form into: a keyword becomes a
/// one-entry meta marking it true; a symbol or string becomes a tag entry;
/// anything else is left as it is.
pub open spec fn spec_desugar(m: ValModel) -> ValModel {
    match m {
        ValModel::VKey(k) => ValModel::VMeta(seq![(ValModel::VKey(k), ValModel::VBool(true))]),
        ValModel::VSym(t) => ValModel::VMeta(
            seq![(ValModel::VKey("tag"@), ValModel::VStr(t))],
        ),
        ValModel::VStr(t) => ValModel::VMeta(
            seq![(ValModel::VKey("tag"@), ValModel::VStr(t))],
        ),
        _ => m,
    }
}

/// Reading one form from the front of `s`, whitespace skipped first.
pub open spec fn spec_read_form(s: Seq<char>) -> ReadOut
    decreases s.len(), 9int,
{
    if s.len() == 0 {
        ReadOut::Eof
    } else {
        let c = s[0];
        if is_ws(c) {
            spec_read_form(s.skip(1))
        } else if c == '-' {
            spec_sym_or_num(s)
        } else if is_digit(c) {
            spec_number(s)
        } else if c == '\'' || c == '@' {
            spec_wrapping(s)
        } else if c == '"' {
            spec_string(s)
        } else if c == ':' {
            spec_keyword(s)
        } else if c == '(' {
            spec_listf(s)
        } else if c == '[' {
            spec_vectorf(s)
        } else if c == '{' {
            spec_mapf(s)
        } else if c == ')' || c == ']' || c == '}' {
            ReadOut::Delim(c, s.skip(1))
        } else if c == '^' {
            spec_meta(s)
        } else if c == ';' {
            spec_comment(s)
        } else if c == '`' || c == '~' || c == '\\' {
            ReadOut::Fail(ErrKind::BadToken, s.skip(1))
        } else {
            spec_symbol(s)
        }
    }
}

/// Reading a quote or deref prefix, `s` starting at it: a two-element list
/// headed by a symbol equal to the prefix character; fatal when no form
/// follows.
pub open spec fn spec_wrapping(s: Seq<char>) -> ReadOut
    decreases s.len(), 5int,
{
    if s.len() == 0 {
        ReadOut::Fail(ErrKind::MissingQuotedForm, s)
    } else {
        match spec_read_form(s.skip(1)) {
            ReadOut::Val(m, r) => ReadOut::Val(
                ValModel::VList(seq![ValModel::VSym(seq![s[0]]), m]),
                r,
            ),
            ReadOut::Fail(k, r) => ReadOut::Fail(k, r),
            ReadOut::Eof => ReadOut::Fail(ErrKind::MissingQuotedForm, Seq::empty()),
            ReadOut::Delim(c, r) => ReadOut::Fail(ErrKind::MissingQuotedForm, r),
        }
    }
}

/// Reading the elements of a delimited form, `s` starting after the
/// opening delimiter: elements until the matching closing delimiter; end
/// of input and a different closing delimiter are fatal.
pub open spec fn spec_delim_items(s: Seq<char>, close: char) -> ItemsOut
    decreases s.len(), 10int,
{
    match spec_read_form(s) {
        ReadOut::Eof => ItemsOut::ItemsFail(unterm_kind(close), Seq::empty()),
        ReadOut::Delim(c, r) => if c == close {
            ItemsOut::Items(Seq::empty(), r)
        } else {
            ItemsOut::ItemsFail(ErrKind::UnmatchedDelimiter, r)
        },
        ReadOut::Fail(k, r) => ItemsOut::ItemsFail(k, r),
        ReadOut::Val(m, r) => if r.len() < s.len() {
            match spec_delim_items(r, close) {
                ItemsOut::Items(ms, r2) => ItemsOut::Items(seq![m] + ms, r2),
                f => f,
            }
        } else {
            ItemsOut::ItemsFail(ErrKind::UnmatchedDelimiter, r)
        },
    }
}

/// Reading a list, `s` starting at the `(`: an empty list is nil.
pub open spec fn spec_listf(s: Seq<char>) -> ReadOut
    decreases s.len(), 5int,
{
    if s.len() == 0 {
        ReadOut::Fail(ErrKind::UnterminatedList, s)
    } else {
        match spec_delim_items(s.skip(1), ')') {
            ItemsOut::Items(ms, r) => if ms.len() == 0 {
                ReadOut::Val(ValModel::VNil, r)
            } else {
                ReadOut::Val(ValModel::VList(ms), r)
            },
            ItemsOut::ItemsFail(k, r) => ReadOut::Fail(k, r),
        }
    }
}

/// Reading a vector, `s` starting at the `[`: an empty vector is nil.
pub open spec fn spec_vectorf(s: Seq<char>) -> ReadOut
    decreases s.len(), 5int,
{
    if s.len() == 0 {
        ReadOut::Fail(ErrKind::UnterminatedVector, s)
    } else {
        match spec_delim_items(s.skip(1), ']') {
            ItemsOut::Items(ms, r) => if ms.len() == 0 {
                ReadOut::Val(ValModel::VNil, r)
            } else {
                ReadOut::Val(ValModel::VVec(ms), r)
            },
            ItemsOut::ItemsFail(k, r) => ReadOut::Fail(k, r),
        }
    }
}

/// Reading a map, `s` starting at the `{`: an odd number of entries is
/// fatal, an empty map is nil, and entries pair up in order.
pub open spec fn spec_mapf(s: Seq<char>) -> ReadOut
    decreases s.len(), 5int,
{
    if s.len() == 0 {
        ReadOut::Fail(ErrKind::UnterminatedMap, s)
    } else {
        match spec_delim_items(s.skip(1), '}') {
            ItemsOut::Items(ms, r) => if ms.len() % 2 == 1 {
                ReadOut::Fail(ErrKind::OddMapArity, r)
            } else if ms.len() == 0 {
                ReadOut::Val(ValModel::VNil, r)
            } else {
                ReadOut::Val(ValModel::VMap(pair_up(ms)), r)
            },
            ItemsOut::ItemsFail(k, r) => ReadOut::Fail(k, r),
        }
    }
}

/// Reading metadata, `s` starting at the `^`: a map becomes meta, a
/// keyword, symbol or string desugars, anything else is fatal.
pub open spec fn spec_meta(s: Seq<char>) -> ReadOut
    decreases s.len(), 5int,
{
    let r0 = s.skip(1);
    if s.len() == 0 || r0.len() == 0 {
        ReadOut::Fail(ErrKind::BadMeta, r0)
    } else if r0[0] == '{' {
        match spec_mapf(r0) {
            ReadOut::Val(m, r) => match m {
                ValModel::VMap(es) => ReadOut::Val(ValModel::VMeta(es), r),
                _ => ReadOut::Fail(ErrKind::BadMeta, r),
            },
            ReadOut::Fail(k, r) => ReadOut::Fail(k, r),
            _ => ReadOut::Fail(ErrKind::BadMeta, r0),
        }
    } else {
        spec_meta_sugar(r0)
    }
}

/// Reading the shorthand form after `^`: the next form desugared, fatal
/// when it does not desugar to meta or when nothing follows.
pub open spec fn spec_meta_sugar(s: Seq<char>) -> ReadOut
    decreases s.len(), 10int,
{
    match spec_read_form(s) {
        ReadOut::Val(m, r) => {
            let d = spec_desugar(m);
            if d is VMeta {
                ReadOut::Val(d, r)
            } else {
                ReadOut::Fail(ErrKind::BadMeta, r)
            }
        },
        ReadOut::Fail(k, r) => ReadOut::Fail(k, r),
        ReadOut::Eof => ReadOut::Fail(ErrKind::BadMeta, Seq::empty()),
        ReadOut::Delim(c, r) => ReadOut::Fail(ErrKind::BadMeta, r),
    }
}

/// Reading the next top-level form: a stray closing delimiter is fatal.
pub open spec fn spec_read_next(s: Seq<char>) -> ReadOut {
    match spec_read_form(s) {
        ReadOut::Delim(c, r) => ReadOut::Fail(ErrKind::UnmatchedDelimiter, r),
        o => o,
    }
}

/// The internal outcome of one dispatch step.
#[derive(Debug)]
enum ReadState {
    EOF,
    Continue(AstVal),
    Delimited(char),
}

/// The executable outcome `res` with remaining input `rem` realizes the
/// spec outcome `o` of a form read over an input of `total` characters.
spec fn form_ok(
    o: ReadOut,
    res: Result<ReadState, ReadErr>,
    rem: Seq<char>,
    total: nat,
) -> bool {
    match o {
        ReadOut::Eof => res == Result::<ReadState, ReadErr>::Ok(ReadState::EOF) && rem
            == Seq::<char>::empty(),
        ReadOut::Delim(c, rest) => res == Result::<ReadState, ReadErr>::Ok(
            ReadState::Delimited(c),
        ) && rem == rest,
        ReadOut::Val(m, rest) => match res {
            Ok(ReadState::Continue(v)) => vm(v) == m && rem == rest,
            _ => false,
        },
        ReadOut::Fail(k, rest) => match res {
            Err(e) => e.kind == k && e.pos == pos_of(total, rest.len()) && rem == rest,
            _ => false,
        },
    }
}

/// As [`form_ok`], for a reader that produces a value directly.
spec fn val_ok(
    o: ReadOut,
    res: Result<AstVal, ReadErr>,
    rem: Seq<char>,
    total: nat,
) -> bool {
    match o {
        ReadOut::Val(m, rest) => match res {
            Ok(v) => vm(v) == m && rem == rest,
            _ => false,
        },
        ReadOut::Fail(k, rest) => match res {
            Err(e) => e.kind == k && e.pos == pos_of(total, rest.len()) && rem == rest,
            _ => false,
        },
        _ => false,
    }
}

/// Consumes the longest number-character prefix into `acc`.
fn read_num_into(reader: &mut RawReader, acc: &mut Vec<char>)
    ensures
        final(reader).start_len() == old(reader).start_len(),
        final(acc)@ == old(acc)@ + num_take(old(reader)@),
        final(reader)@ == num_rest(old(reader)@),
        final(reader)@.len() + final(acc)@.len() == old(reader)@.len() + old(acc)@.len(),
    decreases old(reader)@.len(),
{
    let ghost s0 = reader@;
    match reader.pre_read_next_char() {
        None => {
            proof {
                assert(acc@ =~= acc@ + num_take(s0));
            }
        },
        Some(c) => {
            if !is_num_char_exec(c) {
                proof {
                    assert(acc@ =~= acc@ + num_take(s0));
                }
            } else {
                reader.consume_char();
                acc.push(c);
                let ghost a1 = acc@;
                read_num_into(reader, acc);
                proof {
                    assert(acc@ =~= (a1.drop_last() + seq![c]) + num_take(s0.skip(1)));
                    assert(a1.drop_last() + (seq![c] + num_take(s0.skip(1))) =~= (a1.drop_last()
                        + seq![c]) + num_take(s0.skip(1)));
                    assert(acc@ == a1.drop_last() + num_take(s0));
                }
            }
        },
    }
}

/// Reads a number literal: an integer when the token is one in range, a
/// float literal carried as its token text when the token matches the
/// float grammar, and a fatal bad-number diagnostic otherwise.
fn read_number(reader: &mut RawReader) -> (res: Result<AstVal, ReadErr>)
    ensures
        final(reader).start_len() == old(reader).start_len(),
        val_ok(spec_number(old(reader)@), res, final(reader)@, old(reader).start_len()),
        res is Ok ==> final(reader)@.len() < old(reader)@.len(),
{
    let ghost s0 = reader@;
    let mut acc: Vec<char> = Vec::new();
    read_num_into(reader, &mut acc);
    proof {
        assert(Seq::<char>::empty() + num_take(s0) =~= num_take(s0));
    }
    match parse_i32(&acc) {
        Some(i) => {
            return Ok(AstVal::AstInt(i));
        },
        None => {
            if is_float_chars(&acc) {
                let t = string_of(&acc);
                return Ok(AstVal::AstFloat(t));
            }
            let p = reader.pos();
            return Err(ReadErr { kind: ErrKind::BadNumber, pos: p });
        },
    }
}

/// Reads a bare token: `nil`, `true` and `false` are reserved, everything
/// else is a symbol.
fn read_symbol(reader: &mut RawReader) -> (res: AstVal)
    ensures
        final(reader).start_len() == old(reader).start_len(),
        spec_symbol(old(reader)@) matches ReadOut::Val(m, rest) && vm(res) == m && final(reader)@ == rest,
        old(reader)@.len() > 0 && !is_break(old(reader)@[0]) ==> final(reader)@.len() < old(reader)@.len(),
{
    let ghost s0 = reader@;
    match read_token(reader) {
        None => {
            proof {
                reveal_strlit("nil");
                reveal_strlit("true");
                reveal_strlit("false");
            }
            return AstVal::AstSymbol(String::new());
        },
        Some(t) => {
            proof {
                reveal_strlit("nil");
                reveal_strlit("true");
                reveal_strlit("false");
            }
            let nil_s: String = "nil".to_owned();
            if t == nil_s {
                return AstVal::AstNil;
            }
            let true_s: String = "true".to_owned();
            if t == true_s {
                return AstVal::AstBool(true);
            }
            let false_s: String = "false".to_owned();
            if t == false_s {
                return AstVal::AstBool(false);
            }
            return AstVal::AstSymbol(t);
        },
    }
}

/// Reads a form that begins with `-`: a number when a digit follows the
/// sign, a symbol otherwise.
fn read_symbol_or_number(reader: &mut RawReader) -> (res: Result<AstVal, ReadErr>)
    requires
        old(reader)@.len() > 0,
        old(reader)@[0] == '-',
    ensures
        final(reader).start_len() == old(reader).start_len(),
        val_ok(spec_sym_or_num(old(reader)@), res, final(reader)@, old(reader).start_len()),
        res is Ok ==> final(reader)@.len() < old(reader)@.len(),
{
    let ghost s0 = reader@;
    reader.consume_char();
    let next = reader.pre_read_next_char();
    let mut digit_follows: bool = false;
    match next {
        Some(d) => {
            let du = d as u32;
            if 48 <= du && du <= 57 {
                digit_follows = true;
            }
        },
        None => {},
    }
    reader.unread_char('-');
    proof {
        assert(reader@ =~= s0);
    }
    if digit_follows {
        return read_number(reader);
    }
    let v = read_symbol(reader);
    return Ok(v);
}

/// Reads the character after a backslash escape; relies on the caller
/// standing at the backslash.
pub fn escape_char(reader: &mut RawReader) -> (res: Result<char, ReadErr>)
    requires
        old(reader)@.len() > 0,
        old(reader)@[0] == '\\',
    ensures
        final(reader).start_len() == old(reader).start_len(),
        old(reader)@.len() >= 2 && is_escape(old(reader)@[1]) ==> res == Result::<
            char,
            ReadErr,
        >::Ok(esc_of(old(reader)@[1])) && final(reader)@ == old(reader)@.skip(2),
        old(reader)@.len() >= 2 && !is_escape(old(reader)@[1]) ==> (res matches Err(e)
            && e.kind == ErrKind::UnknownEscape && e.pos == pos_of(
            old(reader).start_len(),
            (old(reader)@.len() - 2) as nat,
        )) && final(reader)@ == old(reader)@.skip(2),
        old(reader)@.len() == 1 ==> (res matches Err(e) && e.kind == ErrKind::UnterminatedString
            && e.pos == pos_of(old(reader).start_len(), 0)) && final(reader)@ == old(reader)@.skip(1),
{
    let ghost s0 = reader@;
    reader.consume_char();
    match reader.consume_char() {
        None => {
            let p = reader.pos();
            return Err(ReadErr { kind: ErrKind::UnterminatedString, pos: p });
        },
        Some(c) => {
            proof {
                assert(reader@ =~= s0.skip(2));
            }
            if c == 't' {
                return Ok('\t');
            }
            if c == 'n' {
                return Ok('\n');
            }
            if c == 'r' {
                return Ok('\r');
            }
            if c == '\\' {
                return Ok('\\');
            }
            if c == '"' {
                return Ok('"');
            }
            let p = reader.pos();
            return Err(ReadErr { kind: ErrKind::UnknownEscape, pos: p });
        },
    }
}

/// Reads string-body characters into `acc` until the closing quote.
fn read_string_chars(reader: &mut RawReader, acc: &mut Vec<char>) -> (res: Option<ReadErr>)
    ensures
        final(reader).start_len() == old(reader).start_len(),
        spec_str_body(old(reader)@) matches ReadOut::Val(m, rest) ==> res is None && m
            == ValModel::VStr(final(acc)@.skip(old(acc)@.len() as int)) && final(acc)@.len()
            >= old(acc)@.len() && final(acc)@.take(old(acc)@.len() as int) == old(acc)@ && final(reader)@ == rest && final(reader)@.len() < old(reader)@.len(),
        spec_str_body(old(reader)@) matches ReadOut::Fail(k, rest) ==> (res matches Some(e)
            && e.kind == k && e.pos == pos_of(old(reader).start_len(), rest.len())) && final(reader)@ == rest,
    decreases old(reader)@.len(),
{
    let ghost s0 = reader@;
    let ghost a0 = acc@;
    match reader.pre_read_next_char() {
        None => {
            let p = reader.pos();
            return Some(ReadErr { kind: ErrKind::UnterminatedString, pos: p });
        },
        Some(c) => {
            if c == '"' {
                reader.consume_char();
                proof {
                    assert(acc@.skip(a0.len() as int) =~= Seq::<char>::empty());
                    assert(acc@.take(a0.len() as int) =~= a0);
                }
                return None;
            }
            if c == '\\' {
                match escape_char(reader) {
                    Err(e) => {
                        return Some(e);
                    },
                    Ok(ec) => {
                        acc.push(ec);
                        let ghost a1 = acc@;
                        let res2 = read_string_chars(reader, acc);
                        proof {
                            if spec_str_body(s0.skip(2)) is Val {
                                assert(a1 == a0.push(ec));
                                assert(acc@.take(a1.len() as int) == a1);
                                assert(acc@[a0.len() as int] == acc@.take(a1.len() as int)[a0.len() as int]);
                                assert(acc@[a0.len() as int] == ec);
                                assert(acc@.skip(a0.len() as int) =~= seq![ec] + acc@.skip(
                                    a1.len() as int,
                                ));
                                assert(acc@.take(a0.len() as int) =~= a0);
                            }
                        }
                        return res2;
                    },
                }
            }
            reader.consume_char();
            acc.push(c);
            let ghost a1 = acc@;
            let res2 = read_string_chars(reader, acc);
            proof {
                if spec_str_body(s0.skip(1)) is Val {
                    assert(a1 == a0.push(c));
                    assert(acc@.take(a1.len() as int) == a1);
                    assert(acc@[a0.len() as int] == acc@.take(a1.len() as int)[a0.len() as int]);
                    assert(acc@[a0.len() as int] == c);
                    assert(acc@.skip(a0.len() as int) =~= seq![c] + acc@.skip(a1.len() as int));
                    assert(acc@.take(a0.len() as int) =~= a0);
                }
            }
            return res2;
        },
    }
}

/// Reads the body of a string literal; relies on the caller standing at
/// the opening quote, which it consumes.
pub fn read_string_inner(reader: &mut RawReader) -> (res: Result<String, ReadErr>)
    requires
        old(reader)@.len() > 0,
        old(reader)@[0] == '"',
    ensures
        final(reader).start_len() == old(reader).start_len(),
        spec_string(old(reader)@) matches ReadOut::Val(m, rest) ==> (res matches Ok(t) && m
            == ValModel::VStr(t@)) && final(reader)@ == rest && final(reader)@.len() < old(reader)@.len(),
        spec_string(old(reader)@) matches ReadOut::Fail(k, rest) ==> (res matches Err(e)
            && e.kind == k && e.pos == pos_of(old(reader).start_len(), rest.len())) && final(reader)@ == rest,
{
    let ghost s0 = reader@;
    reader.consume_char();
    let mut acc: Vec<char> = Vec::new();
    match read_string_chars(reader, &mut acc) {
        Some(e) => {
            return Err(e);
        },
        None => {
            proof {
                if spec_str_body(s0.skip(1)) is Val {
                    assert(acc@.skip(0) =~= acc@);
                }
            }
            return Ok(string_of(&acc));
        },
    }
}

/// Reads a string literal as a dispatch step.
fn read_string(reader: &mut RawReader) -> (res: Result<ReadState, ReadErr>)
    requires
        old(reader)@.len() > 0,
        old(reader)@[0] == '"',
    ensures
        final(reader).start_len() == old(reader).start_len(),
        form_ok(spec_string(old(reader)@), res, final(reader)@, old(reader).start_len()),
        res is Ok ==> final(reader)@.len() < old(reader)@.len(),
{
    proof {
        lemma_str_body_shape(old(reader)@.skip(1));
    }
    match read_string_inner(reader) {
        Ok(t) => {
            return Ok(ReadState::Continue(AstVal::AstString(t)));
        },
        Err(e) => {
            return Err(e);
        },
    }
}

/// Consumes one comment line into `acc`, dropping the ending newline.
fn read_line_into(reader: &mut RawReader, acc: &mut Vec<char>)
    ensures
        final(reader).start_len() == old(reader).start_len(),
        final(acc)@ == old(acc)@ + line_take(old(reader)@),
        final(reader)@ == line_rest(old(reader)@),
        final(reader)@.len() <= old(reader)@.len(),
    decreases old(reader)@.len(),
{
    let ghost s0 = reader@;
    match reader.pre_read_next_char() {
        None => {
            proof {
                assert(acc@ =~= acc@ + line_take(s0));
            }
        },
        Some(c) => {
            if c == '\n' {
                reader.consume_char();
                proof {
                    assert(acc@ =~= acc@ + line_take(s0));
                }
            } else {
                reader.consume_char();
                acc.push(c);
                let ghost a1 = acc@;
                read_line_into(reader, acc);
                proof {
                    assert(acc@ =~= (a1.drop_last() + seq![c]) + line_take(s0.skip(1)));
                    assert(a1.drop_last() + (seq![c] + line_take(s0.skip(1))) =~= (a1.drop_last()
                        + seq![c]) + line_take(s0.skip(1)));
                    assert(acc@ == a1.drop_last() + line_take(s0));
                }
            }
        },
    }
}

/// Reads a comment line as a first-class value; relies on the caller
/// standing at the `;`.
fn read_comment(reader: &mut RawReader) -> (res: Result<ReadState, ReadErr>)
    requires
        old(reader)@.len() > 0,
        old(reader)@[0] == ';',
    ensures
        final(reader).start_len() == old(reader).start_len(),
        form_ok(spec_comment(old(reader)@), res, final(reader)@, old(reader).start_len()),
        res is Ok ==> final(reader)@.len() < old(reader)@.len(),
{
    reader.consume_char();
    let mut acc: Vec<char> = Vec::new();
    read_line_into(reader, &mut acc);
    proof {
        assert(Seq::<char>::empty() + line_take(old(reader)@.skip(1)) =~= line_take(
            old(reader)@.skip(1),
        ));
    }
    let t = string_of(&acc);
    return Ok(ReadState::Continue(AstVal::AstCommentLine(t)));
}

/// Reads a keyword; relies on the caller standing at the `:`. A colon
/// followed by whitespace or end of input is fatal.
fn read_keyword(reader: &mut RawReader) -> (res: Result<ReadState, ReadErr>)
    requires
        old(reader)@.len() > 0,
        old(reader)@[0] == ':',
    ensures
        final(reader).start_len() == old(reader).start_len(),
        form_ok(spec_keyword(old(reader)@), res, final(reader)@, old(reader).start_len()),
        res is Ok ==> final(reader)@.len() < old(reader)@.len(),
{
    reader.consume_char();
    match reader.pre_read_next_char() {
        None => {
            let p = reader.pos();
            return Err(ReadErr { kind: ErrKind::BadKeyword, pos: p });
        },
        Some(c) => {
            if is_ws_exec(c) {
                let p = reader.pos();
                return Err(ReadErr { kind: ErrKind::BadKeyword, pos: p });
            }
            match read_token(reader) {
                Some(t) => {
                    return Ok(ReadState::Continue(AstVal::AstKeyword(t)));
                },
                None => {
                    proof {
                        assert(false);
                    }
                    let p = reader.pos();
                    return Err(ReadErr { kind: ErrKind::BadKeyword, pos: p });
                },
            }
        },
    }
}

/// Consumes a closing delimiter and reports it to the enclosing read.
fn read_unmatched_delimiter(reader: &mut RawReader) -> (res: Result<ReadState, ReadErr>)
    requires
        old(reader)@.len() > 0,
    ensures
        final(reader).start_len() == old(reader).start_len(),
        res == Result::<ReadState, ReadErr>::Ok(ReadState::Delimited(old(reader)@[0])),
        final(reader)@ == old(reader)@.skip(1),
{
    match reader.consume_char() {
        Some(ch) => {
            return Ok(ReadState::Delimited(ch));
        },
        None => {
            proof {
                assert(false);
            }
            return Ok(ReadState::EOF);
        },
    }
}

/// [`pair_up`] pairs consecutive elements in order.
pub proof fn lemma_pair_up(s: Seq<ValModel>)
    ensures
        pair_up(s).len() == s.len() / 2,
        forall|i: int|
            0 <= i < s.len() / 2 ==> #[trigger] pair_up(s)[i] == (s[2 * i], s[2 * i + 1]),
    decreases s.len(),
{
    if s.len() >= 2 {
        lemma_pair_up(s.skip(2));
        assert forall|i: int|
            0 <= i < s.len() / 2 implies #[trigger] pair_up(s)[i] == (s[2 * i], s[2 * i + 1]) by {
            if i == 0 {
                assert(pair_up(s)[0] == (s[0], s[1]));
            } else {
                assert(pair_up(s)[i] == pair_up(s.skip(2))[i - 1]);
                assert(s.skip(2)[2 * (i - 1)] == s[2 * i]);
                assert(s.skip(2)[2 * (i - 1) + 1] == s[2 * i + 1]);
            }
        }
    }
}

/// Groups the flat elements of a map into key/value pairs, in order.
fn pair_vec(items: &Vec<AstVal>) -> (r: Vec<(AstVal, AstVal)>)
    requires
        items@.len() % 2 == 0,
    ensures
        vmp(r@) == pair_up(vms(items@)),
{
    let ghost ms = vms(items@);
    proof {
        lemma_pair_up(ms);
        crate::model::vms_len(items@);
    }
    let n = items.len() / 2;
    let mut r: Vec<(AstVal, AstVal)> = Vec::new();
    let mut j: usize = 0;
    while j < n
        invariant
            j <= n,
            n == items@.len() / 2,
            items@.len() <= usize::MAX,
            ms == vms(items@),
            ms.len() == items@.len(),
            pair_up(ms).len() == n,
            forall|i: int|
                0 <= i < ms.len() / 2 ==> #[trigger] pair_up(ms)[i] == (ms[2 * i], ms[2 * i + 1]),
            r@.len() == j,
            forall|m: int|
                0 <= m < j ==> vm(#[trigger] r@[m].0) == ms[2 * m] && vm(r@[m].1) == ms[2 * m
                    + 1],
        decreases n - j,
    {
        proof {
            assert(2 * j + 1 < items@.len());
            crate::model::vms_index(items@, 2 * j);
            crate::model::vms_index(items@, 2 * j + 1);
        }
        let a = crate::ast::clone_val(&items[2 * j]);
        let b = crate::ast::clone_val(&items[2 * j + 1]);
        r.push((a, b));
        j = j + 1;
    }
    proof {
        assert(vmp(r@) =~= pair_up(ms));
    }
    r
}

/// The executable [`unterm_kind`].
fn unterm_kind_exec(close: char) -> (k: ErrKind)
    ensures
        k == unterm_kind(close),
{
    if close == ')' {
        ErrKind::UnterminatedList
    } else if close == ']' {
        ErrKind::UnterminatedVector
    } else {
        ErrKind::UnterminatedMap
    }
}

/// Reads elements until the matching closing delimiter, appending each to
/// `acc`; end of input and a different closing delimiter are fatal.
fn read_delim_items(reader: &mut RawReader, delim: char, acc: &mut Vec<AstVal>) -> (res: Option<
    ReadErr,
>)
    ensures
        final(reader).start_len() == old(reader).start_len(),
        spec_delim_items(old(reader)@, delim) matches ItemsOut::Items(ms, rest) ==> res is None
            && final(acc)@.len() >= old(acc)@.len() && final(acc)@.take(old(acc)@.len() as int)
            == old(acc)@ && ms == vms(final(acc)@.skip(old(acc)@.len() as int)) && final(reader)@
            == rest && final(reader)@.len() < old(reader)@.len(),
        spec_delim_items(old(reader)@, delim) matches ItemsOut::ItemsFail(k, rest) ==> (
        res matches Some(e) && e.kind == k && e.pos == pos_of(
            old(reader).start_len(),
            rest.len(),
        )) && final(reader)@ == rest,
    decreases old(reader)@.len(), 10int,
{
    let ghost s0 = reader@;
    let ghost a0 = acc@;
    let step = read_internal(reader);
    match step {
        Err(e) => {
            return Some(e);
        },
        Ok(ReadState::EOF) => {
            let k = unterm_kind_exec(delim);
            let p = reader.pos();
            return Some(ReadErr { kind: k, pos: p });
        },
        Ok(ReadState::Delimited(c)) => {
            if c == delim {
                proof {
                    assert(acc@.take(a0.len() as int) =~= a0);
                    assert(acc@.skip(a0.len() as int) =~= Seq::<AstVal>::empty());
                    assert(vms(Seq::<AstVal>::empty()) =~= Seq::<ValModel>::empty());
                }
                return None;
            }
            let p = reader.pos();
            return Some(ReadErr { kind: ErrKind::UnmatchedDelimiter, pos: p });
        },
        Ok(ReadState::Continue(v)) => {
            acc.push(v);
            let ghost a1 = acc@;
            let res2 = read_delim_items(reader, delim, acc);
            proof {
                if spec_delim_items(s0, delim) is Items {
                    assert(acc@.take(a1.len() as int) == a1);
                    assert(acc@[a0.len() as int] == acc@.take(a1.len() as int)[a0.len() as int]);
                    assert(acc@.skip(a0.len() as int) =~= seq![acc@[a0.len() as int]] + acc@.skip(
                        a1.len() as int,
                    ));
                    assert(acc@.take(a0.len() as int) =~= a0);
                    assert(vms(acc@.skip(a0.len() as int)) =~= seq![vm(v)] + vms(acc@.skip(
                        a1.len() as int,
                    )));
                }
            }
            return res2;
        },
    }
}

/// Consumes the opening delimiter and reads the delimited elements.
fn read_delimited(reader: &mut RawReader, delim: char) -> (res: Result<Vec<AstVal>, ReadErr>)
    requires
        old(reader)@.len() > 0,
    ensures
        final(reader).start_len() == old(reader).start_len(),
        spec_delim_items(old(reader)@.skip(1), delim) matches ItemsOut::Items(ms, rest) ==> (
        res matches Ok(v) && ms == vms(v@)) && final(reader)@ == rest && final(reader)@.len()
            < old(reader)@.len(),
        spec_delim_items(old(reader)@.skip(1), delim) matches ItemsOut::ItemsFail(k, rest) ==> (
        res matches Err(e) && e.kind == k && e.pos == pos_of(
            old(reader).start_len(),
            rest.len(),
        )) && final(reader)@ == rest,
    decreases old(reader)@.len(), 4int,
{
    reader.consume_char();
    let mut acc: Vec<AstVal> = Vec::new();
    match read_delim_items(reader, delim, &mut acc) {
        None => {
            proof {
                if spec_delim_items(old(reader)@.skip(1), delim) is Items {
                    assert(acc@.skip(0) =~= acc@);
                }
            }
            return Ok(acc);
        },
        Some(e) => {
            return Err(e);
        },
    }
}

/// Reads a list form; an empty list is nil.
fn read_list(reader: &mut RawReader) -> (res: Result<ReadState, ReadErr>)
    requires
        old(reader)@.len() > 0,
        old(reader)@[0] == '(',
    ensures
        final(reader).start_len() == old(reader).start_len(),
        form_ok(spec_listf(old(reader)@), res, final(reader)@, old(reader).start_len()),
        res is Ok ==> final(reader)@.len() < old(reader)@.len(),
    decreases old(reader)@.len(), 5int,
{
    match read_delimited(reader, ')') {
        Ok(items) => {
            proof {
                crate::model::vms_len(items@);
            }
            if items.len() == 0 {
                return Ok(ReadState::Continue(AstVal::AstNil));
            }
            return Ok(ReadState::Continue(AstVal::AstList(items)));
        },
        Err(e) => {
            return Err(e);
        },
    }
}

/// Reads a vector form; an empty vector is nil.
fn read_vector(reader: &mut RawReader) -> (res: Result<ReadState, ReadErr>)
    requires
        old(reader)@.len() > 0,
        old(reader)@[0] == '[',
    ensures
        final(reader).start_len() == old(reader).start_len(),
        form_ok(spec_vectorf(old(reader)@), res, final(reader)@, old(reader).start_len()),
        res is Ok ==> final(reader)@.len() < old(reader)@.len(),
    decreases old(reader)@.len(), 5int,
{
    match read_delimited(reader, ']') {
        Ok(items) => {
            proof {
                crate::model::vms_len(items@);
            }
            if items.len() == 0 {
                return Ok(ReadState::Continue(AstVal::AstNil));
            }
            return Ok(ReadState::Continue(AstVal::AstVec(items)));
        },
        Err(e) => {
            return Err(e);
        },
    }
}

/// Reads a map form; an odd number of entries is fatal, an empty map is
/// nil.
fn read_map(reader: &mut RawReader) -> (res: Result<ReadState, ReadErr>)
    requires
        old(reader)@.len() > 0,
        old(reader)@[0] == '{',
    ensures
        final(reader).start_len() == old(reader).start_len(),
        form_ok(spec_mapf(old(reader)@), res, final(reader)@, old(reader).start_len()),
        res is Ok ==> final(reader)@.len() < old(reader)@.len(),
    decreases old(reader)@.len(), 5int,
{
    match read_delimited(reader, '}') {
        Ok(items) => {
            proof {
                crate::model::vms_len(items@);
            }
            if items.len() % 2 == 1 {
                let p = reader.pos();
                return Err(ReadErr { kind: ErrKind::OddMapArity, pos: p });
            }
            if items.len() == 0 {
                return Ok(ReadState::Continue(AstVal::AstNil));
            }
            let pairs = pair_vec(&items);
            return Ok(ReadState::Continue(AstVal::AstMap(pairs)));
        },
        Err(e) => {
            return Err(e);
        },
    }
}

/// Reads the form after a quote or deref prefix and wraps it in a
/// two-element list headed by a symbol equal to the prefix character.
fn wrapping_reader(reader: &mut RawReader, ch: char) -> (res: Result<ReadState, ReadErr>)
    requires
        old(reader)@.len() > 0,
        old(reader)@[0] == ch,
    ensures
        final(reader).start_len() == old(reader).start_len(),
        form_ok(spec_wrapping(old(reader)@), res, final(reader)@, old(reader).start_len()),
        res is Ok ==> final(reader)@.len() < old(reader)@.len(),
    decreases old(reader)@.len(), 5int,
{
    reader.consume_char();
    let step = read_internal(reader);
    match step {
        Ok(ReadState::Continue(x)) => {
            let mut cv: Vec<char> = Vec::new();
            cv.push(ch);
            let sym = AstVal::AstSymbol(string_of(&cv));
            let mut items: Vec<AstVal> = Vec::new();
            items.push(sym);
            items.push(x);
            proof {
                assert(cv@ =~= seq![ch]);
                assert(vms(items@) =~= seq![vm(items@[0]), vm(items@[1])]);
            }
            return Ok(ReadState::Continue(AstVal::AstList(items)));
        },
        Ok(ReadState::EOF) => {
            let p = reader.pos();
            return Err(ReadErr { kind: ErrKind::MissingQuotedForm, pos: p });
        },
        Ok(ReadState::Delimited(_)) => {
            let p = reader.pos();
            return Err(ReadErr { kind: ErrKind::MissingQuotedForm, pos: p });
        },
        Err(e) => {
            return Err(e);
        },
    }
}

/// Applies the metadata shorthand: a keyword marks itself true, a symbol
/// or string becomes a tag entry, anything else is returned unchanged.
fn desugar_meta(f: AstVal) -> (r: AstVal)
    ensures
        vm(r) == spec_desugar(vm(f)),
{
    match f {
        AstVal::AstKeyword(k) => {
            let mut es: Vec<(AstVal, AstVal)> = Vec::new();
            es.push((AstVal::AstKeyword(k), AstVal::AstBool(true)));
            proof {
                assert(vmp(es@) =~= seq![(vm(es@[0].0), vm(es@[0].1))]);
            }
            return AstVal::AstMeta(es);
        },
        AstVal::AstSymbol(t) => {
            let tag: String = "tag".to_owned();
            let mut es: Vec<(AstVal, AstVal)> = Vec::new();
            es.push((AstVal::AstKeyword(tag), AstVal::AstString(t)));
            proof {
                assert(vmp(es@) =~= seq![(vm(es@[0].0), vm(es@[0].1))]);
            }
            return AstVal::AstMeta(es);
        },
        AstVal::AstString(t) => {
            let tag: String = "tag".to_owned();
            let mut es: Vec<(AstVal, AstVal)> = Vec::new();
            es.push((AstVal::AstKeyword(tag), AstVal::AstString(t)));
            proof {
                assert(vmp(es@) =~= seq![(vm(es@[0].0), vm(es@[0].1))]);
            }
            return AstVal::AstMeta(es);
        },
        other => {
            return other;
        },
    }
}

/// Reads the shorthand form after `^` and desugars it; fatal when it does
/// not desugar to metadata or when nothing follows.
fn read_meta_sugar(reader: &mut RawReader) -> (res: Result<AstVal, ReadErr>)
    ensures
        final(reader).start_len() == old(reader).start_len(),
        val_ok(spec_meta_sugar(old(reader)@), res, final(reader)@, old(reader).start_len()),
        res is Ok ==> final(reader)@.len() < old(reader)@.len(),
    decreases old(reader)@.len(), 10int,
{
    let step = read_internal(reader);
    match step {
        Ok(ReadState::Continue(f)) => {
            let d = desugar_meta(f);
            match d {
                AstVal::AstMeta(es) => {
                    return Ok(AstVal::AstMeta(es));
                },
                d2 => {
                    let p = reader.pos();
                    return Err(ReadErr { kind: ErrKind::BadMeta, pos: p });
                },
            }
        },
        Ok(ReadState::EOF) => {
            let p = reader.pos();
            return Err(ReadErr { kind: ErrKind::BadMeta, pos: p });
        },
        Ok(ReadState::Delimited(_)) => {
            let p = reader.pos();
            return Err(ReadErr { kind: ErrKind::BadMeta, pos: p });
        },
        Err(e) => {
            return Err(e);
        },
    }
}

/// Reads metadata after `^`: a map form becomes meta, anything else goes
/// through the shorthand.
fn read_meta(reader: &mut RawReader) -> (res: Result<ReadState, ReadErr>)
    requires
        old(reader)@.len() > 0,
        old(reader)@[0] == '^',
    ensures
        final(reader).start_len() == old(reader).start_len(),
        form_ok(spec_meta(old(reader)@), res, final(reader)@, old(reader).start_len()),
        res is Ok ==> final(reader)@.len() < old(reader)@.len(),
    decreases old(reader)@.len(), 5int,
{
    reader.consume_char();
    match reader.pre_read_next_char() {
        None => {
            let p = reader.pos();
            return Err(ReadErr { kind: ErrKind::BadMeta, pos: p });
        },
        Some(c) => {
            if c == '{' {
                let step = read_map(reader);
                match step {
                    Ok(ReadState::Continue(a)) => {
                        match a {
                            AstVal::AstMap(es) => {
                                return Ok(ReadState::Continue(AstVal::AstMeta(es)));
                            },
                            _ => {
                                let p = reader.pos();
                                return Err(ReadErr { kind: ErrKind::BadMeta, pos: p });
                            },
                        }
                    },
                    Ok(_) => {
                        proof {
                            assert(false);
                        }
                        let p = reader.pos();
                        return Err(ReadErr { kind: ErrKind::BadMeta, pos: p });
                    },
                    Err(e) => {
                        return Err(e);
                    },
                }
            }
            match read_meta_sugar(reader) {
                Ok(v) => {
                    return Ok(ReadState::Continue(v));
                },
                Err(e) => {
                    return Err(e);
                },
            }
        },
    }
}

/// One dispatch step: skips whitespace, then reads one form, reports a
/// closing delimiter, or reports end of input.
fn read_internal(reader: &mut RawReader) -> (res: Result<ReadState, ReadErr>)
    ensures
        final(reader).start_len() == old(reader).start_len(),
        form_ok(spec_read_form(old(reader)@), res, final(reader)@, old(reader).start_len()),
        (res matches Ok(st) && !(st is EOF)) ==> final(reader)@.len() < old(reader)@.len(),
    decreases old(reader)@.len(), 9int,
{
    match reader.pre_read_next_char() {
        None => {
            return Ok(ReadState::EOF);
        },
        Some(c) => {
            if is_ws_exec(c) {
                reader.consume_char();
                return read_internal(reader);
            }
            if c == '-' {
                match read_symbol_or_number(reader) {
                    Ok(v) => {
                        return Ok(ReadState::Continue(v));
                    },
                    Err(e) => {
                        return Err(e);
                    },
                }
            }
            let cu = c as u32;
            if 48 <= cu && cu <= 57 {
                match read_number(reader) {
                    Ok(v) => {
                        return Ok(ReadState::Continue(v));
                    },
                    Err(e) => {
                        return Err(e);
                    },
                }
            }
            if c == '\'' || c == '@' {
                return wrapping_reader(reader, c);
            }
            if c == '"' {
                return read_string(reader);
            }
            if c == ':' {
                return read_keyword(reader);
            }
            if c == '(' {
                return read_list(reader);
            }
            if c == '[' {
                return read_vector(reader);
            }
            if c == '{' {
                return read_map(reader);
            }
            if c == ')' || c == ']' || c == '}' {
                return read_unmatched_delimiter(reader);
            }
            if c == '^' {
                return read_meta(reader);
            }
            if c == ';' {
                return read_comment(reader);
            }
            if c == '`' || c == '~' || c == '\\' {
                reader.consume_char();
                let p = reader.pos();
                return Err(ReadErr { kind: ErrKind::BadToken, pos: p });
            }
            let v = read_symbol(reader);
            return Ok(ReadState::Continue(v));
        },
    }
}

impl RawReader {
    /// Reads the next top-level form: a value, or `None` at end of input.
    /// A stray closing delimiter and every malformed form are fatal.
    pub fn read(&mut self) -> (res: Result<Option<AstVal>, ReadErr>)
        ensures
            final(self).start_len() == old(self).start_len(),
            spec_read_next(old(self)@) is Eof ==> res == Result::<Option<AstVal>, ReadErr>::Ok(
                Option::<AstVal>::None,
            ) && final(self)@ == Seq::<char>::empty(),
            spec_read_next(old(self)@) matches ReadOut::Val(m, rest) ==> (res matches Ok(o)
                && o matches Some(v) && vm(v) == m) && final(self)@ == rest,
            spec_read_next(old(self)@) matches ReadOut::Fail(k, rest) ==> (res matches Err(e)
                && e.kind == k && e.pos == pos_of(old(self).start_len(), rest.len())) && final(self)@ == rest,
    {
        let step = read_internal(self);
        match step {
            Ok(ReadState::Continue(a)) => {
                return Ok(Some(a));
            },
            Ok(ReadState::EOF) => {
                return Ok(None);
            },
            Ok(ReadState::Delimited(_)) => {
                let p = self.pos();
                return Err(ReadErr { kind: ErrKind::UnmatchedDelimiter, pos: p });
            },
            Err(e) => {
                return Err(e);
            },
        }
    }
}

} // verus!
