use vstd::prelude::*;
use crate::token::{Decimal, Literal, LiteralModel, Token, TokenModel, TokenType, chars_of, push_char, push_range};
use crate::utils::{is_alpha, is_alpha_numeric, is_digit, spec_is_alpha, spec_is_alpha_numeric, spec_is_digit};
use vstd::string::StringExecFns;
use crate::scan_laws::lemma_word_and_number_tokens;

verus! {

/// A lexical error, with the line on which it was found.
#[derive(Clone, Copy, Debug, PartialEq, Eq, Structural)]
pub enum ScanErrorKind {
    /// A character that starts no token.
    UnexpectedCharacter(char),
    /// A string literal that the input ends inside.
    UnterminatedString,
    /// A block comment that the input ends inside.
    UnterminatedComment,
}

#[derive(Clone, Copy, Debug, PartialEq, Eq, Structural)]
pub struct ScanError {
    pub line: usize,
    pub kind: ScanErrorKind,
}

impl View for ScanError {
    type V = (ScanErrorKind, nat);

    open spec fn view(&self) -> (ScanErrorKind, nat) {
        (self.kind, self.line as nat)
    }
}

/// The characters that a run of one kind is made of.
#[derive(Clone, Copy, Debug, PartialEq, Eq, Structural)]
pub enum CharClass {
    Digit,
    Word,
    NotNewline,
    NotQuote,
}

pub open spec fn in_class(c: char, k: CharClass) -> bool {
    match k {
        CharClass::Digit => spec_is_digit(c),
        CharClass::Word => spec_is_alpha_numeric(c),
        CharClass::NotNewline => c != '\n',
        CharClass::NotQuote => c != '"',
    }
}

/// The end of the longest run of class `k` that starts at `i`.
pub open spec fn run_end(s: Seq<char>, i: int, k: CharClass) -> int
    decreases s.len() - i,
{
    if 0 <= i < s.len() && in_class(s[i], k) {
        run_end(s, i + 1, k)
    } else {
        i
    }
}

/// Where the first `*/` at or after `i` starts, or the length of `s` if none.
pub open spec fn block_end(s: Seq<char>, i: int) -> int
    decreases s.len() - i,
{
    if i < 0 || i + 1 >= s.len() {
        s.len() as int
    } else if s[i] == '*' && s[i + 1] == '/' {
        i
    } else {
        block_end(s, i + 1)
    }
}

/// The number of newline characters in `s`.
pub open spec fn newlines(s: Seq<char>) -> nat
    decreases s.len(),
{
    if s.len() == 0 {
        0
    } else {
        newlines(s.drop_last()) + if s.last() == '\n' {
            1nat
        } else {
            0nat
        }
    }
}

/// The keyword that `w` spells, if any.
pub open spec fn keyword_of(w: Seq<char>) -> Option<TokenType> {
    if w == seq!['a', 'n', 'd'] {
        Some(TokenType::AND)
    } else if w == seq!['c', 'l', 'a', 's', 's'] {
        Some(TokenType::CLASS)
    } else if w == seq!['e', 'l', 's', 'e'] {
        Some(TokenType::ELSE)
    } else if w == seq!['f', 'a', 'l', 's', 'e'] {
        Some(TokenType::FALSE)
    } else if w == seq!['f', 'u', 'n'] {
        Some(TokenType::FUN)
    } else if w == seq!['f', 'o', 'r'] {
        Some(TokenType::FOR)
    } else if w == seq!['i', 'f'] {
        Some(TokenType::IF)
    } else if w == seq!['n', 'i', 'l'] {
        Some(TokenType::NIL)
    } else if w == seq!['o', 'r'] {
        Some(TokenType::OR)
    } else if w == seq!['p', 'r', 'i', 'n', 't'] {
        Some(TokenType::PRINT)
    } else if w == seq!['r', 'e', 't', 'u', 'r', 'n'] {
        Some(TokenType::RETURN)
    } else if w == seq!['s', 'u', 'p', 'e', 'r'] {
        Some(TokenType::SUPER)
    } else if w == seq!['t', 'h', 'i', 's'] {
        Some(TokenType::THIS)
    } else if w == seq!['t', 'r', 'u', 'e'] {
        Some(TokenType::TRUE)
    } else if w == seq!['v', 'a', 'r'] {
        Some(TokenType::VAR)
    } else if w == seq!['w', 'h', 'i', 'l', 'e'] {
        Some(TokenType::WHILE)
    } else {
        None
    }
}

/// The category of a single-character token, if `c` is one.
pub open spec fn single_kind(c: char) -> Option<TokenType> {
    if c == '(' {
        Some(TokenType::LEFT_PAREN)
    } else if c == ')' {
        Some(TokenType::RIGHT_PAREN)
    } else if c == '{' {
        Some(TokenType::LEFT_BRACE)
    } else if c == '}' {
        Some(TokenType::RIGHT_BRACE)
    } else if c == ',' {
        Some(TokenType::COMMA)
    } else if c == '.' {
        Some(TokenType::DOT)
    } else if c == '-' {
        Some(TokenType::MINUS)
    } else if c == '+' {
        Some(TokenType::PLUS)
    } else if c == ';' {
        Some(TokenType::SEMICOLON)
    } else if c == '*' {
        Some(TokenType::STAR)
    } else {
        None
    }
}

/// For `!`, `=`, `<` and `>`: the one-character category and the one with a
/// following `=`.
pub open spec fn pair_kinds(c: char) -> Option<(TokenType, TokenType)> {
    if c == '!' {
        Some((TokenType::BANG, TokenType::BANG_EQUAL))
    } else if c == '=' {
        Some((TokenType::EQUAL, TokenType::EQUAL_EQUAL))
    } else if c == '<' {
        Some((TokenType::LESS, TokenType::LESS_EQUAL))
    } else if c == '>' {
        Some((TokenType::GREATER, TokenType::GREATER_EQUAL))
    } else {
        None
    }
}

/// The outcome of scanning from one position: where the next scan starts,
/// the line there, and the token or the error found, if any.
pub struct Step {
    pub next: int,
    pub line: nat,
    pub token: Option<TokenModel>,
    pub error: Option<(ScanErrorKind, nat)>,
}

pub open spec fn next_is(s: Seq<char>, pos: int, c: char) -> bool {
    pos + 1 < s.len() && s[pos + 1] == c
}

/// A token of `len` characters at `pos` with no literal.
pub open spec fn plain(s: Seq<char>, pos: int, line: nat, kind: TokenType, len: int) -> Step {
    Step {
        next: pos + len,
        line,
        token: Some(
            TokenModel { kind, lexeme: s.subrange(pos, pos + len), literal: LiteralModel::Absent, line },
        ),
        error: None,
    }
}

pub open spec fn skip(next: int, line: nat) -> Step {
    Step { next, line, token: None, error: None }
}

/// The input ends inside a construct that began at `pos`.
pub open spec fn unterminated(s: Seq<char>, pos: int, line: nat, kind: ScanErrorKind) -> Step {
    let end_line = line + newlines(s.subrange(pos, s.len() as int));
    Step { next: s.len() as int, line: end_line, token: None, error: Some((kind, end_line)) }
}

pub open spec fn all_zeros(f: Seq<char>) -> bool {
    forall|i: int| 0 <= i < f.len() ==> f[i] == '0'
}

/// The digits after the point are rendered at their own count, or at one when
/// there are none or all of them are zeros.
pub open spec fn precision_of(fraction: Seq<char>) -> nat {
    if fraction.len() == 0 || all_zeros(fraction) {
        1
    } else {
        fraction.len()
    }
}

/// A number literal at `pos`: digits, then a point and digits if a digit
/// follows the point.
pub open spec fn number_step(s: Seq<char>, pos: int, line: nat) -> Step {
    let d = run_end(s, pos + 1, CharClass::Digit);
    let has_fraction = d + 1 < s.len() && s[d] == '.' && spec_is_digit(s[d + 1]);
    let e = if has_fraction {
        run_end(s, d + 2, CharClass::Digit)
    } else {
        d
    };
    let fraction = if has_fraction {
        s.subrange(d + 1, e)
    } else {
        Seq::empty()
    };
    Step {
        next: e,
        line,
        token: Some(
            TokenModel {
                kind: TokenType::NUMBER,
                lexeme: s.subrange(pos, e),
                literal: LiteralModel::Number {
                    whole: s.subrange(pos, d),
                    fraction,
                    precision: precision_of(fraction),
                },
                line,
            },
        ),
        error: None,
    }
}

/// An identifier or keyword at `pos`.
pub open spec fn word_step(s: Seq<char>, pos: int, line: nat) -> Step {
    let e = run_end(s, pos + 1, CharClass::Word);
    let kind = match keyword_of(s.subrange(pos, e)) {
        Some(k) => k,
        None => TokenType::IDENTIFIER,
    };
    plain(s, pos, line, kind, e - pos)
}

/// A string literal whose opening quote is at `pos`.
pub open spec fn string_step(s: Seq<char>, pos: int, line: nat) -> Step {
    let e = run_end(s, pos + 1, CharClass::NotQuote);
    if e >= s.len() {
        unterminated(s, pos, line, ScanErrorKind::UnterminatedString)
    } else {
        Step {
            next: e + 1,
            line: line + newlines(s.subrange(pos, e)),
            token: Some(
                TokenModel {
                    kind: TokenType::STRING,
                    lexeme: s.subrange(pos, e + 1),
                    literal: LiteralModel::Str(s.subrange(pos + 1, e)),
                    line,
                },
            ),
            error: None,
        }
    }
}

/// What starts with `/`: a line comment, a block comment, or a slash.
pub open spec fn slash_step(s: Seq<char>, pos: int, line: nat) -> Step {
    if next_is(s, pos, '/') {
        skip(run_end(s, pos + 2, CharClass::NotNewline), line)
    } else if next_is(s, pos, '*') {
        let e = block_end(s, pos + 2);
        if e >= s.len() {
            unterminated(s, pos, line, ScanErrorKind::UnterminatedComment)
        } else {
            skip(e + 2, line + newlines(s.subrange(pos, e)))
        }
    } else {
        plain(s, pos, line, TokenType::SLASH, 1)
    }
}

/// Scanning one token, or one skipped stretch, from `pos` on line `line`.
pub open spec fn step(s: Seq<char>, pos: int, line: nat) -> Step {
    let c = s[pos];
    if single_kind(c) is Some {
        plain(s, pos, line, single_kind(c)->0, 1)
    } else if pair_kinds(c) is Some {
        if next_is(s, pos, '=') {
            plain(s, pos, line, (pair_kinds(c)->0).1, 2)
        } else {
            plain(s, pos, line, (pair_kinds(c)->0).0, 1)
        }
    } else if c == '/' {
        slash_step(s, pos, line)
    } else if c == ' ' || c == '\r' || c == '\t' {
        skip(pos + 1, line)
    } else if c == '\n' {
        skip(pos + 1, line + 1)
    } else if c == '"' {
        string_step(s, pos, line)
    } else if spec_is_digit(c) {
        number_step(s, pos, line)
    } else if spec_is_alpha(c) {
        word_step(s, pos, line)
    } else {
        Step {
            next: pos + 1,
            line,
            token: None,
            error: Some((ScanErrorKind::UnexpectedCharacter(c), line)),
        }
    }
}

pub open spec fn eof_token(line: nat) -> TokenModel {
    TokenModel { kind: TokenType::EOF, lexeme: Seq::empty(), literal: LiteralModel::Absent, line }
}

pub open spec fn cons_opt<A>(o: Option<A>, rest: Seq<A>) -> Seq<A> {
    match o {
        Some(a) => seq![a] + rest,
        None => rest,
    }
}

/// The tokens and errors of scanning `s` from `pos` on line `line` to its end.
pub open spec fn scan_from(s: Seq<char>, pos: int, line: nat) -> (Seq<TokenModel>, Seq<(ScanErrorKind, nat)>)
    decreases s.len() - pos,
{
    if pos < 0 || pos >= s.len() {
        (seq![eof_token(line)], Seq::empty())
    } else {
        let st = step(s, pos, line);
        if st.next <= pos || st.next > s.len() {
            (seq![eof_token(line)], Seq::empty())
        } else {
            let rest = scan_from(s, st.next, st.line);
            (cons_opt(st.token, rest.0), cons_opt(st.error, rest.1))
        }
    }
}

/// The tokens of `s`, the last of them the end of input.
pub open spec fn tokens_of(s: Seq<char>) -> Seq<TokenModel> {
    scan_from(s, 0, 1).0
}

/// The lexical errors of `s`, in the order found.
pub open spec fn errors_of(s: Seq<char>) -> Seq<(ScanErrorKind, nat)> {
    scan_from(s, 0, 1).1
}

pub open spec fn token_models(v: Seq<Token>) -> Seq<TokenModel> {
    v.map_values(|t: Token| t@)
}

pub open spec fn error_models(v: Seq<ScanError>) -> Seq<(ScanErrorKind, nat)> {
    v.map_values(|e: ScanError| e@)
}

pub open spec fn opt_token_model(o: Option<Token>) -> Option<TokenModel> {
    match o {
        Some(t) => Some(t@),
        None => None,
    }
}

pub open spec fn opt_error_model(o: Option<ScanError>) -> Option<(ScanErrorKind, nat)> {
    match o {
        Some(e) => Some(e@),
        None => None,
    }
}

/// No more newlines than characters.
pub proof fn lemma_newlines_bound(s: Seq<char>)
    ensures
        newlines(s) <= s.len(),
    decreases s.len(),
{
    if s.len() > 0 {
        lemma_newlines_bound(s.drop_last());
    }
}

/// The tokens and the lexical errors of one scan.
pub struct Scanned {
    pub tokens: Vec<Token>,
    pub errors: Vec<ScanError>,
}

impl Scanned {
    /// Whether any lexical error was found.
    pub fn had_error(&self) -> (r: bool)
        ensures
            r == (self.errors@.len() > 0),
    {
        self.errors.len() > 0
    }
}

/// A scanner over one source text, read as Unicode scalar values.
pub struct Scanner {
    source: Vec<char>,
}

impl View for Scanner {
    type V = Seq<char>;

    closed spec fn view(&self) -> Seq<char> {
        self.source@
    }
}

fn char_in_class(c: char, k: CharClass) -> (r: bool)
    ensures
        r == in_class(c, k),
{
    match k {
        CharClass::Digit => is_digit(c),
        CharClass::Word => is_alpha_numeric(c),
        CharClass::NotNewline => c != '\n',
        CharClass::NotQuote => c != '"',
    }
}

impl Scanner {
    pub fn new(source: String) -> (r: Scanner)
        ensures
            r@ == source@,
    {
        Scanner { source: chars_of(source.as_str()) }
    }

    fn run_end_at(&self, i: usize, k: CharClass) -> (r: usize)
        requires
            i <= self.source@.len(),
        ensures
            r == run_end(self.source@, i as int, k),
            i <= r <= self.source@.len(),
    {
        let mut j: usize = i;
        while j < self.source.len() && char_in_class(self.source[j], k)
            invariant
                i <= j <= self.source@.len(),
                run_end(self.source@, j as int, k) == run_end(self.source@, i as int, k),
            decreases self.source@.len() - j,
        {
            j = j + 1;
        }
        j
    }

    fn block_end_at(&self, i: usize) -> (r: usize)
        requires
            i <= self.source@.len() < usize::MAX,
        ensures
            r == block_end(self.source@, i as int),
            i <= r <= self.source@.len(),
            r < self.source@.len() ==> r + 1 < self.source@.len(),
    {
        let mut j: usize = i;
        while j + 1 < self.source.len() && !(self.source[j] == '*' && self.source[j + 1] == '/')
            invariant
                i <= j <= self.source@.len() < usize::MAX,
                block_end(self.source@, j as int) == block_end(self.source@, i as int),
            decreases self.source@.len() - j,
        {
            j = j + 1;
        }
        if j + 1 >= self.source.len() {
            self.source.len()
        } else {
            j
        }
    }

    fn count_newlines(&self, a: usize, b: usize) -> (r: usize)
        requires
            a <= b <= self.source@.len(),
        ensures
            r == newlines(self.source@.subrange(a as int, b as int)),
    {
        let mut n: usize = 0;
        let mut i: usize = a;
        while i < b
            invariant
                a <= i <= b <= self.source@.len(),
                n == newlines(self.source@.subrange(a as int, i as int)),
                n <= i - a,
            decreases b - i,
        {
            assert(self.source@.subrange(a as int, i + 1 as int).drop_last() =~= self.source@.subrange(
                a as int,
                i as int,
            ));
            if self.source[i] == '\n' {
                n = n + 1;
            }
            i = i + 1;
        }
        n
    }

    fn text(&self, a: usize, b: usize) -> (r: String)
        requires
            a <= b <= self.source@.len(),
        ensures
            r@ == self.source@.subrange(a as int, b as int),
    {
        let mut out = String::new();
        push_range(&mut out, &self.source, a, b);
        assert(out@ =~= self.source@.subrange(a as int, b as int));
        out
    }

    fn spells(&self, a: usize, b: usize, w: &[char]) -> (r: bool)
        requires
            a <= b <= self.source@.len(),
        ensures
            r == (self.source@.subrange(a as int, b as int) == w@),
    {
        if b - a != w.len() {
            return false;
        }
        let mut i: usize = 0;
        while i < w.len()
            invariant
                a <= b <= self.source@.len(),
                b - a == w@.len(),
                i <= w@.len(),
                forall|j: int| 0 <= j < i ==> self.source@[a + j] == w@[j],
            decreases w@.len() - i,
        {
            if self.source[a + i] != w[i] {
                assert(self.source@.subrange(a as int, b as int)[i as int] != w@[i as int]);
                return false;
            }
            i = i + 1;
        }
        assert(self.source@.subrange(a as int, b as int) =~= w@);
        true
    }

    fn all_zeros_in(&self, a: usize, b: usize) -> (r: bool)
        requires
            a <= b <= self.source@.len(),
        ensures
            r == all_zeros(self.source@.subrange(a as int, b as int)),
    {
        let mut i: usize = a;
        while i < b
            invariant
                a <= i <= b <= self.source@.len(),
                forall|j: int| a <= j < i ==> self.source@[j] == '0',
            decreases b - i,
        {
            if self.source[i] != '0' {
                assert(self.source@.subrange(a as int, b as int)[i - a] != '0');
                return false;
            }
            i = i + 1;
        }
        assert forall|j: int| 0 <= j < b - a implies self.source@.subrange(a as int, b as int)[j] == '0' by {
            assert(self.source@[a + j] == '0');
        }
        true
    }
    fn keyword(&self, a: usize, b: usize) -> (r: Option<TokenType>)
        requires
            a <= b <= self.source@.len(),
        ensures
            r == keyword_of(self.source@.subrange(a as int, b as int)),
    {
        if self.spells(a, b, &['a', 'n', 'd']) {
            Some(TokenType::AND)
        } else if self.spells(a, b, &['c', 'l', 'a', 's', 's']) {
            Some(TokenType::CLASS)
        } else if self.spells(a, b, &['e', 'l', 's', 'e']) {
            Some(TokenType::ELSE)
        } else if self.spells(a, b, &['f', 'a', 'l', 's', 'e']) {
            Some(TokenType::FALSE)
        } else if self.spells(a, b, &['f', 'u', 'n']) {
            Some(TokenType::FUN)
        } else if self.spells(a, b, &['f', 'o', 'r']) {
            Some(TokenType::FOR)
        } else if self.spells(a, b, &['i', 'f']) {
            Some(TokenType::IF)
        } else if self.spells(a, b, &['n', 'i', 'l']) {
            Some(TokenType::NIL)
        } else if self.spells(a, b, &['o', 'r']) {
            Some(TokenType::OR)
        } else if self.spells(a, b, &['p', 'r', 'i', 'n', 't']) {
            Some(TokenType::PRINT)
        } else if self.spells(a, b, &['r', 'e', 't', 'u', 'r', 'n']) {
            Some(TokenType::RETURN)
        } else if self.spells(a, b, &['s', 'u', 'p', 'e', 'r']) {
            Some(TokenType::SUPER)
        } else if self.spells(a, b, &['t', 'h', 'i', 's']) {
            Some(TokenType::THIS)
        } else if self.spells(a, b, &['t', 'r', 'u', 'e']) {
            Some(TokenType::TRUE)
        } else if self.spells(a, b, &['v', 'a', 'r']) {
            Some(TokenType::VAR)
        } else if self.spells(a, b, &['w', 'h', 'i', 'l', 'e']) {
            Some(TokenType::WHILE)
        } else {
            None
        }
    }
}

fn single_kind_of(c: char) -> (r: Option<TokenType>)
    ensures
        r == single_kind(c),
{
    match c {
        '(' => Some(TokenType::LEFT_PAREN),
        ')' => Some(TokenType::RIGHT_PAREN),
        '{' => Some(TokenType::LEFT_BRACE),
        '}' => Some(TokenType::RIGHT_BRACE),
        ',' => Some(TokenType::COMMA),
        '.' => Some(TokenType::DOT),
        '-' => Some(TokenType::MINUS),
        '+' => Some(TokenType::PLUS),
        ';' => Some(TokenType::SEMICOLON),
        '*' => Some(TokenType::STAR),
        _ => None,
    }
}

fn pair_kinds_of(c: char) -> (r: Option<(TokenType, TokenType)>)
    ensures
        r == pair_kinds(c),
{
    match c {
        '!' => Some((TokenType::BANG, TokenType::BANG_EQUAL)),
        '=' => Some((TokenType::EQUAL, TokenType::EQUAL_EQUAL)),
        '<' => Some((TokenType::LESS, TokenType::LESS_EQUAL)),
        '>' => Some((TokenType::GREATER, TokenType::GREATER_EQUAL)),
        _ => None,
    }
}

impl Scanner {
    /// The result of one scanning step, as `step` states it.
    pub open spec fn step_matches(
        &self,
        pos: usize,
        line: usize,
        r: (usize, usize, Option<Token>, Option<ScanError>),
    ) -> bool {
        let st = step(self@, pos as int, line as nat);
        &&& r.0 == st.next
        &&& r.1 == st.line
        &&& opt_token_model(r.2) == st.token
        &&& opt_error_model(r.3) == st.error
    }

    fn plain_token(&self, pos: usize, line: usize, kind: TokenType, len: usize) -> (r: (
        usize,
        usize,
        Option<Token>,
        Option<ScanError>,
    ))
        requires
            pos + len <= self.source@.len() < usize::MAX,
        ensures
            r.0 == pos + len,
            r.1 == line,
            opt_token_model(r.2) == plain(self@, pos as int, line as nat, kind, len as int).token,
            r.3 is None,
    {
        let t = Token { token_type: kind, lexeme: self.text(pos, pos + len), literal: Literal::Absent, line };
        (pos + len, line, Some(t), None)
    }

    fn unterminated_at(&self, pos: usize, line: usize, kind: ScanErrorKind) -> (r: (
        usize,
        usize,
        Option<Token>,
        Option<ScanError>,
    ))
        requires
            pos < self.source@.len() < usize::MAX,
            line <= pos + 1,
        ensures
            r.0 == unterminated(self@, pos as int, line as nat, kind).next,
            r.1 == unterminated(self@, pos as int, line as nat, kind).line,
            r.2 is None,
            r.1 <= r.0 + 1,
            opt_error_model(r.3) == unterminated(self@, pos as int, line as nat, kind).error,
    {
        let n = self.count_newlines(pos, self.source.len());
        proof {
            lemma_newlines_bound(self.source@.subrange(pos as int, self.source@.len() as int));
        }
        let end_line = line + n;
        (self.source.len(), end_line, None, Some(ScanError { line: end_line, kind }))
    }

    /// Scans one token, or one stretch that yields none, at `pos`.
    fn scan_token(&self, pos: usize, line: usize) -> (r: (usize, usize, Option<Token>, Option<ScanError>))
        requires
            pos < self.source@.len() < usize::MAX,
            line <= pos + 1,
        ensures
            self.step_matches(pos, line, r),
            pos < r.0 <= self.source@.len(),
            r.1 <= r.0 + 1,
    {
        let ghost s = self@;
        let c = self.source[pos];
        let len = self.source.len();
        if let Some(k) = single_kind_of(c) {
            return self.plain_token(pos, line, k, 1);
        }
        if let Some(kinds) = pair_kinds_of(c) {
            if pos + 1 < len && self.source[pos + 1] == '=' {
                return self.plain_token(pos, line, kinds.1, 2);
            } else {
                return self.plain_token(pos, line, kinds.0, 1);
            }
        }
        if c == '/' {
            if pos + 1 < len && self.source[pos + 1] == '/' {
                let e = self.run_end_at(pos + 2, CharClass::NotNewline);
                return (e, line, None, None);
            } else if pos + 1 < len && self.source[pos + 1] == '*' {
                let e = self.block_end_at(pos + 2);
                if e >= len {
                    return self.unterminated_at(pos, line, ScanErrorKind::UnterminatedComment);
                }
                let n = self.count_newlines(pos, e);
                proof {
                    lemma_newlines_bound(s.subrange(pos as int, e as int));
                }
                return (e + 2, line + n, None, None);
            } else {
                return self.plain_token(pos, line, TokenType::SLASH, 1);
            }
        }
        if c == ' ' || c == '\r' || c == '\t' {
            return (pos + 1, line, None, None);
        }
        if c == '\n' {
            return (pos + 1, line + 1, None, None);
        }
        if c == '"' {
            let e = self.run_end_at(pos + 1, CharClass::NotQuote);
            if e >= len {
                return self.unterminated_at(pos, line, ScanErrorKind::UnterminatedString);
            }
            let n = self.count_newlines(pos, e);
            proof {
                lemma_newlines_bound(s.subrange(pos as int, e as int));
            }
            let t = Token {
                token_type: TokenType::STRING,
                lexeme: self.text(pos, e + 1),
                literal: Literal::String(self.text(pos + 1, e)),
                line,
            };
            return (e + 1, line + n, Some(t), None);
        }
        if is_digit(c) {
            let d = self.run_end_at(pos + 1, CharClass::Digit);
            let has_fraction = d + 1 < len && self.source[d] == '.' && is_digit(self.source[d + 1]);
            let e = if has_fraction {
                self.run_end_at(d + 2, CharClass::Digit)
            } else {
                d
            };
            let fraction = if has_fraction {
                self.text(d + 1, e)
            } else {
                String::new()
            };
            let precision: usize = if !has_fraction || self.all_zeros_in(d + 1, e) {
                1
            } else {
                e - d - 1
            };
            proof {
                if !has_fraction {
                    assert(fraction@ =~= Seq::<char>::empty());
                }
            }
            let t = Token {
                token_type: TokenType::NUMBER,
                lexeme: self.text(pos, e),
                literal: Literal::Number(Decimal { whole: self.text(pos, d), fraction }, precision),
                line,
            };
            return (e, line, Some(t), None);
        }
        if is_alpha(c) {
            let e = self.run_end_at(pos + 1, CharClass::Word);
            let kind = match self.keyword(pos, e) {
                Some(k) => k,
                None => TokenType::IDENTIFIER,
            };
            return self.plain_token(pos, line, kind, e - pos);
        }
        (pos + 1, line, None, Some(ScanError { line, kind: ScanErrorKind::UnexpectedCharacter(c) }))
    }
}

impl Scanner {
    /// Scans the whole source: every token in order, the end-of-input token
    /// last, and every lexical error in the order found. An error does not stop
    /// the scan.
    pub fn scan_tokens(self) -> (r: Scanned)
        requires
            self@.len() < usize::MAX,
        ensures
            token_models(r.tokens@) == tokens_of(self@),
            error_models(r.errors@) == errors_of(self@),
            forall|i: int|
                0 <= i < r.tokens@.len() && (#[trigger] r.tokens@[i]).token_type == TokenType::NUMBER
                    ==> r.tokens@[i].literal is Number && r.tokens@[i].literal->Number_0.wf(),
    {
        let ghost s = self@;
        let mut tokens: Vec<Token> = Vec::new();
        let mut errors: Vec<ScanError> = Vec::new();
        let mut current: usize = 0;
        let mut line: usize = 1;
        while current < self.source.len()
            invariant
                s == self@,
                current <= s.len() < usize::MAX,
                line <= current + 1,
                token_models(tokens@) + scan_from(s, current as int, line as nat).0 == tokens_of(s),
                error_models(errors@) + scan_from(s, current as int, line as nat).1 == errors_of(s),
            decreases s.len() - current,
        {
            let (next, next_line, token, error) = self.scan_token(current, line);
            let ghost rest = scan_from(s, next as int, next_line as nat);
            let ghost old_tokens = token_models(tokens@);
            let ghost old_errors = error_models(errors@);
            match token {
                Some(t) => {
                    tokens.push(t);
                },
                None => {},
            }
            match error {
                Some(e) => {
                    errors.push(e);
                },
                None => {},
            }
            proof {
                let st = step(s, current as int, line as nat);
                assert(scan_from(s, current as int, line as nat) == (
                    cons_opt(st.token, rest.0),
                    cons_opt(st.error, rest.1),
                ));
                if st.token is Some {
                    assert(token_models(tokens@) =~= old_tokens.push(st.token->0));
                    assert(old_tokens + cons_opt(st.token, rest.0) =~= token_models(tokens@) + rest.0);
                } else {
                    assert(token_models(tokens@) =~= old_tokens);
                }
                if st.error is Some {
                    assert(error_models(errors@) =~= old_errors.push(st.error->0));
                    assert(old_errors + cons_opt(st.error, rest.1) =~= error_models(errors@) + rest.1);
                } else {
                    assert(error_models(errors@) =~= old_errors);
                }
            }
            current = next;
            line = next_line;
        }
        let ghost before = token_models(tokens@);
        tokens.push(Token { token_type: TokenType::EOF, lexeme: String::new(), literal: Literal::Absent, line });
        proof {
            assert(token_models(tokens@) =~= before.push(eof_token(line as nat)));
            assert(before + seq![eof_token(line as nat)] =~= before.push(eof_token(line as nat)));
            assert(error_models(errors@) =~= error_models(errors@) + Seq::<(ScanErrorKind, nat)>::empty());
            lemma_word_and_number_tokens(s);
            assert forall|i: int|
                0 <= i < tokens@.len() && (#[trigger] tokens@[i]).token_type == TokenType::NUMBER
                    implies tokens@[i].literal is Number && tokens@[i].literal->Number_0.wf() by {
                assert(tokens_of(s)[i] == tokens@[i]@);
            }
        }
        Scanned { tokens, errors }
    }
}

/// `s` with each carriage return that precedes a line feed removed.
pub open spec fn crlf_to_lf(s: Seq<char>) -> Seq<char>
    decreases s.len(),
{
    if s.len() == 0 {
        Seq::empty()
    } else if s.len() >= 2 && s[0] == '\r' && s[1] == '\n' {
        seq!['\n'] + crlf_to_lf(s.subrange(2, s.len() as int))
    } else {
        seq![s[0]] + crlf_to_lf(s.drop_first())
    }
}

/// Turns each `\r\n` pair into a bare `\n`, as the scanner expects.
pub fn normalize_line_endings(source: &str) -> (r: String)
    ensures
        r@ == crlf_to_lf(source@),
{
    let v = chars_of(source);
    let mut out = String::new();
    let mut i: usize = 0;
    assert(v@.subrange(0, v@.len() as int) =~= v@);
    assert(out@ + crlf_to_lf(v@) =~= crlf_to_lf(v@));
    while i < v.len()
        invariant
            i <= v@.len(),
            v@ == source@,
            out@ + crlf_to_lf(v@.subrange(i as int, v@.len() as int)) == crlf_to_lf(v@),
        decreases v@.len() - i,
    {
        let ghost rest = v@.subrange(i as int, v@.len() as int);
        let ghost before = out@;
        if i + 1 < v.len() && v[i] == '\r' && v[i + 1] == '\n' {
            push_char(&mut out, '\n');
            assert(rest.subrange(2, rest.len() as int) =~= v@.subrange(i + 2, v@.len() as int));
            assert(before + crlf_to_lf(rest) =~= out@ + crlf_to_lf(
                v@.subrange(i + 2, v@.len() as int),
            ));
            i = i + 2;
        } else {
            push_char(&mut out, v[i]);
            assert(rest.drop_first() =~= v@.subrange(i + 1, v@.len() as int));
            assert(before + crlf_to_lf(rest) =~= out@ + crlf_to_lf(
                v@.subrange(i + 1, v@.len() as int),
            ));
            i = i + 1;
        }
    }
    assert(crlf_to_lf(v@.subrange(i as int, v@.len() as int)) =~= Seq::<char>::empty());
    assert(out@ + Seq::<char>::empty() =~= out@);
    out
}

/// The decimal digits of `n`.
pub open spec fn decimal(n: nat) -> Seq<char>
    decreases n,
{
    if n < 10 {
        seq![digit_char(n)]
    } else {
        decimal(n / 10) + seq![digit_char(n % 10)]
    }
}

pub open spec fn digit_char(d: nat) -> char {
    if d == 0 {
        '0'
    } else if d == 1 {
        '1'
    } else if d == 2 {
        '2'
    } else if d == 3 {
        '3'
    } else if d == 4 {
        '4'
    } else if d == 5 {
        '5'
    } else if d == 6 {
        '6'
    } else if d == 7 {
        '7'
    } else if d == 8 {
        '8'
    } else {
        '9'
    }
}

fn push_decimal(out: &mut String, n: usize)
    ensures
        final(out)@ == old(out)@ + decimal(n as nat),
    decreases n,
{
    if n >= 10 {
        push_decimal(out, n / 10);
    }
    let d = n % 10;
    let c = if d == 0 {
        '0'
    } else if d == 1 {
        '1'
    } else if d == 2 {
        '2'
    } else if d == 3 {
        '3'
    } else if d == 4 {
        '4'
    } else if d == 5 {
        '5'
    } else if d == 6 {
        '6'
    } else if d == 7 {
        '7'
    } else if d == 8 {
        '8'
    } else {
        '9'
    };
    push_char(out, c);
}

/// The diagnostic for an error: `[line L] Error: ` and what went wrong.
pub open spec fn error_message(e: (ScanErrorKind, nat)) -> Seq<char> {
    "[line "@ + decimal(e.1) + "] Error: "@ + match e.0 {
        ScanErrorKind::UnexpectedCharacter(c) => "Unexpected character: "@ + seq![c],
        ScanErrorKind::UnterminatedString => "Unterminated string."@,
        ScanErrorKind::UnterminatedComment => "Unterminated comment."@,
    }
}

impl ScanError {
    pub fn message(&self) -> (r: String)
        ensures
            r@ == error_message(self@),
    {
        let mut out = String::from_str("[line ");
        push_decimal(&mut out, self.line);
        out.append("] Error: ");
        match self.kind {
            ScanErrorKind::UnexpectedCharacter(c) => {
                out.append("Unexpected character: ");
                push_char(&mut out, c);
            },
            ScanErrorKind::UnterminatedString => {
                out.append("Unterminated string.");
            },
            ScanErrorKind::UnterminatedComment => {
                out.append("Unterminated comment.");
            },
        }
        out
    }
}

} // verus!
