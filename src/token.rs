use vstd::prelude::*;
use vstd::string::StringExecFns;
use vstd::std_specs::iter::IteratorSpec;
use crate::utils::spec_is_digit;

verus! {

/// The category of a token.
#[derive(Clone, Copy, Debug, PartialEq, Eq, Structural)]
pub enum TokenType {
    LEFT_PAREN,
    RIGHT_PAREN,
    LEFT_BRACE,
    RIGHT_BRACE,
    COMMA,
    DOT,
    MINUS,
    PLUS,
    SEMICOLON,
    SLASH,
    STAR,
    BANG,
    BANG_EQUAL,
    EQUAL,
    EQUAL_EQUAL,
    GREATER,
    GREATER_EQUAL,
    LESS,
    LESS_EQUAL,
    IDENTIFIER,
    STRING,
    NUMBER,
    AND,
    CLASS,
    ELSE,
    FALSE,
    FUN,
    FOR,
    IF,
    NIL,
    OR,
    PRINT,
    RETURN,
    SUPER,
    THIS,
    TRUE,
    VAR,
    WHILE,
    EOF,
}

/// A number as it was written: the digits before the point and those after it.
#[derive(Clone, Debug)]
pub struct Decimal {
    pub whole: String,
    pub fraction: String,
}

/// The literal value a token carries.
#[derive(Clone, Debug)]
pub enum Literal {
    /// No literal value.
    Absent,
    /// The text of a string literal, without its quotes.
    String(String),
    /// A number and the count of digits to render after its point.
    Number(Decimal, usize),
}

/// The mathematical content of a [`Literal`].
pub enum LiteralModel {
    Absent,
    Str(Seq<char>),
    Number { whole: Seq<char>, fraction: Seq<char>, precision: nat },
}

impl View for Literal {
    type V = LiteralModel;

    open spec fn view(&self) -> LiteralModel {
        match self {
            Literal::Absent => LiteralModel::Absent,
            Literal::String(s) => LiteralModel::Str(s@),
            Literal::Number(d, p) => LiteralModel::Number {
                whole: d.whole@,
                fraction: d.fraction@,
                precision: *p as nat,
            },
        }
    }
}

/// A lexical unit: its category, the exact source text, its literal value and
/// the 1-based line on which it starts.
#[derive(Clone, Debug)]
pub struct Token {
    pub token_type: TokenType,
    pub lexeme: String,
    pub literal: Literal,
    pub line: usize,
}

/// The mathematical content of a [`Token`].
pub struct TokenModel {
    pub kind: TokenType,
    pub lexeme: Seq<char>,
    pub literal: LiteralModel,
    pub line: nat,
}

impl View for Token {
    type V = TokenModel;

    open spec fn view(&self) -> TokenModel {
        TokenModel {
            kind: self.token_type,
            lexeme: self.lexeme@,
            literal: self.literal@,
            line: self.line as nat,
        }
    }
}

impl Token {
    pub fn new(token_type: TokenType, lexeme: &str, literal: Literal, line: usize) -> (r: Token)
        ensures
            r.token_type == token_type,
            r.lexeme@ == lexeme@,
            r.literal@ == literal@,
            r.line == line,
    {
        Token { token_type, lexeme: String::from_str(lexeme), literal, line }
    }
}


/// Relies on `String::push`: appends one character at the end.
#[verifier::external_body]
pub(crate) fn push_char(s: &mut String, c: char)
    ensures
        final(s)@ == old(s)@.push(c),
{
    s.push(c)
}

/// A digit run without its leading zeros, one digit kept.
pub open spec fn strip_leading_zeros(w: Seq<char>) -> Seq<char>
    decreases w.len(),
{
    if w.len() > 1 && w[0] == '0' {
        strip_leading_zeros(w.drop_first())
    } else {
        w
    }
}

/// The first `p` digits after the point: those written, then zeros.
pub open spec fn fraction_digits(f: Seq<char>, p: nat) -> Seq<char> {
    Seq::new(p, |i: int| if i < f.len() { f[i] } else { '0' })
}

/// The digit after `c`, for `c` from `0` to `8`; `0` after `9`.
pub open spec fn succ_digit(c: char) -> char {
    if c == '0' {
        '1'
    } else if c == '1' {
        '2'
    } else if c == '2' {
        '3'
    } else if c == '3' {
        '4'
    } else if c == '4' {
        '5'
    } else if c == '5' {
        '6'
    } else if c == '6' {
        '7'
    } else if c == '7' {
        '8'
    } else if c == '8' {
        '9'
    } else {
        '0'
    }
}

/// A digit string plus one in its last place, carrying leftwards; a carry out
/// of the first digit adds a leading `1`.
pub open spec fn increment(ds: Seq<char>) -> Seq<char>
    decreases ds.len(),
{
    if ds.len() == 0 {
        seq!['1']
    } else if ds.last() == '9' {
        increment(ds.drop_last()).push('0')
    } else {
        ds.drop_last().push(succ_digit(ds.last()))
    }
}

/// Whether keeping `p` digits after the point rounds up: the first digit
/// dropped is `5` or more.
pub open spec fn rounds_up(fraction: Seq<char>, p: nat) -> bool {
    p < fraction.len() && '5' <= fraction[p as int]
}

/// The digits of the number rounded to nearest at `p` places after the point,
/// whole part and fraction together.
pub open spec fn rounded_digits(whole: Seq<char>, fraction: Seq<char>, p: nat) -> Seq<char> {
    let ds = whole + fraction_digits(fraction, p);
    if rounds_up(fraction, p) {
        increment(ds)
    } else {
        ds
    }
}

/// A number rounded to nearest at `p` digits after its point. The point and
/// those digits are written only when `p` is positive and the number was
/// written with a fraction; the whole part loses its leading zeros.
pub open spec fn render_number(whole: Seq<char>, fraction: Seq<char>, p: nat) -> Seq<char> {
    let ds = rounded_digits(whole, fraction, p);
    let m = ds.len() - p;
    if p == 0 || fraction.len() == 0 {
        strip_leading_zeros(ds.subrange(0, m))
    } else {
        strip_leading_zeros(ds.subrange(0, m)) + seq!['.'] + ds.subrange(m, ds.len() as int)
    }
}

pub proof fn lemma_increment_len(ds: Seq<char>)
    ensures
        increment(ds).len() >= ds.len(),
    decreases ds.len(),
{
    if ds.len() > 0 && ds.last() == '9' {
        lemma_increment_len(ds.drop_last());
    }
}

/// The text of a literal: `null` when absent, a string verbatim, a number at
/// its precision.
pub open spec fn render_literal(l: LiteralModel) -> Seq<char> {
    match l {
        LiteralModel::Absent => seq!['n', 'u', 'l', 'l'],
        LiteralModel::Str(s) => s,
        LiteralModel::Number { whole, fraction, precision } => render_number(
            whole,
            fraction,
            precision,
        ),
    }
}

/// Appends `v[from..to]` to `out`.
pub(crate) fn push_range(out: &mut String, v: &Vec<char>, from: usize, to: usize)
    requires
        from <= to <= v@.len(),
    ensures
        final(out)@ == old(out)@ + v@.subrange(from as int, to as int),
{
    let mut i: usize = from;
    while i < to
        invariant
            from <= i <= to <= v@.len(),
            out@ == old(out)@ + v@.subrange(from as int, i as int),
        decreases to - i,
    {
        push_char(out, v[i]);
        i = i + 1;
        assert(v@.subrange(from as int, i as int) == v@.subrange(from as int, i - 1 as int).push(
            v@[i - 1],
        ));
    }
}

/// The characters of `s`, in order.
pub fn chars_of(s: &str) -> (r: Vec<char>)
    ensures
        r@ == s@,
{
    let mut out: Vec<char> = Vec::new();
    let mut it = s.chars();
    loop
        invariant
            it.obeys_prophetic_iter_laws(),
            out@ + it.remaining() == s@,
            it.decrease() is Some,
        ensures
            out@ == s@,
        decreases it.decrease()->0,
    {
        match it.next() {
            Some(c) => {
                out.push(c);
            },
            None => {
                assert(out@ =~= out@ + it.remaining());
                break;
            },
        }
    }
    out
}

fn succ_digit_of(c: char) -> (r: char)
    ensures
        r == succ_digit(c),
{
    match c {
        '0' => '1',
        '1' => '2',
        '2' => '3',
        '3' => '4',
        '4' => '5',
        '5' => '6',
        '6' => '7',
        '7' => '8',
        '8' => '9',
        _ => '0',
    }
}

/// `ds[0..n]` plus one in its last place.
fn increment_prefix(ds: &Vec<char>, n: usize) -> (r: Vec<char>)
    requires
        n <= ds@.len(),
    ensures
        r@ == increment(ds@.subrange(0, n as int)),
    decreases n,
{
    let ghost pre = ds@.subrange(0, n as int);
    if n == 0 {
        return vec!['1'];
    }
    assert(pre.drop_last() =~= ds@.subrange(0, n - 1 as int));
    if ds[n - 1] == '9' {
        let mut r = increment_prefix(ds, n - 1);
        r.push('0');
        r
    } else {
        let mut r: Vec<char> = Vec::new();
        let mut i: usize = 0;
        while i < n - 1
            invariant
                i <= n - 1,
                n <= ds@.len(),
                r@ == ds@.subrange(0, i as int),
            decreases n - 1 - i,
        {
            r.push(ds[i]);
            i = i + 1;
            assert(r@ =~= ds@.subrange(0, i as int));
        }
        r.push(succ_digit_of(ds[n - 1]));
        r
    }
}

/// Appends `ds[0..m]` without its leading zeros.
fn push_stripped(out: &mut String, ds: &Vec<char>, m: usize)
    requires
        m <= ds@.len(),
    ensures
        final(out)@ == old(out)@ + strip_leading_zeros(ds@.subrange(0, m as int)),
{
    let mut k: usize = 0;
    assert(ds@.subrange(0, m as int).subrange(0, m as int) =~= ds@.subrange(0, m as int));
    while m > 0 && k < m - 1 && ds[k] == '0'
        invariant
            k <= m <= ds@.len(),
            strip_leading_zeros(ds@.subrange(k as int, m as int)) == strip_leading_zeros(
                ds@.subrange(0, m as int),
            ),
        decreases m - k,
    {
        assert(ds@.subrange(k as int, m as int).drop_first() =~= ds@.subrange(k + 1 as int, m as int));
        k = k + 1;
    }
    if m == 0 {
        assert(ds@.subrange(k as int, m as int) =~= ds@.subrange(0, m as int));
    }
    assert(strip_leading_zeros(ds@.subrange(k as int, m as int)) == ds@.subrange(k as int, m as int));
    push_range(out, ds, k, m);
}

/// Renders a number rounded to nearest at `p` digits after its point.
pub fn render_number_text(d: &Decimal, p: usize) -> (r: String)
    ensures
        r@ == render_number(d.whole@, d.fraction@, p as nat),
{
    let w = chars_of(d.whole.as_str());
    let f = chars_of(d.fraction.as_str());
    let mut ds0: Vec<char> = Vec::new();
    let mut i: usize = 0;
    while i < w.len()
        invariant
            i <= w@.len(),
            ds0@ == w@.subrange(0, i as int),
        decreases w@.len() - i,
    {
        ds0.push(w[i]);
        i = i + 1;
        assert(ds0@ =~= w@.subrange(0, i as int));
    }
    let mut j: usize = 0;
    while j < p
        invariant
            i == w@.len(),
            j <= p,
            ds0@ == w@ + fraction_digits(f@, j as nat),
        decreases p - j,
    {
        let c = if j < f.len() {
            f[j]
        } else {
            '0'
        };
        ds0.push(c);
        j = j + 1;
        assert(ds0@ =~= w@ + fraction_digits(f@, j as nat));
    }
    assert(w@.subrange(0, w@.len() as int) =~= w@);
    let up = p < f.len() && f[p] >= '5';
    let ds = if up {
        assert(ds0@.subrange(0, ds0@.len() as int) =~= ds0@);
        increment_prefix(&ds0, ds0.len())
    } else {
        ds0
    };
    proof {
        lemma_increment_len(ds0@);
    }
    assert(ds@ == rounded_digits(d.whole@, d.fraction@, p as nat));
    let m = ds.len() - p;
    let mut out = String::new();
    push_stripped(&mut out, &ds, m);
    if p > 0 && f.len() > 0 {
        push_char(&mut out, '.');
        push_range(&mut out, &ds, m, ds.len());
    }
    out
}

impl Literal {
    /// The text of the literal.
    pub fn render(&self) -> (r: String)
        ensures
            r@ == render_literal(self@),
    {
        match self {
            Literal::Absent => {
                let r = String::from_str("null");
                proof {
                    reveal_strlit("null");
                }
                assert(r@ =~= seq!['n', 'u', 'l', 'l']);
                r
            },
            Literal::String(s) => s.clone(),
            Literal::Number(d, p) => render_number_text(d, *p),
        }
    }
}

impl TokenType {
    /// The category's name, as tokens are listed.
    pub open spec fn spec_name(self) -> Seq<char> {
        match self {
            TokenType::LEFT_PAREN => "LEFT_PAREN"@,
            TokenType::RIGHT_PAREN => "RIGHT_PAREN"@,
            TokenType::LEFT_BRACE => "LEFT_BRACE"@,
            TokenType::RIGHT_BRACE => "RIGHT_BRACE"@,
            TokenType::COMMA => "COMMA"@,
            TokenType::DOT => "DOT"@,
            TokenType::MINUS => "MINUS"@,
            TokenType::PLUS => "PLUS"@,
            TokenType::SEMICOLON => "SEMICOLON"@,
            TokenType::SLASH => "SLASH"@,
            TokenType::STAR => "STAR"@,
            TokenType::BANG => "BANG"@,
            TokenType::BANG_EQUAL => "BANG_EQUAL"@,
            TokenType::EQUAL => "EQUAL"@,
            TokenType::EQUAL_EQUAL => "EQUAL_EQUAL"@,
            TokenType::GREATER => "GREATER"@,
            TokenType::GREATER_EQUAL => "GREATER_EQUAL"@,
            TokenType::LESS => "LESS"@,
            TokenType::LESS_EQUAL => "LESS_EQUAL"@,
            TokenType::IDENTIFIER => "IDENTIFIER"@,
            TokenType::STRING => "STRING"@,
            TokenType::NUMBER => "NUMBER"@,
            TokenType::AND => "AND"@,
            TokenType::CLASS => "CLASS"@,
            TokenType::ELSE => "ELSE"@,
            TokenType::FALSE => "FALSE"@,
            TokenType::FUN => "FUN"@,
            TokenType::FOR => "FOR"@,
            TokenType::IF => "IF"@,
            TokenType::NIL => "NIL"@,
            TokenType::OR => "OR"@,
            TokenType::PRINT => "PRINT"@,
            TokenType::RETURN => "RETURN"@,
            TokenType::SUPER => "SUPER"@,
            TokenType::THIS => "THIS"@,
            TokenType::TRUE => "TRUE"@,
            TokenType::VAR => "VAR"@,
            TokenType::WHILE => "WHILE"@,
            TokenType::EOF => "EOF"@,
        }
    }

    pub fn name(&self) -> (r: String)
        ensures
            r@ == self.spec_name(),
    {
        match self {
            TokenType::LEFT_PAREN => String::from_str("LEFT_PAREN"),
            TokenType::RIGHT_PAREN => String::from_str("RIGHT_PAREN"),
            TokenType::LEFT_BRACE => String::from_str("LEFT_BRACE"),
            TokenType::RIGHT_BRACE => String::from_str("RIGHT_BRACE"),
            TokenType::COMMA => String::from_str("COMMA"),
            TokenType::DOT => String::from_str("DOT"),
            TokenType::MINUS => String::from_str("MINUS"),
            TokenType::PLUS => String::from_str("PLUS"),
            TokenType::SEMICOLON => String::from_str("SEMICOLON"),
            TokenType::SLASH => String::from_str("SLASH"),
            TokenType::STAR => String::from_str("STAR"),
            TokenType::BANG => String::from_str("BANG"),
            TokenType::BANG_EQUAL => String::from_str("BANG_EQUAL"),
            TokenType::EQUAL => String::from_str("EQUAL"),
            TokenType::EQUAL_EQUAL => String::from_str("EQUAL_EQUAL"),
            TokenType::GREATER => String::from_str("GREATER"),
            TokenType::GREATER_EQUAL => String::from_str("GREATER_EQUAL"),
            TokenType::LESS => String::from_str("LESS"),
            TokenType::LESS_EQUAL => String::from_str("LESS_EQUAL"),
            TokenType::IDENTIFIER => String::from_str("IDENTIFIER"),
            TokenType::STRING => String::from_str("STRING"),
            TokenType::NUMBER => String::from_str("NUMBER"),
            TokenType::AND => String::from_str("AND"),
            TokenType::CLASS => String::from_str("CLASS"),
            TokenType::ELSE => String::from_str("ELSE"),
            TokenType::FALSE => String::from_str("FALSE"),
            TokenType::FUN => String::from_str("FUN"),
            TokenType::FOR => String::from_str("FOR"),
            TokenType::IF => String::from_str("IF"),
            TokenType::NIL => String::from_str("NIL"),
            TokenType::OR => String::from_str("OR"),
            TokenType::PRINT => String::from_str("PRINT"),
            TokenType::RETURN => String::from_str("RETURN"),
            TokenType::SUPER => String::from_str("SUPER"),
            TokenType::THIS => String::from_str("THIS"),
            TokenType::TRUE => String::from_str("TRUE"),
            TokenType::VAR => String::from_str("VAR"),
            TokenType::WHILE => String::from_str("WHILE"),
            TokenType::EOF => String::from_str("EOF"),
        }
    }
}

/// A token as listed: `<CATEGORY> <lexeme> <literal>`, with `null` for no
/// literal.
pub open spec fn token_line(t: TokenModel) -> Seq<char> {
    t.kind.spec_name() + seq![' '] + t.lexeme + seq![' '] + render_literal(t.literal)
}

impl Token {
    pub fn render(&self) -> (r: String)
        ensures
            r@ == token_line(self@),
    {
        let mut out = self.token_type.name();
        push_char(&mut out, ' ');
        out.append(self.lexeme.as_str());
        push_char(&mut out, ' ');
        let lit = self.literal.render();
        out.append(lit.as_str());
        out
    }
}

/// Every character of `s` is a decimal digit.
pub open spec fn is_digits(s: Seq<char>) -> bool {
    forall|i: int| 0 <= i < s.len() ==> spec_is_digit(#[trigger] s[i])
}

/// A number literal whose whole part is a non-empty digit run and whose
/// fraction is a digit run.
pub open spec fn number_literal_wf(l: LiteralModel) -> bool {
    match l {
        LiteralModel::Number { whole, fraction, .. } => whole.len() > 0 && is_digits(whole)
            && is_digits(fraction),
        _ => false,
    }
}

impl Decimal {
    /// The whole part is a non-empty digit run and the fraction a digit run.
    pub open spec fn wf(&self) -> bool {
        self.whole@.len() > 0 && is_digits(self.whole@) && is_digits(self.fraction@)
    }

    pub fn new(whole: &str, fraction: &str) -> (r: Decimal)
        ensures
            r.whole@ == whole@,
            r.fraction@ == fraction@,
    {
        Decimal { whole: String::from_str(whole), fraction: String::from_str(fraction) }
    }
}

} // verus!
