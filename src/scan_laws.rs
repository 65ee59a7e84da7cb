use vstd::prelude::*;
use crate::scanner::{
    block_end, cons_opt, in_class, newlines, next_is, pair_kinds, run_end, scan_from, single_kind, step,
    tokens_of, keyword_of, errors_of, number_step, eof_token, precision_of, CharClass, ScanErrorKind,
};
use crate::utils::{spec_is_alpha, spec_is_alpha_numeric, spec_is_digit};
use crate::token::{is_digits, number_literal_wf, LiteralModel, TokenModel, TokenType};

verus! {

proof fn lemma_step_not_eof(s: Seq<char>, pos: int, line: nat)
    requires
        0 <= pos < s.len(),
    ensures
        step(s, pos, line).token is Some ==> step(s, pos, line).token->0.kind != TokenType::EOF,
{
}

proof fn lemma_eof_once_from(s: Seq<char>, pos: int, line: nat)
    ensures
        scan_from(s, pos, line).0.len() >= 1,
        scan_from(s, pos, line).0.last().kind == TokenType::EOF,
        forall|i: int|
            0 <= i < scan_from(s, pos, line).0.len() - 1 ==> scan_from(s, pos, line).0[i].kind
                != TokenType::EOF,
    decreases s.len() - pos,
{
    if 0 <= pos < s.len() {
        let st = step(s, pos, line);
        if pos < st.next <= s.len() {
            lemma_eof_once_from(s, st.next, st.line);
            lemma_step_not_eof(s, pos, line);
            let rest = scan_from(s, st.next, st.line).0;
            let all = scan_from(s, pos, line).0;
            assert(all == cons_opt(st.token, rest));
            if st.token is Some {
                assert forall|i: int| 0 <= i < all.len() - 1 implies all[i].kind != TokenType::EOF by {
                    if i > 0 {
                        assert(all[i] == rest[i - 1]);
                    }
                }
            }
        }
    }
}

/// Every scan ends with exactly one end-of-input token, and it is the last
/// token; this holds of the empty source too.
pub proof fn lemma_eof_exactly_once_last(s: Seq<char>)
    ensures
        tokens_of(s).len() >= 1,
        tokens_of(s).last().kind == TokenType::EOF,
        forall|i: int| 0 <= i < tokens_of(s).len() - 1 ==> tokens_of(s)[i].kind != TokenType::EOF,
{
    lemma_eof_once_from(s, 0, 1);
}


/// Whitespace between tokens.
pub open spec fn is_blank(c: char) -> bool {
    c == ' ' || c == '\r' || c == '\t' || c == '\n'
}

/// `s` with its whitespace removed.
pub open spec fn without_blanks(s: Seq<char>) -> Seq<char>
    decreases s.len(),
{
    if s.len() == 0 {
        Seq::empty()
    } else if is_blank(s[0]) {
        without_blanks(s.drop_first())
    } else {
        seq![s[0]] + without_blanks(s.drop_first())
    }
}

/// The lexemes of `ts`, one after another.
pub open spec fn joined_lexemes(ts: Seq<TokenModel>) -> Seq<char>
    decreases ts.len(),
{
    if ts.len() == 0 {
        Seq::empty()
    } else {
        ts[0].lexeme + joined_lexemes(ts.drop_first())
    }
}

/// A source in which every character is whitespace or starts a token other
/// than a string, and no comment begins.
pub open spec fn plain_source(s: Seq<char>) -> bool {
    &&& forall|i: int|
        0 <= i < s.len() ==> is_blank(#[trigger] s[i]) || single_kind(s[i]) is Some || pair_kinds(
            s[i],
        ) is Some || s[i] == '/' || spec_is_digit(s[i]) || spec_is_alpha(s[i])
    &&& forall|i: int|
        0 <= i < s.len() - 1 && #[trigger] s[i] == '/' ==> s[i + 1] != '/' && s[i + 1] != '*'
}

proof fn lemma_newlines_concat(a: Seq<char>, b: Seq<char>)
    ensures
        newlines(a + b) == newlines(a) + newlines(b),
    decreases b.len(),
{
    if b.len() > 0 {
        assert((a + b).drop_last() =~= a + b.drop_last());
        lemma_newlines_concat(a, b.drop_last());
    } else {
        assert(a + b =~= a);
    }
}

proof fn lemma_newlines_split(s: Seq<char>, a: int, b: int, c: int)
    requires
        0 <= a <= b <= c <= s.len(),
    ensures
        newlines(s.subrange(a, c)) == newlines(s.subrange(a, b)) + newlines(s.subrange(b, c)),
{
    assert(s.subrange(a, c) =~= s.subrange(a, b) + s.subrange(b, c));
    lemma_newlines_concat(s.subrange(a, b), s.subrange(b, c));
}

proof fn lemma_no_newlines(x: Seq<char>)
    requires
        forall|j: int| 0 <= j < x.len() ==> x[j] != '\n',
    ensures
        newlines(x) == 0,
    decreases x.len(),
{
    if x.len() > 0 {
        lemma_no_newlines(x.drop_last());
    }
}

proof fn lemma_no_newlines_in(s: Seq<char>, a: int, b: int)
    requires
        0 <= a <= b <= s.len(),
        forall|j: int| a <= j < b ==> s[j] != '\n',
    ensures
        newlines(s.subrange(a, b)) == 0,
{
    lemma_no_newlines(s.subrange(a, b));
}

proof fn lemma_run_end(s: Seq<char>, i: int, k: CharClass)
    requires
        0 <= i <= s.len(),
    ensures
        i <= run_end(s, i, k) <= s.len(),
        forall|j: int| i <= j < run_end(s, i, k) ==> in_class(#[trigger] s[j], k),
        run_end(s, i, k) < s.len() ==> !in_class(s[run_end(s, i, k)], k),
    decreases s.len() - i,
{
    if i < s.len() && in_class(s[i], k) {
        lemma_run_end(s, i + 1, k);
    }
}

proof fn lemma_block_end(s: Seq<char>, i: int)
    requires
        0 <= i <= s.len(),
    ensures
        i <= block_end(s, i) <= s.len(),
        block_end(s, i) < s.len() ==> block_end(s, i) + 1 < s.len() && s[block_end(s, i)] == '*'
            && s[block_end(s, i) + 1] == '/',
    decreases s.len() - i,
{
    if i + 1 < s.len() && !(s[i] == '*' && s[i + 1] == '/') {
        lemma_block_end(s, i + 1);
    }
}

/// One step moves forward, keeps the line equal to one more than the
/// newlines before the position reached, and gives a token the line on which
/// it starts and the source text from there.
proof fn lemma_step_line(s: Seq<char>, pos: int, line: nat)
    requires
        0 <= pos < s.len(),
        line == 1 + newlines(s.subrange(0, pos)),
    ensures
        pos < step(s, pos, line).next <= s.len(),
        step(s, pos, line).line == 1 + newlines(s.subrange(0, step(s, pos, line).next)),
        step(s, pos, line).token is Some ==> ({
            let t = step(s, pos, line).token->0;
            &&& t.line == line
            &&& pos + t.lexeme.len() <= s.len()
            &&& t.lexeme == s.subrange(pos, pos + t.lexeme.len())
            &&& step(s, pos, line).next == pos + t.lexeme.len()
            &&& t.kind != TokenType::STRING ==> forall|j: int|
                pos <= j < pos + t.lexeme.len() ==> !is_blank(#[trigger] s[j])
        }),
{
    let st = step(s, pos, line);
    let c = s[pos];
    lemma_block_end(s, if pos + 2 <= s.len() { pos + 2 } else { s.len() as int });
    lemma_run_end(s, pos + 1, CharClass::NotQuote);
    lemma_run_end(s, pos + 1, CharClass::Digit);
    lemma_run_end(s, pos + 1, CharClass::Word);
    if pos + 2 <= s.len() {
        lemma_run_end(s, pos + 2, CharClass::NotNewline);
    }
    let d = run_end(s, pos + 1, CharClass::Digit);
    if d + 2 <= s.len() {
        lemma_run_end(s, d + 2, CharClass::Digit);
    }
    assert(pos < st.next <= s.len());
    lemma_newlines_split(s, 0, pos, st.next);
    if single_kind(c) is Some || pair_kinds(c) is Some {
        assert forall|j: int| pos <= j < st.next implies !is_blank(#[trigger] s[j]) by {}
        lemma_no_newlines_in(s, pos, st.next);
    } else if c == '/' {
        if next_is(s, pos, '/') {
            lemma_no_newlines_in(s, pos, st.next);
        } else if next_is(s, pos, '*') {
            let e = block_end(s, pos + 2);
            if e < s.len() {
                lemma_newlines_split(s, pos, e, e + 2);
                lemma_no_newlines_in(s, e, e + 2);
            }
        } else {
            assert forall|j: int| pos <= j < st.next implies !is_blank(#[trigger] s[j]) by {}
            lemma_no_newlines_in(s, pos, st.next);
        }
    } else if c == ' ' || c == '\r' || c == '\t' {
        lemma_no_newlines_in(s, pos, st.next);
    } else if c == '\n' {
        let x = s.subrange(pos, pos + 1);
        assert(x.drop_last() =~= Seq::<char>::empty());
        assert(newlines(x.drop_last()) == 0);
        assert(newlines(x) == 1);
    } else if c == '"' {
        let e = run_end(s, pos + 1, CharClass::NotQuote);
        if e < s.len() {
            lemma_newlines_split(s, pos, e, e + 1);
            lemma_no_newlines_in(s, e, e + 1);
        }
    } else if spec_is_digit(c) {
        assert forall|j: int| pos <= j < st.next implies !is_blank(#[trigger] s[j]) by {
            if pos < j < d {
                assert(in_class(s[j], CharClass::Digit));
            } else if j > d + 1 {
                assert(in_class(s[j], CharClass::Digit));
            }
        }
        lemma_no_newlines_in(s, pos, st.next);
    } else if spec_is_alpha(c) {
        assert forall|j: int| pos <= j < st.next implies !is_blank(#[trigger] s[j]) by {
            if j > pos {
                assert(in_class(s[j], CharClass::Word));
            }
        }
        lemma_no_newlines_in(s, pos, st.next);
    } else {
        lemma_no_newlines_in(s, pos, st.next);
    }
}

/// An identifier or keyword token.
pub open spec fn is_word_token(t: TokenModel) -> bool {
    t.kind == TokenType::IDENTIFIER || keyword_of(t.lexeme) == Some(t.kind)
}

/// The lexeme of `t`, starting at `start`, is a run of identifier characters
/// that the source does not continue.
pub open spec fn maximal_word_at(s: Seq<char>, start: int, t: TokenModel) -> bool {
    &&& forall|j: int| start <= j < start + t.lexeme.len() ==> spec_is_alpha_numeric(#[trigger] s[j])
    &&& (start + t.lexeme.len() == s.len() || !spec_is_alpha_numeric(s[start + t.lexeme.len()]))
}

proof fn lemma_step_shapes(s: Seq<char>, pos: int, line: nat)
    requires
        0 <= pos < s.len(),
    ensures
        step(s, pos, line).token is Some ==> ({
            let t = step(s, pos, line).token->0;
            &&& is_word_token(t) ==> maximal_word_at(s, pos, t)
            &&& t.kind == TokenType::NUMBER ==> number_literal_wf(t.literal)
        }),
{
    let c = s[pos];
    lemma_run_end(s, pos + 1, CharClass::Digit);
    lemma_run_end(s, pos + 1, CharClass::Word);
    let d = run_end(s, pos + 1, CharClass::Digit);
    if d + 2 <= s.len() {
        lemma_run_end(s, d + 2, CharClass::Digit);
    }
    let st = step(s, pos, line);
    if st.token is Some {
        let t = st.token->0;
        if spec_is_digit(c) && single_kind(c) is None && pair_kinds(c) is None {
            let w = s.subrange(pos, d);
            assert forall|i: int| 0 <= i < w.len() implies spec_is_digit(#[trigger] w[i]) by {
                if i > 0 {
                    assert(in_class(s[pos + i], CharClass::Digit));
                }
            }
            let has_fraction = d + 1 < s.len() && s[d] == '.' && spec_is_digit(s[d + 1]);
            if has_fraction {
                let e = run_end(s, d + 2, CharClass::Digit);
                let f = s.subrange(d + 1, e);
                assert forall|i: int| 0 <= i < f.len() implies spec_is_digit(#[trigger] f[i]) by {
                    if i > 0 {
                        assert(in_class(s[d + 1 + i], CharClass::Digit));
                    }
                }
            }
        } else if spec_is_alpha(c) && single_kind(c) is None && pair_kinds(c) is None && c != '/'
            && c != '"' && !spec_is_digit(c) {
            assert forall|j: int| pos <= j < pos + t.lexeme.len() implies spec_is_alpha_numeric(
                #[trigger] s[j],
            ) by {
                if j > pos {
                    assert(in_class(s[j], CharClass::Word));
                }
            }
        }
    }
}

/// Where each token of `scan_from(s, pos, line)` starts in `s`.
pub open spec fn starts_from(s: Seq<char>, pos: int, line: nat) -> Seq<int>
    decreases s.len() - pos,
{
    if pos < 0 || pos >= s.len() {
        seq![pos]
    } else {
        let st = step(s, pos, line);
        if st.next <= pos || st.next > s.len() {
            seq![pos]
        } else {
            let here = if st.token is Some {
                Some(pos)
            } else {
                None
            };
            cons_opt(here, starts_from(s, st.next, st.line))
        }
    }
}

/// Where each token of `tokens_of(s)` starts in `s`.
pub open spec fn token_starts(s: Seq<char>) -> Seq<int> {
    starts_from(s, 0, 1)
}

proof fn lemma_lines_from(s: Seq<char>, pos: int, line: nat)
    requires
        0 <= pos <= s.len(),
        line == 1 + newlines(s.subrange(0, pos)),
    ensures
        ({
            let ts = scan_from(s, pos, line).0;
            let ss = starts_from(s, pos, line);
            &&& ss.len() == ts.len()
            &&& ss.len() >= 1
            &&& ss.last() == s.len()
            &&& forall|i: int|
                0 <= i < ss.len() ==> pos <= #[trigger] ss[i] <= s.len() && ts[i].line == 1
                    + newlines(s.subrange(0, ss[i])) && ss[i] + ts[i].lexeme.len() <= s.len()
                    && ts[i].lexeme == s.subrange(ss[i], ss[i] + ts[i].lexeme.len())
            &&& forall|i: int|
                0 <= i < ss.len() ==> (is_word_token(#[trigger] ts[i]) ==> maximal_word_at(
                    s,
                    ss[i],
                    ts[i],
                )) && (ts[i].kind == TokenType::NUMBER ==> number_literal_wf(ts[i].literal))
            &&& forall|i: int, j: int| 0 <= i <= j < ss.len() ==> ss[i] <= ss[j]
        }),
    decreases s.len() - pos,
{
    let ts = scan_from(s, pos, line).0;
    let ss = starts_from(s, pos, line);
    if pos < s.len() {
        lemma_step_line(s, pos, line);
        lemma_step_shapes(s, pos, line);
        let st = step(s, pos, line);
        lemma_lines_from(s, st.next, st.line);
        let rts = scan_from(s, st.next, st.line).0;
        let rss = starts_from(s, st.next, st.line);
        if st.token is Some {
            assert(ts == seq![st.token->0] + rts);
            assert(ss == seq![pos] + rss);
            assert(ss.last() == rss.last());
            assert forall|i: int| 0 <= i < ss.len() implies pos <= #[trigger] ss[i] <= s.len()
                && ts[i].line == 1 + newlines(s.subrange(0, ss[i])) && ss[i] + ts[i].lexeme.len()
                <= s.len() && ts[i].lexeme == s.subrange(ss[i], ss[i] + ts[i].lexeme.len()) by {
                if i > 0 {
                    assert(ss[i] == rss[i - 1]);
                    assert(ts[i] == rts[i - 1]);
                }
            }
            assert forall|i: int| 0 <= i < ss.len() implies (is_word_token(#[trigger] ts[i])
                ==> maximal_word_at(s, ss[i], ts[i])) && (ts[i].kind == TokenType::NUMBER
                ==> number_literal_wf(ts[i].literal)) by {
                if i > 0 {
                    assert(ss[i] == rss[i - 1]);
                    assert(ts[i] == rts[i - 1]);
                }
            }
            assert forall|i: int, j: int| 0 <= i <= j < ss.len() implies ss[i] <= ss[j] by {
                if i > 0 {
                    assert(ss[i] == rss[i - 1]);
                }
                if j > 0 {
                    assert(ss[j] == rss[j - 1]);
                }
            }
        } else {
            assert(ts == rts);
            assert(ss == rss);
        }
    } else {
        assert(ts[0].lexeme =~= s.subrange(ss[0], ss[0] + ts[0].lexeme.len()));
    }
}

/// Every token, the end-of-input token included, carries as its line one
/// more than the count of newlines before where it starts; its lexeme is the
/// source text from there. The starts, and so the lines, never decrease along
/// the sequence, and the last token starts at the end of the source.
pub proof fn lemma_token_lines(s: Seq<char>)
    ensures
        token_starts(s).len() == tokens_of(s).len(),
        token_starts(s).last() == s.len(),
        forall|i: int|
            0 <= i < tokens_of(s).len() ==> 0 <= #[trigger] token_starts(s)[i] <= s.len()
                && tokens_of(s)[i].line == 1 + newlines(s.subrange(0, token_starts(s)[i])),
        forall|i: int|
            0 <= i < tokens_of(s).len() ==> (#[trigger] tokens_of(s)[i]).lexeme == s.subrange(
                token_starts(s)[i],
                token_starts(s)[i] + tokens_of(s)[i].lexeme.len(),
            ),
        forall|i: int, j: int|
            0 <= i <= j < tokens_of(s).len() ==> token_starts(s)[i] <= token_starts(s)[j]
                && tokens_of(s)[i].line <= tokens_of(s)[j].line,
{
    assert(s.subrange(0, 0) =~= Seq::<char>::empty());
    lemma_lines_from(s, 0, 1);
    let ts = tokens_of(s);
    let ss = token_starts(s);
    assert forall|i: int, j: int| 0 <= i <= j < ts.len() implies ss[i] <= ss[j] && ts[i].line
        <= ts[j].line by {
        assert(ss[i] <= ss[j]);
        lemma_newlines_split(s, 0, ss[i], ss[j]);
    }
}

proof fn lemma_without_blanks_concat(a: Seq<char>, b: Seq<char>)
    ensures
        without_blanks(a + b) == without_blanks(a) + without_blanks(b),
    decreases a.len(),
{
    if a.len() == 0 {
        assert(a + b =~= b);
    } else {
        assert((a + b).drop_first() =~= a.drop_first() + b);
        lemma_without_blanks_concat(a.drop_first(), b);
        assert((a + b)[0] == a[0]);
        if !is_blank(a[0]) {
            assert(seq![a[0]] + (without_blanks(a.drop_first()) + without_blanks(b)) =~= (seq![a[0]]
                + without_blanks(a.drop_first())) + without_blanks(b));
        }
    }
}

proof fn lemma_without_blanks_none(x: Seq<char>)
    requires
        forall|j: int| 0 <= j < x.len() ==> !is_blank(#[trigger] x[j]),
    ensures
        without_blanks(x) == x,
    decreases x.len(),
{
    if x.len() > 0 {
        assert forall|j: int| 0 <= j < x.drop_first().len() implies !is_blank(
            #[trigger] x.drop_first()[j],
        ) by {
            assert(x.drop_first()[j] == x[j + 1]);
        }
        lemma_without_blanks_none(x.drop_first());
        assert(seq![x[0]] + x.drop_first() =~= x);
    }
}

proof fn lemma_lexemes_from(s: Seq<char>, pos: int, line: nat)
    requires
        plain_source(s),
        0 <= pos <= s.len(),
        line == 1 + newlines(s.subrange(0, pos)),
    ensures
        joined_lexemes(scan_from(s, pos, line).0) == without_blanks(s.subrange(pos, s.len() as int)),
        scan_from(s, pos, line).1.len() == 0,
    decreases s.len() - pos,
{
    let ts = scan_from(s, pos, line).0;
    if pos < s.len() {
        lemma_step_line(s, pos, line);
        let st = step(s, pos, line);
        lemma_lexemes_from(s, st.next, st.line);
        let rts = scan_from(s, st.next, st.line).0;
        let rest = s.subrange(st.next, s.len() as int);
        let c = s[pos];
        assert(is_blank(c) || single_kind(c) is Some || pair_kinds(c) is Some || c == '/'
            || spec_is_digit(c) || spec_is_alpha(c));
        if c == '/' && pos + 1 < s.len() {
            assert(s[pos + 1] != '/' && s[pos + 1] != '*');
        }
        lemma_without_blanks_concat(s.subrange(pos, st.next), rest);
        assert(s.subrange(pos, s.len() as int) =~= s.subrange(pos, st.next) + rest);
        if is_blank(c) {
            assert(st.next == pos + 1);
            assert(st.token is None);
            assert(ts == rts);
            assert(s.subrange(pos, st.next) =~= seq![c]);
            assert(without_blanks(seq![c]) == without_blanks(seq![c].drop_first()));
            assert(seq![c].drop_first() =~= Seq::<char>::empty());
            assert(without_blanks(Seq::<char>::empty()) == Seq::<char>::empty());
            assert(without_blanks(s.subrange(pos, st.next)) =~= Seq::<char>::empty());
        } else {
            assert(st.token is Some);
            let t = st.token->0;
            assert(t.kind != TokenType::STRING);
            assert(ts == seq![t] + rts);
            assert(ts.len() > 0);
            assert(ts[0] == t);
            assert(ts.drop_first() =~= rts);
            assert(joined_lexemes(ts) == t.lexeme + joined_lexemes(rts));
            assert(t.lexeme == s.subrange(pos, st.next));
            assert((seq![t] + rts).drop_first() =~= rts);
            lemma_without_blanks_none(s.subrange(pos, st.next));
        }
    } else {
        assert(s.subrange(pos, s.len() as int) =~= Seq::<char>::empty());
        assert(ts[0].lexeme =~= Seq::<char>::empty());
        assert(ts.drop_first() =~= Seq::<TokenModel>::empty());
        assert(joined_lexemes(ts.drop_first()) == Seq::<char>::empty());
        assert(without_blanks(Seq::<char>::empty()) == Seq::<char>::empty());
        assert(ts[0].lexeme + Seq::<char>::empty() =~= Seq::<char>::empty());
    }
}

/// For a source without invalid characters, quotes or comments, the scan
/// finds no error, and the lexemes of its tokens, one after another, are the
/// source with its whitespace removed.
pub proof fn lemma_lexemes_rebuild_source(s: Seq<char>)
    requires
        plain_source(s),
    ensures
        joined_lexemes(tokens_of(s)) == without_blanks(s),
        errors_of(s).len() == 0,
{
    assert(s.subrange(0, 0) =~= Seq::<char>::empty());
    assert(s.subrange(0, s.len() as int) =~= s);
    lemma_lexemes_from(s, 0, 1);
}

/// In every scan, each identifier or keyword token is a run of identifier
/// characters that the source does not continue past its end, and each
/// number token carries a non-empty digit run before its point and a digit
/// run after it.
pub proof fn lemma_word_and_number_tokens(s: Seq<char>)
    ensures
        forall|i: int|
            0 <= i < tokens_of(s).len() ==> (is_word_token(#[trigger] tokens_of(s)[i])
                ==> maximal_word_at(s, token_starts(s)[i], tokens_of(s)[i])),
        forall|i: int|
            0 <= i < tokens_of(s).len() && (#[trigger] tokens_of(s)[i]).kind == TokenType::NUMBER
                ==> number_literal_wf(tokens_of(s)[i].literal),
{
    assert(s.subrange(0, 0) =~= Seq::<char>::empty());
    lemma_lines_from(s, 0, 1);
}

proof fn lemma_run_end_exact(s: Seq<char>, i: int, k: CharClass, e: int)
    requires
        0 <= i <= e <= s.len(),
        forall|j: int| i <= j < e ==> in_class(#[trigger] s[j], k),
        e == s.len() || !in_class(s[e], k),
    ensures
        run_end(s, i, k) == e,
    decreases e - i,
{
    if i < e {
        lemma_run_end_exact(s, i + 1, k, e);
    }
}

/// A source that is one number, `d1` or `d1.d2`, scans to one number token
/// and the end of input, with no error. Its literal holds the two digit runs,
/// and its precision is the count of digits after the point, or one when
/// there are none or all of them are zeros.
pub proof fn lemma_number_source(d1: Seq<char>, d2: Seq<char>)
    requires
        d1.len() > 0,
        is_digits(d1),
        is_digits(d2),
    ensures
        ({
            let s = if d2.len() == 0 {
                d1
            } else {
                d1 + seq!['.'] + d2
            };
            &&& tokens_of(s) == seq![
                TokenModel {
                    kind: TokenType::NUMBER,
                    lexeme: s,
                    literal: LiteralModel::Number {
                        whole: d1,
                        fraction: d2,
                        precision: precision_of(d2),
                    },
                    line: 1,
                },
                eof_token(1),
            ]
            &&& errors_of(s).len() == 0
        }),
{
    let s = if d2.len() == 0 {
        d1
    } else {
        d1 + seq!['.'] + d2
    };
    let n = d1.len() as int;
    assert forall|j: int| 1 <= j < n implies in_class(#[trigger] s[j], CharClass::Digit) by {
        assert(s[j] == d1[j]);
    }
    if d2.len() > 0 {
        assert(s[n] == '.');
    }
    lemma_run_end_exact(s, 1, CharClass::Digit, n);
    if d2.len() > 0 {
        assert(s[n + 1] == d2[0]);
        assert forall|j: int| n + 2 <= j < s.len() implies in_class(#[trigger] s[j], CharClass::Digit) by {
            assert(s[j] == d2[j - n - 1]);
        }
        lemma_run_end_exact(s, n + 2, CharClass::Digit, s.len() as int);
        assert(s.subrange(n + 1, s.len() as int) =~= d2);
        assert(s.subrange(0, n) =~= d1);
    } else {
        assert(s.subrange(0, n) =~= d1);
    }
    assert(s[0] == d1[0]);
    assert(s.subrange(0, s.len() as int) =~= s);
    if d2.len() == 0 {
        assert(d2 =~= Seq::<char>::empty());
    }
    let t = TokenModel {
        kind: TokenType::NUMBER,
        lexeme: s,
        literal: LiteralModel::Number { whole: d1, fraction: d2, precision: precision_of(d2) },
        line: 1,
    };
    let st = step(s, 0, 1);
    assert(st == number_step(s, 0, 1));
    assert(st.next == s.len());
    assert(st.line == 1);
    assert(st.error is None);
    assert(st.token == Some(t));
    assert(scan_from(s, s.len() as int, 1) == (seq![eof_token(1)], Seq::<(ScanErrorKind, nat)>::empty()));
    assert(scan_from(s, 0, 1) == (cons_opt(st.token, seq![eof_token(1)]), cons_opt(
        st.error,
        Seq::<(ScanErrorKind, nat)>::empty(),
    )));
    assert(tokens_of(s) =~= seq![t, eof_token(1)]);
}

} // verus!
