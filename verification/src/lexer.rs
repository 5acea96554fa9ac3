//! The lexer: raw source text to an ordered token sequence, with a
//! diagnostic for every word that fits no token shape. It never fails;
//! offending words are reported and skipped.

use vstd::prelude::*;
use vstd::string::*;
use crate::ast::{Diag, SpecDiag, SpecToken, Token};
use crate::numerals::{is_i32_numeral, numeral_val, parse_i32};
use crate::text::{is_alpha, is_alpha_char, str_eq};
use crate::words::{split_words, split_ws};

verus! {

/// Every character of `w` is a letter, so `w` reads as an identifier.
pub open spec fn all_alpha(w: Seq<char>) -> bool {
    forall|i: int| 0 <= i < w.len() ==> is_alpha_char(w[i])
}

/// `w` opens a quoted string literal.
pub open spec fn starts_quote(w: Seq<char>) -> bool {
    w.len() > 0 && w[0] == '"'
}

/// `w` closes a quoted string literal.
pub open spec fn ends_quote(w: Seq<char>) -> bool {
    w.len() > 0 && w[w.len() - 1] == '"'
}

pub open spec fn drop_leading_quotes(s: Seq<char>) -> Seq<char>
    decreases s.len(),
{
    if s.len() > 0 && s[0] == '"' {
        drop_leading_quotes(s.drop_first())
    } else {
        s
    }
}

pub open spec fn drop_trailing_quotes(s: Seq<char>) -> Seq<char>
    decreases s.len(),
{
    if s.len() > 0 && s[s.len() - 1] == '"' {
        drop_trailing_quotes(s.drop_last())
    } else {
        s
    }
}

/// The text of a string literal: every `"` stripped from both ends.
pub open spec fn trim_quotes(s: Seq<char>) -> Seq<char> {
    drop_trailing_quotes(drop_leading_quotes(s))
}

/// Strips all leading and trailing `"` characters from `s`.
pub fn trim_quote_chars(s: &str) -> (r: String)
    ensures
        r@ == trim_quotes(s@),
{
    let mut cur: &str = s;
    while cur.unicode_len() > 0 && cur.get_char(0) == '"'
        invariant
            drop_leading_quotes(cur@) == drop_leading_quotes(s@),
        decreases cur@.len(),
    {
        let ghost prev = cur@;
        let l = cur.unicode_len();
        cur = cur.substring_char(1, l);
        proof {
            assert(prev.drop_first() =~= cur@);
        }
    }
    let ghost lead = cur@;
    proof {
        assert(drop_leading_quotes(s@) == lead);
    }
    while cur.unicode_len() > 0 && cur.get_char(cur.unicode_len() - 1) == '"'
        invariant
            drop_trailing_quotes(cur@) == drop_trailing_quotes(lead),
        decreases cur@.len(),
    {
        let ghost prev = cur@;
        let l = cur.unicode_len();
        cur = cur.substring_char(0, l - 1);
        proof {
            assert(prev.drop_last() =~= cur@);
        }
    }
    String::from_str(cur)
}

/// The token of a word that is one of the six plain keywords.
pub open spec fn keyword_spec(w: Seq<char>) -> Option<SpecToken> {
    if w == "print"@ {
        Some(SpecToken::Print)
    } else if w == "add"@ {
        Some(SpecToken::Add)
    } else if w == "subtract"@ {
        Some(SpecToken::Subtract)
    } else if w == "multiply"@ {
        Some(SpecToken::Multiply)
    } else if w == "divide"@ {
        Some(SpecToken::Divide)
    } else if w == "mod"@ {
        Some(SpecToken::Modulus)
    } else {
        None
    }
}

fn keyword_token(w: &str) -> (r: Option<Token>)
    ensures
        match r {
            Some(t) => keyword_spec(w@) == Some(t.deep_view()),
            None => keyword_spec(w@) is None,
        },
{
    if str_eq(w, "print") {
        Some(Token::Print)
    } else if str_eq(w, "add") {
        Some(Token::Add)
    } else if str_eq(w, "subtract") {
        Some(Token::Subtract)
    } else if str_eq(w, "multiply") {
        Some(Token::Multiply)
    } else if str_eq(w, "divide") {
        Some(Token::Divide)
    } else if str_eq(w, "mod") {
        Some(Token::Modulus)
    } else {
        None
    }
}

/// The tokens and diagnostics the lexer emits for a word sequence.
///
/// One word is consumed at a time, except: `let` reads up to three more
/// words (`<name> = <number>`), and a word opening a quoted string
/// consumes the following words up to the first one that ends in `"`
/// (all remaining words when none does).
pub open spec fn spec_lex(words: Seq<Seq<char>>) -> (Seq<SpecToken>, Seq<SpecDiag>)
    decreases words.len(),
{
    if words.len() == 0 {
        (Seq::empty(), Seq::empty())
    } else {
        let w = words[0];
        if keyword_spec(w) is Some {
            let r = spec_lex(words.drop_first());
            (seq![keyword_spec(w)->0] + r.0, r.1)
        } else if w == "let"@ {
            if words.len() == 1 {
                let r = spec_lex(words.skip(1));
                (seq![SpecToken::Let] + r.0, seq![SpecDiag::InvalidAssignment] + r.1)
            } else if words.len() == 2 || words[2] != "="@ {
                let r = spec_lex(words.skip(2));
                (seq![SpecToken::Let] + r.0, seq![SpecDiag::InvalidAssignment] + r.1)
            } else if words.len() == 3 {
                let r = spec_lex(words.skip(3));
                (seq![SpecToken::Let] + r.0, seq![SpecDiag::InvalidAssignment] + r.1)
            } else if !is_i32_numeral(words[3]) {
                let r = spec_lex(words.skip(4));
                (seq![SpecToken::Let] + r.0, seq![SpecDiag::InvalidAssignment] + r.1)
            } else {
                let r = spec_lex(words.skip(4));
                (
                    seq![
                        SpecToken::Let,
                        SpecToken::Identifier(words[1]),
                        SpecToken::Number(numeral_val(words[3]) as i32),
                    ] + r.0,
                    r.1,
                )
            }
        } else if is_i32_numeral(w) {
            let r = spec_lex(words.drop_first());
            (seq![SpecToken::Number(numeral_val(w) as i32)] + r.0, r.1)
        } else if starts_quote(w) {
            spec_lex_string(words.drop_first(), w)
        } else if all_alpha(w) {
            let r = spec_lex(words.drop_first());
            (seq![SpecToken::Identifier(w)] + r.0, r.1)
        } else {
            let r = spec_lex(words.drop_first());
            (r.0, seq![SpecDiag::UnknownToken(w)] + r.1)
        }
    }
}

/// Continues a quoted string whose text so far is `acc`: words are
/// joined with single spaces up to the first that ends in `"`.
pub open spec fn spec_lex_string(words: Seq<Seq<char>>, acc: Seq<char>) -> (
    Seq<SpecToken>,
    Seq<SpecDiag>,
)
    decreases words.len(),
{
    if words.len() == 0 {
        (seq![SpecToken::StrLit(trim_quotes(acc))], Seq::empty())
    } else {
        let acc2 = acc + seq![' '] + words[0];
        if ends_quote(words[0]) {
            let r = spec_lex(words.drop_first());
            (seq![SpecToken::StrLit(trim_quotes(acc2))] + r.0, r.1)
        } else {
            spec_lex_string(words.drop_first(), acc2)
        }
    }
}

/// What the lexer hands on: the token sequence and the diagnostics it
/// emitted along the way.
pub struct LexResult {
    pub tokens: Vec<Token>,
    pub diags: Vec<Diag>,
}

/// Lexes a word sequence, exactly as `spec_lex` describes.
pub fn lex_words(words: &Vec<String>) -> (r: LexResult)
    ensures
        r.tokens.deep_view() == spec_lex(words.deep_view()).0,
        r.diags.deep_view() == spec_lex(words.deep_view()).1,
{
    let ghost wv = words.deep_view();
    let mut tokens: Vec<Token> = Vec::new();
    let mut diags: Vec<Diag> = Vec::new();
    let n = words.len();
    let mut i: usize = 0;
    proof {
        assert(wv.skip(0) =~= wv);
        assert(tokens.deep_view() =~= Seq::<SpecToken>::empty());
        assert(diags.deep_view() =~= Seq::<SpecDiag>::empty());
        assert(Seq::<SpecToken>::empty() + spec_lex(wv).0 =~= spec_lex(wv).0);
        assert(Seq::<SpecDiag>::empty() + spec_lex(wv).1 =~= spec_lex(wv).1);
    }
    while i < n
        invariant
            wv == words.deep_view(),
            n == words.len(),
            i <= n,
            spec_lex(wv).0 == tokens.deep_view() + spec_lex(wv.skip(i as int)).0,
            spec_lex(wv).1 == diags.deep_view() + spec_lex(wv.skip(i as int)).1,
        decreases n - i,
    {
        let ghost rem = wv.skip(i as int);
        let ghost tdv = tokens.deep_view();
        let ghost ddv = diags.deep_view();
        let w = &words[i];
        proof {
            assert(rem[0] == wv[i as int]);
            assert(rem.drop_first() =~= wv.skip(i as int + 1));
        }
        match keyword_token(w.as_str()) {
            Some(t) => {
                let ghost tv = t.deep_view();
                tokens.push(t);
                i += 1;
                proof {
                    assert(tokens.deep_view() =~= tdv.push(tv));
                    assert(tdv + (seq![tv] + spec_lex(wv.skip(i as int)).0) =~= tdv.push(tv)
                        + spec_lex(wv.skip(i as int)).0);
                }
            },
            None => {
                if str_eq(w.as_str(), "let") {
                    tokens.push(Token::Let);
                    if i + 1 >= n {
                        diags.push(Diag::InvalidAssignment);
                        i += 1;
                        proof {
                            assert(tokens.deep_view() =~= tdv.push(SpecToken::Let));
                            assert(diags.deep_view() =~= ddv.push(SpecDiag::InvalidAssignment));
                            lemma_let_step(wv, tdv, ddv, i as int - 1, 1);
                        }
                    } else if i + 2 >= n || !str_eq(words[i + 2].as_str(), "=") {
                        proof {
                            if i + 2 < n {
                                assert(rem[2] == wv[i as int + 2]);
                            }
                            assert(rem.skip(2) =~= wv.skip(i as int + 2));
                        }
                        diags.push(Diag::InvalidAssignment);
                        i += 2;
                        proof {
                            assert(tokens.deep_view() =~= tdv.push(SpecToken::Let));
                            assert(diags.deep_view() =~= ddv.push(SpecDiag::InvalidAssignment));
                            lemma_let_step(wv, tdv, ddv, i as int - 2, 2);
                        }
                    } else if i + 3 >= n {
                        proof {
                            assert(rem[2] == wv[i as int + 2]);
                            assert(rem.skip(3) =~= wv.skip(i as int + 3));
                        }
                        diags.push(Diag::InvalidAssignment);
                        i += 3;
                        proof {
                            assert(tokens.deep_view() =~= tdv.push(SpecToken::Let));
                            assert(diags.deep_view() =~= ddv.push(SpecDiag::InvalidAssignment));
                            lemma_let_step(wv, tdv, ddv, i as int - 3, 3);
                        }
                    } else {
                        proof {
                            assert(rem[1] == wv[i as int + 1]);
                            assert(rem[2] == wv[i as int + 2]);
                            assert(rem[3] == wv[i as int + 3]);
                            assert(rem.skip(4) =~= wv.skip(i as int + 4));
                        }
                        match parse_i32(words[i + 3].as_str()) {
                            Some(num) => {
                                let name = words[i + 1].clone();
                                tokens.push(Token::Identifier(name));
                                tokens.push(Token::Number(num));
                                i += 4;
                                proof {
                                    let j = i as int - 4;
                                    assert(tokens.deep_view() =~= tdv + seq![
                                        SpecToken::Let,
                                        SpecToken::Identifier(wv[j + 1]),
                                        SpecToken::Number(num),
                                    ]);
                                    assert(tdv + (seq![
                                        SpecToken::Let,
                                        SpecToken::Identifier(wv[j + 1]),
                                        SpecToken::Number(num),
                                    ] + spec_lex(wv.skip(i as int)).0) =~= tokens.deep_view()
                                        + spec_lex(wv.skip(i as int)).0);
                                }
                            },
                            None => {
                                diags.push(Diag::InvalidAssignment);
                                i += 4;
                                proof {
                                    assert(tokens.deep_view() =~= tdv.push(SpecToken::Let));
                                    assert(diags.deep_view() =~= ddv.push(
                                        SpecDiag::InvalidAssignment,
                                    ));
                                    lemma_let_step(wv, tdv, ddv, i as int - 4, 4);
                                }
                            },
                        }
                    }
                } else {
                    match parse_i32(w.as_str()) {
                        Some(num) => {
                            tokens.push(Token::Number(num));
                            i += 1;
                            proof {
                                let tv = SpecToken::Number(num);
                                assert(tokens.deep_view() =~= tdv.push(tv));
                                assert(tdv + (seq![tv] + spec_lex(wv.skip(i as int)).0)
                                    =~= tdv.push(tv) + spec_lex(wv.skip(i as int)).0);
                            }
                        },
                        None => {
                            let wlen = w.as_str().unicode_len();
                            if wlen > 0 && w.as_str().get_char(0) == '"' {
                                // A quoted string: join following words until one
                                // ends in a quote, then strip the quote characters.
                                let mut full: String = w.clone();
                                let mut j = i + 1;
                                let mut done = false;
                                proof {
                                    assert(spec_lex(wv.skip(i as int)) == spec_lex_string(
                                        wv.skip(i as int + 1),
                                        full@,
                                    ));
                                }
                                while j < n && !done
                                    invariant
                                        wv == words.deep_view(),
                                        n == words.len(),
                                        i < j <= n,
                                        !done ==> spec_lex(wv.skip(i as int)) == spec_lex_string(
                                            wv.skip(j as int),
                                            full@,
                                        ),
                                        done ==> spec_lex(wv.skip(i as int)) == (
                                            seq![SpecToken::StrLit(trim_quotes(full@))] + spec_lex(
                                                wv.skip(j as int),
                                            ).0,
                                            spec_lex(wv.skip(j as int)).1,
                                        ),
                                    decreases n - j,
                                {
                                    let ghost srem = wv.skip(j as int);
                                    let ghost acc0 = full@;
                                    let next = &words[j];
                                    proof {
                                        assert(srem[0] == wv[j as int]);
                                        assert(srem.drop_first() =~= wv.skip(j as int + 1));
                                    }
                                    full.append(" ");
                                    full.append(next.as_str());
                                    proof {
                                        reveal_strlit(" ");
                                        assert(full@ =~= acc0 + seq![' '] + next@);
                                    }
                                    let nlen = next.as_str().unicode_len();
                                    if nlen > 0 && next.as_str().get_char(nlen - 1) == '"' {
                                        done = true;
                                    }
                                    j += 1;
                                }
                                proof {
                                    if !done {
                                        assert(wv.skip(j as int) =~= Seq::<Seq<char>>::empty());
                                        assert(spec_lex(wv.skip(i as int)) == (
                                            seq![SpecToken::StrLit(trim_quotes(full@))] + spec_lex(
                                                wv.skip(j as int),
                                            ).0,
                                            spec_lex(wv.skip(j as int)).1,
                                        ));
                                    }
                                }
                                let text = trim_quote_chars(full.as_str());
                                tokens.push(Token::StrLit(text));
                                i = j;
                                proof {
                                    let tv = SpecToken::StrLit(trim_quotes(full@));
                                    assert(tokens.deep_view() =~= tdv.push(tv));
                                    assert(tdv + (seq![tv] + spec_lex(wv.skip(i as int)).0)
                                        =~= tdv.push(tv) + spec_lex(wv.skip(i as int)).0);
                                }
                            } else {
                                let mut k: usize = 0;
                                let mut alpha = true;
                                while k < wlen
                                    invariant
                                        w@.len() == wlen,
                                        k <= wlen,
                                        alpha == (forall|m: int| 0 <= m < k ==> is_alpha_char(
                                            w@[m],
                                        )),
                                    decreases wlen - k,
                                {
                                    if !is_alpha(w.as_str().get_char(k)) {
                                        alpha = false;
                                        proof {
                                            assert(!is_alpha_char(w@[k as int]));
                                        }
                                    }
                                    k += 1;
                                }
                                if alpha {
                                    tokens.push(Token::Identifier(w.clone()));
                                    i += 1;
                                    proof {
                                        let tv = SpecToken::Identifier(w@);
                                        assert(all_alpha(w@));
                                        assert(tokens.deep_view() =~= tdv.push(tv));
                                        assert(tdv + (seq![tv] + spec_lex(wv.skip(i as int)).0)
                                            =~= tdv.push(tv) + spec_lex(wv.skip(i as int)).0);
                                    }
                                } else {
                                    diags.push(Diag::UnknownToken(w.clone()));
                                    i += 1;
                                    proof {
                                        let dv = SpecDiag::UnknownToken(w@);
                                        assert(!all_alpha(w@));
                                        assert(diags.deep_view() =~= ddv.push(dv));
                                        assert(ddv + (seq![dv] + spec_lex(wv.skip(i as int)).1)
                                            =~= ddv.push(dv) + spec_lex(wv.skip(i as int)).1);
                                    }
                                }
                            }
                        },
                    }
                }
            },
        }
    }
    proof {
        assert(wv.skip(n as int) =~= Seq::<Seq<char>>::empty());
        assert(spec_lex(wv).0 =~= tokens.deep_view());
        assert(spec_lex(wv).1 =~= diags.deep_view());
    }
    LexResult { tokens, diags }
}

/// One failed `let` step: the dangling `Let` token and its diagnostic.
proof fn lemma_let_step(wv: Seq<Seq<char>>, tdv: Seq<SpecToken>, ddv: Seq<SpecDiag>, j: int, k: int)
    requires
        0 <= j,
        1 <= k,
        j + k <= wv.len(),
    ensures
        tdv + (seq![SpecToken::Let] + spec_lex(wv.skip(j + k)).0) =~= tdv.push(SpecToken::Let)
            + spec_lex(wv.skip(j + k)).0,
        ddv + (seq![SpecDiag::InvalidAssignment] + spec_lex(wv.skip(j + k)).1) =~= ddv.push(
            SpecDiag::InvalidAssignment,
        ) + spec_lex(wv.skip(j + k)).1,
{
}

/// Lexes source text: splits it on whitespace and lexes the words.
pub fn lexer(code: &str) -> (r: LexResult)
    ensures
        r.tokens.deep_view() == spec_lex(split_ws(code@)).0,
        r.diags.deep_view() == spec_lex(split_ws(code@)).1,
{
    let words = split_words(code);
    lex_words(&words)
}

} // verus!
