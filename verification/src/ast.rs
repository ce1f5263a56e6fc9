//! The syntax tree of shell programs, and the grammar that builds it.

pub mod command;
pub mod pipeline;
pub mod process_substitution;
pub mod program;
pub mod redirect;
pub mod render;
pub mod word;

use vstd::prelude::*;

use crate::parser_v2::{
    adv, at, commit, enter, lemma_enter, lemma_rep_unfold, mono, moved, parsed, rep, restore,
    spec_choice, spec_consume, PState, Parser, Step,
};
use crate::text::{is_all_digits, parse_u32, spec_parse_u32, all_digits};
use crate::tokens::{symbol_text, token_symbol, token_word, SpecToken, Token};
use self::word::spec_word;

verus! {

pub type Fd = u32;

/// One newline token.
pub open spec fn newline_fn(t: Seq<SpecToken>) -> spec_fn(PState) -> Step<()> {
    |s: PState| spec_consume(t, s, SpecToken::NewLine)
}

/// Any number of newlines (whitespace around them skipped).
#[verifier::opaque]
pub open spec fn spec_linebreak(t: Seq<SpecToken>, s: PState) -> Step<()> {
    commit(s, (Some(()), rep(newline_fn(t), t, enter(t, s)).1))
}

/// At least one newline.
#[verifier::opaque]
pub open spec fn spec_required_linebreak(t: Seq<SpecToken>, s: PState) -> Step<()> {
    let s1 = enter(t, s);
    let r1 = spec_consume(t, s1, SpecToken::NewLine);
    commit(
        s,
        match r1.0 {
            Some(_) => spec_linebreak(t, r1.1),
            None => (None, r1.1),
        },
    )
}

/// A word token that denotes a file descriptor.
pub open spec fn fd_fn() -> spec_fn(SpecToken) -> Option<u32> {
    |tok: SpecToken|
        match token_word(tok) {
            Some(w) => spec_parse_u32(w),
            None => None,
        }
}

#[verifier::opaque]
pub open spec fn spec_fd(t: Seq<SpecToken>, s: PState) -> Step<u32> {
    commit(s, spec_choice(t, enter(t, s), fd_fn()))
}

/// Whether a text begins with `<` or `>`.
pub open spec fn starts_with_angle(s: Seq<char>) -> bool {
    s.len() > 0 && (s[0] == '<' || s[0] == '>')
}

/// A word of digits directly followed by a redirection symbol: the number of
/// the file descriptor that the redirection applies to. The symbol is not read.
#[verifier::opaque]
pub open spec fn spec_io_number(t: Seq<SpecToken>, s: PState) -> Step<u32> {
    let s1 = enter(t, s);
    let r1 = spec_word(t, s1);
    commit(
        s,
        match r1.0 {
            None => (None, r1.1),
            Some(w) => if !all_digits(w.raw) {
                (None, r1.1)
            } else {
                match at(t, r1.1.pos) {
                    Some(tok) => match token_symbol(tok) {
                        Some(sym) => if starts_with_angle(symbol_text(sym)) {
                            (spec_parse_u32(w.raw), r1.1)
                        } else {
                            (None, r1.1)
                        },
                        None => (None, r1.1),
                    },
                    None => (None, r1.1),
                }
            },
        },
    )
}

impl<'p> Parser<'p> {
    pub fn linebreak(&mut self) -> (r: Option<()>)
        ensures
            parsed(*old(self), *final(self), r, spec_linebreak(old(self).toks(), old(self).st())),
            r is Some,
            mono(old(self).toks(), old(self).st(), final(self).st()),
    {
        proof {
            reveal(spec_linebreak);
        }
        let ghost t = self.toks();
        let ghost s0 = self.st();
        proof {
            lemma_enter(t, s0);
        }
        let _snap = self.begin();
        let ghost s1 = self.st();
        loop
            invariant_except_break
                self.toks() == t,
                rep(newline_fn(t), t, s1).1 == rep(newline_fn(t), t, self.st()).1,
                mono(t, s0, self.st()),
            ensures
                self.toks() == t,
                rep(newline_fn(t), t, s1).1 == self.st(),
                mono(t, s0, self.st()),
            decreases self.rem(),
        {
            let ghost before = self.st();
            if self.consume(Token::NewLine).is_none() {
                break;
            }
            proof {
                lemma_rep_unfold(newline_fn(t), t, before);
            }
        }
        Some(())
    }

    pub fn required_linebreak(&mut self) -> (r: Option<()>)
        ensures
            parsed(
                *old(self),
                *final(self),
                r,
                spec_required_linebreak(old(self).toks(), old(self).st()),
            ),
            moved(*old(self), *final(self), r),
    {
        proof {
            reveal(spec_required_linebreak);
        }
        let ghost t = self.toks();
        let ghost s0 = self.st();
        proof {
            lemma_enter(t, s0);
        }
        let snap = self.begin();
        if self.consume(Token::NewLine).is_none() {
            self.abort(snap);
            return None;
        }
        self.linebreak()
    }

    fn fd(&mut self) -> (r: Option<Fd>)
        ensures
            parsed(*old(self), *final(self), r, spec_fd(old(self).toks(), old(self).st())),
            moved(*old(self), *final(self), r),
    {
        proof {
            reveal(spec_fd);
        }
        let ghost t = self.toks();
        let ghost s0 = self.st();
        proof {
            lemma_enter(t, s0);
            self.lemma_st_bounds();
        }
        let snap = self.begin();
        match self.peek() {
            Some(tok) => match tok {
                Token::Word(w) => match parse_u32(w.as_str()) {
                    Some(n) => {
                        self.advance();
                        Some(n)
                    },
                    None => {
                        self.abort(snap);
                        None
                    },
                },
                _ => {
                    self.abort(snap);
                    None
                },
            },
            None => {
                self.abort(snap);
                None
            },
        }
    }

    pub fn io_number(&mut self) -> (r: Option<u32>)
        ensures
            parsed(*old(self), *final(self), r, spec_io_number(old(self).toks(), old(self).st())),
            moved(*old(self), *final(self), r),
    {
        proof {
            reveal(spec_io_number);
        }
        let ghost t = self.toks();
        let ghost s0 = self.st();
        proof {
            lemma_enter(t, s0);
        }
        let snap = self.begin();
        let word = match self.word() {
            Some(w) => w,
            None => {
                self.abort(snap);
                return None;
            },
        };
        if !is_all_digits(word.raw().as_str()) {
            self.abort(snap);
            return None;
        }
        let sym = match self.peek() {
            Some(tok) => match tok.is_symbol() {
                Some(sym) => sym,
                None => {
                    self.abort(snap);
                    return None;
                },
            },
            None => {
                self.abort(snap);
                return None;
            },
        };
        let op = sym.as_str();
        let starts = op.unicode_len() > 0 && {
            let c = op.get_char(0);
            c == '<' || c == '>'
        };
        if starts {
            match parse_u32(word.raw().as_str()) {
                Some(n) => Some(n),
                None => {
                    self.abort(snap);
                    None
                },
            }
        } else {
            self.abort(snap);
            None
        }
    }
}

} // verus!
