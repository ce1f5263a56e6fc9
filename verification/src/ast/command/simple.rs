//! Simple commands: assignments and redirections, a command word, then its
//! arguments.

use vstd::prelude::*;

use crate::ast::redirect::{redirect_text, spec_redirect, SpecRedirect, Redirect};
use crate::ast::word::{spec_non_reserved_word, spec_word, word_text, SpecWord, Word};
use crate::parser_v2::{
    adv, commit, enter, lemma_enter, lemma_push_concat, lemma_rep_unfold, moved, parsed, rep,
    restore, spec_choice, spec_consume, PState, Parser, Step,
};
use crate::text::{owned, push_str};
use crate::tokens::{token_symbol, token_word, SpecToken, Symbol, Token};

verus! {

#[derive(Debug, Clone, PartialEq, Eq)]
pub struct SimpleCommand {
    prefix: Option<Affixes>,
    word: Option<Word>,
    suffix: Option<Affixes>,
}

/// A part of a simple command before or after its command word.
#[derive(Debug, Clone, PartialEq, Eq)]
pub enum Affix {
    Redirect(Redirect),
    Word(Word),
    Assignment(Assignment),
}

#[derive(Debug, Clone, PartialEq, Eq)]
pub struct Affixes(Vec<Affix>);

#[derive(Debug, Clone, PartialEq, Eq)]
pub struct Assignment {
    lhs: String,
    rhs: Word,
    append: bool,
}

/// An assignment as a value.
pub struct SpecAssignment {
    pub lhs: Seq<char>,
    pub rhs: SpecWord,
    pub append: bool,
}

/// An affix as a value.
pub enum SpecAffix {
    Redirect(SpecRedirect),
    Word(SpecWord),
    Assignment(SpecAssignment),
}

/// A list of affixes as a value.
#[verifier::ext_equal]
pub struct SpecAffixes(pub Seq<SpecAffix>);

/// A simple command as a value.
pub struct SpecSimpleCommand {
    pub prefix: Option<SpecAffixes>,
    pub word: Option<SpecWord>,
    pub suffix: Option<SpecAffixes>,
}

impl Assignment {
    pub closed spec fn model(&self) -> SpecAssignment {
        SpecAssignment { lhs: self.lhs@, rhs: self.rhs.model(), append: self.append }
    }

    pub fn display(&self) -> (r: String)
        ensures
            r@ == assignment_text(self.model()),
    {
        let mut s = self.lhs.clone();
        let op = if self.append {
            "+="
        } else {
            "="
        };
        proof {
            reveal_strlit("+=");
            reveal_strlit("=");
        }
        push_str(&mut s, op);
        let w = self.rhs.display();
        push_str(&mut s, w.as_str());
        assert(s@ =~= assignment_text(self.model()));
        s
    }
}

impl DeepView for Assignment {
    type V = SpecAssignment;

    open spec fn deep_view(&self) -> SpecAssignment {
        self.model()
    }
}

impl DeepView for Affix {
    type V = SpecAffix;

    open spec fn deep_view(&self) -> SpecAffix {
        match self {
            Affix::Redirect(r) => SpecAffix::Redirect(r.deep_view()),
            Affix::Word(w) => SpecAffix::Word(w.model()),
            Affix::Assignment(a) => SpecAffix::Assignment(a.model()),
        }
    }
}

impl Affixes {
    pub closed spec fn model(&self) -> SpecAffixes {
        SpecAffixes(self.0.deep_view())
    }
}

impl DeepView for Affixes {
    type V = SpecAffixes;

    open spec fn deep_view(&self) -> SpecAffixes {
        self.model()
    }
}

impl SimpleCommand {
    pub closed spec fn model(&self) -> SpecSimpleCommand {
        SpecSimpleCommand {
            prefix: self.prefix.deep_view(),
            word: self.word.deep_view(),
            suffix: self.suffix.deep_view(),
        }
    }
}

impl DeepView for SimpleCommand {
    type V = SpecSimpleCommand;

    open spec fn deep_view(&self) -> SpecSimpleCommand {
        self.model()
    }
}

/// The text of an assignment: name, `=` or `+=`, value.
pub open spec fn assignment_text(a: SpecAssignment) -> Seq<char> {
    a.lhs + (if a.append {
        seq!['+', '=']
    } else {
        seq!['=']
    }) + word_text(a.rhs)
}

/// The text of an affix. An assignment shows only its value.
pub open spec fn affix_text(a: SpecAffix) -> Seq<char> {
    match a {
        SpecAffix::Redirect(r) => redirect_text(r),
        SpecAffix::Word(w) => word_text(w),
        SpecAffix::Assignment(a) => word_text(a.rhs),
    }
}

/// The texts of affixes, separated by single spaces.
pub open spec fn affixes_text(xs: Seq<SpecAffix>) -> Seq<char>
    decreases xs.len(),
{
    if xs.len() == 0 {
        Seq::empty()
    } else if xs.len() == 1 {
        affix_text(xs[0])
    } else {
        affixes_text(xs.drop_last()) + seq![' '] + affix_text(xs.last())
    }
}

/// The text of a simple command: its present parts, separated by spaces.
pub open spec fn simple_command_text(c: SpecSimpleCommand) -> Seq<char> {
    let p = match c.prefix {
        Some(a) => affixes_text(a.0),
        None => Seq::empty(),
    };
    let wrote1 = c.prefix is Some;
    let w = match c.word {
        Some(w) => (if wrote1 {
            seq![' ']
        } else {
            Seq::empty()
        }) + word_text(w),
        None => Seq::empty(),
    };
    let wrote2 = wrote1 || c.word is Some;
    let x = match c.suffix {
        Some(a) => (if wrote2 {
            seq![' ']
        } else {
            Seq::empty()
        }) + affixes_text(a.0),
        None => Seq::empty(),
    };
    p + w + x
}

impl Affix {
    pub fn display(&self) -> (r: String)
        ensures
            r@ == affix_text(self.deep_view()),
    {
        match self {
            Affix::Redirect(target) => target.display(),
            Affix::Word(target) => target.display(),
            Affix::Assignment(assignment) => assignment.rhs.display(),
        }
    }
}

impl Affixes {
    pub fn display(&self) -> (r: String)
        ensures
            r@ == affixes_text(self.model().0),
    {
        let mut s = String::new();
        let mut i: usize = 0;
        while i < self.0.len()
            invariant
                i <= self.0@.len(),
                s@ == affixes_text(self.model().0.take(i as int)),
                self.model().0 == self.0.deep_view(),
            decreases self.0.len() - i,
        {
            if i > 0 {
                push_str(&mut s, " ");
            }
            let a = self.0[i].display();
            push_str(&mut s, a.as_str());
            proof {
                reveal_strlit(" ");
                assert(" "@ =~= seq![' ']);
                let xs = self.model().0.take(i + 1);
                assert(xs.drop_last() =~= self.model().0.take(i as int));
                assert(xs.last() == self.0@[i as int].deep_view());
                if i == 0 {
                    assert(s@ =~= affixes_text(xs));
                } else {
                    assert(s@ =~= affixes_text(xs));
                }
            }
            i = i + 1;
        }
        assert(self.model().0.take(i as int) =~= self.model().0);
        s
    }
}

impl SimpleCommand {
    pub fn display(&self) -> (r: String)
        ensures
            r@ == simple_command_text(self.model()),
    {
        let mut s = String::new();
        let mut wrote = false;
        proof {
            reveal_strlit(" ");
            assert(" "@ =~= seq![' ']);
        }
        if let Some(prefix) = &self.prefix {
            let p = prefix.display();
            push_str(&mut s, p.as_str());
            wrote = true;
        }
        if let Some(word) = &self.word {
            if wrote {
                push_str(&mut s, " ");
            }
            let w = word.display();
            push_str(&mut s, w.as_str());
            wrote = true;
        }
        if let Some(suffix) = &self.suffix {
            if wrote {
                push_str(&mut s, " ");
            }
            let x = suffix.display();
            push_str(&mut s, x.as_str());
        }
        assert(s@ =~= simple_command_text(self.model()));
        s
    }
}

/// Whether a text is a variable name: a letter or `_`, then letters, digits
/// and `_`, all ASCII.
pub open spec fn is_name(w: Seq<char>) -> bool {
    &&& w.len() > 0
    &&& (w[0] == '_' || ('a' <= w[0] && w[0] <= 'z') || ('A' <= w[0] && w[0] <= 'Z'))
    &&& forall|i: int|
        1 <= i < w.len() ==> #[trigger] is_name_char(w[i])
}

/// A character that may follow the first one in a variable name.
pub open spec fn is_name_char(c: char) -> bool {
    ('a' <= c && c <= 'z') || ('A' <= c && c <= 'Z') || ('0' <= c && c <= '9') || c == '_'
}

/// A non-empty word token.
pub open spec fn nonempty_word_fn() -> spec_fn(SpecToken) -> Option<Seq<char>> {
    |tok: SpecToken|
        match token_word(tok) {
            Some(w) => if w.len() > 0 {
                Some(w)
            } else {
                None
            },
            None => None,
        }
}

/// A word token that is a variable name.
#[verifier::opaque]
pub open spec fn spec_var(t: Seq<SpecToken>, s: PState) -> Step<Seq<char>> {
    let s1 = enter(t, s);
    let r1 = spec_choice(t, s1, nonempty_word_fn());
    commit(
        s,
        match r1.0 {
            Some(w) => if is_name(w) {
                (Some(w), r1.1)
            } else {
                (None, r1.1)
            },
            None => (None, r1.1),
        },
    )
}

/// A `+` symbol token.
pub open spec fn plus_fn() -> spec_fn(SpecToken) -> Option<Symbol> {
    |tok: SpecToken|
        match token_symbol(tok) {
            Some(sym) => if sym == Symbol::Plus {
                Some(sym)
            } else {
                None
            },
            None => None,
        }
}

/// `name=value` or `name+=value`.
#[verifier::opaque]
pub open spec fn spec_assignment(t: Seq<SpecToken>, s: PState) -> Step<SpecAssignment> {
    let s1 = enter(t, s);
    let r1 = spec_var(t, s1);
    commit(
        s,
        match r1.0 {
            None => (None, r1.1),
            Some(lhs) => {
                let r2 = spec_choice(t, r1.1, plus_fn());
                let r3 = spec_consume(t, r2.1, SpecToken::Symbol(Symbol::Equals));
                match r3.0 {
                    None => (None, r3.1),
                    Some(_) => {
                        let r4 = spec_word(t, r3.1);
                        match r4.0 {
                            None => (None, r4.1),
                            Some(rhs) => (
                                Some(SpecAssignment { lhs, rhs, append: r2.0 is Some }),
                                r4.1,
                            ),
                        }
                    },
                }
            },
        },
    )
}

/// A redirection, or else an assignment.
#[verifier::opaque]
pub open spec fn spec_prefix(t: Seq<SpecToken>, s: PState) -> Step<SpecAffix> {
    let s1 = enter(t, s);
    let r1 = spec_redirect(t, s1);
    commit(
        s,
        match r1.0 {
            Some(r) => (Some(SpecAffix::Redirect(r)), r1.1),
            None => {
                let r2 = spec_assignment(t, restore(s1, r1.1));
                match r2.0 {
                    Some(a) => (Some(SpecAffix::Assignment(a)), r2.1),
                    None => (None, r2.1),
                }
            },
        },
    )
}

/// A redirection, or else an assignment, or else a word.
#[verifier::opaque]
pub open spec fn spec_suffix(t: Seq<SpecToken>, s: PState) -> Step<SpecAffix> {
    let s1 = enter(t, s);
    let r1 = spec_redirect(t, s1);
    commit(
        s,
        match r1.0 {
            Some(r) => (Some(SpecAffix::Redirect(r)), r1.1),
            None => {
                let r2 = spec_assignment(t, restore(s1, r1.1));
                match r2.0 {
                    Some(a) => (Some(SpecAffix::Assignment(a)), r2.1),
                    None => {
                        let r3 = spec_word(t, restore(s1, r2.1));
                        match r3.0 {
                            Some(w) => (Some(SpecAffix::Word(w)), r3.1),
                            None => (None, r3.1),
                        }
                    },
                }
            },
        },
    )
}

/// A redirection, or else a word, or else an assignment.
#[verifier::opaque]
pub open spec fn spec_affix(t: Seq<SpecToken>, s: PState) -> Step<SpecAffix> {
    let s1 = enter(t, s);
    let r1 = spec_redirect(t, s1);
    commit(
        s,
        match r1.0 {
            Some(r) => (Some(SpecAffix::Redirect(r)), r1.1),
            None => {
                let r2 = spec_word(t, restore(s1, r1.1));
                match r2.0 {
                    Some(w) => (Some(SpecAffix::Word(w)), r2.1),
                    None => {
                        let r3 = spec_assignment(t, restore(s1, r2.1));
                        match r3.0 {
                            Some(a) => (Some(SpecAffix::Assignment(a)), r3.1),
                            None => (None, r3.1),
                        }
                    },
                }
            },
        },
    )
}

pub open spec fn prefix_fn(t: Seq<SpecToken>) -> spec_fn(PState) -> Step<SpecAffix> {
    |s: PState| spec_prefix(t, s)
}

pub open spec fn suffix_fn(t: Seq<SpecToken>) -> spec_fn(PState) -> Step<SpecAffix> {
    |s: PState| spec_suffix(t, s)
}

/// One or more affixes that `f` reads.
#[verifier::opaque]
pub open spec fn spec_affixes(
    t: Seq<SpecToken>,
    s: PState,
    f: spec_fn(PState) -> Step<SpecAffix>,
) -> Step<SpecAffixes> {
    let s1 = enter(t, s);
    let body = rep(f, t, s1);
    commit(
        s,
        if body.0.len() > 0 {
            (Some(SpecAffixes(body.0)), body.1)
        } else {
            (None, body.1)
        },
    )
}

/// A command word that is not reserved, and the affixes after it, if any.
#[verifier::opaque]
pub open spec fn spec_word_suffix(t: Seq<SpecToken>, s: PState) -> Step<
    (SpecWord, Option<SpecAffixes>),
> {
    let s1 = enter(t, s);
    let r1 = spec_non_reserved_word(t, s1);
    commit(
        s,
        match r1.0 {
            None => (None, r1.1),
            Some(w) => {
                let r2 = spec_affixes(t, r1.1, suffix_fn(t));
                (Some((w, r2.0)), r2.1)
            },
        },
    )
}

/// Prefixes followed by an optional command word and its suffixes; or else a
/// command word that is not reserved, followed by optional suffixes.
#[verifier::opaque]
pub open spec fn spec_simple_command(t: Seq<SpecToken>, s: PState) -> Step<SpecSimpleCommand> {
    let s1 = enter(t, s);
    let r1 = spec_affixes(t, s1, prefix_fn(t));
    commit(
        s,
        match r1.0 {
            Some(prefix) => {
                let r2 = spec_word_suffix(t, r1.1);
                match r2.0 {
                    Some((w, suffix)) => (
                        Some(SpecSimpleCommand { prefix: Some(prefix), word: Some(w), suffix }),
                        r2.1,
                    ),
                    None => (
                        Some(SpecSimpleCommand { prefix: Some(prefix), word: None, suffix: None }),
                        r2.1,
                    ),
                }
            },
            None => {
                let r3 = spec_non_reserved_word(t, restore(s1, r1.1));
                match r3.0 {
                    None => (None, r3.1),
                    Some(w) => {
                        let r4 = spec_affixes(t, r3.1, suffix_fn(t));
                        (Some(SpecSimpleCommand { prefix: None, word: Some(w), suffix: r4.0 }), r4.1)
                    },
                }
            },
        },
    )
}

impl<'p> Parser<'p> {
    pub fn simple_command(&mut self) -> (r: Option<SimpleCommand>)
        ensures
            parsed(
                *old(self),
                *final(self),
                r.deep_view(),
                spec_simple_command(old(self).toks(), old(self).st()),
            ),
            moved(*old(self), *final(self), r),
    {
        proof {
            reveal(spec_simple_command);
        }
        let ghost t = self.toks();
        let ghost s0 = self.st();
        proof {
            lemma_enter(t, s0);
        }
        let snap = self.begin();
        let p = self.pos();
        let res = match self.prefixes() {
            Some(prefix) => {
                let word_suffix = self.word_suffix();
                match word_suffix {
                    Some((word, suffix)) => Some(
                        SimpleCommand { prefix: Some(prefix), word: Some(word), suffix },
                    ),
                    None => Some(SimpleCommand { prefix: Some(prefix), word: None, suffix: None }),
                }
            },
            None => {
                self.reset_pos(p);
                match self.non_reserved_word() {
                    Some(word) => {
                        let suffix = self.suffixes();
                        Some(SimpleCommand { prefix: None, word: Some(word), suffix })
                    },
                    None => None,
                }
            },
        };
        if res.is_none() {
            self.abort(snap);
        }
        res
    }

    fn word_suffix(&mut self) -> (r: Option<(Word, Option<Affixes>)>)
        ensures
            parsed(
                *old(self),
                *final(self),
                match r {
                    Some((w, x)) => Some((w.model(), x.deep_view())),
                    None => None,
                },
                spec_word_suffix(old(self).toks(), old(self).st()),
            ),
            moved(*old(self), *final(self), r),
    {
        proof {
            reveal(spec_word_suffix);
        }
        let ghost t = self.toks();
        let ghost s0 = self.st();
        proof {
            lemma_enter(t, s0);
        }
        let snap = self.begin();
        let word = match self.non_reserved_word() {
            Some(w) => w,
            None => {
                self.abort(snap);
                return None;
            },
        };
        let suffix = self.suffixes();
        Some((word, suffix))
    }

    fn prefixes(&mut self) -> (r: Option<Affixes>)
        ensures
            parsed(
                *old(self),
                *final(self),
                r.deep_view(),
                spec_affixes(old(self).toks(), old(self).st(), prefix_fn(old(self).toks())),
            ),
            moved(*old(self), *final(self), r),
    {
        proof {
            reveal(spec_affixes);
        }
        self.affixes_of(false)
    }

    fn suffixes(&mut self) -> (r: Option<Affixes>)
        ensures
            parsed(
                *old(self),
                *final(self),
                r.deep_view(),
                spec_affixes(old(self).toks(), old(self).st(), suffix_fn(old(self).toks())),
            ),
            moved(*old(self), *final(self), r),
    {
        proof {
            reveal(spec_affixes);
        }
        self.affixes_of(true)
    }

    /// One or more prefixes, or one or more suffixes.
    #[verifier::rlimit(40)]
    fn affixes_of(&mut self, suffixes: bool) -> (r: Option<Affixes>)
        ensures
            parsed(
                *old(self),
                *final(self),
                r.deep_view(),
                spec_affixes(
                    old(self).toks(),
                    old(self).st(),
                    if suffixes {
                        suffix_fn(old(self).toks())
                    } else {
                        prefix_fn(old(self).toks())
                    },
                ),
            ),
            moved(*old(self), *final(self), r),
    {
        proof {
            reveal(spec_affixes);
        }
        let ghost t = self.toks();
        let ghost s0 = self.st();
        proof {
            lemma_enter(t, s0);
        }
        let snap = self.begin();
        let ghost s1 = self.st();
        let ghost f = if suffixes {
            suffix_fn(t)
        } else {
            prefix_fn(t)
        };
        let mut acc: Vec<Affix> = Vec::new();
        loop
            invariant_except_break
                self.toks() == t,
                f == (if suffixes {
                    suffix_fn(t)
                } else {
                    prefix_fn(t)
                }),
                rep(f, t, s1).0 == acc.deep_view() + rep(f, t, self.st()).0,
                rep(f, t, s1).1 == rep(f, t, self.st()).1,
                acc.len() > 0 ==> adv(t, s0, self.st()),
                acc.len() == 0 ==> self.st().pos == s1.pos,
                0 <= s0.pos <= s1.pos,
            ensures
                self.toks() == t,
                rep(f, t, s1).0 == acc.deep_view(),
                rep(f, t, s1).1 == self.st(),
                acc.len() > 0 ==> adv(t, s0, self.st()),
            decreases self.rem(),
        {
            let ghost before = self.st();
            match self.affix_item(suffixes) {
                Some(x) => {
                    proof {
                        lemma_rep_unfold(f, t, before);
                    }
                    let ghost prev = acc.deep_view();
                    acc.push(x);
                    assert(acc.deep_view() =~= prev.push(x.deep_view()));
                    proof {
                        lemma_push_concat(prev, x.deep_view(), rep(f, t, self.st()).0);
                    }
                },
                None => {
                    proof {
                        lemma_push_concat(acc.deep_view(), arbitrary(), Seq::empty());
                    }
                    break;
                },
            }
        }
        if acc.len() > 0 {
            Some(Affixes(acc))
        } else {
            self.abort(snap);
            None
        }
    }

    /// A suffix, or a prefix.
    fn affix_item(&mut self, suffixes: bool) -> (r: Option<Affix>)
        ensures
            parsed(
                *old(self),
                *final(self),
                r.deep_view(),
                (if suffixes {
                    suffix_fn(old(self).toks())
                } else {
                    prefix_fn(old(self).toks())
                })(old(self).st()),
            ),
            moved(*old(self), *final(self), r),
    {
        if suffixes {
            self.suffix()
        } else {
            self.prefix()
        }
    }

    fn prefix(&mut self) -> (r: Option<Affix>)
        ensures
            parsed(
                *old(self),
                *final(self),
                r.deep_view(),
                spec_prefix(old(self).toks(), old(self).st()),
            ),
            moved(*old(self), *final(self), r),
    {
        proof {
            reveal(spec_prefix);
        }
        let ghost t = self.toks();
        let ghost s0 = self.st();
        proof {
            lemma_enter(t, s0);
        }
        let snap = self.begin();
        let p = self.pos();
        let res = match self.redirect() {
            Some(r) => Some(Affix::Redirect(r)),
            None => {
                self.reset_pos(p);
                match self.assignment() {
                    Some(a) => Some(Affix::Assignment(a)),
                    None => None,
                }
            },
        };
        if res.is_none() {
            self.abort(snap);
        }
        res
    }

    fn suffix(&mut self) -> (r: Option<Affix>)
        ensures
            parsed(
                *old(self),
                *final(self),
                r.deep_view(),
                spec_suffix(old(self).toks(), old(self).st()),
            ),
            moved(*old(self), *final(self), r),
    {
        proof {
            reveal(spec_suffix);
        }
        let ghost t = self.toks();
        let ghost s0 = self.st();
        proof {
            lemma_enter(t, s0);
        }
        let snap = self.begin();
        let p = self.pos();
        let res = match self.redirect() {
            Some(r) => Some(Affix::Redirect(r)),
            None => {
                self.reset_pos(p);
                match self.assignment() {
                    Some(a) => Some(Affix::Assignment(a)),
                    None => {
                        self.reset_pos(p);
                        match self.word() {
                            Some(w) => Some(Affix::Word(w)),
                            None => None,
                        }
                    },
                }
            },
        };
        if res.is_none() {
            self.abort(snap);
        }
        res
    }

    fn affix(&mut self) -> (r: Option<Affix>)
        ensures
            parsed(
                *old(self),
                *final(self),
                r.deep_view(),
                spec_affix(old(self).toks(), old(self).st()),
            ),
            moved(*old(self), *final(self), r),
    {
        proof {
            reveal(spec_affix);
        }
        let ghost t = self.toks();
        let ghost s0 = self.st();
        proof {
            lemma_enter(t, s0);
        }
        let snap = self.begin();
        let p = self.pos();
        let res = match self.redirect() {
            Some(r) => Some(Affix::Redirect(r)),
            None => {
                self.reset_pos(p);
                match self.word() {
                    Some(w) => Some(Affix::Word(w)),
                    None => {
                        self.reset_pos(p);
                        match self.assignment() {
                            Some(a) => Some(Affix::Assignment(a)),
                            None => None,
                        }
                    },
                }
            },
        };
        if res.is_none() {
            self.abort(snap);
        }
        res
    }

    pub fn assignment(&mut self) -> (r: Option<Assignment>)
        ensures
            parsed(
                *old(self),
                *final(self),
                r.deep_view(),
                spec_assignment(old(self).toks(), old(self).st()),
            ),
            moved(*old(self), *final(self), r),
    {
        proof {
            reveal(spec_assignment);
        }
        let ghost t = self.toks();
        let ghost s0 = self.st();
        proof {
            lemma_enter(t, s0);
        }
        let snap = self.begin();
        let lhs = match self.var() {
            Some(v) => v,
            None => {
                self.abort(snap);
                return None;
            },
        };
        let append = self.plus().is_some();
        if self.consume(Token::Symbol(Symbol::Equals)).is_none() {
            self.abort(snap);
            return None;
        }
        let rhs = match self.word() {
            Some(w) => w,
            None => {
                self.abort(snap);
                return None;
            },
        };
        Some(Assignment { lhs, rhs, append })
    }

    /// A `+` symbol token.
    fn plus(&mut self) -> (r: Option<Symbol>)
        ensures
            parsed(
                *old(self),
                *final(self),
                r,
                spec_choice(old(self).toks(), old(self).st(), plus_fn()),
            ),
            moved(*old(self), *final(self), r),
    {
        proof {
            reveal(spec_choice);
        }
        let ghost t = self.toks();
        let ghost s0 = self.st();
        proof {
            lemma_enter(t, s0);
            self.lemma_st_bounds();
        }
        let snap = self.begin();
        match self.peek() {
            Some(tok) => match tok.is_symbol() {
                Some(sym) => if sym == Symbol::Plus {
                    self.advance();
                    Some(sym)
                } else {
                    self.abort(snap);
                    None
                },
                None => {
                    self.abort(snap);
                    None
                },
            },
            None => {
                self.abort(snap);
                None
            },
        }
    }

    fn var(&mut self) -> (r: Option<String>)
        ensures
            parsed(
                *old(self),
                *final(self),
                match r {
                    Some(w) => Some(w@),
                    None => None,
                },
                spec_var(old(self).toks(), old(self).st()),
            ),
            moved(*old(self), *final(self), r),
    {
        proof {
            reveal(spec_var);
        }
        let ghost t = self.toks();
        let ghost s0 = self.st();
        proof {
            lemma_enter(t, s0);
            self.lemma_st_bounds();
        }
        let snap = self.begin();
        let w = match self.peek() {
            Some(tok) => match tok {
                Token::Word(w) => {
                    if w.as_str().is_empty() {
                        self.abort(snap);
                        return None;
                    }
                    self.advance();
                    w.clone()
                },
                _ => {
                    self.abort(snap);
                    return None;
                },
            },
            None => {
                self.abort(snap);
                return None;
            },
        };
        if valid_name(w.as_str()) {
            Some(w)
        } else {
            self.abort(snap);
            None
        }
    }
}

/// Whether a text is a variable name.
pub fn valid_name(w: &str) -> (r: bool)
    ensures
        r == is_name(w@),
{
    let n = w.unicode_len();
    if n == 0 {
        return false;
    }
    let fst = w.get_char(0);
    if !(fst == '_' || ('a' <= fst && fst <= 'z') || ('A' <= fst && fst <= 'Z')) {
        return false;
    }
    let mut i: usize = 1;
    while i < n
        invariant
            n == w@.len(),
            1 <= i <= n,
            forall|j: int| 1 <= j < i ==> #[trigger] is_name_char(w@[j]),
        decreases n - i,
    {
        let c = w.get_char(i);
        if !(('a' <= c && c <= 'z') || ('A' <= c && c <= 'Z') || ('0' <= c && c <= '9') || c
            == '_') {
            assert(!is_name_char(w@[i as int]));
            return false;
        }
        i = i + 1;
    }
    true
}

} // verus!
