//! The word tokenizer that the engine runs: it cuts a command line into words
//! and gives each word a class.

use vstd::prelude::*;

use crate::text::{chars_of, contains_text, owned, push_char, str_equal, texts};

verus! {

#[derive(Debug, PartialEq, Clone)]
pub enum Token {
    Keyword(String),
    Identifier(String),
    Value(String),
    BooleanLiteral(String),
    IntegerLiteral(String),
    FloatLiteral(String),
    StringLiteral(String),
    Operator(String),
    Command(String),
    Separator(String),
    Whitespace(String),
    Comment(String),
}

/// A classified word as a value.
pub enum ClassifiedToken {
    Keyword(Seq<char>),
    Identifier(Seq<char>),
    Value(Seq<char>),
    BooleanLiteral(Seq<char>),
    IntegerLiteral(Seq<char>),
    FloatLiteral(Seq<char>),
    StringLiteral(Seq<char>),
    Operator(Seq<char>),
    Command(Seq<char>),
    Separator(Seq<char>),
    Whitespace(Seq<char>),
    Comment(Seq<char>),
}

impl View for Token {
    type V = ClassifiedToken;

    open spec fn view(&self) -> ClassifiedToken {
        match self {
            Token::Keyword(s) => ClassifiedToken::Keyword(s@),
            Token::Identifier(s) => ClassifiedToken::Identifier(s@),
            Token::Value(s) => ClassifiedToken::Value(s@),
            Token::BooleanLiteral(s) => ClassifiedToken::BooleanLiteral(s@),
            Token::IntegerLiteral(s) => ClassifiedToken::IntegerLiteral(s@),
            Token::FloatLiteral(s) => ClassifiedToken::FloatLiteral(s@),
            Token::StringLiteral(s) => ClassifiedToken::StringLiteral(s@),
            Token::Operator(s) => ClassifiedToken::Operator(s@),
            Token::Command(s) => ClassifiedToken::Command(s@),
            Token::Separator(s) => ClassifiedToken::Separator(s@),
            Token::Whitespace(s) => ClassifiedToken::Whitespace(s@),
            Token::Comment(s) => ClassifiedToken::Comment(s@),
        }
    }
}

impl Token {
    /// Whether the token is the keyword `kw`.
    pub fn is_keyword(&self, kw: &str) -> (r: bool)
        ensures
            r == (self@ == ClassifiedToken::Keyword(kw@)),
    {
        match self {
            Token::Keyword(k) => str_equal(k.as_str(), kw),
            _ => false,
        }
    }

    /// Whether the token is the operator `op`.
    pub fn is_operator(&self, op: &str) -> (r: bool)
        ensures
            r == (self@ == ClassifiedToken::Operator(op@)),
    {
        match self {
            Token::Operator(o) => str_equal(o.as_str(), op),
            _ => false,
        }
    }
}

/// The name for what matching a regular expression answers: `Some(b)` when
/// `pattern` compiles, with `b` telling whether it matches in `text`; `None`
/// when it does not compile.
pub uninterp spec fn regex_match(pattern: Seq<char>, text: Seq<char>) -> Option<bool>;

/// `regex::Regex::new` followed by `Regex::is_match`. The answer depends on the
/// pattern and the text alone and is named; nothing more of it is stated here.
/// The three patterns that the tokenizer uses are fixed and compile.
#[verifier::external_body]
fn regex_is_match(pattern: &str, text: &str) -> (r: Option<bool>)
    ensures
        r == regex_match(pattern@, text@),
{
    match regex::Regex::new(pattern) {
        Ok(re) => Some(re.is_match(text)),
        Err(_) => None,
    }
}

/// An optional sign and decimal digits.
pub open spec fn integer_pattern() -> Seq<char> {
    "^[+-]?\\d+$"@
}

/// An optional sign and a decimal number with a point.
pub open spec fn float_pattern() -> Seq<char> {
    "^[+-]?(\\d+\\.\\d*|\\.\\d+)$"@
}

/// A double-quoted string with backslash escapes.
pub open spec fn string_pattern() -> Seq<char> {
    "^\"([^\"\\\\]|\\\\.)*\"$"@
}

/// Whether the pattern matches the whole word.
pub open spec fn matches_pattern(pattern: Seq<char>, word: Seq<char>) -> bool {
    regex_match(pattern, word) == Some(true)
}

/// The last of the tokens so far, if there is one.
pub open spec fn last_token(ts: Seq<ClassifiedToken>) -> Option<ClassifiedToken> {
    if ts.len() > 0 {
        Some(ts.last())
    } else {
        None
    }
}

/// Whether a known command name may stand after the previous token: at the
/// start, after a keyword other than `for`, after a separator, and after the
/// operators that join two commands: `|`, `&&` and `||`.
pub open spec fn command_position(prev: Option<ClassifiedToken>) -> bool {
    match prev {
        None => true,
        Some(ClassifiedToken::Keyword(k)) => k != "for"@,
        Some(ClassifiedToken::Separator(_)) => true,
        Some(ClassifiedToken::Operator(o)) => o == "|"@ || o == "&&"@ || o == "||"@,
        _ => false,
    }
}

/// The class of a word, given the token before it, whether it names a known
/// command, and whether the integer, float and string patterns match it.
pub open spec fn word_class(
    w: Seq<char>,
    prev: Option<ClassifiedToken>,
    known: bool,
    int_match: bool,
    float_match: bool,
    string_match: bool,
) -> ClassifiedToken {
    if known && command_position(prev) {
        ClassifiedToken::Command(w)
    } else if int_match {
        ClassifiedToken::IntegerLiteral(w)
    } else if float_match {
        ClassifiedToken::FloatLiteral(w)
    } else if string_match {
        ClassifiedToken::StringLiteral(w)
    } else if w == "for"@ || w == "in"@ || w == "do"@ || w == "done"@ || w == "if"@ || w == "else"@
        || w == "then"@ || w == "fi"@ {
        ClassifiedToken::Keyword(w)
    } else if w == ";"@ {
        ClassifiedToken::Separator(w)
    } else if w == "|"@ || w == ">"@ || w == "<"@ || w == "&&"@ || w == "||"@ {
        ClassifiedToken::Operator(w)
    } else if w == "true"@ || w == "false"@ {
        ClassifiedToken::BooleanLiteral(w)
    } else if w.len() > 0 && w[0] == '$' {
        ClassifiedToken::Value(w)
    } else if w == " "@ || w == "\n"@ || w == "\t"@ {
        ClassifiedToken::Whitespace(w)
    } else {
        ClassifiedToken::Value(w)
    }
}

/// The class of a word after the tokens `ts`, with the known command names.
pub open spec fn class_after(w: Seq<char>, ts: Seq<ClassifiedToken>, known: Seq<Seq<char>>) -> ClassifiedToken {
    word_class(
        w,
        last_token(ts),
        known.contains(w),
        matches_pattern(integer_pattern(), w),
        matches_pattern(float_pattern(), w),
        matches_pattern(string_pattern(), w),
    )
}

/// The classes of words, each given the classes before it.
pub open spec fn classify_words(ws: Seq<Seq<char>>, known: Seq<Seq<char>>) -> Seq<ClassifiedToken>
    decreases ws.len(),
{
    if ws.len() == 0 {
        Seq::empty()
    } else {
        let init = classify_words(ws.drop_last(), known);
        init.push(class_after(ws.last(), init, known))
    }
}

/// Where the scan of a line stands: the words finished, the word being read,
/// and whether a double quote is open.
pub type ScanState = (Seq<Seq<char>>, Seq<char>, bool);

/// One character of the scan. A double quote opens or closes a string and is
/// dropped; a blank ends the word unless a string is open; a semicolon ends the
/// word and begins the next one.
pub open spec fn scan_step(st: ScanState, c: char) -> ScanState {
    let ws = st.0;
    let cur = st.1;
    let quoted = st.2;
    if c == '"' {
        (ws, cur, !quoted)
    } else if c == ' ' || c == '\t' || c == '\n' {
        if quoted {
            (ws, cur.push(c), quoted)
        } else if cur.len() > 0 {
            (ws.push(cur), Seq::empty(), quoted)
        } else {
            st
        }
    } else if c == ';' {
        if cur.len() > 0 {
            (ws.push(cur), seq![';'], quoted)
        } else {
            (ws, seq![';'], quoted)
        }
    } else {
        (ws, cur.push(c), quoted)
    }
}

/// The scan of a line, from its first character to its last.
pub open spec fn scan(cs: Seq<char>) -> ScanState
    decreases cs.len(),
{
    if cs.len() == 0 {
        (Seq::empty(), Seq::empty(), false)
    } else {
        scan_step(scan(cs.drop_last()), cs.last())
    }
}

/// The words of a line.
pub open spec fn split_words(cs: Seq<char>) -> Seq<Seq<char>> {
    let st = scan(cs);
    if st.1.len() > 0 {
        st.0.push(st.1)
    } else {
        st.0
    }
}

/// The tokens of a line: its words, each with its class.
pub open spec fn spec_tokenizer(cs: Seq<char>, known: Seq<Seq<char>>) -> Seq<ClassifiedToken> {
    classify_words(split_words(cs), known)
}

/// The values of a sequence of tokens.
pub open spec fn token_values(ts: Seq<Token>) -> Seq<ClassifiedToken> {
    ts.map_values(|t: Token| t@)
}

fn text_is_one_of(w: &str, options: &[&str]) -> (r: bool)
    ensures
        r == exists|i: int| 0 <= i < options@.len() && options@[i]@ == w@,
{
    let mut i: usize = 0;
    while i < options.len()
        invariant
            i <= options@.len(),
            forall|j: int| 0 <= j < i ==> options@[j]@ != w@,
        decreases options.len() - i,
    {
        if str_equal(options[i], w) {
            return true;
        }
        i = i + 1;
    }
    false
}

/// The class of a word, given the token before it, whether it names a known
/// command, and whether the integer, float and string patterns match it.
pub fn classify(
    w: &str,
    prev: Option<&Token>,
    known: bool,
    int_match: bool,
    float_match: bool,
    string_match: bool,
) -> (r: Token)
    ensures
        r@ == word_class(
            w@,
            match prev {
                Some(t) => Some(t@),
                None => None,
            },
            known,
            int_match,
            float_match,
            string_match,
        ),
{
    proof {
        reveal_strlit("for");
        reveal_strlit("in");
        reveal_strlit("do");
        reveal_strlit("done");
        reveal_strlit("if");
        reveal_strlit("else");
        reveal_strlit("then");
        reveal_strlit("fi");
        reveal_strlit(";");
        reveal_strlit("|");
        reveal_strlit(">");
        reveal_strlit("<");
        reveal_strlit("&&");
        reveal_strlit("||");
        reveal_strlit("true");
        reveal_strlit("false");
        reveal_strlit(" ");
        reveal_strlit("\n");
        reveal_strlit("\t");
    }
    let command_here = in_command_position(prev);
    let text = owned(w);
    if known && command_here {
        return Token::Command(text);
    }
    if int_match {
        return Token::IntegerLiteral(text);
    }
    if float_match {
        return Token::FloatLiteral(text);
    }
    if string_match {
        return Token::StringLiteral(text);
    }
    let keywords: [&str; 8] = ["for", "in", "do", "done", "if", "else", "then", "fi"];
    if text_is_one_of(w, &keywords) {
        return Token::Keyword(text);
    }
    if str_equal(w, ";") {
        return Token::Separator(text);
    }
    let operators: [&str; 5] = ["|", ">", "<", "&&", "||"];
    if text_is_one_of(w, &operators) {
        return Token::Operator(text);
    }
    if str_equal(w, "true") || str_equal(w, "false") {
        return Token::BooleanLiteral(text);
    }
    if w.unicode_len() > 0 && w.get_char(0) == '$' {
        return Token::Value(text);
    }
    if str_equal(w, " ") || str_equal(w, "\n") || str_equal(w, "\t") {
        return Token::Whitespace(text);
    }
    Token::Value(text)
}

/// A known command name where a command may stand: at the start, after a
/// keyword other than `for`, after a separator, or after `|`, `&&` or `||`.
pub fn get_command_from_cache(token: &str, tokens_list: &Vec<Token>, commands: &Vec<String>) -> (r:
    Option<Token>)
    ensures
        match r {
            Some(t) => t@ == ClassifiedToken::Command(token@) && texts(commands@).contains(token@)
                && command_position(last_token(token_values(tokens_list@))),
            None => !(texts(commands@).contains(token@) && command_position(
                last_token(token_values(tokens_list@)),
            )),
        },
{
    if !contains_text(commands, token) {
        return None;
    }
    let n = tokens_list.len();
    let prev = if n == 0 {
        None
    } else {
        Some(&tokens_list[n - 1])
    };
    proof {
        if n > 0 {
            assert(token_values(tokens_list@).last() == tokens_list@[n - 1]@);
        }
    }
    if in_command_position(prev) {
        Some(Token::Command(owned(token)))
    } else {
        None
    }
}

/// Whether a command may stand after the token `prev`.
fn in_command_position(prev: Option<&Token>) -> (r: bool)
    ensures
        r == command_position(
            match prev {
                Some(t) => Some(t@),
                None => None,
            },
        ),
{
    proof {
        reveal_strlit("for");
        reveal_strlit("|");
        reveal_strlit("&&");
        reveal_strlit("||");
    }
    match prev {
        None => true,
        Some(Token::Keyword(k)) => !str_equal(k.as_str(), "for"),
        Some(Token::Separator(_)) => true,
        Some(Token::Operator(o)) => str_equal(o.as_str(), "|") || str_equal(o.as_str(), "&&")
            || str_equal(o.as_str(), "||"),
        _ => false,
    }
}

/// The class of a word that comes after `tokens_list`, with the known command
/// names in `commands`.
pub fn clasify_tokens(token: &str, tokens_list: &Vec<Token>, commands: &Vec<String>) -> (r: Token)
    ensures
        r@ == class_after(token@, token_values(tokens_list@), texts(commands@)),
{
    let int_match = regex_is_match("^[+-]?\\d+$", token) == Some(true);
    let float_match = regex_is_match("^[+-]?(\\d+\\.\\d*|\\.\\d+)$", token) == Some(true);
    let string_match = regex_is_match("^\"([^\"\\\\]|\\\\.)*\"$", token) == Some(true);
    let known = contains_text(commands, token);
    let n = tokens_list.len();
    let prev = if n == 0 {
        None
    } else {
        Some(&tokens_list[n - 1])
    };
    classify(token, prev, known, int_match, float_match, string_match)
}

/// The tokens of a line: its words, each with its class, with the known command
/// names in `commands`.
pub fn tokenizer(input: &str, commands: &Vec<String>) -> (r: Vec<Token>)
    ensures
        token_values(r@) == spec_tokenizer(input@, texts(commands@)),
{
    let ghost known = texts(commands@);
    let chars = chars_of(input);
    let mut tokens: Vec<Token> = Vec::new();
    let mut current = String::new();
    let mut is_string = false;
    let ghost mut words: Seq<Seq<char>> = Seq::empty();
    let mut i: usize = 0;
    while i < chars.len()
        invariant
            i <= chars.len(),
            chars@ == input@,
            known == texts(commands@),
            scan(chars@.take(i as int)) == (words, current@, is_string),
            token_values(tokens@) == classify_words(words, known),
        decreases chars.len() - i,
    {
        let c = chars[i];
        assert(chars@.take(i as int + 1).drop_last() =~= chars@.take(i as int));
        if c == '"' {
            is_string = !is_string;
        } else if c == ' ' || c == '\t' || c == '\n' {
            if is_string {
                push_char(&mut current, c);
            } else if current.as_str().unicode_len() > 0 {
                let ghost prev = token_values(tokens@);
                let tok = clasify_tokens(current.as_str(), &tokens, commands);
                tokens.push(tok);
                proof {
                    assert(token_values(tokens@) =~= prev.push(tok@));
                    assert(words.push(current@).drop_last() =~= words);
                    words = words.push(current@);
                }
                current = String::new();
            }
        } else if c == ';' {
            if current.as_str().unicode_len() > 0 {
                let ghost prev = token_values(tokens@);
                let tok = clasify_tokens(current.as_str(), &tokens, commands);
                tokens.push(tok);
                proof {
                    assert(token_values(tokens@) =~= prev.push(tok@));
                    assert(words.push(current@).drop_last() =~= words);
                    words = words.push(current@);
                }
                current = String::new();
            }
            push_char(&mut current, c);
            assert(current@ =~= seq![';']);
        } else {
            push_char(&mut current, c);
        }
        i = i + 1;
    }
    assert(chars@.take(chars@.len() as int) =~= input@);
    if current.as_str().unicode_len() > 0 {
        let ghost prev = token_values(tokens@);
        let tok = clasify_tokens(current.as_str(), &tokens, commands);
        tokens.push(tok);
        proof {
            assert(token_values(tokens@) =~= prev.push(tok@));
            assert(words.push(current@).drop_last() =~= words);
        }
    }
    tokens
}


/// The operator words of the shell: `|`, `>`, `<`, `&&` and `||`.
pub open spec fn is_operator_text(w: Seq<char>) -> bool {
    ||| w == seq!['|']
    ||| w == seq!['>']
    ||| w == seq!['<']
    ||| w == seq!['&', '&']
    ||| w == seq!['|', '|']
}

/// A known command name is classed as a command at the start of a line,
/// after a separator, after `|`, `&&` or `||`, and after a keyword other than
/// `for`; after any other token it is not.
pub proof fn lemma_commands_follow_joins(
    w: Seq<char>,
    prev: Option<ClassifiedToken>,
    int_match: bool,
    float_match: bool,
    string_match: bool,
)
    ensures
        (prev is None || prev matches Some(ClassifiedToken::Separator(_)) || prev == Some(
            ClassifiedToken::Operator(seq!['|']),
        ) || prev == Some(ClassifiedToken::Operator(seq!['&', '&']))
            || prev == Some(ClassifiedToken::Operator(seq!['|', '|'])) || (prev matches Some(
            ClassifiedToken::Keyword(k),
        ) && k != seq!['f', 'o', 'r'])) ==> word_class(
            w,
            prev,
            true,
            int_match,
            float_match,
            string_match,
        ) == ClassifiedToken::Command(w),
        (prev matches Some(ClassifiedToken::Operator(o)) && (o == seq!['>'] || o == seq!['<']))
            ==> !(word_class(w, prev, true, int_match, float_match, string_match) is Command),
{
    reveal_strlit("for");
    reveal_strlit("|");
    reveal_strlit(">");
    reveal_strlit("<");
    reveal_strlit("&&");
    reveal_strlit("||");
    assert("for"@ =~= seq!['f', 'o', 'r']);
    assert("|"@ =~= seq!['|']);
    assert("&&"@ =~= seq!['&', '&']);
    assert("||"@ =~= seq!['|', '|']);
    assert(seq!['>'] != "|"@ && seq!['>'] != "&&"@ && seq!['>'] != "||"@) by {
        assert(seq!['>'][0] != "|"@[0]);
        assert(seq!['>'].len() != "&&"@.len());
        assert(seq!['>'].len() != "||"@.len());
    }
    assert(seq!['<'] != "|"@ && seq!['<'] != "&&"@ && seq!['<'] != "||"@) by {
        assert(seq!['<'][0] != "|"@[0]);
        assert(seq!['<'].len() != "&&"@.len());
        assert(seq!['<'].len() != "||"@.len());
    }
}

/// An operator word is classed as an operator, unless it names a known
/// command where a command may stand or one of the literal patterns matches
/// it; and only operator words are classed as operators.
pub proof fn lemma_operator_words_are_operators(
    w: Seq<char>,
    prev: Option<ClassifiedToken>,
    known: bool,
    int_match: bool,
    float_match: bool,
    string_match: bool,
)
    ensures
        is_operator_text(w) && !(known && command_position(prev)) && !int_match && !float_match
            && !string_match ==> word_class(w, prev, known, int_match, float_match, string_match)
            == ClassifiedToken::Operator(w),
        word_class(w, prev, known, int_match, float_match, string_match) is Operator
            ==> is_operator_text(w),
{
    reveal_strlit("for");
    reveal_strlit("in");
    reveal_strlit("do");
    reveal_strlit("done");
    reveal_strlit("if");
    reveal_strlit("else");
    reveal_strlit("then");
    reveal_strlit("fi");
    reveal_strlit(";");
    reveal_strlit("|");
    reveal_strlit(">");
    reveal_strlit("<");
    reveal_strlit("&&");
    reveal_strlit("||");
    assert("|"@ =~= seq!['|']);
    assert(">"@ =~= seq!['>']);
    assert("<"@ =~= seq!['<']);
    assert("&&"@ =~= seq!['&', '&']);
    assert("||"@ =~= seq!['|', '|']);
    if is_operator_text(w) {
        assert(w != "for"@ && w != "in"@ && w != "do"@ && w != "done"@ && w != "if"@ && w
            != "else"@ && w != "then"@ && w != "fi"@ && w != ";"@) by {
            assert(w.len() <= 2);
            assert("for"@.len() == 3);
            assert("done"@.len() == 4);
            assert("else"@.len() == 4);
            assert("then"@.len() == 4);
            assert(w[0] != "in"@[0]);
            assert(w[0] != "do"@[0]);
            assert(w[0] != "if"@[0]);
            assert(w[0] != "fi"@[0]);
            assert(w[0] != ";"@[0]);
        }
    }
}

/// The words that the scan has finished are never empty.
pub proof fn lemma_scan_words_nonempty(cs: Seq<char>)
    ensures
        forall|i: int| 0 <= i < scan(cs).0.len() ==> #[trigger] scan(cs).0[i].len() > 0,
    decreases cs.len(),
{
    if cs.len() > 0 {
        lemma_scan_words_nonempty(cs.drop_last());
        let st = scan(cs.drop_last());
        let st2 = scan_step(st, cs.last());
        assert forall|i: int| 0 <= i < st2.0.len() implies #[trigger] st2.0[i].len() > 0 by {
            if i < st.0.len() {
                assert(st2.0[i] == st.0[i]);
            }
        }
    }
}

/// No word of a line is empty: blanks and quotes never make a word of their
/// own.
pub proof fn lemma_split_words_nonempty(cs: Seq<char>)
    ensures
        forall|i: int| 0 <= i < split_words(cs).len() ==> #[trigger] split_words(cs)[i].len() > 0,
{
    lemma_scan_words_nonempty(cs);
}

/// A line gives one token for each of its words.
pub proof fn lemma_one_token_per_word(ws: Seq<Seq<char>>, known: Seq<Seq<char>>)
    ensures
        classify_words(ws, known).len() == ws.len(),
    decreases ws.len(),
{
    if ws.len() > 0 {
        lemma_one_token_per_word(ws.drop_last(), known);
    }
}

} // verus!
