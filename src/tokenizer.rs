use vstd::prelude::*;
use vstd::string::StrSliceExecFns;

verus! {

/// Every way in which reading, parsing or evaluating an expression can fail.
#[derive(Debug, Clone, Copy, PartialEq, Eq, Structural)]
pub enum CalcError {
    /// A character that starts no token, or a second decimal point in a number.
    UnexpectedCharacter,
    /// Two arguments of a call without a comma between them.
    MissingComma,
    /// A `(` without its `)`.
    MissingCloseParen,
    /// A `|` without its closing `|`.
    MissingClosePipe,
    /// A token that cannot start an operand.
    UnrecognizedPrimary,
    /// An `=` whose left side is not a bare variable.
    InvalidAssignmentTarget,
    /// Tokens left over after a complete expression.
    TrailingToken,
    /// An operator that the node it stands in cannot apply.
    InvalidOperator,
    /// A variable used as a value: there are no bindings.
    UnboundVariable,
    /// A call of a name that is not in the function table.
    UnknownFunction,
    /// A call with fewer arguments than its function reads.
    ArgumentCount,
}

/// A lexical unit. A number keeps its literal text (digits with at most one point).
#[derive(Debug, Clone, PartialEq)]
pub enum Token {
    OpenParen,
    CloseParen,
    Asterisk,
    Caret,
    Plus,
    Minus,
    Slash,
    Comma,
    Pipe,
    Equal,
    Number(String),
    Identifier(String),
}

/// The mathematical model of a token.
pub enum SpecToken {
    OpenParen,
    CloseParen,
    Asterisk,
    Caret,
    Plus,
    Minus,
    Slash,
    Comma,
    Pipe,
    Equal,
    Number(Seq<char>),
    Identifier(Seq<char>),
}

impl View for Token {
    type V = SpecToken;

    open spec fn view(&self) -> SpecToken {
        match self {
            Token::OpenParen => SpecToken::OpenParen,
            Token::CloseParen => SpecToken::CloseParen,
            Token::Asterisk => SpecToken::Asterisk,
            Token::Caret => SpecToken::Caret,
            Token::Plus => SpecToken::Plus,
            Token::Minus => SpecToken::Minus,
            Token::Slash => SpecToken::Slash,
            Token::Comma => SpecToken::Comma,
            Token::Pipe => SpecToken::Pipe,
            Token::Equal => SpecToken::Equal,
            Token::Number(t) => SpecToken::Number(t@),
            Token::Identifier(t) => SpecToken::Identifier(t@),
        }
    }
}

impl Token {
    /// A copy of the token with the same model.
    pub fn duplicate(&self) -> (r: Token)
        ensures
            r@ == self@,
    {
        match self {
            Token::OpenParen => Token::OpenParen,
            Token::CloseParen => Token::CloseParen,
            Token::Asterisk => Token::Asterisk,
            Token::Caret => Token::Caret,
            Token::Plus => Token::Plus,
            Token::Minus => Token::Minus,
            Token::Slash => Token::Slash,
            Token::Comma => Token::Comma,
            Token::Pipe => Token::Pipe,
            Token::Equal => Token::Equal,
            Token::Number(t) => Token::Number(t.clone()),
            Token::Identifier(t) => Token::Identifier(t.clone()),
        }
    }
}

/// Horizontal white space; a newline is not among it.
pub open spec fn is_space(c: char) -> bool {
    c == ' ' || c == '\t' || c == '\r'
}

pub open spec fn is_digit(c: char) -> bool {
    '0' <= c && c <= '9'
}

pub open spec fn is_letter(c: char) -> bool {
    ('a' <= c && c <= 'z') || ('A' <= c && c <= 'Z')
}

/// The classes of characters that the lexer scans runs of.
pub enum CharClass {
    Space,
    NumberPart,
    Letter,
}

impl CharClass {
    pub open spec fn has(self, c: char) -> bool {
        match self {
            CharClass::Space => is_space(c),
            CharClass::NumberPart => is_digit(c) || c == '.',
            CharClass::Letter => is_letter(c),
        }
    }
}

/// The token that a one-character symbol stands for.
pub open spec fn symbol(c: char) -> Option<SpecToken> {
    if c == '(' {
        Some(SpecToken::OpenParen)
    } else if c == ')' {
        Some(SpecToken::CloseParen)
    } else if c == '*' {
        Some(SpecToken::Asterisk)
    } else if c == '^' {
        Some(SpecToken::Caret)
    } else if c == '+' {
        Some(SpecToken::Plus)
    } else if c == '-' {
        Some(SpecToken::Minus)
    } else if c == '/' {
        Some(SpecToken::Slash)
    } else if c == ',' {
        Some(SpecToken::Comma)
    } else if c == '|' {
        Some(SpecToken::Pipe)
    } else if c == '=' {
        Some(SpecToken::Equal)
    } else {
        None
    }
}

/// The end of the longest run from `p` of characters of class `k`.
pub open spec fn run_end(s: Seq<char>, p: int, k: CharClass) -> int
    decreases s.len() - p,
{
    if 0 <= p < s.len() && k.has(s[p]) {
        run_end(s, p + 1, k)
    } else {
        p
    }
}

/// How many decimal points a text holds.
pub open spec fn points(t: Seq<char>) -> nat
    decreases t.len(),
{
    if t.len() == 0 {
        0
    } else {
        points(t.drop_last()) + if t.last() == '.' {
            1nat
        } else {
            0nat
        }
    }
}

/// One step of the lexer.
pub enum Step {
    /// The input is exhausted.
    End,
    /// The next character cannot be read.
    Fail,
    /// A token, and the position right after it.
    Emit(SpecToken, int),
}

/// What the lexer does at position `p` of `s`: white space is skipped, then a
/// symbol, a number (digits with at most one point) or a word of letters is read.
pub open spec fn step(s: Seq<char>, p: int) -> Step {
    let b = run_end(s, p, CharClass::Space);
    if b >= s.len() {
        Step::End
    } else if symbol(s[b]) is Some {
        Step::Emit(symbol(s[b])->0, b + 1)
    } else if is_digit(s[b]) {
        let e = run_end(s, b, CharClass::NumberPart);
        if points(s.subrange(b, e)) > 1 {
            Step::Fail
        } else {
            Step::Emit(SpecToken::Number(s.subrange(b, e)), e)
        }
    } else if is_letter(s[b]) {
        let e = run_end(s, b, CharClass::Letter);
        Step::Emit(SpecToken::Identifier(s.subrange(b, e)), e)
    } else {
        Step::Fail
    }
}

/// The tokens read from position `p` on, and whether reading stopped at a
/// character that starts no token (rather than at the end of the input).
pub open spec fn lex_from(s: Seq<char>, p: int) -> (Seq<SpecToken>, bool)
    decreases s.len() - p,
    via lex_from_decreases
{
    if 0 <= p <= s.len() {
        match step(s, p) {
            Step::End => (Seq::empty(), false),
            Step::Fail => (Seq::empty(), true),
            Step::Emit(t, q) => {
                let rest = lex_from(s, q);
                (seq![t] + rest.0, rest.1)
            },
        }
    } else {
        (Seq::empty(), false)
    }
}

#[via_fn]
proof fn lex_from_decreases(s: Seq<char>, p: int) {
    if 0 <= p <= s.len() {
        lemma_step_advances(s, p);
    }
}

proof fn lemma_run_end_bounds(s: Seq<char>, p: int, k: CharClass)
    requires
        0 <= p <= s.len(),
    ensures
        p <= run_end(s, p, k) <= s.len(),
        forall|i: int| p <= i < run_end(s, p, k) ==> k.has(#[trigger] s[i]),
    decreases s.len() - p,
{
    if p < s.len() && k.has(s[p]) {
        lemma_run_end_bounds(s, p + 1, k);
    }
}

proof fn lemma_run_end_at(s: Seq<char>, p: int, q: int, k: CharClass)
    requires
        0 <= p <= q <= s.len(),
        forall|i: int| p <= i < q ==> k.has(#[trigger] s[i]),
        q == s.len() || !k.has(s[q]),
    ensures
        run_end(s, p, k) == q,
    decreases q - p,
{
    if p < q {
        lemma_run_end_at(s, p + 1, q, k);
    }
}

/// A step that emits a token moves forward and stays within the input.
pub proof fn lemma_step_advances(s: Seq<char>, p: int)
    requires
        0 <= p <= s.len(),
    ensures
        step(s, p) is Emit ==> p < step(s, p)->Emit_1 <= s.len(),
{
    let b = run_end(s, p, CharClass::Space);
    lemma_run_end_bounds(s, p, CharClass::Space);
    if b < s.len() {
        lemma_run_end_bounds(s, b + 1, CharClass::NumberPart);
        lemma_run_end_bounds(s, b + 1, CharClass::Letter);
    }
}

/// A lexer over one input: it hands out tokens one at a time, forward only.
pub struct Tokenizer {
    start: usize,
    input: String,
    position: usize,
}

impl Tokenizer {
    /// The text being read.
    pub closed spec fn text(&self) -> Seq<char> {
        self.input@
    }

    /// The position of the next character to read.
    pub closed spec fn pos(&self) -> nat {
        self.position as nat
    }

    pub open spec fn wf(&self) -> bool {
        self.pos() <= self.text().len()
    }

    /// What is left to read.
    pub open spec fn remaining(&self) -> (Seq<SpecToken>, bool) {
        lex_from(self.text(), self.pos() as int)
    }

    /// A lexer at the start of `input`.
    pub fn new(input: String) -> (r: Tokenizer)
        ensures
            r.wf(),
            r.text() == input@,
            r.pos() == 0,
    {
        Tokenizer { start: 0, input, position: 0 }
    }

    /// Reads the next token: `Ok(None)` at the end of the input, an error at a
    /// character that starts no token.
    pub fn next(&mut self) -> (r: Result<Option<Token>, CalcError>)
        requires
            old(self).wf(),
        ensures
            final(self).wf(),
            final(self).text() == old(self).text(),
            match step(old(self).text(), old(self).pos() as int) {
                Step::End => r matches Ok(None),
                Step::Fail => r == Err::<Option<Token>, CalcError>(CalcError::UnexpectedCharacter),
                Step::Emit(t, q) => r matches Ok(Some(tok)) && tok@ == t && final(self).pos() == q,
            },
    {
        self.skip_whitespace();
        self.start = self.position;
        let len = self.input.as_str().unicode_len();
        if self.position >= len {
            return Ok(None);
        }
        let c = self.input.as_str().get_char(self.position);
        if c == '(' {
            Ok(Some(self.make_token(Token::OpenParen)))
        } else if c == ')' {
            Ok(Some(self.make_token(Token::CloseParen)))
        } else if c == '*' {
            Ok(Some(self.make_token(Token::Asterisk)))
        } else if c == '^' {
            Ok(Some(self.make_token(Token::Caret)))
        } else if c == '+' {
            Ok(Some(self.make_token(Token::Plus)))
        } else if c == '-' {
            Ok(Some(self.make_token(Token::Minus)))
        } else if c == '/' {
            Ok(Some(self.make_token(Token::Slash)))
        } else if c == ',' {
            Ok(Some(self.make_token(Token::Comma)))
        } else if c == '|' {
            Ok(Some(self.make_token(Token::Pipe)))
        } else if c == '=' {
            Ok(Some(self.make_token(Token::Equal)))
        } else if '0' <= c && c <= '9' {
            self.make_number()
        } else if ('a' <= c && c <= 'z') || ('A' <= c && c <= 'Z') {
            Ok(Some(self.make_identifier()))
        } else {
            Err(CalcError::UnexpectedCharacter)
        }
    }

    fn make_token(&mut self, token: Token) -> (r: Token)
        requires
            old(self).position < old(self).input@.len() <= usize::MAX,
        ensures
            final(self).wf(),
            final(self).input == old(self).input,
            final(self).position == old(self).position + 1,
            r == token,
    {
        self.position = self.position + 1;
        token
    }

    /// Reads a number from `start`: a run of digits and points, of which at
    /// most one may be a point.
    fn make_number(&mut self) -> (r: Result<Option<Token>, CalcError>)
        requires
            old(self).wf(),
            old(self).start == old(self).position < old(self).input@.len(),
            is_digit(old(self).input@[old(self).position as int]),
        ensures
            final(self).wf(),
            final(self).input == old(self).input,
            ({
                let s = old(self).input@;
                let b = old(self).position as int;
                let e = run_end(s, b, CharClass::NumberPart);
                if points(s.subrange(b, e)) > 1 {
                    r == Err::<Option<Token>, CalcError>(CalcError::UnexpectedCharacter)
                } else {
                    r matches Ok(Some(tok)) && tok@ == SpecToken::Number(s.subrange(b, e))
                        && final(self).position == e
                }
            }),
    {
        let ghost s = self.input@;
        let ghost b = self.start as int;
        let len = self.input.as_str().unicode_len();
        let mut dot = false;
        while self.position < len
            invariant
                self.input == old(self).input,
                self.input@ == s,
                b == old(self).position,
                self.start == b,
                b <= self.position <= len == s.len(),
                forall|i: int| b <= i < self.position ==> CharClass::NumberPart.has(#[trigger] s[i]),
                points(s.subrange(b, self.position as int)) == if dot { 1nat } else { 0nat },
            ensures
                self.position == len || !CharClass::NumberPart.has(s[self.position as int]),
            decreases len - self.position,
        {
            let c = self.input.as_str().get_char(self.position);
            let ghost before = s.subrange(b, self.position as int);
            assert(s.subrange(b, self.position + 1).drop_last() == before);
            assert(s.subrange(b, self.position + 1).last() == c);
            if '0' <= c && c <= '9' {
                self.position = self.position + 1;
            } else if c == '.' {
                if dot {
                    proof {
                        lemma_run_end_bounds(s, self.position + 1, CharClass::NumberPart);
                        let e = run_end(s, b, CharClass::NumberPart);
                        lemma_run_end_skip(s, b, self.position + 1, CharClass::NumberPart);
                        assert(points(s.subrange(b, self.position + 1)) == 2);
                        lemma_points_grow(s, b, self.position + 1, e);
                    }
                    return Err(CalcError::UnexpectedCharacter);
                }
                dot = true;
                self.position = self.position + 1;
            } else {
                break;
            }
        }
        proof {
            lemma_run_end_at(s, b, self.position as int, CharClass::NumberPart);
        }
        let text = self.input.as_str().substring_char(self.start, self.position).to_owned();
        Ok(Some(Token::Number(text)))
    }

    /// Reads a word of letters from `start`.
    fn make_identifier(&mut self) -> (r: Token)
        requires
            old(self).wf(),
            old(self).start == old(self).position < old(self).input@.len(),
            is_letter(old(self).input@[old(self).position as int]),
        ensures
            final(self).wf(),
            final(self).input == old(self).input,
            ({
                let s = old(self).input@;
                let b = old(self).position as int;
                let e = run_end(s, b, CharClass::Letter);
                r@ == SpecToken::Identifier(s.subrange(b, e)) && final(self).position == e
            }),
    {
        let ghost s = self.input@;
        let ghost b = self.start as int;
        let len = self.input.as_str().unicode_len();
        while self.position < len
            invariant
                self.input == old(self).input,
                self.input@ == s,
                b == old(self).position,
                self.start == b,
                b <= self.position <= len == s.len(),
                forall|i: int| b <= i < self.position ==> CharClass::Letter.has(#[trigger] s[i]),
            ensures
                self.position == len || !CharClass::Letter.has(s[self.position as int]),
            decreases len - self.position,
        {
            let c = self.input.as_str().get_char(self.position);
            if ('a' <= c && c <= 'z') || ('A' <= c && c <= 'Z') {
                self.position = self.position + 1;
            } else {
                break;
            }
        }
        proof {
            lemma_run_end_at(s, b, self.position as int, CharClass::Letter);
        }
        let text = self.input.as_str().substring_char(self.start, self.position).to_owned();
        Token::Identifier(text)
    }

    /// Moves past horizontal white space.
    fn skip_whitespace(&mut self)
        requires
            old(self).wf(),
        ensures
            final(self).wf(),
            final(self).input == old(self).input,
            final(self).start == old(self).start,
            final(self).position == run_end(old(self).input@, old(self).position as int, CharClass::Space),
    {
        let ghost s = self.input@;
        let ghost b = self.position as int;
        let len = self.input.as_str().unicode_len();
        while self.position < len
            invariant
                self.input == old(self).input,
                self.input@ == s,
                b == old(self).position,
                self.start == old(self).start,
                b <= self.position <= len == s.len(),
                forall|i: int| b <= i < self.position ==> CharClass::Space.has(#[trigger] s[i]),
            ensures
                self.position == len || !CharClass::Space.has(s[self.position as int]),
            decreases len - self.position,
        {
            let c = self.input.as_str().get_char(self.position);
            if c == ' ' || c == '\r' || c == '\t' {
                self.position = self.position + 1;
            } else {
                break;
            }
        }
        proof {
            lemma_run_end_at(s, b, self.position as int, CharClass::Space);
        }
    }
}

proof fn lemma_run_end_skip(s: Seq<char>, p: int, q: int, k: CharClass)
    requires
        0 <= p <= q <= s.len(),
        forall|i: int| p <= i < q ==> k.has(#[trigger] s[i]),
    ensures
        run_end(s, p, k) == run_end(s, q, k),
    decreases q - p,
{
    if p < q {
        lemma_run_end_skip(s, p + 1, q, k);
    }
}

/// Points counted over a prefix never exceed those over a longer one.
proof fn lemma_points_grow(s: Seq<char>, b: int, m: int, e: int)
    requires
        0 <= b <= m <= e <= s.len(),
    ensures
        points(s.subrange(b, m)) <= points(s.subrange(b, e)),
    decreases e - m,
{
    if m < e {
        lemma_points_grow(s, b, m, e - 1);
        assert(s.subrange(b, e).drop_last() == s.subrange(b, e - 1));
    }
}

} // verus!
