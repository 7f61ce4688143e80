use vstd::prelude::*;
use crate::tokenizer::{CalcError, SpecToken, Token, Tokenizer, lex_from, lemma_step_advances};

verus! {

broadcast use {vstd::seq::group_seq_axioms, vstd::std_specs::vec::group_vec_axioms};

/// An expression tree. A number keeps its literal text.
///
/// Chains of `+ -` and of `* /` are built with the newest operand in `left` and
/// what was gathered before it in `right`; the evaluator applies the operator as
/// `left op right`, so `5 - 3` comes to `3 - 5`. Exponentiation keeps the base
/// in `left`.
#[derive(Debug, PartialEq)]
pub enum Node {
    Number(String),
    Binary { left: Box<Node>, right: Box<Node>, operator: Token },
    Unary { right: Box<Node>, operator: Token },
    FunctionCall { name: String, args: Vec<Node> },
    Variable(String),
    Assignment { name: String, value: Box<Node> },
}

/// The mathematical model of an expression tree.
pub enum SpecNode {
    Number(Seq<char>),
    Binary { left: Box<SpecNode>, right: Box<SpecNode>, operator: SpecToken },
    Unary { right: Box<SpecNode>, operator: SpecToken },
    FunctionCall { name: Seq<char>, args: Seq<SpecNode> },
    Variable(Seq<char>),
    Assignment { name: Seq<char>, value: Box<SpecNode> },
}

pub open spec fn node_view(n: Node) -> SpecNode
    decreases n,
{
    match n {
        Node::Number(t) => SpecNode::Number(t@),
        Node::Binary { left, right, operator } => SpecNode::Binary {
            left: Box::new(node_view(*left)),
            right: Box::new(node_view(*right)),
            operator: operator@,
        },
        Node::Unary { right, operator } => SpecNode::Unary {
            right: Box::new(node_view(*right)),
            operator: operator@,
        },
        Node::FunctionCall { name, args } => SpecNode::FunctionCall {
            name: name@,
            args: nodes_view(args@),
        },
        Node::Variable(name) => SpecNode::Variable(name@),
        Node::Assignment { name, value } => SpecNode::Assignment {
            name: name@,
            value: Box::new(node_view(*value)),
        },
    }
}

pub open spec fn nodes_view(s: Seq<Node>) -> Seq<SpecNode>
    decreases s,
{
    if s.len() == 0 {
        Seq::empty()
    } else {
        nodes_view(s.drop_last()).push(node_view(s.last()))
    }
}

impl View for Node {
    type V = SpecNode;

    open spec fn view(&self) -> SpecNode {
        node_view(*self)
    }
}

/// A parse result: the tree, and the tokens that follow it.
pub type Parsed = Result<(SpecNode, Seq<SpecToken>), CalcError>;

/// The lookahead token, if any is left.
pub open spec fn peek(ts: Seq<SpecToken>) -> Option<SpecToken> {
    if ts.len() > 0 {
        Some(ts[0])
    } else {
        None
    }
}

/// Moving past the last token reaches a character that starts no token.
///
/// `failed` tells whether the token stream `ts` ends at such a character rather
/// than at the end of the input.
pub open spec fn fails_next(ts: Seq<SpecToken>, failed: bool) -> bool {
    ts.len() == 1 && failed
}

/// `expression := assignment`
pub open spec fn expression_spec(ts: Seq<SpecToken>, failed: bool) -> Parsed
    decreases ts.len(), 9nat,
{
    assignment_spec(ts, failed)
}

/// `assignment := addition ('=' addition)?`, the left side a bare variable.
pub open spec fn assignment_spec(ts: Seq<SpecToken>, failed: bool) -> Parsed
    decreases ts.len(), 8nat,
{
    match addition_spec(ts, failed) {
        Err(e) => Err(e),
        Ok((target, r)) => if r.len() <= ts.len() {
            assignment_rest(target, r, failed)
        } else {
            Ok((target, r))
        },
    }
}

/// What follows the left side of an assignment: `'=' addition`, or nothing.
pub open spec fn assignment_rest(target: SpecNode, ts: Seq<SpecToken>, failed: bool) -> Parsed
    decreases ts.len(), 7nat,
{
    if peek(ts) == Some(SpecToken::Equal) {
        if fails_next(ts, failed) {
            Err(CalcError::UnexpectedCharacter)
        } else {
            match addition_spec(ts.drop_first(), failed) {
                Err(e) => Err(e),
                Ok((value, r)) => match target {
                    SpecNode::Variable(name) => Ok(
                        (SpecNode::Assignment { name, value: Box::new(value) }, r),
                    ),
                    _ => Err(CalcError::InvalidAssignmentTarget),
                },
            }
        }
    } else {
        Ok((target, ts))
    }
}

/// `addition := multiplication (('+'|'-') multiplication)*`
pub open spec fn addition_spec(ts: Seq<SpecToken>, failed: bool) -> Parsed
    decreases ts.len(), 7nat,
{
    match multiplication_spec(ts, failed) {
        Err(e) => Err(e),
        Ok((first, r)) => if r.len() <= ts.len() {
            addition_rest(first, r, failed)
        } else {
            Ok((first, r))
        },
    }
}

pub open spec fn is_additive(t: Option<SpecToken>) -> bool {
    t == Some(SpecToken::Plus) || t == Some(SpecToken::Minus)
}

pub open spec fn is_multiplicative(t: Option<SpecToken>) -> bool {
    t == Some(SpecToken::Asterisk) || t == Some(SpecToken::Slash)
}

/// The loop of `addition`, with `acc` the tree gathered so far.
pub open spec fn addition_rest(acc: SpecNode, ts: Seq<SpecToken>, failed: bool) -> Parsed
    decreases ts.len(), 6nat,
{
    if is_additive(peek(ts)) {
        if fails_next(ts, failed) {
            Err(CalcError::UnexpectedCharacter)
        } else {
            match multiplication_spec(ts.drop_first(), failed) {
                Err(e) => Err(e),
                Ok((operand, r)) => {
                    let next = SpecNode::Binary {
                        left: Box::new(operand),
                        right: Box::new(acc),
                        operator: ts[0],
                    };
                    if r.len() < ts.len() {
                        addition_rest(next, r, failed)
                    } else {
                        Ok((next, r))
                    }
                },
            }
        }
    } else {
        Ok((acc, ts))
    }
}

/// `multiplication := unary (('*'|'/') unary)*`
pub open spec fn multiplication_spec(ts: Seq<SpecToken>, failed: bool) -> Parsed
    decreases ts.len(), 5nat,
{
    match unary_spec(ts, failed) {
        Err(e) => Err(e),
        Ok((first, r)) => if r.len() <= ts.len() {
            multiplication_rest(first, r, failed)
        } else {
            Ok((first, r))
        },
    }
}

/// The loop of `multiplication`, with `acc` the tree gathered so far.
pub open spec fn multiplication_rest(acc: SpecNode, ts: Seq<SpecToken>, failed: bool) -> Parsed
    decreases ts.len(), 4nat,
{
    if is_multiplicative(peek(ts)) {
        if fails_next(ts, failed) {
            Err(CalcError::UnexpectedCharacter)
        } else {
            match unary_spec(ts.drop_first(), failed) {
                Err(e) => Err(e),
                Ok((operand, r)) => {
                    let next = SpecNode::Binary {
                        left: Box::new(operand),
                        right: Box::new(acc),
                        operator: ts[0],
                    };
                    if r.len() < ts.len() {
                        multiplication_rest(next, r, failed)
                    } else {
                        Ok((next, r))
                    }
                },
            }
        }
    } else {
        Ok((acc, ts))
    }
}

/// `unary := '-' unary | exponentiation`
pub open spec fn unary_spec(ts: Seq<SpecToken>, failed: bool) -> Parsed
    decreases ts.len(), 3nat,
{
    if peek(ts) == Some(SpecToken::Minus) {
        if fails_next(ts, failed) {
            Err(CalcError::UnexpectedCharacter)
        } else {
            match unary_spec(ts.drop_first(), failed) {
                Err(e) => Err(e),
                Ok((operand, r)) => Ok(
                    (SpecNode::Unary { right: Box::new(operand), operator: SpecToken::Minus }, r),
                ),
            }
        }
    } else {
        exponentiation_spec(ts, failed)
    }
}

/// `exponentiation := primary ('^' exponentiation)?`, grouping to the right.
pub open spec fn exponentiation_spec(ts: Seq<SpecToken>, failed: bool) -> Parsed
    decreases ts.len(), 2nat,
{
    match primary_spec(ts, failed) {
        Err(e) => Err(e),
        Ok((base, r)) => {
            if peek(r) == Some(SpecToken::Caret) && r.len() <= ts.len() {
                if fails_next(r, failed) {
                    Err(CalcError::UnexpectedCharacter)
                } else {
                    match exponentiation_spec(r.drop_first(), failed) {
                        Err(e) => Err(e),
                        Ok((exponent, r2)) => Ok(
                            (
                                SpecNode::Binary {
                                    left: Box::new(base),
                                    right: Box::new(exponent),
                                    operator: SpecToken::Caret,
                                },
                                r2,
                            ),
                        ),
                    }
                }
            } else {
                Ok((base, r))
            }
        },
    }
}

/// The name that `|e|` calls.
pub open spec fn abs_name() -> Seq<char> {
    seq!['a', 'b', 's']
}

/// `primary := Number | Identifier ('(' expression (',' expression)* ')')?
///             | '(' expression ')' | '|' expression '|'`
pub open spec fn primary_spec(ts: Seq<SpecToken>, failed: bool) -> Parsed
    decreases ts.len(), 1nat,
{
    if ts.len() == 0 {
        Err(CalcError::UnrecognizedPrimary)
    } else {
        match ts[0] {
            SpecToken::Number(t) => if fails_next(ts, failed) {
                Err(CalcError::UnexpectedCharacter)
            } else {
                Ok((SpecNode::Number(t), ts.drop_first()))
            },
            SpecToken::Identifier(name) => if fails_next(ts, failed) {
                Err(CalcError::UnexpectedCharacter)
            } else {
                call_or_variable_spec(name, ts.drop_first(), failed)
            },
            SpecToken::OpenParen => if fails_next(ts, failed) {
                Err(CalcError::UnexpectedCharacter)
            } else {
                group_spec(ts.drop_first(), failed)
            },
            SpecToken::Pipe => if fails_next(ts, failed) {
                Err(CalcError::UnexpectedCharacter)
            } else {
                bars_spec(ts.drop_first(), failed)
            },
            _ => Err(CalcError::UnrecognizedPrimary),
        }
    }
}

/// What follows a name: an argument list in parentheses, or nothing (a variable).
pub open spec fn call_or_variable_spec(name: Seq<char>, ts: Seq<SpecToken>, failed: bool) -> Parsed
    decreases ts.len(), 0nat,
{
    if peek(ts) == Some(SpecToken::OpenParen) {
        if fails_next(ts, failed) {
            Err(CalcError::UnexpectedCharacter)
        } else {
            match expression_spec(ts.drop_first(), failed) {
                Err(e) => Err(e),
                Ok((first, r)) => if r.len() < ts.len() {
                    arguments_rest(name, seq![first], r, failed)
                } else {
                    Err(CalcError::MissingComma)
                },
            }
        }
    } else {
        Ok((SpecNode::Variable(name), ts))
    }
}

/// What follows `(`: an expression and `)`.
pub open spec fn group_spec(ts: Seq<SpecToken>, failed: bool) -> Parsed
    decreases ts.len(), 10nat,
{
    match expression_spec(ts, failed) {
        Err(e) => Err(e),
        Ok((inner, r)) => if peek(r) != Some(SpecToken::CloseParen) {
            Err(CalcError::MissingCloseParen)
        } else if fails_next(r, failed) {
            Err(CalcError::UnexpectedCharacter)
        } else {
            Ok((inner, r.drop_first()))
        },
    }
}

/// What follows an opening `|`: an expression and `|`, read as a call of `abs`.
pub open spec fn bars_spec(ts: Seq<SpecToken>, failed: bool) -> Parsed
    decreases ts.len(), 10nat,
{
    match expression_spec(ts, failed) {
        Err(e) => Err(e),
        Ok((inner, r)) => if peek(r) != Some(SpecToken::Pipe) {
            Err(CalcError::MissingClosePipe)
        } else if fails_next(r, failed) {
            Err(CalcError::UnexpectedCharacter)
        } else {
            Ok((SpecNode::FunctionCall { name: abs_name(), args: seq![inner] }, r.drop_first()))
        },
    }
}

/// The argument loop of a call: `(',' expression)* ')'`, with `args` read so far.
pub open spec fn arguments_rest(
    name: Seq<char>,
    args: Seq<SpecNode>,
    ts: Seq<SpecToken>,
    failed: bool,
) -> Parsed
    decreases ts.len(), 0nat,
{
    if peek(ts) == Some(SpecToken::CloseParen) {
        if fails_next(ts, failed) {
            Err(CalcError::UnexpectedCharacter)
        } else {
            Ok((SpecNode::FunctionCall { name, args }, ts.drop_first()))
        }
    } else if peek(ts) != Some(SpecToken::Comma) {
        Err(CalcError::MissingComma)
    } else if fails_next(ts, failed) {
        Err(CalcError::UnexpectedCharacter)
    } else {
        match expression_spec(ts.drop_first(), failed) {
            Err(e) => Err(e),
            Ok((arg, r)) => if r.len() < ts.len() {
                arguments_rest(name, args.push(arg), r, failed)
            } else {
                Err(CalcError::MissingComma)
            },
        }
    }
}

/// What reading a whole text gives: the tokens must form one expression and
/// nothing after it.
pub open spec fn parse_spec(s: Seq<char>) -> Result<SpecNode, CalcError> {
    let (ts, failed) = lex_from(s, 0);
    if ts.len() == 0 && failed {
        Err(CalcError::UnexpectedCharacter)
    } else {
        match expression_spec(ts, failed) {
            Err(e) => Err(e),
            Ok((n, rest)) => if rest.len() > 0 {
                Err(CalcError::TrailingToken)
            } else {
                Ok(n)
            },
        }
    }
}

/// A recursive-descent parser over a lexer, with one token of lookahead.
pub struct Parser {
    tokenizer: Tokenizer,
    current_token: Option<Token>,
}

/// `after` and `r` are what a parse from `before` that should give `expected`
/// leaves: on success the tree, the tokens that follow it (a suffix of those before),
/// and the same end of input; on failure the same error.
pub open spec fn parse_outcome(
    before: Parser,
    after: Parser,
    r: Result<Node, CalcError>,
    expected: Parsed,
) -> bool {
    &&& after.wf()
    &&& match expected {
        Ok((n, rest)) => {
            &&& r matches Ok(m) && m@ == n
            &&& after.stream() == rest
            &&& after.failed() == before.failed()
            &&& rest.len() <= before.stream().len()
        },
        Err(e) => r == Err::<Node, CalcError>(e),
    }
}

impl Parser {
    /// The tokens not yet consumed, the lookahead first.
    pub closed spec fn stream(&self) -> Seq<SpecToken> {
        match self.current_token {
            Some(t) => seq![t@] + self.tokenizer.remaining().0,
            None => Seq::empty(),
        }
    }

    /// Whether the tokens end at a character that starts no token.
    pub closed spec fn failed(&self) -> bool {
        match self.current_token {
            Some(_) => self.tokenizer.remaining().1,
            None => false,
        }
    }

    pub closed spec fn wf(&self) -> bool {
        self.tokenizer.wf()
    }

    /// A parser whose lookahead is the first token of `tokenizer`.
    pub fn new(tokenizer: Tokenizer) -> (r: Result<Parser, CalcError>)
        requires
            tokenizer.wf(),
        ensures
            ({
                let (ts, failed) = tokenizer.remaining();
                if ts.len() == 0 && failed {
                    r == Err::<Parser, CalcError>(CalcError::UnexpectedCharacter)
                } else {
                    r matches Ok(p) && p.wf() && p.stream() == ts && p.failed() == failed
                }
            }),
    {
        let mut tokenizer = tokenizer;
        proof {
            lemma_step_advances(tokenizer.text(), tokenizer.pos() as int);
        }
        match tokenizer.next() {
            Err(e) => Err(e),
            Ok(current_token) => {
                proof {
                    lemma_step_advances(tokenizer.text(), tokenizer.pos() as int);
                }
                Ok(Parser { tokenizer, current_token })
            },
        }
    }

    /// Replaces the lookahead by the next token.
    fn advance(&mut self) -> (r: Result<(), CalcError>)
        requires
            old(self).wf(),
            old(self).stream().len() > 0,
        ensures
            final(self).wf(),
            if fails_next(old(self).stream(), old(self).failed()) {
                r == Err::<(), CalcError>(CalcError::UnexpectedCharacter)
            } else {
                &&& r is Ok
                &&& final(self).stream() == old(self).stream().drop_first()
                &&& final(self).failed() == old(self).failed()
            },
    {
        proof {
            lemma_step_advances(self.tokenizer.text(), self.tokenizer.pos() as int);
        }
        match self.tokenizer.next() {
            Err(e) => Err(e),
            Ok(t) => {
                self.current_token = t;
                proof {
                    lemma_step_advances(self.tokenizer.text(), self.tokenizer.pos() as int);
                    assert(self.stream() =~= old(self).stream().drop_first());
                }
                Ok(())
            },
        }
    }

    /// Reads one expression; tokens after it are left unread.
    pub fn parse_expression(&mut self) -> (r: Result<Node, CalcError>)
        requires
            old(self).wf(),
        ensures
            parse_outcome(*old(self), *final(self), r, expression_spec(old(self).stream(), old(self).failed())),
        decreases old(self).stream().len(), 9nat,
    {
        self.parse_assignment()
    }

    #[verifier::rlimit(100)]
    fn parse_assignment(&mut self) -> (r: Result<Node, CalcError>)
        requires
            old(self).wf(),
        ensures
            parse_outcome(*old(self), *final(self), r, assignment_spec(old(self).stream(), old(self).failed())),
        decreases old(self).stream().len(), 8nat,
    {
        let target = match self.parse_addition() {
            Ok(n) => n,
            Err(e) => return Err(e),
        };
        self.finish_assignment(target)
    }

    #[verifier::rlimit(100)]
    fn finish_assignment(&mut self, target: Node) -> (r: Result<Node, CalcError>)
        requires
            old(self).wf(),
        ensures
            parse_outcome(*old(self), *final(self), r, assignment_rest(target@, old(self).stream(), old(self).failed())),
        decreases old(self).stream().len(), 7nat,
    {
        let is_equal = match &self.current_token {
            Some(Token::Equal) => true,
            _ => false,
        };
        if !is_equal {
            return Ok(target);
        }
        match self.advance() {
            Ok(()) => {},
            Err(e) => return Err(e),
        }
        let value = match self.parse_addition() {
            Ok(n) => n,
            Err(e) => return Err(e),
        };
        match target {
            Node::Variable(name) => Ok(Node::Assignment { name, value: Box::new(value) }),
            _ => Err(CalcError::InvalidAssignmentTarget),
        }
    }

    #[verifier::rlimit(100)]
    fn parse_addition(&mut self) -> (r: Result<Node, CalcError>)
        requires
            old(self).wf(),
        ensures
            parse_outcome(*old(self), *final(self), r, addition_spec(old(self).stream(), old(self).failed())),
        decreases old(self).stream().len(), 7nat,
    {
        let mut expr = match self.parse_multiplication() {
            Ok(n) => n,
            Err(e) => return Err(e),
        };
        loop
            invariant
                self.wf(),
                self.failed() == old(self).failed(),
                self.stream().len() <= old(self).stream().len(),
                addition_rest(expr@, self.stream(), self.failed()) == addition_spec(
                    old(self).stream(),
                    old(self).failed(),
                ),
            decreases self.stream().len(),
        {
            let op = match &self.current_token {
                Some(Token::Plus) => Token::Plus,
                Some(Token::Minus) => Token::Minus,
                _ => return Ok(expr),
            };
            match self.advance() {
                Ok(()) => {},
                Err(e) => return Err(e),
            }
            let operand = match self.parse_multiplication() {
                Ok(n) => n,
                Err(e) => return Err(e),
            };
            expr = Node::Binary { left: Box::new(operand), right: Box::new(expr), operator: op };
        }
    }

    #[verifier::rlimit(100)]
    fn parse_multiplication(&mut self) -> (r: Result<Node, CalcError>)
        requires
            old(self).wf(),
        ensures
            parse_outcome(*old(self), *final(self), r, multiplication_spec(old(self).stream(), old(self).failed())),
        decreases old(self).stream().len(), 5nat,
    {
        let mut expr = match self.parse_unary() {
            Ok(n) => n,
            Err(e) => return Err(e),
        };
        loop
            invariant
                self.wf(),
                self.failed() == old(self).failed(),
                self.stream().len() <= old(self).stream().len(),
                multiplication_rest(expr@, self.stream(), self.failed()) == multiplication_spec(
                    old(self).stream(),
                    old(self).failed(),
                ),
            decreases self.stream().len(),
        {
            let op = match &self.current_token {
                Some(Token::Asterisk) => Token::Asterisk,
                Some(Token::Slash) => Token::Slash,
                _ => return Ok(expr),
            };
            match self.advance() {
                Ok(()) => {},
                Err(e) => return Err(e),
            }
            let operand = match self.parse_unary() {
                Ok(n) => n,
                Err(e) => return Err(e),
            };
            expr = Node::Binary { left: Box::new(operand), right: Box::new(expr), operator: op };
        }
    }

    #[verifier::rlimit(100)]
    fn parse_unary(&mut self) -> (r: Result<Node, CalcError>)
        requires
            old(self).wf(),
        ensures
            parse_outcome(*old(self), *final(self), r, unary_spec(old(self).stream(), old(self).failed())),
        decreases old(self).stream().len(), 3nat,
    {
        let is_minus = match &self.current_token {
            Some(Token::Minus) => true,
            _ => false,
        };
        if is_minus {
            match self.advance() {
                Ok(()) => {},
                Err(e) => return Err(e),
            }
            let operand = match self.parse_unary() {
                Ok(n) => n,
                Err(e) => return Err(e),
            };
            Ok(Node::Unary { right: Box::new(operand), operator: Token::Minus })
        } else {
            self.parse_exponentiation()
        }
    }

    #[verifier::rlimit(100)]
    fn parse_exponentiation(&mut self) -> (r: Result<Node, CalcError>)
        requires
            old(self).wf(),
        ensures
            parse_outcome(*old(self), *final(self), r, exponentiation_spec(old(self).stream(), old(self).failed())),
        decreases old(self).stream().len(), 2nat,
    {
        let base = match self.parse_primary() {
            Ok(n) => n,
            Err(e) => return Err(e),
        };
        let is_caret = match &self.current_token {
            Some(Token::Caret) => true,
            _ => false,
        };
        if !is_caret {
            return Ok(base);
        }
        match self.advance() {
            Ok(()) => {},
            Err(e) => return Err(e),
        }
        let exponent = match self.parse_exponentiation() {
            Ok(n) => n,
            Err(e) => return Err(e),
        };
        Ok(Node::Binary { left: Box::new(base), right: Box::new(exponent), operator: Token::Caret })
    }

    #[verifier::rlimit(100)]
    fn parse_primary(&mut self) -> (r: Result<Node, CalcError>)
        requires
            old(self).wf(),
        ensures
            parse_outcome(*old(self), *final(self), r, primary_spec(old(self).stream(), old(self).failed())),
        decreases old(self).stream().len(), 1nat,
    {
        match &self.current_token {
            Some(Token::Number(t)) => {
                let text = t.clone();
                match self.advance() {
                    Ok(()) => {},
                    Err(e) => return Err(e),
                }
                Ok(Node::Number(text))
            },
            Some(Token::Identifier(t)) => {
                let name = t.clone();
                match self.advance() {
                    Ok(()) => {},
                    Err(e) => return Err(e),
                }
                self.parse_call_or_variable(name)
            },
            Some(Token::OpenParen) => {
                match self.advance() {
                    Ok(()) => {},
                    Err(e) => return Err(e),
                }
                self.parse_group()
            },
            Some(Token::Pipe) => {
                match self.advance() {
                    Ok(()) => {},
                    Err(e) => return Err(e),
                }
                self.parse_bars()
            },
            _ => Err(CalcError::UnrecognizedPrimary),
        }
    }

    #[verifier::rlimit(100)]
    fn parse_call_or_variable(&mut self, name: String) -> (r: Result<Node, CalcError>)
        requires
            old(self).wf(),
        ensures
            parse_outcome(*old(self), *final(self), r, call_or_variable_spec(name@, old(self).stream(), old(self).failed())),
        decreases old(self).stream().len(), 0nat,
    {
        let is_call = match &self.current_token {
            Some(Token::OpenParen) => true,
            _ => false,
        };
        if !is_call {
            return Ok(Node::Variable(name));
        }
        match self.advance() {
            Ok(()) => {},
            Err(e) => return Err(e),
        }
        let first = match self.parse_expression() {
            Ok(n) => n,
            Err(e) => return Err(e),
        };
        let mut args: Vec<Node> = Vec::new();
        args.push(first);
        proof {
            assert(args@.drop_last() =~= Seq::<Node>::empty());
            assert(nodes_view(args@.drop_last()) =~= Seq::<SpecNode>::empty());
            assert(nodes_view(args@) =~= seq![first@]);
        }
        self.parse_arguments(name, args)
    }

    #[verifier::rlimit(100)]
    fn parse_group(&mut self) -> (r: Result<Node, CalcError>)
        requires
            old(self).wf(),
        ensures
            parse_outcome(*old(self), *final(self), r, group_spec(old(self).stream(), old(self).failed())),
        decreases old(self).stream().len(), 10nat,
    {
        let inner = match self.parse_expression() {
            Ok(n) => n,
            Err(e) => return Err(e),
        };
        let closed = match &self.current_token {
            Some(Token::CloseParen) => true,
            _ => false,
        };
        if !closed {
            return Err(CalcError::MissingCloseParen);
        }
        match self.advance() {
            Ok(()) => {},
            Err(e) => return Err(e),
        }
        Ok(inner)
    }

    #[verifier::rlimit(100)]
    fn parse_bars(&mut self) -> (r: Result<Node, CalcError>)
        requires
            old(self).wf(),
        ensures
            parse_outcome(*old(self), *final(self), r, bars_spec(old(self).stream(), old(self).failed())),
        decreases old(self).stream().len(), 10nat,
    {
        let inner = match self.parse_expression() {
            Ok(n) => n,
            Err(e) => return Err(e),
        };
        let closed = match &self.current_token {
            Some(Token::Pipe) => true,
            _ => false,
        };
        if !closed {
            return Err(CalcError::MissingClosePipe);
        }
        match self.advance() {
            Ok(()) => {},
            Err(e) => return Err(e),
        }
        let mut args: Vec<Node> = Vec::new();
        args.push(inner);
        let name = "abs".to_owned();
        proof {
            reveal_strlit("abs");
            assert(name@ =~= abs_name());
            assert(args@.drop_last() =~= Seq::<Node>::empty());
            assert(nodes_view(args@.drop_last()) =~= Seq::<SpecNode>::empty());
            assert(nodes_view(args@) =~= seq![inner@]);
        }
        Ok(Node::FunctionCall { name, args })
    }

    /// Reads the rest of an argument list, `args` already read, up to and
    /// including its `)`.
    #[verifier::rlimit(100)]
    fn parse_arguments(&mut self, name: String, args: Vec<Node>) -> (r: Result<Node, CalcError>)
        requires
            old(self).wf(),
        ensures
            parse_outcome(
                *old(self),
                *final(self),
                r,
                arguments_rest(name@, nodes_view(args@), old(self).stream(), old(self).failed()),
            ),
        decreases old(self).stream().len(), 0nat,
    {
        let closing = match &self.current_token {
            Some(Token::CloseParen) => true,
            Some(Token::Comma) => false,
            _ => return Err(CalcError::MissingComma),
        };
        match self.advance() {
            Ok(()) => {},
            Err(e) => return Err(e),
        }
        if closing {
            return Ok(Node::FunctionCall { name, args });
        }
        let arg = match self.parse_expression() {
            Ok(n) => n,
            Err(e) => return Err(e),
        };
        let mut args = args;
        let ghost before = args@;
        args.push(arg);
        proof {
            assert(args@.drop_last() =~= before);
        }
        self.parse_arguments(name, args)
    }
}

/// Reads `input` whole as one expression.
pub fn parse(input: &str) -> (r: Result<Node, CalcError>)
    ensures
        match parse_spec(input@) {
            Ok(n) => r matches Ok(m) && m@ == n,
            Err(e) => r == Err::<Node, CalcError>(e),
        },
{
    let tokenizer = Tokenizer::new(input.to_owned());
    let mut parser = match Parser::new(tokenizer) {
        Ok(p) => p,
        Err(e) => return Err(e),
    };
    let tree = match parser.parse_expression() {
        Ok(n) => n,
        Err(e) => return Err(e),
    };
    match parser.current_token {
        Some(_) => Err(CalcError::TrailingToken),
        None => Ok(tree),
    }
}

} // verus!
