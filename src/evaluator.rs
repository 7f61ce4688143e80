use vstd::prelude::*;
use vstd::string::StrSliceExecFns;
use crate::tokenizer::{CalcError, SpecToken, Token};
use crate::parser::{Node, SpecNode, node_view, nodes_view, parse, parse_spec};

verus! {

broadcast use {vstd::seq::group_seq_axioms, vstd::std_specs::vec::group_vec_axioms};

/// An operation on one number.
#[derive(Debug, Clone, Copy, PartialEq, Eq, Structural)]
pub enum UnaryOp {
    Negate,
    Sin,
    Cos,
    Tan,
    Asin,
    Acos,
    Atan,
    Sqrt,
    Ln,
    Log10,
    Abs,
}

/// An operation on two numbers: `Root(a, b)` is `a` to the power `1 / b`,
/// `Log(a, b)` the logarithm of `a` to base `b`.
#[derive(Debug, Clone, Copy, PartialEq, Eq, Structural)]
pub enum BinaryOp {
    Add,
    Sub,
    Mul,
    Div,
    Pow,
    Root,
    Log,
}

/// A checked calculation: every name resolved, every operator valid, every
/// operation given its operands in order. It stands for one number.
#[derive(Debug, PartialEq)]
pub enum Calc {
    Literal(String),
    Unary(UnaryOp, Box<Calc>),
    Binary(BinaryOp, Box<Calc>, Box<Calc>),
}

/// The mathematical model of a calculation.
pub enum SpecCalc {
    Literal(Seq<char>),
    Unary(UnaryOp, Box<SpecCalc>),
    Binary(BinaryOp, Box<SpecCalc>, Box<SpecCalc>),
}

pub open spec fn calc_view(c: Calc) -> SpecCalc
    decreases c,
{
    match c {
        Calc::Literal(t) => SpecCalc::Literal(t@),
        Calc::Unary(op, a) => SpecCalc::Unary(op, Box::new(calc_view(*a))),
        Calc::Binary(op, a, b) => SpecCalc::Binary(op, Box::new(calc_view(*a)), Box::new(calc_view(*b))),
    }
}

impl View for Calc {
    type V = SpecCalc;

    open spec fn view(&self) -> SpecCalc {
        calc_view(*self)
    }
}

/// The functions that a call may name.
#[derive(Debug, Clone, Copy, PartialEq, Eq, Structural)]
pub enum Function {
    Root,
    Sin,
    Cos,
    Tan,
    Asin,
    Acos,
    Atan,
    Sqrt,
    Ln,
    Log,
    Abs,
}

/// The function table: which function a name calls.
pub open spec fn function_named(name: Seq<char>) -> Option<Function> {
    if name == "root"@ {
        Some(Function::Root)
    } else if name == "sin"@ {
        Some(Function::Sin)
    } else if name == "cos"@ {
        Some(Function::Cos)
    } else if name == "tan"@ {
        Some(Function::Tan)
    } else if name == "asin"@ {
        Some(Function::Asin)
    } else if name == "acos"@ {
        Some(Function::Acos)
    } else if name == "atan"@ {
        Some(Function::Atan)
    } else if name == "sqrt"@ {
        Some(Function::Sqrt)
    } else if name == "ln"@ {
        Some(Function::Ln)
    } else if name == "log"@ {
        Some(Function::Log)
    } else if name == "abs"@ {
        Some(Function::Abs)
    } else {
        None
    }
}

/// The operation of a function of one argument.
pub open spec fn single_op(f: Function) -> UnaryOp {
    match f {
        Function::Sin => UnaryOp::Sin,
        Function::Cos => UnaryOp::Cos,
        Function::Tan => UnaryOp::Tan,
        Function::Asin => UnaryOp::Asin,
        Function::Acos => UnaryOp::Acos,
        Function::Atan => UnaryOp::Atan,
        Function::Sqrt => UnaryOp::Sqrt,
        Function::Ln => UnaryOp::Ln,
        Function::Log => UnaryOp::Log10,
        _ => UnaryOp::Abs,
    }
}

/// A call of `f` on evaluated arguments. `root` reads two arguments, `log` one
/// (base ten) or two (the second the base), the others one; extra arguments
/// are ignored, missing ones are an error.
pub open spec fn apply_spec(f: Function, args: Seq<SpecCalc>) -> Result<SpecCalc, CalcError> {
    match f {
        Function::Root => if args.len() >= 2 {
            Ok(SpecCalc::Binary(BinaryOp::Root, Box::new(args[0]), Box::new(args[1])))
        } else {
            Err(CalcError::ArgumentCount)
        },
        Function::Log => if args.len() == 1 {
            Ok(SpecCalc::Unary(UnaryOp::Log10, Box::new(args[0])))
        } else if args.len() >= 2 {
            Ok(SpecCalc::Binary(BinaryOp::Log, Box::new(args[0]), Box::new(args[1])))
        } else {
            Err(CalcError::ArgumentCount)
        },
        _ => if args.len() >= 1 {
            Ok(SpecCalc::Unary(single_op(f), Box::new(args[0])))
        } else {
            Err(CalcError::ArgumentCount)
        },
    }
}

/// The operation that a binary node's operator stands for.
pub open spec fn binary_op_of(t: SpecToken) -> Option<BinaryOp> {
    match t {
        SpecToken::Plus => Some(BinaryOp::Add),
        SpecToken::Minus => Some(BinaryOp::Sub),
        SpecToken::Asterisk => Some(BinaryOp::Mul),
        SpecToken::Slash => Some(BinaryOp::Div),
        SpecToken::Caret => Some(BinaryOp::Pow),
        _ => None,
    }
}

/// What a tree evaluates to. Both operands of a binary node are evaluated,
/// `left` first, and the operator applied as `left op right`; an assignment
/// passes its value through and keeps no binding.
pub open spec fn evaluate_spec(n: SpecNode) -> Result<SpecCalc, CalcError>
    decreases n,
{
    match n {
        SpecNode::Number(t) => Ok(SpecCalc::Literal(t)),
        SpecNode::Binary { left, right, operator } => match evaluate_spec(*left) {
            Err(e) => Err(e),
            Ok(a) => match evaluate_spec(*right) {
                Err(e) => Err(e),
                Ok(b) => match binary_op_of(operator) {
                    Some(op) => Ok(SpecCalc::Binary(op, Box::new(a), Box::new(b))),
                    None => Err(CalcError::InvalidOperator),
                },
            },
        },
        SpecNode::Unary { right, operator } => match evaluate_spec(*right) {
            Err(e) => Err(e),
            Ok(a) => if operator == SpecToken::Minus {
                Ok(SpecCalc::Unary(UnaryOp::Negate, Box::new(a)))
            } else {
                Err(CalcError::InvalidOperator)
            },
        },
        SpecNode::FunctionCall { name, args } => match evaluate_args_spec(args) {
            Err(e) => Err(e),
            Ok(values) => match function_named(name) {
                None => Err(CalcError::UnknownFunction),
                Some(f) => apply_spec(f, values),
            },
        },
        SpecNode::Variable(_) => Err(CalcError::UnboundVariable),
        SpecNode::Assignment { name, value } => evaluate_spec(*value),
    }
}

/// The arguments of a call evaluated in order; the first failure wins.
pub open spec fn evaluate_args_spec(args: Seq<SpecNode>) -> Result<Seq<SpecCalc>, CalcError>
    decreases args,
{
    if args.len() == 0 {
        Ok(Seq::empty())
    } else {
        match evaluate_args_spec(args.drop_last()) {
            Err(e) => Err(e),
            Ok(values) => match evaluate_spec(args.last()) {
                Err(e) => Err(e),
                Ok(v) => Ok(values.push(v)),
            },
        }
    }
}

/// What a whole text comes to: parsed, then evaluated.
pub open spec fn calculate_spec(s: Seq<char>) -> Result<SpecCalc, CalcError> {
    match parse_spec(s) {
        Err(e) => Err(e),
        Ok(n) => evaluate_spec(n),
    }
}

/// `r` is the exec form of `expected`.
pub open spec fn calc_outcome(r: Result<Calc, CalcError>, expected: Result<SpecCalc, CalcError>) -> bool {
    match expected {
        Ok(c) => r matches Ok(v) && v@ == c,
        Err(e) => r == Err::<Calc, CalcError>(e),
    }
}

pub open spec fn calcs_view(s: Seq<Calc>) -> Seq<SpecCalc> {
    s.map_values(|c: Calc| c@)
}

proof fn lemma_nodes_view(s: Seq<Node>)
    ensures
        nodes_view(s).len() == s.len(),
        forall|i: int| 0 <= i < s.len() ==> #[trigger] nodes_view(s)[i] == node_view(s[i]),
    decreases s.len(),
{
    if s.len() > 0 {
        lemma_nodes_view(s.drop_last());
    }
}

/// Whether two texts are the same.
fn same_text(a: &str, b: &str) -> (r: bool)
    ensures
        r == (a@ == b@),
{
    let n = a.unicode_len();
    if n != b.unicode_len() {
        return false;
    }
    let mut i: usize = 0;
    while i < n
        invariant
            n == a@.len() == b@.len(),
            i <= n,
            forall|j: int| 0 <= j < i ==> a@[j] == b@[j],
        decreases n - i,
    {
        if a.get_char(i) != b.get_char(i) {
            return false;
        }
        i = i + 1;
    }
    assert(a@ =~= b@);
    true
}

impl Function {
    /// Looks a name up in the function table.
    pub fn from_name(name: &str) -> (r: Option<Function>)
        ensures
            r == function_named(name@),
    {
        if same_text(name, "root") {
            Some(Function::Root)
        } else if same_text(name, "sin") {
            Some(Function::Sin)
        } else if same_text(name, "cos") {
            Some(Function::Cos)
        } else if same_text(name, "tan") {
            Some(Function::Tan)
        } else if same_text(name, "asin") {
            Some(Function::Asin)
        } else if same_text(name, "acos") {
            Some(Function::Acos)
        } else if same_text(name, "atan") {
            Some(Function::Atan)
        } else if same_text(name, "sqrt") {
            Some(Function::Sqrt)
        } else if same_text(name, "ln") {
            Some(Function::Ln)
        } else if same_text(name, "log") {
            Some(Function::Log)
        } else if same_text(name, "abs") {
            Some(Function::Abs)
        } else {
            None
        }
    }

    /// Applies the function to evaluated arguments.
    pub fn apply(self, args: Vec<Calc>) -> (r: Result<Calc, CalcError>)
        ensures
            calc_outcome(r, apply_spec(self, calcs_view(args@))),
    {
        let mut args = args;
        let n = args.len();
        match self {
            Function::Root => {
                if n < 2 {
                    return Err(CalcError::ArgumentCount);
                }
                let b = args.remove(1);
                let a = args.remove(0);
                Ok(Calc::Binary(BinaryOp::Root, Box::new(a), Box::new(b)))
            },
            Function::Log => {
                if n == 0 {
                    return Err(CalcError::ArgumentCount);
                }
                if n == 1 {
                    let a = args.remove(0);
                    return Ok(Calc::Unary(UnaryOp::Log10, Box::new(a)));
                }
                let b = args.remove(1);
                let a = args.remove(0);
                Ok(Calc::Binary(BinaryOp::Log, Box::new(a), Box::new(b)))
            },
            _ => {
                if n == 0 {
                    return Err(CalcError::ArgumentCount);
                }
                let op = match self {
                    Function::Sin => UnaryOp::Sin,
                    Function::Cos => UnaryOp::Cos,
                    Function::Tan => UnaryOp::Tan,
                    Function::Asin => UnaryOp::Asin,
                    Function::Acos => UnaryOp::Acos,
                    Function::Atan => UnaryOp::Atan,
                    Function::Sqrt => UnaryOp::Sqrt,
                    Function::Ln => UnaryOp::Ln,
                    Function::Log => UnaryOp::Log10,
                    _ => UnaryOp::Abs,
                };
                let a = args.remove(0);
                Ok(Calc::Unary(op, Box::new(a)))
            },
        }
    }
}

/// Evaluates expression trees.
pub struct Evaluator;

impl Evaluator {
    /// Reduces a tree to a checked calculation, or the first failure met.
    pub fn evaluate(&self, node: &Node) -> (r: Result<Calc, CalcError>)
        ensures
            calc_outcome(r, evaluate_spec(node@)),
        decreases node,
    {
        match node {
            Node::Number(t) => Ok(Calc::Literal(t.clone())),
            Node::Binary { left, right, operator } => {
                let a = match self.evaluate(left) {
                    Ok(v) => v,
                    Err(e) => return Err(e),
                };
                let b = match self.evaluate(right) {
                    Ok(v) => v,
                    Err(e) => return Err(e),
                };
                let op = match operator {
                    Token::Plus => BinaryOp::Add,
                    Token::Minus => BinaryOp::Sub,
                    Token::Asterisk => BinaryOp::Mul,
                    Token::Slash => BinaryOp::Div,
                    Token::Caret => BinaryOp::Pow,
                    _ => return Err(CalcError::InvalidOperator),
                };
                Ok(Calc::Binary(op, Box::new(a), Box::new(b)))
            },
            Node::Unary { right, operator } => {
                let a = match self.evaluate(right) {
                    Ok(v) => v,
                    Err(e) => return Err(e),
                };
                match operator {
                    Token::Minus => Ok(Calc::Unary(UnaryOp::Negate, Box::new(a))),
                    _ => Err(CalcError::InvalidOperator),
                }
            },
            Node::FunctionCall { name, args } => {
                let mut values: Vec<Calc> = Vec::new();
                let mut i: usize = 0;
                proof {
                    lemma_nodes_view(args@);
                    assert(nodes_view(args@).take(0) =~= Seq::<SpecNode>::empty());
                    assert(calcs_view(values@) =~= Seq::<SpecCalc>::empty());
                }
                while i < args.len()
                    invariant
                        *node == (Node::FunctionCall { name: *name, args: *args }),
                        i <= args.len(),
                        nodes_view(args@).len() == args.len(),
                        forall|j: int| 0 <= j < args.len() ==> #[trigger] nodes_view(args@)[j] == node_view(args@[j]),
                        evaluate_args_spec(nodes_view(args@).take(i as int)) == Ok::<Seq<SpecCalc>, CalcError>(calcs_view(values@)),
                    decreases args.len() - i,
                {
                    let ghost before = values@;
                    let ghost prefix = nodes_view(args@).take(i + 1);
                    assert(prefix.drop_last() =~= nodes_view(args@).take(i as int));
                    assert(prefix.last() == node_view(args@[i as int]));
                    proof {
                        vstd::std_specs::vec::axiom_vec_index_decreases(*args, i as int);
                        assert(decreases_to!(*node => *args));
                    }
                    let v = match self.evaluate(&args[i]) {
                        Ok(v) => v,
                        Err(e) => {
                            assert(evaluate_args_spec(nodes_view(args@).take(i + 1)) == Err::<Seq<SpecCalc>, CalcError>(e));
                            proof {
                                lemma_args_error_stays(nodes_view(args@), i + 1);
                            }
                            return Err(e);
                        },
                    };
                    values.push(v);
                    assert(calcs_view(values@) =~= calcs_view(before).push(v@));
                    i = i + 1;
                }
                assert(nodes_view(args@).take(i as int) =~= nodes_view(args@));
                match Function::from_name(name.as_str()) {
                    None => Err(CalcError::UnknownFunction),
                    Some(f) => f.apply(values),
                }
            },
            Node::Variable(_) => Err(CalcError::UnboundVariable),
            Node::Assignment { name, value } => self.evaluate(value),
        }
    }
}

/// Once an argument fails, evaluating a longer prefix fails the same way.
proof fn lemma_args_error_stays(args: Seq<SpecNode>, k: int)
    requires
        0 <= k <= args.len(),
        evaluate_args_spec(args.take(k)) is Err,
    ensures
        evaluate_args_spec(args) == evaluate_args_spec(args.take(k)),
    decreases args.len() - k,
{
    if k < args.len() {
        assert(args.take(k + 1).drop_last() =~= args.take(k));
        lemma_args_error_stays(args, k + 1);
    } else {
        assert(args.take(k) =~= args);
    }
}

/// Reads and evaluates a whole text.
pub fn calculate(input: &str) -> (r: Result<Calc, CalcError>)
    ensures
        calc_outcome(r, calculate_spec(input@)),
{
    match parse(input) {
        Err(e) => Err(e),
        Ok(tree) => Evaluator.evaluate(&tree),
    }
}

} // verus!
