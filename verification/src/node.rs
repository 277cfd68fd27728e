//! A minimal syntax tree for constant expressions: integer leaves, binary
//! operators, and their folding over 32-bit signed integers.

use std::rc::Rc;
use vstd::prelude::*;
use vstd::string::StringExecFns;

verus! {

/// A node of the syntax tree.
pub enum AST {
    /// An integer constant.
    Int(i32),
    /// A floating-point constant, kept as the bits of its IEEE 754 double.
    /// Nothing here computes with it.
    Float(u64),
    /// A variable, by name.
    Variable(String),
    /// A binary operation.
    BinaryOp(BinaryOpAst),
}

/// The binary operators of C.
#[derive(Clone, Copy, PartialEq, Eq, Debug, Structural)]
pub enum CBinOps {
    Add,
    Sub,
    Mul,
    Div,
    Rem,
    And,
    Or,
    Xor,
    LAnd,
    LOr,
    Eq,
    Ne,
    Lt,
    Gt,
    Le,
    Ge,
    Shl,
    Shr,
}

/// A binary operation on two subtrees.
pub struct BinaryOpAst {
    pub lhs: Rc<AST>,
    pub rhs: Rc<AST>,
    pub op: CBinOps,
}

/// The quotient of C and Rust: `a / b` rounded toward zero.
pub open spec fn trunc_div(a: int, b: int) -> int {
    if a >= 0 {
        a / b
    } else {
        -((-a) / b)
    }
}

/// The remainder that goes with `trunc_div`: it has the sign of `a`.
pub open spec fn trunc_rem(a: int, b: int) -> int {
    if a >= 0 {
        a % b
    } else {
        -((-a) % b)
    }
}

/// 1 for true and 0 for false, as C has it.
pub open spec fn truth(b: bool) -> int {
    if b {
        1
    } else {
        0
    }
}

impl CBinOps {
    /// The operator that `text` spells, if it spells one.
    pub open spec fn spelled(text: Seq<char>) -> Option<CBinOps> {
        if text == "+"@ {
            Some(CBinOps::Add)
        } else if text == "-"@ {
            Some(CBinOps::Sub)
        } else if text == "*"@ {
            Some(CBinOps::Mul)
        } else if text == "/"@ {
            Some(CBinOps::Div)
        } else if text == "%"@ {
            Some(CBinOps::Rem)
        } else if text == "&"@ {
            Some(CBinOps::And)
        } else if text == "|"@ {
            Some(CBinOps::Or)
        } else if text == "^"@ {
            Some(CBinOps::Xor)
        } else if text == "&&"@ {
            Some(CBinOps::LAnd)
        } else if text == "||"@ {
            Some(CBinOps::LOr)
        } else if text == "=="@ {
            Some(CBinOps::Eq)
        } else if text == "!="@ {
            Some(CBinOps::Ne)
        } else if text == "<"@ {
            Some(CBinOps::Lt)
        } else if text == ">"@ {
            Some(CBinOps::Gt)
        } else if text == "<="@ {
            Some(CBinOps::Le)
        } else if text == ">="@ {
            Some(CBinOps::Ge)
        } else if text == "<<"@ {
            Some(CBinOps::Shl)
        } else if text == ">>"@ {
            Some(CBinOps::Shr)
        } else {
            None
        }
    }

    /// What the operator makes of `l` and `r`, two 32-bit signed integers:
    /// the integer of mathematics for the arithmetic operators, the
    /// bitwise results on 32 bits, and 0 or 1 for the logical and
    /// relational operators.
    pub open spec fn apply(self, l: int, r: int) -> int {
        match self {
            CBinOps::Add => l + r,
            CBinOps::Sub => l - r,
            CBinOps::Mul => l * r,
            CBinOps::Div => trunc_div(l, r),
            CBinOps::Rem => trunc_rem(l, r),
            CBinOps::And => ((l as i32) & (r as i32)) as int,
            CBinOps::Or => ((l as i32) | (r as i32)) as int,
            CBinOps::Xor => ((l as i32) ^ (r as i32)) as int,
            CBinOps::LAnd => truth(l != 0 && r != 0),
            CBinOps::LOr => truth(l != 0 || r != 0),
            CBinOps::Eq => truth(l == r),
            CBinOps::Ne => truth(l != r),
            CBinOps::Lt => truth(l < r),
            CBinOps::Gt => truth(l > r),
            CBinOps::Le => truth(l <= r),
            CBinOps::Ge => truth(l >= r),
            CBinOps::Shl => ((l as i32) << (r as i32)) as int,
            CBinOps::Shr => ((l as i32) >> (r as i32)) as int,
        }
    }

    /// Whether the operation is defined on `l` and `r` in 32-bit signed
    /// arithmetic: a sum, difference or product must fit; a divisor must
    /// not be 0, nor -1 where the dividend is the least integer; a shift
    /// count must lie in 0..32.
    pub open spec fn defined(self, l: int, r: int) -> bool {
        match self {
            CBinOps::Add | CBinOps::Sub | CBinOps::Mul => i32::MIN <= self.apply(l, r) <= i32::MAX,
            CBinOps::Div | CBinOps::Rem => r != 0 && !(l == i32::MIN && r == -1),
            CBinOps::Shl | CBinOps::Shr => 0 <= r < 32,
            _ => true,
        }
    }

    /// The operator that `op` spells: one of `+ - * / % & | ^ && || == !=
    /// < > <= >= << >>`. `None` for any other text.
    pub fn from_symbol(op: &str) -> (r: Option<CBinOps>)
        ensures
            r == CBinOps::spelled(op@),
    {
        let op = String::from_str(op);
        if op == String::from_str("+") {
            Some(CBinOps::Add)
        } else if op == String::from_str("-") {
            Some(CBinOps::Sub)
        } else if op == String::from_str("*") {
            Some(CBinOps::Mul)
        } else if op == String::from_str("/") {
            Some(CBinOps::Div)
        } else if op == String::from_str("%") {
            Some(CBinOps::Rem)
        } else if op == String::from_str("&") {
            Some(CBinOps::And)
        } else if op == String::from_str("|") {
            Some(CBinOps::Or)
        } else if op == String::from_str("^") {
            Some(CBinOps::Xor)
        } else if op == String::from_str("&&") {
            Some(CBinOps::LAnd)
        } else if op == String::from_str("||") {
            Some(CBinOps::LOr)
        } else if op == String::from_str("==") {
            Some(CBinOps::Eq)
        } else if op == String::from_str("!=") {
            Some(CBinOps::Ne)
        } else if op == String::from_str("<") {
            Some(CBinOps::Lt)
        } else if op == String::from_str(">") {
            Some(CBinOps::Gt)
        } else if op == String::from_str("<=") {
            Some(CBinOps::Le)
        } else if op == String::from_str(">=") {
            Some(CBinOps::Ge)
        } else if op == String::from_str("<<") {
            Some(CBinOps::Shl)
        } else if op == String::from_str(">>") {
            Some(CBinOps::Shr)
        } else {
            None
        }
    }

    /// Whether the operation is defined on two constants.
    pub fn is_defined(self, lhs: i32, rhs: i32) -> (b: bool)
        ensures
            b == self.defined(lhs as int, rhs as int),
    {
        match self {
            CBinOps::Add => {
                let sum: i64 = lhs as i64 + rhs as i64;
                -0x8000_0000 <= sum && sum <= 0x7fff_ffff
            },
            CBinOps::Sub => {
                let difference: i64 = lhs as i64 - rhs as i64;
                -0x8000_0000 <= difference && difference <= 0x7fff_ffff
            },
            CBinOps::Mul => {
                proof {
                    lemma_product_bound(lhs as int, rhs as int);
                }
                let product: i64 = lhs as i64 * rhs as i64;
                -0x8000_0000 <= product && product <= 0x7fff_ffff
            },
            CBinOps::Div | CBinOps::Rem => rhs != 0 && !(lhs == i32::MIN && rhs == -1),
            CBinOps::Shl | CBinOps::Shr => 0 <= rhs && rhs < 32,
            _ => true,
        }
    }

    /// Folds the operation on two constants.
    pub fn fold(self, lhs: i32, rhs: i32) -> (n: i32)
        requires
            self.defined(lhs as int, rhs as int),
        ensures
            n == self.apply(lhs as int, rhs as int),
    {
        match self {
            CBinOps::Add => lhs + rhs,
            CBinOps::Sub => lhs - rhs,
            CBinOps::Mul => lhs * rhs,
            CBinOps::Div => {
                proof {
                    lemma_quotient_fits(lhs as int, rhs as int);
                }
                lhs / rhs
            },
            CBinOps::Rem => lhs % rhs,
            CBinOps::And => lhs & rhs,
            CBinOps::Or => lhs | rhs,
            CBinOps::Xor => lhs ^ rhs,
            CBinOps::LAnd => (lhs != 0 && rhs != 0) as i32,
            CBinOps::LOr => (lhs != 0 || rhs != 0) as i32,
            CBinOps::Eq => (lhs == rhs) as i32,
            CBinOps::Ne => (lhs != rhs) as i32,
            CBinOps::Lt => (lhs < rhs) as i32,
            CBinOps::Gt => (lhs > rhs) as i32,
            CBinOps::Le => (lhs <= rhs) as i32,
            CBinOps::Ge => (lhs >= rhs) as i32,
            CBinOps::Shl => lhs << rhs,
            CBinOps::Shr => lhs >> rhs,
        }
    }
}

/// The product of two 32-bit signed integers fits in 64 bits.
proof fn lemma_product_bound(a: int, b: int)
    requires
        i32::MIN <= a <= i32::MAX,
        i32::MIN <= b <= i32::MAX,
    ensures
        -0x4000_0000_0000_0000 <= a * b <= 0x4000_0000_0000_0000,
{
    assert(-0x4000_0000_0000_0000 <= a * b <= 0x4000_0000_0000_0000) by (nonlinear_arith)
        requires
            -0x8000_0000 <= a <= 0x7fff_ffff,
            -0x8000_0000 <= b <= 0x7fff_ffff,
    ;
}

/// The quotient of a number that is not negative lies between that number
/// and its negative, and the bound below is met by the divisor -1 alone.
proof fn lemma_quotient_bound(a: int, b: int)
    requires
        a >= 0,
        b != 0,
    ensures
        -a <= a / b <= a,
        b != -1 ==> -a < a / b || a == 0,
{
    vstd::arithmetic::div_mod::lemma_fundamental_div_mod(a, b);
    if b > 0 {
        vstd::arithmetic::div_mod::lemma_div_pos_is_pos(a, b);
        vstd::arithmetic::div_mod::lemma_mod_pos_bound(a, b);
        assert(a / b <= a) by (nonlinear_arith)
            requires
                a == b * (a / b) + a % b,
                0 <= a % b,
                b >= 1,
                a / b >= 0,
        ;
    } else {
        assert(0 <= a % b < -b) by {
            vstd::arithmetic::div_mod::lemma_mod_pos_bound(a, -b);
            assert(a % b == a % (-b)) by (nonlinear_arith)
                requires
                    b < 0,
            ;
        }
        assert(-a <= a / b <= a && (b != -1 ==> -a < a / b || a == 0)) by (nonlinear_arith)
            requires
                a == b * (a / b) + a % b,
                0 <= a % b < -b,
                b <= -1,
                a >= 0,
        ;
    }
}

/// A quotient of 32-bit signed integers is one, but for the least integer
/// divided by -1.
proof fn lemma_quotient_fits(a: int, b: int)
    requires
        i32::MIN <= a <= i32::MAX,
        b != 0,
        !(a == i32::MIN && b == -1),
    ensures
        i32::MIN <= trunc_div(a, b) <= i32::MAX,
{
    if a >= 0 {
        lemma_quotient_bound(a, b);
    } else {
        lemma_quotient_bound(-a, b);
    }
}

impl BinaryOpAst {
    /// The operation that `op` spells on `lhs` and `rhs`. `None` where `op`
    /// spells no binary operator.
    pub fn new(lhs: Rc<AST>, rhs: Rc<AST>, op: String) -> (r: Option<BinaryOpAst>)
        ensures
            match r {
                Some(node) => CBinOps::spelled(op@) == Some(node.op) && node.lhs == lhs && node.rhs
                    == rhs,
                None => CBinOps::spelled(op@) is None,
            },
    {
        match CBinOps::from_symbol(op.as_str()) {
            Some(cop) => Some(BinaryOpAst { lhs, rhs, op: cop }),
            None => None,
        }
    }

    /// Whether the operation folds to a constant: both operands do, and the
    /// operator is defined on their values.
    pub open spec fn foldable(&self) -> bool
        decreases self,
    {
        &&& self.lhs.foldable()
        &&& self.rhs.foldable()
        &&& self.op.defined(self.lhs.value(), self.rhs.value())
    }

    /// The value of the operation: the operator applied to the values of
    /// the operands.
    pub open spec fn value(&self) -> int
        decreases self,
    {
        self.op.apply(self.lhs.value(), self.rhs.value())
    }

    /// Folds the operation to its value.
    pub fn eval_constexpr(&self) -> (n: i32)
        requires
            self.foldable(),
        ensures
            n == self.value(),
        decreases self,
    {
        let lhs = self.lhs.eval_constexpr();
        let rhs = self.rhs.eval_constexpr();
        self.op.fold(lhs, rhs)
    }

    /// Folds the operation to its value where it folds, and says where it
    /// does not.
    pub fn try_eval_constexpr(&self) -> (r: Option<i32>)
        ensures
            r == if self.foldable() {
                Some(self.value() as i32)
            } else {
                None
            },
            self.foldable() ==> i32::MIN <= self.value() <= i32::MAX,
        decreases self,
    {
        let lhs = match self.lhs.try_eval_constexpr() {
            Some(n) => n,
            None => {
                return None;
            },
        };
        let rhs = match self.rhs.try_eval_constexpr() {
            Some(n) => n,
            None => {
                return None;
            },
        };
        if self.op.is_defined(lhs, rhs) {
            Some(self.op.fold(lhs, rhs))
        } else {
            None
        }
    }
}

impl AST {
    /// Whether the tree is a constant expression that folds: its leaves are
    /// integers and each of its operations is defined.
    pub open spec fn foldable(&self) -> bool
        decreases self,
    {
        match self {
            AST::Int(_) => true,
            AST::BinaryOp(bin) => bin.foldable(),
            _ => false,
        }
    }

    /// The value of a constant expression.
    pub open spec fn value(&self) -> int
        decreases self,
    {
        match self {
            AST::Int(n) => *n as int,
            AST::BinaryOp(bin) => bin.value(),
            _ => 0,
        }
    }

    /// Folds a constant expression to its value.
    pub fn eval_constexpr(&self) -> (n: i32)
        requires
            self.foldable(),
        ensures
            n == self.value(),
        decreases self,
    {
        match self {
            AST::Int(n) => *n,
            AST::BinaryOp(bin) => bin.eval_constexpr(),
            _ => vstd::pervasive::unreached(),
        }
    }

    /// Folds a constant expression to its value, and says where the tree
    /// is none that folds: where it holds a leaf that is no integer, or an
    /// operation that is not defined on its operands.
    pub fn try_eval_constexpr(&self) -> (r: Option<i32>)
        ensures
            r == if self.foldable() {
                Some(self.value() as i32)
            } else {
                None
            },
            self.foldable() ==> i32::MIN <= self.value() <= i32::MAX,
        decreases self,
    {
        match self {
            AST::Int(n) => Some(*n),
            AST::BinaryOp(bin) => bin.try_eval_constexpr(),
            _ => None,
        }
    }
}

} // verus!
