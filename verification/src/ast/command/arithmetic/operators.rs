//! The operators of arithmetic expressions.

use vstd::prelude::*;

use crate::text::owned;

verus! {

#[derive(Debug, Clone, Copy, PartialEq, Eq, Structural)]
pub enum Unary {
    /// Unary plus, ex: `+x`
    Add,
    /// Unary minus, ex: `-x`
    Sub,
    /// Logical not, ex: `!x`
    Not,
    /// Bitwise not, ex: `~x`
    BitNot,
}

/// The text of a unary operator.
pub open spec fn unary_text(op: Unary) -> Seq<char> {
    match op {
        Unary::Add => seq!['+'],
        Unary::Sub => seq!['-'],
        Unary::Not => seq!['!'],
        Unary::BitNot => seq!['~'],
    }
}

impl Unary {
    pub fn display(&self) -> (r: String)
        ensures
            r@ == unary_text(*self),
    {
        let s = match self {
            Unary::Add => {
                proof {
                    reveal_strlit("+");
                }
                "+"
            },
            Unary::Sub => {
                proof {
                    reveal_strlit("-");
                }
                "-"
            },
            Unary::Not => {
                proof {
                    reveal_strlit("!");
                }
                "!"
            },
            Unary::BitNot => {
                proof {
                    reveal_strlit("~");
                }
                "~"
            },
        };
        let r = owned(s);
        assert(r@ =~= unary_text(*self));
        r
    }
}

#[derive(Debug, Clone, Copy, PartialEq, Eq, Structural)]
pub enum Binary {
    /// Addition, ex: `x + y`
    Add,
    /// Subtraction, ex: `x - y`
    Sub,
    /// Multiplication, ex: `x * y`
    Mul,
    /// Division, ex: `x / y`
    Div,
    /// Modulo, ex: `x % y`
    Mod,
    /// Exponentiation, ex: `x ** y`
    Pow,
    /// Comma, ex: `x, y`
    Comma,
    /// Lower than, ex: `x < y`
    Lt,
    /// Lower than or equal to, ex: `x <= y`
    Lte,
    /// Greater than, ex: `x > y`
    Gt,
    /// Greater than or equal to, ex: `x >= y`
    Gte,
    /// Equal to, ex: `x == y`
    Eq,
    /// Not equal to, ex: `x != y`
    Ne,
    /// Logical and, ex: `x && y`
    And,
    /// Logical or, ex: `x || y`
    Or,
    /// Bitwise and, ex: `x & y`
    BitAnd,
    /// Bitwise or, ex: `x | y`
    BitOr,
    /// Bitwise xor, ex: `x ^ y`
    BitXor,
    /// Bitwise left shift, ex: `x << y`
    ShiftL,
    /// Bitwise right shift, ex: `x >> y`
    ShiftR,
}

/// The text of a binary operator.
pub open spec fn binary_text(op: Binary) -> Seq<char> {
    match op {
        Binary::Add => seq!['+'],
        Binary::Sub => seq!['-'],
        Binary::Mul => seq!['*'],
        Binary::Div => seq!['/'],
        Binary::Mod => seq!['%'],
        Binary::Pow => seq!['*', '*'],
        Binary::Comma => seq![','],
        Binary::Lt => seq!['<'],
        Binary::Lte => seq!['<', '='],
        Binary::Gt => seq!['>'],
        Binary::Gte => seq!['>', '='],
        Binary::Eq => seq!['=', '='],
        Binary::Ne => seq!['!', '='],
        Binary::And => seq!['&', '&'],
        Binary::Or => seq!['|', '|'],
        Binary::BitAnd => seq!['&'],
        Binary::BitOr => seq!['|'],
        Binary::BitXor => seq!['^'],
        Binary::ShiftL => seq!['<', '<'],
        Binary::ShiftR => seq!['>', '>'],
    }
}

impl Binary {
    pub fn display(&self) -> (r: String)
        ensures
            r@ == binary_text(*self),
    {
        let s = match self {
            Binary::Add => {
                proof {
                    reveal_strlit("+");
                }
                "+"
            },
            Binary::Sub => {
                proof {
                    reveal_strlit("-");
                }
                "-"
            },
            Binary::Mul => {
                proof {
                    reveal_strlit("*");
                }
                "*"
            },
            Binary::Div => {
                proof {
                    reveal_strlit("/");
                }
                "/"
            },
            Binary::Mod => {
                proof {
                    reveal_strlit("%");
                }
                "%"
            },
            Binary::Pow => {
                proof {
                    reveal_strlit("**");
                }
                "**"
            },
            Binary::Comma => {
                proof {
                    reveal_strlit(",");
                }
                ","
            },
            Binary::Lt => {
                proof {
                    reveal_strlit("<");
                }
                "<"
            },
            Binary::Lte => {
                proof {
                    reveal_strlit("<=");
                }
                "<="
            },
            Binary::Gt => {
                proof {
                    reveal_strlit(">");
                }
                ">"
            },
            Binary::Gte => {
                proof {
                    reveal_strlit(">=");
                }
                ">="
            },
            Binary::Eq => {
                proof {
                    reveal_strlit("==");
                }
                "=="
            },
            Binary::Ne => {
                proof {
                    reveal_strlit("!=");
                }
                "!="
            },
            Binary::And => {
                proof {
                    reveal_strlit("&&");
                }
                "&&"
            },
            Binary::Or => {
                proof {
                    reveal_strlit("||");
                }
                "||"
            },
            Binary::BitAnd => {
                proof {
                    reveal_strlit("&");
                }
                "&"
            },
            Binary::BitOr => {
                proof {
                    reveal_strlit("|");
                }
                "|"
            },
            Binary::BitXor => {
                proof {
                    reveal_strlit("^");
                }
                "^"
            },
            Binary::ShiftL => {
                proof {
                    reveal_strlit("<<");
                }
                "<<"
            },
            Binary::ShiftR => {
                proof {
                    reveal_strlit(">>");
                }
                ">>"
            },
        };
        let r = owned(s);
        assert(r@ =~= binary_text(*self));
        r
    }
}

} // verus!
