//! Expressions and guarded commands as text, for diagnostics.

use vstd::prelude::*;
use crate::expr::{Expr, ExprKind, ExprKindView, ExprView, Op, PrefixOp};
use crate::ivl0::{IVL0Stmt, IVL0StmtKind, IVL0StmtKindView, IVL0StmtView};

verus! {

/// The decimal digit `d`.
pub open spec fn digit_text(d: nat) -> Seq<char> {
    if d == 0 {
        "0"@
    } else if d == 1 {
        "1"@
    } else if d == 2 {
        "2"@
    } else if d == 3 {
        "3"@
    } else if d == 4 {
        "4"@
    } else if d == 5 {
        "5"@
    } else if d == 6 {
        "6"@
    } else if d == 7 {
        "7"@
    } else if d == 8 {
        "8"@
    } else {
        "9"@
    }
}

/// The decimal numeral of `n`, without leading zeros.
pub open spec fn numeral(n: nat) -> Seq<char>
    decreases n,
{
    if n < 10 {
        digit_text(n)
    } else {
        numeral(n / 10) + digit_text(n % 10)
    }
}

/// The decimal numeral of `n`, with a minus sign where it is negative.
pub open spec fn signed_numeral(n: int) -> Seq<char> {
    if n < 0 {
        "-"@ + numeral((-n) as nat)
    } else {
        numeral(n as nat)
    }
}

impl PrefixOp {
    /// The operator as text.
    pub open spec fn text(self) -> Seq<char> {
        match self {
            PrefixOp::Not => "!"@,
            PrefixOp::Neg => "-"@,
        }
    }

    fn symbol(self) -> (res: &'static str)
        ensures
            res@ == self.text(),
    {
        match self {
            PrefixOp::Not => "!",
            PrefixOp::Neg => "-",
        }
    }
}

impl Op {
    /// The operator as text.
    pub open spec fn text(self) -> Seq<char> {
        match self {
            Op::And => "&&"@,
            Op::Or => "||"@,
            Op::Imp => "==>"@,
            Op::Eq => "=="@,
            Op::Ne => "!="@,
            Op::Lt => "<"@,
            Op::Le => "<="@,
            Op::Gt => ">"@,
            Op::Ge => ">="@,
            Op::Add => "+"@,
            Op::Sub => "-"@,
            Op::Mul => "*"@,
        }
    }

    fn symbol(self) -> (res: &'static str)
        ensures
            res@ == self.text(),
    {
        match self {
            Op::And => "&&",
            Op::Or => "||",
            Op::Imp => "==>",
            Op::Eq => "==",
            Op::Ne => "!=",
            Op::Lt => "<",
            Op::Le => "<=",
            Op::Gt => ">",
            Op::Ge => ">=",
            Op::Add => "+",
            Op::Sub => "-",
            Op::Mul => "*",
        }
    }
}

impl ExprView {
    /// The expression as text: literals and variables as they are, a solver
    /// symbol as its variable, `#` and its number, an operator of one operand
    /// before it, and one of two operands between them, in parentheses.
    pub open spec fn text(self) -> Seq<char>
        decreases self,
    {
        match self.kind {
            ExprKindView::Bool(b) => if b {
                "true"@
            } else {
                "false"@
            },
            ExprKindView::Num(n) => signed_numeral(n),
            ExprKindView::Ident(x) => x,
            ExprKindView::Symbol(x, index) => x + "#"@ + numeral(index),
            ExprKindView::Prefix(op, e) => op.text() + e.text(),
            ExprKindView::Infix(l, op, r) => "("@ + l.text() + " "@ + op.text() + " "@ + r.text()
                + ")"@,
        }
    }
}

/// Appends the decimal digit `d` to `out`.
fn write_digit(d: u64, out: &mut String)
    requires
        d < 10,
    ensures
        final(out)@ == old(out)@ + digit_text(d as nat),
{
    if d == 0 {
        out.append("0");
    } else if d == 1 {
        out.append("1");
    } else if d == 2 {
        out.append("2");
    } else if d == 3 {
        out.append("3");
    } else if d == 4 {
        out.append("4");
    } else if d == 5 {
        out.append("5");
    } else if d == 6 {
        out.append("6");
    } else if d == 7 {
        out.append("7");
    } else if d == 8 {
        out.append("8");
    } else {
        out.append("9");
    }
}

/// Appends the decimal numeral of `n` to `out`.
fn write_numeral(n: u64, out: &mut String)
    ensures
        final(out)@ == old(out)@ + numeral(n as nat),
    decreases n,
{
    if n < 10 {
        write_digit(n, out);
    } else {
        write_numeral(n / 10, out);
        write_digit(n % 10, out);
        assert(out@ =~= old(out)@ + numeral(n as nat));
    }
}

/// Appends the decimal numeral of `n` to `out`.
fn write_signed(n: i64, out: &mut String)
    ensures
        final(out)@ == old(out)@ + signed_numeral(n as int),
{
    if n < 0 {
        out.append("-");
        let magnitude: u64 = (-(n + 1)) as u64 + 1;
        write_numeral(magnitude, out);
        assert(out@ =~= old(out)@ + signed_numeral(n as int));
    } else {
        write_numeral(n as u64, out);
    }
}

impl Expr {
    /// Appends the text of the expression to `out`.
    fn write(&self, out: &mut String)
        ensures
            final(out)@ == old(out)@ + self@.text(),
        decreases self,
    {
        match &self.kind {
            ExprKind::Bool(b) => {
                if *b {
                    out.append("true");
                } else {
                    out.append("false");
                }
            },
            ExprKind::Num(n) => {
                write_signed(*n, out);
            },
            ExprKind::Ident(x) => {
                out.append(x.ident.as_str());
            },
            ExprKind::Symbol(x, index) => {
                out.append(x.ident.as_str());
                out.append("#");
                write_numeral(*index, out);
                assert(out@ =~= old(out)@ + self@.text());
            },
            ExprKind::Prefix(op, e) => {
                out.append(op.symbol());
                e.write(out);
                assert(out@ =~= old(out)@ + self@.text());
            },
            ExprKind::Infix(l, op, r) => {
                out.append("(");
                l.write(out);
                out.append(" ");
                out.append(op.symbol());
                out.append(" ");
                r.write(out);
                out.append(")");
                assert(out@ =~= old(out)@ + self@.text());
            },
        }
    }

    /// The expression as text.
    pub fn to_string(&self) -> (res: String)
        ensures
            res@ == self@.text(),
    {
        let mut out = String::new();
        self.write(&mut out);
        assert(out@ =~= self@.text());
        out
    }
}

impl IVL0StmtView {
    /// The command as text: `a ; b` for a sequence and `{a} [] {b}` for a
    /// choice. The message of an assertion, the type of a havoc and the
    /// locations are not shown.
    pub open spec fn text(self) -> Seq<char>
        decreases self,
    {
        match self.kind {
            IVL0StmtKindView::Assignment { name, expr } => name + " := "@ + expr.text(),
            IVL0StmtKindView::Havoc { name, .. } => "havoc "@ + name,
            IVL0StmtKindView::Assume { condition } => "assume "@ + condition.text(),
            IVL0StmtKindView::Assert { condition, .. } => "assert "@ + condition.text(),
            IVL0StmtKindView::Sequence(a, b) => a.text() + " ; "@ + b.text(),
            IVL0StmtKindView::NonDet(a, b) => "{"@ + a.text() + "} [] {"@ + b.text() + "}"@,
        }
    }
}

impl IVL0Stmt {
    /// Appends the text of the command to `out`.
    fn write(&self, out: &mut String)
        ensures
            final(out)@ == old(out)@ + self@.text(),
        decreases self,
    {
        match &self.kind {
            IVL0StmtKind::Assignment { name, expr } => {
                out.append(name.ident.as_str());
                out.append(" := ");
                expr.write(out);
                assert(out@ =~= old(out)@ + self@.text());
            },
            IVL0StmtKind::Havoc { name, .. } => {
                out.append("havoc ");
                out.append(name.ident.as_str());
                assert(out@ =~= old(out)@ + self@.text());
            },
            IVL0StmtKind::Assume { condition } => {
                out.append("assume ");
                condition.write(out);
                assert(out@ =~= old(out)@ + self@.text());
            },
            IVL0StmtKind::Assert { condition, .. } => {
                out.append("assert ");
                condition.write(out);
                assert(out@ =~= old(out)@ + self@.text());
            },
            IVL0StmtKind::Sequence(a, b) => {
                a.write(out);
                out.append(" ; ");
                b.write(out);
                assert(out@ =~= old(out)@ + self@.text());
            },
            IVL0StmtKind::NonDet(a, b) => {
                out.append("{");
                a.write(out);
                out.append("} [] {");
                b.write(out);
                out.append("}");
                assert(out@ =~= old(out)@ + self@.text());
            },
        }
    }

    /// The command as text.
    pub fn to_string(&self) -> (res: String)
        ensures
            res@ == self@.text(),
    {
        let mut out = String::new();
        self.write(&mut out);
        assert(out@ =~= self@.text());
        out
    }
}

/// The text does not tell every command from every other: two assertions of
/// one condition under different messages read the same, and so do the two
/// ways to nest three commands in sequence. No reading of the text can give
/// back the command that was written.
pub proof fn lemma_text_forgets(
    condition: ExprView,
    first: Seq<char>,
    second: Seq<char>,
    a: IVL0StmtView,
    b: IVL0StmtView,
    c: IVL0StmtView,
)
    ensures
        IVL0StmtView::asserting(condition, first).text() == IVL0StmtView::asserting(
            condition,
            second,
        ).text(),
        a.seq(b.seq(c)).text() == a.seq(b).seq(c).text(),
{
    assert(b.seq(c).text() == b.text() + " ; "@ + c.text());
    assert(a.seq(b).text() == a.text() + " ; "@ + b.text());
    assert(a.seq(b.seq(c)).text() =~= a.seq(b).seq(c).text());
}

} // verus!
