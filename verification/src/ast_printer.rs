use vstd::prelude::*;

use crate::ast::{Expr, ExprV};
use crate::entities::{LiteralValue, LiteralView};
use crate::text::{decimal, decimal_string};

verus! {

/// The name for the `Debug` text of a string: the string in double quotes,
/// with the characters that need it escaped.
pub uninterp spec fn debug_str(s: Seq<char>) -> Seq<char>;

/// `<str as Debug>::fmt` (through `format!("{:?}")`): the string quoted and
/// escaped. What that text is, is left to the name `debug_str`.
#[verifier::external_body]
fn debug_quoted(s: &str) -> (r: String)
    ensures
        r@ == debug_str(s@),
{
    format!("{:?}", s)
}

/// A piece of a printed syntax tree: text, or a number given by its
/// numeral. A number prints as the `Debug` text of the floating-point
/// number it stands for (`1` prints as `1.0`); writing that text is left to
/// the caller, as floating point is.
#[derive(Debug)]
pub enum Piece {
    Text(String),
    Number(String),
}

/// The model of a [`Piece`].
pub enum PieceView {
    Text(Seq<char>),
    Number(Seq<char>),
}

impl View for Piece {
    type V = PieceView;

    open spec fn view(&self) -> PieceView {
        match self {
            Piece::Text(s) => PieceView::Text(s@),
            Piece::Number(t) => PieceView::Number(t@),
        }
    }
}

/// The models of a sequence of pieces.
pub open spec fn pieces_view(s: Seq<Piece>) -> Seq<PieceView> {
    s.map_values(|p: Piece| p@)
}

/// One piece of text.
pub open spec fn text(s: Seq<char>) -> Seq<PieceView> {
    seq![PieceView::Text(s)]
}

/// How a literal value prints in syntax trees: its variant and contents (a
/// number as a number piece, a string quoted, a handle by its number).
pub open spec fn literal_pieces(v: LiteralView) -> Seq<PieceView> {
    match v {
        LiteralView::Num(t) => text("Num("@) + seq![PieceView::Number(t)] + text(")"@),
        LiteralView::Str(s) => text("Str("@ + debug_str(s) + ")"@),
        LiteralView::Bool(b) => if b {
            text("Bool(true)"@)
        } else {
            text("Bool(false)"@)
        },
        LiteralView::Func(h) => text("Func("@ + decimal(h as nat) + ")"@),
        LiteralView::Class(h) => text("Class("@ + decimal(h as nat) + ")"@),
        LiteralView::Instance(h) => text("Instance("@ + decimal(h as nat) + ")"@),
        LiteralView::Native(h) => text("Native("@ + decimal(h as nat) + ")"@),
        LiteralView::Nil => text("Nil"@),
        LiteralView::ArithmeticError => text("ArithmeticError"@),
        LiteralView::NumsOrStringsError => text("NumsOrStringsError"@),
    }
}

/// The printed form of an expression: assignments, binary and unary
/// operations and groupings in prefix form, literals as above, and the
/// other kinds as nothing.
pub open spec fn print_expr(e: ExprV) -> Seq<PieceView>
    decreases e,
{
    match e {
        ExprV::Assign { name, value } => text("(= "@ + name.lexeme + " "@) + print_expr(*value) + text(
            ")"@,
        ),
        ExprV::Binary { left, operator, right } => text("("@ + operator.lexeme + " "@) + print_expr(
            *left,
        ) + text(" "@) + print_expr(*right) + text(")"@),
        ExprV::Grouping { expression } => text("("@) + print_expr(*expression) + text(")"@),
        ExprV::Literal { value } => match value {
            Some(v) => literal_pieces(v),
            None => text("None"@),
        },
        ExprV::Unary { operator, right } => text("("@ + operator.lexeme + "("@) + print_expr(*right)
            + text("))"@),
        _ => Seq::empty(),
    }
}

/// Adds a piece of text.
fn push_text(out: &mut Vec<Piece>, s: String)
    ensures
        pieces_view(final(out)@) == pieces_view(old(out)@) + text(s@),
{
    let ghost before = out@;
    let ghost sv = s@;
    out.push(Piece::Text(s));
    assert(pieces_view(out@) =~= pieces_view(before) + text(sv));
}

/// Adds the pieces of `more`.
fn push_all(out: &mut Vec<Piece>, more: Vec<Piece>)
    ensures
        pieces_view(final(out)@) == pieces_view(old(out)@) + pieces_view(more@),
{
    let ghost before = out@;
    let ghost m = more@;
    let mut more = more;
    out.append(&mut more);
    assert(pieces_view(out@) =~= pieces_view(before) + pieces_view(m));
}

/// The text made of `a` and then `b`.
fn joined(a: &str, b: &str) -> (r: String)
    ensures
        r@ == a@ + b@,
{
    let mut s = String::from_str(a);
    s.append(b);
    s
}

/// A walk over a syntax tree that gives a `T`.
pub trait Walker<T> {
    /// Walks the expression `e`.
    fn walk(e: &Expr) -> T;
}

/// Prints syntax trees in prefix form.
pub struct AstPrinter;

impl AstPrinter {
    /// How a literal value prints.
    pub fn literal(v: &LiteralValue) -> (r: Vec<Piece>)
        ensures
            pieces_view(r@) == literal_pieces(v@),
    {
        let mut out: Vec<Piece> = Vec::new();
        let s = match v {
            LiteralValue::Num(t) => {
                push_text(&mut out, String::from_str("Num("));
                let ghost before = out@;
                out.push(Piece::Number(t.clone()));
                assert(pieces_view(out@) =~= pieces_view(before) + seq![PieceView::Number(t@)]);
                String::from_str(")")
            },
            LiteralValue::Str(s) => {
                let mut r = joined("Str(", debug_quoted(s.as_str()).as_str());
                r.append(")");
                r
            },
            LiteralValue::Bool(b) => if *b {
                String::from_str("Bool(true)")
            } else {
                String::from_str("Bool(false)")
            },
            LiteralValue::Func(h) => {
                let mut r = joined("Func(", decimal_string(*h as u128).as_str());
                r.append(")");
                r
            },
            LiteralValue::Class(h) => {
                let mut r = joined("Class(", decimal_string(*h as u128).as_str());
                r.append(")");
                r
            },
            LiteralValue::Instance(h) => {
                let mut r = joined("Instance(", decimal_string(*h as u128).as_str());
                r.append(")");
                r
            },
            LiteralValue::Native(h) => {
                let mut r = joined("Native(", decimal_string(*h as u128).as_str());
                r.append(")");
                r
            },
            LiteralValue::Nil => String::from_str("Nil"),
            LiteralValue::ArithmeticError => String::from_str("ArithmeticError"),
            LiteralValue::NumsOrStringsError => String::from_str("NumsOrStringsError"),
        };
        push_text(&mut out, s);
        proof {
            assert(pieces_view(Seq::<Piece>::empty()) =~= Seq::<PieceView>::empty());
            if !(v@ is Num) {
                assert(Seq::<PieceView>::empty() + text(s@) =~= text(s@));
            }
        }
        out
    }
}

impl Walker<Vec<Piece>> for AstPrinter {
    /// The printed form of an expression.
    fn walk(e: &Expr) -> (r: Vec<Piece>)
        ensures
            pieces_view(r@) == print_expr(e@),
        decreases e,
    {
        let mut out: Vec<Piece> = Vec::new();
        proof {
            assert(pieces_view(out@) =~= Seq::<PieceView>::empty());
        }
        match e {
            Expr::Assign(a) => {
                let mut h = joined("(= ", a.name.lexeme.as_str());
                h.append(" ");
                push_text(&mut out, h);
                push_all(&mut out, Self::walk(&a.value));
                push_text(&mut out, String::from_str(")"));
            },
            Expr::Binary(b) => {
                let mut h = joined("(", b.operator.lexeme.as_str());
                h.append(" ");
                push_text(&mut out, h);
                push_all(&mut out, Self::walk(&b.left));
                push_text(&mut out, String::from_str(" "));
                push_all(&mut out, Self::walk(&b.right));
                push_text(&mut out, String::from_str(")"));
            },
            Expr::Grouping(g) => {
                push_text(&mut out, String::from_str("("));
                push_all(&mut out, Self::walk(&g.expression));
                push_text(&mut out, String::from_str(")"));
            },
            Expr::Literal(l) => match &l.value {
                Some(v) => {
                    push_all(&mut out, Self::literal(v));
                },
                None => {
                    push_text(&mut out, String::from_str("None"));
                },
            },
            Expr::Unary(u) => {
                let mut h = joined("(", u.operator.lexeme.as_str());
                h.append("(");
                push_text(&mut out, h);
                push_all(&mut out, Self::walk(&u.right));
                push_text(&mut out, String::from_str("))"));
            },
            _ => {},
        }
        proof {
            let ev = e@;
            assert(pieces_view(out@) =~= print_expr(ev));
        }
        out
    }
}

} // verus!
