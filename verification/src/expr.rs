//! Expression trees, the visitor that traverses them, and the printer that
//! renders a tree in fully parenthesized prefix form.

use vstd::prelude::*;
use vstd::string::StringExecFns;
use crate::number::{is_decimal, lemma_decimal_chars};
use crate::token::{literal_view, DataType, LiteralValue, Token};

verus! {

/// An expression: a strict tree in which every node owns its children.
#[derive(Debug, PartialEq, Eq)]
pub enum Expr {
    /// A binary operation: left operand, operator, right operand.
    Binary(Box<Expr>, Token, Box<Expr>),
    /// A parenthesized expression.
    Grouping(Box<Expr>),
    /// A literal value, or the absence of one.
    Literal(Option<DataType>),
    /// A unary operation: operator, operand.
    Unary(Token, Box<Expr>),
}

/// The text of a literal leaf: the textual form of its value, or `None`
/// where there is no value.
pub open spec fn literal_text(literal: Option<LiteralValue>) -> Seq<char> {
    match literal {
        Some(value) => value.text(),
        None => "None"@,
    }
}

/// The canonical text of an expression: a literal is its text, and every
/// other node is a parenthesized list that starts with the operator's lexeme,
/// or with `group`, and goes on with the rendered children, separated by
/// single spaces.
pub open spec fn render(expr: Expr) -> Seq<char>
    decreases expr,
{
    match expr {
        Expr::Binary(left, operator, right) => "("@ + operator.lexeme@ + " "@ + render(*left) + " "@
            + render(*right) + ")"@,
        Expr::Grouping(inner) => "(group "@ + render(*inner) + ")"@,
        Expr::Literal(literal) => literal_text(literal_view(literal)),
        Expr::Unary(operator, operand) => "("@ + operator.lexeme@ + " "@ + render(*operand) + ")"@,
    }
}

/// A traversal of expressions with one result type: a visitor handles every
/// variant of `Expr` in its one operation.
pub trait Visitor<T> {
    fn visit_expr(expr: &Expr) -> T;
}

/// The visitor that renders an expression as canonical text.
pub struct AstPrinter {}

impl Visitor<String> for AstPrinter {
    fn visit_expr(expr: &Expr) -> (text: String)
        ensures
            text@ == render(*expr),
        decreases expr,
    {
        match expr {
            Expr::Binary(left, operator, right) => {
                let mut text = "(".to_owned();
                text.append(operator.lexeme.as_str());
                text.append(" ");
                text.append(AstPrinter::visit_expr(left).as_str());
                text.append(" ");
                text.append(AstPrinter::visit_expr(right).as_str());
                text.append(")");
                text
            },
            Expr::Grouping(inner) => {
                let mut text = "(group ".to_owned();
                text.append(AstPrinter::visit_expr(inner).as_str());
                text.append(")");
                text
            },
            Expr::Literal(literal) => {
                match literal {
                    Some(value) => value.to_string(),
                    None => "None".to_owned(),
                }
            },
            Expr::Unary(operator, operand) => {
                let mut text = "(".to_owned();
                text.append(operator.lexeme.as_str());
                text.append(" ");
                text.append(AstPrinter::visit_expr(operand).as_str());
                text.append(")");
                text
            },
        }
    }
}

/// All that the canonical text of an expression depends on: the shape of the
/// tree, the lexemes of its operators and the texts of its literals.
pub enum Outline {
    Binary(Box<Outline>, Seq<char>, Box<Outline>),
    Grouping(Box<Outline>),
    Literal(Seq<char>),
    Unary(Seq<char>, Box<Outline>),
}

/// The outline of an expression.
pub open spec fn outline(expr: Expr) -> Outline
    decreases expr,
{
    match expr {
        Expr::Binary(left, operator, right) => Outline::Binary(
            Box::new(outline(*left)),
            operator.lexeme@,
            Box::new(outline(*right)),
        ),
        Expr::Grouping(inner) => Outline::Grouping(Box::new(outline(*inner))),
        Expr::Literal(literal) => Outline::Literal(literal_text(literal_view(literal))),
        Expr::Unary(operator, operand) => Outline::Unary(
            operator.lexeme@,
            Box::new(outline(*operand)),
        ),
    }
}

/// The characters that give the canonical text its structure.
pub open spec fn is_delimiter(c: char) -> bool {
    c == ' ' || c == '(' || c == ')'
}

/// A text without spaces and parentheses.
pub open spec fn is_word(text: Seq<char>) -> bool {
    forall|i: int| 0 <= i < text.len() ==> !is_delimiter(#[trigger] text[i])
}

/// An expression whose canonical text can be read back: every operator lexeme
/// and every literal text is a word, and no unary operator is spelled
/// `group`.
pub open spec fn plain(expr: Expr) -> bool
    decreases expr,
{
    match expr {
        Expr::Binary(left, operator, right) => {
            &&& is_word(operator.lexeme@)
            &&& plain(*left)
            &&& plain(*right)
        },
        Expr::Grouping(inner) => plain(*inner),
        Expr::Literal(literal) => is_word(literal_text(literal_view(literal))),
        Expr::Unary(operator, operand) => {
            &&& is_word(operator.lexeme@)
            &&& operator.lexeme@ != "group"@
            &&& plain(*operand)
        },
    }
}

/// Booleans, numbers, `Nil` and the absent literal have words as their texts:
/// only a string literal can keep an expression from being plain.
pub proof fn lemma_literal_is_word(literal: Option<LiteralValue>)
    requires
        !(literal matches Some(LiteralValue::String(_))),
        literal matches Some(LiteralValue::Number(numeral)) ==> is_decimal(numeral),
    ensures
        is_word(literal_text(literal)),
{
    reveal_strlit("true");
    reveal_strlit("false");
    reveal_strlit("Nil");
    reveal_strlit("None");
    if let Some(LiteralValue::Number(numeral)) = literal {
        lemma_decimal_chars(numeral);
    }
}

/// The canonical text depends on the outline alone: expressions with the
/// same shape, operator lexemes and literal texts render identically,
/// whatever the categories and lines of their tokens and the kinds of their
/// literals.
pub proof fn lemma_render_by_outline(a: Expr, b: Expr)
    requires
        outline(a) == outline(b),
    ensures
        render(a) == render(b),
    decreases a,
{
    match (a, b) {
        (Expr::Binary(la, _, ra), Expr::Binary(lb, _, rb)) => {
            lemma_render_by_outline(*la, *lb);
            lemma_render_by_outline(*ra, *rb);
        },
        (Expr::Grouping(ea), Expr::Grouping(eb)) => {
            lemma_render_by_outline(*ea, *eb);
        },
        (Expr::Unary(_, ea), Expr::Unary(_, eb)) => {
            lemma_render_by_outline(*ea, *eb);
        },
        _ => {},
    }
}

/// What follows a word: nothing, or a delimiter.
spec fn delimited(rest: Seq<char>) -> bool {
    rest.len() == 0 || is_delimiter(rest[0])
}

/// What follows an expression inside a canonical text: nothing, a space or
/// a closing parenthesis.
spec fn closing(rest: Seq<char>) -> bool {
    rest.len() == 0 || rest[0] == ' ' || rest[0] == ')'
}

/// The word that opens the parenthesized text of a node.
spec fn head(expr: Expr) -> Seq<char> {
    match expr {
        Expr::Binary(_, operator, _) => operator.lexeme@,
        Expr::Grouping(_) => "group"@,
        Expr::Literal(_) => Seq::empty(),
        Expr::Unary(operator, _) => operator.lexeme@,
    }
}

/// What follows the head and its space in the text of a node that is
/// followed by `rest`.
spec fn body(expr: Expr, rest: Seq<char>) -> Seq<char> {
    match expr {
        Expr::Binary(left, _, right) => render(*left) + (seq![' '] + (render(*right) + (seq![')']
            + rest))),
        Expr::Grouping(inner) => render(*inner) + (seq![')'] + rest),
        Expr::Literal(_) => rest,
        Expr::Unary(_, operand) => render(*operand) + (seq![')'] + rest),
    }
}

/// A word is delimited by what follows it: two texts that start with a word
/// and go on with a delimiter agree only if the words agree.
proof fn lemma_word_prefix(w1: Seq<char>, r1: Seq<char>, w2: Seq<char>, r2: Seq<char>)
    requires
        is_word(w1),
        is_word(w2),
        delimited(r1),
        delimited(r2),
        w1 + r1 == w2 + r2,
    ensures
        w1 == w2,
        r1 == r2,
{
    let s = w1 + r1;
    assert(w1.len() == w2.len()) by {
        if w1.len() < w2.len() {
            // the delimiter that ends `w1` would lie inside `w2`
            assert(s[w1.len() as int] == r1[0]);
            assert(s[w1.len() as int] == w2[w1.len() as int]);
        }
        if w2.len() < w1.len() {
            assert(s[w2.len() as int] == r2[0]);
            assert(s[w2.len() as int] == w1[w2.len() as int]);
        }
    }
    assert(w1 == s.take(w1.len() as int));
    assert(w2 == (w2 + r2).take(w2.len() as int));
    assert(r1 == s.skip(w1.len() as int));
    assert(r2 == (w2 + r2).skip(w2.len() as int));
}

/// Texts that start with the same character agree only if their rests agree.
proof fn lemma_same_rest(c: char, r1: Seq<char>, r2: Seq<char>)
    requires
        seq![c] + r1 == seq![c] + r2,
    ensures
        r1 == r2,
{
    assert(r1 == (seq![c] + r1).skip(1));
    assert(r2 == (seq![c] + r2).skip(1));
}

/// The text of a node is an opening parenthesis, the head, a space and the
/// body.
proof fn lemma_node_text(expr: Expr, rest: Seq<char>)
    requires
        !(expr is Literal),
    ensures
        render(expr) + rest == seq!['('] + (head(expr) + (seq![' '] + body(expr, rest))),
{
    reveal_strlit("(");
    reveal_strlit(" ");
    reveal_strlit(")");
    reveal_strlit("(group ");
    reveal_strlit("group");
    assert("("@ == seq!['(']);
    assert(" "@ == seq![' ']);
    assert(")"@ == seq![')']);
    assert("(group "@ == seq!['('] + ("group"@ + seq![' ']));
}

/// The canonical text is self-delimiting: if the texts of two plain
/// expressions, each followed by nothing, a space or a closing parenthesis,
/// agree, then the expressions have the same outline and what follows them
/// is the same.
proof fn lemma_render_delimited(a: Expr, b: Expr, x: Seq<char>, y: Seq<char>)
    requires
        plain(a),
        plain(b),
        closing(x),
        closing(y),
        render(a) + x == render(b) + y,
    ensures
        outline(a) == outline(b),
        x == y,
    decreases a,
{
    reveal_strlit("group");
    if a is Literal && b is Literal {
        lemma_word_prefix(render(a), x, render(b), y);
    } else if a is Literal {
        lemma_node_text(b, y);
        let s = render(b) + y;
        assert(s[0] == '(');
        if render(a).len() > 0 {
            assert((render(a) + x)[0] == render(a)[0]);
        } else {
            assert(render(a) + x == x);
        }
    } else if b is Literal {
        lemma_node_text(a, x);
        let s = render(a) + x;
        assert(s[0] == '(');
        if render(b).len() > 0 {
            assert((render(b) + y)[0] == render(b)[0]);
        } else {
            assert(render(b) + y == y);
        }
    } else {
        lemma_node_text(a, x);
        lemma_node_text(b, y);
        let ta = seq![' '] + body(a, x);
        let tb = seq![' '] + body(b, y);
        lemma_same_rest('(', head(a) + ta, head(b) + tb);
        assert(is_word(head(a)));
        assert(is_word(head(b)));
        lemma_word_prefix(head(a), ta, head(b), tb);
        lemma_same_rest(' ', body(a, x), body(b, y));
        match (a, b) {
            (Expr::Binary(la, _, ra), Expr::Binary(lb, _, rb)) => {
                let xa = seq![' '] + (render(*ra) + (seq![')'] + x));
                let xb = seq![' '] + (render(*rb) + (seq![')'] + y));
                lemma_render_delimited(*la, *lb, xa, xb);
                lemma_same_rest(' ', render(*ra) + (seq![')'] + x), render(*rb) + (seq![')'] + y));
                lemma_render_delimited(*ra, *rb, seq![')'] + x, seq![')'] + y);
                lemma_same_rest(')', x, y);
            },
            (Expr::Binary(la, _, ra), Expr::Grouping(eb)) => {
                let xa = seq![' '] + (render(*ra) + (seq![')'] + x));
                lemma_render_delimited(*la, *eb, xa, seq![')'] + y);
                assert(xa[0] == ' ');
                assert((seq![')'] + y)[0] == ')');
            },
            (Expr::Binary(la, _, ra), Expr::Unary(_, eb)) => {
                let xa = seq![' '] + (render(*ra) + (seq![')'] + x));
                lemma_render_delimited(*la, *eb, xa, seq![')'] + y);
                assert(xa[0] == ' ');
                assert((seq![')'] + y)[0] == ')');
            },
            (Expr::Grouping(ea), Expr::Binary(lb, _, rb)) => {
                let xb = seq![' '] + (render(*rb) + (seq![')'] + y));
                lemma_render_delimited(*ea, *lb, seq![')'] + x, xb);
                assert(xb[0] == ' ');
                assert((seq![')'] + x)[0] == ')');
            },
            (Expr::Unary(_, ea), Expr::Binary(lb, _, rb)) => {
                let xb = seq![' '] + (render(*rb) + (seq![')'] + y));
                lemma_render_delimited(*ea, *lb, seq![')'] + x, xb);
                assert(xb[0] == ' ');
                assert((seq![')'] + x)[0] == ')');
            },
            (Expr::Grouping(ea), Expr::Grouping(eb)) => {
                lemma_render_delimited(*ea, *eb, seq![')'] + x, seq![')'] + y);
                lemma_same_rest(')', x, y);
            },
            (Expr::Unary(_, ea), Expr::Unary(_, eb)) => {
                lemma_render_delimited(*ea, *eb, seq![')'] + x, seq![')'] + y);
                lemma_same_rest(')', x, y);
            },
            _ => {},
        }
    }
}

/// Rendering loses nothing but what the outline leaves out: two plain
/// expressions with the same canonical text have the same shape, the same
/// operator lexemes and the same literal texts. So two plain expressions that
/// differ in structure never render identically.
pub proof fn lemma_render_injective(a: Expr, b: Expr)
    requires
        plain(a),
        plain(b),
        render(a) == render(b),
    ensures
        outline(a) == outline(b),
{
    assert(render(a) + Seq::<char>::empty() == render(a));
    assert(render(b) + Seq::<char>::empty() == render(b));
    lemma_render_delimited(a, b, Seq::empty(), Seq::empty());
}

} // verus!
