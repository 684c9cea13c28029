//! Expressions of Lox, and the printer that writes them in prefix form.

use vstd::prelude::*;

verus! {

#[derive(Debug)]
pub enum Expression {
    Literal(Literal),
    Unary { operator: UnaryOperator, rhs: Box<Expression> },
    Binary { lhs: Box<Expression>, operator: BinaryOperator, rhs: Box<Expression> },
    Grouping(Box<Expression>),
}

/// A literal value. A number is held as the decimal numeral that denotes it
/// (its value is the nearest `f64`); the library does no floating-point work.
#[derive(Debug)]
pub enum Literal {
    Number(String),
    String(String),
    True,
    False,
    Nil,
}

#[derive(Debug, Clone, Copy, PartialEq, Eq, Structural)]
pub enum UnaryOperator {
    Negate,
    Not,
}

#[derive(Debug, Clone, Copy, PartialEq, Eq, Structural)]
pub enum BinaryOperator {
    Equals,
    NotEquals,
    LessThan,
    LessThanEqual,
    GreaterThan,
    GreaterThanEqual,
    Plus,
    Minus,
    Times,
    Divide,
}

/// A literal as mathematical values.
pub enum LiteralView {
    Number(Seq<char>),
    String(Seq<char>),
    True,
    False,
    Nil,
}

/// An expression as mathematical values.
pub enum ExprView {
    Literal(LiteralView),
    Unary(UnaryOperator, Box<ExprView>),
    Binary(Box<ExprView>, BinaryOperator, Box<ExprView>),
    Grouping(Box<ExprView>),
}

impl View for Literal {
    type V = LiteralView;

    open spec fn view(&self) -> LiteralView {
        match self {
            Literal::Number(n) => LiteralView::Number(n@),
            Literal::String(s) => LiteralView::String(s@),
            Literal::True => LiteralView::True,
            Literal::False => LiteralView::False,
            Literal::Nil => LiteralView::Nil,
        }
    }
}

impl Expression {
    pub open spec fn spec_view(&self) -> ExprView
        decreases self,
    {
        match self {
            Expression::Literal(l) => ExprView::Literal(l@),
            Expression::Unary { operator, rhs } => ExprView::Unary(*operator, Box::new(rhs.spec_view())),
            Expression::Binary { lhs, operator, rhs } => ExprView::Binary(
                Box::new(lhs.spec_view()),
                *operator,
                Box::new(rhs.spec_view()),
            ),
            Expression::Grouping(e) => ExprView::Grouping(Box::new(e.spec_view())),
        }
    }
}

impl Expression {
    /// A measure of an expression's depth of nesting, by which the printer's
    /// recursion terminates.
    pub open spec fn size(&self) -> nat
        decreases self,
    {
        match self {
            Expression::Literal(_) => 1,
            Expression::Unary { rhs, .. } => rhs.size() + 2,
            Expression::Binary { lhs, rhs, .. } => lhs.size() + rhs.size() + 2,
            Expression::Grouping(e) => e.size() + 2,
        }
    }
}

impl View for Expression {
    type V = ExprView;

    open spec fn view(&self) -> ExprView {
        self.spec_view()
    }
}

/// The name under which the printer writes a unary operator.
pub open spec fn unary_name(op: UnaryOperator) -> Seq<char> {
    match op {
        UnaryOperator::Negate => "Negate"@,
        UnaryOperator::Not => "Not"@,
    }
}

/// The name under which the printer writes a binary operator.
pub open spec fn binary_name(op: BinaryOperator) -> Seq<char> {
    match op {
        BinaryOperator::Equals => "Equals"@,
        BinaryOperator::NotEquals => "NotEquals"@,
        BinaryOperator::LessThan => "LessThan"@,
        BinaryOperator::LessThanEqual => "LessThanEqual"@,
        BinaryOperator::GreaterThan => "GreaterThan"@,
        BinaryOperator::GreaterThanEqual => "GreaterThanEqual"@,
        BinaryOperator::Plus => "Plus"@,
        BinaryOperator::Minus => "Minus"@,
        BinaryOperator::Times => "Times"@,
        BinaryOperator::Divide => "Divide"@,
    }
}

/// How the printer writes a literal: a number as its numeral, a string as
/// its characters, and the three constants as their keywords.
pub open spec fn printed_literal(l: LiteralView) -> Seq<char> {
    match l {
        LiteralView::Number(n) => n,
        LiteralView::String(s) => s,
        LiteralView::True => "true"@,
        LiteralView::False => "false"@,
        LiteralView::Nil => "nil"@,
    }
}

/// The prefix form of an expression: an operation is written in parentheses,
/// its operator's name first, then its operands, separated by spaces.
pub open spec fn printed(e: ExprView) -> Seq<char>
    decreases e,
{
    match e {
        ExprView::Literal(l) => printed_literal(l),
        ExprView::Unary(op, rhs) => seq!['('] + unary_name(op) + seq![' '] + printed(*rhs) + seq![')'],
        ExprView::Binary(lhs, op, rhs) => seq!['('] + binary_name(op) + seq![' '] + printed(*lhs)
            + seq![' '] + printed(*rhs) + seq![')'],
        ExprView::Grouping(inner) => "(group "@ + printed(*inner) + seq![')'],
    }
}

/// A number or string literal is printed exactly as the text it holds, and
/// the printed form of an operation or grouping is in parentheses.
pub proof fn law_literals_print_as_their_text(e: ExprView)
    ensures
        e matches ExprView::Literal(LiteralView::Number(n)) ==> printed(e) == n,
        e matches ExprView::Literal(LiteralView::String(text)) ==> printed(e) == text,
        !(e is Literal) ==> printed(e).len() >= 2 && printed(e)[0] == '(' && printed(e).last() == ')',
{
    if let ExprView::Grouping(inner) = e {
        reveal_strlit("(group ");
    }
}

impl UnaryOperator {
    pub fn name(&self) -> (s: &'static str)
        ensures
            s@ == unary_name(*self),
    {
        match self {
            UnaryOperator::Negate => "Negate",
            UnaryOperator::Not => "Not",
        }
    }
}

impl BinaryOperator {
    pub fn name(&self) -> (s: &'static str)
        ensures
            s@ == binary_name(*self),
    {
        match self {
            BinaryOperator::Equals => "Equals",
            BinaryOperator::NotEquals => "NotEquals",
            BinaryOperator::LessThan => "LessThan",
            BinaryOperator::LessThanEqual => "LessThanEqual",
            BinaryOperator::GreaterThan => "GreaterThan",
            BinaryOperator::GreaterThanEqual => "GreaterThanEqual",
            BinaryOperator::Plus => "Plus",
            BinaryOperator::Minus => "Minus",
            BinaryOperator::Times => "Times",
            BinaryOperator::Divide => "Divide",
        }
    }
}

/// A computation over expressions, one method for each kind of expression.
/// `visits(before, after, e, r)` says that visiting the expression `e` may
/// take the visitor from state `before` to state `after` with result `r`.
pub trait ExpressionVisitor: Sized {
    type Output;

    spec fn visits(before: Self, after: Self, e: ExprView, r: Self::Output) -> bool;

    fn visit_literal(&mut self, value: &Literal) -> (r: Self::Output)
        ensures
            Self::visits(*old(self), *final(self), ExprView::Literal(value@), r),
    ;

    fn visit_unary(&mut self, operator: &UnaryOperator, rhs: &Expression) -> (r: Self::Output)
        ensures
            Self::visits(*old(self), *final(self), ExprView::Unary(*operator, Box::new(rhs@)), r),
    ;

    fn visit_binary(&mut self, lhs: &Expression, operator: &BinaryOperator, rhs: &Expression) -> (r: Self::Output)
        ensures
            Self::visits(
                *old(self),
                *final(self),
                ExprView::Binary(Box::new(lhs@), *operator, Box::new(rhs@)),
                r,
            ),
    ;

    fn visit_grouping(&mut self, inner: &Expression) -> (r: Self::Output)
        ensures
            Self::visits(*old(self), *final(self), ExprView::Grouping(Box::new(inner@)), r),
    ;
}

impl Expression {
    /// Hands the expression to the one method of `visitor` for its kind,
    /// once, and gives back what it returns.
    pub fn accept<V: ExpressionVisitor>(&self, visitor: &mut V) -> (r: V::Output)
        ensures
            V::visits(*old(visitor), *final(visitor), self@, r),
    {
        match self {
            Expression::Literal(value) => visitor.visit_literal(value),
            Expression::Unary { operator, rhs } => visitor.visit_unary(operator, rhs),
            Expression::Binary { lhs, operator, rhs } => visitor.visit_binary(lhs, operator, rhs),
            Expression::Grouping(inner) => visitor.visit_grouping(inner),
        }
    }
}

/// Writes expressions in prefix form.
pub struct AstPrinter;

impl AstPrinter {
    pub fn print(&mut self, expression: &Expression) -> (s: String)
        ensures
            s@ == printed(expression@),
        decreases expression.size(),
    {
        match expression {
            Expression::Literal(value) => self.print_literal(value),
            Expression::Unary { operator, rhs } => self.print_unary(operator, rhs),
            Expression::Binary { lhs, operator, rhs } => self.print_binary(lhs, operator, rhs),
            Expression::Grouping(inner) => self.print_grouping(inner),
        }
    }

    fn print_literal(&mut self, value: &Literal) -> (s: String)
        ensures
            s@ == printed_literal(value@),
    {
        match value {
            Literal::Number(n) => n.clone(),
            Literal::String(s) => s.clone(),
            Literal::True => "true".to_owned(),
            Literal::False => "false".to_owned(),
            Literal::Nil => "nil".to_owned(),
        }
    }

    fn print_unary(&mut self, operator: &UnaryOperator, rhs: &Expression) -> (s: String)
        ensures
            s@ == printed(ExprView::Unary(*operator, Box::new(rhs@))),
        decreases rhs.size() + 1,
    {
        let mut s = String::new();
        s.push('(');
        s.append(operator.name());
        s.push(' ');
        let r = self.print(rhs);
        s.append(r.as_str());
        s.push(')');
        s
    }

    fn print_binary(&mut self, lhs: &Expression, operator: &BinaryOperator, rhs: &Expression) -> (s: String)
        ensures
            s@ == printed(ExprView::Binary(Box::new(lhs@), *operator, Box::new(rhs@))),
        decreases lhs.size() + rhs.size() + 1,
    {
        let mut s = String::new();
        s.push('(');
        s.append(operator.name());
        s.push(' ');
        let l = self.print(lhs);
        s.append(l.as_str());
        s.push(' ');
        let r = self.print(rhs);
        s.append(r.as_str());
        s.push(')');
        s
    }

    fn print_grouping(&mut self, inner: &Expression) -> (s: String)
        ensures
            s@ == printed(ExprView::Grouping(Box::new(inner@))),
        decreases inner.size() + 1,
    {
        let mut s = "(group ".to_owned();
        let r = self.print(inner);
        s.append(r.as_str());
        s.push(')');
        s
    }
}

impl ExpressionVisitor for AstPrinter {
    type Output = String;

    open spec fn visits(before: AstPrinter, after: AstPrinter, e: ExprView, r: String) -> bool {
        r@ == printed(e)
    }

    fn visit_literal(&mut self, value: &Literal) -> (s: String) {
        self.print_literal(value)
    }

    fn visit_unary(&mut self, operator: &UnaryOperator, rhs: &Expression) -> (s: String) {
        self.print_unary(operator, rhs)
    }

    fn visit_binary(&mut self, lhs: &Expression, operator: &BinaryOperator, rhs: &Expression) -> (s: String) {
        self.print_binary(lhs, operator, rhs)
    }

    fn visit_grouping(&mut self, inner: &Expression) -> (s: String) {
        self.print_grouping(inner)
    }
}

} // verus!
