use vstd::prelude::*;
use crate::token::{Literal, Token};

verus! {

/// An expression node. Each node owns its children.
pub enum Expr {
    Assign { name: Token, value: Box<Expr> },
    LiteralExpr { value: Literal },
    Binary { left: Box<Expr>, operator: Token, right: Box<Expr> },
    Call { callee: Box<Expr>, paren: Token, arguments: Vec<Box<Expr>> },
    Get { object: Box<Expr>, name: Token },
    Grouping { expression: Box<Expr> },
    Logical { left: Box<Expr>, right: Box<Expr>, operator: Token },
    SetExpr { object: Box<Expr>, name: Token, value: Box<Expr> },
    Super { keyword: Token, method: Token },
    This { keyword: Token },
    Unary { operator: Token, right: Box<Expr> },
    Variable { name: Token },
}

/// The variant of an expression node, without its fields.
#[derive(Clone, Copy, Debug, PartialEq, Eq, Structural)]
pub enum ExprKind {
    Assign,
    LiteralExpr,
    Binary,
    Call,
    Get,
    Grouping,
    Logical,
    SetExpr,
    Super,
    This,
    Unary,
    Variable,
}

impl Expr {
    pub open spec fn kind(&self) -> ExprKind {
        match self {
            Expr::Assign { .. } => ExprKind::Assign,
            Expr::LiteralExpr { .. } => ExprKind::LiteralExpr,
            Expr::Binary { .. } => ExprKind::Binary,
            Expr::Call { .. } => ExprKind::Call,
            Expr::Get { .. } => ExprKind::Get,
            Expr::Grouping { .. } => ExprKind::Grouping,
            Expr::Logical { .. } => ExprKind::Logical,
            Expr::SetExpr { .. } => ExprKind::SetExpr,
            Expr::Super { .. } => ExprKind::Super,
            Expr::This { .. } => ExprKind::This,
            Expr::Unary { .. } => ExprKind::Unary,
            Expr::Variable { .. } => ExprKind::Variable,
        }
    }

    /// Hands the node to the visitor method of its own variant and returns
    /// what that method returns.
    pub fn accept<R, V: Visitor<R>>(&self, expr_visitor: &V) -> (r: R)
        ensures
            expr_visitor.visits_to(self.kind(), *self, r),
    {
        match self {
            Expr::Binary { .. } => expr_visitor.visit_binary_expression(self),
            Expr::LiteralExpr { .. } => expr_visitor.visit_literal_expression(self),
            Expr::Assign { .. } => expr_visitor.visit_assign_expression(self),
            Expr::Call { .. } => expr_visitor.visit_call_expression(self),
            Expr::Get { .. } => expr_visitor.visit_get_expression(self),
            Expr::Grouping { .. } => expr_visitor.visit_grouping_expression(self),
            Expr::Logical { .. } => expr_visitor.visit_logical_expression(self),
            Expr::SetExpr { .. } => expr_visitor.visit_set_expression(self),
            Expr::Super { .. } => expr_visitor.visit_super_expression(self),
            Expr::This { .. } => expr_visitor.visit_this_expression(self),
            Expr::Unary { .. } => expr_visitor.visit_unary_expression(self),
            Expr::Variable { .. } => expr_visitor.visit_variable_expression(self),
        }
    }
}

/// An operation over expression trees, with one method per variant.
///
/// `visits_to(kind, e, r)` says that the method for variant `kind` may return
/// `r` on `e`; each method is called only on a node of its own variant.
pub trait Visitor<R> {
    open spec fn visits_to(&self, kind: ExprKind, expr: Expr, r: R) -> bool {
        true
    }

    fn visit_binary_expression(&self, expr: &Expr) -> (r: R)
        requires
            expr is Binary,
        ensures
            self.visits_to(ExprKind::Binary, *expr, r),
    ;

    fn visit_literal_expression(&self, expr: &Expr) -> (r: R)
        requires
            expr is LiteralExpr,
        ensures
            self.visits_to(ExprKind::LiteralExpr, *expr, r),
    ;

    fn visit_assign_expression(&self, expr: &Expr) -> (r: R)
        requires
            expr is Assign,
        ensures
            self.visits_to(ExprKind::Assign, *expr, r),
    ;

    fn visit_call_expression(&self, expr: &Expr) -> (r: R)
        requires
            expr is Call,
        ensures
            self.visits_to(ExprKind::Call, *expr, r),
    ;

    fn visit_get_expression(&self, expr: &Expr) -> (r: R)
        requires
            expr is Get,
        ensures
            self.visits_to(ExprKind::Get, *expr, r),
    ;

    fn visit_grouping_expression(&self, expr: &Expr) -> (r: R)
        requires
            expr is Grouping,
        ensures
            self.visits_to(ExprKind::Grouping, *expr, r),
    ;

    fn visit_logical_expression(&self, expr: &Expr) -> (r: R)
        requires
            expr is Logical,
        ensures
            self.visits_to(ExprKind::Logical, *expr, r),
    ;

    fn visit_set_expression(&self, expr: &Expr) -> (r: R)
        requires
            expr is SetExpr,
        ensures
            self.visits_to(ExprKind::SetExpr, *expr, r),
    ;

    fn visit_super_expression(&self, expr: &Expr) -> (r: R)
        requires
            expr is Super,
        ensures
            self.visits_to(ExprKind::Super, *expr, r),
    ;

    fn visit_this_expression(&self, expr: &Expr) -> (r: R)
        requires
            expr is This,
        ensures
            self.visits_to(ExprKind::This, *expr, r),
    ;

    fn visit_unary_expression(&self, expr: &Expr) -> (r: R)
        requires
            expr is Unary,
        ensures
            self.visits_to(ExprKind::Unary, *expr, r),
    ;

    fn visit_variable_expression(&self, expr: &Expr) -> (r: R)
        requires
            expr is Variable,
        ensures
            self.visits_to(ExprKind::Variable, *expr, r),
    ;
}

} // verus!
