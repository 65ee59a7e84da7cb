use vstd::prelude::*;
use crate::expressions::Expr;
use crate::token::Token;

verus! {

/// A statement node. Each node owns its expressions and nested statements.
pub enum Stmt {
    Print { expression: Expr },
    Block { statements: Vec<Stmt> },
    Expression { expression: Expr },
    While { condition: Expr, body: Box<Stmt> },
    Return { keyword: Token, value: Expr },
    Variable { name: Token, initializer: Expr },
    If { condition: Expr, then_branch: Box<Stmt>, else_branch: Box<Stmt> },
    Function { name: Token, params: Vec<Token>, body: Vec<Stmt> },
    Class { name: Token, super_class: Expr, methods: Vec<Stmt> },
}

/// The variant of a statement node, without its fields.
#[derive(Clone, Copy, Debug, PartialEq, Eq, Structural)]
pub enum StmtKind {
    Print,
    Block,
    Expression,
    While,
    Return,
    Variable,
    If,
    Function,
    Class,
}

/// An operation over statements, with one method per variant.
///
/// `visits_to(kind, s, r)` says that the method for variant `kind` may return
/// `r` on `s`; each method is called only on a node of its own variant.
pub trait StmtVisitor<R> {
    open spec fn visits_to(&self, kind: StmtKind, stmt: Stmt, r: R) -> bool {
        true
    }

    fn visit_block_stmt(&self, stmt: &Stmt) -> (r: R)
        requires
            stmt is Block,
        ensures
            self.visits_to(StmtKind::Block, *stmt, r),
    ;

    fn visit_class_stmt(&self, stmt: &Stmt) -> (r: R)
        requires
            stmt is Class,
        ensures
            self.visits_to(StmtKind::Class, *stmt, r),
    ;

    fn visit_expression_stmt(&self, stmt: &Stmt) -> (r: R)
        requires
            stmt is Expression,
        ensures
            self.visits_to(StmtKind::Expression, *stmt, r),
    ;

    fn visit_function_stmt(&self, stmt: &Stmt) -> (r: R)
        requires
            stmt is Function,
        ensures
            self.visits_to(StmtKind::Function, *stmt, r),
    ;

    fn visit_if_stmt(&self, stmt: &Stmt) -> (r: R)
        requires
            stmt is If,
        ensures
            self.visits_to(StmtKind::If, *stmt, r),
    ;

    fn visit_print_stmt(&self, stmt: &Stmt) -> (r: R)
        requires
            stmt is Print,
        ensures
            self.visits_to(StmtKind::Print, *stmt, r),
    ;

    fn visit_return_stmt(&self, stmt: &Stmt) -> (r: R)
        requires
            stmt is Return,
        ensures
            self.visits_to(StmtKind::Return, *stmt, r),
    ;

    fn visit_variable_stmt(&self, stmt: &Stmt) -> (r: R)
        requires
            stmt is Variable,
        ensures
            self.visits_to(StmtKind::Variable, *stmt, r),
    ;

    fn visit_while_stmt(&self, stmt: &Stmt) -> (r: R)
        requires
            stmt is While,
        ensures
            self.visits_to(StmtKind::While, *stmt, r),
    ;
}

impl Stmt {
    pub open spec fn kind(&self) -> StmtKind {
        match self {
            Stmt::Print { .. } => StmtKind::Print,
            Stmt::Block { .. } => StmtKind::Block,
            Stmt::Expression { .. } => StmtKind::Expression,
            Stmt::While { .. } => StmtKind::While,
            Stmt::Return { .. } => StmtKind::Return,
            Stmt::Variable { .. } => StmtKind::Variable,
            Stmt::If { .. } => StmtKind::If,
            Stmt::Function { .. } => StmtKind::Function,
            Stmt::Class { .. } => StmtKind::Class,
        }
    }

    /// Hands the node to the visitor method of its own variant and returns
    /// what that method returns.
    pub fn accept<R, V: StmtVisitor<R>>(&self, visitor: &V) -> (r: R)
        ensures
            visitor.visits_to(self.kind(), *self, r),
    {
        match self {
            Stmt::Print { .. } => visitor.visit_print_stmt(self),
            Stmt::Block { .. } => visitor.visit_block_stmt(self),
            Stmt::Expression { .. } => visitor.visit_expression_stmt(self),
            Stmt::While { .. } => visitor.visit_while_stmt(self),
            Stmt::Return { .. } => visitor.visit_return_stmt(self),
            Stmt::Variable { .. } => visitor.visit_variable_stmt(self),
            Stmt::If { .. } => visitor.visit_if_stmt(self),
            Stmt::Function { .. } => visitor.visit_function_stmt(self),
            Stmt::Class { .. } => visitor.visit_class_stmt(self),
        }
    }
}

} // verus!
