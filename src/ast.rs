use vstd::prelude::*;
use vstd::string::StringExecFns;
use crate::expressions::{Expr, ExprKind, Visitor};
use crate::token::{push_char, render_literal};

verus! {

/// A parenthesised prefix form: `(name part part ...)`.
pub open spec fn parens(name: Seq<char>, parts: Seq<Seq<char>>) -> Seq<char> {
    seq!['('] + name + spaced(parts) + seq![')']
}

/// Each part preceded by a space.
pub open spec fn spaced(parts: Seq<Seq<char>>) -> Seq<char>
    decreases parts.len(),
{
    if parts.len() == 0 {
        Seq::empty()
    } else {
        spaced(parts.drop_last()) + seq![' '] + parts.last()
    }
}

/// The prefix rendering of an expression: a literal as its text, a variable
/// or `this` as its name, and every other node as `(head part...)`: an
/// operator or keyword, then its operands in order. An assignment to a
/// property is `(= (. object name) value)`.
pub open spec fn print_expr(e: Expr) -> Seq<char>
    decreases e,
{
    match e {
        Expr::Assign { name, value } => parens(seq!['='], seq![name.lexeme@, print_expr(*value)]),
        Expr::LiteralExpr { value } => render_literal(value@),
        Expr::Binary { left, operator, right } => parens(
            operator.lexeme@,
            seq![print_expr(*left), print_expr(*right)],
        ),
        Expr::Call { callee, paren, arguments } => parens(
            seq!['c', 'a', 'l', 'l'],
            seq![print_expr(*callee)] + print_all(arguments@),
        ),
        Expr::Get { object, name } => parens(seq!['.'], seq![print_expr(*object), name.lexeme@]),
        Expr::Grouping { expression } => parens(
            seq!['g', 'r', 'o', 'u', 'p'],
            seq![print_expr(*expression)],
        ),
        Expr::Logical { left, right, operator } => parens(
            operator.lexeme@,
            seq![print_expr(*left), print_expr(*right)],
        ),
        Expr::SetExpr { object, name, value } => parens(
            seq!['='],
            seq![parens(seq!['.'], seq![print_expr(*object), name.lexeme@]), print_expr(*value)],
        ),
        Expr::Super { keyword, method } => parens(keyword.lexeme@, seq![method.lexeme@]),
        Expr::This { keyword } => keyword.lexeme@,
        Expr::Unary { operator, right } => parens(operator.lexeme@, seq![print_expr(*right)]),
        Expr::Variable { name } => name.lexeme@,
    }
}

/// The renderings of a sequence of expressions, in order.
pub open spec fn print_all(args: Seq<Box<Expr>>) -> Seq<Seq<char>>
    decreases args,
{
    if args.len() == 0 {
        Seq::empty()
    } else {
        print_all(args.drop_last()).push(print_expr(*args.last()))
    }
}

/// A visitor that renders an expression in fully parenthesised prefix form.
pub struct AstPrinter {}

impl AstPrinter {
    /// The rendering of `expr`, reached through its own dispatch.
    pub fn print(&self, expr: &Expr) -> (r: String)
        ensures
            r@ == print_expr(*expr),
    {
        expr.accept(self)
    }

    /// `(name part part ...)`.
    pub fn parenthesize(&self, name: &str, arguments: Vec<String>) -> (r: String)
        ensures
            r@ == parens(name@, arguments@.map_values(|a: String| a@)),
    {
        let mut builder = String::new();
        push_char(&mut builder, '(');
        builder.append(name);
        let mut i: usize = 0;
        while i < arguments.len()
            invariant
                i <= arguments@.len(),
                builder@ == seq!['('] + name@ + spaced(
                    arguments@.subrange(0, i as int).map_values(|a: String| a@),
                ),
            decreases arguments@.len() - i,
        {
            push_char(&mut builder, ' ');
            builder.append(arguments[i].as_str());
            proof {
                let f = |a: String| a@;
                assert(arguments@.subrange(0, i + 1 as int).map_values(f).drop_last()
                    =~= arguments@.subrange(0, i as int).map_values(f));
            }
            i = i + 1;
        }
        assert(arguments@.subrange(0, i as int) =~= arguments@);
        push_char(&mut builder, ')');
        builder
    }

    /// The rendering of any subtree. Children are rendered here, by direct
    /// recursion, and each visitor method hands its node here too.
    fn render(&self, expr: &Expr) -> (r: String)
        ensures
            r@ == print_expr(*expr),
        decreases expr,
    {
        match expr {
            Expr::Assign { name, value } => {
                let v = self.render(value);
                let r = self.operation("=", name.lexeme.clone(), v);
                proof {
                    reveal_strlit("=");
                    assert("="@ =~= seq!['=']);
                }
                r
            },
            Expr::LiteralExpr { value } => value.render(),
            Expr::Binary { left, right, operator } => {
                let l = self.render(left);
                let r = self.render(right);
                self.operation(operator.lexeme.as_str(), l, r)
            },
            Expr::Call { callee, arguments, .. } => {
                let mut parts: Vec<String> = Vec::new();
                parts.push(self.render(callee));
                let mut i: usize = 0;
                while i < arguments.len()
                    invariant
                        *expr is Call,
                        expr->Call_arguments == *arguments,
                        i <= arguments@.len(),
                        parts@.map_values(|a: String| a@) == seq![print_expr(**callee)] + print_all(
                            arguments@.subrange(0, i as int),
                        ),
                    decreases arguments@.len() - i,
                {
                    let ghost before = parts@.map_values(|a: String| a@);
                    proof {
                        assert(decreases_to!(*expr => expr->Call_arguments));
                        assert(decreases_to!(*arguments => arguments[i as int]));
                    }
                    let part = self.render(&arguments[i]);
                    parts.push(part);
                    proof {
                        let sub = arguments@.subrange(0, i + 1 as int);
                        assert(sub.drop_last() =~= arguments@.subrange(0, i as int));
                        assert(parts@.map_values(|a: String| a@) =~= before.push(
                            print_expr(*arguments@[i as int]),
                        ));
                    }
                    i = i + 1;
                }
                assert(arguments@.subrange(0, i as int) =~= arguments@);
                let r = self.parenthesize("call", parts);
                proof {
                    reveal_strlit("call");
                    assert("call"@ =~= seq!['c', 'a', 'l', 'l']);
                }
                r
            },
            Expr::Get { object, name } => {
                let o = self.render(object);
                let r = self.operation(".", o, name.lexeme.clone());
                proof {
                    reveal_strlit(".");
                    assert("."@ =~= seq!['.']);
                }
                r
            },
            Expr::Grouping { expression } => {
                let inner = self.render(expression);
                self.group(inner)
            },
            Expr::Logical { left, right, operator } => {
                let l = self.render(left);
                let r = self.render(right);
                self.operation(operator.lexeme.as_str(), l, r)
            },
            Expr::SetExpr { object, name, value } => {
                let o = self.render(object);
                let target = self.operation(".", o, name.lexeme.clone());
                let v = self.render(value);
                let r = self.operation("=", target, v);
                proof {
                    reveal_strlit(".");
                    assert("."@ =~= seq!['.']);
                    reveal_strlit("=");
                    assert("="@ =~= seq!['=']);
                }
                r
            },
            Expr::Super { keyword, method } => self.prefix(
                keyword.lexeme.as_str(),
                method.lexeme.clone(),
            ),
            Expr::This { keyword } => keyword.lexeme.clone(),
            Expr::Unary { right, operator } => {
                let r = self.render(right);
                self.prefix(operator.lexeme.as_str(), r)
            },
            Expr::Variable { name } => name.lexeme.clone(),
        }
    }

    fn operation(&self, op: &str, l: String, r: String) -> (s: String)
        ensures
            s@ == parens(op@, seq![l@, r@]),
    {
        let ghost parts = seq![l@, r@];
        let v = vec![l, r];
        let s = self.parenthesize(op, v);
        assert(v@.map_values(|a: String| a@) =~= parts);
        s
    }

    fn prefix(&self, op: &str, r: String) -> (s: String)
        ensures
            s@ == parens(op@, seq![r@]),
    {
        let ghost parts = seq![r@];
        let v = vec![r];
        let s = self.parenthesize(op, v);
        assert(v@.map_values(|a: String| a@) =~= parts);
        s
    }

    fn group(&self, inner: String) -> (s: String)
        ensures
            s@ == parens(seq!['g', 'r', 'o', 'u', 'p'], seq![inner@]),
    {
        let s = self.prefix("group", inner);
        proof {
            reveal_strlit("group");
        }
        s
    }
}

impl Visitor<String> for AstPrinter {
    open spec fn visits_to(&self, kind: ExprKind, expr: Expr, r: String) -> bool {
        r@ == print_expr(expr)
    }

    fn visit_binary_expression(&self, expr: &Expr) -> (r: String) {
        self.render(expr)
    }

    fn visit_literal_expression(&self, expr: &Expr) -> (r: String) {
        self.render(expr)
    }

    fn visit_assign_expression(&self, expr: &Expr) -> (r: String) {
        self.render(expr)
    }

    fn visit_call_expression(&self, expr: &Expr) -> (r: String) {
        self.render(expr)
    }

    fn visit_get_expression(&self, expr: &Expr) -> (r: String) {
        self.render(expr)
    }

    fn visit_grouping_expression(&self, expr: &Expr) -> (r: String) {
        self.render(expr)
    }

    fn visit_logical_expression(&self, expr: &Expr) -> (r: String) {
        self.render(expr)
    }

    fn visit_set_expression(&self, expr: &Expr) -> (r: String) {
        self.render(expr)
    }

    fn visit_super_expression(&self, expr: &Expr) -> (r: String) {
        self.render(expr)
    }

    fn visit_this_expression(&self, expr: &Expr) -> (r: String) {
        self.render(expr)
    }

    fn visit_unary_expression(&self, expr: &Expr) -> (r: String) {
        self.render(expr)
    }

    fn visit_variable_expression(&self, expr: &Expr) -> (r: String) {
        self.render(expr)
    }
}

} // verus!
