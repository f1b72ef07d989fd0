//! The syntax tree: what a program is once it has been parsed.
//!
//! Every node is owned by the one node above it. Each type of node has a
//! model, written `@`, in which text is a sequence of characters and a list of
//! nodes is a sequence of models.

use vstd::prelude::*;
use crate::text::same_text;
use crate::token::Base;

verus! {

/// A type of the language.
#[derive(Clone, Copy, Debug, PartialEq, Eq, Structural)]
pub enum Type {
    /// `i32`
    I32,
}

/// The type that a function returns, and whether the function may fail
/// instead (written `!` after the type).
pub type ReturnType = (Type, bool);

/// The operator of a binary expression.
#[derive(Clone, Copy, Debug, PartialEq, Eq, Structural)]
pub enum BinaryOperator {
    /// `+`
    Plus,
    /// `-`
    Minus,
    /// `*`
    Star,
    /// `/`
    Divide,
    /// `&`
    And,
    /// `|`
    Or,
}

/// The operator of a unary expression.
#[derive(Clone, Copy, Debug, PartialEq, Eq, Structural)]
pub enum UnaryOperator {
    /// `-`
    Negate,
    /// `!`
    Not,
}

/// How strongly a token binds the expressions on its two sides. The levels
/// are listed from the weakest to the strongest.
#[derive(Clone, Copy, Debug, PartialEq, Eq, Structural)]
pub enum Precedence {
    /// The level of every token that binds nothing.
    Lowest,
    Assign,
    Or,
    And,
    BitOr,
    BitAnd,
    Equality,
    Comparison,
    Sum,
    Product,
    Unary,
    Call,
}

impl Precedence {
    /// The place of the level in the order, from 0 for `Lowest` to 11 for
    /// `Call`.
    pub open spec fn rank(self) -> nat {
        match self {
            Precedence::Lowest => 0,
            Precedence::Assign => 1,
            Precedence::Or => 2,
            Precedence::And => 3,
            Precedence::BitOr => 4,
            Precedence::BitAnd => 5,
            Precedence::Equality => 6,
            Precedence::Comparison => 7,
            Precedence::Sum => 8,
            Precedence::Product => 9,
            Precedence::Unary => 10,
            Precedence::Call => 11,
        }
    }

    /// The place of the level in the order.
    pub fn level(&self) -> (level: u8)
        ensures
            level == self.rank(),
    {
        match self {
            Precedence::Lowest => 0,
            Precedence::Assign => 1,
            Precedence::Or => 2,
            Precedence::And => 3,
            Precedence::BitOr => 4,
            Precedence::BitAnd => 5,
            Precedence::Equality => 6,
            Precedence::Comparison => 7,
            Precedence::Sum => 8,
            Precedence::Product => 9,
            Precedence::Unary => 10,
            Precedence::Call => 11,
        }
    }

    /// Whether this level binds strictly more strongly than `other`.
    pub fn exceeds(&self, other: &Precedence) -> (b: bool)
        ensures
            b == (self.rank() > other.rank()),
    {
        self.level() > other.level()
    }
}

/// The levels are totally ordered by their rank: two levels of one rank are
/// one level, so of two different levels one binds strictly more strongly
/// than the other.
pub proof fn lemma_precedence_total_order(a: Precedence, b: Precedence)
    ensures
        a.rank() == b.rank() <==> a == b,
        a.rank() < b.rank() || a == b || b.rank() < a.rank(),
{
}

/// A literal as it was written. Its text is kept whole, prefix and suffix
/// included, and is not yet read as a value.
#[derive(Debug, PartialEq, Eq)]
pub enum LiteralType {
    /// An integer literal.
    Integer { text: String, base: Base, empty_int: bool, suffix_start: usize },
    /// A literal with a fraction or an exponent.
    Float { text: String, base: Base, empty_exponent: bool, suffix_start: usize },
    /// A string literal, with its quotes and with its escapes as written.
    String(String),
}

/// The model of a literal.
pub enum LiteralView {
    Integer { text: Seq<char>, base: Base, empty_int: bool, suffix_start: usize },
    Float { text: Seq<char>, base: Base, empty_exponent: bool, suffix_start: usize },
    String(Seq<char>),
}

impl LiteralType {
    /// The model of the literal.
    pub open spec fn view(&self) -> LiteralView {
        match self {
            LiteralType::Integer { text, base, empty_int, suffix_start } => LiteralView::Integer {
                text: text@,
                base: *base,
                empty_int: *empty_int,
                suffix_start: *suffix_start,
            },
            LiteralType::Float { text, base, empty_exponent, suffix_start } => LiteralView::Float {
                text: text@,
                base: *base,
                empty_exponent: *empty_exponent,
                suffix_start: *suffix_start,
            },
            LiteralType::String(text) => LiteralView::String(text@),
        }
    }
}

/// The arguments of a call, in order.
pub type CallParameters = Vec<Expression>;

/// The statements between a pair of braces, in order.
pub type Block = Vec<Statement>;

/// An expression.
#[derive(Debug, PartialEq, Eq)]
#[allow(inconsistent_fields)]
pub enum Expression {
    /// A literal, such as `"Hello, world!"` or `38`.
    Literal(LiteralType),
    /// A name standing alone.
    Ident(String),
    /// A call of a function, such as `hello_world()`. Empty parentheses give
    /// `None`, not an empty list.
    FunctionCall { name: String, parameters: Option<CallParameters> },
    /// A call of a method, such as `object.method()`.
    MethodCall { receiver: Box<Expression>, name: String, parameters: Option<CallParameters> },
    /// A binary operation, such as `4 + 5`.
    Binary { left: Box<Expression>, operator: BinaryOperator, right: Box<Expression> },
    /// A unary operation, such as `!xyz`.
    Unary { operator: UnaryOperator, operand: Box<Expression> },
    /// A condition and the block that is run when it holds. There is no
    /// `else`.
    IfExpression { condition: Box<Expression>, block: Block },
}

/// A statement.
#[derive(Debug, PartialEq, Eq)]
pub enum Statement {
    /// An expression followed by `;`.
    Expression(Expression),
}

/// The model of an expression.
#[allow(inconsistent_fields)]
pub enum ExpressionView {
    Literal(LiteralView),
    Ident(Seq<char>),
    FunctionCall { name: Seq<char>, parameters: Option<Seq<ExpressionView>> },
    MethodCall {
        receiver: Box<ExpressionView>,
        name: Seq<char>,
        parameters: Option<Seq<ExpressionView>>,
    },
    Binary { left: Box<ExpressionView>, operator: BinaryOperator, right: Box<ExpressionView> },
    Unary { operator: UnaryOperator, operand: Box<ExpressionView> },
    IfExpression { condition: Box<ExpressionView>, block: Seq<StatementView> },
}

/// The model of a statement.
pub enum StatementView {
    Expression(ExpressionView),
}

impl Expression {
    /// The model of the expression.
    pub open spec fn view(&self) -> ExpressionView
        decreases self,
    {
        match self {
            Expression::Literal(literal) => ExpressionView::Literal(literal@),
            Expression::Ident(name) => ExpressionView::Ident(name@),
            Expression::FunctionCall { name, parameters } => ExpressionView::FunctionCall {
                name: name@,
                parameters: match parameters {
                    None => None,
                    Some(list) => Some(
                        Seq::new(
                            list@.len(),
                            |i: int|
                                if 0 <= i < list@.len() {
                                    list@[i].view()
                                } else {
                                    arbitrary()
                                },
                        ),
                    ),
                },
            },
            Expression::MethodCall { receiver, name, parameters } => ExpressionView::MethodCall {
                receiver: Box::new((**receiver).view()),
                name: name@,
                parameters: match parameters {
                    None => None,
                    Some(list) => Some(
                        Seq::new(
                            list@.len(),
                            |i: int|
                                if 0 <= i < list@.len() {
                                    list@[i].view()
                                } else {
                                    arbitrary()
                                },
                        ),
                    ),
                },
            },
            Expression::Binary { left, operator, right } => ExpressionView::Binary {
                left: Box::new((**left).view()),
                operator: *operator,
                right: Box::new((**right).view()),
            },
            Expression::Unary { operator, operand } => ExpressionView::Unary {
                operator: *operator,
                operand: Box::new((**operand).view()),
            },
            Expression::IfExpression { condition, block } => ExpressionView::IfExpression {
                condition: Box::new((**condition).view()),
                block: Seq::new(
                    block@.len(),
                    |i: int|
                        if 0 <= i < block@.len() {
                            block@[i].view()
                        } else {
                            arbitrary()
                        },
                ),
            },
        }
    }
}

impl Statement {
    /// The model of the statement.
    pub open spec fn view(&self) -> StatementView
        decreases self,
    {
        match self {
            Statement::Expression(expression) => StatementView::Expression(expression.view()),
        }
    }
}

/// The models of a list of expressions, in order.
pub open spec fn expressions_view(list: Seq<Expression>) -> Seq<ExpressionView> {
    Seq::new(list.len(), |i: int| list[i]@)
}

/// The models of a list of statements, in order.
pub open spec fn statements_view(list: Seq<Statement>) -> Seq<StatementView> {
    Seq::new(list.len(), |i: int| list[i]@)
}

/// The models of the arguments of a call.
pub open spec fn parameters_view(parameters: Option<CallParameters>) -> Option<
    Seq<ExpressionView>,
> {
    match parameters {
        None => None,
        Some(list) => Some(expressions_view(list@)),
    }
}

/// The model of a function call names the function and holds the models of
/// the arguments.
pub proof fn lemma_function_call_view(e: Expression)
    requires
        e is FunctionCall,
    ensures
        e@ == (ExpressionView::FunctionCall {
            name: e->FunctionCall_name@,
            parameters: parameters_view(e->FunctionCall_parameters),
        }),
{
    match e->FunctionCall_parameters {
        None => {},
        Some(list) => {
            assert(e@->FunctionCall_parameters->0 =~= expressions_view(list@));
        },
    }
}

/// The model of a method call holds the model of the receiver, the name of
/// the method and the models of the arguments.
pub proof fn lemma_method_call_view(e: Expression)
    requires
        e is MethodCall,
    ensures
        e@ == (ExpressionView::MethodCall {
            receiver: Box::new((*e->MethodCall_receiver)@),
            name: e->MethodCall_name@,
            parameters: parameters_view(e->MethodCall_parameters),
        }),
{
    match e->MethodCall_parameters {
        None => {},
        Some(list) => {
            assert(e@->MethodCall_parameters->0 =~= expressions_view(list@));
        },
    }
}

/// The model of an `if` expression holds the model of the condition and the
/// models of the statements of the block.
pub proof fn lemma_if_expression_view(e: Expression)
    requires
        e is IfExpression,
    ensures
        e@ == (ExpressionView::IfExpression {
            condition: Box::new((*e->IfExpression_condition)@),
            block: statements_view(e->IfExpression_block@),
        }),
{
    assert(e@->IfExpression_block =~= statements_view(e->IfExpression_block@));
}

/// Whether `name` is the name of one of `entries`.
pub open spec fn has_name(entries: Seq<(Seq<char>, Type)>, name: Seq<char>) -> bool {
    exists|i: int| 0 <= i < entries.len() && (#[trigger] entries[i]).0 == name
}

/// Whether no two of `entries` have the same name.
pub open spec fn distinct_names(entries: Seq<(Seq<char>, Type)>) -> bool {
    forall|i: int, j: int|
        0 <= i < j < entries.len() ==> (#[trigger] entries[i]).0 != (#[trigger] entries[j]).0
}

/// The type that `entries` give to `name`: that of the first entry of that
/// name, or `None` where there is no such entry.
pub open spec fn type_of_name(entries: Seq<(Seq<char>, Type)>, name: Seq<char>) -> Option<Type>
    decreases entries.len(),
{
    if entries.len() == 0 {
        None
    } else if entries[0].0 == name {
        Some(entries[0].1)
    } else {
        type_of_name(entries.skip(1), name)
    }
}

/// A name has a type exactly if it is the name of an entry.
pub proof fn lemma_type_of_name(entries: Seq<(Seq<char>, Type)>, name: Seq<char>)
    ensures
        type_of_name(entries, name) is Some <==> has_name(entries, name),
    decreases entries.len(),
{
    if entries.len() > 0 {
        if entries[0].0 == name {
        } else {
            let rest = entries.skip(1);
            lemma_type_of_name(rest, name);
            if has_name(rest, name) {
                let i = choose|i: int| 0 <= i < rest.len() && (#[trigger] rest[i]).0 == name;
                assert(entries[i + 1] == rest[i]);
            }
            if has_name(entries, name) {
                let i = choose|i: int| 0 <= i < entries.len() && (#[trigger] entries[i]).0 == name;
                assert(rest[i - 1] == entries[i]);
            }
        }
    }
}

/// The parameters of a function: each name with its type, in the order in
/// which they were declared. No name occurs twice.
#[derive(Debug, PartialEq, Eq)]
pub struct FunctionParameters {
    entries: Vec<(String, Type)>,
}

impl FunctionParameters {
    /// The names and types, in order.
    pub closed spec fn view(&self) -> Seq<(Seq<char>, Type)> {
        Seq::new(self.entries@.len(), |i: int| (self.entries@[i].0@, self.entries@[i].1))
    }

    /// No name occurs twice.
    pub open spec fn wf(&self) -> bool {
        distinct_names(self@)
    }

    /// No parameters.
    pub fn new() -> (parameters: FunctionParameters)
        ensures
            parameters@ == Seq::<(Seq<char>, Type)>::empty(),
            parameters.wf(),
    {
        let parameters = FunctionParameters { entries: Vec::new() };
        assert(parameters@ =~= Seq::<(Seq<char>, Type)>::empty());
        parameters
    }

    /// The number of parameters.
    pub fn len(&self) -> (n: usize)
        ensures
            n == self@.len(),
    {
        self.entries.len()
    }

    /// The name of the parameter at position `index`.
    pub fn name(&self, index: usize) -> (name: &String)
        requires
            index < self@.len(),
        ensures
            name@ == self@[index as int].0,
    {
        &self.entries[index].0
    }

    /// The type of the parameter at position `index`.
    pub fn type_at(&self, index: usize) -> (ty: Type)
        requires
            index < self@.len(),
        ensures
            ty == self@[index as int].1,
    {
        self.entries[index].1
    }

    /// The type of the parameter called `name`, or `None` where there is no
    /// such parameter.
    pub fn get(&self, name: &str) -> (ty: Option<Type>)
        ensures
            ty == type_of_name(self@, name@),
    {
        let mut i: usize = 0;
        assert(self@.skip(0) =~= self@);
        while i < self.entries.len()
            invariant
                i <= self@.len(),
                self@.len() == self.entries@.len(),
                type_of_name(self@, name@) == type_of_name(self@.skip(i as int), name@),
            decreases self@.len() - i,
        {
            let ghost rest = self@.skip(i as int);
            assert(rest[0] == self@[i as int]);
            assert(rest.skip(1) =~= self@.skip(i + 1));
            if same_text(self.entries[i].0.as_str(), name) {
                return Some(self.entries[i].1);
            }
            i += 1;
        }
        None
    }

    /// Declares the parameter `name` with type `ty`.
    ///
    /// Where a parameter of that name exists already, nothing changes and the
    /// type it has is returned; otherwise the parameter is added behind the
    /// others and `None` is returned.
    pub fn insert(&mut self, name: String, ty: Type) -> (previous: Option<Type>)
        requires
            old(self).wf(),
        ensures
            final(self).wf(),
            previous == type_of_name(old(self)@, name@),
            previous is Some ==> final(self)@ == old(self)@,
            previous is None ==> final(self)@ == old(self)@.push((name@, ty)),
    {
        let previous = self.get(name.as_str());
        if previous.is_none() {
            proof {
                lemma_type_of_name(self@, name@);
            }
            self.entries.push((name, ty));
            assert(self@ =~= old(self)@.push((name@, ty)));
        }
        previous
    }
}

/// The model of the parameters of a function, where it has any.
pub open spec fn optional_parameters_view(parameters: Option<FunctionParameters>) -> Option<
    Seq<(Seq<char>, Type)>,
> {
    match parameters {
        None => None,
        Some(list) => Some(list@),
    }
}

/// The model of the block of a function, where it has one.
pub open spec fn optional_block_view(block: Option<Block>) -> Option<Seq<StatementView>> {
    match block {
        None => None,
        Some(list) => Some(statements_view(list@)),
    }
}

/// A function.
#[derive(Debug, PartialEq, Eq)]
pub struct Function {
    /// Whether the function is declared impure.
    pub impure: bool,
    /// The name of the function.
    pub name: String,
    /// The parameters; `None` for an empty pair of parentheses.
    pub parameters: Option<FunctionParameters>,
    /// The return type, where one is declared.
    pub return_type: Option<ReturnType>,
    /// The body; `None` for a declaration that ends in `;`, which is not the
    /// same as an empty body.
    pub block: Option<Block>,
}

/// The model of a function.
pub struct FunctionView {
    pub impure: bool,
    pub name: Seq<char>,
    pub parameters: Option<Seq<(Seq<char>, Type)>>,
    pub return_type: Option<ReturnType>,
    pub block: Option<Seq<StatementView>>,
}

impl Function {
    /// The function is well formed: no two of its parameters have one name.
    pub open spec fn wf(&self) -> bool {
        match self.parameters {
            Some(parameters) => parameters.wf(),
            None => true,
        }
    }

    /// The model of the function.
    pub open spec fn view(&self) -> FunctionView {
        FunctionView {
            impure: self.impure,
            name: self.name@,
            parameters: optional_parameters_view(self.parameters),
            return_type: self.return_type,
            block: optional_block_view(self.block),
        }
    }
}

/// What may stand at the top level of a program.
#[derive(Debug, PartialEq, Eq)]
pub enum TopLevelItem {
    /// A function, declared or defined.
    Function(Function),
}

/// The model of a top-level item.
pub enum TopLevelItemView {
    Function(FunctionView),
}

impl TopLevelItem {
    /// The item is well formed.
    pub open spec fn wf(&self) -> bool {
        match self {
            TopLevelItem::Function(function) => function.wf(),
        }
    }

    /// The model of the item.
    pub open spec fn view(&self) -> TopLevelItemView {
        match self {
            TopLevelItem::Function(function) => TopLevelItemView::Function(function@),
        }
    }
}

/// A program: its top-level items, in order.
pub type Ast = Vec<TopLevelItem>;

/// The models of the items of a program, in order.
pub open spec fn items_view(list: Seq<TopLevelItem>) -> Seq<TopLevelItemView> {
    Seq::new(list.len(), |i: int| list[i]@)
}

} // verus!
