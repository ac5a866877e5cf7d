//! The abstract syntax tree and its mathematical model.
//!
//! Every tree type has a view in which vectors are sequences and text is a
//! sequence of characters. Contracts elsewhere in the crate speak of views.

use vstd::prelude::*;

verus! {

/// Type descriptors. They occur only as optional annotations.
#[derive(Debug, PartialEq, Eq)]
pub enum Type {
    Integer,
    Float,
    String,
    Boolean,
    Void,
    Reference(Box<Type>),
    MutableReference(Box<Type>),
    Array(Box<Type>, usize),
    DynamicArray(Box<Type>),
    Slice(Box<Type>),
    Pointer(Box<Type>),
    Function(Vec<Type>, Box<Type>),
    Struct(String, Vec<(String, Type)>),
    Enum(String, Vec<(String, Option<Vec<Type>>)>),
    Generic(String),
    Unknown,
}

/// Model of a [`Type`].
pub enum TypeView {
    Integer,
    Float,
    String,
    Boolean,
    Void,
    Reference(Box<TypeView>),
    MutableReference(Box<TypeView>),
    Array(Box<TypeView>, usize),
    DynamicArray(Box<TypeView>),
    Slice(Box<TypeView>),
    Pointer(Box<TypeView>),
    Function(Seq<TypeView>, Box<TypeView>),
    Struct(Seq<char>, Seq<(Seq<char>, TypeView)>),
    Enum(Seq<char>, Seq<(Seq<char>, Option<Seq<TypeView>>)>),
    Generic(Seq<char>),
    Unknown,
}

/// The model of a type.
pub open spec fn type_view(t: Type) -> TypeView
    decreases t,
{
    match t {
        Type::Integer => TypeView::Integer,
        Type::Float => TypeView::Float,
        Type::String => TypeView::String,
        Type::Boolean => TypeView::Boolean,
        Type::Void => TypeView::Void,
        Type::Reference(inner) => TypeView::Reference(Box::new(type_view(*inner))),
        Type::MutableReference(inner) => TypeView::MutableReference(
            Box::new(type_view(*inner)),
        ),
        Type::Array(inner, length) => TypeView::Array(Box::new(type_view(*inner)), length),
        Type::DynamicArray(inner) => TypeView::DynamicArray(Box::new(type_view(*inner))),
        Type::Slice(inner) => TypeView::Slice(Box::new(type_view(*inner))),
        Type::Pointer(inner) => TypeView::Pointer(Box::new(type_view(*inner))),
        Type::Function(parameters, result) => TypeView::Function(
            type_views(parameters@),
            Box::new(type_view(*result)),
        ),
        Type::Struct(name, fields) => TypeView::Struct(name@, typed_name_views(fields@)),
        Type::Enum(name, variants) => TypeView::Enum(name@, variant_views(variants@)),
        Type::Generic(name) => TypeView::Generic(name@),
        Type::Unknown => TypeView::Unknown,
    }
}

/// The models of a sequence of types, element by element.
pub open spec fn type_views(ts: Seq<Type>) -> Seq<TypeView>
    decreases ts,
{
    Seq::new(
        ts.len(),
        |i: int|
            if 0 <= i < ts.len() {
                type_view(ts[i])
            } else {
                arbitrary()
            },
    )
}

/// Names with their declared types, element by element.
pub open spec fn typed_name_views(names: Seq<(String, Type)>) -> Seq<(Seq<char>, TypeView)>
    decreases names,
{
    Seq::new(
        names.len(),
        |i: int|
            if 0 <= i < names.len() {
                (names[i].0@, type_view(names[i].1))
            } else {
                arbitrary()
            },
    )
}

/// The models of the variants of an enum type, element by element.
pub open spec fn variant_views(variants: Seq<(String, Option<Vec<Type>>)>) -> Seq<
    (Seq<char>, Option<Seq<TypeView>>),
>
    decreases variants,
{
    Seq::new(
        variants.len(),
        |i: int|
            if 0 <= i < variants.len() {
                (
                    variants[i].0@,
                    match variants[i].1 {
                        Some(payload) => Some(type_views(payload@)),
                        None => None,
                    },
                )
            } else {
                arbitrary()
            },
    )
}

impl View for Type {
    type V = TypeView;

    open spec fn view(&self) -> TypeView {
        type_view(*self)
    }
}

/// The model of an optional type.
pub open spec fn optional_type_view(t: Option<Type>) -> Option<TypeView> {
    match t {
        Some(t) => Some(t@),
        None => None,
    }
}

/// Binary operators, arithmetic first, then comparisons.
#[derive(Debug, Clone, Copy, PartialEq, Eq)]
pub enum BinaryOp {
    Add,
    Subtract,
    Multiply,
    Divide,
    Modulo,
    Equal,
    NotEqual,
    Less,
    LessEqual,
    Greater,
    GreaterEqual,
}

/// A literal of the source text. A string literal keeps its quotes and
/// escapes as written.
#[derive(Debug)]
pub enum Literal {
    Integer(i64),
    String(String),
    Boolean(bool),
}

/// Model of a [`Literal`].
pub enum LiteralView {
    Integer(i64),
    String(Seq<char>),
    Boolean(bool),
}

impl View for Literal {
    type V = LiteralView;

    open spec fn view(&self) -> LiteralView {
        match self {
            Literal::Integer(n) => LiteralView::Integer(*n),
            Literal::String(s) => LiteralView::String(s@),
            Literal::Boolean(b) => LiteralView::Boolean(*b),
        }
    }
}

/// A pattern of an enum match arm.
#[derive(Debug)]
pub enum EnumPattern {
    Variant(String, Option<Vec<String>>),
    Wildcard,
    Literal(Literal),
}

/// Model of an [`EnumPattern`].
pub enum PatternView {
    Variant(Seq<char>, Option<Seq<Seq<char>>>),
    Wildcard,
    Literal(LiteralView),
}

/// The character sequences of a sequence of strings.
pub open spec fn string_views(names: Seq<String>) -> Seq<Seq<char>> {
    names.map_values(|s: String| s@)
}

impl View for EnumPattern {
    type V = PatternView;

    open spec fn view(&self) -> PatternView {
        match self {
            EnumPattern::Variant(name, bindings) => PatternView::Variant(
                name@,
                match bindings {
                    Some(names) => Some(string_views(names@)),
                    None => None,
                },
            ),
            EnumPattern::Wildcard => PatternView::Wildcard,
            EnumPattern::Literal(literal) => PatternView::Literal(literal@),
        }
    }
}

/// An expression. Each node owns its children.
#[derive(Debug)]
pub enum Expression {
    Literal(Literal),
    Variable(String),
    VariableDeclaration { name: String, value: Box<Expression>, explicit_type: Option<Type> },
    Binary { left: Box<Expression>, operator: BinaryOp, right: Box<Expression> },
    Call { name: String, arguments: Vec<Expression> },
    FormatCall { name: String, format_string: String, arguments: Vec<Expression> },
    ArrayLiteral(Vec<Expression>),
    ArrayAccess { array: Box<Expression>, index: Box<Expression> },
    ArrayAssignment { array: Box<Expression>, index: Box<Expression>, value: Box<Expression> },
    StructDefinition { name: String, fields: Vec<(String, Type)> },
    StructInitialization { name: String, fields: Vec<(String, Expression)> },
    StructFieldAccess { object: Box<Expression>, field: String },
    StructFieldAssignment { object: Box<Expression>, field: String, value: Box<Expression> },
    EnumVariantCreation { enum_name: String, variant_name: String, values: Vec<Expression> },
    EnumMatch { expression: Box<Expression>, arms: Vec<(EnumPattern, Expression)> },
}

/// Model of an [`Expression`].
pub enum ExprView {
    Literal(LiteralView),
    Variable(Seq<char>),
    VariableDeclaration { name: Seq<char>, value: Box<ExprView>, explicit_type: Option<TypeView> },
    Binary { left: Box<ExprView>, operator: BinaryOp, right: Box<ExprView> },
    Call { name: Seq<char>, arguments: Seq<ExprView> },
    FormatCall { name: Seq<char>, format_string: Seq<char>, arguments: Seq<ExprView> },
    ArrayLiteral(Seq<ExprView>),
    ArrayAccess { array: Box<ExprView>, index: Box<ExprView> },
    ArrayAssignment { array: Box<ExprView>, index: Box<ExprView>, value: Box<ExprView> },
    StructDefinition { name: Seq<char>, fields: Seq<(Seq<char>, TypeView)> },
    StructInitialization { name: Seq<char>, fields: Seq<(Seq<char>, ExprView)> },
    StructFieldAccess { object: Box<ExprView>, field: Seq<char> },
    StructFieldAssignment { object: Box<ExprView>, field: Seq<char>, value: Box<ExprView> },
    EnumVariantCreation { enum_name: Seq<char>, variant_name: Seq<char>, values: Seq<ExprView> },
    EnumMatch { expression: Box<ExprView>, arms: Seq<(PatternView, ExprView)> },
}

/// The model of an expression.
pub open spec fn expr_view(e: Expression) -> ExprView
    decreases e,
{
    match e {
        Expression::Literal(literal) => ExprView::Literal(literal@),
        Expression::Variable(name) => ExprView::Variable(name@),
        Expression::VariableDeclaration { name, value, explicit_type } => {
            ExprView::VariableDeclaration {
                name: name@,
                value: Box::new(expr_view(*value)),
                explicit_type: optional_type_view(explicit_type),
            }
        },
        Expression::Binary { left, operator, right } => ExprView::Binary {
            left: Box::new(expr_view(*left)),
            operator,
            right: Box::new(expr_view(*right)),
        },
        Expression::Call { name, arguments } => ExprView::Call {
            name: name@,
            arguments: expr_views(arguments@),
        },
        Expression::FormatCall { name, format_string, arguments } => ExprView::FormatCall {
            name: name@,
            format_string: format_string@,
            arguments: expr_views(arguments@),
        },
        Expression::ArrayLiteral(elements) => ExprView::ArrayLiteral(expr_views(elements@)),
        Expression::ArrayAccess { array, index } => ExprView::ArrayAccess {
            array: Box::new(expr_view(*array)),
            index: Box::new(expr_view(*index)),
        },
        Expression::ArrayAssignment { array, index, value } => ExprView::ArrayAssignment {
            array: Box::new(expr_view(*array)),
            index: Box::new(expr_view(*index)),
            value: Box::new(expr_view(*value)),
        },
        Expression::StructDefinition { name, fields } => ExprView::StructDefinition {
            name: name@,
            fields: typed_name_views(fields@),
        },
        Expression::StructInitialization { name, fields } => ExprView::StructInitialization {
            name: name@,
            fields: field_views(fields@),
        },
        Expression::StructFieldAccess { object, field } => ExprView::StructFieldAccess {
            object: Box::new(expr_view(*object)),
            field: field@,
        },
        Expression::StructFieldAssignment { object, field, value } => {
            ExprView::StructFieldAssignment {
                object: Box::new(expr_view(*object)),
                field: field@,
                value: Box::new(expr_view(*value)),
            }
        },
        Expression::EnumVariantCreation { enum_name, variant_name, values } => {
            ExprView::EnumVariantCreation {
                enum_name: enum_name@,
                variant_name: variant_name@,
                values: expr_views(values@),
            }
        },
        Expression::EnumMatch { expression, arms } => ExprView::EnumMatch {
            expression: Box::new(expr_view(*expression)),
            arms: arm_views(arms@),
        },
    }
}

/// The models of a sequence of expressions, element by element.
pub open spec fn expr_views(es: Seq<Expression>) -> Seq<ExprView>
    decreases es,
{
    Seq::new(
        es.len(),
        |i: int|
            if 0 <= i < es.len() {
                expr_view(es[i])
            } else {
                arbitrary()
            },
    )
}

/// The models of named initializers, element by element.
pub open spec fn field_views(fields: Seq<(String, Expression)>) -> Seq<(Seq<char>, ExprView)>
    decreases fields,
{
    Seq::new(
        fields.len(),
        |i: int|
            if 0 <= i < fields.len() {
                (fields[i].0@, expr_view(fields[i].1))
            } else {
                arbitrary()
            },
    )
}

/// The models of match arms, element by element.
pub open spec fn arm_views(arms: Seq<(EnumPattern, Expression)>) -> Seq<(PatternView, ExprView)>
    decreases arms,
{
    Seq::new(
        arms.len(),
        |i: int|
            if 0 <= i < arms.len() {
                (arms[i].0@, expr_view(arms[i].1))
            } else {
                arbitrary()
            },
    )
}

/// The model of a sequence of expressions has the model of each element in
/// its place.
pub proof fn lemma_expr_views(es: Seq<Expression>)
    ensures
        expr_views(es).len() == es.len(),
        forall|i: int| 0 <= i < es.len() ==> #[trigger] expr_views(es)[i] == es[i]@,
{
}

impl View for Expression {
    type V = ExprView;

    open spec fn view(&self) -> ExprView {
        expr_view(*self)
    }
}

/// A statement. Each node owns its children.
#[derive(Debug)]
pub enum Statement {
    Expression(Expression),
    VariableDeclaration { name: String, value: Expression, explicit_type: Option<Type> },
    Block(Vec<Statement>),
    Function(Function),
    If {
        condition: Expression,
        then_branch: Vec<Statement>,
        elif_branches: Vec<(Expression, Vec<Statement>)>,
        else_branch: Option<Vec<Statement>>,
    },
    While { condition: Expression, body: Vec<Statement> },
    For { variable: String, iterable: Expression, body: Vec<Statement> },
    Break,
    Continue,
    UnsafeBlock(Vec<Statement>),
    Import(String),
    ImportAs(String, String),
}

/// A function declaration: built once by the parser, read by the compiler.
#[derive(Debug)]
pub struct Function {
    pub name: String,
    pub parameters: Vec<(String, Type)>,
    pub return_type: Type,
    pub body: Vec<Statement>,
}

/// Model of a [`Statement`].
pub enum StmtView {
    Expression(ExprView),
    VariableDeclaration { name: Seq<char>, value: ExprView, explicit_type: Option<TypeView> },
    Block(Seq<StmtView>),
    Function(FunctionView),
    If {
        condition: ExprView,
        then_branch: Seq<StmtView>,
        elif_branches: Seq<(ExprView, Seq<StmtView>)>,
        else_branch: Option<Seq<StmtView>>,
    },
    While { condition: ExprView, body: Seq<StmtView> },
    For { variable: Seq<char>, iterable: ExprView, body: Seq<StmtView> },
    Break,
    Continue,
    UnsafeBlock(Seq<StmtView>),
    Import(Seq<char>),
    ImportAs(Seq<char>, Seq<char>),
}

/// Model of a [`Function`].
pub struct FunctionView {
    pub name: Seq<char>,
    pub parameters: Seq<(Seq<char>, TypeView)>,
    pub return_type: TypeView,
    pub body: Seq<StmtView>,
}

/// The model of a statement.
pub open spec fn stmt_view(s: Statement) -> StmtView
    decreases s,
{
    match s {
        Statement::Expression(e) => StmtView::Expression(e@),
        Statement::VariableDeclaration { name, value, explicit_type } => {
            StmtView::VariableDeclaration {
                name: name@,
                value: value@,
                explicit_type: optional_type_view(explicit_type),
            }
        },
        Statement::Block(body) => StmtView::Block(stmt_views(body@)),
        Statement::Function(f) => StmtView::Function(function_view(f)),
        Statement::If { condition, then_branch, elif_branches, else_branch } => StmtView::If {
            condition: condition@,
            then_branch: stmt_views(then_branch@),
            elif_branches: elif_views(elif_branches@),
            else_branch: match else_branch {
                Some(body) => Some(stmt_views(body@)),
                None => None,
            },
        },
        Statement::While { condition, body } => StmtView::While {
            condition: condition@,
            body: stmt_views(body@),
        },
        Statement::For { variable, iterable, body } => StmtView::For {
            variable: variable@,
            iterable: iterable@,
            body: stmt_views(body@),
        },
        Statement::Break => StmtView::Break,
        Statement::Continue => StmtView::Continue,
        Statement::UnsafeBlock(body) => StmtView::UnsafeBlock(stmt_views(body@)),
        Statement::Import(module) => StmtView::Import(module@),
        Statement::ImportAs(module, alias) => StmtView::ImportAs(module@, alias@),
    }
}

/// The models of a sequence of statements, element by element.
pub open spec fn stmt_views(ss: Seq<Statement>) -> Seq<StmtView>
    decreases ss,
{
    Seq::new(
        ss.len(),
        |i: int|
            if 0 <= i < ss.len() {
                stmt_view(ss[i])
            } else {
                arbitrary()
            },
    )
}

/// The models of `elif` branches, element by element.
pub open spec fn elif_views(branches: Seq<(Expression, Vec<Statement>)>) -> Seq<
    (ExprView, Seq<StmtView>),
>
    decreases branches,
{
    Seq::new(
        branches.len(),
        |i: int|
            if 0 <= i < branches.len() {
                (branches[i].0@, stmt_views(branches[i].1@))
            } else {
                arbitrary()
            },
    )
}

/// The model of a function declaration.
pub open spec fn function_view(f: Function) -> FunctionView
    decreases f,
{
    FunctionView {
        name: f.name@,
        parameters: typed_name_views(f.parameters@),
        return_type: f.return_type@,
        body: stmt_views(f.body@),
    }
}

/// The model of a sequence of `elif` branches has the model of each element
/// in its place.
pub proof fn lemma_elif_views(branches: Seq<(Expression, Vec<Statement>)>)
    ensures
        elif_views(branches).len() == branches.len(),
        forall|i: int|
            0 <= i < branches.len() ==> #[trigger] elif_views(branches)[i] == (
                branches[i].0@,
                stmt_views(branches[i].1@),
            ),
{
}

impl View for Statement {
    type V = StmtView;

    open spec fn view(&self) -> StmtView {
        stmt_view(*self)
    }
}

impl View for Function {
    type V = FunctionView;

    open spec fn view(&self) -> FunctionView {
        function_view(*self)
    }
}

/// An expression with the type assigned to it.
#[derive(Debug)]
pub struct TypedExpression {
    pub expression: Expression,
    pub type_info: Type,
}

/// Model of a [`TypedExpression`].
pub struct TypedExprView {
    pub expression: ExprView,
    pub type_info: TypeView,
}

impl View for TypedExpression {
    type V = TypedExprView;

    open spec fn view(&self) -> TypedExprView {
        TypedExprView { expression: self.expression@, type_info: self.type_info@ }
    }
}

/// A function whose body carries types.
#[derive(Debug)]
pub struct TypedFunction {
    pub name: String,
    pub parameters: Vec<(String, Type)>,
    pub return_type: Type,
    pub body: Vec<TypedStatement>,
}

/// A statement that carries types.
#[derive(Debug)]
pub enum TypedStatement {
    Expression(TypedExpression),
    VariableDeclaration { name: String, value: TypedExpression, declared_type: Type },
    Block(Vec<TypedStatement>),
    Function(TypedFunction),
}

/// Model of a [`TypedFunction`].
pub struct TypedFunctionView {
    pub name: Seq<char>,
    pub parameters: Seq<(Seq<char>, TypeView)>,
    pub return_type: TypeView,
    pub body: Seq<TypedStmtView>,
}

/// Model of a [`TypedStatement`].
pub enum TypedStmtView {
    Expression(TypedExprView),
    VariableDeclaration { name: Seq<char>, value: TypedExprView, declared_type: TypeView },
    Block(Seq<TypedStmtView>),
    Function(TypedFunctionView),
}

/// The model of a typed statement.
pub open spec fn typed_stmt_view(s: TypedStatement) -> TypedStmtView
    decreases s,
{
    match s {
        TypedStatement::Expression(e) => TypedStmtView::Expression(e@),
        TypedStatement::VariableDeclaration { name, value, declared_type } => {
            TypedStmtView::VariableDeclaration {
                name: name@,
                value: value@,
                declared_type: declared_type@,
            }
        },
        TypedStatement::Block(body) => TypedStmtView::Block(typed_stmt_views(body@)),
        TypedStatement::Function(f) => TypedStmtView::Function(typed_function_view(f)),
    }
}

/// The models of a sequence of typed statements, element by element.
pub open spec fn typed_stmt_views(ss: Seq<TypedStatement>) -> Seq<TypedStmtView>
    decreases ss,
{
    Seq::new(
        ss.len(),
        |i: int|
            if 0 <= i < ss.len() {
                typed_stmt_view(ss[i])
            } else {
                arbitrary()
            },
    )
}

/// The model of a typed function.
pub open spec fn typed_function_view(f: TypedFunction) -> TypedFunctionView
    decreases f,
{
    TypedFunctionView {
        name: f.name@,
        parameters: typed_name_views(f.parameters@),
        return_type: f.return_type@,
        body: typed_stmt_views(f.body@),
    }
}

impl View for TypedStatement {
    type V = TypedStmtView;

    open spec fn view(&self) -> TypedStmtView {
        typed_stmt_view(*self)
    }
}

impl View for TypedFunction {
    type V = TypedFunctionView;

    open spec fn view(&self) -> TypedFunctionView {
        typed_function_view(*self)
    }
}

} // verus!
