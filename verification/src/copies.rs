//! Deep copies of trees: `Clone` for the tree types. A copy has the model
//! of what it was made from.

use crate::ast::{
    arm_views, elif_views, expr_views, field_views, optional_type_view, stmt_views, string_views,
    type_views, typed_name_views, typed_stmt_views, variant_views, EnumPattern, Expression,
    Function, Literal, Statement, Type, TypedExpression, TypedFunction, TypedStatement,
};
use vstd::prelude::*;

verus! {

/// A copy of a type.
fn copy_type(t: &Type) -> (copy: Type)
    ensures
        copy@ == t@,
    decreases t, 0nat,
{
    match t {
        Type::Integer => Type::Integer,
        Type::Float => Type::Float,
        Type::String => Type::String,
        Type::Boolean => Type::Boolean,
        Type::Void => Type::Void,
        Type::Reference(inner) => Type::Reference(Box::new(copy_type(inner))),
        Type::MutableReference(inner) => Type::MutableReference(Box::new(copy_type(inner))),
        Type::Array(inner, length) => Type::Array(Box::new(copy_type(inner)), *length),
        Type::DynamicArray(inner) => Type::DynamicArray(Box::new(copy_type(inner))),
        Type::Slice(inner) => Type::Slice(Box::new(copy_type(inner))),
        Type::Pointer(inner) => Type::Pointer(Box::new(copy_type(inner))),
        Type::Function(parameters, result) => Type::Function(
            copy_types(parameters),
            Box::new(copy_type(result)),
        ),
        Type::Struct(name, fields) => Type::Struct(name.clone(), copy_typed_names(fields)),
        Type::Enum(name, variants) => Type::Enum(name.clone(), copy_variants(variants)),
        Type::Generic(name) => Type::Generic(name.clone()),
        Type::Unknown => Type::Unknown,
    }
}

/// Copies of types, in order.
#[verifier::loop_isolation(false)]
fn copy_types(types: &Vec<Type>) -> (copy: Vec<Type>)
    ensures
        type_views(copy@) == type_views(types@),
    decreases types, 1nat,
{
    let mut copy: Vec<Type> = Vec::new();
    let mut i: usize = 0;
    while i < types.len()
        invariant
            i <= types.len(),
            copy.len() == i,
            forall|j: int| 0 <= j < i ==> copy[j]@ == types[j]@,
        decreases types.len() - i,
    {
        copy.push(copy_type(&types[i]));
        i += 1;
    }
    copy
}

/// Copies of names with their types, in order.
#[verifier::loop_isolation(false)]
fn copy_typed_names(names: &Vec<(String, Type)>) -> (copy: Vec<(String, Type)>)
    ensures
        typed_name_views(copy@) == typed_name_views(names@),
    decreases names, 1nat,
{
    let mut copy: Vec<(String, Type)> = Vec::new();
    let mut i: usize = 0;
    while i < names.len()
        invariant
            i <= names.len(),
            copy.len() == i,
            forall|j: int| 0 <= j < i ==> copy[j].0@ == names[j].0@ && copy[j].1@ == names[j].1@,
        decreases names.len() - i,
    {
        copy.push((names[i].0.clone(), copy_type(&names[i].1)));
        i += 1;
    }
    copy
}

/// Copies of the variants of an enum type, in order.
#[verifier::loop_isolation(false)]
fn copy_variants(variants: &Vec<(String, Option<Vec<Type>>)>) -> (copy: Vec<
    (String, Option<Vec<Type>>),
>)
    ensures
        variant_views(copy@) == variant_views(variants@),
    decreases variants, 2nat,
{
    let mut copy: Vec<(String, Option<Vec<Type>>)> = Vec::new();
    let mut i: usize = 0;
    while i < variants.len()
        invariant
            i <= variants.len(),
            copy.len() == i,
            forall|j: int| 0 <= j < i ==> variant_views(copy@)[j] == variant_views(variants@)[j],
        decreases variants.len() - i,
    {
        let payload = match &variants[i].1 {
            Some(types) => Some(copy_types(types)),
            None => None,
        };
        copy.push((variants[i].0.clone(), payload));
        i += 1;
    }
    copy
}

impl Clone for Type {
    fn clone(&self) -> (copy: Type)
        ensures
            copy@ == self@,
    {
        copy_type(self)
    }
}

/// A copy of a type, where there is one.
fn copy_optional_type(t: &Option<Type>) -> (copy: Option<Type>)
    ensures
        optional_type_view(copy) == optional_type_view(*t),
{
    match t {
        Some(t) => Some(copy_type(t)),
        None => None,
    }
}

impl Clone for Literal {
    fn clone(&self) -> (copy: Literal)
        ensures
            copy@ == self@,
    {
        match self {
            Literal::Integer(n) => Literal::Integer(*n),
            Literal::String(s) => Literal::String(s.clone()),
            Literal::Boolean(b) => Literal::Boolean(*b),
        }
    }
}

/// Copies of strings, in order.
fn copy_strings(strings: &Vec<String>) -> (copy: Vec<String>)
    ensures
        string_views(copy@) == string_views(strings@),
{
    let mut copy: Vec<String> = Vec::new();
    let mut i: usize = 0;
    while i < strings.len()
        invariant
            i <= strings.len(),
            copy.len() == i,
            forall|j: int| 0 <= j < i ==> copy[j]@ == strings[j]@,
        decreases strings.len() - i,
    {
        copy.push(strings[i].clone());
        i += 1;
    }
    copy
}

impl Clone for EnumPattern {
    fn clone(&self) -> (copy: EnumPattern)
        ensures
            copy@ == self@,
    {
        match self {
            EnumPattern::Variant(name, bindings) => EnumPattern::Variant(
                name.clone(),
                match bindings {
                    Some(names) => Some(copy_strings(names)),
                    None => None,
                },
            ),
            EnumPattern::Wildcard => EnumPattern::Wildcard,
            EnumPattern::Literal(literal) => EnumPattern::Literal(literal.clone()),
        }
    }
}

/// A copy of an expression.
fn copy_expression(e: &Expression) -> (copy: Expression)
    ensures
        copy@ == e@,
    decreases e, 0nat,
{
    match e {
        Expression::Literal(literal) => Expression::Literal(literal.clone()),
        Expression::Variable(name) => Expression::Variable(name.clone()),
        Expression::VariableDeclaration { name, value, explicit_type } => {
            Expression::VariableDeclaration {
                name: name.clone(),
                value: Box::new(copy_expression(value)),
                explicit_type: copy_optional_type(explicit_type),
            }
        },
        Expression::Binary { left, operator, right } => Expression::Binary {
            left: Box::new(copy_expression(left)),
            operator: *operator,
            right: Box::new(copy_expression(right)),
        },
        Expression::Call { name, arguments } => Expression::Call {
            name: name.clone(),
            arguments: copy_expressions(arguments),
        },
        Expression::FormatCall { name, format_string, arguments } => Expression::FormatCall {
            name: name.clone(),
            format_string: format_string.clone(),
            arguments: copy_expressions(arguments),
        },
        Expression::ArrayLiteral(elements) => Expression::ArrayLiteral(copy_expressions(elements)),
        Expression::ArrayAccess { array, index } => Expression::ArrayAccess {
            array: Box::new(copy_expression(array)),
            index: Box::new(copy_expression(index)),
        },
        Expression::ArrayAssignment { array, index, value } => Expression::ArrayAssignment {
            array: Box::new(copy_expression(array)),
            index: Box::new(copy_expression(index)),
            value: Box::new(copy_expression(value)),
        },
        Expression::StructDefinition { name, fields } => Expression::StructDefinition {
            name: name.clone(),
            fields: copy_typed_names(fields),
        },
        Expression::StructInitialization { name, fields } => Expression::StructInitialization {
            name: name.clone(),
            fields: copy_fields(fields),
        },
        Expression::StructFieldAccess { object, field } => Expression::StructFieldAccess {
            object: Box::new(copy_expression(object)),
            field: field.clone(),
        },
        Expression::StructFieldAssignment { object, field, value } => {
            Expression::StructFieldAssignment {
                object: Box::new(copy_expression(object)),
                field: field.clone(),
                value: Box::new(copy_expression(value)),
            }
        },
        Expression::EnumVariantCreation { enum_name, variant_name, values } => {
            Expression::EnumVariantCreation {
                enum_name: enum_name.clone(),
                variant_name: variant_name.clone(),
                values: copy_expressions(values),
            }
        },
        Expression::EnumMatch { expression, arms } => Expression::EnumMatch {
            expression: Box::new(copy_expression(expression)),
            arms: copy_arms(arms),
        },
    }
}

/// Copies of expressions, in order.
#[verifier::loop_isolation(false)]
fn copy_expressions(expressions: &Vec<Expression>) -> (copy: Vec<Expression>)
    ensures
        expr_views(copy@) == expr_views(expressions@),
    decreases expressions, 1nat,
{
    let mut copy: Vec<Expression> = Vec::new();
    let mut i: usize = 0;
    while i < expressions.len()
        invariant
            i <= expressions.len(),
            copy.len() == i,
            forall|j: int| 0 <= j < i ==> copy[j]@ == expressions[j]@,
        decreases expressions.len() - i,
    {
        copy.push(copy_expression(&expressions[i]));
        i += 1;
    }
    copy
}

/// Copies of initializers, in order.
#[verifier::loop_isolation(false)]
fn copy_fields(fields: &Vec<(String, Expression)>) -> (copy: Vec<(String, Expression)>)
    ensures
        field_views(copy@) == field_views(fields@),
    decreases fields, 1nat,
{
    let mut copy: Vec<(String, Expression)> = Vec::new();
    let mut i: usize = 0;
    while i < fields.len()
        invariant
            i <= fields.len(),
            copy.len() == i,
            forall|j: int| 0 <= j < i ==> copy[j].0@ == fields[j].0@ && copy[j].1@ == fields[j].1@,
        decreases fields.len() - i,
    {
        copy.push((fields[i].0.clone(), copy_expression(&fields[i].1)));
        i += 1;
    }
    copy
}

/// Copies of match arms, in order.
#[verifier::loop_isolation(false)]
fn copy_arms(arms: &Vec<(EnumPattern, Expression)>) -> (copy: Vec<(EnumPattern, Expression)>)
    ensures
        arm_views(copy@) == arm_views(arms@),
    decreases arms, 1nat,
{
    let mut copy: Vec<(EnumPattern, Expression)> = Vec::new();
    let mut i: usize = 0;
    while i < arms.len()
        invariant
            i <= arms.len(),
            copy.len() == i,
            forall|j: int| 0 <= j < i ==> copy[j].0@ == arms[j].0@ && copy[j].1@ == arms[j].1@,
        decreases arms.len() - i,
    {
        copy.push((arms[i].0.clone(), copy_expression(&arms[i].1)));
        i += 1;
    }
    copy
}

impl Clone for Expression {
    fn clone(&self) -> (copy: Expression)
        ensures
            copy@ == self@,
    {
        copy_expression(self)
    }
}

/// A copy of a statement.
fn copy_statement(s: &Statement) -> (copy: Statement)
    ensures
        copy@ == s@,
    decreases s, 0nat,
{
    match s {
        Statement::Expression(e) => Statement::Expression(copy_expression(e)),
        Statement::VariableDeclaration { name, value, explicit_type } => {
            Statement::VariableDeclaration {
                name: name.clone(),
                value: copy_expression(value),
                explicit_type: copy_optional_type(explicit_type),
            }
        },
        Statement::Block(body) => Statement::Block(copy_statements(body)),
        Statement::Function(f) => Statement::Function(copy_function(f)),
        Statement::If { condition, then_branch, elif_branches, else_branch } => Statement::If {
            condition: copy_expression(condition),
            then_branch: copy_statements(then_branch),
            elif_branches: copy_elifs(elif_branches),
            else_branch: match else_branch {
                Some(body) => Some(copy_statements(body)),
                None => None,
            },
        },
        Statement::While { condition, body } => Statement::While {
            condition: copy_expression(condition),
            body: copy_statements(body),
        },
        Statement::For { variable, iterable, body } => Statement::For {
            variable: variable.clone(),
            iterable: copy_expression(iterable),
            body: copy_statements(body),
        },
        Statement::Break => Statement::Break,
        Statement::Continue => Statement::Continue,
        Statement::UnsafeBlock(body) => Statement::UnsafeBlock(copy_statements(body)),
        Statement::Import(module) => Statement::Import(module.clone()),
        Statement::ImportAs(module, alias) => Statement::ImportAs(module.clone(), alias.clone()),
    }
}

/// Copies of statements, in order.
#[verifier::loop_isolation(false)]
fn copy_statements(statements: &Vec<Statement>) -> (copy: Vec<Statement>)
    ensures
        stmt_views(copy@) == stmt_views(statements@),
    decreases statements, 1nat,
{
    let mut copy: Vec<Statement> = Vec::new();
    let mut i: usize = 0;
    while i < statements.len()
        invariant
            i <= statements.len(),
            copy.len() == i,
            forall|j: int| 0 <= j < i ==> copy[j]@ == statements[j]@,
        decreases statements.len() - i,
    {
        copy.push(copy_statement(&statements[i]));
        i += 1;
    }
    copy
}

/// Copies of `elif` branches, in order.
#[verifier::loop_isolation(false)]
fn copy_elifs(branches: &Vec<(Expression, Vec<Statement>)>) -> (copy: Vec<
    (Expression, Vec<Statement>),
>)
    ensures
        elif_views(copy@) == elif_views(branches@),
    decreases branches, 2nat,
{
    let mut copy: Vec<(Expression, Vec<Statement>)> = Vec::new();
    let mut i: usize = 0;
    while i < branches.len()
        invariant
            i <= branches.len(),
            copy.len() == i,
            forall|j: int|
                0 <= j < i ==> copy[j].0@ == branches[j].0@ && stmt_views(copy[j].1@) == stmt_views(
                    branches[j].1@,
                ),
        decreases branches.len() - i,
    {
        copy.push((copy_expression(&branches[i].0), copy_statements(&branches[i].1)));
        i += 1;
    }
    copy
}

/// A copy of a function.
fn copy_function(f: &Function) -> (copy: Function)
    ensures
        copy@ == f@,
    decreases f, 0nat,
{
    Function {
        name: f.name.clone(),
        parameters: copy_typed_names(&f.parameters),
        return_type: copy_type(&f.return_type),
        body: copy_statements(&f.body),
    }
}

impl Clone for Statement {
    fn clone(&self) -> (copy: Statement)
        ensures
            copy@ == self@,
    {
        copy_statement(self)
    }
}

impl Clone for Function {
    fn clone(&self) -> (copy: Function)
        ensures
            copy@ == self@,
    {
        copy_function(self)
    }
}

impl Clone for TypedExpression {
    fn clone(&self) -> (copy: TypedExpression)
        ensures
            copy@ == self@,
    {
        TypedExpression {
            expression: copy_expression(&self.expression),
            type_info: copy_type(&self.type_info),
        }
    }
}

/// A copy of a typed statement.
fn copy_typed_statement(s: &TypedStatement) -> (copy: TypedStatement)
    ensures
        copy@ == s@,
    decreases s, 0nat,
{
    match s {
        TypedStatement::Expression(e) => TypedStatement::Expression(e.clone()),
        TypedStatement::VariableDeclaration { name, value, declared_type } => {
            TypedStatement::VariableDeclaration {
                name: name.clone(),
                value: value.clone(),
                declared_type: copy_type(declared_type),
            }
        },
        TypedStatement::Block(body) => TypedStatement::Block(copy_typed_statements(body)),
        TypedStatement::Function(f) => TypedStatement::Function(copy_typed_function(f)),
    }
}

/// Copies of typed statements, in order.
#[verifier::loop_isolation(false)]
fn copy_typed_statements(statements: &Vec<TypedStatement>) -> (copy: Vec<TypedStatement>)
    ensures
        typed_stmt_views(copy@) == typed_stmt_views(statements@),
    decreases statements, 1nat,
{
    let mut copy: Vec<TypedStatement> = Vec::new();
    let mut i: usize = 0;
    while i < statements.len()
        invariant
            i <= statements.len(),
            copy.len() == i,
            forall|j: int| 0 <= j < i ==> copy[j]@ == statements[j]@,
        decreases statements.len() - i,
    {
        copy.push(copy_typed_statement(&statements[i]));
        i += 1;
    }
    copy
}

/// A copy of a typed function.
fn copy_typed_function(f: &TypedFunction) -> (copy: TypedFunction)
    ensures
        copy@ == f@,
    decreases f, 0nat,
{
    TypedFunction {
        name: f.name.clone(),
        parameters: copy_typed_names(&f.parameters),
        return_type: copy_type(&f.return_type),
        body: copy_typed_statements(&f.body),
    }
}

impl Clone for TypedStatement {
    fn clone(&self) -> (copy: TypedStatement)
        ensures
            copy@ == self@,
    {
        copy_typed_statement(self)
    }
}

impl Clone for TypedFunction {
    fn clone(&self) -> (copy: TypedFunction)
        ensures
            copy@ == self@,
    {
        copy_typed_function(self)
    }
}

} // verus!
