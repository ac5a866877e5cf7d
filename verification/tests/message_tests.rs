use voltage::{CompileError, Expected, ParseError, RuntimeError, Token};

#[test]
fn tokens_are_spelled_as_in_the_source() {
    assert_eq!(Token::Fn.spelling(), "fn");
    assert_eq!(Token::Arrow.spelling(), "->");
    assert_eq!(Token::DoubleColon.spelling(), "::");
    assert_eq!(Token::NotEqual.spelling(), "!=");
    assert_eq!(Token::Identifier("name".to_string()).spelling(), "name");
    assert_eq!(Token::Number(-12).spelling(), "-12");
    assert_eq!(Token::Number(0).spelling(), "0");
    assert_eq!(Token::String("\"s\"".to_string()).spelling(), "\"s\"");
}

#[test]
fn parse_error_messages() {
    assert_eq!(
        ParseError::UnexpectedToken {
            expected: Expected::Token(Token::Semi),
            found: Token::Number(1),
        }
        .message(),
        "Expected ';', got '1'"
    );
    assert_eq!(
        ParseError::UnexpectedToken { expected: Expected::Expression, found: Token::RightBrace }.message(),
        "Expected expression, got '}'"
    );
    assert_eq!(
        ParseError::UnexpectedEndOfInput { expected: Expected::Identifier }.message(),
        "Expected identifier, got EOF"
    );
    assert_eq!(
        ParseError::UnexpectedEndOfInput { expected: Expected::TypeName }.message(),
        "Expected type identifier, got EOF"
    );
    assert_eq!(
        ParseError::UnexpectedEndOfInput { expected: Expected::Statement }.message(),
        "Expected statement, got EOF"
    );
    assert_eq!(ParseError::InvalidTypeAnnotation("Widget".to_string()).message(), "Unknown type: Widget");
    assert_eq!(ParseError::InvalidCallTarget.message(), "Only variable names can be called");
}

#[test]
fn compile_error_messages() {
    assert_eq!(CompileError::NestedFunctionUnsupported.message(), "Nested functions are not supported");
    assert_eq!(CompileError::UnknownBuiltinArity.message(), "print and puts expect 1 argument");
    assert_eq!(CompileError::BreakOrContinueOutsideLoop.message(), "break or continue outside of a loop");
    assert_eq!(
        CompileError::NonIterableForTarget.message(),
        "for expects an array literal or a string literal"
    );
    assert_eq!(CompileError::UnresolvedCallee("f".to_string()).message(), "Unknown function: f");
    assert_eq!(CompileError::ReassignmentUnsupported.message(), "Assignment is not supported");
    assert_eq!(CompileError::ProgramTooLarge.message(), "Program too large");
}

#[test]
fn runtime_error_messages() {
    assert_eq!(RuntimeError::StackUnderflow.message(), "Stack underflow");
    assert_eq!(RuntimeError::TypeMismatch.message(), "Type error: operand of the wrong type");
    assert_eq!(RuntimeError::DivisionByZero.message(), "Division by zero");
    assert_eq!(RuntimeError::ModuloByZero.message(), "Modulo by zero");
    assert_eq!(RuntimeError::UndefinedVariable("x".to_string()).message(), "Undefined variable: x");
    assert_eq!(RuntimeError::UndefinedFunction.message(), "Function call expects a function");
    assert_eq!(RuntimeError::UnknownBuiltinId(12).message(), "Unknown builtin function ID: 12");
    assert_eq!(RuntimeError::UndefinedLocal(3).message(), "Undefined local variable: 3");
    assert_eq!(RuntimeError::InvalidConstant(0).message(), "Invalid constant index: 0");
}
