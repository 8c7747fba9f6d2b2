//! Compiler errors and warnings, with their codes and messages.
use vstd::prelude::*;

use crate::numbers::{self, decimal_chars};
use crate::text::push_char;


verus! {

/// What can stop a compilation.
#[derive(Debug, Clone)]
pub enum CompilerError {
    SyntaxError { line: usize, message: String, column: Option<usize>, length: Option<usize>, suggestion: Option<String> },
    UnknownCommand { line: usize, command: String },
    InvalidExpression { line: usize, message: String },
    EmptyExpression { line: usize },
    UnexpectedSymbol { line: usize, symbol: String },
    MissingEnd { line: usize, block_type: String },
    UnexpectedEnd { line: usize, block_type: String },
    MismatchedBlockEnd { line: usize, expected: String, found: String },
    UnclosedBlock { line: usize, block_type: String, start_line: usize },
    UnknownVariable { line: usize, name: String },
    VariableRedefinition { line: usize, name: String },
    InvalidVariableName { line: usize, name: String },
    UndefinedFunction { line: usize, name: String },
    FunctionRedefinition { line: usize, name: String },
    ReturnOutsideFunction { line: usize },
    UnknownLabel { line: usize, label: String },
    DuplicateDefinition { line: usize, name: String },
    DivisionByZero { line: usize },
    TypeMismatch { line: usize, expected: String, got: String },
    InvalidOperator { line: usize, operator: String },
    MismatchedParentheses { line: usize, left: usize, right: usize },
    InvalidDelay { line: usize, value: String },
    InvalidRepeat { line: usize, value: String },
    InvalidKeyCode { line: usize, code: String },
    InvalidModifier { line: usize, modifier: String },
    InvalidHex { line: usize, value: String },
    UnclosedIfDef { line: usize },
    DefineRedefinition { line: usize, name: String },
    CircularDefine { line: usize, name: String },
    PayloadTooLarge { size: usize },
    KeyNotFound { line: usize, key: String },
    IoError { message: String },
    IncompatibleDS1 { line: usize },
}

/// What a compilation reports without stopping.
#[derive(Debug, Clone)]
pub enum CompilerWarning {
    DefineReplacement { line: usize, label: String, old: String, new: String },
    UnusedVariable { line: usize, name: String },
    UnusedFunction { line: usize, name: String },
    DeprecatedSyntax { line: usize, old: String, new: String },
    SuspiciousDelay { line: usize, delay: u32 },
    EmptyBlock { line: usize, block_type: String },
    UnreachableCode { line: usize },
}

pub type CompilerResult<T> = Result<T, CompilerError>;

impl CompilerError {
    /// The line an error refers to; none for size and I/O errors.
    pub open spec fn spec_line(&self) -> Option<usize> {
        match self {
            CompilerError::SyntaxError { line, .. } => Some(*line),
            CompilerError::UnknownCommand { line, .. } => Some(*line),
            CompilerError::InvalidExpression { line, .. } => Some(*line),
            CompilerError::EmptyExpression { line, .. } => Some(*line),
            CompilerError::UnexpectedSymbol { line, .. } => Some(*line),
            CompilerError::MissingEnd { line, .. } => Some(*line),
            CompilerError::UnexpectedEnd { line, .. } => Some(*line),
            CompilerError::MismatchedBlockEnd { line, .. } => Some(*line),
            CompilerError::UnclosedBlock { line, .. } => Some(*line),
            CompilerError::UnknownVariable { line, .. } => Some(*line),
            CompilerError::VariableRedefinition { line, .. } => Some(*line),
            CompilerError::InvalidVariableName { line, .. } => Some(*line),
            CompilerError::UndefinedFunction { line, .. } => Some(*line),
            CompilerError::FunctionRedefinition { line, .. } => Some(*line),
            CompilerError::ReturnOutsideFunction { line, .. } => Some(*line),
            CompilerError::UnknownLabel { line, .. } => Some(*line),
            CompilerError::DuplicateDefinition { line, .. } => Some(*line),
            CompilerError::DivisionByZero { line, .. } => Some(*line),
            CompilerError::TypeMismatch { line, .. } => Some(*line),
            CompilerError::InvalidOperator { line, .. } => Some(*line),
            CompilerError::MismatchedParentheses { line, .. } => Some(*line),
            CompilerError::InvalidDelay { line, .. } => Some(*line),
            CompilerError::InvalidRepeat { line, .. } => Some(*line),
            CompilerError::InvalidKeyCode { line, .. } => Some(*line),
            CompilerError::InvalidModifier { line, .. } => Some(*line),
            CompilerError::InvalidHex { line, .. } => Some(*line),
            CompilerError::UnclosedIfDef { line, .. } => Some(*line),
            CompilerError::DefineRedefinition { line, .. } => Some(*line),
            CompilerError::CircularDefine { line, .. } => Some(*line),
            CompilerError::PayloadTooLarge { .. } => None,
            CompilerError::KeyNotFound { line, .. } => Some(*line),
            CompilerError::IoError { .. } => None,
            CompilerError::IncompatibleDS1 { line, .. } => Some(*line),
        }
    }

    /// The line number of the error, for the errors that have one.
    pub fn line(&self) -> (r: Option<usize>)
        ensures
            r == self.spec_line(),
    {
        match self {
            CompilerError::SyntaxError { line, .. } => Some(*line),
            CompilerError::UnknownCommand { line, .. } => Some(*line),
            CompilerError::InvalidExpression { line, .. } => Some(*line),
            CompilerError::EmptyExpression { line, .. } => Some(*line),
            CompilerError::UnexpectedSymbol { line, .. } => Some(*line),
            CompilerError::MissingEnd { line, .. } => Some(*line),
            CompilerError::UnexpectedEnd { line, .. } => Some(*line),
            CompilerError::MismatchedBlockEnd { line, .. } => Some(*line),
            CompilerError::UnclosedBlock { line, .. } => Some(*line),
            CompilerError::UnknownVariable { line, .. } => Some(*line),
            CompilerError::VariableRedefinition { line, .. } => Some(*line),
            CompilerError::InvalidVariableName { line, .. } => Some(*line),
            CompilerError::UndefinedFunction { line, .. } => Some(*line),
            CompilerError::FunctionRedefinition { line, .. } => Some(*line),
            CompilerError::ReturnOutsideFunction { line, .. } => Some(*line),
            CompilerError::UnknownLabel { line, .. } => Some(*line),
            CompilerError::DuplicateDefinition { line, .. } => Some(*line),
            CompilerError::DivisionByZero { line, .. } => Some(*line),
            CompilerError::TypeMismatch { line, .. } => Some(*line),
            CompilerError::InvalidOperator { line, .. } => Some(*line),
            CompilerError::MismatchedParentheses { line, .. } => Some(*line),
            CompilerError::InvalidDelay { line, .. } => Some(*line),
            CompilerError::InvalidRepeat { line, .. } => Some(*line),
            CompilerError::InvalidKeyCode { line, .. } => Some(*line),
            CompilerError::InvalidModifier { line, .. } => Some(*line),
            CompilerError::InvalidHex { line, .. } => Some(*line),
            CompilerError::UnclosedIfDef { line, .. } => Some(*line),
            CompilerError::DefineRedefinition { line, .. } => Some(*line),
            CompilerError::CircularDefine { line, .. } => Some(*line),
            CompilerError::PayloadTooLarge { .. } => None,
            CompilerError::KeyNotFound { line, .. } => Some(*line),
            CompilerError::IoError { .. } => None,
            CompilerError::IncompatibleDS1 { line, .. } => Some(*line),
        }
    }

    /// The column of a syntax error, when it was given.
    pub fn column(&self) -> (r: Option<usize>)
        ensures
            r == (match self {
                CompilerError::SyntaxError { column, .. } => *column,
                _ => None,
            }),
    {
        match self {
            CompilerError::SyntaxError { column, .. } => *column,
            _ => None,
        }
    }

    /// The length of a syntax error, when it was given.
    pub fn length(&self) -> (r: Option<usize>)
        ensures
            r == (match self {
                CompilerError::SyntaxError { length, .. } => *length,
                _ => None,
            }),
    {
        match self {
            CompilerError::SyntaxError { length, .. } => *length,
            _ => None,
        }
    }

    /// The suggestion attached to a syntax error, when it was given.
    pub fn suggestion(&self) -> (r: Option<&str>)
        ensures
            match self {
                CompilerError::SyntaxError { suggestion: Some(s), .. } => r matches Some(t) && t@ == s@,
                _ => r is None,
            },
    {
        match self {
            CompilerError::SyntaxError { suggestion: Some(s), .. } => Some(s.as_str()),
            _ => None,
        }
    }

    /// The diagnostic code of each kind of error.
    pub open spec fn spec_code(&self) -> Seq<char> {
        match self {
            CompilerError::SyntaxError { .. } => "E001"@,
            CompilerError::UnknownCommand { .. } => "E002"@,
            CompilerError::InvalidExpression { .. } => "E003"@,
            CompilerError::EmptyExpression { .. } => "E004"@,
            CompilerError::UnexpectedSymbol { .. } => "E005"@,
            CompilerError::MissingEnd { .. } => "E100"@,
            CompilerError::UnexpectedEnd { .. } => "E101"@,
            CompilerError::MismatchedBlockEnd { .. } => "E102"@,
            CompilerError::UnclosedBlock { .. } => "E103"@,
            CompilerError::UnknownVariable { .. } => "E200"@,
            CompilerError::VariableRedefinition { .. } => "E201"@,
            CompilerError::InvalidVariableName { .. } => "E202"@,
            CompilerError::UndefinedFunction { .. } => "E203"@,
            CompilerError::FunctionRedefinition { .. } => "E204"@,
            CompilerError::ReturnOutsideFunction { .. } => "E205"@,
            CompilerError::UnknownLabel { .. } => "E300"@,
            CompilerError::DuplicateDefinition { .. } => "E301"@,
            CompilerError::DivisionByZero { .. } => "E400"@,
            CompilerError::TypeMismatch { .. } => "E401"@,
            CompilerError::InvalidOperator { .. } => "E402"@,
            CompilerError::MismatchedParentheses { .. } => "E403"@,
            CompilerError::InvalidDelay { .. } => "E500"@,
            CompilerError::InvalidRepeat { .. } => "E501"@,
            CompilerError::InvalidKeyCode { .. } => "E502"@,
            CompilerError::InvalidModifier { .. } => "E503"@,
            CompilerError::InvalidHex { .. } => "E504"@,
            CompilerError::UnclosedIfDef { .. } => "E600"@,
            CompilerError::DefineRedefinition { .. } => "E601"@,
            CompilerError::CircularDefine { .. } => "E602"@,
            CompilerError::PayloadTooLarge { .. } => "E700"@,
            CompilerError::KeyNotFound { .. } => "E701"@,
            CompilerError::IoError { .. } => "E702"@,
            CompilerError::IncompatibleDS1 { .. } => "E703"@,
        }
    }

    /// The diagnostic code of the error.
    pub fn code(&self) -> (r: &'static str)
        ensures
            r@ == self.spec_code(),
    {
        match self {
            CompilerError::SyntaxError { .. } => "E001",
            CompilerError::UnknownCommand { .. } => "E002",
            CompilerError::InvalidExpression { .. } => "E003",
            CompilerError::EmptyExpression { .. } => "E004",
            CompilerError::UnexpectedSymbol { .. } => "E005",
            CompilerError::MissingEnd { .. } => "E100",
            CompilerError::UnexpectedEnd { .. } => "E101",
            CompilerError::MismatchedBlockEnd { .. } => "E102",
            CompilerError::UnclosedBlock { .. } => "E103",
            CompilerError::UnknownVariable { .. } => "E200",
            CompilerError::VariableRedefinition { .. } => "E201",
            CompilerError::InvalidVariableName { .. } => "E202",
            CompilerError::UndefinedFunction { .. } => "E203",
            CompilerError::FunctionRedefinition { .. } => "E204",
            CompilerError::ReturnOutsideFunction { .. } => "E205",
            CompilerError::UnknownLabel { .. } => "E300",
            CompilerError::DuplicateDefinition { .. } => "E301",
            CompilerError::DivisionByZero { .. } => "E400",
            CompilerError::TypeMismatch { .. } => "E401",
            CompilerError::InvalidOperator { .. } => "E402",
            CompilerError::MismatchedParentheses { .. } => "E403",
            CompilerError::InvalidDelay { .. } => "E500",
            CompilerError::InvalidRepeat { .. } => "E501",
            CompilerError::InvalidKeyCode { .. } => "E502",
            CompilerError::InvalidModifier { .. } => "E503",
            CompilerError::InvalidHex { .. } => "E504",
            CompilerError::UnclosedIfDef { .. } => "E600",
            CompilerError::DefineRedefinition { .. } => "E601",
            CompilerError::CircularDefine { .. } => "E602",
            CompilerError::PayloadTooLarge { .. } => "E700",
            CompilerError::KeyNotFound { .. } => "E701",
            CompilerError::IoError { .. } => "E702",
            CompilerError::IncompatibleDS1 { .. } => "E703",
        }
    }

    /// The text the error is shown with.
    pub open spec fn spec_message(&self) -> Seq<char> {
        match self {
            CompilerError::SyntaxError { line, message, .. } => "Syntax error at line "@ + numbers::decimal(line as nat) + ": "@ + message@,
            CompilerError::UnknownCommand { command, .. } => "Unknown command: "@ + command@,
            CompilerError::InvalidExpression { message, .. } => "Invalid expression: "@ + message@,
            CompilerError::EmptyExpression { .. } => "Empty expression"@,
            CompilerError::UnexpectedSymbol { symbol, .. } => "Unexpected symbol: "@ + symbol@,
            CompilerError::MissingEnd { block_type, .. } => "Missing END_"@ + block_type@,
            CompilerError::UnexpectedEnd { block_type, .. } => "Unexpected END_"@ + block_type@ + " without matching "@ + block_type@,
            CompilerError::MismatchedBlockEnd { expected, found, .. } => "Mismatched block end: expected END_"@ + expected@ + ", found END_"@ + found@,
            CompilerError::UnclosedBlock { block_type, start_line, .. } => "Unclosed block: "@ + block_type@ + " started at line "@ + numbers::decimal(start_line as nat),
            CompilerError::UnknownVariable { name, .. } => "Unknown variable: "@ + name@,
            CompilerError::VariableRedefinition { name, .. } => "Variable redefinition: "@ + name@,
            CompilerError::InvalidVariableName { name, .. } => "Invalid variable name: "@ + name@,
            CompilerError::UndefinedFunction { name, .. } => "Undefined function: "@ + name@,
            CompilerError::FunctionRedefinition { name, .. } => "Function redefinition: "@ + name@,
            CompilerError::ReturnOutsideFunction { .. } => "RETURN statement outside function"@,
            CompilerError::UnknownLabel { label, .. } => "Unknown label: "@ + label@,
            CompilerError::DuplicateDefinition { name, .. } => "Duplicate definition: "@ + name@,
            CompilerError::DivisionByZero { .. } => "Division by zero"@,
            CompilerError::TypeMismatch { expected, got, .. } => "Type mismatch: expected "@ + expected@ + ", got "@ + got@,
            CompilerError::InvalidOperator { operator, .. } => "Invalid operator: "@ + operator@,
            CompilerError::MismatchedParentheses { left, right, .. } => "Mismatched parentheses: "@ + numbers::decimal(left as nat) + " '(' vs "@ + numbers::decimal(right as nat) + " ')')"@,
            CompilerError::InvalidDelay { value, .. } => "Invalid delay value: "@ + value@,
            CompilerError::InvalidRepeat { value, .. } => "Invalid repeat count: "@ + value@,
            CompilerError::InvalidKeyCode { code, .. } => "Invalid key code: "@ + code@,
            CompilerError::InvalidModifier { modifier, .. } => "Invalid modifier: "@ + modifier@,
            CompilerError::InvalidHex { value, .. } => "Invalid hex value: "@ + value@,
            CompilerError::UnclosedIfDef { .. } => "Unclosed IF_DEFINED block"@,
            CompilerError::DefineRedefinition { name, .. } => "DEFINE redefinition: "@ + name@,
            CompilerError::CircularDefine { name, .. } => "Circular DEFINE reference: "@ + name@,
            CompilerError::PayloadTooLarge { size } => "Payload too large: "@ + numbers::decimal(size as nat) + " bytes (max 16384)"@,
            CompilerError::KeyNotFound { key, .. } => "Key not found in language file: "@ + key@,
            CompilerError::IoError { message } => "IO error: "@ + message@,
            CompilerError::IncompatibleDS1 { .. } => "Incompatible DuckyScript 1.0 syntax"@,
        }
    }

    /// The text the error is shown with.
    pub fn message(&self) -> (r: String)
        ensures
            r@ == self.spec_message(),
    {
        match self {
            CompilerError::SyntaxError { line, message, .. } => {
                let mut s = String::new();
                s.append("Syntax error at line ");
                append_decimal(&mut s, *line as u64);
                s.append(": ");
                s.append(message.as_str());
                s
            },
            CompilerError::UnknownCommand { command, .. } => {
                let mut s = String::new();
                s.append("Unknown command: ");
                s.append(command.as_str());
                s
            },
            CompilerError::InvalidExpression { message, .. } => {
                let mut s = String::new();
                s.append("Invalid expression: ");
                s.append(message.as_str());
                s
            },
            CompilerError::EmptyExpression { .. } => {
                let mut s = String::new();
                s.append("Empty expression");
                s
            },
            CompilerError::UnexpectedSymbol { symbol, .. } => {
                let mut s = String::new();
                s.append("Unexpected symbol: ");
                s.append(symbol.as_str());
                s
            },
            CompilerError::MissingEnd { block_type, .. } => {
                let mut s = String::new();
                s.append("Missing END_");
                s.append(block_type.as_str());
                s
            },
            CompilerError::UnexpectedEnd { block_type, .. } => {
                let mut s = String::new();
                s.append("Unexpected END_");
                s.append(block_type.as_str());
                s.append(" without matching ");
                s.append(block_type.as_str());
                s
            },
            CompilerError::MismatchedBlockEnd { expected, found, .. } => {
                let mut s = String::new();
                s.append("Mismatched block end: expected END_");
                s.append(expected.as_str());
                s.append(", found END_");
                s.append(found.as_str());
                s
            },
            CompilerError::UnclosedBlock { block_type, start_line, .. } => {
                let mut s = String::new();
                s.append("Unclosed block: ");
                s.append(block_type.as_str());
                s.append(" started at line ");
                append_decimal(&mut s, *start_line as u64);
                s
            },
            CompilerError::UnknownVariable { name, .. } => {
                let mut s = String::new();
                s.append("Unknown variable: ");
                s.append(name.as_str());
                s
            },
            CompilerError::VariableRedefinition { name, .. } => {
                let mut s = String::new();
                s.append("Variable redefinition: ");
                s.append(name.as_str());
                s
            },
            CompilerError::InvalidVariableName { name, .. } => {
                let mut s = String::new();
                s.append("Invalid variable name: ");
                s.append(name.as_str());
                s
            },
            CompilerError::UndefinedFunction { name, .. } => {
                let mut s = String::new();
                s.append("Undefined function: ");
                s.append(name.as_str());
                s
            },
            CompilerError::FunctionRedefinition { name, .. } => {
                let mut s = String::new();
                s.append("Function redefinition: ");
                s.append(name.as_str());
                s
            },
            CompilerError::ReturnOutsideFunction { .. } => {
                let mut s = String::new();
                s.append("RETURN statement outside function");
                s
            },
            CompilerError::UnknownLabel { label, .. } => {
                let mut s = String::new();
                s.append("Unknown label: ");
                s.append(label.as_str());
                s
            },
            CompilerError::DuplicateDefinition { name, .. } => {
                let mut s = String::new();
                s.append("Duplicate definition: ");
                s.append(name.as_str());
                s
            },
            CompilerError::DivisionByZero { .. } => {
                let mut s = String::new();
                s.append("Division by zero");
                s
            },
            CompilerError::TypeMismatch { expected, got, .. } => {
                let mut s = String::new();
                s.append("Type mismatch: expected ");
                s.append(expected.as_str());
                s.append(", got ");
                s.append(got.as_str());
                s
            },
            CompilerError::InvalidOperator { operator, .. } => {
                let mut s = String::new();
                s.append("Invalid operator: ");
                s.append(operator.as_str());
                s
            },
            CompilerError::MismatchedParentheses { left, right, .. } => {
                let mut s = String::new();
                s.append("Mismatched parentheses: ");
                append_decimal(&mut s, *left as u64);
                s.append(" '(' vs ");
                append_decimal(&mut s, *right as u64);
                s.append(" ')')");
                s
            },
            CompilerError::InvalidDelay { value, .. } => {
                let mut s = String::new();
                s.append("Invalid delay value: ");
                s.append(value.as_str());
                s
            },
            CompilerError::InvalidRepeat { value, .. } => {
                let mut s = String::new();
                s.append("Invalid repeat count: ");
                s.append(value.as_str());
                s
            },
            CompilerError::InvalidKeyCode { code, .. } => {
                let mut s = String::new();
                s.append("Invalid key code: ");
                s.append(code.as_str());
                s
            },
            CompilerError::InvalidModifier { modifier, .. } => {
                let mut s = String::new();
                s.append("Invalid modifier: ");
                s.append(modifier.as_str());
                s
            },
            CompilerError::InvalidHex { value, .. } => {
                let mut s = String::new();
                s.append("Invalid hex value: ");
                s.append(value.as_str());
                s
            },
            CompilerError::UnclosedIfDef { .. } => {
                let mut s = String::new();
                s.append("Unclosed IF_DEFINED block");
                s
            },
            CompilerError::DefineRedefinition { name, .. } => {
                let mut s = String::new();
                s.append("DEFINE redefinition: ");
                s.append(name.as_str());
                s
            },
            CompilerError::CircularDefine { name, .. } => {
                let mut s = String::new();
                s.append("Circular DEFINE reference: ");
                s.append(name.as_str());
                s
            },
            CompilerError::PayloadTooLarge { size } => {
                let mut s = String::new();
                s.append("Payload too large: ");
                append_decimal(&mut s, *size as u64);
                s.append(" bytes (max 16384)");
                s
            },
            CompilerError::KeyNotFound { key, .. } => {
                let mut s = String::new();
                s.append("Key not found in language file: ");
                s.append(key.as_str());
                s
            },
            CompilerError::IoError { message } => {
                let mut s = String::new();
                s.append("IO error: ");
                s.append(message.as_str());
                s
            },
            CompilerError::IncompatibleDS1 { .. } => {
                let mut s = String::new();
                s.append("Incompatible DuckyScript 1.0 syntax");
                s
            },
        }
    }
}

impl CompilerWarning {
    /// The line a warning refers to.
    pub open spec fn spec_line(&self) -> usize {
        match self {
            CompilerWarning::DefineReplacement { line, .. } => *line,
            CompilerWarning::UnusedVariable { line, .. } => *line,
            CompilerWarning::UnusedFunction { line, .. } => *line,
            CompilerWarning::DeprecatedSyntax { line, .. } => *line,
            CompilerWarning::SuspiciousDelay { line, .. } => *line,
            CompilerWarning::EmptyBlock { line, .. } => *line,
            CompilerWarning::UnreachableCode { line, .. } => *line,
        }
    }

    /// The line number of the warning.
    pub fn line(&self) -> (r: usize)
        ensures
            r == self.spec_line(),
    {
        match self {
            CompilerWarning::DefineReplacement { line, .. } => *line,
            CompilerWarning::UnusedVariable { line, .. } => *line,
            CompilerWarning::UnusedFunction { line, .. } => *line,
            CompilerWarning::DeprecatedSyntax { line, .. } => *line,
            CompilerWarning::SuspiciousDelay { line, .. } => *line,
            CompilerWarning::EmptyBlock { line, .. } => *line,
            CompilerWarning::UnreachableCode { line, .. } => *line,
        }
    }

    /// The diagnostic code of each kind of warning.
    pub open spec fn spec_code(&self) -> Seq<char> {
        match self {
            CompilerWarning::DefineReplacement { .. } => "W001"@,
            CompilerWarning::UnusedVariable { .. } => "W002"@,
            CompilerWarning::UnusedFunction { .. } => "W003"@,
            CompilerWarning::DeprecatedSyntax { .. } => "W004"@,
            CompilerWarning::SuspiciousDelay { .. } => "W005"@,
            CompilerWarning::EmptyBlock { .. } => "W006"@,
            CompilerWarning::UnreachableCode { .. } => "W007"@,
        }
    }

    /// The diagnostic code of the warning.
    pub fn code(&self) -> (r: &'static str)
        ensures
            r@ == self.spec_code(),
    {
        match self {
            CompilerWarning::DefineReplacement { .. } => "W001",
            CompilerWarning::UnusedVariable { .. } => "W002",
            CompilerWarning::UnusedFunction { .. } => "W003",
            CompilerWarning::DeprecatedSyntax { .. } => "W004",
            CompilerWarning::SuspiciousDelay { .. } => "W005",
            CompilerWarning::EmptyBlock { .. } => "W006",
            CompilerWarning::UnreachableCode { .. } => "W007",
        }
    }

    /// The text the warning is shown with.
    pub open spec fn spec_message(&self) -> Seq<char> {
        match self {
            CompilerWarning::DefineReplacement { label, old: old_text, new: new_text, .. } => "DEFINE "@ + label@ + " modifies this line replacing "@ + old_text@ + " with "@ + new_text@,
            CompilerWarning::UnusedVariable { name, .. } => "Unused variable: "@ + name@,
            CompilerWarning::UnusedFunction { name, .. } => "Unused function: "@ + name@,
            CompilerWarning::DeprecatedSyntax { old: old_text, new: new_text, .. } => "Deprecated syntax: use "@ + new_text@ + " instead of "@ + old_text@,
            CompilerWarning::SuspiciousDelay { delay, .. } => "Suspicious delay value: "@ + numbers::decimal(delay as nat) + "ms (very long)"@,
            CompilerWarning::EmptyBlock { block_type, .. } => "Empty block: "@ + block_type@,
            CompilerWarning::UnreachableCode { .. } => "Unreachable code after RETURN"@,
        }
    }

    /// The text the warning is shown with.
    pub fn message(&self) -> (r: String)
        ensures
            r@ == self.spec_message(),
    {
        match self {
            CompilerWarning::DefineReplacement { label, old: old_text, new: new_text, .. } => {
                let mut s = String::new();
                s.append("DEFINE ");
                s.append(label.as_str());
                s.append(" modifies this line replacing ");
                s.append(old_text.as_str());
                s.append(" with ");
                s.append(new_text.as_str());
                s
            },
            CompilerWarning::UnusedVariable { name, .. } => {
                let mut s = String::new();
                s.append("Unused variable: ");
                s.append(name.as_str());
                s
            },
            CompilerWarning::UnusedFunction { name, .. } => {
                let mut s = String::new();
                s.append("Unused function: ");
                s.append(name.as_str());
                s
            },
            CompilerWarning::DeprecatedSyntax { old: old_text, new: new_text, .. } => {
                let mut s = String::new();
                s.append("Deprecated syntax: use ");
                s.append(new_text.as_str());
                s.append(" instead of ");
                s.append(old_text.as_str());
                s
            },
            CompilerWarning::SuspiciousDelay { delay, .. } => {
                let mut s = String::new();
                s.append("Suspicious delay value: ");
                append_decimal(&mut s, *delay as u64);
                s.append("ms (very long)");
                s
            },
            CompilerWarning::EmptyBlock { block_type, .. } => {
                let mut s = String::new();
                s.append("Empty block: ");
                s.append(block_type.as_str());
                s
            },
            CompilerWarning::UnreachableCode { .. } => {
                let mut s = String::new();
                s.append("Unreachable code after RETURN");
                s
            },
        }
    }
}

/// Appends the decimal numeral of `n`.
pub fn append_decimal(s: &mut String, n: u64)
    ensures
        final(s)@ == old(s)@ + numbers::decimal(n as nat),
{
    let d = decimal_chars(n as u128);
    let mut i: usize = 0;
    while i < d.len()
        invariant
            i <= d@.len(),
            s@ == old(s)@ + d@.take(i as int),
        decreases d@.len() - i,
    {
        push_char(s, d[i]);
        assert(old(s)@ + d@.take(i + 1) =~= (old(s)@ + d@.take(i as int)).push(d@[i as int]));
        i = i + 1;
    }
    assert(d@.take(d@.len() as int) =~= d@);
}

} // verus!
