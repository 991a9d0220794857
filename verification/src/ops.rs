//! Closed enumerations carried by node fields, each with its fixed external
//! spelling. The spellings are part of the wire contract of the dump output.

use vstd::prelude::*;

verus! {

#[derive(Clone, Copy, PartialEq, Eq, Structural, Debug)]
pub enum UnaryExpressionOperator {
    Delete,
    Void,
    Typeof,
    Plus,
    Minus,
    BitNot,
    Not,
}

impl UnaryExpressionOperator {
    pub open spec fn text(self) -> Seq<char> {
        match self {
            UnaryExpressionOperator::Delete => "delete"@,
            UnaryExpressionOperator::Void => "void"@,
            UnaryExpressionOperator::Typeof => "typeof"@,
            UnaryExpressionOperator::Plus => "+"@,
            UnaryExpressionOperator::Minus => "-"@,
            UnaryExpressionOperator::BitNot => "~"@,
            UnaryExpressionOperator::Not => "!"@,
        }
    }

    pub fn as_str(&self) -> (r: &'static str)
        ensures
            r@ == self.text(),
    {
        match self {
            UnaryExpressionOperator::Delete => "delete",
            UnaryExpressionOperator::Void => "void",
            UnaryExpressionOperator::Typeof => "typeof",
            UnaryExpressionOperator::Plus => "+",
            UnaryExpressionOperator::Minus => "-",
            UnaryExpressionOperator::BitNot => "~",
            UnaryExpressionOperator::Not => "!",
        }
    }
}

#[derive(Clone, Copy, PartialEq, Eq, Structural, Debug)]
pub enum BinaryExpressionOperator {
    LooseEquals,
    LooseNotEquals,
    StrictEquals,
    StrictNotEquals,
    Less,
    LessEquals,
    Greater,
    GreaterEquals,
    LShift,
    RShift,
    RShift3,
    Plus,
    Minus,
    Mult,
    Div,
    Mod,
    BitOr,
    BitXor,
    BitAnd,
    Exp,
    In,
    Instanceof,
}

impl BinaryExpressionOperator {
    pub open spec fn text(self) -> Seq<char> {
        match self {
            BinaryExpressionOperator::LooseEquals => "=="@,
            BinaryExpressionOperator::LooseNotEquals => "!="@,
            BinaryExpressionOperator::StrictEquals => "==="@,
            BinaryExpressionOperator::StrictNotEquals => "!=="@,
            BinaryExpressionOperator::Less => "<"@,
            BinaryExpressionOperator::LessEquals => "<="@,
            BinaryExpressionOperator::Greater => ">"@,
            BinaryExpressionOperator::GreaterEquals => ">="@,
            BinaryExpressionOperator::LShift => "<<"@,
            BinaryExpressionOperator::RShift => ">>"@,
            BinaryExpressionOperator::RShift3 => ">>>"@,
            BinaryExpressionOperator::Plus => "+"@,
            BinaryExpressionOperator::Minus => "-"@,
            BinaryExpressionOperator::Mult => "*"@,
            BinaryExpressionOperator::Div => "/"@,
            BinaryExpressionOperator::Mod => "%"@,
            BinaryExpressionOperator::BitOr => "|"@,
            BinaryExpressionOperator::BitXor => "^"@,
            BinaryExpressionOperator::BitAnd => "&"@,
            BinaryExpressionOperator::Exp => "**"@,
            BinaryExpressionOperator::In => "in"@,
            BinaryExpressionOperator::Instanceof => "instanceof"@,
        }
    }

    pub fn as_str(&self) -> (r: &'static str)
        ensures
            r@ == self.text(),
    {
        match self {
            BinaryExpressionOperator::LooseEquals => "==",
            BinaryExpressionOperator::LooseNotEquals => "!=",
            BinaryExpressionOperator::StrictEquals => "===",
            BinaryExpressionOperator::StrictNotEquals => "!==",
            BinaryExpressionOperator::Less => "<",
            BinaryExpressionOperator::LessEquals => "<=",
            BinaryExpressionOperator::Greater => ">",
            BinaryExpressionOperator::GreaterEquals => ">=",
            BinaryExpressionOperator::LShift => "<<",
            BinaryExpressionOperator::RShift => ">>",
            BinaryExpressionOperator::RShift3 => ">>>",
            BinaryExpressionOperator::Plus => "+",
            BinaryExpressionOperator::Minus => "-",
            BinaryExpressionOperator::Mult => "*",
            BinaryExpressionOperator::Div => "/",
            BinaryExpressionOperator::Mod => "%",
            BinaryExpressionOperator::BitOr => "|",
            BinaryExpressionOperator::BitXor => "^",
            BinaryExpressionOperator::BitAnd => "&",
            BinaryExpressionOperator::Exp => "**",
            BinaryExpressionOperator::In => "in",
            BinaryExpressionOperator::Instanceof => "instanceof",
        }
    }
}

#[derive(Clone, Copy, PartialEq, Eq, Structural, Debug)]
pub enum LogicalExpressionOperator {
    And,
    Or,
    NullishCoalesce,
}

impl LogicalExpressionOperator {
    pub open spec fn text(self) -> Seq<char> {
        match self {
            LogicalExpressionOperator::And => "&&"@,
            LogicalExpressionOperator::Or => "||"@,
            LogicalExpressionOperator::NullishCoalesce => "??"@,
        }
    }

    pub fn as_str(&self) -> (r: &'static str)
        ensures
            r@ == self.text(),
    {
        match self {
            LogicalExpressionOperator::And => "&&",
            LogicalExpressionOperator::Or => "||",
            LogicalExpressionOperator::NullishCoalesce => "??",
        }
    }
}

#[derive(Clone, Copy, PartialEq, Eq, Structural, Debug)]
pub enum UpdateExpressionOperator {
    Increment,
    Decrement,
}

impl UpdateExpressionOperator {
    pub open spec fn text(self) -> Seq<char> {
        match self {
            UpdateExpressionOperator::Increment => "++"@,
            UpdateExpressionOperator::Decrement => "--"@,
        }
    }

    pub fn as_str(&self) -> (r: &'static str)
        ensures
            r@ == self.text(),
    {
        match self {
            UpdateExpressionOperator::Increment => "++",
            UpdateExpressionOperator::Decrement => "--",
        }
    }
}

#[derive(Clone, Copy, PartialEq, Eq, Structural, Debug)]
pub enum AssignmentExpressionOperator {
    Assign,
    PlusAssign,
    MinusAssign,
    MultAssign,
    DivAssign,
    ModAssign,
    LShiftAssign,
    RShiftAssign,
    RShift3Assign,
    BitOrAssign,
    BitXorAssign,
    BitAndAssign,
    ExpAssign,
    AndAssign,
    OrAssign,
    NullishCoalesceAssign,
}

impl AssignmentExpressionOperator {
    pub open spec fn text(self) -> Seq<char> {
        match self {
            AssignmentExpressionOperator::Assign => "="@,
            AssignmentExpressionOperator::PlusAssign => "+="@,
            AssignmentExpressionOperator::MinusAssign => "-="@,
            AssignmentExpressionOperator::MultAssign => "*="@,
            AssignmentExpressionOperator::DivAssign => "/="@,
            AssignmentExpressionOperator::ModAssign => "%="@,
            AssignmentExpressionOperator::LShiftAssign => "<<="@,
            AssignmentExpressionOperator::RShiftAssign => ">>="@,
            AssignmentExpressionOperator::RShift3Assign => ">>>="@,
            AssignmentExpressionOperator::BitOrAssign => "|="@,
            AssignmentExpressionOperator::BitXorAssign => "^="@,
            AssignmentExpressionOperator::BitAndAssign => "&="@,
            AssignmentExpressionOperator::ExpAssign => "**="@,
            AssignmentExpressionOperator::AndAssign => "&&="@,
            AssignmentExpressionOperator::OrAssign => "||="@,
            AssignmentExpressionOperator::NullishCoalesceAssign => "??="@,
        }
    }

    pub fn as_str(&self) -> (r: &'static str)
        ensures
            r@ == self.text(),
    {
        match self {
            AssignmentExpressionOperator::Assign => "=",
            AssignmentExpressionOperator::PlusAssign => "+=",
            AssignmentExpressionOperator::MinusAssign => "-=",
            AssignmentExpressionOperator::MultAssign => "*=",
            AssignmentExpressionOperator::DivAssign => "/=",
            AssignmentExpressionOperator::ModAssign => "%=",
            AssignmentExpressionOperator::LShiftAssign => "<<=",
            AssignmentExpressionOperator::RShiftAssign => ">>=",
            AssignmentExpressionOperator::RShift3Assign => ">>>=",
            AssignmentExpressionOperator::BitOrAssign => "|=",
            AssignmentExpressionOperator::BitXorAssign => "^=",
            AssignmentExpressionOperator::BitAndAssign => "&=",
            AssignmentExpressionOperator::ExpAssign => "**=",
            AssignmentExpressionOperator::AndAssign => "&&=",
            AssignmentExpressionOperator::OrAssign => "||=",
            AssignmentExpressionOperator::NullishCoalesceAssign => "??=",
        }
    }
}

#[derive(Clone, Copy, PartialEq, Eq, Structural, Debug)]
pub enum VariableDeclarationKind {
    Var,
    Let,
    Const,
}

impl VariableDeclarationKind {
    pub open spec fn text(self) -> Seq<char> {
        match self {
            VariableDeclarationKind::Var => "var"@,
            VariableDeclarationKind::Let => "let"@,
            VariableDeclarationKind::Const => "const"@,
        }
    }

    pub fn as_str(&self) -> (r: &'static str)
        ensures
            r@ == self.text(),
    {
        match self {
            VariableDeclarationKind::Var => "var",
            VariableDeclarationKind::Let => "let",
            VariableDeclarationKind::Const => "const",
        }
    }
}

#[derive(Clone, Copy, PartialEq, Eq, Structural, Debug)]
pub enum PropertyKind {
    Init,
    Getter,
    Setter,
}

impl PropertyKind {
    pub open spec fn text(self) -> Seq<char> {
        match self {
            PropertyKind::Init => "init"@,
            PropertyKind::Getter => "get"@,
            PropertyKind::Setter => "set"@,
        }
    }

    pub fn as_str(&self) -> (r: &'static str)
        ensures
            r@ == self.text(),
    {
        match self {
            PropertyKind::Init => "init",
            PropertyKind::Getter => "get",
            PropertyKind::Setter => "set",
        }
    }
}

#[derive(Clone, Copy, PartialEq, Eq, Structural, Debug)]
pub enum MethodDefinitionKind {
    Method,
    Constructor,
    Getter,
    Setter,
}

impl MethodDefinitionKind {
    pub open spec fn text(self) -> Seq<char> {
        match self {
            MethodDefinitionKind::Method => "method"@,
            MethodDefinitionKind::Constructor => "constructor"@,
            MethodDefinitionKind::Getter => "get"@,
            MethodDefinitionKind::Setter => "set"@,
        }
    }

    pub fn as_str(&self) -> (r: &'static str)
        ensures
            r@ == self.text(),
    {
        match self {
            MethodDefinitionKind::Method => "method",
            MethodDefinitionKind::Constructor => "constructor",
            MethodDefinitionKind::Getter => "get",
            MethodDefinitionKind::Setter => "set",
        }
    }
}

#[derive(Clone, Copy, PartialEq, Eq, Structural, Debug)]
pub enum ImportKind {
    Value,
    Type,
    Typeof,
}

impl ImportKind {
    pub open spec fn text(self) -> Seq<char> {
        match self {
            ImportKind::Value => "value"@,
            ImportKind::Type => "type"@,
            ImportKind::Typeof => "typeof"@,
        }
    }

    pub fn as_str(&self) -> (r: &'static str)
        ensures
            r@ == self.text(),
    {
        match self {
            ImportKind::Value => "value",
            ImportKind::Type => "type",
            ImportKind::Typeof => "typeof",
        }
    }
}

#[derive(Clone, Copy, PartialEq, Eq, Structural, Debug)]
pub enum ExportKind {
    Value,
    Type,
}

impl ExportKind {
    pub open spec fn text(self) -> Seq<char> {
        match self {
            ExportKind::Value => "value"@,
            ExportKind::Type => "type"@,
        }
    }

    pub fn as_str(&self) -> (r: &'static str)
        ensures
            r@ == self.text(),
    {
        match self {
            ExportKind::Value => "value",
            ExportKind::Type => "type",
        }
    }
}

} // verus!
