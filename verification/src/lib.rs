pub mod loc;
pub mod leaf;
pub mod ops;
pub mod node;
pub mod ctx;
pub mod visit;
pub mod dump;
pub mod validate;

pub use loc::{SourceLoc, SourceRange};
pub use leaf::{NodeLabel, NodeNumber, NodeString};
pub use ops::{
    AssignmentExpressionOperator, BinaryExpressionOperator, ExportKind, ImportKind,
    LogicalExpressionOperator, MethodDefinitionKind, PropertyKind, UnaryExpressionOperator,
    UpdateExpressionOperator, VariableDeclarationKind,
};

pub use ctx::Context;
pub use dump::{dump_json, Pretty};
pub use node::{
    AssignmentExpression, BinaryExpression, BlockStatement, BooleanLiteral, ExportNamedDeclaration,
    ExpressionStatement, Field, FieldValue, Identifier, IfStatement, ImportDeclaration,
    LogicalExpression, MethodDefinition, Node, NodeKind, NodeList, NodePtr, NullLiteral,
    NumericLiteral, ObjectExpression, Property, ReturnStatement, StringLiteral, UnaryExpression,
    UpdateExpression, VariableDeclaration, VariableDeclarator,
};
pub use validate::{validate, Violation};
pub use visit::{preorder, Visitor};
