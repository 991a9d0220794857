//! The node taxonomy: one tagged-union variant per syntactic construct, an
//! opaque handle type, and the schema that every generic pass consumes — the
//! canonical name of each kind, its parent category, and its ordered field
//! list with per-field constraints.

use vstd::prelude::*;

use crate::leaf::{NodeLabel, NodeNumber, NodeString};
use crate::loc::SourceRange;
use crate::ops::{
    AssignmentExpressionOperator, BinaryExpressionOperator, ExportKind, ImportKind,
    LogicalExpressionOperator, MethodDefinitionKind, PropertyKind, UnaryExpressionOperator,
    UpdateExpressionOperator, VariableDeclarationKind,
};

verus! {

/// An opaque, copyable, non-owning reference to one node inside one context.
/// Its mathematical value is the arena slot it names.
#[derive(Clone, Copy, PartialEq, Eq, Structural, Debug)]
pub struct NodePtr {
    idx: usize,
}

impl View for NodePtr {
    type V = int;

    closed spec fn view(&self) -> int {
        self.idx as int
    }
}

impl NodePtr {
    /// Only the arena mints handles; the slot index stays internal to the crate.
    pub(crate) fn from_index(idx: usize) -> (r: NodePtr)
        ensures
            r@ == idx as int,
    {
        NodePtr { idx }
    }

    pub(crate) fn index(&self) -> (r: usize)
        ensures
            r as int == self@,
    {
        self.idx
    }
}

/// An ordered sequence of handles; element order is semantically significant.
pub type NodeList = Vec<NodePtr>;

#[derive(Debug)]
pub struct NumericLiteral {
    pub range: SourceRange,
    pub value: NodeNumber,
}

#[derive(Debug)]
pub struct BooleanLiteral {
    pub range: SourceRange,
    pub value: bool,
}

#[derive(Debug)]
pub struct StringLiteral {
    pub range: SourceRange,
    pub value: NodeString,
}

#[derive(Debug)]
pub struct NullLiteral {
    pub range: SourceRange,
}

#[derive(Debug)]
pub struct Identifier {
    pub range: SourceRange,
    pub name: NodeLabel,
}

#[derive(Debug)]
pub struct ExpressionStatement {
    pub range: SourceRange,
    pub expression: NodePtr,
    pub directive: Option<NodeString>,
}

#[derive(Debug)]
pub struct BlockStatement {
    pub range: SourceRange,
    pub body: NodeList,
}

#[derive(Debug)]
pub struct ReturnStatement {
    pub range: SourceRange,
    pub argument: Option<NodePtr>,
}

#[derive(Debug)]
pub struct IfStatement {
    pub range: SourceRange,
    pub test: NodePtr,
    pub consequent: NodePtr,
    pub alternate: Option<NodePtr>,
}

#[derive(Debug)]
pub struct UnaryExpression {
    pub range: SourceRange,
    pub operator: UnaryExpressionOperator,
    pub argument: NodePtr,
    pub prefix: bool,
}

#[derive(Debug)]
pub struct BinaryExpression {
    pub range: SourceRange,
    pub left: NodePtr,
    pub right: NodePtr,
    pub operator: BinaryExpressionOperator,
}

#[derive(Debug)]
pub struct LogicalExpression {
    pub range: SourceRange,
    pub left: NodePtr,
    pub right: NodePtr,
    pub operator: LogicalExpressionOperator,
}

#[derive(Debug)]
pub struct UpdateExpression {
    pub range: SourceRange,
    pub operator: UpdateExpressionOperator,
    pub argument: NodePtr,
    pub prefix: bool,
}

#[derive(Debug)]
pub struct AssignmentExpression {
    pub range: SourceRange,
    pub operator: AssignmentExpressionOperator,
    pub left: NodePtr,
    pub right: NodePtr,
}

#[derive(Debug)]
pub struct VariableDeclaration {
    pub range: SourceRange,
    pub kind: VariableDeclarationKind,
    pub declarations: NodeList,
}

#[derive(Debug)]
pub struct VariableDeclarator {
    pub range: SourceRange,
    pub id: NodePtr,
    pub init: Option<NodePtr>,
}

#[derive(Debug)]
pub struct ObjectExpression {
    pub range: SourceRange,
    pub properties: NodeList,
}

#[derive(Debug)]
pub struct Property {
    pub range: SourceRange,
    pub key: NodePtr,
    pub value: NodePtr,
    pub kind: PropertyKind,
    pub computed: bool,
}

#[derive(Debug)]
pub struct MethodDefinition {
    pub range: SourceRange,
    pub key: NodePtr,
    pub value: NodePtr,
    pub kind: MethodDefinitionKind,
    pub computed: bool,
    pub is_static: bool,
}

#[derive(Debug)]
pub struct ImportDeclaration {
    pub range: SourceRange,
    pub specifiers: NodeList,
    pub source: NodePtr,
    pub import_kind: ImportKind,
}

#[derive(Debug)]
pub struct ExportNamedDeclaration {
    pub range: SourceRange,
    pub declaration: Option<NodePtr>,
    pub specifiers: NodeList,
    pub source: Option<NodePtr>,
    pub export_kind: ExportKind,
}

/// The tagged union over every node kind.
#[derive(Debug)]
pub enum Node {
    NumericLiteral(NumericLiteral),
    BooleanLiteral(BooleanLiteral),
    StringLiteral(StringLiteral),
    NullLiteral(NullLiteral),
    Identifier(Identifier),
    ExpressionStatement(ExpressionStatement),
    BlockStatement(BlockStatement),
    ReturnStatement(ReturnStatement),
    IfStatement(IfStatement),
    UnaryExpression(UnaryExpression),
    BinaryExpression(BinaryExpression),
    LogicalExpression(LogicalExpression),
    UpdateExpression(UpdateExpression),
    AssignmentExpression(AssignmentExpression),
    VariableDeclaration(VariableDeclaration),
    VariableDeclarator(VariableDeclarator),
    ObjectExpression(ObjectExpression),
    Property(Property),
    MethodDefinition(MethodDefinition),
    ImportDeclaration(ImportDeclaration),
    ExportNamedDeclaration(ExportNamedDeclaration),
}

/// Every kind, concrete or abstract. The abstract entries (`Expression`,
/// `Statement`, `Literal`, `Pattern`, `Declaration`) classify kinds for
/// field-constraint checking and never appear as allocated nodes.
#[derive(Clone, Copy, PartialEq, Eq, Structural, Debug)]
pub enum NodeKind {
    Expression,
    Statement,
    Literal,
    Pattern,
    Declaration,
    NumericLiteral,
    BooleanLiteral,
    StringLiteral,
    NullLiteral,
    Identifier,
    ExpressionStatement,
    BlockStatement,
    ReturnStatement,
    IfStatement,
    UnaryExpression,
    BinaryExpression,
    LogicalExpression,
    UpdateExpression,
    AssignmentExpression,
    VariableDeclaration,
    VariableDeclarator,
    ObjectExpression,
    Property,
    MethodDefinition,
    ImportDeclaration,
    ExportNamedDeclaration,
}

pub open spec fn kind_of(node: Node) -> NodeKind {
    match node {
        Node::NumericLiteral(_) => NodeKind::NumericLiteral,
        Node::BooleanLiteral(_) => NodeKind::BooleanLiteral,
        Node::StringLiteral(_) => NodeKind::StringLiteral,
        Node::NullLiteral(_) => NodeKind::NullLiteral,
        Node::Identifier(_) => NodeKind::Identifier,
        Node::ExpressionStatement(_) => NodeKind::ExpressionStatement,
        Node::BlockStatement(_) => NodeKind::BlockStatement,
        Node::ReturnStatement(_) => NodeKind::ReturnStatement,
        Node::IfStatement(_) => NodeKind::IfStatement,
        Node::UnaryExpression(_) => NodeKind::UnaryExpression,
        Node::BinaryExpression(_) => NodeKind::BinaryExpression,
        Node::LogicalExpression(_) => NodeKind::LogicalExpression,
        Node::UpdateExpression(_) => NodeKind::UpdateExpression,
        Node::AssignmentExpression(_) => NodeKind::AssignmentExpression,
        Node::VariableDeclaration(_) => NodeKind::VariableDeclaration,
        Node::VariableDeclarator(_) => NodeKind::VariableDeclarator,
        Node::ObjectExpression(_) => NodeKind::ObjectExpression,
        Node::Property(_) => NodeKind::Property,
        Node::MethodDefinition(_) => NodeKind::MethodDefinition,
        Node::ImportDeclaration(_) => NodeKind::ImportDeclaration,
        Node::ExportNamedDeclaration(_) => NodeKind::ExportNamedDeclaration,
    }
}

/// The schema's parent category of a kind, if any. The chain is finite and
/// acyclic: every step strictly lowers `kind_rank`.
pub open spec fn parent_of(k: NodeKind) -> Option<NodeKind> {
    match k {
        NodeKind::Expression => None,
        NodeKind::Statement => None,
        NodeKind::Literal => Some(NodeKind::Expression),
        NodeKind::Pattern => Some(NodeKind::Expression),
        NodeKind::Declaration => Some(NodeKind::Statement),
        NodeKind::NumericLiteral => Some(NodeKind::Literal),
        NodeKind::BooleanLiteral => Some(NodeKind::Literal),
        NodeKind::StringLiteral => Some(NodeKind::Literal),
        NodeKind::NullLiteral => Some(NodeKind::Literal),
        NodeKind::Identifier => Some(NodeKind::Pattern),
        NodeKind::ExpressionStatement => Some(NodeKind::Statement),
        NodeKind::BlockStatement => Some(NodeKind::Statement),
        NodeKind::ReturnStatement => Some(NodeKind::Statement),
        NodeKind::IfStatement => Some(NodeKind::Statement),
        NodeKind::UnaryExpression => Some(NodeKind::Expression),
        NodeKind::BinaryExpression => Some(NodeKind::Expression),
        NodeKind::LogicalExpression => Some(NodeKind::Expression),
        NodeKind::UpdateExpression => Some(NodeKind::Expression),
        NodeKind::AssignmentExpression => Some(NodeKind::Expression),
        NodeKind::VariableDeclaration => Some(NodeKind::Declaration),
        NodeKind::VariableDeclarator => None,
        NodeKind::ObjectExpression => Some(NodeKind::Expression),
        NodeKind::Property => None,
        NodeKind::MethodDefinition => None,
        NodeKind::ImportDeclaration => Some(NodeKind::Declaration),
        NodeKind::ExportNamedDeclaration => Some(NodeKind::Declaration),
    }
}

/// Height of a kind in the category hierarchy; parents rank strictly lower.
pub open spec fn kind_rank(k: NodeKind) -> nat {
    match k {
        NodeKind::Expression => 0,
        NodeKind::Statement => 0,
        NodeKind::Literal => 1,
        NodeKind::Pattern => 1,
        NodeKind::Declaration => 1,
        _ => 2,
    }
}

/// Category membership: a kind equals the category or descends from it
/// through the parent chain.
pub open spec fn is_a_kind(k: NodeKind, cat: NodeKind) -> bool
    decreases kind_rank(k),
{
    k == cat || (parent_of(k) matches Some(p) && kind_rank(p) < kind_rank(k) && is_a_kind(p, cat))
}

pub open spec fn name_text(k: NodeKind) -> Seq<char> {
    match k {
        NodeKind::Expression => "Expression"@,
        NodeKind::Statement => "Statement"@,
        NodeKind::Literal => "Literal"@,
        NodeKind::Pattern => "Pattern"@,
        NodeKind::Declaration => "Declaration"@,
        NodeKind::NumericLiteral => "NumericLiteral"@,
        NodeKind::BooleanLiteral => "BooleanLiteral"@,
        NodeKind::StringLiteral => "StringLiteral"@,
        NodeKind::NullLiteral => "NullLiteral"@,
        NodeKind::Identifier => "Identifier"@,
        NodeKind::ExpressionStatement => "ExpressionStatement"@,
        NodeKind::BlockStatement => "BlockStatement"@,
        NodeKind::ReturnStatement => "ReturnStatement"@,
        NodeKind::IfStatement => "IfStatement"@,
        NodeKind::UnaryExpression => "UnaryExpression"@,
        NodeKind::BinaryExpression => "BinaryExpression"@,
        NodeKind::LogicalExpression => "LogicalExpression"@,
        NodeKind::UpdateExpression => "UpdateExpression"@,
        NodeKind::AssignmentExpression => "AssignmentExpression"@,
        NodeKind::VariableDeclaration => "VariableDeclaration"@,
        NodeKind::VariableDeclarator => "VariableDeclarator"@,
        NodeKind::ObjectExpression => "ObjectExpression"@,
        NodeKind::Property => "Property"@,
        NodeKind::MethodDefinition => "MethodDefinition"@,
        NodeKind::ImportDeclaration => "ImportDeclaration"@,
        NodeKind::ExportNamedDeclaration => "ExportNamedDeclaration"@,
    }
}

impl NodeKind {
    /// The schema's parent category of this kind, if any.
    pub fn parent(self) -> (r: Option<NodeKind>)
        ensures
            r == parent_of(self),
    {
        match self {
            NodeKind::Expression => None,
            NodeKind::Statement => None,
            NodeKind::Literal => Some(NodeKind::Expression),
            NodeKind::Pattern => Some(NodeKind::Expression),
            NodeKind::Declaration => Some(NodeKind::Statement),
            NodeKind::NumericLiteral => Some(NodeKind::Literal),
            NodeKind::BooleanLiteral => Some(NodeKind::Literal),
            NodeKind::StringLiteral => Some(NodeKind::Literal),
            NodeKind::NullLiteral => Some(NodeKind::Literal),
            NodeKind::Identifier => Some(NodeKind::Pattern),
            NodeKind::ExpressionStatement => Some(NodeKind::Statement),
            NodeKind::BlockStatement => Some(NodeKind::Statement),
            NodeKind::ReturnStatement => Some(NodeKind::Statement),
            NodeKind::IfStatement => Some(NodeKind::Statement),
            NodeKind::UnaryExpression => Some(NodeKind::Expression),
            NodeKind::BinaryExpression => Some(NodeKind::Expression),
            NodeKind::LogicalExpression => Some(NodeKind::Expression),
            NodeKind::UpdateExpression => Some(NodeKind::Expression),
            NodeKind::AssignmentExpression => Some(NodeKind::Expression),
            NodeKind::VariableDeclaration => Some(NodeKind::Declaration),
            NodeKind::VariableDeclarator => None,
            NodeKind::ObjectExpression => Some(NodeKind::Expression),
            NodeKind::Property => None,
            NodeKind::MethodDefinition => None,
            NodeKind::ImportDeclaration => Some(NodeKind::Declaration),
            NodeKind::ExportNamedDeclaration => Some(NodeKind::Declaration),
        }
    }

    /// Category test: equal to, or descending from, `cat`.
    pub fn is_a(self, cat: NodeKind) -> (r: bool)
        ensures
            r == is_a_kind(self, cat),
        decreases kind_rank(self),
    {
        if self == cat {
            true
        } else {
            match self.parent() {
                Some(p) => p.is_a(cat),
                None => false,
            }
        }
    }

    /// The canonical external name of the kind.
    pub fn as_str(self) -> (r: &'static str)
        ensures
            r@ == name_text(self),
    {
        match self {
            NodeKind::Expression => "Expression",
            NodeKind::Statement => "Statement",
            NodeKind::Literal => "Literal",
            NodeKind::Pattern => "Pattern",
            NodeKind::Declaration => "Declaration",
            NodeKind::NumericLiteral => "NumericLiteral",
            NodeKind::BooleanLiteral => "BooleanLiteral",
            NodeKind::StringLiteral => "StringLiteral",
            NodeKind::NullLiteral => "NullLiteral",
            NodeKind::Identifier => "Identifier",
            NodeKind::ExpressionStatement => "ExpressionStatement",
            NodeKind::BlockStatement => "BlockStatement",
            NodeKind::ReturnStatement => "ReturnStatement",
            NodeKind::IfStatement => "IfStatement",
            NodeKind::UnaryExpression => "UnaryExpression",
            NodeKind::BinaryExpression => "BinaryExpression",
            NodeKind::LogicalExpression => "LogicalExpression",
            NodeKind::UpdateExpression => "UpdateExpression",
            NodeKind::AssignmentExpression => "AssignmentExpression",
            NodeKind::VariableDeclaration => "VariableDeclaration",
            NodeKind::VariableDeclarator => "VariableDeclarator",
            NodeKind::ObjectExpression => "ObjectExpression",
            NodeKind::Property => "Property",
            NodeKind::MethodDefinition => "MethodDefinition",
            NodeKind::ImportDeclaration => "ImportDeclaration",
            NodeKind::ExportNamedDeclaration => "ExportNamedDeclaration",
        }
    }
}

/// The mathematical value of one field: scalars by their text or value,
/// handles by the slot they name.
pub ghost enum FieldVal {
    Num(Seq<char>),
    Bool(bool),
    Label(Seq<char>),
    Str(Seq<char>),
    OptStr(Option<Seq<char>>),
    UnaryOp(UnaryExpressionOperator),
    BinaryOp(BinaryExpressionOperator),
    LogicalOp(LogicalExpressionOperator),
    UpdateOp(UpdateExpressionOperator),
    AssignOp(AssignmentExpressionOperator),
    VarKind(VariableDeclarationKind),
    PropKind(PropertyKind),
    MethodKind(MethodDefinitionKind),
    ImpKind(ImportKind),
    ExpKind(ExportKind),
    Ptr(int),
    OptPtr(Option<int>),
    List(Seq<int>),
}

/// One schema field at the mathematical level: external key, value, and the
/// category its referenced nodes must satisfy, if constrained.
pub ghost struct FieldSpec {
    pub name: Seq<char>,
    pub value: FieldVal,
    pub constraint: Option<NodeKind>,
}

/// One field of a node as handed out by field enumeration.
pub enum FieldValue<'a> {
    Num(&'a NodeNumber),
    Bool(bool),
    Label(&'a NodeLabel),
    Str(&'a NodeString),
    OptStr(&'a Option<NodeString>),
    UnaryOp(UnaryExpressionOperator),
    BinaryOp(BinaryExpressionOperator),
    LogicalOp(LogicalExpressionOperator),
    UpdateOp(UpdateExpressionOperator),
    AssignOp(AssignmentExpressionOperator),
    VarKind(VariableDeclarationKind),
    PropKind(PropertyKind),
    MethodKind(MethodDefinitionKind),
    ImpKind(ImportKind),
    ExpKind(ExportKind),
    Ptr(NodePtr),
    OptPtr(Option<NodePtr>),
    List(&'a NodeList),
}

pub struct Field<'a> {
    pub name: &'static str,
    pub value: FieldValue<'a>,
    pub constraint: Option<NodeKind>,
}

pub open spec fn opt_str_view(o: Option<NodeString>) -> Option<Seq<char>> {
    match o {
        Some(s) => Some(s@),
        None => None,
    }
}

pub open spec fn opt_ptr_view(o: Option<NodePtr>) -> Option<int> {
    match o {
        Some(p) => Some(p@),
        None => None,
    }
}

pub open spec fn ptrs_view(l: Seq<NodePtr>) -> Seq<int> {
    l.map_values(|p: NodePtr| p@)
}

pub open spec fn fv_view<'a>(v: FieldValue<'a>) -> FieldVal {
    match v {
        FieldValue::Num(n) => FieldVal::Num(n@),
        FieldValue::Bool(b) => FieldVal::Bool(b),
        FieldValue::Label(l) => FieldVal::Label(l@),
        FieldValue::Str(s) => FieldVal::Str(s@),
        FieldValue::OptStr(o) => FieldVal::OptStr(opt_str_view(*o)),
        FieldValue::UnaryOp(o) => FieldVal::UnaryOp(o),
        FieldValue::BinaryOp(o) => FieldVal::BinaryOp(o),
        FieldValue::LogicalOp(o) => FieldVal::LogicalOp(o),
        FieldValue::UpdateOp(o) => FieldVal::UpdateOp(o),
        FieldValue::AssignOp(o) => FieldVal::AssignOp(o),
        FieldValue::VarKind(k) => FieldVal::VarKind(k),
        FieldValue::PropKind(k) => FieldVal::PropKind(k),
        FieldValue::MethodKind(k) => FieldVal::MethodKind(k),
        FieldValue::ImpKind(k) => FieldVal::ImpKind(k),
        FieldValue::ExpKind(k) => FieldVal::ExpKind(k),
        FieldValue::Ptr(p) => FieldVal::Ptr(p@),
        FieldValue::OptPtr(o) => FieldVal::OptPtr(opt_ptr_view(o)),
        FieldValue::List(l) => FieldVal::List(ptrs_view(l@)),
    }
}

pub open spec fn field_view<'a>(f: Field<'a>) -> FieldSpec {
    FieldSpec { name: f.name@, value: fv_view(f.value), constraint: f.constraint }
}

/// The schema's ordered field list of a node: the single registry that
/// naming, traversal, validation and serialization all consume.
pub open spec fn fields_of(node: Node) -> Seq<FieldSpec> {
    match node {
        Node::NumericLiteral(x) => seq![
            FieldSpec { name: "value"@, value: FieldVal::Num(x.value@), constraint: None },
        ],
        Node::BooleanLiteral(x) => seq![
            FieldSpec { name: "value"@, value: FieldVal::Bool(x.value), constraint: None },
        ],
        Node::StringLiteral(x) => seq![
            FieldSpec { name: "value"@, value: FieldVal::Str(x.value@), constraint: None },
        ],
        Node::NullLiteral(_) => seq![],
        Node::Identifier(x) => seq![
            FieldSpec { name: "name"@, value: FieldVal::Label(x.name@), constraint: None },
        ],
        Node::ExpressionStatement(x) => seq![
            FieldSpec {
                name: "expression"@,
                value: FieldVal::Ptr(x.expression@),
                constraint: Some(NodeKind::Expression),
            },
            FieldSpec {
                name: "directive"@,
                value: FieldVal::OptStr(opt_str_view(x.directive)),
                constraint: None,
            },
        ],
        Node::BlockStatement(x) => seq![
            FieldSpec {
                name: "body"@,
                value: FieldVal::List(ptrs_view(x.body@)),
                constraint: Some(NodeKind::Statement),
            },
        ],
        Node::ReturnStatement(x) => seq![
            FieldSpec {
                name: "argument"@,
                value: FieldVal::OptPtr(opt_ptr_view(x.argument)),
                constraint: Some(NodeKind::Expression),
            },
        ],
        Node::IfStatement(x) => seq![
            FieldSpec {
                name: "test"@,
                value: FieldVal::Ptr(x.test@),
                constraint: Some(NodeKind::Expression),
            },
            FieldSpec {
                name: "consequent"@,
                value: FieldVal::Ptr(x.consequent@),
                constraint: Some(NodeKind::Statement),
            },
            FieldSpec {
                name: "alternate"@,
                value: FieldVal::OptPtr(opt_ptr_view(x.alternate)),
                constraint: Some(NodeKind::Statement),
            },
        ],
        Node::UnaryExpression(x) => seq![
            FieldSpec { name: "operator"@, value: FieldVal::UnaryOp(x.operator), constraint: None },
            FieldSpec {
                name: "argument"@,
                value: FieldVal::Ptr(x.argument@),
                constraint: Some(NodeKind::Expression),
            },
            FieldSpec { name: "prefix"@, value: FieldVal::Bool(x.prefix), constraint: None },
        ],
        Node::BinaryExpression(x) => seq![
            FieldSpec {
                name: "left"@,
                value: FieldVal::Ptr(x.left@),
                constraint: Some(NodeKind::Expression),
            },
            FieldSpec {
                name: "right"@,
                value: FieldVal::Ptr(x.right@),
                constraint: Some(NodeKind::Expression),
            },
            FieldSpec {
                name: "operator"@,
                value: FieldVal::BinaryOp(x.operator),
                constraint: None,
            },
        ],
        Node::LogicalExpression(x) => seq![
            FieldSpec {
                name: "left"@,
                value: FieldVal::Ptr(x.left@),
                constraint: Some(NodeKind::Expression),
            },
            FieldSpec {
                name: "right"@,
                value: FieldVal::Ptr(x.right@),
                constraint: Some(NodeKind::Expression),
            },
            FieldSpec {
                name: "operator"@,
                value: FieldVal::LogicalOp(x.operator),
                constraint: None,
            },
        ],
        Node::UpdateExpression(x) => seq![
            FieldSpec {
                name: "operator"@,
                value: FieldVal::UpdateOp(x.operator),
                constraint: None,
            },
            FieldSpec {
                name: "argument"@,
                value: FieldVal::Ptr(x.argument@),
                constraint: Some(NodeKind::Expression),
            },
            FieldSpec { name: "prefix"@, value: FieldVal::Bool(x.prefix), constraint: None },
        ],
        Node::AssignmentExpression(x) => seq![
            FieldSpec {
                name: "operator"@,
                value: FieldVal::AssignOp(x.operator),
                constraint: None,
            },
            FieldSpec {
                name: "left"@,
                value: FieldVal::Ptr(x.left@),
                constraint: Some(NodeKind::Pattern),
            },
            FieldSpec {
                name: "right"@,
                value: FieldVal::Ptr(x.right@),
                constraint: Some(NodeKind::Expression),
            },
        ],
        Node::VariableDeclaration(x) => seq![
            FieldSpec { name: "kind"@, value: FieldVal::VarKind(x.kind), constraint: None },
            FieldSpec {
                name: "declarations"@,
                value: FieldVal::List(ptrs_view(x.declarations@)),
                constraint: Some(NodeKind::VariableDeclarator),
            },
        ],
        Node::VariableDeclarator(x) => seq![
            FieldSpec {
                name: "id"@,
                value: FieldVal::Ptr(x.id@),
                constraint: Some(NodeKind::Pattern),
            },
            FieldSpec {
                name: "init"@,
                value: FieldVal::OptPtr(opt_ptr_view(x.init)),
                constraint: Some(NodeKind::Expression),
            },
        ],
        Node::ObjectExpression(x) => seq![
            FieldSpec {
                name: "properties"@,
                value: FieldVal::List(ptrs_view(x.properties@)),
                constraint: Some(NodeKind::Property),
            },
        ],
        Node::Property(x) => seq![
            FieldSpec {
                name: "key"@,
                value: FieldVal::Ptr(x.key@),
                constraint: Some(NodeKind::Expression),
            },
            FieldSpec {
                name: "value"@,
                value: FieldVal::Ptr(x.value@),
                constraint: Some(NodeKind::Expression),
            },
            FieldSpec { name: "kind"@, value: FieldVal::PropKind(x.kind), constraint: None },
            FieldSpec { name: "computed"@, value: FieldVal::Bool(x.computed), constraint: None },
        ],
        Node::MethodDefinition(x) => seq![
            FieldSpec {
                name: "key"@,
                value: FieldVal::Ptr(x.key@),
                constraint: Some(NodeKind::Expression),
            },
            FieldSpec {
                name: "value"@,
                value: FieldVal::Ptr(x.value@),
                constraint: Some(NodeKind::Expression),
            },
            FieldSpec { name: "kind"@, value: FieldVal::MethodKind(x.kind), constraint: None },
            FieldSpec { name: "computed"@, value: FieldVal::Bool(x.computed), constraint: None },
            FieldSpec { name: "isStatic"@, value: FieldVal::Bool(x.is_static), constraint: None },
        ],
        Node::ImportDeclaration(x) => seq![
            FieldSpec {
                name: "specifiers"@,
                value: FieldVal::List(ptrs_view(x.specifiers@)),
                constraint: None,
            },
            FieldSpec {
                name: "source"@,
                value: FieldVal::Ptr(x.source@),
                constraint: Some(NodeKind::StringLiteral),
            },
            FieldSpec {
                name: "importKind"@,
                value: FieldVal::ImpKind(x.import_kind),
                constraint: None,
            },
        ],
        Node::ExportNamedDeclaration(x) => seq![
            FieldSpec {
                name: "declaration"@,
                value: FieldVal::OptPtr(opt_ptr_view(x.declaration)),
                constraint: Some(NodeKind::Declaration),
            },
            FieldSpec {
                name: "specifiers"@,
                value: FieldVal::List(ptrs_view(x.specifiers@)),
                constraint: None,
            },
            FieldSpec {
                name: "source"@,
                value: FieldVal::OptPtr(opt_ptr_view(x.source)),
                constraint: Some(NodeKind::StringLiteral),
            },
            FieldSpec {
                name: "exportKind"@,
                value: FieldVal::ExpKind(x.export_kind),
                constraint: None,
            },
        ],
    }
}

/// The handle slots one field refers to, in order.
pub open spec fn field_children(v: FieldVal) -> Seq<int> {
    match v {
        FieldVal::Ptr(i) => seq![i],
        FieldVal::OptPtr(o) => match o {
            Some(i) => seq![i],
            None => Seq::empty(),
        },
        FieldVal::List(l) => l,
        _ => Seq::empty(),
    }
}

pub open spec fn fields_children(fs: Seq<FieldSpec>) -> Seq<int>
    decreases fs.len(),
{
    if fs.len() == 0 {
        Seq::empty()
    } else {
        field_children(fs[0].value) + fields_children(fs.drop_first())
    }
}

/// All handle slots a node refers to, fields in declaration order, list
/// elements in sequence order.
pub open spec fn children_of(node: Node) -> Seq<int> {
    fields_children(fields_of(node))
}

/// Every child slot of `node` lies strictly below `bound`: the shape a
/// bottom-up builder gives every node relative to its own slot.
pub open spec fn node_bounded(node: Node, bound: int) -> bool {
    forall|j: int| 0 <= j < children_of(node).len() ==> 0 <= #[trigger] children_of(node)[j]
        < bound
}

impl Node {
    pub open spec fn kind_spec(&self) -> NodeKind {
        kind_of(*self)
    }

    /// The kind tag of this node's variant.
    pub fn kind(&self) -> (r: NodeKind)
        ensures
            r == kind_of(*self),
    {
        match self {
            Node::NumericLiteral(_) => NodeKind::NumericLiteral,
            Node::BooleanLiteral(_) => NodeKind::BooleanLiteral,
            Node::StringLiteral(_) => NodeKind::StringLiteral,
            Node::NullLiteral(_) => NodeKind::NullLiteral,
            Node::Identifier(_) => NodeKind::Identifier,
            Node::ExpressionStatement(_) => NodeKind::ExpressionStatement,
            Node::BlockStatement(_) => NodeKind::BlockStatement,
            Node::ReturnStatement(_) => NodeKind::ReturnStatement,
            Node::IfStatement(_) => NodeKind::IfStatement,
            Node::UnaryExpression(_) => NodeKind::UnaryExpression,
            Node::BinaryExpression(_) => NodeKind::BinaryExpression,
            Node::LogicalExpression(_) => NodeKind::LogicalExpression,
            Node::UpdateExpression(_) => NodeKind::UpdateExpression,
            Node::AssignmentExpression(_) => NodeKind::AssignmentExpression,
            Node::VariableDeclaration(_) => NodeKind::VariableDeclaration,
            Node::VariableDeclarator(_) => NodeKind::VariableDeclarator,
            Node::ObjectExpression(_) => NodeKind::ObjectExpression,
            Node::Property(_) => NodeKind::Property,
            Node::MethodDefinition(_) => NodeKind::MethodDefinition,
            Node::ImportDeclaration(_) => NodeKind::ImportDeclaration,
            Node::ExportNamedDeclaration(_) => NodeKind::ExportNamedDeclaration,
        }
    }

    /// The canonical external name of this node's kind.
    pub fn name(&self) -> (r: &'static str)
        ensures
            r@ == name_text(kind_of(*self)),
    {
        self.kind().as_str()
    }

    /// Field enumeration: the node's `(key, value, constraint)` entries in
    /// schema declaration order.
    #[verifier::rlimit(60)]
    pub fn fields<'a>(&'a self) -> (r: Vec<Field<'a>>)
        ensures
            r@.len() == fields_of(*self).len(),
            forall|i: int| 0 <= i < r@.len() ==> field_view(#[trigger] r@[i]) == fields_of(
                *self,
            )[i],
    {
        let mut r: Vec<Field<'a>> = Vec::new();
        match self {
            Node::NumericLiteral(x) => {
                r.push(Field { name: "value", value: FieldValue::Num(&x.value), constraint: None });
            },
            Node::BooleanLiteral(x) => {
                r.push(Field { name: "value", value: FieldValue::Bool(x.value), constraint: None });
            },
            Node::StringLiteral(x) => {
                r.push(Field { name: "value", value: FieldValue::Str(&x.value), constraint: None });
            },
            Node::NullLiteral(_) => {},
            Node::Identifier(x) => {
                r.push(Field { name: "name", value: FieldValue::Label(&x.name), constraint: None });
            },
            Node::ExpressionStatement(x) => {
                r.push(
                    Field {
                        name: "expression",
                        value: FieldValue::Ptr(x.expression),
                        constraint: Some(NodeKind::Expression),
                    },
                );
                r.push(
                    Field {
                        name: "directive",
                        value: FieldValue::OptStr(&x.directive),
                        constraint: None,
                    },
                );
            },
            Node::BlockStatement(x) => {
                r.push(
                    Field {
                        name: "body",
                        value: FieldValue::List(&x.body),
                        constraint: Some(NodeKind::Statement),
                    },
                );
            },
            Node::ReturnStatement(x) => {
                r.push(
                    Field {
                        name: "argument",
                        value: FieldValue::OptPtr(x.argument),
                        constraint: Some(NodeKind::Expression),
                    },
                );
            },
            Node::IfStatement(x) => {
                r.push(
                    Field {
                        name: "test",
                        value: FieldValue::Ptr(x.test),
                        constraint: Some(NodeKind::Expression),
                    },
                );
                r.push(
                    Field {
                        name: "consequent",
                        value: FieldValue::Ptr(x.consequent),
                        constraint: Some(NodeKind::Statement),
                    },
                );
                r.push(
                    Field {
                        name: "alternate",
                        value: FieldValue::OptPtr(x.alternate),
                        constraint: Some(NodeKind::Statement),
                    },
                );
            },
            Node::UnaryExpression(x) => {
                r.push(
                    Field {
                        name: "operator",
                        value: FieldValue::UnaryOp(x.operator),
                        constraint: None,
                    },
                );
                r.push(
                    Field {
                        name: "argument",
                        value: FieldValue::Ptr(x.argument),
                        constraint: Some(NodeKind::Expression),
                    },
                );
                r.push(
                    Field { name: "prefix", value: FieldValue::Bool(x.prefix), constraint: None },
                );
            },
            Node::BinaryExpression(x) => {
                r.push(
                    Field {
                        name: "left",
                        value: FieldValue::Ptr(x.left),
                        constraint: Some(NodeKind::Expression),
                    },
                );
                r.push(
                    Field {
                        name: "right",
                        value: FieldValue::Ptr(x.right),
                        constraint: Some(NodeKind::Expression),
                    },
                );
                r.push(
                    Field {
                        name: "operator",
                        value: FieldValue::BinaryOp(x.operator),
                        constraint: None,
                    },
                );
            },
            Node::LogicalExpression(x) => {
                r.push(
                    Field {
                        name: "left",
                        value: FieldValue::Ptr(x.left),
                        constraint: Some(NodeKind::Expression),
                    },
                );
                r.push(
                    Field {
                        name: "right",
                        value: FieldValue::Ptr(x.right),
                        constraint: Some(NodeKind::Expression),
                    },
                );
                r.push(
                    Field {
                        name: "operator",
                        value: FieldValue::LogicalOp(x.operator),
                        constraint: None,
                    },
                );
            },
            Node::UpdateExpression(x) => {
                r.push(
                    Field {
                        name: "operator",
                        value: FieldValue::UpdateOp(x.operator),
                        constraint: None,
                    },
                );
                r.push(
                    Field {
                        name: "argument",
                        value: FieldValue::Ptr(x.argument),
                        constraint: Some(NodeKind::Expression),
                    },
                );
                r.push(
                    Field { name: "prefix", value: FieldValue::Bool(x.prefix), constraint: None },
                );
            },
            Node::AssignmentExpression(x) => {
                r.push(
                    Field {
                        name: "operator",
                        value: FieldValue::AssignOp(x.operator),
                        constraint: None,
                    },
                );
                r.push(
                    Field {
                        name: "left",
                        value: FieldValue::Ptr(x.left),
                        constraint: Some(NodeKind::Pattern),
                    },
                );
                r.push(
                    Field {
                        name: "right",
                        value: FieldValue::Ptr(x.right),
                        constraint: Some(NodeKind::Expression),
                    },
                );
            },
            Node::VariableDeclaration(x) => {
                r.push(
                    Field { name: "kind", value: FieldValue::VarKind(x.kind), constraint: None },
                );
                r.push(
                    Field {
                        name: "declarations",
                        value: FieldValue::List(&x.declarations),
                        constraint: Some(NodeKind::VariableDeclarator),
                    },
                );
            },
            Node::VariableDeclarator(x) => {
                r.push(
                    Field {
                        name: "id",
                        value: FieldValue::Ptr(x.id),
                        constraint: Some(NodeKind::Pattern),
                    },
                );
                r.push(
                    Field {
                        name: "init",
                        value: FieldValue::OptPtr(x.init),
                        constraint: Some(NodeKind::Expression),
                    },
                );
            },
            Node::ObjectExpression(x) => {
                r.push(
                    Field {
                        name: "properties",
                        value: FieldValue::List(&x.properties),
                        constraint: Some(NodeKind::Property),
                    },
                );
            },
            Node::Property(x) => {
                r.push(
                    Field {
                        name: "key",
                        value: FieldValue::Ptr(x.key),
                        constraint: Some(NodeKind::Expression),
                    },
                );
                r.push(
                    Field {
                        name: "value",
                        value: FieldValue::Ptr(x.value),
                        constraint: Some(NodeKind::Expression),
                    },
                );
                r.push(
                    Field { name: "kind", value: FieldValue::PropKind(x.kind), constraint: None },
                );
                r.push(
                    Field {
                        name: "computed",
                        value: FieldValue::Bool(x.computed),
                        constraint: None,
                    },
                );
            },
            Node::MethodDefinition(x) => {
                r.push(
                    Field {
                        name: "key",
                        value: FieldValue::Ptr(x.key),
                        constraint: Some(NodeKind::Expression),
                    },
                );
                r.push(
                    Field {
                        name: "value",
                        value: FieldValue::Ptr(x.value),
                        constraint: Some(NodeKind::Expression),
                    },
                );
                r.push(
                    Field { name: "kind", value: FieldValue::MethodKind(x.kind), constraint: None },
                );
                r.push(
                    Field {
                        name: "computed",
                        value: FieldValue::Bool(x.computed),
                        constraint: None,
                    },
                );
                r.push(
                    Field {
                        name: "isStatic",
                        value: FieldValue::Bool(x.is_static),
                        constraint: None,
                    },
                );
            },
            Node::ImportDeclaration(x) => {
                r.push(
                    Field {
                        name: "specifiers",
                        value: FieldValue::List(&x.specifiers),
                        constraint: None,
                    },
                );
                r.push(
                    Field {
                        name: "source",
                        value: FieldValue::Ptr(x.source),
                        constraint: Some(NodeKind::StringLiteral),
                    },
                );
                r.push(
                    Field {
                        name: "importKind",
                        value: FieldValue::ImpKind(x.import_kind),
                        constraint: None,
                    },
                );
            },
            Node::ExportNamedDeclaration(x) => {
                r.push(
                    Field {
                        name: "declaration",
                        value: FieldValue::OptPtr(x.declaration),
                        constraint: Some(NodeKind::Declaration),
                    },
                );
                r.push(
                    Field {
                        name: "specifiers",
                        value: FieldValue::List(&x.specifiers),
                        constraint: None,
                    },
                );
                r.push(
                    Field {
                        name: "source",
                        value: FieldValue::OptPtr(x.source),
                        constraint: Some(NodeKind::StringLiteral),
                    },
                );
                r.push(
                    Field {
                        name: "exportKind",
                        value: FieldValue::ExpKind(x.export_kind),
                        constraint: None,
                    },
                );
            },
        }
        r
    }
}

} // verus!
