use juno_ast::{
    BlockStatement, Context, ExpressionStatement, Node, NodeKind, NodeNumber, NodePtr,
    NumericLiteral, SourceLoc, SourceRange, Visitor,
};

fn test_range() -> SourceRange {
    SourceRange {
        file: 0,
        start: SourceLoc { line: 1, col: 1 },
        end: SourceLoc { line: 1, col: 1 },
    }
}

fn number(text: &str) -> NodeNumber {
    NodeNumber::new(String::from(text)).unwrap()
}

/// Builds the block holding two expression statements whose expressions are
/// the numeric literals 1.0 and 2.0; returns the context and all handles in
/// allocation order: literal 1, statement 1, literal 2, statement 2, block.
fn two_statement_block() -> (Context, [NodePtr; 5]) {
    let range = test_range();
    let mut ctx = Context::new();
    let lit1 = ctx.allocate(Node::NumericLiteral(NumericLiteral {
        range,
        value: number("1.0"),
    }));
    let stmt1 = ctx.allocate(Node::ExpressionStatement(ExpressionStatement {
        range,
        expression: lit1,
        directive: None,
    }));
    let lit2 = ctx.allocate(Node::NumericLiteral(NumericLiteral {
        range,
        value: number("2.0"),
    }));
    let stmt2 = ctx.allocate(Node::ExpressionStatement(ExpressionStatement {
        range,
        expression: lit2,
        directive: None,
    }));
    let ast = ctx.allocate(Node::BlockStatement(BlockStatement {
        range,
        body: vec![stmt1, stmt2],
    }));
    (ctx, [lit1, stmt1, lit2, stmt2, ast])
}

// Accumulates the numbers found in the AST.
struct NumberFinder {
    acc: Vec<f64>,
}

impl Visitor for NumberFinder {
    fn call(&mut self, ctx: &Context, node: NodePtr, parent: Option<NodePtr>) {
        if let Node::NumericLiteral(NumericLiteral { value, .. }) = &node.get(ctx) {
            assert!(matches!(
                parent.unwrap().get(ctx),
                Node::ExpressionStatement(ExpressionStatement { .. })
            ));
            self.acc.push(value.as_str().parse::<f64>().unwrap());
        }
        node.visit_children(ctx, self);
    }
}

#[test]
#[allow(clippy::float_cmp)]
fn test_visit() {
    let (ctx, handles) = two_statement_block();
    let ast = handles[4];

    let mut visitor = NumberFinder { acc: vec![] };
    ast.visit(&ctx, &mut visitor, None);
    assert_eq!(visitor.acc, [1.0, 2.0]);
}

#[test]
fn test_preorder_order() {
    let (ctx, handles) = two_statement_block();
    let [lit1, stmt1, lit2, stmt2, ast] = handles;
    let order = juno_ast::preorder(&ctx, ast);
    assert_eq!(order, vec![ast, stmt1, lit1, stmt2, lit2]);
}

#[test]
fn test_validate_conforming_tree() {
    let (ctx, handles) = two_statement_block();
    let report = juno_ast::validate(&ctx, handles[4]);
    assert_eq!(report.len(), 0);
}

#[test]
fn test_validate_one_bad_reference() {
    let range = test_range();
    let mut ctx = Context::new();
    // A block statement is no expression, so referencing it from an
    // expression-statement's `expression` field breaks that field's
    // constraint and nothing else.
    let block = ctx.allocate(Node::BlockStatement(BlockStatement {
        range,
        body: vec![],
    }));
    let stmt = ctx.allocate(Node::ExpressionStatement(ExpressionStatement {
        range,
        expression: block,
        directive: None,
    }));
    let report = juno_ast::validate(&ctx, stmt);
    assert_eq!(report.len(), 1);
    assert_eq!(report[0].field, "expression");
    assert_eq!(report[0].expected, NodeKind::Expression);
    assert_eq!(report[0].actual, NodeKind::BlockStatement);
    assert_eq!(report[0].node, block);
}

#[test]
fn test_contains_rejects_foreign_handle() {
    let (ctx, handles) = two_statement_block();
    assert!(ctx.contains(handles[4]));
    // A context that never issued the handle's slot rejects it.
    let other = Context::new();
    assert!(!other.contains(handles[4]));
}

#[test]
fn test_is_a_hierarchy() {
    assert!(NodeKind::NumericLiteral.is_a(NodeKind::Literal));
    assert!(NodeKind::NumericLiteral.is_a(NodeKind::Expression));
    assert!(NodeKind::NumericLiteral.is_a(NodeKind::NumericLiteral));
    assert!(!NodeKind::NumericLiteral.is_a(NodeKind::Statement));
    assert!(NodeKind::Identifier.is_a(NodeKind::Pattern));
    assert!(NodeKind::Identifier.is_a(NodeKind::Expression));
    assert!(NodeKind::VariableDeclaration.is_a(NodeKind::Statement));
    assert!(!NodeKind::Expression.is_a(NodeKind::Statement));
    assert!(!NodeKind::Property.is_a(NodeKind::Expression));
}

#[test]
fn test_node_names() {
    let range = test_range();
    assert_eq!(
        Node::NumericLiteral(NumericLiteral {
            range,
            value: number("1"),
        })
        .name(),
        "NumericLiteral"
    );
    assert_eq!(
        Node::BlockStatement(BlockStatement {
            range,
            body: vec![],
        })
        .name(),
        "BlockStatement"
    );
}

// A visitor that never descends: it sees only the node it is started on.
struct CountOnly {
    seen: usize,
}

impl Visitor for CountOnly {
    fn call(&mut self, _ctx: &Context, _node: NodePtr, _parent: Option<NodePtr>) {
        self.seen += 1;
    }
}

#[test]
fn test_early_stop_visitor() {
    let (ctx, handles) = two_statement_block();
    let mut v = CountOnly { seen: 0 };
    handles[4].visit(&ctx, &mut v, None);
    assert_eq!(v.seen, 1);
}
