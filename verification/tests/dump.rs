use juno_ast::{
    AssignmentExpression, AssignmentExpressionOperator, BinaryExpression, BinaryExpressionOperator,
    BlockStatement, BooleanLiteral, Context, ExportKind, ExportNamedDeclaration,
    ExpressionStatement, Identifier, IfStatement, ImportDeclaration, ImportKind, LogicalExpression,
    LogicalExpressionOperator, MethodDefinition, MethodDefinitionKind, Node, NodeLabel, NodeNumber,
    NodePtr, NodeString, NullLiteral, NumericLiteral, ObjectExpression, Pretty, Property,
    PropertyKind, ReturnStatement, SourceLoc, SourceRange, StringLiteral, UnaryExpression,
    UnaryExpressionOperator, UpdateExpression, UpdateExpressionOperator, VariableDeclaration,
    VariableDeclarationKind, VariableDeclarator,
};

fn rng() -> SourceRange {
    SourceRange {
        file: 0,
        start: SourceLoc { line: 1, col: 1 },
        end: SourceLoc { line: 1, col: 1 },
    }
}

fn number(text: &str) -> NodeNumber {
    NodeNumber::new(String::from(text)).unwrap()
}

fn label(text: &str) -> NodeLabel {
    NodeLabel::new(String::from(text)).unwrap()
}

fn node_string(text: &str) -> NodeString {
    NodeString::new(String::from(text))
}

fn num_lit(ctx: &mut Context, text: &str) -> NodePtr {
    ctx.allocate(Node::NumericLiteral(NumericLiteral {
        range: rng(),
        value: number(text),
    }))
}

fn ident(ctx: &mut Context, name: &str) -> NodePtr {
    ctx.allocate(Node::Identifier(Identifier {
        range: rng(),
        name: label(name),
    }))
}

fn dump_compact(ctx: &Context, root: NodePtr) -> String {
    juno_ast::dump_json(ctx, root, Pretty::No)
}

#[test]
fn test_dump_block_compact() {
    let range = rng();
    let mut ctx = Context::new();
    let lit1 = num_lit(&mut ctx, "1.0");
    let stmt1 = ctx.allocate(Node::ExpressionStatement(ExpressionStatement {
        range,
        expression: lit1,
        directive: None,
    }));
    let lit2 = num_lit(&mut ctx, "2.0");
    let stmt2 = ctx.allocate(Node::ExpressionStatement(ExpressionStatement {
        range,
        expression: lit2,
        directive: None,
    }));
    let ast = ctx.allocate(Node::BlockStatement(BlockStatement {
        range,
        body: vec![stmt1, stmt2],
    }));
    let expected = "{\"type\":\"BlockStatement\",\"body\":[{\"type\":\"ExpressionStatement\",\"expression\":{\"type\":\"NumericLiteral\",\"value\":1.0},\"directive\":null},{\"type\":\"ExpressionStatement\",\"expression\":{\"type\":\"NumericLiteral\",\"value\":2.0},\"directive\":null}]}";
    assert_eq!(dump_compact(&ctx, ast), expected);
}

#[test]
fn test_dump_idempotent() {
    let range = rng();
    let mut ctx = Context::new();
    let lit = num_lit(&mut ctx, "7");
    let stmt = ctx.allocate(Node::ExpressionStatement(ExpressionStatement {
        range,
        expression: lit,
        directive: Some(node_string("use strict")),
    }));
    let first = dump_compact(&ctx, stmt);
    let second = dump_compact(&ctx, stmt);
    assert_eq!(first, second);
    let p1 = juno_ast::dump_json(&ctx, stmt, Pretty::Yes);
    let p2 = juno_ast::dump_json(&ctx, stmt, Pretty::Yes);
    assert_eq!(p1, p2);
}

#[test]
fn test_dump_pretty() {
    let mut ctx = Context::new();
    let lit = num_lit(&mut ctx, "1.0");
    assert_eq!(
        juno_ast::dump_json(&ctx, lit, Pretty::Yes),
        "{\n  \"type\": \"NumericLiteral\",\n  \"value\": 1.0\n}"
    );
    let block = ctx.allocate(Node::BlockStatement(BlockStatement {
        range: rng(),
        body: vec![],
    }));
    assert_eq!(
        juno_ast::dump_json(&ctx, block, Pretty::Yes),
        "{\n  \"type\": \"BlockStatement\",\n  \"body\": [\n  ]\n}"
    );
}

#[test]
fn test_dump_string_escaping() {
    let mut ctx = Context::new();
    let mut text = String::from("a\"b\\c\nd\te\r");
    text.push('\u{1}');
    let lit = ctx.allocate(Node::StringLiteral(StringLiteral {
        range: rng(),
        value: node_string(&text),
    }));
    assert_eq!(
        dump_compact(&ctx, lit),
        "{\"type\":\"StringLiteral\",\"value\":\"a\\\"b\\\\c\\nd\\te\\r\\u0001\"}"
    );
}

#[test]
fn test_dump_literals() {
    let mut ctx = Context::new();
    let n = num_lit(&mut ctx, "3.25");
    assert_eq!(
        dump_compact(&ctx, n),
        "{\"type\":\"NumericLiteral\",\"value\":3.25}"
    );
    let b = ctx.allocate(Node::BooleanLiteral(BooleanLiteral {
        range: rng(),
        value: true,
    }));
    assert_eq!(
        dump_compact(&ctx, b),
        "{\"type\":\"BooleanLiteral\",\"value\":true}"
    );
    let s = ctx.allocate(Node::StringLiteral(StringLiteral {
        range: rng(),
        value: node_string("hi"),
    }));
    assert_eq!(
        dump_compact(&ctx, s),
        "{\"type\":\"StringLiteral\",\"value\":\"hi\"}"
    );
    let nl = ctx.allocate(Node::NullLiteral(NullLiteral { range: rng() }));
    assert_eq!(dump_compact(&ctx, nl), "{\"type\":\"NullLiteral\"}");
    let id = ident(&mut ctx, "foo");
    assert_eq!(
        dump_compact(&ctx, id),
        "{\"type\":\"Identifier\",\"name\":\"foo\"}"
    );
}

#[test]
fn test_dump_statements() {
    let mut ctx = Context::new();
    let lit = num_lit(&mut ctx, "1");
    let es = ctx.allocate(Node::ExpressionStatement(ExpressionStatement {
        range: rng(),
        expression: lit,
        directive: Some(node_string("use strict")),
    }));
    assert_eq!(
        dump_compact(&ctx, es),
        "{\"type\":\"ExpressionStatement\",\"expression\":{\"type\":\"NumericLiteral\",\"value\":1},\"directive\":\"use strict\"}"
    );
    let ret_none = ctx.allocate(Node::ReturnStatement(ReturnStatement {
        range: rng(),
        argument: None,
    }));
    assert_eq!(
        dump_compact(&ctx, ret_none),
        "{\"type\":\"ReturnStatement\",\"argument\":null}"
    );
    let cond = ctx.allocate(Node::BooleanLiteral(BooleanLiteral {
        range: rng(),
        value: true,
    }));
    let cons = ctx.allocate(Node::BlockStatement(BlockStatement {
        range: rng(),
        body: vec![],
    }));
    let ifs = ctx.allocate(Node::IfStatement(IfStatement {
        range: rng(),
        test: cond,
        consequent: cons,
        alternate: None,
    }));
    assert_eq!(
        dump_compact(&ctx, ifs),
        "{\"type\":\"IfStatement\",\"test\":{\"type\":\"BooleanLiteral\",\"value\":true},\"consequent\":{\"type\":\"BlockStatement\",\"body\":[]},\"alternate\":null}"
    );
}

#[test]
fn test_dump_expressions() {
    let mut ctx = Context::new();
    let five = num_lit(&mut ctx, "5");
    let una = ctx.allocate(Node::UnaryExpression(UnaryExpression {
        range: rng(),
        operator: UnaryExpressionOperator::Minus,
        argument: five,
        prefix: true,
    }));
    assert_eq!(
        dump_compact(&ctx, una),
        "{\"type\":\"UnaryExpression\",\"operator\":\"-\",\"argument\":{\"type\":\"NumericLiteral\",\"value\":5},\"prefix\":true}"
    );
    let one = num_lit(&mut ctx, "1");
    let two = num_lit(&mut ctx, "2");
    let bin = ctx.allocate(Node::BinaryExpression(BinaryExpression {
        range: rng(),
        left: one,
        right: two,
        operator: BinaryExpressionOperator::Plus,
    }));
    assert_eq!(
        dump_compact(&ctx, bin),
        "{\"type\":\"BinaryExpression\",\"left\":{\"type\":\"NumericLiteral\",\"value\":1},\"right\":{\"type\":\"NumericLiteral\",\"value\":2},\"operator\":\"+\"}"
    );
    let t = ctx.allocate(Node::BooleanLiteral(BooleanLiteral {
        range: rng(),
        value: true,
    }));
    let f = ctx.allocate(Node::BooleanLiteral(BooleanLiteral {
        range: rng(),
        value: false,
    }));
    let log = ctx.allocate(Node::LogicalExpression(LogicalExpression {
        range: rng(),
        left: t,
        right: f,
        operator: LogicalExpressionOperator::And,
    }));
    assert_eq!(
        dump_compact(&ctx, log),
        "{\"type\":\"LogicalExpression\",\"left\":{\"type\":\"BooleanLiteral\",\"value\":true},\"right\":{\"type\":\"BooleanLiteral\",\"value\":false},\"operator\":\"&&\"}"
    );
    let x = ident(&mut ctx, "x");
    let upd = ctx.allocate(Node::UpdateExpression(UpdateExpression {
        range: rng(),
        operator: UpdateExpressionOperator::Increment,
        argument: x,
        prefix: false,
    }));
    assert_eq!(
        dump_compact(&ctx, upd),
        "{\"type\":\"UpdateExpression\",\"operator\":\"++\",\"argument\":{\"type\":\"Identifier\",\"name\":\"x\"},\"prefix\":false}"
    );
    let y = ident(&mut ctx, "y");
    let one2 = num_lit(&mut ctx, "1");
    let asg = ctx.allocate(Node::AssignmentExpression(AssignmentExpression {
        range: rng(),
        operator: AssignmentExpressionOperator::Assign,
        left: y,
        right: one2,
    }));
    assert_eq!(
        dump_compact(&ctx, asg),
        "{\"type\":\"AssignmentExpression\",\"operator\":\"=\",\"left\":{\"type\":\"Identifier\",\"name\":\"y\"},\"right\":{\"type\":\"NumericLiteral\",\"value\":1}}"
    );
}

#[test]
fn test_dump_declarations_and_objects() {
    let mut ctx = Context::new();
    let x = ident(&mut ctx, "x");
    let decl = ctx.allocate(Node::VariableDeclarator(VariableDeclarator {
        range: rng(),
        id: x,
        init: None,
    }));
    assert_eq!(
        dump_compact(&ctx, decl),
        "{\"type\":\"VariableDeclarator\",\"id\":{\"type\":\"Identifier\",\"name\":\"x\"},\"init\":null}"
    );
    let var = ctx.allocate(Node::VariableDeclaration(VariableDeclaration {
        range: rng(),
        kind: VariableDeclarationKind::Let,
        declarations: vec![decl],
    }));
    assert_eq!(
        dump_compact(&ctx, var),
        "{\"type\":\"VariableDeclaration\",\"kind\":\"let\",\"declarations\":[{\"type\":\"VariableDeclarator\",\"id\":{\"type\":\"Identifier\",\"name\":\"x\"},\"init\":null}]}"
    );
    let obj_empty = ctx.allocate(Node::ObjectExpression(ObjectExpression {
        range: rng(),
        properties: vec![],
    }));
    assert_eq!(
        dump_compact(&ctx, obj_empty),
        "{\"type\":\"ObjectExpression\",\"properties\":[]}"
    );
    let k = ident(&mut ctx, "k");
    let one = num_lit(&mut ctx, "1");
    let prop = ctx.allocate(Node::Property(Property {
        range: rng(),
        key: k,
        value: one,
        kind: PropertyKind::Init,
        computed: false,
    }));
    assert_eq!(
        dump_compact(&ctx, prop),
        "{\"type\":\"Property\",\"key\":{\"type\":\"Identifier\",\"name\":\"k\"},\"value\":{\"type\":\"NumericLiteral\",\"value\":1},\"kind\":\"init\",\"computed\":false}"
    );
    let m = ident(&mut ctx, "m");
    let body = ident(&mut ctx, "f");
    let meth = ctx.allocate(Node::MethodDefinition(MethodDefinition {
        range: rng(),
        key: m,
        value: body,
        kind: MethodDefinitionKind::Method,
        computed: false,
        is_static: true,
    }));
    assert_eq!(
        dump_compact(&ctx, meth),
        "{\"type\":\"MethodDefinition\",\"key\":{\"type\":\"Identifier\",\"name\":\"m\"},\"value\":{\"type\":\"Identifier\",\"name\":\"f\"},\"kind\":\"method\",\"computed\":false,\"isStatic\":true}"
    );
}

#[test]
fn test_dump_modules() {
    let mut ctx = Context::new();
    let source = ctx.allocate(Node::StringLiteral(StringLiteral {
        range: rng(),
        value: node_string("m"),
    }));
    let imp = ctx.allocate(Node::ImportDeclaration(ImportDeclaration {
        range: rng(),
        specifiers: vec![],
        source,
        import_kind: ImportKind::Value,
    }));
    assert_eq!(
        dump_compact(&ctx, imp),
        "{\"type\":\"ImportDeclaration\",\"specifiers\":[],\"source\":{\"type\":\"StringLiteral\",\"value\":\"m\"},\"importKind\":\"value\"}"
    );
    let exp = ctx.allocate(Node::ExportNamedDeclaration(ExportNamedDeclaration {
        range: rng(),
        declaration: None,
        specifiers: vec![],
        source: None,
        export_kind: ExportKind::Type,
    }));
    assert_eq!(
        dump_compact(&ctx, exp),
        "{\"type\":\"ExportNamedDeclaration\",\"declaration\":null,\"specifiers\":[],\"source\":null,\"exportKind\":\"type\"}"
    );
}
