use noir_debugger::ast::{
    Expression, ExpressionKind, FunctionDefinition, Item, ItemKind, LValue, Literal, OperationForm,
    ParsedModule, Path, PathKind, Pattern, Statement, StatementKind, UnresolvedType,
};
use noir_debugger::instrument::{
    byte_array_expr, id_expr, int_expr, oracle_items, pattern_vars, str_expr, vec_from_slice,
    wrap_assign_member, wrap_assign_var, wrap_drop_var, DebugState,
};
use noir_debugger::program::Span;

fn none() -> Span {
    Span { start: 0, end: 0 }
}

fn span(start: u32) -> Span {
    Span { start, end: start + 5 }
}

fn var(name: &str) -> Expression {
    Expression {
        kind: ExpressionKind::Variable(Path { segments: vec![name.to_string()], kind: PathKind::Plain }),
        span: none(),
    }
}

fn num(x: u128) -> Expression {
    Expression { kind: ExpressionKind::Literal(Literal::Integer(x)), span: none() }
}

fn unit() -> Expression {
    Expression { kind: ExpressionKind::Literal(Literal::Unit), span: none() }
}

fn call(path: &[&str], arguments: Vec<Expression>) -> Expression {
    let mut operands = vec![Expression {
        kind: ExpressionKind::Variable(Path {
            segments: path.iter().map(|s| s.to_string()).collect(),
            kind: PathKind::Plain,
        }),
        span: none(),
    }];
    operands.extend(arguments);
    Expression {
        kind: ExpressionKind::Operation { form: OperationForm::Call, labels: vec![], operands },
        span: none(),
    }
}

fn tuple(elements: Vec<Expression>) -> Expression {
    Expression {
        kind: ExpressionKind::Operation {
            form: OperationForm::Tuple,
            labels: vec![],
            operands: elements,
        },
        span: none(),
    }
}

fn block(stmts: Vec<Statement>) -> Expression {
    Expression { kind: ExpressionKind::Block(stmts), span: none() }
}

fn semi(e: Expression) -> Statement {
    Statement { kind: StatementKind::Semi(e), span: none() }
}

fn expr(e: Expression) -> Statement {
    Statement { kind: StatementKind::Expression(e), span: none() }
}

fn let_ident(name: &str, e: Expression, at: Span) -> Statement {
    Statement {
        kind: StatementKind::Let {
            pattern: Pattern::Identifier(name.to_string()),
            typ: UnresolvedType::Unspecified,
            expression: e,
        },
        span: at,
    }
}

fn assign(id: u128, value: Expression) -> Statement {
    semi(call(&["__debug_var_assign"], vec![num(id), value]))
}

fn drop_of(id: u128) -> Statement {
    semi(call(&["__debug_var_drop"], vec![num(id)]))
}

fn slice(elements: Vec<Expression>) -> Expression {
    call(
        &["__debug_Vec", "from_slice"],
        vec![Expression { kind: ExpressionKind::Literal(Literal::Array(elements)), span: none() }],
    )
}

/// `let <name> = <e>;` as the instrumenter rewrites it, for variable `id`.
fn wrapped_let(name: &str, id: u128, e: Expression, at: Span) -> Statement {
    Statement {
        kind: StatementKind::Let {
            pattern: Pattern::Tuple(vec![Pattern::Identifier(name.to_string())], none()),
            typ: UnresolvedType::Unspecified,
            expression: block(vec![
                let_ident(name, e, none()),
                assign(id, var(name)),
                expr(tuple(vec![var(name)])),
            ]),
        },
        span: at,
    }
}

fn function(name: &str, parameters: Vec<&str>, body: Vec<Statement>) -> FunctionDefinition {
    FunctionDefinition {
        name: name.to_string(),
        generics: vec![],
        parameters: parameters
            .into_iter()
            .map(|p| (Pattern::Identifier(p.to_string()), UnresolvedType::Named("Field".to_string())))
            .collect(),
        body,
        is_unconstrained: false,
        is_public: false,
        oracle: None,
    }
}

#[test]
fn builders() {
    assert_eq!(id_expr("x"), var("x"));
    assert_eq!(int_expr(7), num(7));
    assert_eq!(
        str_expr("s"),
        Expression { kind: ExpressionKind::Literal(Literal::Str("s".to_string())), span: none() }
    );
    assert_eq!(vec_from_slice(num(1)), call(&["__debug_Vec", "from_slice"], vec![num(1)]));
    assert_eq!(byte_array_expr(b"ab"), slice(vec![num(97), num(98)]));
    assert_eq!(wrap_assign_var(3, var("x")), assign(3, var("x")));
    assert_eq!(wrap_drop_var(3), drop_of(3));
    assert_eq!(
        wrap_assign_member(2, vec![num(0), var("i")], &vec![(0, "f".to_string())], var("v")),
        semi(call(
            &["__debug_member_assign_placeholder"],
            vec![
                num(2),
                slice(vec![num(0), var("i")]),
                slice(vec![tuple(vec![num(0), slice(vec![num(102)])])]),
                var("v"),
            ]
        ))
    );
}

#[test]
fn pattern_variables_depth_first() {
    // ((a, mut b), S { c: d }, e)
    let pattern = Pattern::Tuple(
        vec![
            Pattern::Tuple(
                vec![
                    Pattern::Identifier("a".to_string()),
                    Pattern::Mutable(Box::new(Pattern::Identifier("b".to_string())), none()),
                ],
                none(),
            ),
            Pattern::Struct(
                Path { segments: vec!["S".to_string()], kind: PathKind::Plain },
                vec![("c".to_string(), Pattern::Identifier("d".to_string()))],
                none(),
            ),
            Pattern::Identifier("e".to_string()),
        ],
        none(),
    );
    assert_eq!(
        pattern_vars(&pattern),
        vec![
            ("a".to_string(), false),
            ("b".to_string(), true),
            ("d".to_string(), false),
            ("e".to_string(), false),
        ]
    );
}

#[test]
fn ids_are_given_in_order_and_scoped() {
    let mut state = DebugState::default();
    assert_eq!(state.insert_var("x"), None);
    assert_eq!(state.lookup_var("x"), None);
    let _ = state.walk_expr(&unit());
    let f = function("f", vec!["x", "y"], vec![]);
    let out = state.walk_fn(&f);
    assert_eq!(out.body[0], assign(0, var("x")));
    assert_eq!(out.body[1], assign(1, var("y")));
    assert_eq!(state.variables.get(&0), Some(&"x".to_string()));
    assert_eq!(state.variables.get(&1), Some(&"y".to_string()));
    assert_eq!(state.variables.len(), 2);
    // the scope of `f` is closed
    assert_eq!(state.lookup_var("x"), None);
}

#[test]
fn function_is_instrumented() {
    // fn main(x) { let a = x; a = 3; a }
    let body = vec![
        let_ident("a", var("x"), span(10)),
        Statement {
            kind: StatementKind::Assign { lvalue: LValue::Ident("a".to_string()), expression: num(3) },
            span: span(20),
        },
        expr(var("a")),
    ];
    let mut state = DebugState::default();
    let out = state.walk_fn(&function("main", vec!["x"], body));
    let expected = vec![
        assign(0, var("x")),
        wrapped_let("a", 1, var("x"), span(10)),
        Statement {
            kind: StatementKind::Assign {
                lvalue: LValue::Ident("a".to_string()),
                expression: block(vec![
                    let_ident("__debug_expr", num(3), none()),
                    assign(1, var("__debug_expr")),
                    expr(var("__debug_expr")),
                ]),
            },
            span: span(20),
        },
        let_ident("__debug_expr", var("a"), none()),
        drop_of(0),
        drop_of(1),
        expr(var("__debug_expr")),
    ];
    assert_eq!(out.body, expected);
    assert_eq!(out.name, "main");
    assert_eq!(out.parameters.len(), 1);
}

#[test]
fn scope_without_value_ends_in_unit() {
    let mut state = DebugState::default();
    let out = state.walk_fn(&function("f", vec![], vec![semi(var("g"))]));
    assert_eq!(out.body, vec![semi(var("g")), expr(unit())]);
    let out = state.walk_fn(&function("f", vec![], vec![]));
    assert_eq!(out.body, vec![let_ident("__debug_expr", unit(), none()), expr(var("__debug_expr"))]);
}

#[test]
fn member_and_reference_assignments() {
    // a.b[i].c = v
    let lvalue = LValue::MemberAccess {
        object: Box::new(LValue::Index {
            array: Box::new(LValue::MemberAccess {
                object: Box::new(LValue::Ident("a".to_string())),
                field_name: "b".to_string(),
            }),
            index: var("i"),
        }),
        field_name: "c".to_string(),
    };
    let body = vec![Statement {
        kind: StatementKind::Assign { lvalue: lvalue.clone(), expression: var("v") },
        span: span(1),
    }];
    let mut state = DebugState::default();
    let out = state.walk_fn(&function("f", vec!["a"], body));
    let report = semi(call(
        &["__debug_member_assign_placeholder"],
        vec![
            num(0),
            slice(vec![num(0), var("i"), num(0)]),
            slice(vec![
                tuple(vec![num(0), slice(vec![num(99)])]),
                tuple(vec![num(2), slice(vec![num(98)])]),
            ]),
            var("__debug_expr"),
        ],
    ));
    assert_eq!(
        out.body[1],
        Statement {
            kind: StatementKind::Assign {
                lvalue,
                expression: block(vec![
                    let_ident("__debug_expr", var("v"), none()),
                    report,
                    expr(var("__debug_expr")),
                ]),
            },
            span: span(1),
        }
    );
    // *r = v
    let deref = LValue::Dereference(Box::new(LValue::Ident("r".to_string())));
    let body = vec![Statement {
        kind: StatementKind::Assign { lvalue: deref.clone(), expression: var("v") },
        span: span(2),
    }];
    let out = state.walk_fn(&function("g", vec!["r"], body));
    assert_eq!(
        out.body[1],
        Statement {
            kind: StatementKind::Assign {
                lvalue: deref,
                expression: block(vec![
                    let_ident("__debug_expr", var("v"), none()),
                    semi(call(&["__debug_dereference_assign"], vec![num(1), var("__debug_expr")])),
                    expr(var("__debug_expr")),
                ]),
            },
            span: span(2),
        }
    );
}

#[test]
fn assignment_to_unknown_variable_is_left() {
    let stmt = Statement {
        kind: StatementKind::Assign { lvalue: LValue::Ident("g".to_string()), expression: num(1) },
        span: span(3),
    };
    let mut state = DebugState::default();
    let out = state.walk_fn(&function("f", vec![], vec![stmt.clone()]));
    assert_eq!(out.body[0], stmt);
}

#[test]
fn for_loop_reports_its_variable() {
    // for i in 0..3 { let a = i; }
    let stmt = Statement {
        kind: StatementKind::For {
            identifier: "i".to_string(),
            range_start: num(0),
            range_end: num(3),
            block: block(vec![let_ident("a", var("i"), span(7))]),
        },
        span: span(5),
    };
    let mut state = DebugState::default();
    let out = state.walk_fn(&function("f", vec![], vec![stmt]));
    let inner = block(vec![wrapped_let("a", 1, var("i"), span(7)), drop_of(1), expr(unit())]);
    assert_eq!(
        out.body[0],
        Statement {
            kind: StatementKind::For {
                identifier: "i".to_string(),
                range_start: num(0),
                range_end: num(3),
                block: block(vec![assign(0, var("i")), semi(inner), drop_of(0)]),
            },
            span: span(5),
        }
    );
    // the loop variable lives in the loop alone: the function has nothing to drop
    assert_eq!(out.body[1], expr(unit()));
    assert_eq!(out.body.len(), 2);
}

#[test]
fn loop_variable_does_not_outlive_the_loop() {
    // fn f(i) { for i in 0..3 { i = 1; } i = 5; }
    let assign_to_i = |value: u128, at: u32| Statement {
        kind: StatementKind::Assign { lvalue: LValue::Ident("i".to_string()), expression: num(value) },
        span: span(at),
    };
    let reported = |id: u128, value: u128, at: u32| Statement {
        kind: StatementKind::Assign {
            lvalue: LValue::Ident("i".to_string()),
            expression: block(vec![
                let_ident("__debug_expr", num(value), none()),
                assign(id, var("__debug_expr")),
                expr(var("__debug_expr")),
            ]),
        },
        span: span(at),
    };
    let stmt = Statement {
        kind: StatementKind::For {
            identifier: "i".to_string(),
            range_start: num(0),
            range_end: num(3),
            block: block(vec![assign_to_i(1, 7)]),
        },
        span: span(5),
    };
    let mut state = DebugState::default();
    let out = state.walk_fn(&function("f", vec!["i"], vec![stmt, assign_to_i(5, 9)]));
    // inside the loop the name is the loop's variable, behind it the parameter again
    let inner = block(vec![reported(1, 1, 7), expr(unit())]);
    let walked_loop = Statement {
        kind: StatementKind::For {
            identifier: "i".to_string(),
            range_start: num(0),
            range_end: num(3),
            block: block(vec![assign(1, var("i")), semi(inner), drop_of(1)]),
        },
        span: span(5),
    };
    assert_eq!(
        out.body,
        vec![assign(0, var("i")), walked_loop, reported(0, 5, 9), drop_of(0), expr(unit())]
    );
    assert_eq!(state.variables.get(&0), Some(&"i".to_string()));
    assert_eq!(state.variables.get(&1), Some(&"i".to_string()));
}

#[test]
fn shadowed_variable_is_dropped_with_its_scope() {
    // let a = 1; let a = 2; a = 3;
    let body = vec![
        let_ident("a", num(1), span(1)),
        let_ident("a", num(2), span(2)),
        Statement {
            kind: StatementKind::Assign { lvalue: LValue::Ident("a".to_string()), expression: num(3) },
            span: span(3),
        },
    ];
    let mut state = DebugState::default();
    let out = state.walk_fn(&function("f", vec![], body));
    assert_eq!(out.body[0], wrapped_let("a", 0, num(1), span(1)));
    assert_eq!(out.body[1], wrapped_let("a", 1, num(2), span(2)));
    // the name stands for its last binding
    assert_eq!(
        out.body[2],
        Statement {
            kind: StatementKind::Assign {
                lvalue: LValue::Ident("a".to_string()),
                expression: block(vec![
                    let_ident("__debug_expr", num(3), none()),
                    assign(1, var("__debug_expr")),
                    expr(var("__debug_expr")),
                ]),
            },
            span: span(3),
        }
    );
    // both variables are reported as gone, each once
    assert_eq!(out.body[3], drop_of(0));
    assert_eq!(out.body[4], drop_of(1));
    assert_eq!(out.body[5], expr(unit()));
    assert_eq!(out.body.len(), 6);
}

#[test]
fn blocks_in_operands_are_walked_but_not_in_array_literals() {
    let inner = block(vec![let_ident("a", num(1), span(1))]);
    let in_call = call(&["f"], vec![inner.clone()]);
    let in_array =
        Expression { kind: ExpressionKind::Literal(Literal::Array(vec![inner.clone()])), span: none() };
    let mut state = DebugState::default();
    let out = state.walk_fn(&function("f", vec![], vec![semi(in_call), semi(in_array.clone())]));
    let walked = block(vec![wrapped_let("a", 0, num(1), span(1)), drop_of(0), expr(unit())]);
    assert_eq!(out.body[0], semi(call(&["f"], vec![walked])));
    assert_eq!(out.body[1], semi(in_array));
}

#[test]
fn module_gets_the_oracles_once_and_unwalked() {
    let mut module = ParsedModule {
        items: vec![
            Item { kind: ItemKind::Other, span: span(0) },
            Item { kind: ItemKind::Function(function("main", vec!["x"], vec![])), span: span(9) },
        ],
    };
    let mut state = DebugState::default();
    state.insert_symbols(&mut module);
    let oracles = oracle_items();
    assert_eq!(oracles.len(), 14);
    assert_eq!(module.items.len(), 2 + oracles.len());
    assert_eq!(module.items[0], Item { kind: ItemKind::Other, span: span(0) });
    assert_eq!(&module.items[2..], &oracles[..]);
    match &module.items[1].kind {
        ItemKind::Function(f) => assert_eq!(f.body[0], assign(0, var("x"))),
        other => panic!("{:?}", other),
    }
    let names: Vec<String> = oracles
        .iter()
        .filter_map(|item| match &item.kind {
            ItemKind::Function(f) => Some(f.name.clone()),
            _ => None,
        })
        .collect();
    assert_eq!(
        names,
        vec![
            "__debug_var_assign_oracle",
            "__debug_var_assign_inner",
            "__debug_var_assign",
            "__debug_var_drop_oracle",
            "__debug_var_drop_inner",
            "__debug_var_drop",
            "__debug_member_assign_oracle",
            "__debug_member_assign_inner",
            "__debug_member_assign",
            "__debug_member_assign_placeholder",
            "__debug_dereference_assign_oracle",
            "__debug_dereference_assign_inner",
            "__debug_dereference_assign",
        ]
    );
    match &oracles[1].kind {
        ItemKind::Function(f) => {
            assert!(f.is_unconstrained);
            assert_eq!(
                f.body,
                vec![semi(call(&["__debug_var_assign_oracle"], vec![var("var_id"), var("value")]))]
            );
        },
        other => panic!("{:?}", other),
    }
    match &oracles[0].kind {
        ItemKind::Function(f) => {
            assert_eq!(f.oracle, Some("__debug_var_assign".to_string()));
            assert!(f.body.is_empty());
        },
        other => panic!("{:?}", other),
    }
}

#[test]
fn disabled_instrumenter_leaves_the_module() {
    let mut module = ParsedModule {
        items: vec![Item {
            kind: ItemKind::Function(function("main", vec!["x"], vec![])),
            span: span(9),
        }],
    };
    let before = module.items.len();
    let mut state = DebugState::default();
    state.enabled = false;
    state.insert_symbols(&mut module);
    assert_eq!(module.items.len(), before);
    assert!(state.variables.is_empty());
}

#[test]
fn ids_do_not_depend_on_earlier_runs() {
    let make = || ParsedModule {
        items: vec![Item {
            kind: ItemKind::Function(function(
                "main",
                vec!["x"],
                vec![let_ident("a", var("x"), span(1))],
            )),
            span: span(9),
        }],
    };
    let mut first = make();
    DebugState::default().insert_symbols(&mut first);
    let mut second = make();
    DebugState::default().insert_symbols(&mut second);
    assert_eq!(first, second);
}

#[test]
fn oracles_are_added_behind_what_a_module_holds() {
    let mut module = ParsedModule { items: vec![Item { kind: ItemKind::Other, span: span(3) }] };
    let state = DebugState::default();
    state.insert_state_set_oracle(&mut module);
    let oracles = oracle_items();
    assert_eq!(module.items.len(), 1 + oracles.len());
    assert_eq!(module.items[0], Item { kind: ItemKind::Other, span: span(3) });
    assert_eq!(&module.items[1..], &oracles[..]);
    let mut empty = ParsedModule { items: vec![] };
    state.insert_state_set_oracle(&mut empty);
    assert_eq!(empty.items, oracles);
}

#[test]
fn scope_keeps_every_binding_it_was_given() {
    let mut state = DebugState::default();
    state.scope.push(vec![]);
    assert_eq!(state.insert_var("x"), Some(0));
    assert_eq!(state.insert_var("y"), Some(1));
    assert_eq!(state.insert_var("x"), Some(2));
    // the name stands for its last binding
    assert_eq!(state.lookup_var("x"), Some(2));
    assert_eq!(state.lookup_var("y"), Some(1));
    // an inner scope hides the outer binding while it is open
    state.scope.push(vec![]);
    assert_eq!(state.insert_var("y"), Some(3));
    assert_eq!(state.lookup_var("y"), Some(3));
    assert_eq!(state.lookup_var("x"), Some(2));
    assert_eq!(state.walk_scope(&vec![semi(var("g"))]), vec![semi(var("g")), drop_of(3), expr(unit())]);
    assert_eq!(state.lookup_var("y"), Some(1));
    // every variable of the scope is reported as gone, each once
    let out = state.walk_scope(&vec![]);
    assert_eq!(
        out,
        vec![
            let_ident("__debug_expr", unit(), none()),
            drop_of(0),
            drop_of(1),
            drop_of(2),
            expr(var("__debug_expr")),
        ]
    );
    assert_eq!(state.lookup_var("x"), None);
    assert!(state.scope.is_empty());
    assert_eq!(state.next_var_id, 4);
}
