//! The source instrumenter: it gives every variable of a module an id and
//! rewrites the module so that the running program reports each assignment
//! and each end of a variable's life to the debugger.

use crate::ast::{
    clone_strings, Expression, ExpressionKind, ExprKindView, exprs_view, ExprView,
    FunctionDefinition, FunctionView, Item, ItemKind, ItemKindView, items_view, ItemView,
    lemma_exprs_view, lemma_named_patterns_view, lemma_patterns_view, lemma_stmts_view, Literal,
    LiteralView, LValue, LValueView, named_patterns_view, OperationForm, parameters_view,
    ParsedModule, Path, PathKind, PathView, Pattern, patterns_view, PatternView, Statement,
    StatementKind, StmtKindView, stmts_view, StmtView, strings_view, TypeNameView,
    UnresolvedType,
};
use crate::program::Span;
use std::collections::HashMap;
use vstd::prelude::*;
use vstd::utf8::encode_utf8;

verus! {

broadcast use vstd::std_specs::hash::group_hash_axioms;

/// The model of the instrumenter's state.
pub struct StateView {
    /// The name of every variable that has an id.
    pub variables: Map<u32, Seq<char>>,
    /// The next free id.
    pub next_var_id: u32,
    /// The open scopes, outermost first: the bindings of each in the order in
    /// which they were made.
    pub scope: Seq<Seq<(Seq<char>, u32)>>,
    /// Whether the instrumenter does anything.
    pub enabled: bool,
}

/// The span of a node that the instrumenter makes.
pub open spec fn spec_none_span() -> Span {
    Span { start: 0, end: 0 }
}

/// The id of the last binding of `name` in a scope, if the scope binds the name.
pub open spec fn last_binding(level: Seq<(Seq<char>, u32)>, name: Seq<char>) -> Option<u32>
    decreases level.len(),
{
    if level.len() == 0 {
        None
    } else if level.last().0 == name {
        Some(level.last().1)
    } else {
        last_binding(level.drop_last(), name)
    }
}

/// A scope after `name` is bound to `id`: the binding is added at the end.
/// A scope keeps every binding that it was given, also one of a name that is
/// bound again.
pub open spec fn bind(level: Seq<(Seq<char>, u32)>, name: Seq<char>, id: u32) -> Seq<
    (Seq<char>, u32),
> {
    level.push((name, id))
}

/// Gives the variable `name` the next id and binds it in the innermost scope.
/// No id is given where no scope is open or the ids have run out.
pub open spec fn spec_insert_var(st: StateView, name: Seq<char>) -> (StateView, Option<u32>) {
    if st.scope.len() == 0 || st.next_var_id == u32::MAX {
        (st, None)
    } else {
        let id = st.next_var_id;
        (
            StateView {
                variables: st.variables.insert(id, name),
                next_var_id: (id + 1) as u32,
                scope: st.scope.update(st.scope.len() - 1, bind(st.scope.last(), name, id)),
                ..st
            },
            Some(id),
        )
    }
}

/// The id that `name` is bound to: that of its last binding in the innermost
/// scope that binds it.
pub open spec fn lookup_in(scope: Seq<Seq<(Seq<char>, u32)>>, name: Seq<char>) -> Option<u32>
    decreases scope.len(),
{
    if scope.len() == 0 {
        None
    } else {
        match last_binding(scope.last(), name) {
            Some(id) => Some(id),
            None => lookup_in(scope.drop_last(), name),
        }
    }
}

/// The variables that a pattern binds, depth first and left to right, each
/// with whether it is mutable.
pub open spec fn spec_pattern_vars(p: PatternView, is_mut: bool) -> Seq<(Seq<char>, bool)>
    decreases p,
{
    match p {
        PatternView::Identifier(name) => seq![(name, is_mut)],
        PatternView::Mutable(inner, _) => spec_pattern_vars(*inner, true),
        PatternView::Tuple(patterns, _) => spec_tuple_vars(patterns),
        PatternView::Struct(_, fields, _) => spec_struct_vars(fields, is_mut),
    }
}

/// The variables of the patterns of a tuple.
pub open spec fn spec_tuple_vars(patterns: Seq<PatternView>) -> Seq<(Seq<char>, bool)>
    decreases patterns,
{
    if patterns.len() == 0 {
        Seq::empty()
    } else {
        spec_tuple_vars(patterns.drop_last()) + spec_pattern_vars(patterns.last(), false)
    }
}

/// The variables of the patterns of the fields of a struct.
pub open spec fn spec_struct_vars(fields: Seq<(Seq<char>, PatternView)>, is_mut: bool) -> Seq<
    (Seq<char>, bool),
>
    decreases fields,
{
    if fields.len() == 0 {
        Seq::empty()
    } else {
        spec_struct_vars(fields.drop_last(), is_mut) + spec_pattern_vars(fields.last().1, is_mut)
    }
}

/// The path of one name.
pub open spec fn ident_path(name: Seq<char>) -> PathView {
    PathView { segments: seq![name], kind: PathKind::Plain }
}

/// The expression that names a variable.
pub open spec fn spec_id_expr(name: Seq<char>) -> ExprView {
    ExprView { kind: ExprKindView::Variable(ident_path(name)), span: spec_none_span() }
}

/// The expression of an integer literal.
pub open spec fn spec_int_expr(x: u128) -> ExprView {
    ExprView { kind: ExprKindView::Literal(LiteralView::Integer(x)), span: spec_none_span() }
}

/// The expression of a string literal.
pub open spec fn spec_str_expr(s: Seq<char>) -> ExprView {
    ExprView { kind: ExprKindView::Literal(LiteralView::Str(s)), span: spec_none_span() }
}

/// The expression of the unit literal.
pub open spec fn unit_expr() -> ExprView {
    ExprView { kind: ExprKindView::Literal(LiteralView::Unit), span: spec_none_span() }
}

/// The expression of an array literal.
pub open spec fn array_expr(elements: Seq<ExprView>) -> ExprView {
    ExprView { kind: ExprKindView::Literal(LiteralView::Array(elements)), span: spec_none_span() }
}

/// The call of the function at `path` with `arguments`.
pub open spec fn call_expr(path: PathView, arguments: Seq<ExprView>) -> ExprView {
    ExprView {
        kind: ExprKindView::Operation {
            form: OperationForm::Call,
            labels: Seq::empty(),
            operands: seq![
                ExprView { kind: ExprKindView::Variable(path), span: spec_none_span() },
            ] + arguments,
        },
        span: spec_none_span(),
    }
}

/// The expression that makes a vector of the debugger's from a slice.
pub open spec fn spec_vec_from_slice(slice_expr: ExprView) -> ExprView {
    call_expr(
        PathView { segments: seq!["__debug_Vec"@, "from_slice"@], kind: PathKind::Plain },
        seq![slice_expr],
    )
}

/// The expression of a vector of bytes.
pub open spec fn spec_byte_array_expr(bytes: Seq<u8>) -> ExprView {
    spec_vec_from_slice(
        array_expr(Seq::new(bytes.len(), |i: int| spec_int_expr(bytes[i] as u128))),
    )
}

/// The statement of an expression whose value is dropped.
pub open spec fn semi_stmt(e: ExprView) -> StmtView {
    StmtView { kind: StmtKindView::Semi(e), span: spec_none_span() }
}

/// The statement of an expression whose value is the block's.
pub open spec fn expr_stmt(e: ExprView) -> StmtView {
    StmtView { kind: StmtKindView::Expression(e), span: spec_none_span() }
}

/// The statement that reports the value `e` of variable `var_id`.
pub open spec fn spec_assign_var(var_id: u32, e: ExprView) -> StmtView {
    semi_stmt(call_expr(ident_path("__debug_var_assign"@), seq![spec_int_expr(var_id as u128), e]))
}

/// The statement that reports the end of the life of variable `var_id`.
pub open spec fn spec_drop_var(var_id: u32) -> StmtView {
    semi_stmt(call_expr(ident_path("__debug_var_drop"@), seq![spec_int_expr(var_id as u128)]))
}

/// The statement that reports an assignment through a reference held by variable `var_id`.
pub open spec fn spec_assign_deref(var_id: u32, e: ExprView) -> StmtView {
    semi_stmt(
        call_expr(ident_path("__debug_dereference_assign"@), seq![spec_int_expr(var_id as u128), e]),
    )
}

/// The expressions of the struct fields of a member path: the position of
/// each step in the path, with the name of its field as bytes.
pub open spec fn field_exprs(fields: Seq<(u32, Seq<char>)>) -> Seq<ExprView> {
    Seq::new(
        fields.len(),
        |i: int|
            ExprView {
                kind: ExprKindView::Operation {
                    form: OperationForm::Tuple,
                    labels: Seq::empty(),
                    operands: seq![
                        spec_int_expr(fields[i].0 as u128),
                        spec_byte_array_expr(encode_utf8(fields[i].1)),
                    ],
                },
                span: spec_none_span(),
            },
    )
}

/// The statement that reports the value `e` of the part of variable `var_id`
/// that the steps `indexes` lead to; `fields` names the steps that are
/// struct fields.
pub open spec fn spec_assign_member(
    var_id: u32,
    indexes: Seq<ExprView>,
    fields: Seq<(u32, Seq<char>)>,
    e: ExprView,
) -> StmtView {
    semi_stmt(
        call_expr(
            ident_path("__debug_member_assign_placeholder"@),
            seq![
                spec_int_expr(var_id as u128),
                spec_vec_from_slice(array_expr(indexes)),
                spec_vec_from_slice(array_expr(field_exprs(fields))),
                e,
            ],
        ),
    )
}

/// The statement `let name = e;`.
pub open spec fn let_stmt(name: Seq<char>, e: ExprView) -> StmtView {
    StmtView {
        kind: StmtKindView::Let {
            pattern: PatternView::Identifier(name),
            typ: TypeNameView::Unspecified,
            expression: e,
        },
        span: spec_none_span(),
    }
}

/// The variable at the root of an assignment target.
pub open spec fn lvalue_root(l: LValueView) -> Seq<char>
    decreases l,
{
    match l {
        LValueView::Ident(name) => name,
        LValueView::MemberAccess { object, .. } => lvalue_root(*object),
        LValueView::Index { array, .. } => lvalue_root(*array),
        LValueView::Dereference(inner) => lvalue_root(*inner),
    }
}

/// Whether an assignment target goes through a reference.
pub open spec fn lvalue_has_deref(l: LValueView) -> bool
    decreases l,
{
    match l {
        LValueView::Ident(_) => false,
        LValueView::MemberAccess { object, .. } => lvalue_has_deref(*object),
        LValueView::Index { array, .. } => lvalue_has_deref(*array),
        LValueView::Dereference(_) => true,
    }
}

/// The steps of an assignment target from the outermost inwards: the index
/// expression of an index step, zero in place of a field step.
pub open spec fn member_indexes(l: LValueView) -> Seq<ExprView>
    decreases l,
{
    match l {
        LValueView::Ident(_) => Seq::empty(),
        LValueView::MemberAccess { object, .. } => seq![spec_int_expr(0)] + member_indexes(*object),
        LValueView::Index { array, index } => seq![index] + member_indexes(*array),
        LValueView::Dereference(inner) => member_indexes(*inner),
    }
}

/// The field steps of an assignment target from the outermost inwards, each
/// with its position among the steps, counted from `offset` and narrowed to
/// 32 bits.
pub open spec fn member_fields(l: LValueView, offset: nat) -> Seq<(u32, Seq<char>)>
    decreases l,
{
    match l {
        LValueView::Ident(_) => Seq::empty(),
        LValueView::MemberAccess { object, field_name } => seq![
            ((offset % 0x1_0000_0000) as u32, field_name),
        ] + member_fields(*object, offset + 1),
        LValueView::Index { array, .. } => member_fields(*array, offset + 1),
        LValueView::Dereference(inner) => member_fields(*inner, offset),
    }
}

/// Gives each of `vars` an id in turn; the statements report each variable
/// that got one.
pub open spec fn spec_assign_vars(st: StateView, vars: Seq<(Seq<char>, bool)>) -> (
    StateView,
    Seq<StmtView>,
)
    decreases vars.len(),
{
    if vars.len() == 0 {
        (st, Seq::empty())
    } else {
        let (st1, front) = spec_assign_vars(st, vars.drop_last());
        let (st2, id) = spec_insert_var(st1, vars.last().0);
        match id {
            Some(var_id) => (st2, front.push(spec_assign_var(var_id, spec_id_expr(vars.last().0)))),
            None => (st2, front),
        }
    }
}

/// The patterns that bind `vars` again.
pub open spec fn var_patterns(vars: Seq<(Seq<char>, bool)>) -> Seq<PatternView> {
    Seq::new(
        vars.len(),
        |i: int|
            if vars[i].1 {
                PatternView::Mutable(
                    Box::new(PatternView::Identifier(vars[i].0)),
                    spec_none_span(),
                )
            } else {
                PatternView::Identifier(vars[i].0)
            },
    )
}

/// The expressions that name `vars`.
pub open spec fn var_exprs(vars: Seq<(Seq<char>, bool)>) -> Seq<ExprView> {
    Seq::new(vars.len(), |i: int| spec_id_expr(vars[i].0))
}

/// The expression of a tuple.
pub open spec fn tuple_expr(elements: Seq<ExprView>) -> ExprView {
    ExprView {
        kind: ExprKindView::Operation {
            form: OperationForm::Tuple,
            labels: Seq::empty(),
            operands: elements,
        },
        span: spec_none_span(),
    }
}

/// The expression of a block.
pub open spec fn block_expr(stmts: Seq<StmtView>) -> ExprView {
    ExprView { kind: ExprKindView::Block(stmts), span: spec_none_span() }
}

/// A `let` statement, rewritten: the variables of its pattern get ids, and
/// the statement binds them from a block that runs the statement as written,
/// reports each variable and hands all of them out as a tuple. The statement
/// keeps its span.
pub open spec fn spec_wrap_let(
    st: StateView,
    pattern: PatternView,
    typ: TypeNameView,
    expression: ExprView,
    span: Span,
) -> (StateView, StmtView) {
    let vars = spec_pattern_vars(pattern, false);
    let (st1, reports) = spec_assign_vars(st, vars);
    let written = StmtView {
        kind: StmtKindView::Let { pattern, typ, expression },
        span: spec_none_span(),
    };
    let block = seq![written] + reports + seq![expr_stmt(tuple_expr(var_exprs(vars)))];
    (
        st1,
        StmtView {
            kind: StmtKindView::Let {
                pattern: PatternView::Tuple(var_patterns(vars), spec_none_span()),
                typ: TypeNameView::Unspecified,
                expression: block_expr(block),
            },
            span,
        },
    )
}

/// The statement that reports an assignment to `lvalue` of the value of
/// `__debug_expr`, for the variable `var_id` at its root.
pub open spec fn report_for(lvalue: LValueView, var_id: u32) -> StmtView {
    let value = spec_id_expr("__debug_expr"@);
    if lvalue_has_deref(lvalue) {
        spec_assign_deref(var_id, value)
    } else if lvalue is Ident {
        spec_assign_var(var_id, value)
    } else {
        spec_assign_member(var_id, member_indexes(lvalue), member_fields(lvalue, 0), value)
    }
}

/// An assignment, rewritten: the new value is named `__debug_expr` in a
/// block, reported, and handed out. An assignment to a variable that no open
/// scope binds stays as it is. The statement keeps its span.
pub open spec fn spec_wrap_assign(
    st: StateView,
    lvalue: LValueView,
    expression: ExprView,
    span: Span,
) -> StmtView {
    match lookup_in(st.scope, lvalue_root(lvalue)) {
        None => StmtView { kind: StmtKindView::Assign { lvalue, expression }, span },
        Some(var_id) => StmtView {
            kind: StmtKindView::Assign {
                lvalue,
                expression: block_expr(
                    seq![
                        let_stmt("__debug_expr"@, expression),
                        report_for(lvalue, var_id),
                        expr_stmt(spec_id_expr("__debug_expr"@)),
                    ],
                ),
            },
            span,
        },
    }
}

/// The statements that report the end of the life of each variable of a scope.
pub open spec fn drop_stmts(level: Seq<(Seq<char>, u32)>) -> Seq<StmtView> {
    Seq::new(level.len(), |i: int| spec_drop_var(level[i].1))
}

/// The statements of a scope after its last has been put aside: the last
/// statement's value is named `__debug_expr` where it has one, the variables
/// of the scope are reported as gone, and the value is handed out.
pub open spec fn close_scope(walked: Seq<StmtView>, level: Seq<(Seq<char>, u32)>) -> Seq<StmtView> {
    let last = if walked.len() > 0 {
        walked.last()
    } else {
        expr_stmt(unit_expr())
    };
    let body = if walked.len() > 0 {
        walked.drop_last()
    } else {
        walked
    };
    match last.kind {
        StmtKindView::Expression(value) => body.push(let_stmt("__debug_expr"@, value)) + drop_stmts(
            level,
        ) + seq![expr_stmt(spec_id_expr("__debug_expr"@))],
        _ => body.push(last) + drop_stmts(level) + seq![expr_stmt(unit_expr())],
    }
}

/// An expression, instrumented: every block in it that is reached through
/// operands opens a scope, and its statements are instrumented.
pub open spec fn spec_walk_expr(st: StateView, e: ExprView) -> (StateView, ExprView)
    decreases e, 0nat,
{
    match e.kind {
        ExprKindView::Block(stmts) => {
            let opened = StateView { scope: st.scope.push(Seq::empty()), ..st };
            let (st1, out) = spec_walk_scope(opened, stmts);
            (st1, ExprView { kind: ExprKindView::Block(out), span: e.span })
        },
        ExprKindView::Operation { form, labels, operands } => {
            let (st1, out) = spec_walk_exprs(st, operands);
            (st1, ExprView { kind: ExprKindView::Operation { form, labels, operands: out }, span: e.span })
        },
        _ => (st, e),
    }
}

/// Expressions, instrumented one after the other.
pub open spec fn spec_walk_exprs(st: StateView, exprs: Seq<ExprView>) -> (StateView, Seq<ExprView>)
    decreases exprs, 0nat,
{
    if exprs.len() == 0 {
        (st, Seq::empty())
    } else {
        let (st1, front) = spec_walk_exprs(st, exprs.drop_last());
        let (st2, last) = spec_walk_expr(st1, exprs.last());
        (st2, front.push(last))
    }
}

/// Statements, instrumented one after the other.
pub open spec fn spec_walk_statements(st: StateView, stmts: Seq<StmtView>) -> (
    StateView,
    Seq<StmtView>,
)
    decreases stmts, 0nat,
{
    if stmts.len() == 0 {
        (st, Seq::empty())
    } else {
        let (st1, front) = spec_walk_statements(st, stmts.drop_last());
        let (st2, last) = spec_walk_statement(st1, stmts.last());
        (st2, front.push(last))
    }
}

/// The statements of a scope, instrumented; the innermost scope is closed:
/// its variables are reported as gone behind the statements.
pub open spec fn spec_walk_scope(st: StateView, stmts: Seq<StmtView>) -> (StateView, Seq<StmtView>)
    decreases stmts, 1nat,
{
    let (st1, walked) = spec_walk_statements(st, stmts);
    if st1.scope.len() > 0 {
        (
            StateView { scope: st1.scope.drop_last(), ..st1 },
            close_scope(walked, st1.scope.last()),
        )
    } else {
        (st1, close_scope(walked, Seq::empty()))
    }
}

/// The state after the innermost scope is left.
pub open spec fn close_level(st: StateView) -> StateView {
    if st.scope.len() > 0 {
        StateView { scope: st.scope.drop_last(), ..st }
    } else {
        st
    }
}

/// One statement, instrumented. A loop binds its variable in a scope of its
/// own, which is left behind the loop: the body reports the variable at its
/// start and as gone at its end.
pub open spec fn spec_walk_statement(st: StateView, s: StmtView) -> (StateView, StmtView)
    decreases s, 0nat,
{
    match s.kind {
        StmtKindView::Let { pattern, typ, expression } => spec_wrap_let(
            st,
            pattern,
            typ,
            expression,
            s.span,
        ),
        StmtKindView::Assign { lvalue, expression } => (
            st,
            spec_wrap_assign(st, lvalue, expression, s.span),
        ),
        StmtKindView::Expression(e) => {
            let (st1, out) = spec_walk_expr(st, e);
            (st1, StmtView { kind: StmtKindView::Expression(out), span: s.span })
        },
        StmtKindView::Semi(e) => {
            let (st1, out) = spec_walk_expr(st, e);
            (st1, StmtView { kind: StmtKindView::Semi(out), span: s.span })
        },
        StmtKindView::For { identifier, range_start, range_end, block } => {
            let opened = StateView { scope: st.scope.push(Seq::empty()), ..st };
            let (st1, id) = spec_insert_var(opened, identifier);
            let (st2, walked) = spec_walk_expr(st1, block);
            let body = match id {
                Some(var_id) => seq![
                    spec_assign_var(var_id, spec_id_expr(identifier)),
                    semi_stmt(walked),
                    spec_drop_var(var_id),
                ],
                None => seq![semi_stmt(walked)],
            };
            (
                close_level(st2),
                StmtView {
                    kind: StmtKindView::For {
                        identifier,
                        range_start,
                        range_end,
                        block: block_expr(body),
                    },
                    span: s.span,
                },
            )
        },
        _ => (st, s),
    }
}

/// The variables of the parameters of a function, in order.
pub open spec fn parameter_vars(parameters: Seq<(PatternView, TypeNameView)>) -> Seq<
    (Seq<char>, bool),
>
    decreases parameters.len(),
{
    if parameters.len() == 0 {
        Seq::empty()
    } else {
        parameter_vars(parameters.drop_last()) + spec_pattern_vars(parameters.last().0, false)
    }
}

/// A function, instrumented: a scope is opened, the parameters get ids, the
/// body is instrumented as a scope, and the reports of the parameters stand
/// before it.
pub open spec fn spec_walk_fn(st: StateView, f: FunctionView) -> (StateView, FunctionView) {
    let opened = StateView { scope: st.scope.push(Seq::empty()), ..st };
    let (st1, reports) = spec_assign_vars(opened, parameter_vars(f.parameters));
    let (st2, body) = spec_walk_scope(st1, f.body);
    (st2, FunctionView { body: reports + body, ..f })
}

/// The items of a module, the functions among them instrumented one after the other.
pub open spec fn spec_walk_items(st: StateView, items: Seq<ItemView>) -> (StateView, Seq<ItemView>)
    decreases items.len(),
{
    if items.len() == 0 {
        (st, Seq::empty())
    } else {
        let (st1, front) = spec_walk_items(st, items.drop_last());
        match items.last().kind {
            ItemKindView::Function(f) => {
                let (st2, out) = spec_walk_fn(st1, f);
                (
                    st2,
                    front.push(ItemView { kind: ItemKindView::Function(out), span: items.last().span }),
                )
            },
            _ => (st1, front.push(items.last())),
        }
    }
}

/// The model of the bindings of one scope.
pub open spec fn level_view(level: Seq<(String, u32)>) -> Seq<(Seq<char>, u32)> {
    Seq::new(level.len(), |i: int| (level[i].0@, level[i].1))
}

/// The model of the open scopes.
pub open spec fn scope_view(scope: Seq<Vec<(String, u32)>>) -> Seq<Seq<(Seq<char>, u32)>> {
    Seq::new(scope.len(), |i: int| level_view(scope[i]@))
}

/// The model of a list of variables with their mutability.
pub open spec fn vars_view(vars: Seq<(String, bool)>) -> Seq<(Seq<char>, bool)> {
    Seq::new(vars.len(), |i: int| (vars[i].0@, vars[i].1))
}

/// The instrumenter's state: the variables that have ids, the next free id,
/// and the scopes that are open.
#[derive(Debug)]
pub struct DebugState {
    /// The name of every variable that has an id.
    pub variables: HashMap<u32, String>,
    /// The next free id.
    pub next_var_id: u32,
    /// The open scopes, outermost first.
    pub scope: Vec<Vec<(String, u32)>>,
    /// Whether the instrumenter does anything.
    pub enabled: bool,
}

impl View for DebugState {
    type V = StateView;

    open spec fn view(&self) -> StateView {
        StateView {
            variables: self.variables@.map_values(|s: String| s@),
            next_var_id: self.next_var_id,
            scope: scope_view(self.scope@),
            enabled: self.enabled,
        }
    }
}

impl Default for DebugState {
    fn default() -> (state: DebugState)
        ensures
            state@ == (StateView {
                variables: Map::empty(),
                next_var_id: 0,
                scope: Seq::empty(),
                enabled: true,
            }),
    {
        let state = DebugState {
            variables: HashMap::new(),
            next_var_id: 0,
            scope: Vec::new(),
            enabled: true,
        };
        assert(state@.variables =~= Map::<u32, Seq<char>>::empty());
        assert(state@.scope =~= Seq::<Seq<(Seq<char>, u32)>>::empty());
        state
    }
}

/// The span of a node that the instrumenter makes.
fn none_span() -> (span: Span)
    ensures
        span == spec_none_span(),
{
    Span { start: 0, end: 0 }
}

fn plain_path(name: &str) -> (path: Path)
    ensures
        path@ == ident_path(name@),
{
    let mut segments: Vec<String> = Vec::new();
    segments.push(name.to_owned());
    let path = Path { segments, kind: PathKind::Plain };
    assert(path@.segments =~= seq![name@]);
    path
}

/// The expression that names a variable.
pub fn id_expr(id: &str) -> (e: Expression)
    ensures
        e@ == spec_id_expr(id@),
{
    Expression { kind: ExpressionKind::Variable(plain_path(id)), span: none_span() }
}

/// The expression of an integer literal.
pub fn int_expr(x: u128) -> (e: Expression)
    ensures
        e@ == spec_int_expr(x),
{
    Expression { kind: ExpressionKind::Literal(Literal::Integer(x)), span: none_span() }
}

/// The expression of a string literal.
pub fn str_expr(s: &str) -> (e: Expression)
    ensures
        e@ == spec_str_expr(s@),
{
    Expression { kind: ExpressionKind::Literal(Literal::Str(s.to_owned())), span: none_span() }
}

fn unit_expression() -> (e: Expression)
    ensures
        e@ == unit_expr(),
{
    Expression { kind: ExpressionKind::Literal(Literal::Unit), span: none_span() }
}

fn array_expression(elements: Vec<Expression>) -> (e: Expression)
    ensures
        e@ == array_expr(exprs_view(elements@)),
{
    Expression { kind: ExpressionKind::Literal(Literal::Array(elements)), span: none_span() }
}

fn call_expression(path: Path, arguments: Vec<Expression>) -> (e: Expression)
    ensures
        e@ == call_expr(path@, exprs_view(arguments@)),
{
    let ghost path_view = path@;
    let ghost args = arguments@;
    let mut arguments = arguments;
    let mut operands: Vec<Expression> = Vec::new();
    operands.push(Expression { kind: ExpressionKind::Variable(path), span: none_span() });
    let ghost head = operands@;
    operands.append(&mut arguments);
    proof {
        lemma_exprs_view(head);
        lemma_exprs_concat(head, args);
        assert(exprs_view(head) =~= seq![
            ExprView { kind: ExprKindView::Variable(path_view), span: spec_none_span() },
        ]);
    }
    let labels: Vec<String> = Vec::new();
    assert(strings_view(labels@) =~= Seq::<Seq<char>>::empty());
    Expression {
        kind: ExpressionKind::Operation { form: OperationForm::Call, labels, operands },
        span: none_span(),
    }
}

/// The models of two lists of expressions, one behind the other.
pub proof fn lemma_exprs_concat(a: Seq<Expression>, b: Seq<Expression>)
    ensures
        exprs_view(a + b) == exprs_view(a) + exprs_view(b),
{
    lemma_exprs_view(a);
    lemma_exprs_view(b);
    lemma_exprs_view(a + b);
    assert(exprs_view(a + b) =~= exprs_view(a) + exprs_view(b));
}

/// The models of two lists of statements, one behind the other.
pub proof fn lemma_stmts_concat(a: Seq<Statement>, b: Seq<Statement>)
    ensures
        stmts_view(a + b) == stmts_view(a) + stmts_view(b),
{
    lemma_stmts_view(a);
    lemma_stmts_view(b);
    lemma_stmts_view(a + b);
    assert(stmts_view(a + b) =~= stmts_view(a) + stmts_view(b));
}

/// The elements of `v` in the opposite order.
fn reversed<T>(v: Vec<T>) -> (r: Vec<T>)
    ensures
        r.len() == v.len(),
        forall|k: int| 0 <= k < v.len() ==> r[k] == v[v.len() - 1 - k],
{
    let mut v = v;
    let ghost all = v@;
    let mut r: Vec<T> = Vec::new();
    while v.len() > 0
        invariant
            v@ == all.take(v.len() as int),
            r.len() == all.len() - v.len(),
            forall|k: int| 0 <= k < r.len() ==> r[k] == all[all.len() - 1 - k],
        decreases v.len(),
    {
        let ghost n = v.len();
        let x = v.pop().unwrap();
        assert(x == all[n - 1]);
        r.push(x);
        assert(v@ =~= all.take(v.len() as int));
    }
    r
}

/// The expression that makes a vector of the debugger's from a slice.
pub fn vec_from_slice(slice_expr: Expression) -> (e: Expression)
    ensures
        e@ == spec_vec_from_slice(slice_expr@),
{
    let ghost slice_view = slice_expr@;
    let mut segments: Vec<String> = Vec::new();
    segments.push("__debug_Vec".to_owned());
    segments.push("from_slice".to_owned());
    let path = Path { segments, kind: PathKind::Plain };
    assert(path@.segments =~= seq!["__debug_Vec"@, "from_slice"@]);
    let mut arguments: Vec<Expression> = Vec::new();
    arguments.push(slice_expr);
    proof {
        lemma_exprs_view(arguments@);
        assert(exprs_view(arguments@) =~= seq![slice_view]);
    }
    call_expression(path, arguments)
}

/// The expression of a vector of bytes.
pub fn byte_array_expr(bytes: &[u8]) -> (e: Expression)
    ensures
        e@ == spec_byte_array_expr(bytes@),
{
    let mut elements: Vec<Expression> = Vec::new();
    let mut i: usize = 0;
    while i < bytes.len()
        invariant
            0 <= i <= bytes.len(),
            elements.len() == i,
            forall|k: int| 0 <= k < i ==> elements[k]@ == spec_int_expr(bytes[k] as u128),
        decreases bytes.len() - i,
    {
        elements.push(int_expr(bytes[i] as u128));
        i += 1;
    }
    proof {
        lemma_exprs_view(elements@);
        assert(exprs_view(elements@) =~= Seq::new(
            bytes@.len(),
            |i: int| spec_int_expr(bytes@[i] as u128),
        ));
    }
    vec_from_slice(array_expression(elements))
}

fn semi_statement(e: Expression) -> (s: Statement)
    ensures
        s@ == semi_stmt(e@),
{
    Statement { kind: StatementKind::Semi(e), span: none_span() }
}

fn expression_statement(e: Expression) -> (s: Statement)
    ensures
        s@ == expr_stmt(e@),
{
    Statement { kind: StatementKind::Expression(e), span: none_span() }
}

fn let_statement(name: &str, e: Expression) -> (s: Statement)
    ensures
        s@ == let_stmt(name@, e@),
{
    Statement {
        kind: StatementKind::Let {
            pattern: Pattern::Identifier(name.to_owned()),
            typ: UnresolvedType::Unspecified,
            expression: e,
        },
        span: none_span(),
    }
}

fn two_arguments(first: Expression, second: Expression) -> (arguments: Vec<Expression>)
    ensures
        exprs_view(arguments@) == seq![first@, second@],
{
    let mut arguments: Vec<Expression> = Vec::new();
    let ghost a = first@;
    let ghost b = second@;
    arguments.push(first);
    arguments.push(second);
    proof {
        lemma_exprs_view(arguments@);
        assert(exprs_view(arguments@) =~= seq![a, b]);
    }
    arguments
}

/// The statement that reports the value `expr` of variable `var_id`.
pub fn wrap_assign_var(var_id: u32, expr: Expression) -> (s: Statement)
    ensures
        s@ == spec_assign_var(var_id, expr@),
{
    semi_statement(
        call_expression(
            plain_path("__debug_var_assign"),
            two_arguments(int_expr(var_id as u128), expr),
        ),
    )
}

/// The statement that reports the end of the life of variable `var_id`.
pub fn wrap_drop_var(var_id: u32) -> (s: Statement)
    ensures
        s@ == spec_drop_var(var_id),
{
    let mut arguments: Vec<Expression> = Vec::new();
    arguments.push(int_expr(var_id as u128));
    proof {
        lemma_exprs_view(arguments@);
        assert(exprs_view(arguments@) =~= seq![spec_int_expr(var_id as u128)]);
    }
    semi_statement(call_expression(plain_path("__debug_var_drop"), arguments))
}

/// The statement that reports an assignment through a reference held by variable `var_id`.
pub fn wrap_assign_deref(var_id: u32, expr: Expression) -> (s: Statement)
    ensures
        s@ == spec_assign_deref(var_id, expr@),
{
    semi_statement(
        call_expression(
            plain_path("__debug_dereference_assign"),
            two_arguments(int_expr(var_id as u128), expr),
        ),
    )
}

fn bind_in(level: &mut Vec<(String, u32)>, name: String, id: u32)
    ensures
        level_view(final(level)@) == bind(level_view(old(level)@), name@, id),
{
    let ghost name_view = name@;
    level.push((name, id));
    assert(level_view(level@) =~= level_view(old(level)@).push((name_view, id)));
}

fn find_binding(level: &Vec<(String, u32)>, name: &String) -> (found: Option<u32>)
    ensures
        found == last_binding(level_view(level@), name@),
{
    let ghost model = level_view(level@);
    let mut i: usize = level.len();
    assert(model.take(i as int) =~= model);
    while i > 0
        invariant
            0 <= i <= level.len(),
            model == level_view(level@),
            last_binding(model, name@) == last_binding(model.take(i as int), name@),
        decreases i,
    {
        i -= 1;
        proof {
            assert(model.take(i + 1).last() == model[i as int]);
            assert(model.take(i + 1).drop_last() =~= model.take(i as int));
        }
        if level[i].0 == *name {
            return Some(level[i].1);
        }
    }
    None
}

impl DebugState {
    /// Gives the variable `var_name` the next id and binds it in the innermost
    /// scope. No id is given where no scope is open or the ids have run out.
    pub fn insert_var(&mut self, var_name: &str) -> (id: Option<u32>)
        ensures
            (final(self)@, id) == spec_insert_var(old(self)@, var_name@),
    {
        if self.scope.len() == 0 || self.next_var_id == u32::MAX {
            return None;
        }
        let var_id = self.next_var_id;
        self.next_var_id = var_id + 1;
        let _ = self.variables.insert(var_id, var_name.to_owned());
        let ghost levels = self.scope@;
        let mut level = self.scope.pop().unwrap();
        bind_in(&mut level, var_name.to_owned(), var_id);
        self.scope.push(level);
        proof {
            assert(self@.variables =~= old(self)@.variables.insert(var_id, var_name@));
            assert(self@.scope =~= old(self)@.scope.update(
                old(self)@.scope.len() - 1,
                bind(old(self)@.scope.last(), var_name@, var_id),
            ));
        }
        Some(var_id)
    }

    /// The id of the variable `var_name` in the innermost scope that binds it.
    pub fn lookup_var(&self, var_name: &str) -> (id: Option<u32>)
        ensures
            id == lookup_in(self@.scope, var_name@),
    {
        let name = var_name.to_owned();
        let ghost all = self@.scope;
        let mut i: usize = self.scope.len();
        assert(all.take(i as int) =~= all);
        while i > 0
            invariant
                0 <= i <= self.scope.len(),
                all == self@.scope,
                name@ == var_name@,
                lookup_in(all, name@) == lookup_in(all.take(i as int), name@),
            decreases i,
        {
            i -= 1;
            proof {
                assert(all.take(i + 1).last() == level_view(self.scope[i as int]@));
                assert(all.take(i + 1).drop_last() =~= all.take(i as int));
            }
            match find_binding(&self.scope[i], &name) {
                Some(id) => {
                    return Some(id);
                },
                None => {},
            }
        }
        None
    }

    fn open_scope(&mut self)
        ensures
            final(self)@ == (StateView {
                scope: old(self)@.scope.push(Seq::empty()),
                ..old(self)@
            }),
    {
        self.scope.push(Vec::new());
        assert(level_view(Seq::<(String, u32)>::empty()) =~= Seq::<(Seq<char>, u32)>::empty());
        assert(self@.scope =~= old(self)@.scope.push(Seq::empty()));
    }

    fn leave_scope(&mut self)
        ensures
            final(self)@ == close_level(old(self)@),
    {
        if self.scope.len() > 0 {
            let _ = self.scope.pop();
            assert(self@.scope =~= old(self)@.scope.drop_last());
        }
    }
}

fn collect_pattern_vars(pattern: &Pattern, is_mut: bool, out: &mut Vec<(String, bool)>)
    ensures
        vars_view(final(out)@) == vars_view(old(out)@) + spec_pattern_vars(pattern@, is_mut),
    decreases pattern,
{
    match pattern {
        Pattern::Identifier(name) => {
            out.push((name.clone(), is_mut));
            assert(vars_view(out@) =~= vars_view(old(out)@) + seq![(name@, is_mut)]);
        },
        Pattern::Mutable(inner, _) => {
            collect_pattern_vars(&**inner, true, out);
        },
        Pattern::Tuple(patterns, _) => {
            let mut i: usize = 0;
            proof {
                lemma_patterns_view(patterns@);
                assert(vars_view(out@) + Seq::<(Seq<char>, bool)>::empty() =~= vars_view(out@));
            }
            while i < patterns.len()
                invariant
                    0 <= i <= patterns.len(),
                    patterns_view(patterns@).len() == patterns.len(),
                    forall|k: int|
                        0 <= k < patterns.len() ==> #[trigger] patterns_view(patterns@)[k]
                            == patterns[k]@,
                    forall|k: int| 0 <= k < patterns.len() ==> decreases_to!(pattern => patterns[k]),
                    vars_view(out@) == vars_view(old(out)@) + spec_tuple_vars(
                        patterns_view(patterns@).take(i as int),
                    ),
                decreases patterns.len() - i,
            {
                let ghost prefix = patterns_view(patterns@).take(i + 1);
                proof {
                    assert(prefix.drop_last() =~= patterns_view(patterns@).take(i as int));
                    assert(prefix.last() == patterns[i as int]@);
                }
                let ghost before = vars_view(out@);
                collect_pattern_vars(&patterns[i], false, out);
                assert(vars_view(out@) =~= vars_view(old(out)@) + spec_tuple_vars(prefix));
                i += 1;
            }
            assert(patterns_view(patterns@).take(i as int) =~= patterns_view(patterns@));
        },
        Pattern::Struct(_, fields, _) => {
            let mut i: usize = 0;
            proof {
                lemma_named_patterns_view(fields@);
                assert(vars_view(out@) + Seq::<(Seq<char>, bool)>::empty() =~= vars_view(out@));
            }
            while i < fields.len()
                invariant
                    0 <= i <= fields.len(),
                    named_patterns_view(fields@).len() == fields.len(),
                    forall|k: int|
                        0 <= k < fields.len() ==> #[trigger] named_patterns_view(fields@)[k] == (
                            fields[k].0@,
                            fields[k].1@,
                        ),
                    forall|k: int| 0 <= k < fields.len() ==> decreases_to!(pattern => fields[k]),
                    vars_view(out@) == vars_view(old(out)@) + spec_struct_vars(
                        named_patterns_view(fields@).take(i as int),
                        is_mut,
                    ),
                decreases fields.len() - i,
            {
                let ghost prefix = named_patterns_view(fields@).take(i + 1);
                proof {
                    assert(prefix.drop_last() =~= named_patterns_view(fields@).take(i as int));
                    assert(prefix.last() == (fields[i as int].0@, fields[i as int].1@));
                }
                collect_pattern_vars(&fields[i].1, is_mut, out);
                assert(vars_view(out@) =~= vars_view(old(out)@) + spec_struct_vars(prefix, is_mut));
                i += 1;
            }
            assert(named_patterns_view(fields@).take(i as int) =~= named_patterns_view(fields@));
        },
    }
}

/// The variables that a pattern binds, depth first and left to right, each
/// with whether it is mutable.
pub fn pattern_vars(pattern: &Pattern) -> (vars: Vec<(String, bool)>)
    ensures
        vars_view(vars@) == spec_pattern_vars(pattern@, false),
{
    let mut vars: Vec<(String, bool)> = Vec::new();
    collect_pattern_vars(pattern, false, &mut vars);
    assert(vars_view(Seq::<(String, bool)>::empty()) + spec_pattern_vars(pattern@, false)
        =~= spec_pattern_vars(pattern@, false));
    vars
}

/// The model of the field steps of a member path.
pub open spec fn fields_view(fields: Seq<(u32, String)>) -> Seq<(u32, Seq<char>)> {
    Seq::new(fields.len(), |i: int| (fields[i].0, fields[i].1@))
}

fn tuple_expression(elements: Vec<Expression>) -> (e: Expression)
    ensures
        e@ == tuple_expr(exprs_view(elements@)),
{
    let labels: Vec<String> = Vec::new();
    assert(strings_view(labels@) =~= Seq::<Seq<char>>::empty());
    Expression {
        kind: ExpressionKind::Operation { form: OperationForm::Tuple, labels, operands: elements },
        span: none_span(),
    }
}

fn block_expression(stmts: Vec<Statement>) -> (e: Expression)
    ensures
        e@ == block_expr(stmts_view(stmts@)),
{
    Expression { kind: ExpressionKind::Block(stmts), span: none_span() }
}

/// The statement that reports the value `expr` of the part of variable
/// `var_id` that the steps `indexes` lead to; `fields` names the steps that
/// are struct fields.
pub fn wrap_assign_member(
    var_id: u32,
    indexes: Vec<Expression>,
    fields: &Vec<(u32, String)>,
    expr: Expression,
) -> (s: Statement)
    ensures
        s@ == spec_assign_member(var_id, exprs_view(indexes@), fields_view(fields@), expr@),
{
    let ghost indexes_view = exprs_view(indexes@);
    let ghost expr_model = expr@;
    let mut names: Vec<Expression> = Vec::new();
    let mut i: usize = 0;
    while i < fields.len()
        invariant
            0 <= i <= fields.len(),
            names.len() == i,
            forall|k: int| 0 <= k < i ==> #[trigger] names[k]@ == field_exprs(fields_view(fields@))[k],
        decreases fields.len() - i,
    {
        let pair = two_arguments(
            int_expr(fields[i].0 as u128),
            byte_array_expr(fields[i].1.as_str().as_bytes()),
        );
        names.push(tuple_expression(pair));
        i += 1;
    }
    proof {
        lemma_exprs_view(names@);
        assert(exprs_view(names@) =~= field_exprs(fields_view(fields@)));
    }
    let index_expr = vec_from_slice(array_expression(indexes));
    let field_name_expr = vec_from_slice(array_expression(names));
    let mut arguments: Vec<Expression> = Vec::new();
    arguments.push(int_expr(var_id as u128));
    arguments.push(index_expr);
    arguments.push(field_name_expr);
    arguments.push(expr);
    proof {
        lemma_exprs_view(arguments@);
        assert(exprs_view(arguments@) =~= seq![
            spec_int_expr(var_id as u128),
            spec_vec_from_slice(array_expr(indexes_view)),
            spec_vec_from_slice(array_expr(field_exprs(fields_view(fields@)))),
            expr_model,
        ]);
    }
    semi_statement(call_expression(plain_path("__debug_member_assign_placeholder"), arguments))
}

fn lvalue_root_name(lvalue: &LValue) -> (name: &String)
    ensures
        name@ == lvalue_root(lvalue@),
    decreases lvalue,
{
    match lvalue {
        LValue::Ident(name) => name,
        LValue::MemberAccess { object, .. } => lvalue_root_name(&**object),
        LValue::Index { array, .. } => lvalue_root_name(&**array),
        LValue::Dereference(inner) => lvalue_root_name(&**inner),
    }
}

fn lvalue_goes_through_reference(lvalue: &LValue) -> (through: bool)
    ensures
        through == lvalue_has_deref(lvalue@),
    decreases lvalue,
{
    match lvalue {
        LValue::Ident(_) => false,
        LValue::MemberAccess { object, .. } => lvalue_goes_through_reference(&**object),
        LValue::Index { array, .. } => lvalue_goes_through_reference(&**array),
        LValue::Dereference(_) => true,
    }
}

fn member_steps(lvalue: &LValue, indexes: &mut Vec<Expression>, fields: &mut Vec<(u32, String)>)
    ensures
        exprs_view(final(indexes)@) == exprs_view(old(indexes)@) + member_indexes(lvalue@),
        fields_view(final(fields)@) == fields_view(old(fields)@) + member_fields(
            lvalue@,
            old(indexes)@.len(),
        ),
    decreases lvalue,
{
    proof {
        lemma_exprs_view(indexes@);
    }
    match lvalue {
        LValue::Ident(_) => {
            assert(exprs_view(indexes@) + Seq::<ExprView>::empty() =~= exprs_view(indexes@));
            assert(fields_view(fields@) + Seq::<(u32, Seq<char>)>::empty() =~= fields_view(fields@));
        },
        LValue::MemberAccess { object, field_name } => {
            let position = ((indexes.len() as u64) % 0x1_0000_0000) as u32;
            fields.push((position, field_name.clone()));
            indexes.push(int_expr(0));
            let ghost mid_indexes = indexes@;
            let ghost mid_fields = fields@;
            proof {
                lemma_exprs_view(mid_indexes);
                assert(exprs_view(mid_indexes) =~= exprs_view(old(indexes)@) + seq![
                    spec_int_expr(0),
                ]);
                assert(fields_view(mid_fields) =~= fields_view(old(fields)@) + seq![
                    (position, field_name@),
                ]);
            }
            member_steps(&**object, indexes, fields);
            proof {
                assert(exprs_view(indexes@) =~= exprs_view(old(indexes)@) + member_indexes(
                    lvalue@,
                ));
                assert(fields_view(fields@) =~= fields_view(old(fields)@) + member_fields(
                    lvalue@,
                    old(indexes)@.len(),
                ));
            }
        },
        LValue::Index { array, index } => {
            indexes.push(index.clone());
            let ghost mid_indexes = indexes@;
            proof {
                lemma_exprs_view(mid_indexes);
                assert(exprs_view(mid_indexes) =~= exprs_view(old(indexes)@) + seq![index@]);
            }
            member_steps(&**array, indexes, fields);
            proof {
                assert(exprs_view(indexes@) =~= exprs_view(old(indexes)@) + member_indexes(
                    lvalue@,
                ));
            }
        },
        LValue::Dereference(inner) => {
            member_steps(&**inner, indexes, fields);
        },
    }
}

impl DebugState {
    /// Gives each of `vars` an id in turn, and returns the statements that
    /// report each variable that got one.
    fn assign_vars(&mut self, vars: &Vec<(String, bool)>) -> (reports: Vec<Statement>)
        ensures
            (final(self)@, stmts_view(reports@)) == spec_assign_vars(old(self)@, vars_view(vars@)),
    {
        let mut reports: Vec<Statement> = Vec::new();
        let mut i: usize = 0;
        let ghost all = vars_view(vars@);
        proof {
            assert(all.take(0) =~= Seq::<(Seq<char>, bool)>::empty());
        }
        while i < vars.len()
            invariant
                0 <= i <= vars.len(),
                all == vars_view(vars@),
                (self@, stmts_view(reports@)) == spec_assign_vars(old(self)@, all.take(i as int)),
            decreases vars.len() - i,
        {
            let ghost prefix = all.take(i + 1);
            proof {
                assert(prefix.drop_last() =~= all.take(i as int));
                assert(prefix.last() == (vars[i as int].0@, vars[i as int].1));
            }
            let ghost before = reports@;
            match self.insert_var(vars[i].0.as_str()) {
                Some(var_id) => {
                    reports.push(wrap_assign_var(var_id, id_expr(vars[i].0.as_str())));
                    assert(reports@.drop_last() =~= before);
                },
                None => {},
            }
            i += 1;
        }
        assert(all.take(i as int) =~= all);
        reports
    }

    /// A `let` statement, rewritten.
    fn wrap_let_statement(
        &mut self,
        pattern: &Pattern,
        typ: &UnresolvedType,
        expression: &Expression,
        span: Span,
    ) -> (out: Statement)
        ensures
            (final(self)@, out@) == spec_wrap_let(old(self)@, pattern@, typ@, expression@, span),
    {
        let vars = pattern_vars(pattern);
        let reports = self.assign_vars(&vars);
        let mut var_patterns_list: Vec<Pattern> = Vec::new();
        let mut var_exprs_list: Vec<Expression> = Vec::new();
        let mut i: usize = 0;
        while i < vars.len()
            invariant
                0 <= i <= vars.len(),
                var_patterns_list.len() == i,
                var_exprs_list.len() == i,
                forall|k: int|
                    0 <= k < i ==> #[trigger] var_patterns_list[k]@ == var_patterns(
                        vars_view(vars@),
                    )[k],
                forall|k: int|
                    0 <= k < i ==> #[trigger] var_exprs_list[k]@ == var_exprs(vars_view(vars@))[k],
            decreases vars.len() - i,
        {
            let inner = Pattern::Identifier(vars[i].0.clone());
            assert(inner@ == PatternView::Identifier(vars[i as int].0@));
            if vars[i].1 {
                let outer = Pattern::Mutable(Box::new(inner), none_span());
                assert(outer@ == PatternView::Mutable(
                    Box::new(PatternView::Identifier(vars[i as int].0@)),
                    spec_none_span(),
                ));
                var_patterns_list.push(outer);
            } else {
                var_patterns_list.push(inner);
            }
            var_exprs_list.push(id_expr(vars[i].0.as_str()));
            i += 1;
        }
        proof {
            lemma_patterns_view(var_patterns_list@);
            lemma_exprs_view(var_exprs_list@);
            assert(patterns_view(var_patterns_list@) =~= var_patterns(vars_view(vars@)));
            assert(exprs_view(var_exprs_list@) =~= var_exprs(vars_view(vars@)));
        }
        let written = Statement {
            kind: StatementKind::Let {
                pattern: pattern.clone(),
                typ: typ.clone(),
                expression: expression.clone(),
            },
            span: none_span(),
        };
        let mut block: Vec<Statement> = Vec::new();
        block.push(written);
        let ghost head = block@;
        let ghost reports_model = reports@;
        let mut reports = reports;
        block.append(&mut reports);
        let ghost middle = block@;
        let last = expression_statement(tuple_expression(var_exprs_list));
        block.push(last);
        proof {
            lemma_stmts_view(head);
            lemma_stmts_concat(head, reports_model);
            assert(block@.drop_last() =~= middle);
            assert(stmts_view(block@) =~= seq![head[0]@] + stmts_view(reports_model) + seq![
                last@,
            ]);
        }
        Statement {
            kind: StatementKind::Let {
                pattern: Pattern::Tuple(var_patterns_list, none_span()),
                typ: UnresolvedType::Unspecified,
                expression: block_expression(block),
            },
            span,
        }
    }

    /// An assignment, rewritten.
    fn wrap_assign_statement(&self, lvalue: &LValue, expression: &Expression, span: Span) -> (out:
        Statement)
        ensures
            out@ == spec_wrap_assign(self@, lvalue@, expression@, span),
    {
        match self.lookup_var(lvalue_root_name(lvalue).as_str()) {
            None => Statement {
                kind: StatementKind::Assign {
                    lvalue: lvalue.clone(),
                    expression: expression.clone(),
                },
                span,
            },
            Some(var_id) => {
                let value = id_expr("__debug_expr");
                let report = if lvalue_goes_through_reference(lvalue) {
                    wrap_assign_deref(var_id, value)
                } else {
                    match lvalue {
                        LValue::Ident(_) => wrap_assign_var(var_id, value),
                        _ => {
                            let mut indexes: Vec<Expression> = Vec::new();
                            let mut fields: Vec<(u32, String)> = Vec::new();
                            member_steps(lvalue, &mut indexes, &mut fields);
                            proof {
                                lemma_exprs_view(Seq::<Expression>::empty());
                                assert(exprs_view(Seq::<Expression>::empty()) + member_indexes(
                                    lvalue@,
                                ) =~= member_indexes(lvalue@));
                                assert(fields_view(Seq::<(u32, String)>::empty()) + member_fields(
                                    lvalue@,
                                    0,
                                ) =~= member_fields(lvalue@, 0));
                            }
                            wrap_assign_member(var_id, indexes, &fields, value)
                        },
                    }
                };
                let first = let_statement("__debug_expr", expression.clone());
                let last = expression_statement(id_expr("__debug_expr"));
                let mut block: Vec<Statement> = Vec::new();
                let ghost a = first@;
                let ghost b = report@;
                let ghost c = last@;
                block.push(first);
                block.push(report);
                block.push(last);
                proof {
                    lemma_stmts_view(block@);
                    assert(stmts_view(block@) =~= seq![a, b, c]);
                }
                Statement {
                    kind: StatementKind::Assign {
                        lvalue: lvalue.clone(),
                        expression: block_expression(block),
                    },
                    span,
                }
            },
        }
    }
}

fn drop_statements(level: &Vec<(String, u32)>) -> (drops: Vec<Statement>)
    ensures
        stmts_view(drops@) == drop_stmts(level_view(level@)),
{
    let mut drops: Vec<Statement> = Vec::new();
    let mut i: usize = 0;
    while i < level.len()
        invariant
            0 <= i <= level.len(),
            drops.len() == i,
            forall|k: int| 0 <= k < i ==> #[trigger] drops[k]@ == spec_drop_var(level[k].1),
        decreases level.len() - i,
    {
        drops.push(wrap_drop_var(level[i].1));
        i += 1;
    }
    proof {
        lemma_stmts_view(drops@);
        assert(stmts_view(drops@) =~= drop_stmts(level_view(level@)));
    }
    drops
}

/// Closes a scope: see `close_scope`.
fn close_statements(walked: Vec<Statement>, level: &Vec<(String, u32)>) -> (out: Vec<Statement>)
    ensures
        stmts_view(out@) == close_scope(stmts_view(walked@), level_view(level@)),
{
    let ghost model = stmts_view(walked@);
    proof {
        lemma_stmts_view(walked@);
    }
    let mut body = walked;
    let last = if body.len() > 0 {
        body.pop().unwrap()
    } else {
        expression_statement(unit_expression())
    };
    proof {
        lemma_stmts_view(body@);
        if model.len() > 0 {
            assert(stmts_view(body@) =~= model.drop_last());
            assert(last@ == model.last());
        } else {
            assert(stmts_view(body@) =~= model);
        }
    }
    let ghost body_model = stmts_view(body@);
    let mut drops = drop_statements(level);
    let ghost drops_model = drops@;
    let Statement { kind, span } = last;
    match kind {
        StatementKind::Expression(value) => {
            let ghost before = body@;
            body.push(let_statement("__debug_expr", value));
            let ghost with_let = body@;
            body.append(&mut drops);
            let ghost with_drops = body@;
            body.push(expression_statement(id_expr("__debug_expr")));
            proof {
                assert(with_let.drop_last() =~= before);
                lemma_stmts_concat(with_let, drops_model);
                assert(body@.drop_last() =~= with_drops);
            }
        },
        other => {
            let ghost before = body@;
            body.push(Statement { kind: other, span });
            let ghost with_last = body@;
            body.append(&mut drops);
            let ghost with_drops = body@;
            body.push(expression_statement(unit_expression()));
            proof {
                assert(with_last.drop_last() =~= before);
                lemma_stmts_concat(with_last, drops_model);
                assert(body@.drop_last() =~= with_drops);
            }
        },
    }
    body
}

impl DebugState {
    /// An expression, instrumented.
    pub fn walk_expr(&mut self, expr: &Expression) -> (out: Expression)
        ensures
            (final(self)@, out@) == spec_walk_expr(old(self)@, expr@),
        decreases expr, 0nat,
    {
        match &expr.kind {
            ExpressionKind::Block(stmts) => {
                self.open_scope();
                let out = self.walk_scope(stmts);
                Expression { kind: ExpressionKind::Block(out), span: expr.span }
            },
            ExpressionKind::Operation { form, labels, operands } => {
                let mut out: Vec<Expression> = Vec::new();
                let mut i: usize = 0;
                let ghost all = exprs_view(operands@);
                proof {
                    lemma_exprs_view(operands@);
                    assert(all.take(0) =~= Seq::<ExprView>::empty());
                }
                while i < operands.len()
                    invariant
                        0 <= i <= operands.len(),
                        all == exprs_view(operands@),
                        all.len() == operands.len(),
                        forall|k: int| 0 <= k < operands.len() ==> #[trigger] all[k] == operands[k]@,
                        forall|k: int|
                            0 <= k < operands.len() ==> decreases_to!(expr => operands[k]),
                        (self@, exprs_view(out@)) == spec_walk_exprs(old(self)@, all.take(i as int)),
                    decreases operands.len() - i,
                {
                    let ghost prefix = all.take(i + 1);
                    proof {
                        assert(prefix.drop_last() =~= all.take(i as int));
                        assert(prefix.last() == operands[i as int]@);
                    }
                    let ghost before = out@;
                    let walked = self.walk_expr(&operands[i]);
                    out.push(walked);
                    assert(out@.drop_last() =~= before);
                    i += 1;
                }
                assert(all.take(i as int) =~= all);
                Expression {
                    kind: ExpressionKind::Operation {
                        form: *form,
                        labels: clone_strings(labels),
                        operands: out,
                    },
                    span: expr.span,
                }
            },
            _ => expr.clone(),
        }
    }

    /// Statements, instrumented one after the other.
    fn walk_statements(&mut self, stmts: &Vec<Statement>) -> (out: Vec<Statement>)
        ensures
            (final(self)@, stmts_view(out@)) == spec_walk_statements(old(self)@, stmts_view(stmts@)),
        decreases stmts, 0nat,
    {
        let mut out: Vec<Statement> = Vec::new();
        let mut i: usize = 0;
        let ghost all = stmts_view(stmts@);
        proof {
            lemma_stmts_view(stmts@);
            assert(all.take(0) =~= Seq::<StmtView>::empty());
        }
        while i < stmts.len()
            invariant
                0 <= i <= stmts.len(),
                all == stmts_view(stmts@),
                all.len() == stmts.len(),
                forall|k: int| 0 <= k < stmts.len() ==> #[trigger] all[k] == stmts[k]@,
                forall|k: int| 0 <= k < stmts.len() ==> decreases_to!(stmts => stmts[k]),
                (self@, stmts_view(out@)) == spec_walk_statements(old(self)@, all.take(i as int)),
            decreases stmts.len() - i,
        {
            let ghost prefix = all.take(i + 1);
            proof {
                assert(prefix.drop_last() =~= all.take(i as int));
                assert(prefix.last() == stmts[i as int]@);
            }
            let ghost before = out@;
            let walked = self.walk_statement(&stmts[i]);
            out.push(walked);
            assert(out@.drop_last() =~= before);
            i += 1;
        }
        assert(all.take(i as int) =~= all);
        out
    }

    /// The statements of a scope, instrumented; the innermost scope is closed.
    pub fn walk_scope(&mut self, statements: &Vec<Statement>) -> (out: Vec<Statement>)
        ensures
            (final(self)@, stmts_view(out@)) == spec_walk_scope(
                old(self)@,
                stmts_view(statements@),
            ),
        decreases statements, 1nat,
    {
        let walked = self.walk_statements(statements);
        let ghost st1 = self@;
        let level = if self.scope.len() > 0 {
            self.scope.pop().unwrap()
        } else {
            Vec::new()
        };
        proof {
            if st1.scope.len() > 0 {
                assert(self@.scope =~= st1.scope.drop_last());
                assert(level_view(level@) == st1.scope.last());
            } else {
                assert(level_view(level@) =~= Seq::<(Seq<char>, u32)>::empty());
            }
        }
        close_statements(walked, &level)
    }

    /// A loop over a range, instrumented: the loop variable gets an id in a
    /// scope of its own, and the body reports it at its start and as gone at
    /// its end.
    fn walk_for(
        &mut self,
        identifier: &String,
        range_start: &Expression,
        range_end: &Expression,
        block: &Expression,
        span: Span,
    ) -> (out: Statement)
        ensures
            (final(self)@, out@) == spec_walk_statement(
                old(self)@,
                StmtView {
                    kind: StmtKindView::For {
                        identifier: identifier@,
                        range_start: range_start@,
                        range_end: range_end@,
                        block: block@,
                    },
                    span,
                },
            ),
        decreases block, 1nat,
    {
        self.open_scope();
        let id = self.insert_var(identifier.as_str());
        let walked = self.walk_expr(block);
        let ghost walked_model = walked@;
        self.leave_scope();
        let mut body: Vec<Statement> = Vec::new();
        match id {
            Some(var_id) => {
                body.push(wrap_assign_var(var_id, id_expr(identifier.as_str())));
                body.push(semi_statement(walked));
                body.push(wrap_drop_var(var_id));
                proof {
                    lemma_stmts_view(body@);
                    assert(stmts_view(body@) =~= seq![
                        spec_assign_var(var_id, spec_id_expr(identifier@)),
                        semi_stmt(walked_model),
                        spec_drop_var(var_id),
                    ]);
                }
            },
            None => {
                body.push(semi_statement(walked));
                proof {
                    lemma_stmts_view(body@);
                    assert(stmts_view(body@) =~= seq![semi_stmt(walked_model)]);
                }
            },
        }
        Statement {
            kind: StatementKind::For {
                identifier: identifier.clone(),
                range_start: range_start.clone(),
                range_end: range_end.clone(),
                block: block_expression(body),
            },
            span,
        }
    }

    /// One statement, instrumented.
    pub fn walk_statement(&mut self, stmt: &Statement) -> (out: Statement)
        ensures
            (final(self)@, out@) == spec_walk_statement(old(self)@, stmt@),
        decreases stmt, 2nat,
    {
        match &stmt.kind {
            StatementKind::Let { pattern, typ, expression } => self.wrap_let_statement(
                pattern,
                typ,
                expression,
                stmt.span,
            ),
            StatementKind::Assign { lvalue, expression } => self.wrap_assign_statement(
                lvalue,
                expression,
                stmt.span,
            ),
            StatementKind::Expression(e) => {
                let out = self.walk_expr(e);
                Statement { kind: StatementKind::Expression(out), span: stmt.span }
            },
            StatementKind::Semi(e) => {
                let out = self.walk_expr(e);
                Statement { kind: StatementKind::Semi(out), span: stmt.span }
            },
            StatementKind::For { identifier, range_start, range_end, block } => self.walk_for(
                identifier,
                range_start,
                range_end,
                block,
                stmt.span,
            ),
            _ => stmt.clone(),
        }
    }
}

impl DebugState {
    /// A function, instrumented.
    pub fn walk_fn(&mut self, f: &FunctionDefinition) -> (out: FunctionDefinition)
        ensures
            (final(self)@, out@) == spec_walk_fn(old(self)@, f@),
    {
        self.open_scope();
        let ghost opened = self@;
        let mut vars: Vec<(String, bool)> = Vec::new();
        let mut i: usize = 0;
        let ghost all = parameters_view(f.parameters@);
        proof {
            assert(all.take(0) =~= Seq::<(PatternView, TypeNameView)>::empty());
        }
        while i < f.parameters.len()
            invariant
                0 <= i <= f.parameters.len(),
                all == parameters_view(f.parameters@),
                vars_view(vars@) == parameter_vars(all.take(i as int)),
                self@ == opened,
            decreases f.parameters.len() - i,
        {
            let ghost prefix = all.take(i + 1);
            proof {
                assert(prefix.drop_last() =~= all.take(i as int));
                assert(prefix.last().0 == f.parameters[i as int].0@);
            }
            let mut more = pattern_vars(&f.parameters[i].0);
            let ghost before = vars@;
            let ghost added = more@;
            vars.append(&mut more);
            assert(vars_view(vars@) =~= vars_view(before) + vars_view(added));
            i += 1;
        }
        assert(all.take(i as int) =~= all);
        let mut body = self.assign_vars(&vars);
        let ghost reports = body@;
        let mut walked = self.walk_scope(&f.body);
        let ghost walked_model = walked@;
        body.append(&mut walked);
        proof {
            lemma_stmts_concat(reports, walked_model);
        }
        let mut parameters: Vec<(Pattern, UnresolvedType)> = Vec::new();
        let mut k: usize = 0;
        while k < f.parameters.len()
            invariant
                0 <= k <= f.parameters.len(),
                parameters.len() == k,
                forall|j: int|
                    0 <= j < k ==> (#[trigger] parameters[j]).0@ == f.parameters[j].0@
                        && parameters[j].1@ == f.parameters[j].1@,
            decreases f.parameters.len() - k,
        {
            parameters.push((f.parameters[k].0.clone(), f.parameters[k].1.clone()));
            k += 1;
        }
        assert(parameters_view(parameters@) =~= parameters_view(f.parameters@));
        FunctionDefinition {
            name: f.name.clone(),
            generics: clone_strings(&f.generics),
            parameters,
            body,
            is_unconstrained: f.is_unconstrained,
            is_public: f.is_public,
            oracle: match &f.oracle {
                Some(name) => Some(name.clone()),
                None => None,
            },
        }
    }
}

/// The model of a list of parameters given by name and type.
pub open spec fn declared_parameters(params: Seq<(Seq<char>, Seq<char>)>) -> Seq<
    (PatternView, TypeNameView),
> {
    Seq::new(
        params.len(),
        |i: int| (PatternView::Identifier(params[i].0), TypeNameView::Named(params[i].1)),
    )
}

/// The function `name` over one type parameter `T`.
pub open spec fn declared_function(
    name: Seq<char>,
    params: Seq<(Seq<char>, Seq<char>)>,
    body: Seq<StmtView>,
    is_unconstrained: bool,
    is_public: bool,
    oracle: Option<Seq<char>>,
) -> ItemView {
    ItemView {
        kind: ItemKindView::Function(
            FunctionView {
                name,
                generics: seq!["T"@],
                parameters: declared_parameters(params),
                body,
                is_unconstrained,
                is_public,
                oracle,
            },
        ),
        span: spec_none_span(),
    }
}

/// The body that hands the parameters on to the function `target`.
pub open spec fn forwarding_body(target: Seq<char>, params: Seq<(Seq<char>, Seq<char>)>) -> Seq<
    StmtView,
> {
    seq![
        semi_stmt(
            call_expr(ident_path(target), Seq::new(params.len(), |i: int| spec_id_expr(params[i].0))),
        ),
    ]
}

/// The three functions of one oracle: the oracle itself, which has no body;
/// the unconstrained function that calls it; and the public function that
/// calls that one.
pub open spec fn oracle_functions(
    oracle: Seq<char>,
    oracle_fn: Seq<char>,
    inner_fn: Seq<char>,
    hidden: Seq<(Seq<char>, Seq<char>)>,
    params: Seq<(Seq<char>, Seq<char>)>,
) -> Seq<ItemView> {
    seq![
        declared_function(oracle_fn, hidden, Seq::empty(), true, false, Some(oracle)),
        declared_function(inner_fn, params, forwarding_body(oracle_fn, params), true, false, None),
        declared_function(oracle, params, forwarding_body(inner_fn, params), false, true, None),
    ]
}

/// The declarations that the instrumenter adds to a module: the oracles for
/// assignments, for the end of a variable's life, for assignments to a part
/// of a variable and through a reference, and the import of the vector type
/// that they use.
pub open spec fn spec_oracle_items() -> Seq<ItemView> {
    oracle_functions(
        "__debug_var_assign"@,
        "__debug_var_assign_oracle"@,
        "__debug_var_assign_inner"@,
        seq![("_var_id"@, "u32"@), ("_value"@, "T"@)],
        seq![("var_id"@, "u32"@), ("value"@, "T"@)],
    ) + oracle_functions(
        "__debug_var_drop"@,
        "__debug_var_drop_oracle"@,
        "__debug_var_drop_inner"@,
        seq![("_var_id"@, "u32"@)],
        seq![("var_id"@, "u32"@)],
    ) + seq![
        ItemView {
            kind: ItemKindView::Import {
                path: PathView {
                    segments: seq!["std"@, "collections"@, "vec"@, "Vec"@],
                    kind: PathKind::Dep,
                },
                alias: "__debug_Vec"@,
            },
            span: spec_none_span(),
        },
    ] + oracle_functions(
        "__debug_member_assign"@,
        "__debug_member_assign_oracle"@,
        "__debug_member_assign_inner"@,
        seq![("_var_id"@, "u32"@), ("_indexes"@, "__debug_Vec<u32>"@), ("_value"@, "T"@)],
        seq![("var_id"@, "u32"@), ("indexes"@, "__debug_Vec<u32>"@), ("value"@, "T"@)],
    ) + seq![
        declared_function(
            "__debug_member_assign_placeholder"@,
            seq![
                ("_var_id"@, "u32"@),
                ("_indexes"@, "__debug_Vec<u32>"@),
                ("_field_names"@, "__debug_Vec<__debug_Vec<u8>>"@),
                ("_value"@, "T"@),
            ],
            Seq::empty(),
            false,
            true,
            None,
        ),
    ] + oracle_functions(
        "__debug_dereference_assign"@,
        "__debug_dereference_assign_oracle"@,
        "__debug_dereference_assign_inner"@,
        seq![("_var_id"@, "u32"@), ("_value"@, "T"@)],
        seq![("var_id"@, "u32"@), ("value"@, "T"@)],
    )
}

/// A module, instrumented: its functions one after the other, then the
/// declarations of the oracles, which are not instrumented themselves. A
/// disabled instrumenter leaves the module as it is.
pub open spec fn spec_insert_symbols(st: StateView, items: Seq<ItemView>) -> (
    StateView,
    Seq<ItemView>,
) {
    if !st.enabled {
        (st, items)
    } else {
        let (st1, walked) = spec_walk_items(st, items);
        (st1, walked + spec_oracle_items())
    }
}

/// The model of parameters given by name and type.
pub open spec fn pairs_view(params: Seq<(String, String)>) -> Seq<(Seq<char>, Seq<char>)> {
    Seq::new(params.len(), |i: int| (params[i].0@, params[i].1@))
}

fn declare(
    name: &str,
    params: &Vec<(String, String)>,
    body: Vec<Statement>,
    is_unconstrained: bool,
    is_public: bool,
    oracle: Option<&str>,
) -> (item: Item)
    ensures
        item@ == declared_function(
            name@,
            pairs_view(params@),
            stmts_view(body@),
            is_unconstrained,
            is_public,
            match oracle {
                Some(o) => Some(o@),
                None => None,
            },
        ),
{
    let mut parameters: Vec<(Pattern, UnresolvedType)> = Vec::new();
    let mut i: usize = 0;
    while i < params.len()
        invariant
            0 <= i <= params.len(),
            parameters.len() == i,
            forall|k: int|
                0 <= k < i ==> (#[trigger] parameters[k]).0@ == PatternView::Identifier(
                    params[k].0@,
                ) && parameters[k].1@ == TypeNameView::Named(params[k].1@),
        decreases params.len() - i,
    {
        let pattern = Pattern::Identifier(params[i].0.clone());
        assert(pattern@ == PatternView::Identifier(params[i as int].0@));
        parameters.push((pattern, UnresolvedType::Named(params[i].1.clone())));
        i += 1;
    }
    assert(parameters_view(parameters@) =~= declared_parameters(pairs_view(params@)));
    let mut generics: Vec<String> = Vec::new();
    generics.push("T".to_owned());
    assert(strings_view(generics@) =~= seq!["T"@]);
    Item {
        kind: ItemKind::Function(
            FunctionDefinition {
                name: name.to_owned(),
                generics,
                parameters,
                body,
                is_unconstrained,
                is_public,
                oracle: match oracle {
                    Some(o) => Some(o.to_owned()),
                    None => None,
                },
            },
        ),
        span: none_span(),
    }
}

fn forward_to(target: &str, params: &Vec<(String, String)>) -> (body: Vec<Statement>)
    ensures
        stmts_view(body@) == forwarding_body(target@, pairs_view(params@)),
{
    let mut arguments: Vec<Expression> = Vec::new();
    let mut i: usize = 0;
    while i < params.len()
        invariant
            0 <= i <= params.len(),
            arguments.len() == i,
            forall|k: int| 0 <= k < i ==> #[trigger] arguments[k]@ == spec_id_expr(params[k].0@),
        decreases params.len() - i,
    {
        arguments.push(id_expr(params[i].0.as_str()));
        i += 1;
    }
    proof {
        lemma_exprs_view(arguments@);
        assert(exprs_view(arguments@) =~= Seq::new(
            pairs_view(params@).len(),
            |i: int| spec_id_expr(pairs_view(params@)[i].0),
        ));
    }
    let mut body: Vec<Statement> = Vec::new();
    body.push(semi_statement(call_expression(plain_path(target), arguments)));
    proof {
        lemma_stmts_view(body@);
        assert(stmts_view(body@) =~= forwarding_body(target@, pairs_view(params@)));
    }
    body
}

fn push_oracle(
    items: &mut Vec<Item>,
    oracle: &str,
    oracle_fn: &str,
    inner_fn: &str,
    hidden: &Vec<(String, String)>,
    params: &Vec<(String, String)>,
)
    ensures
        items_view(final(items)@) == items_view(old(items)@) + oracle_functions(
            oracle@,
            oracle_fn@,
            inner_fn@,
            pairs_view(hidden@),
            pairs_view(params@),
        ),
{
    let empty: Vec<Statement> = Vec::new();
    assert(stmts_view(empty@) =~= Seq::<StmtView>::empty());
    items.push(declare(oracle_fn, hidden, empty, true, false, Some(oracle)));
    items.push(declare(inner_fn, params, forward_to(oracle_fn, params), true, false, None));
    items.push(declare(oracle, params, forward_to(inner_fn, params), false, true, None));
    assert(items_view(items@) =~= items_view(old(items)@) + oracle_functions(
        oracle@,
        oracle_fn@,
        inner_fn@,
        pairs_view(hidden@),
        pairs_view(params@),
    ));
}

fn pair(name: &str, typ: &str) -> (p: (String, String))
    ensures
        p.0@ == name@,
        p.1@ == typ@,
{
    (name.to_owned(), typ.to_owned())
}

fn id_and_value(id_name: &str, value_name: &str) -> (params: Vec<(String, String)>)
    ensures
        pairs_view(params@) == seq![(id_name@, "u32"@), (value_name@, "T"@)],
{
    let mut params: Vec<(String, String)> = Vec::new();
    params.push(pair(id_name, "u32"));
    params.push(pair(value_name, "T"));
    assert(pairs_view(params@) =~= seq![(id_name@, "u32"@), (value_name@, "T"@)]);
    params
}

fn id_only(id_name: &str) -> (params: Vec<(String, String)>)
    ensures
        pairs_view(params@) == seq![(id_name@, "u32"@)],
{
    let mut params: Vec<(String, String)> = Vec::new();
    params.push(pair(id_name, "u32"));
    assert(pairs_view(params@) =~= seq![(id_name@, "u32"@)]);
    params
}

fn id_indexes_value(id_name: &str, indexes_name: &str, value_name: &str) -> (params: Vec<
    (String, String),
>)
    ensures
        pairs_view(params@) == seq![
            (id_name@, "u32"@),
            (indexes_name@, "__debug_Vec<u32>"@),
            (value_name@, "T"@),
        ],
{
    let mut params: Vec<(String, String)> = Vec::new();
    params.push(pair(id_name, "u32"));
    params.push(pair(indexes_name, "__debug_Vec<u32>"));
    params.push(pair(value_name, "T"));
    assert(pairs_view(params@) =~= seq![
        (id_name@, "u32"@),
        (indexes_name@, "__debug_Vec<u32>"@),
        (value_name@, "T"@),
    ]);
    params
}

/// The declarations that the instrumenter adds to a module.
pub fn oracle_items() -> (items: Vec<Item>)
    ensures
        items_view(items@) == spec_oracle_items(),
{
    let mut items: Vec<Item> = Vec::new();
    assert(items_view(items@) =~= Seq::<ItemView>::empty());
    push_oracle(
        &mut items,
        "__debug_var_assign",
        "__debug_var_assign_oracle",
        "__debug_var_assign_inner",
        &id_and_value("_var_id", "_value"),
        &id_and_value("var_id", "value"),
    );
    push_oracle(
        &mut items,
        "__debug_var_drop",
        "__debug_var_drop_oracle",
        "__debug_var_drop_inner",
        &id_only("_var_id"),
        &id_only("var_id"),
    );
    let mut segments: Vec<String> = Vec::new();
    segments.push("std".to_owned());
    segments.push("collections".to_owned());
    segments.push("vec".to_owned());
    segments.push("Vec".to_owned());
    let path = Path { segments, kind: PathKind::Dep };
    assert(path@.segments =~= seq!["std"@, "collections"@, "vec"@, "Vec"@]);
    let ghost before_import = items@;
    items.push(
        Item {
            kind: ItemKind::Import { path, alias: "__debug_Vec".to_owned() },
            span: none_span(),
        },
    );
    let ghost with_import = items@;
    assert(items_view(with_import) =~= items_view(before_import).push(with_import.last()@));
    push_oracle(
        &mut items,
        "__debug_member_assign",
        "__debug_member_assign_oracle",
        "__debug_member_assign_inner",
        &id_indexes_value("_var_id", "_indexes", "_value"),
        &id_indexes_value("var_id", "indexes", "value"),
    );
    let mut placeholder: Vec<(String, String)> = Vec::new();
    placeholder.push(pair("_var_id", "u32"));
    placeholder.push(pair("_indexes", "__debug_Vec<u32>"));
    placeholder.push(pair("_field_names", "__debug_Vec<__debug_Vec<u8>>"));
    placeholder.push(pair("_value", "T"));
    assert(pairs_view(placeholder@) =~= seq![
        ("_var_id"@, "u32"@),
        ("_indexes"@, "__debug_Vec<u32>"@),
        ("_field_names"@, "__debug_Vec<__debug_Vec<u8>>"@),
        ("_value"@, "T"@),
    ]);
    let empty: Vec<Statement> = Vec::new();
    assert(stmts_view(empty@) =~= Seq::<StmtView>::empty());
    let ghost before_placeholder = items@;
    items.push(declare("__debug_member_assign_placeholder", &placeholder, empty, false, true, None));
    let ghost with_placeholder = items@;
    assert(items_view(with_placeholder) =~= items_view(before_placeholder).push(
        with_placeholder.last()@,
    ));
    push_oracle(
        &mut items,
        "__debug_dereference_assign",
        "__debug_dereference_assign_oracle",
        "__debug_dereference_assign_inner",
        &id_and_value("_var_id", "_value"),
        &id_and_value("var_id", "value"),
    );
    assert(items_view(items@) =~= spec_oracle_items());
    items
}

impl DebugState {
    /// Instruments a module: every function of it, in order; then the
    /// declarations of the oracles are added at its end. A disabled
    /// instrumenter leaves the module as it is.
    pub fn insert_symbols(&mut self, module: &mut ParsedModule)
        ensures
            (final(self)@, final(module)@) == spec_insert_symbols(old(self)@, old(module)@),
    {
        if !self.enabled {
            return ;
        }
        let mut items: Vec<Item> = Vec::new();
        let mut i: usize = 0;
        let ghost all = old(module)@;
        proof {
            assert(all.take(0) =~= Seq::<ItemView>::empty());
            assert(items_view(items@) =~= Seq::<ItemView>::empty());
        }
        while i < module.items.len()
            invariant
                0 <= i <= module.items.len(),
                *module == *old(module),
                all == module@,
                (self@, items_view(items@)) == spec_walk_items(old(self)@, all.take(i as int)),
            decreases module.items.len() - i,
        {
            let ghost prefix = all.take(i + 1);
            proof {
                assert(prefix.drop_last() =~= all.take(i as int));
                assert(prefix.last() == module.items[i as int]@);
            }
            let ghost before = items@;
            let item = &module.items[i];
            match &item.kind {
                ItemKind::Function(f) => {
                    let out = self.walk_fn(f);
                    items.push(Item { kind: ItemKind::Function(out), span: item.span });
                },
                ItemKind::Import { path, alias } => {
                    items.push(
                        Item {
                            kind: ItemKind::Import { path: path.clone(), alias: alias.clone() },
                            span: item.span,
                        },
                    );
                },
                ItemKind::Other => {
                    items.push(Item { kind: ItemKind::Other, span: item.span });
                },
            }
            assert(items_view(items@) =~= items_view(before).push(items@.last()@));
            i += 1;
        }
        assert(all.take(i as int) =~= all);
        module.items = items;
        self.insert_state_set_oracle(module);
    }

    /// Adds the declarations of the oracles at the end of a module.
    pub fn insert_state_set_oracle(&self, module: &mut ParsedModule)
        ensures
            final(module)@ == old(module)@ + spec_oracle_items(),
    {
        let mut oracles = oracle_items();
        let ghost before = module.items@;
        let ghost added = oracles@;
        module.items.append(&mut oracles);
        assert(items_view(module.items@) =~= items_view(before) + items_view(added));
    }
}

/// The `k`-th id from the next free one.
pub open spec fn id_from(st: StateView, k: int) -> u32 {
    (st.next_var_id + k) as u32
}

/// While ids are left and a scope is open, variables get ids in order, one
/// after the other from the next free id, each is recorded under its id, and
/// each is reported with its id; no scope is opened or closed, and the
/// variables that had ids keep them.
pub proof fn lemma_assign_vars(st: StateView, vars: Seq<(Seq<char>, bool)>)
    requires
        st.scope.len() > 0,
        st.next_var_id + vars.len() <= u32::MAX,
    ensures
        ({
            let (after, reports) = spec_assign_vars(st, vars);
            &&& after.next_var_id == st.next_var_id + vars.len()
            &&& after.scope.len() == st.scope.len()
            &&& after.enabled == st.enabled
            &&& reports.len() == vars.len()
            &&& forall|k: int|
                0 <= k < vars.len() ==> #[trigger] reports[k] == spec_assign_var(
                    id_from(st, k),
                    spec_id_expr(vars[k].0),
                )
            &&& forall|k: int|
                0 <= k < vars.len() ==> after.variables.contains_key(#[trigger] id_from(st, k))
                    && after.variables[id_from(st, k)] == vars[k].0
            &&& forall|id: u32|
                id < st.next_var_id && #[trigger] st.variables.contains_key(id)
                    ==> after.variables.contains_key(id) && after.variables[id]
                    == st.variables[id]
        }),
    decreases vars.len(),
{
    if vars.len() > 0 {
        lemma_assign_vars(st, vars.drop_last());
        let (st1, front) = spec_assign_vars(st, vars.drop_last());
        let (st2, id) = spec_insert_var(st1, vars.last().0);
        let (after, reports) = spec_assign_vars(st, vars);
        let n = vars.len() - 1;
        assert(id == Some(st1.next_var_id));
        assert(st1.next_var_id == id_from(st, n));
        assert forall|k: int| 0 <= k < vars.len() implies #[trigger] reports[k] == spec_assign_var(
            id_from(st, k),
            spec_id_expr(vars[k].0),
        ) by {
            if k < n {
                assert(reports[k] == front[k]);
                assert(vars.drop_last()[k] == vars[k]);
            }
        }
        assert forall|k: int| 0 <= k < vars.len() implies after.variables.contains_key(
            #[trigger] id_from(st, k),
        ) && after.variables[id_from(st, k)] == vars[k].0 by {
            if k < n {
                assert(vars.drop_last()[k] == vars[k]);
                assert(st1.variables.contains_key(id_from(st, k)));
                assert(id_from(st, k) != id_from(st, n));
            }
        }
        assert forall|id: u32|
            id < st.next_var_id && #[trigger] st.variables.contains_key(id) implies after.variables.contains_key(
            id,
        ) && after.variables[id] == st.variables[id] by {
            assert(st1.variables.contains_key(id));
        }
    }
}

/// The parameters of an instrumented function are reported first, in order:
/// while ids are left, the body of the function is one report for each
/// variable of the parameters, with the ids from the next free one on, and
/// behind them the instrumented body; each of these variables is recorded
/// under its id; and the scopes are afterwards what they were before.
pub proof fn lemma_parameters_reported_first(st: StateView, f: FunctionView)
    requires
        st.next_var_id + parameter_vars(f.parameters).len() <= u32::MAX,
    ensures
        ({
            let vars = parameter_vars(f.parameters);
            let opened = StateView { scope: st.scope.push(Seq::empty()), ..st };
            let (after, out) = spec_walk_fn(st, f);
            &&& out.body.len() >= vars.len()
            &&& forall|k: int|
                0 <= k < vars.len() ==> #[trigger] out.body[k] == spec_assign_var(
                    id_from(st, k),
                    spec_id_expr(vars[k].0),
                )
            &&& out.body.skip(vars.len() as int) == spec_walk_scope(
                spec_assign_vars(opened, vars).0,
                f.body,
            ).1
            &&& forall|k: int|
                0 <= k < vars.len() ==> after.variables.contains_key(#[trigger] id_from(st, k))
                    && after.variables[id_from(st, k)] == vars[k].0
            &&& after.scope == st.scope
        }),
{
    let opened = StateView { scope: st.scope.push(Seq::empty()), ..st };
    lemma_assign_vars(opened, parameter_vars(f.parameters));
    let vars = parameter_vars(f.parameters);
    let (st1, reports) = spec_assign_vars(opened, vars);
    let (after, out) = spec_walk_fn(st, f);
    let body = out.body;
    assert forall|k: int| 0 <= k < vars.len() implies #[trigger] body[k] == spec_assign_var(
        id_from(st, k),
        spec_id_expr(vars[k].0),
    ) by {
        assert(body[k] == reports[k]);
        assert(id_from(opened, k) == id_from(st, k));
    }
    assert(body.skip(vars.len() as int) =~= spec_walk_scope(st1, f.body).1);
    lemma_walk_scope_order(st1, f.body);
    assert forall|k: int| 0 <= k < vars.len() implies after.variables.contains_key(
        #[trigger] id_from(st, k),
    ) && after.variables[id_from(st, k)] == vars[k].0 by {
        assert(id_from(opened, k) == id_from(st, k));
        assert(st1.variables.contains_key(id_from(opened, k)));
        assert(id_from(st, k) < st1.next_var_id);
    }
    lemma_assign_vars_scopes(opened, vars);
    lemma_walk_scope_scopes(st1, f.body);
    assert(st1.scope.drop_last() =~= st.scope);
}

/// The end of a scope reports every variable of the scope as gone.
pub proof fn lemma_scope_end_drops(walked: Seq<StmtView>, level: Seq<(Seq<char>, u32)>, i: int)
    requires
        0 <= i < level.len(),
    ensures
        close_scope(walked, level).contains(spec_drop_var(level[i].1)),
{
    let out = close_scope(walked, level);
    let body_len = if walked.len() > 0 {
        walked.len() as int
    } else {
        1
    };
    assert(out[body_len + i] == drop_stmts(level)[i]);
}

/// Whether the scopes `after` are the scopes `before` with bindings added at
/// the end of the innermost: as many scopes, the outer ones as they were.
pub open spec fn extends_scopes(
    before: Seq<Seq<(Seq<char>, u32)>>,
    after: Seq<Seq<(Seq<char>, u32)>>,
) -> bool {
    &&& after.len() == before.len()
    &&& before.len() > 0 ==> {
        &&& after.drop_last() == before.drop_last()
        &&& before.last().len() <= after.last().len()
        &&& after.last().take(before.last().len() as int) == before.last()
    }
}

/// Scopes extend themselves, and extending twice is extending.
pub proof fn lemma_extends_scopes(
    a: Seq<Seq<(Seq<char>, u32)>>,
    b: Seq<Seq<(Seq<char>, u32)>>,
    c: Seq<Seq<(Seq<char>, u32)>>,
)
    ensures
        extends_scopes(a, a),
        extends_scopes(a, b) && extends_scopes(b, c) ==> extends_scopes(a, c),
{
    if a.len() > 0 {
        assert(a.last().take(a.last().len() as int) =~= a.last());
    }
    if extends_scopes(a, b) && extends_scopes(b, c) && a.len() > 0 {
        assert(c.last().take(a.last().len() as int) =~= c.last().take(b.last().len() as int).take(
            a.last().len() as int,
        ));
    }
}

/// A variable that gets an id is bound at the end of the innermost scope,
/// which keeps what it held; the name then stands for that id.
pub proof fn lemma_insert_var_binds(st: StateView, name: Seq<char>)
    ensures
        extends_scopes(st.scope, spec_insert_var(st, name).0.scope),
        spec_insert_var(st, name).1 matches Some(id) ==> {
            &&& spec_insert_var(st, name).0.scope.last() == st.scope.last().push((name, id))
            &&& lookup_in(spec_insert_var(st, name).0.scope, name) == Some(id)
        },
{
    lemma_extends_scopes(st.scope, st.scope, st.scope);
    if spec_insert_var(st, name).1 is Some {
        let after = spec_insert_var(st, name).0.scope;
        let level = st.scope.last();
        assert(after.drop_last() =~= st.scope.drop_last());
        assert(after.last().take(level.len() as int) =~= level);
    }
}

/// Giving ids to variables adds bindings to the innermost scope and changes
/// no other.
pub proof fn lemma_assign_vars_scopes(st: StateView, vars: Seq<(Seq<char>, bool)>)
    ensures
        extends_scopes(st.scope, spec_assign_vars(st, vars).0.scope),
    decreases vars.len(),
{
    if vars.len() == 0 {
        lemma_extends_scopes(st.scope, st.scope, st.scope);
    } else {
        lemma_assign_vars_scopes(st, vars.drop_last());
        let st1 = spec_assign_vars(st, vars.drop_last()).0;
        lemma_insert_var_binds(st1, vars.last().0);
        lemma_extends_scopes(st.scope, st1.scope, spec_insert_var(st1, vars.last().0).0.scope);
    }
}

/// Walking an expression leaves the scopes as they were: every scope that a
/// block in it opens is left at the end of the block.
pub proof fn lemma_walk_expr_scopes(st: StateView, e: ExprView)
    ensures
        spec_walk_expr(st, e).0.scope == st.scope,
    decreases e, 0nat,
{
    match e.kind {
        ExprKindView::Block(stmts) => {
            let opened = StateView { scope: st.scope.push(Seq::empty()), ..st };
            lemma_walk_scope_scopes(opened, stmts);
            assert(opened.scope.drop_last() =~= st.scope);
        },
        ExprKindView::Operation { form, labels, operands } => {
            lemma_walk_exprs_scopes(st, operands);
        },
        _ => {},
    }
}

/// Walking expressions leaves the scopes as they were.
pub proof fn lemma_walk_exprs_scopes(st: StateView, exprs: Seq<ExprView>)
    ensures
        spec_walk_exprs(st, exprs).0.scope == st.scope,
    decreases exprs, 0nat,
{
    if exprs.len() > 0 {
        lemma_walk_exprs_scopes(st, exprs.drop_last());
        lemma_walk_expr_scopes(spec_walk_exprs(st, exprs.drop_last()).0, exprs.last());
    }
}

/// Walking statements adds bindings to the innermost scope and changes no other.
pub proof fn lemma_walk_statements_scopes(st: StateView, stmts: Seq<StmtView>)
    ensures
        extends_scopes(st.scope, spec_walk_statements(st, stmts).0.scope),
    decreases stmts, 0nat,
{
    if stmts.len() == 0 {
        lemma_extends_scopes(st.scope, st.scope, st.scope);
    } else {
        lemma_walk_statements_scopes(st, stmts.drop_last());
        let st1 = spec_walk_statements(st, stmts.drop_last()).0;
        lemma_walk_statement_scopes(st1, stmts.last());
        lemma_extends_scopes(st.scope, st1.scope, spec_walk_statement(st1, stmts.last()).0.scope);
    }
}

/// Walking the statements of a scope leaves the innermost scope and changes
/// no other.
pub proof fn lemma_walk_scope_scopes(st: StateView, stmts: Seq<StmtView>)
    ensures
        spec_walk_scope(st, stmts).0.scope == close_level(st).scope,
    decreases stmts, 1nat,
{
    lemma_walk_statements_scopes(st, stmts);
    if st.scope.len() == 0 {
        assert(spec_walk_statements(st, stmts).0.scope =~= st.scope);
    }
}

/// Walking one statement adds bindings to the innermost scope and changes no
/// other. A loop adds none: its variable is bound in the loop alone, so
/// behind the loop every name stands for what it stood for before.
pub proof fn lemma_walk_statement_scopes(st: StateView, s: StmtView)
    ensures
        extends_scopes(st.scope, spec_walk_statement(st, s).0.scope),
        s.kind is For ==> spec_walk_statement(st, s).0.scope == st.scope,
    decreases s, 0nat,
{
    lemma_extends_scopes(st.scope, st.scope, st.scope);
    match s.kind {
        StmtKindView::Let { pattern, typ, expression } => {
            lemma_assign_vars_scopes(st, spec_pattern_vars(pattern, false));
        },
        StmtKindView::Expression(e) => {
            lemma_walk_expr_scopes(st, e);
        },
        StmtKindView::Semi(e) => {
            lemma_walk_expr_scopes(st, e);
        },
        StmtKindView::For { identifier, range_start, range_end, block } => {
            let opened = StateView { scope: st.scope.push(Seq::empty()), ..st };
            let st1 = spec_insert_var(opened, identifier).0;
            lemma_insert_var_binds(opened, identifier);
            lemma_walk_expr_scopes(st1, block);
            assert(st1.scope.drop_last() =~= st.scope);
        },
        _ => {},
    }
}

/// The end of a scope reports every variable that was bound in it as gone,
/// also one whose name was bound again: those that the scope held when its
/// statements began, and those that any of its statements bound. `k` says
/// after how many of the statements the variable was bound.
pub proof fn lemma_scope_drops_every_variable(st: StateView, stmts: Seq<StmtView>, k: int, i: int)
    requires
        st.scope.len() > 0,
        0 <= k <= stmts.len(),
        0 <= i < spec_walk_statements(st, stmts.take(k)).0.scope.last().len(),
    ensures
        spec_walk_scope(st, stmts).1.contains(
            spec_drop_var(spec_walk_statements(st, stmts.take(k)).0.scope.last()[i].1),
        ),
    decreases stmts.len() - k,
{
    let whole = spec_walk_statements(st, stmts);
    lemma_walk_statements_scopes(st, stmts);
    if k == stmts.len() {
        assert(stmts.take(k) =~= stmts);
        lemma_scope_end_drops(whole.1, whole.0.scope.last(), i);
    } else {
        let here = spec_walk_statements(st, stmts.take(k)).0;
        let next = spec_walk_statements(st, stmts.take(k + 1)).0;
        assert(stmts.take(k + 1).drop_last() =~= stmts.take(k));
        lemma_walk_statements_scopes(st, stmts.take(k));
        lemma_walk_statement_scopes(here, stmts.take(k + 1).last());
        assert(next.scope.last().take(here.scope.last().len() as int)[i] == next.scope.last()[i]);
        lemma_scope_drops_every_variable(st, stmts, k + 1, i);
    }
}

/// Whether the ids of a scope are in order: they grow with the bindings and
/// are below `next`. So no id is bound twice in the scope.
pub open spec fn level_in_order(level: Seq<(Seq<char>, u32)>, next: u32) -> bool {
    &&& forall|i: int| 0 <= i < level.len() ==> (#[trigger] level[i]).1 < next
    &&& forall|i: int, j: int|
        0 <= i < j < level.len() ==> (#[trigger] level[i]).1 < (#[trigger] level[j]).1
}

/// Whether the ids of every open scope are in order and below the next free
/// id. It holds of a state without scopes, and every walk keeps it.
pub open spec fn ids_in_order(st: StateView) -> bool {
    forall|l: int| 0 <= l < st.scope.len() ==> level_in_order(#[trigger] st.scope[l], st.next_var_id)
}

/// Whether `after` has what `st` recorded: no id was taken back, and every
/// variable that had an id below the next free one has it still.
pub open spec fn keeps_variables(st: StateView, after: StateView) -> bool {
    &&& st.next_var_id <= after.next_var_id
    &&& after.enabled == st.enabled
    &&& forall|id: u32|
        id < st.next_var_id && #[trigger] st.variables.contains_key(id)
            ==> after.variables.contains_key(id) && after.variables[id] == st.variables[id]
}

/// What is kept twice is kept.
pub proof fn lemma_keeps_variables(a: StateView, b: StateView, c: StateView)
    ensures
        keeps_variables(a, a),
        keeps_variables(a, b) && keeps_variables(b, c) ==> keeps_variables(a, c),
{
    if keeps_variables(a, b) && keeps_variables(b, c) {
        assert forall|id: u32|
            id < a.next_var_id && #[trigger] a.variables.contains_key(id) implies c.variables.contains_key(
            id,
        ) && c.variables[id] == a.variables[id] by {
            assert(b.variables.contains_key(id));
        }
    }
}

/// Opening a scope and leaving one keep the ids in order.
pub proof fn lemma_open_close_order(st: StateView)
    requires
        ids_in_order(st),
    ensures
        ids_in_order(StateView { scope: st.scope.push(Seq::empty()), ..st }),
        ids_in_order(close_level(st)),
{
    let opened = StateView { scope: st.scope.push(Seq::empty()), ..st };
    assert forall|l: int| 0 <= l < opened.scope.len() implies level_in_order(
        #[trigger] opened.scope[l],
        opened.next_var_id,
    ) by {
        if l < st.scope.len() {
            assert(opened.scope[l] == st.scope[l]);
        }
    }
    let closed = close_level(st);
    assert forall|l: int| 0 <= l < closed.scope.len() implies level_in_order(
        #[trigger] closed.scope[l],
        closed.next_var_id,
    ) by {
        assert(closed.scope[l] == st.scope[l]);
    }
}

/// A variable that gets an id gets one that no open scope holds; the ids stay
/// in order, and what was recorded is kept.
pub proof fn lemma_insert_var_order(st: StateView, name: Seq<char>)
    ensures
        keeps_variables(st, spec_insert_var(st, name).0),
        ids_in_order(st) ==> ids_in_order(spec_insert_var(st, name).0),
{
    let after = spec_insert_var(st, name).0;
    if ids_in_order(st) && spec_insert_var(st, name).1 is Some {
        let id = st.next_var_id;
        assert forall|l: int| 0 <= l < after.scope.len() implies level_in_order(
            #[trigger] after.scope[l],
            after.next_var_id,
        ) by {
            let before = st.scope[l];
            assert(level_in_order(before, st.next_var_id));
            if l == st.scope.len() - 1 {
                let level = after.scope[l];
                assert(level == before.push((name, id)));
                assert forall|i: int| 0 <= i < level.len() implies (#[trigger] level[i]).1
                    < after.next_var_id by {
                    if i < before.len() {
                        assert(level[i] == before[i]);
                    }
                }
                assert forall|i: int, j: int| 0 <= i < j < level.len() implies (
                #[trigger] level[i]).1 < (#[trigger] level[j]).1 by {
                    assert(level[i] == before[i]);
                    if j < before.len() {
                        assert(level[j] == before[j]);
                    }
                }
            } else {
                assert(after.scope[l] == before);
            }
        }
    }
}

/// Giving ids to variables keeps the ids in order and what was recorded.
pub proof fn lemma_assign_vars_order(st: StateView, vars: Seq<(Seq<char>, bool)>)
    ensures
        keeps_variables(st, spec_assign_vars(st, vars).0),
        ids_in_order(st) ==> ids_in_order(spec_assign_vars(st, vars).0),
    decreases vars.len(),
{
    if vars.len() > 0 {
        lemma_assign_vars_order(st, vars.drop_last());
        let st1 = spec_assign_vars(st, vars.drop_last()).0;
        lemma_insert_var_order(st1, vars.last().0);
        lemma_keeps_variables(st, st1, spec_insert_var(st1, vars.last().0).0);
    }
}

/// Walking an expression keeps the ids in order and what was recorded.
pub proof fn lemma_walk_expr_order(st: StateView, e: ExprView)
    ensures
        keeps_variables(st, spec_walk_expr(st, e).0),
        ids_in_order(st) ==> ids_in_order(spec_walk_expr(st, e).0),
    decreases e, 0nat,
{
    match e.kind {
        ExprKindView::Block(stmts) => {
            let opened = StateView { scope: st.scope.push(Seq::empty()), ..st };
            if ids_in_order(st) {
                lemma_open_close_order(st);
            }
            lemma_walk_scope_order(opened, stmts);
            lemma_keeps_variables(st, opened, spec_walk_scope(opened, stmts).0);
        },
        ExprKindView::Operation { form, labels, operands } => {
            lemma_walk_exprs_order(st, operands);
        },
        _ => {},
    }
}

/// Walking expressions keeps the ids in order and what was recorded.
pub proof fn lemma_walk_exprs_order(st: StateView, exprs: Seq<ExprView>)
    ensures
        keeps_variables(st, spec_walk_exprs(st, exprs).0),
        ids_in_order(st) ==> ids_in_order(spec_walk_exprs(st, exprs).0),
    decreases exprs, 0nat,
{
    if exprs.len() > 0 {
        lemma_walk_exprs_order(st, exprs.drop_last());
        let st1 = spec_walk_exprs(st, exprs.drop_last()).0;
        lemma_walk_expr_order(st1, exprs.last());
        lemma_keeps_variables(st, st1, spec_walk_expr(st1, exprs.last()).0);
    }
}

/// Walking statements keeps the ids in order and what was recorded.
pub proof fn lemma_walk_statements_order(st: StateView, stmts: Seq<StmtView>)
    ensures
        keeps_variables(st, spec_walk_statements(st, stmts).0),
        ids_in_order(st) ==> ids_in_order(spec_walk_statements(st, stmts).0),
    decreases stmts, 0nat,
{
    if stmts.len() > 0 {
        lemma_walk_statements_order(st, stmts.drop_last());
        let st1 = spec_walk_statements(st, stmts.drop_last()).0;
        lemma_walk_statement_order(st1, stmts.last());
        lemma_keeps_variables(st, st1, spec_walk_statement(st1, stmts.last()).0);
    }
}

/// Walking the statements of a scope keeps the ids in order and what was recorded.
pub proof fn lemma_walk_scope_order(st: StateView, stmts: Seq<StmtView>)
    ensures
        keeps_variables(st, spec_walk_scope(st, stmts).0),
        ids_in_order(st) ==> ids_in_order(spec_walk_scope(st, stmts).0),
    decreases stmts, 1nat,
{
    lemma_walk_statements_order(st, stmts);
    let st1 = spec_walk_statements(st, stmts).0;
    if ids_in_order(st1) {
        lemma_open_close_order(st1);
    }
    lemma_keeps_variables(st, st1, close_level(st1));
}

/// Walking one statement keeps the ids in order and what was recorded.
pub proof fn lemma_walk_statement_order(st: StateView, s: StmtView)
    ensures
        keeps_variables(st, spec_walk_statement(st, s).0),
        ids_in_order(st) ==> ids_in_order(spec_walk_statement(st, s).0),
    decreases s, 0nat,
{
    match s.kind {
        StmtKindView::Let { pattern, typ, expression } => {
            lemma_assign_vars_order(st, spec_pattern_vars(pattern, false));
        },
        StmtKindView::Expression(e) => {
            lemma_walk_expr_order(st, e);
        },
        StmtKindView::Semi(e) => {
            lemma_walk_expr_order(st, e);
        },
        StmtKindView::For { identifier, range_start, range_end, block } => {
            let opened = StateView { scope: st.scope.push(Seq::empty()), ..st };
            let st1 = spec_insert_var(opened, identifier).0;
            let st2 = spec_walk_expr(st1, block).0;
            if ids_in_order(st) {
                lemma_open_close_order(st);
            }
            lemma_insert_var_order(opened, identifier);
            lemma_walk_expr_order(st1, block);
            if ids_in_order(st2) {
                lemma_open_close_order(st2);
            }
            lemma_keeps_variables(st, opened, st1);
            lemma_keeps_variables(st, st1, st2);
            lemma_keeps_variables(st, st2, close_level(st2));
        },
        _ => {},
    }
}

/// The id that a statement reports as gone, where it is such a statement.
pub open spec fn dropped_id(s: StmtView) -> Option<u128> {
    match s.kind {
        StmtKindView::Semi(e) => match e.kind {
            ExprKindView::Operation { operands, .. } => if operands.len() == 2 {
                match operands[1].kind {
                    ExprKindView::Literal(LiteralView::Integer(x)) => Some(x),
                    _ => None,
                }
            } else {
                None
            },
            _ => None,
        },
        _ => None,
    }
}

/// The end of a scope reports each variable of the scope as gone once: where
/// the ids are in order when the statements of a scope begin, no two of the
/// reports at its end are of one id.
pub proof fn lemma_scope_drops_each_once(st: StateView, stmts: Seq<StmtView>)
    requires
        st.scope.len() > 0,
        ids_in_order(st),
    ensures
        ({
            let (st1, walked) = spec_walk_statements(st, stmts);
            let level = st1.scope.last();
            &&& spec_walk_scope(st, stmts).1 == close_scope(walked, level)
            &&& forall|i: int, j: int|
                0 <= i < j < level.len() ==> level[i].1 != level[j].1
            &&& drop_stmts(level).no_duplicates()
        }),
{
    let (st1, walked) = spec_walk_statements(st, stmts);
    let level = st1.scope.last();
    lemma_walk_statements_scopes(st, stmts);
    lemma_walk_statements_order(st, stmts);
    assert(level_in_order(st1.scope[st1.scope.len() - 1], st1.next_var_id));
    assert forall|i: int, j: int| 0 <= i < j < level.len() implies level[i].1 != level[j].1 by {
        assert(level[i].1 < level[j].1);
    }
    let drops = drop_stmts(level);
    assert forall|i: int, j: int| 0 <= i < drops.len() && 0 <= j < drops.len() && i != j implies drops[i]
        != drops[j] by {
        assert(dropped_id(drops[i]) == Some(level[i].1 as u128));
        assert(dropped_id(drops[j]) == Some(level[j].1 as u128));
        if i < j {
            assert(level[i].1 < level[j].1);
        } else {
            assert(level[j].1 < level[i].1);
        }
    }
}

/// The variable of a loop lives in the loop alone. While an id is left, the
/// loop's variable gets the next one and is recorded under it; the body of
/// the instrumented loop reports the variable, runs the instrumented body
/// and reports the variable as gone; and behind the loop the scopes are what
/// they were before, so that every name stands for what it stood for.
pub proof fn lemma_loop_variable_is_local(st: StateView, s: StmtView)
    requires
        s.kind is For,
        st.next_var_id < u32::MAX,
    ensures
        ({
            let (after, out) = spec_walk_statement(st, s);
            let id = st.next_var_id;
            let opened = StateView { scope: st.scope.push(Seq::empty()), ..st };
            let inside = spec_insert_var(opened, s.kind->For_identifier).0;
            &&& after.scope == st.scope
            &&& forall|name: Seq<char>| lookup_in(after.scope, name) == lookup_in(st.scope, name)
            &&& lookup_in(inside.scope, s.kind->For_identifier) == Some(id)
            &&& after.variables.contains_key(id)
            &&& after.variables[id] == s.kind->For_identifier
            &&& out.kind matches StmtKindView::For { identifier, range_start, range_end, block }
            &&& identifier == s.kind->For_identifier
            &&& range_start == s.kind->For_range_start
            &&& range_end == s.kind->For_range_end
            &&& block == block_expr(
                seq![
                    spec_assign_var(id, spec_id_expr(identifier)),
                    semi_stmt(spec_walk_expr(inside, s.kind->For_block).1),
                    spec_drop_var(id),
                ],
            )
        }),
{
    let opened = StateView { scope: st.scope.push(Seq::empty()), ..st };
    let inside = spec_insert_var(opened, s.kind->For_identifier).0;
    lemma_walk_statement_scopes(st, s);
    lemma_insert_var_binds(opened, s.kind->For_identifier);
    lemma_walk_expr_order(inside, s.kind->For_block);
    assert(inside.variables.contains_key(st.next_var_id));
}

} // verus!
