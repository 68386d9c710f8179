//! The syntax tree that the instrumenter rewrites: statements, expressions,
//! assignment targets and patterns, each with its mathematical model.

use crate::program::Span;
use vstd::prelude::*;

verus! {

/// How a path is anchored.
#[derive(Clone, Copy, Debug, PartialEq, Eq, Structural)]
pub enum PathKind {
    Crate,
    Dep,
    Plain,
}

/// A path: one or more names.
#[derive(Debug, PartialEq, Eq)]
pub struct Path {
    pub segments: Vec<String>,
    pub kind: PathKind,
}

/// A type as written in the source, as far as the instrumenter needs it.
#[derive(Debug, PartialEq, Eq)]
pub enum UnresolvedType {
    /// No type was written.
    Unspecified,
    /// A type, by its text.
    Named(String),
}

/// A literal.
#[derive(Debug, PartialEq, Eq)]
pub enum Literal {
    Array(Vec<Expression>),
    Bool(bool),
    Integer(u128),
    Str(String),
    FmtStr(String),
    Unit,
}

/// The forms of an expression that is made of sub-expressions.
#[derive(Clone, Copy, Debug, PartialEq, Eq, Structural)]
pub enum OperationForm {
    /// An operator before its operand.
    Prefix,
    /// A collection and an index.
    Index,
    /// A function and its arguments.
    Call,
    /// An object and the arguments of a method; the label is the method.
    MethodCall,
    /// The values of the fields of a struct; the labels are the type and the fields.
    Constructor,
    /// An object; the label is the field.
    MemberAccess,
    /// A value; the label is the type.
    Cast,
    /// Two operands; the label is the operator.
    Infix,
    /// A condition, a consequence and perhaps an alternative.
    If,
    /// The elements of a tuple.
    Tuple,
    /// The body of a lambda; the labels are the parameters.
    Lambda,
    /// An expression in parentheses.
    Parenthesized,
}

/// An expression with its place in the source.
#[derive(Debug, PartialEq, Eq)]
pub struct Expression {
    pub kind: ExpressionKind,
    pub span: Span,
}

/// The kinds of expression.
#[derive(Debug, PartialEq, Eq)]
pub enum ExpressionKind {
    Literal(Literal),
    Variable(Path),
    Block(Vec<Statement>),
    /// An expression made of sub-expressions, which stand in `operands` in
    /// the order in which they are evaluated.
    Operation { form: OperationForm, labels: Vec<String>, operands: Vec<Expression> },
    Error,
}

/// A statement with its place in the source.
#[derive(Debug, PartialEq, Eq)]
pub struct Statement {
    pub kind: StatementKind,
    pub span: Span,
}

/// The kinds of statement.
#[derive(Debug, PartialEq, Eq)]
pub enum StatementKind {
    Let { pattern: Pattern, typ: UnresolvedType, expression: Expression },
    Constrain(Expression),
    Expression(Expression),
    Assign { lvalue: LValue, expression: Expression },
    For { identifier: String, range_start: Expression, range_end: Expression, block: Expression },
    Semi(Expression),
    Error,
}

/// The target of an assignment.
#[derive(Debug, PartialEq, Eq)]
pub enum LValue {
    Ident(String),
    MemberAccess { object: Box<LValue>, field_name: String },
    Index { array: Box<LValue>, index: Expression },
    Dereference(Box<LValue>),
}

/// A pattern that binds variables.
#[derive(Debug, PartialEq, Eq)]
pub enum Pattern {
    Identifier(String),
    Mutable(Box<Pattern>, Span),
    Tuple(Vec<Pattern>, Span),
    Struct(Path, Vec<(String, Pattern)>, Span),
}

/// A function of the source.
#[derive(Debug, PartialEq, Eq)]
pub struct FunctionDefinition {
    pub name: String,
    pub generics: Vec<String>,
    pub parameters: Vec<(Pattern, UnresolvedType)>,
    pub body: Vec<Statement>,
    pub is_unconstrained: bool,
    pub is_public: bool,
    /// The oracle that the function stands for, if it is declared as one.
    pub oracle: Option<String>,
}

/// The kinds of item of a module.
#[derive(Debug, PartialEq, Eq)]
pub enum ItemKind {
    Function(FunctionDefinition),
    /// An import of a path under another name.
    Import { path: Path, alias: String },
    /// Any other item.
    Other,
}

/// An item with its place in the source.
#[derive(Debug, PartialEq, Eq)]
pub struct Item {
    pub kind: ItemKind,
    pub span: Span,
}

/// A parsed module.
#[derive(Debug, PartialEq, Eq)]
pub struct ParsedModule {
    pub items: Vec<Item>,
}

/// The model of a list of names.
pub open spec fn strings_view(names: Seq<String>) -> Seq<Seq<char>> {
    Seq::new(names.len(), |i: int| names[i]@)
}

/// The model of a [`Path`].
pub struct PathView {
    pub segments: Seq<Seq<char>>,
    pub kind: PathKind,
}

impl View for Path {
    type V = PathView;

    open spec fn view(&self) -> PathView {
        PathView { segments: strings_view(self.segments@), kind: self.kind }
    }
}

/// The model of an [`UnresolvedType`].
pub enum TypeNameView {
    Unspecified,
    Named(Seq<char>),
}

impl View for UnresolvedType {
    type V = TypeNameView;

    open spec fn view(&self) -> TypeNameView {
        match self {
            UnresolvedType::Unspecified => TypeNameView::Unspecified,
            UnresolvedType::Named(n) => TypeNameView::Named(n@),
        }
    }
}

/// The model of a [`Literal`].
pub enum LiteralView {
    Array(Seq<ExprView>),
    Bool(bool),
    Integer(u128),
    Str(Seq<char>),
    FmtStr(Seq<char>),
    Unit,
}

/// The model of an [`Expression`].
pub struct ExprView {
    pub kind: ExprKindView,
    pub span: Span,
}

/// The model of an [`ExpressionKind`].
pub enum ExprKindView {
    Literal(LiteralView),
    Variable(PathView),
    Block(Seq<StmtView>),
    Operation { form: OperationForm, labels: Seq<Seq<char>>, operands: Seq<ExprView> },
    Error,
}

/// The model of a [`Statement`].
pub struct StmtView {
    pub kind: StmtKindView,
    pub span: Span,
}

/// The model of a [`StatementKind`].
pub enum StmtKindView {
    Let { pattern: PatternView, typ: TypeNameView, expression: ExprView },
    Constrain(ExprView),
    Expression(ExprView),
    Assign { lvalue: LValueView, expression: ExprView },
    For { identifier: Seq<char>, range_start: ExprView, range_end: ExprView, block: ExprView },
    Semi(ExprView),
    Error,
}

/// The model of an [`LValue`].
pub enum LValueView {
    Ident(Seq<char>),
    MemberAccess { object: Box<LValueView>, field_name: Seq<char> },
    Index { array: Box<LValueView>, index: ExprView },
    Dereference(Box<LValueView>),
}

/// The model of a [`Pattern`].
pub enum PatternView {
    Identifier(Seq<char>),
    Mutable(Box<PatternView>, Span),
    Tuple(Seq<PatternView>, Span),
    Struct(PathView, Seq<(Seq<char>, PatternView)>, Span),
}

/// The models of a list of patterns.
pub open spec fn patterns_view(patterns: Seq<Pattern>) -> Seq<PatternView>
    decreases patterns,
{
    if patterns.len() == 0 {
        Seq::empty()
    } else {
        patterns_view(patterns.drop_last()).push(pattern_view(patterns.last()))
    }
}

/// The models of a list of named patterns.
pub open spec fn named_patterns_view(patterns: Seq<(String, Pattern)>) -> Seq<
    (Seq<char>, PatternView),
>
    decreases patterns,
{
    if patterns.len() == 0 {
        Seq::empty()
    } else {
        named_patterns_view(patterns.drop_last()).push(
            (patterns.last().0@, pattern_view(patterns.last().1)),
        )
    }
}

/// The model of one pattern.
pub open spec fn pattern_view(p: Pattern) -> PatternView
    decreases p,
{
    match p {
        Pattern::Identifier(name) => PatternView::Identifier(name@),
        Pattern::Mutable(inner, span) => PatternView::Mutable(Box::new(pattern_view(*inner)), span),
        Pattern::Tuple(patterns, span) => PatternView::Tuple(patterns_view(patterns@), span),
        Pattern::Struct(path, fields, span) => PatternView::Struct(
            path@,
            named_patterns_view(fields@),
            span,
        ),
    }
}

impl View for Pattern {
    type V = PatternView;

    open spec fn view(&self) -> PatternView {
        pattern_view(*self)
    }
}

/// The models of a list of expressions.
pub open spec fn exprs_view(exprs: Seq<Expression>) -> Seq<ExprView>
    decreases exprs,
{
    if exprs.len() == 0 {
        Seq::empty()
    } else {
        exprs_view(exprs.drop_last()).push(expr_view(exprs.last()))
    }
}

/// The models of a list of statements.
pub open spec fn stmts_view(stmts: Seq<Statement>) -> Seq<StmtView>
    decreases stmts,
{
    if stmts.len() == 0 {
        Seq::empty()
    } else {
        stmts_view(stmts.drop_last()).push(stmt_view(stmts.last()))
    }
}

/// The model of one expression.
pub open spec fn expr_view(e: Expression) -> ExprView
    decreases e,
{
    ExprView {
        kind: match e.kind {
            ExpressionKind::Literal(Literal::Array(elements)) => ExprKindView::Literal(
                LiteralView::Array(exprs_view(elements@)),
            ),
            ExpressionKind::Literal(Literal::Bool(b)) => ExprKindView::Literal(LiteralView::Bool(b)),
            ExpressionKind::Literal(Literal::Integer(i)) => ExprKindView::Literal(
                LiteralView::Integer(i),
            ),
            ExpressionKind::Literal(Literal::Str(s)) => ExprKindView::Literal(LiteralView::Str(s@)),
            ExpressionKind::Literal(Literal::FmtStr(s)) => ExprKindView::Literal(
                LiteralView::FmtStr(s@),
            ),
            ExpressionKind::Literal(Literal::Unit) => ExprKindView::Literal(LiteralView::Unit),
            ExpressionKind::Variable(path) => ExprKindView::Variable(path@),
            ExpressionKind::Block(stmts) => ExprKindView::Block(stmts_view(stmts@)),
            ExpressionKind::Operation { form, labels, operands } => ExprKindView::Operation {
                form,
                labels: strings_view(labels@),
                operands: exprs_view(operands@),
            },
            ExpressionKind::Error => ExprKindView::Error,
        },
        span: e.span,
    }
}

/// The model of one assignment target.
pub open spec fn lvalue_view(l: LValue) -> LValueView
    decreases l,
{
    match l {
        LValue::Ident(name) => LValueView::Ident(name@),
        LValue::MemberAccess { object, field_name } => LValueView::MemberAccess {
            object: Box::new(lvalue_view(*object)),
            field_name: field_name@,
        },
        LValue::Index { array, index } => LValueView::Index {
            array: Box::new(lvalue_view(*array)),
            index: expr_view(index),
        },
        LValue::Dereference(inner) => LValueView::Dereference(Box::new(lvalue_view(*inner))),
    }
}

/// The model of one statement.
pub open spec fn stmt_view(s: Statement) -> StmtView
    decreases s,
{
    StmtView {
        kind: match s.kind {
            StatementKind::Let { pattern, typ, expression } => StmtKindView::Let {
                pattern: pattern@,
                typ: typ@,
                expression: expr_view(expression),
            },
            StatementKind::Constrain(e) => StmtKindView::Constrain(expr_view(e)),
            StatementKind::Expression(e) => StmtKindView::Expression(expr_view(e)),
            StatementKind::Assign { lvalue, expression } => StmtKindView::Assign {
                lvalue: lvalue_view(lvalue),
                expression: expr_view(expression),
            },
            StatementKind::For { identifier, range_start, range_end, block } => StmtKindView::For {
                identifier: identifier@,
                range_start: expr_view(range_start),
                range_end: expr_view(range_end),
                block: expr_view(block),
            },
            StatementKind::Semi(e) => StmtKindView::Semi(expr_view(e)),
            StatementKind::Error => StmtKindView::Error,
        },
        span: s.span,
    }
}

impl View for Expression {
    type V = ExprView;

    open spec fn view(&self) -> ExprView {
        expr_view(*self)
    }
}

impl View for Statement {
    type V = StmtView;

    open spec fn view(&self) -> StmtView {
        stmt_view(*self)
    }
}

impl View for LValue {
    type V = LValueView;

    open spec fn view(&self) -> LValueView {
        lvalue_view(*self)
    }
}

/// `patterns_view` keeps the length and maps each position.
pub proof fn lemma_patterns_view(patterns: Seq<Pattern>)
    ensures
        patterns_view(patterns).len() == patterns.len(),
        forall|i: int|
            0 <= i < patterns.len() ==> #[trigger] patterns_view(patterns)[i] == patterns[i]@,
    decreases patterns.len(),
{
    if patterns.len() > 0 {
        lemma_patterns_view(patterns.drop_last());
    }
}

/// `named_patterns_view` keeps the length and maps each position.
pub proof fn lemma_named_patterns_view(patterns: Seq<(String, Pattern)>)
    ensures
        named_patterns_view(patterns).len() == patterns.len(),
        forall|i: int|
            0 <= i < patterns.len() ==> #[trigger] named_patterns_view(patterns)[i] == (
                patterns[i].0@,
                patterns[i].1@,
            ),
    decreases patterns.len(),
{
    if patterns.len() > 0 {
        lemma_named_patterns_view(patterns.drop_last());
    }
}

/// `exprs_view` keeps the length and maps each position.
pub proof fn lemma_exprs_view(exprs: Seq<Expression>)
    ensures
        exprs_view(exprs).len() == exprs.len(),
        forall|i: int| 0 <= i < exprs.len() ==> #[trigger] exprs_view(exprs)[i] == exprs[i]@,
    decreases exprs.len(),
{
    if exprs.len() > 0 {
        lemma_exprs_view(exprs.drop_last());
    }
}

/// `stmts_view` keeps the length and maps each position.
pub proof fn lemma_stmts_view(stmts: Seq<Statement>)
    ensures
        stmts_view(stmts).len() == stmts.len(),
        forall|i: int| 0 <= i < stmts.len() ==> #[trigger] stmts_view(stmts)[i] == stmts[i]@,
    decreases stmts.len(),
{
    if stmts.len() > 0 {
        lemma_stmts_view(stmts.drop_last());
    }
}

/// The model of a list of parameters.
pub open spec fn parameters_view(parameters: Seq<(Pattern, UnresolvedType)>) -> Seq<
    (PatternView, TypeNameView),
> {
    Seq::new(parameters.len(), |i: int| (parameters[i].0@, parameters[i].1@))
}

/// The model of a [`FunctionDefinition`].
pub struct FunctionView {
    pub name: Seq<char>,
    pub generics: Seq<Seq<char>>,
    pub parameters: Seq<(PatternView, TypeNameView)>,
    pub body: Seq<StmtView>,
    pub is_unconstrained: bool,
    pub is_public: bool,
    pub oracle: Option<Seq<char>>,
}

impl View for FunctionDefinition {
    type V = FunctionView;

    open spec fn view(&self) -> FunctionView {
        FunctionView {
            name: self.name@,
            generics: strings_view(self.generics@),
            parameters: parameters_view(self.parameters@),
            body: stmts_view(self.body@),
            is_unconstrained: self.is_unconstrained,
            is_public: self.is_public,
            oracle: match self.oracle {
                Some(name) => Some(name@),
                None => None,
            },
        }
    }
}

/// The model of an [`ItemKind`].
pub enum ItemKindView {
    Function(FunctionView),
    Import { path: PathView, alias: Seq<char> },
    Other,
}

/// The model of an [`Item`].
pub struct ItemView {
    pub kind: ItemKindView,
    pub span: Span,
}

impl View for Item {
    type V = ItemView;

    open spec fn view(&self) -> ItemView {
        ItemView {
            kind: match self.kind {
                ItemKind::Function(f) => ItemKindView::Function(f@),
                ItemKind::Import { path, alias } => ItemKindView::Import { path: path@, alias: alias@ },
                ItemKind::Other => ItemKindView::Other,
            },
            span: self.span,
        }
    }
}

/// The models of the items of a module.
pub open spec fn items_view(items: Seq<Item>) -> Seq<ItemView> {
    Seq::new(items.len(), |i: int| items[i]@)
}

impl View for ParsedModule {
    type V = Seq<ItemView>;

    open spec fn view(&self) -> Seq<ItemView> {
        items_view(self.items@)
    }
}

/// A copy of a list of names.
pub fn clone_strings(names: &Vec<String>) -> (res: Vec<String>)
    ensures
        strings_view(res@) == strings_view(names@),
{
    let mut res: Vec<String> = Vec::new();
    let mut i: usize = 0;
    while i < names.len()
        invariant
            0 <= i <= names.len(),
            res.len() == i,
            forall|k: int| 0 <= k < i ==> #[trigger] res[k]@ == names[k]@,
        decreases names.len() - i,
    {
        res.push(names[i].clone());
        i += 1;
    }
    assert(strings_view(res@) =~= strings_view(names@));
    res
}

impl Clone for Path {
    fn clone(&self) -> (res: Self)
        ensures
            res@ == self@,
    {
        Path { segments: clone_strings(&self.segments), kind: self.kind }
    }
}

impl Clone for UnresolvedType {
    fn clone(&self) -> (res: Self)
        ensures
            res@ == self@,
    {
        match self {
            UnresolvedType::Unspecified => UnresolvedType::Unspecified,
            UnresolvedType::Named(n) => UnresolvedType::Named(n.clone()),
        }
    }
}

fn clone_patterns(patterns: &Vec<Pattern>) -> (res: Vec<Pattern>)
    ensures
        patterns_view(res@) == patterns_view(patterns@),
    decreases patterns,
{
    let mut res: Vec<Pattern> = Vec::new();
    let mut i: usize = 0;
    while i < patterns.len()
        invariant
            0 <= i <= patterns.len(),
            res.len() == i,
            forall|k: int| 0 <= k < i ==> #[trigger] res[k]@ == patterns[k]@,
            forall|k: int| 0 <= k < patterns.len() ==> decreases_to!(patterns => patterns[k]),
        decreases patterns.len() - i,
    {
        res.push(patterns[i].clone());
        i += 1;
    }
    proof {
        lemma_patterns_view(res@);
        lemma_patterns_view(patterns@);
        assert(patterns_view(res@) =~= patterns_view(patterns@));
    }
    res
}

fn clone_named_patterns(patterns: &Vec<(String, Pattern)>) -> (res: Vec<(String, Pattern)>)
    ensures
        named_patterns_view(res@) == named_patterns_view(patterns@),
    decreases patterns,
{
    let mut res: Vec<(String, Pattern)> = Vec::new();
    let mut i: usize = 0;
    while i < patterns.len()
        invariant
            0 <= i <= patterns.len(),
            res.len() == i,
            forall|k: int|
                0 <= k < i ==> (#[trigger] res[k]).0@ == patterns[k].0@ && res[k].1@
                    == patterns[k].1@,
            forall|k: int| 0 <= k < patterns.len() ==> decreases_to!(patterns => patterns[k]),
        decreases patterns.len() - i,
    {
        res.push((patterns[i].0.clone(), patterns[i].1.clone()));
        i += 1;
    }
    proof {
        lemma_named_patterns_view(res@);
        lemma_named_patterns_view(patterns@);
        assert(named_patterns_view(res@) =~= named_patterns_view(patterns@));
    }
    res
}

impl Clone for Pattern {
    fn clone(&self) -> (res: Self)
        ensures
            res@ == self@,
        decreases self,
    {
        match self {
            Pattern::Identifier(name) => Pattern::Identifier(name.clone()),
            Pattern::Mutable(inner, span) => Pattern::Mutable(Box::new((**inner).clone()), *span),
            Pattern::Tuple(patterns, span) => Pattern::Tuple(clone_patterns(patterns), *span),
            Pattern::Struct(path, fields, span) => Pattern::Struct(
                path.clone(),
                clone_named_patterns(fields),
                *span,
            ),
        }
    }
}

/// A copy of a list of expressions.
pub fn clone_exprs(exprs: &Vec<Expression>) -> (res: Vec<Expression>)
    ensures
        exprs_view(res@) == exprs_view(exprs@),
    decreases exprs,
{
    let mut res: Vec<Expression> = Vec::new();
    let mut i: usize = 0;
    while i < exprs.len()
        invariant
            0 <= i <= exprs.len(),
            res.len() == i,
            forall|k: int| 0 <= k < i ==> #[trigger] res[k]@ == exprs[k]@,
            forall|k: int| 0 <= k < exprs.len() ==> decreases_to!(exprs => exprs[k]),
        decreases exprs.len() - i,
    {
        res.push(exprs[i].clone());
        i += 1;
    }
    proof {
        lemma_exprs_view(res@);
        lemma_exprs_view(exprs@);
        assert(exprs_view(res@) =~= exprs_view(exprs@));
    }
    res
}

/// A copy of a list of statements.
pub fn clone_stmts(stmts: &Vec<Statement>) -> (res: Vec<Statement>)
    ensures
        stmts_view(res@) == stmts_view(stmts@),
    decreases stmts,
{
    let mut res: Vec<Statement> = Vec::new();
    let mut i: usize = 0;
    while i < stmts.len()
        invariant
            0 <= i <= stmts.len(),
            res.len() == i,
            forall|k: int| 0 <= k < i ==> #[trigger] res[k]@ == stmts[k]@,
            forall|k: int| 0 <= k < stmts.len() ==> decreases_to!(stmts => stmts[k]),
        decreases stmts.len() - i,
    {
        res.push(stmts[i].clone());
        i += 1;
    }
    proof {
        lemma_stmts_view(res@);
        lemma_stmts_view(stmts@);
        assert(stmts_view(res@) =~= stmts_view(stmts@));
    }
    res
}

impl Clone for Expression {
    fn clone(&self) -> (res: Self)
        ensures
            res@ == self@,
        decreases self,
    {
        let kind = match &self.kind {
            ExpressionKind::Literal(Literal::Array(elements)) => ExpressionKind::Literal(
                Literal::Array(clone_exprs(elements)),
            ),
            ExpressionKind::Literal(Literal::Bool(b)) => ExpressionKind::Literal(Literal::Bool(*b)),
            ExpressionKind::Literal(Literal::Integer(i)) => ExpressionKind::Literal(
                Literal::Integer(*i),
            ),
            ExpressionKind::Literal(Literal::Str(s)) => ExpressionKind::Literal(
                Literal::Str(s.clone()),
            ),
            ExpressionKind::Literal(Literal::FmtStr(s)) => ExpressionKind::Literal(
                Literal::FmtStr(s.clone()),
            ),
            ExpressionKind::Literal(Literal::Unit) => ExpressionKind::Literal(Literal::Unit),
            ExpressionKind::Variable(path) => ExpressionKind::Variable(path.clone()),
            ExpressionKind::Block(stmts) => ExpressionKind::Block(clone_stmts(stmts)),
            ExpressionKind::Operation { form, labels, operands } => ExpressionKind::Operation {
                form: *form,
                labels: clone_strings(labels),
                operands: clone_exprs(operands),
            },
            ExpressionKind::Error => ExpressionKind::Error,
        };
        Expression { kind, span: self.span }
    }
}

impl Clone for LValue {
    fn clone(&self) -> (res: Self)
        ensures
            res@ == self@,
        decreases self,
    {
        match self {
            LValue::Ident(name) => LValue::Ident(name.clone()),
            LValue::MemberAccess { object, field_name } => LValue::MemberAccess {
                object: Box::new((**object).clone()),
                field_name: field_name.clone(),
            },
            LValue::Index { array, index } => LValue::Index {
                array: Box::new((**array).clone()),
                index: index.clone(),
            },
            LValue::Dereference(inner) => LValue::Dereference(Box::new((**inner).clone())),
        }
    }
}

impl Clone for Statement {
    fn clone(&self) -> (res: Self)
        ensures
            res@ == self@,
        decreases self,
    {
        let kind = match &self.kind {
            StatementKind::Let { pattern, typ, expression } => StatementKind::Let {
                pattern: pattern.clone(),
                typ: typ.clone(),
                expression: expression.clone(),
            },
            StatementKind::Constrain(e) => StatementKind::Constrain(e.clone()),
            StatementKind::Expression(e) => StatementKind::Expression(e.clone()),
            StatementKind::Assign { lvalue, expression } => StatementKind::Assign {
                lvalue: lvalue.clone(),
                expression: expression.clone(),
            },
            StatementKind::For { identifier, range_start, range_end, block } => StatementKind::For {
                identifier: identifier.clone(),
                range_start: range_start.clone(),
                range_end: range_end.clone(),
                block: block.clone(),
            },
            StatementKind::Semi(e) => StatementKind::Semi(e.clone()),
            StatementKind::Error => StatementKind::Error,
        };
        Statement { kind, span: self.span }
    }
}

} // verus!
