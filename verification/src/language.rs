//! Tokens and syntax trees of the language, with their mathematical models.
//!
//! Every executable tree type has a model type built from `Seq` in place of
//! `Vec` and `String`; the view `@` of a tree is its model, source spans
//! included. Contracts throughout the crate are stated over the models.

use vstd::prelude::*;
use std::rc::Rc;
use crate::text::{names_view, int_text, i32_to_string};

verus! {

/// A range of character offsets in the source text, from `start` up to `end`.
#[derive(Clone, Copy, Debug, PartialEq, Eq, Structural)]
pub struct Span {
    pub start: usize,
    pub end: usize,
}

/// A value together with the source span it was read from.
#[derive(Debug, Clone, PartialEq)]
pub struct WithSpan<T> {
    pub span: Span,
    pub content: T,
}

impl<T> WithSpan<T> {
    pub fn new(span: Span, content: T) -> (r: Self)
        ensures
            r.span == span,
            r.content == content,
    {
        Self { span, content }
    }
}

impl<T: View> View for WithSpan<T> {
    type V = WithSpan<T::V>;

    open spec fn view(&self) -> WithSpan<T::V> {
        WithSpan { span: self.span, content: self.content@ }
    }
}

pub type Spanned<T> = Rc<WithSpan<T>>;

pub type SpanType = Spanned<Type>;

pub type SpanPattern = Spanned<Pattern>;

pub type SpanTerm = Spanned<Term>;

pub type SpanBind = Spanned<Bind>;

pub type SpanCommand = Spanned<Command>;

pub type Program = Vec<DecoratedCommand>;

/// `Rc::clone`: another pointer to the same allocation, so the same value.
#[verifier::external_body]
pub(crate) fn share<T>(rc: &Rc<T>) -> (r: Rc<T>)
    ensures
        r == *rc,
{
    Rc::clone(rc)
}

/// A fresh node holding `content` at `span`.
pub fn spanned<T>(span: Span, content: T) -> (r: Spanned<T>)
    ensures
        r.span == span,
        r.content == content,
{
    Rc::new(WithSpan { span, content })
}

// ---------------------------------------------------------------------------
// Tokens
// ---------------------------------------------------------------------------

#[derive(Debug, PartialEq)]
pub enum Token {
    Id(String),
    Cons(String),
    Var(String),
    IntVal(i32),
    BoolVal(bool),
    UnitVal,
    Parens(Vec<(Token, Span)>),
    Let,
    In,
    Fun,
    If,
    Then,
    Else,
    Of,
    Eval,
    Eq,
    Plus,
    Times,
    Dot,
    Int,
    Bool,
    Unit,
    Dash,
    Slash,
    EqEq,
    Lq,
    Leq,
    Gq,
    Geq,
    And,
    Or,
    Not,
    Arrow,
    Comma,
    Wildcard,
    As,
    Rec,
    Vbar,
    Match,
    With,
    Function,
    Type,
    Val,
    Colon,
    Deco,
}

pub enum TokenModel {
    Id(Seq<char>),
    Cons(Seq<char>),
    Var(Seq<char>),
    IntVal(i32),
    BoolVal(bool),
    UnitVal,
    Parens(Seq<(TokenModel, Span)>),
    Let,
    In,
    Fun,
    If,
    Then,
    Else,
    Of,
    Eval,
    Eq,
    Plus,
    Times,
    Dot,
    Int,
    Bool,
    Unit,
    Dash,
    Slash,
    EqEq,
    Lq,
    Leq,
    Gq,
    Geq,
    And,
    Or,
    Not,
    Arrow,
    Comma,
    Wildcard,
    As,
    Rec,
    Vbar,
    Match,
    With,
    Function,
    Type,
    Val,
    Colon,
    Deco,
}

pub type TokenSeq = Seq<(TokenModel, Span)>;

pub open spec fn token_model(t: Token) -> TokenModel
    decreases t,
{
    match t {
        Token::Id(s) => TokenModel::Id(s@),
        Token::Cons(s) => TokenModel::Cons(s@),
        Token::Var(s) => TokenModel::Var(s@),
        Token::IntVal(i) => TokenModel::IntVal(i),
        Token::BoolVal(b) => TokenModel::BoolVal(b),
        Token::UnitVal => TokenModel::UnitVal,
        Token::Parens(ts) => TokenModel::Parens(
            Seq::new(
                ts@.len(),
                |i: int|
                    if 0 <= i < ts@.len() {
                        (token_model(ts@[i].0), ts@[i].1)
                    } else {
                        arbitrary()
                    },
            ),
        ),
        Token::Let => TokenModel::Let,
        Token::In => TokenModel::In,
        Token::Fun => TokenModel::Fun,
        Token::If => TokenModel::If,
        Token::Then => TokenModel::Then,
        Token::Else => TokenModel::Else,
        Token::Of => TokenModel::Of,
        Token::Eval => TokenModel::Eval,
        Token::Eq => TokenModel::Eq,
        Token::Plus => TokenModel::Plus,
        Token::Times => TokenModel::Times,
        Token::Dot => TokenModel::Dot,
        Token::Int => TokenModel::Int,
        Token::Bool => TokenModel::Bool,
        Token::Unit => TokenModel::Unit,
        Token::Dash => TokenModel::Dash,
        Token::Slash => TokenModel::Slash,
        Token::EqEq => TokenModel::EqEq,
        Token::Lq => TokenModel::Lq,
        Token::Leq => TokenModel::Leq,
        Token::Gq => TokenModel::Gq,
        Token::Geq => TokenModel::Geq,
        Token::And => TokenModel::And,
        Token::Or => TokenModel::Or,
        Token::Not => TokenModel::Not,
        Token::Arrow => TokenModel::Arrow,
        Token::Comma => TokenModel::Comma,
        Token::Wildcard => TokenModel::Wildcard,
        Token::As => TokenModel::As,
        Token::Rec => TokenModel::Rec,
        Token::Vbar => TokenModel::Vbar,
        Token::Match => TokenModel::Match,
        Token::With => TokenModel::With,
        Token::Function => TokenModel::Function,
        Token::Type => TokenModel::Type,
        Token::Val => TokenModel::Val,
        Token::Colon => TokenModel::Colon,
        Token::Deco => TokenModel::Deco,
    }
}

impl View for Token {
    type V = TokenModel;

    open spec fn view(&self) -> TokenModel {
        token_model(*self)
    }
}

/// The model of a token sequence.
pub open spec fn tokens_view(ts: Seq<(Token, Span)>) -> TokenSeq {
    Seq::new(ts.len(), |i: int| (ts[i].0@, ts[i].1))
}

/// The text a token is displayed as. A parenthesised group shows as `(...)`.
pub open spec fn token_text(t: TokenModel) -> Seq<char> {
    match t {
        TokenModel::Id(x) => x,
        TokenModel::Cons(x) => x,
        TokenModel::Var(x) => x,
        TokenModel::IntVal(i) => int_text(i as int),
        TokenModel::BoolVal(b) => if b {
            "true"@
        } else {
            "false"@
        },
        TokenModel::UnitVal => "()"@,
        TokenModel::Parens(_) => "(...)"@,
        TokenModel::Let => "let"@,
        TokenModel::In => "in"@,
        TokenModel::Fun => "fun"@,
        TokenModel::If => "if"@,
        TokenModel::Then => "then"@,
        TokenModel::Else => "else"@,
        TokenModel::Of => "of"@,
        TokenModel::Eval => "eval"@,
        TokenModel::Eq => "="@,
        TokenModel::Plus => "+"@,
        TokenModel::Times => "*"@,
        TokenModel::Dot => "."@,
        TokenModel::Int => "int"@,
        TokenModel::Bool => "bool"@,
        TokenModel::Unit => "unit"@,
        TokenModel::Dash => "-"@,
        TokenModel::Slash => "/"@,
        TokenModel::EqEq => "=="@,
        TokenModel::Lq => "<"@,
        TokenModel::Leq => "<="@,
        TokenModel::Gq => ">"@,
        TokenModel::Geq => ">="@,
        TokenModel::And => "&&"@,
        TokenModel::Or => "||"@,
        TokenModel::Not => "not"@,
        TokenModel::Arrow => "->"@,
        TokenModel::Comma => ","@,
        TokenModel::Wildcard => "_"@,
        TokenModel::As => "as"@,
        TokenModel::Rec => "rec"@,
        TokenModel::Vbar => "|"@,
        TokenModel::Match => "match"@,
        TokenModel::With => "with"@,
        TokenModel::Function => "function"@,
        TokenModel::Type => "type"@,
        TokenModel::Val => "val"@,
        TokenModel::Colon => ":"@,
        TokenModel::Deco => "@"@,
    }
}

impl Clone for Token {
    #[verifier::loop_isolation(false)]
    fn clone(&self) -> (r: Self)
        ensures
            r@ == self@,
        decreases self,
    {
        match self {
            Token::Id(s) => Token::Id(s.clone()),
            Token::Cons(s) => Token::Cons(s.clone()),
            Token::Var(s) => Token::Var(s.clone()),
            Token::IntVal(i) => Token::IntVal(*i),
            Token::BoolVal(b) => Token::BoolVal(*b),
            Token::UnitVal => Token::UnitVal,
            Token::Parens(ts) => {
                let mut out: Vec<(Token, Span)> = Vec::new();
                let mut i: usize = 0;
                while i < ts.len()
                    invariant
                        i <= ts@.len(),
                        out@.len() == i,
                        forall|j: int| 0 <= j < i ==> (#[trigger] out@[j]).0@ == ts@[j].0@ && out@[j].1
                            == ts@[j].1,
                    decreases ts@.len() - i,
                {
                    out.push((ts[i].0.clone(), ts[i].1));
                    i = i + 1;
                }
                let r = Token::Parens(out);
                proof {
                    lemma_token_view(&r);
                    lemma_token_view(self);
                    assert(tokens_view(out@) =~= tokens_view(ts@));
                }
                r
            },
            Token::Let => Token::Let,
            Token::In => Token::In,
            Token::Fun => Token::Fun,
            Token::If => Token::If,
            Token::Then => Token::Then,
            Token::Else => Token::Else,
            Token::Of => Token::Of,
            Token::Eval => Token::Eval,
            Token::Eq => Token::Eq,
            Token::Plus => Token::Plus,
            Token::Times => Token::Times,
            Token::Dot => Token::Dot,
            Token::Int => Token::Int,
            Token::Bool => Token::Bool,
            Token::Unit => Token::Unit,
            Token::Dash => Token::Dash,
            Token::Slash => Token::Slash,
            Token::EqEq => Token::EqEq,
            Token::Lq => Token::Lq,
            Token::Leq => Token::Leq,
            Token::Gq => Token::Gq,
            Token::Geq => Token::Geq,
            Token::And => Token::And,
            Token::Or => Token::Or,
            Token::Not => Token::Not,
            Token::Arrow => Token::Arrow,
            Token::Comma => Token::Comma,
            Token::Wildcard => Token::Wildcard,
            Token::As => Token::As,
            Token::Rec => Token::Rec,
            Token::Vbar => Token::Vbar,
            Token::Match => Token::Match,
            Token::With => Token::With,
            Token::Function => Token::Function,
            Token::Type => Token::Type,
            Token::Val => Token::Val,
            Token::Colon => Token::Colon,
            Token::Deco => Token::Deco,
        }
    }
}

impl Token {
    /// The text this token is displayed as.
    pub fn to_string(&self) -> (s: String)
        ensures
            s@ == token_text(self@),
    {
        match self {
            Token::Id(x) => x.clone(),
            Token::Cons(x) => x.clone(),
            Token::Var(x) => x.clone(),
            Token::IntVal(i) => i32_to_string(*i),
            Token::BoolVal(b) => if *b {
                String::from_str("true")
            } else {
                String::from_str("false")
            },
            Token::UnitVal => String::from_str("()"),
            Token::Parens(_) => String::from_str("(...)"),
            Token::Let => String::from_str("let"),
            Token::In => String::from_str("in"),
            Token::Fun => String::from_str("fun"),
            Token::If => String::from_str("if"),
            Token::Then => String::from_str("then"),
            Token::Else => String::from_str("else"),
            Token::Of => String::from_str("of"),
            Token::Eval => String::from_str("eval"),
            Token::Eq => String::from_str("="),
            Token::Plus => String::from_str("+"),
            Token::Times => String::from_str("*"),
            Token::Dot => String::from_str("."),
            Token::Int => String::from_str("int"),
            Token::Bool => String::from_str("bool"),
            Token::Unit => String::from_str("unit"),
            Token::Dash => String::from_str("-"),
            Token::Slash => String::from_str("/"),
            Token::EqEq => String::from_str("=="),
            Token::Lq => String::from_str("<"),
            Token::Leq => String::from_str("<="),
            Token::Gq => String::from_str(">"),
            Token::Geq => String::from_str(">="),
            Token::And => String::from_str("&&"),
            Token::Or => String::from_str("||"),
            Token::Not => String::from_str("not"),
            Token::Arrow => String::from_str("->"),
            Token::Comma => String::from_str(","),
            Token::Wildcard => String::from_str("_"),
            Token::As => String::from_str("as"),
            Token::Rec => String::from_str("rec"),
            Token::Vbar => String::from_str("|"),
            Token::Match => String::from_str("match"),
            Token::With => String::from_str("with"),
            Token::Function => String::from_str("function"),
            Token::Type => String::from_str("type"),
            Token::Val => String::from_str("val"),
            Token::Colon => String::from_str(":"),
            Token::Deco => String::from_str("@"),
        }
    }
}

// ---------------------------------------------------------------------------
// Types
// ---------------------------------------------------------------------------

#[derive(Debug, Clone, PartialEq)]
pub enum Type {
    Var(String),
    Unit,
    Bool,
    Int,
    Poly { vars: Vec<String>, body: SpanType },
    Tuple(Vec<SpanType>),
    Arr(SpanType, SpanType),
    Ind { name: String, params: Vec<SpanType> },
}

pub enum TypeModel {
    Var(Seq<char>),
    Unit,
    Bool,
    Int,
    Poly { vars: Seq<Seq<char>>, body: Box<WithSpan<TypeModel>> },
    Tuple(Seq<WithSpan<TypeModel>>),
    Arr(Box<WithSpan<TypeModel>>, Box<WithSpan<TypeModel>>),
    Ind { name: Seq<char>, params: Seq<WithSpan<TypeModel>> },
}

pub type SType = WithSpan<TypeModel>;

pub open spec fn type_model(t: Type) -> TypeModel
    decreases t,
{
    match t {
        Type::Var(n) => TypeModel::Var(n@),
        Type::Unit => TypeModel::Unit,
        Type::Bool => TypeModel::Bool,
        Type::Int => TypeModel::Int,
        Type::Poly { vars, body } => TypeModel::Poly {
            vars: names_view(vars@),
            body: Box::new(WithSpan { span: body.span, content: type_model(body.content) }),
        },
        Type::Tuple(ts) => TypeModel::Tuple(
            Seq::new(
                ts@.len(),
                |i: int|
                    if 0 <= i < ts@.len() {
                        WithSpan { span: ts@[i].span, content: type_model(ts@[i].content) }
                    } else {
                        arbitrary()
                    },
            ),
        ),
        Type::Arr(a, b) => TypeModel::Arr(
            Box::new(WithSpan { span: a.span, content: type_model(a.content) }),
            Box::new(WithSpan { span: b.span, content: type_model(b.content) }),
        ),
        Type::Ind { name, params } => TypeModel::Ind {
            name: name@,
            params: Seq::new(
                params@.len(),
                |i: int|
                    if 0 <= i < params@.len() {
                        WithSpan { span: params@[i].span, content: type_model(params@[i].content) }
                    } else {
                        arbitrary()
                    },
            ),
        },
    }
}

impl View for Type {
    type V = TypeModel;

    open spec fn view(&self) -> TypeModel {
        type_model(*self)
    }
}

/// The models of a list of nodes.
pub open spec fn nodes_view<T: View>(s: Seq<Spanned<T>>) -> Seq<WithSpan<T::V>> {
    Seq::new(s.len(), |i: int| s[i]@)
}

// ---------------------------------------------------------------------------
// Patterns
// ---------------------------------------------------------------------------

#[derive(Debug, Clone, PartialEq)]
pub enum Pattern {
    Wildcard,
    Var(Option<SpanPattern>, String),
    Tuple(Vec<SpanPattern>),
    Cons(String, Option<SpanPattern>),
}

pub enum PatternModel {
    Wildcard,
    Var(Option<Box<WithSpan<PatternModel>>>, Seq<char>),
    Tuple(Seq<WithSpan<PatternModel>>),
    Cons(Seq<char>, Option<Box<WithSpan<PatternModel>>>),
}

pub type SPattern = WithSpan<PatternModel>;

pub open spec fn pattern_model(p: Pattern) -> PatternModel
    decreases p,
{
    match p {
        Pattern::Wildcard => PatternModel::Wildcard,
        Pattern::Var(inner, name) => PatternModel::Var(
            match inner {
                Some(q) => Some(
                    Box::new(WithSpan { span: q.span, content: pattern_model(q.content) }),
                ),
                None => None,
            },
            name@,
        ),
        Pattern::Tuple(ps) => PatternModel::Tuple(
            Seq::new(
                ps@.len(),
                |i: int|
                    if 0 <= i < ps@.len() {
                        WithSpan { span: ps@[i].span, content: pattern_model(ps@[i].content) }
                    } else {
                        arbitrary()
                    },
            ),
        ),
        Pattern::Cons(name, inner) => PatternModel::Cons(
            name@,
            match inner {
                Some(q) => Some(
                    Box::new(WithSpan { span: q.span, content: pattern_model(q.content) }),
                ),
                None => None,
            },
        ),
    }
}

impl View for Pattern {
    type V = PatternModel;

    open spec fn view(&self) -> PatternModel {
        pattern_model(*self)
    }
}

// ---------------------------------------------------------------------------
// Terms and bindings
// ---------------------------------------------------------------------------

#[derive(Debug, Clone, PartialEq)]
pub enum Term {
    Int(i32),
    Bool(bool),
    Unit,
    If(SpanTerm, SpanTerm, SpanTerm),
    Var(String),
    PrimOp { op: String, params: Vec<SpanTerm> },
    App(SpanTerm, SpanTerm),
    Func { params: Vec<String>, body: SpanTerm },
    Tuple(Vec<SpanTerm>),
    Match { def: SpanTerm, cases: Vec<(SpanPattern, SpanTerm)> },
    Cons { cons: String, body: SpanTerm },
    Let { bind: SpanBind, body: SpanTerm },
    /// A constructor name standing as a value; surface form only.
    NativeCons(String),
}

#[derive(Debug, Clone, PartialEq)]
pub enum BindTerm {
    NormalBind(SpanTerm),
    FuncBind(Vec<(SpanPattern, SpanTerm)>),
}

#[derive(Debug, Clone, PartialEq)]
pub struct Bind {
    pub bind: BindTerm,
    pub name: String,
    pub params: Vec<String>,
    pub is_rec: bool,
}

pub enum TermModel {
    Int(i32),
    Bool(bool),
    Unit,
    If(Box<WithSpan<TermModel>>, Box<WithSpan<TermModel>>, Box<WithSpan<TermModel>>),
    Var(Seq<char>),
    PrimOp { op: Seq<char>, params: Seq<WithSpan<TermModel>> },
    App(Box<WithSpan<TermModel>>, Box<WithSpan<TermModel>>),
    Func { params: Seq<Seq<char>>, body: Box<WithSpan<TermModel>> },
    Tuple(Seq<WithSpan<TermModel>>),
    Match { def: Box<WithSpan<TermModel>>, cases: Seq<(SPattern, WithSpan<TermModel>)> },
    Cons { cons: Seq<char>, body: Box<WithSpan<TermModel>> },
    Let { bind: Box<WithSpan<BindModel>>, body: Box<WithSpan<TermModel>> },
    NativeCons(Seq<char>),
}

pub enum BindTermModel {
    NormalBind(WithSpan<TermModel>),
    FuncBind(Seq<(SPattern, WithSpan<TermModel>)>),
}

pub struct BindModel {
    pub bind: BindTermModel,
    pub name: Seq<char>,
    pub params: Seq<Seq<char>>,
    pub is_rec: bool,
}

pub type STerm = WithSpan<TermModel>;

pub type SBind = WithSpan<BindModel>;

pub type CaseSeq = Seq<(SPattern, STerm)>;

pub open spec fn term_model(t: Term) -> TermModel
    decreases t,
{
    match t {
        Term::Int(i) => TermModel::Int(i),
        Term::Bool(b) => TermModel::Bool(b),
        Term::Unit => TermModel::Unit,
        Term::If(c, a, b) => TermModel::If(
            Box::new(WithSpan { span: c.span, content: term_model(c.content) }),
            Box::new(WithSpan { span: a.span, content: term_model(a.content) }),
            Box::new(WithSpan { span: b.span, content: term_model(b.content) }),
        ),
        Term::Var(n) => TermModel::Var(n@),
        Term::PrimOp { op, params } => TermModel::PrimOp {
            op: op@,
            params: Seq::new(
                params@.len(),
                |i: int|
                    if 0 <= i < params@.len() {
                        WithSpan { span: params@[i].span, content: term_model(params@[i].content) }
                    } else {
                        arbitrary()
                    },
            ),
        },
        Term::App(f, x) => TermModel::App(
            Box::new(WithSpan { span: f.span, content: term_model(f.content) }),
            Box::new(WithSpan { span: x.span, content: term_model(x.content) }),
        ),
        Term::Func { params, body } => TermModel::Func {
            params: names_view(params@),
            body: Box::new(WithSpan { span: body.span, content: term_model(body.content) }),
        },
        Term::Tuple(ts) => TermModel::Tuple(
            Seq::new(
                ts@.len(),
                |i: int|
                    if 0 <= i < ts@.len() {
                        WithSpan { span: ts@[i].span, content: term_model(ts@[i].content) }
                    } else {
                        arbitrary()
                    },
            ),
        ),
        Term::Match { def, cases } => TermModel::Match {
            def: Box::new(WithSpan { span: def.span, content: term_model(def.content) }),
            cases: Seq::new(
                cases@.len(),
                |i: int|
                    if 0 <= i < cases@.len() {
                        (
                            cases@[i].0@,
                            WithSpan {
                                span: cases@[i].1.span,
                                content: term_model(cases@[i].1.content),
                            },
                        )
                    } else {
                        arbitrary()
                    },
            ),
        },
        Term::Cons { cons, body } => TermModel::Cons {
            cons: cons@,
            body: Box::new(WithSpan { span: body.span, content: term_model(body.content) }),
        },
        Term::Let { bind, body } => TermModel::Let {
            bind: Box::new(WithSpan { span: bind.span, content: bind_model(bind.content) }),
            body: Box::new(WithSpan { span: body.span, content: term_model(body.content) }),
        },
        Term::NativeCons(n) => TermModel::NativeCons(n@),
    }
}

pub open spec fn bind_model(b: Bind) -> BindModel
    decreases b,
{
    BindModel {
        bind: match b.bind {
            BindTerm::NormalBind(t) => BindTermModel::NormalBind(
                WithSpan { span: t.span, content: term_model(t.content) },
            ),
            BindTerm::FuncBind(cases) => BindTermModel::FuncBind(
                Seq::new(
                    cases@.len(),
                    |i: int|
                        if 0 <= i < cases@.len() {
                            (
                                cases@[i].0@,
                                WithSpan {
                                    span: cases@[i].1.span,
                                    content: term_model(cases@[i].1.content),
                                },
                            )
                        } else {
                            arbitrary()
                        },
                ),
            ),
        },
        name: b.name@,
        params: names_view(b.params@),
        is_rec: b.is_rec,
    }
}

impl View for Term {
    type V = TermModel;

    open spec fn view(&self) -> TermModel {
        term_model(*self)
    }
}

impl View for Bind {
    type V = BindModel;

    open spec fn view(&self) -> BindModel {
        bind_model(*self)
    }
}

impl View for BindTerm {
    type V = BindTermModel;

    open spec fn view(&self) -> BindTermModel {
        match self {
            BindTerm::NormalBind(t) => BindTermModel::NormalBind(t@),
            BindTerm::FuncBind(cases) => BindTermModel::FuncBind(cases_view(cases@)),
        }
    }
}

/// The models of a list of match cases.
pub open spec fn cases_view(cases: Seq<(SpanPattern, SpanTerm)>) -> CaseSeq {
    Seq::new(cases.len(), |i: int| (cases[i].0@, cases[i].1@))
}

impl Bind {
    /// The same binding head around another body.
    pub fn clone_with_new_bind(&self, bind: BindTerm) -> (r: Self)
        ensures
            r@ == (BindModel { bind: bind@, ..self@ }),
    {
        let r = Self {
            bind,
            name: self.name.clone(),
            params: crate::text::clone_names(&self.params),
            is_rec: self.is_rec,
        };
        proof {
            lemma_bind_view(&r);
            lemma_bind_view(self);
        }
        r
    }
}

// ---------------------------------------------------------------------------
// Commands
// ---------------------------------------------------------------------------

#[derive(Debug, Clone, PartialEq)]
pub enum ConfigVal {
    Int(i32),
    Bool(bool),
    String(String),
}

pub enum ConfigValModel {
    Int(i32),
    Bool(bool),
    String(Seq<char>),
}

impl View for ConfigVal {
    type V = ConfigValModel;

    open spec fn view(&self) -> ConfigValModel {
        match self {
            ConfigVal::Int(i) => ConfigValModel::Int(*i),
            ConfigVal::Bool(b) => ConfigValModel::Bool(*b),
            ConfigVal::String(s) => ConfigValModel::String(s@),
        }
    }
}

#[derive(Debug, Clone, PartialEq)]
pub enum Command {
    Config { name: String, val: ConfigVal },
    TypeDef { name: String, cons_list: Vec<(String, SpanType)>, arity: usize },
    TypeAlias { name: String, def: SpanType },
    TermEval(SpanTerm),
    TypeDeclare { name: String, ty: SpanType },
    TermDef(SpanBind),
}

pub enum CommandModel {
    Config { name: Seq<char>, val: ConfigValModel },
    TypeDef { name: Seq<char>, cons_list: Seq<(Seq<char>, SType)>, arity: usize },
    TypeAlias { name: Seq<char>, def: SType },
    TermEval(STerm),
    TypeDeclare { name: Seq<char>, ty: SType },
    TermDef(SBind),
}

pub type SCommand = WithSpan<CommandModel>;

/// The models of a list of constructor declarations.
pub open spec fn cons_list_view(cons_list: Seq<(String, SpanType)>) -> Seq<(Seq<char>, SType)> {
    Seq::new(cons_list.len(), |i: int| (cons_list[i].0@, cons_list[i].1@))
}

impl View for Command {
    type V = CommandModel;

    open spec fn view(&self) -> CommandModel {
        match self {
            Command::Config { name, val } => CommandModel::Config { name: name@, val: val@ },
            Command::TypeDef { name, cons_list, arity } => CommandModel::TypeDef {
                name: name@,
                cons_list: cons_list_view(cons_list@),
                arity: *arity,
            },
            Command::TypeAlias { name, def } => CommandModel::TypeAlias { name: name@, def: def@ },
            Command::TermEval(t) => CommandModel::TermEval(t@),
            Command::TypeDeclare { name, ty } => CommandModel::TypeDeclare { name: name@, ty: ty@ },
            Command::TermDef(b) => CommandModel::TermDef(b@),
        }
    }
}

#[derive(Debug, Clone, PartialEq)]
pub struct DecoratedCommand {
    pub command: SpanCommand,
    pub decos: Vec<String>,
}

pub struct DecoratedCommandModel {
    pub command: SCommand,
    pub decos: Seq<Seq<char>>,
}

impl View for DecoratedCommand {
    type V = DecoratedCommandModel;

    open spec fn view(&self) -> DecoratedCommandModel {
        DecoratedCommandModel { command: self.command@, decos: names_view(self.decos@) }
    }
}

pub type ProgramModel = Seq<DecoratedCommandModel>;

/// The model of a program.
pub open spec fn program_view(p: Seq<DecoratedCommand>) -> ProgramModel {
    Seq::new(p.len(), |i: int| p[i]@)
}

// ---------------------------------------------------------------------------
// Views of nodes, unfolded one level
// ---------------------------------------------------------------------------

/// The view of a type, written over the views of its children.
pub proof fn lemma_type_view(t: &Type)
    ensures
        t@ == match *t {
            Type::Var(n) => TypeModel::Var(n@),
            Type::Unit => TypeModel::Unit,
            Type::Bool => TypeModel::Bool,
            Type::Int => TypeModel::Int,
            Type::Poly { vars, body } => TypeModel::Poly {
                vars: names_view(vars@),
                body: Box::new(body@),
            },
            Type::Tuple(ts) => TypeModel::Tuple(nodes_view(ts@)),
            Type::Arr(a, b) => TypeModel::Arr(Box::new(a@), Box::new(b@)),
            Type::Ind { name, params } => TypeModel::Ind {
                name: name@,
                params: nodes_view(params@),
            },
        },
{
    match *t {
        Type::Tuple(ts) => {
            assert(t@->Tuple_0 =~= nodes_view(ts@));
        },
        Type::Ind { name, params } => {
            assert(t@->Ind_params =~= nodes_view(params@));
        },
        _ => {},
    }
}

/// The view of a pattern, written over the views of its children.
pub proof fn lemma_pattern_view(p: &Pattern)
    ensures
        p@ == match *p {
            Pattern::Wildcard => PatternModel::Wildcard,
            Pattern::Var(inner, name) => PatternModel::Var(
                match inner {
                    Some(q) => Some(Box::new(q@)),
                    None => None,
                },
                name@,
            ),
            Pattern::Tuple(ps) => PatternModel::Tuple(nodes_view(ps@)),
            Pattern::Cons(name, inner) => PatternModel::Cons(
                name@,
                match inner {
                    Some(q) => Some(Box::new(q@)),
                    None => None,
                },
            ),
        },
{
    match *p {
        Pattern::Tuple(ps) => {
            assert(p@->Tuple_0 =~= nodes_view(ps@));
        },
        _ => {},
    }
}

/// The view of a term, written over the views of its children.
pub proof fn lemma_term_view(t: &Term)
    ensures
        t@ == match *t {
            Term::Int(i) => TermModel::Int(i),
            Term::Bool(b) => TermModel::Bool(b),
            Term::Unit => TermModel::Unit,
            Term::If(c, a, b) => TermModel::If(Box::new(c@), Box::new(a@), Box::new(b@)),
            Term::Var(n) => TermModel::Var(n@),
            Term::PrimOp { op, params } => TermModel::PrimOp {
                op: op@,
                params: nodes_view(params@),
            },
            Term::App(f, x) => TermModel::App(Box::new(f@), Box::new(x@)),
            Term::Func { params, body } => TermModel::Func {
                params: names_view(params@),
                body: Box::new(body@),
            },
            Term::Tuple(ts) => TermModel::Tuple(nodes_view(ts@)),
            Term::Match { def, cases } => TermModel::Match {
                def: Box::new(def@),
                cases: cases_view(cases@),
            },
            Term::Cons { cons, body } => TermModel::Cons { cons: cons@, body: Box::new(body@) },
            Term::Let { bind, body } => TermModel::Let { bind: Box::new(bind@), body: Box::new(body@) },
            Term::NativeCons(n) => TermModel::NativeCons(n@),
        },
{
    match *t {
        Term::PrimOp { op, params } => {
            assert(t@->PrimOp_params =~= nodes_view(params@));
        },
        Term::Tuple(ts) => {
            assert(t@->Tuple_0 =~= nodes_view(ts@));
        },
        Term::Match { def, cases } => {
            assert(t@->Match_cases =~= cases_view(cases@));
        },
        _ => {},
    }
}

/// The view of a binding, written over the views of its parts.
pub proof fn lemma_bind_view(b: &Bind)
    ensures
        b@ == (BindModel {
            bind: b.bind@,
            name: b.name@,
            params: names_view(b.params@),
            is_rec: b.is_rec,
        }),
{
    match b.bind {
        BindTerm::FuncBind(cases) => {
            assert(b@.bind->FuncBind_0 =~= cases_view(cases@));
        },
        _ => {},
    }
}

/// The view of a token, written over the views of its children.
pub proof fn lemma_token_view(t: &Token)
    ensures
        *t matches Token::Parens(ts) ==> t@ == TokenModel::Parens(tokens_view(ts@)),
{
    match *t {
        Token::Parens(ts) => {
            assert(t@->Parens_0 =~= tokens_view(ts@));
        },
        _ => {},
    }
}

// ---------------------------------------------------------------------------
// Contexts
// ---------------------------------------------------------------------------

/// A chain of named entries, the most recent first.
pub enum ContextEntry<T> {
    Empty,
    Bind { name: String, info: T, next: Rc<ContextEntry<T>> },
}

pub type Context<T> = Rc<ContextEntry<T>>;

impl<T> Default for ContextEntry<T> {
    fn default() -> (r: Self)
        ensures
            r is Empty,
    {
        ContextEntry::Empty
    }
}

/// The entries of a context, the most recent first.
pub open spec fn context_entries<T>(c: ContextEntry<T>) -> Seq<(Seq<char>, T)>
    decreases c,
{
    match c {
        ContextEntry::Empty => Seq::empty(),
        ContextEntry::Bind { name, info, next } => seq![(name@, info)] + context_entries(*next),
    }
}

/// The entries of a shared context, the most recent first.
pub open spec fn entries<T>(c: &Context<T>) -> Seq<(Seq<char>, T)> {
    context_entries(**c)
}

/// The information of the most recent entry named `target`, if there is one.
pub open spec fn find_entry<T>(entries: Seq<(Seq<char>, T)>, target: Seq<char>) -> Option<T>
    decreases entries.len(),
{
    if entries.len() == 0 {
        None
    } else if entries[0].0 == target {
        Some(entries[0].1)
    } else {
        find_entry(entries.drop_first(), target)
    }
}

/// The empty context.
pub fn empty_context<T>() -> (c: Context<T>)
    ensures
        context_entries(*c) == Seq::<(Seq<char>, T)>::empty(),
{
    Rc::new(ContextEntry::Empty)
}

/// The context that holds `name` with `info` in front of `context`.
pub fn bind_into<T>(name: String, info: T, context: Context<T>) -> (c: Context<T>)
    ensures
        context_entries(*c) == seq![(name@, info)] + context_entries(*context),
{
    Rc::new(ContextEntry::Bind { name, info, next: context })
}

/// The information of the most recent entry named `target`.
pub fn look_up<T: Copy>(target: &str, context: &Context<T>) -> (r: Option<T>)
    ensures
        r == find_entry(context_entries(**context), target@),
{
    let key = String::from_str(target);
    let mut cur: &ContextEntry<T> = &**context;
    loop
        invariant
            key@ == target@,
            find_entry(context_entries(**context), target@) == find_entry(
                context_entries(*cur),
                target@,
            ),
        decreases *cur,
    {
        match cur {
            ContextEntry::Empty => {
                return None;
            },
            ContextEntry::Bind { name, info, next } => {
                assert((seq![(name@, *info)] + context_entries(**next)).drop_first()
                    =~= context_entries(**next));
                if *name == key {
                    return Some(*info);
                }
                cur = &**next;
            },
        }
    }
}

} // verus!
