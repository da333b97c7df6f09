//! Token trees: the input and the output of the enum expansion.

use vstd::prelude::*;

verus! {

/// How a group of tokens is bracketed.
#[derive(Clone, Copy, Debug, PartialEq, Eq, Structural)]
pub enum Delimiter {
    Parenthesis,
    Brace,
    Bracket,
    Invisible,
}

/// Whether a punctuation character is joined to the one that follows it.
#[derive(Clone, Copy, Debug, PartialEq, Eq, Structural)]
pub enum Spacing {
    Alone,
    Joint,
}

/// A literal token.
#[derive(Debug)]
pub enum Literal {
    /// An unsuffixed integer literal.
    Int(u64),
    /// A string literal with the given contents.
    Str(String),
    /// A literal kept as the source text it was written as.
    Text(String),
}

/// A token tree: a single token, or a delimited group of token trees.
#[derive(Debug)]
pub enum TokenTree {
    Ident(String),
    Punct(char, Spacing),
    Literal(Literal),
    Group(Delimiter, Vec<TokenTree>),
}

/// The mathematical value of a [`Literal`].
pub enum Lit {
    Int(u64),
    Str(Seq<char>),
    Text(Seq<char>),
}

/// The mathematical value of a [`TokenTree`].
pub enum Tok {
    Ident(Seq<char>),
    Punct(char, Spacing),
    Literal(Lit),
    Group(Delimiter, Seq<Tok>),
}

impl Literal {
    pub open spec fn view(&self) -> Lit {
        match self {
            Literal::Int(n) => Lit::Int(*n),
            Literal::Str(s) => Lit::Str(s@),
            Literal::Text(s) => Lit::Text(s@),
        }
    }
}

impl TokenTree {
    pub open spec fn view(&self) -> Tok
        decreases self,
    {
        match self {
            TokenTree::Ident(s) => Tok::Ident(s@),
            TokenTree::Punct(c, sp) => Tok::Punct(*c, *sp),
            TokenTree::Literal(l) => Tok::Literal(l.view()),
            TokenTree::Group(d, v) => Tok::Group(*d, view_seq(v@)),
        }
    }
}

/// The views of a sequence of token trees, element by element.
pub open spec fn view_seq(s: Seq<TokenTree>) -> Seq<Tok>
    decreases s,
{
    if s.len() == 0 {
        Seq::empty()
    } else {
        view_seq(s.subrange(0, s.len() - 1)).push(s[s.len() - 1].view())
    }
}

/// The views of a sequence of token trees.
pub open spec fn toks(s: Seq<TokenTree>) -> Seq<Tok> {
    s.map_values(|t: TokenTree| t.view())
}

pub proof fn lemma_view_seq(s: Seq<TokenTree>)
    ensures
        view_seq(s) == toks(s),
    decreases s.len(),
{
    if s.len() > 0 {
        lemma_view_seq(s.subrange(0, s.len() - 1));
    }
    assert(view_seq(s) =~= toks(s));
}


/// Whether a token is the punctuation character `c`.
pub open spec fn is_punct(t: Tok, c: char) -> bool {
    t matches Tok::Punct(p, _) && p == c
}

/// A copy of a literal.
pub fn copy_literal(l: &Literal) -> (r: Literal)
    ensures
        r.view() == l.view(),
{
    match l {
        Literal::Int(n) => Literal::Int(*n),
        Literal::Str(s) => Literal::Str(s.clone()),
        Literal::Text(s) => Literal::Text(s.clone()),
    }
}

/// A deep copy of a token tree.
pub fn copy_token(t: &TokenTree) -> (r: TokenTree)
    ensures
        r.view() == t.view(),
    decreases t,
{
    match t {
        TokenTree::Ident(s) => TokenTree::Ident(s.clone()),
        TokenTree::Punct(c, sp) => TokenTree::Punct(*c, *sp),
        TokenTree::Literal(l) => TokenTree::Literal(copy_literal(l)),
        TokenTree::Group(d, v) => {
            let w = copy_tokens(v);
            proof {
                lemma_view_seq(v@);
                lemma_view_seq(w@);
            }
            TokenTree::Group(*d, w)
        },
    }
}

/// A deep copy of a sequence of token trees.
pub fn copy_tokens(v: &Vec<TokenTree>) -> (r: Vec<TokenTree>)
    ensures
        toks(r@) == toks(v@),
    decreases v,
{
    let mut r: Vec<TokenTree> = Vec::new();
    let mut i: usize = 0;
    while i < v.len()
        invariant
            i <= v.len(),
            r@.len() == i,
            forall|k: int| 0 <= k < i ==> (#[trigger] r@[k]).view() == v@[k].view(),
        decreases v.len() - i,
    {
        proof {
            assert(decreases_to!(v => v@[i as int]));
        }
        let t = copy_token(&v[i]);
        r.push(t);
        i += 1;
    }
    assert(toks(r@) =~= toks(v@));
    r
}

/// A copy of the tokens `v[from..to]`.
pub fn copy_range(v: &Vec<TokenTree>, from: usize, to: usize) -> (r: Vec<TokenTree>)
    requires
        from <= to <= v.len(),
    ensures
        toks(r@) == toks(v@).subrange(from as int, to as int),
{
    let mut r: Vec<TokenTree> = Vec::new();
    let mut i: usize = from;
    while i < to
        invariant
            from <= i <= to <= v.len(),
            r@.len() == i - from,
            forall|k: int| 0 <= k < i - from ==> (#[trigger] r@[k]).view() == v@[k + from].view(),
        decreases to - i,
    {
        let t = copy_token(&v[i]);
        r.push(t);
        i += 1;
    }
    assert(toks(r@) =~= toks(v@).subrange(from as int, to as int));
    r
}

/// Whether the token under `peek` is the punctuation character `punc_char`.
pub fn at_punc(peek: Option<&TokenTree>, punc_char: char) -> (r: bool)
    ensures
        r == (peek matches Some(t) && is_punct(t.view(), punc_char)),
{
    match peek {
        Some(TokenTree::Punct(p, _)) => *p == punc_char,
        _ => false,
    }
}

/// The identifier `name`.
pub fn ident_token(name: &str) -> (r: TokenTree)
    ensures
        r.view() == Tok::Ident(name@),
{
    TokenTree::Ident(name.to_owned())
}

/// The punctuation character `ch`, not joined to what follows.
pub fn punct_token(ch: char) -> (r: TokenTree)
    ensures
        r.view() == Tok::Punct(ch, Spacing::Alone),
{
    TokenTree::Punct(ch, Spacing::Alone)
}

/// The punctuation character `ch`, joined to the character that follows.
pub fn punct_cont_token(ch: char) -> (r: TokenTree)
    ensures
        r.view() == Tok::Punct(ch, Spacing::Joint),
{
    TokenTree::Punct(ch, Spacing::Joint)
}

/// The two-character operator `ch1 ch2`.
pub fn punc2_tokens(ch1: char, ch2: char) -> (r: Vec<TokenTree>)
    ensures
        toks(r@) == seq![Tok::Punct(ch1, Spacing::Joint), Tok::Punct(ch2, Spacing::Alone)],
{
    let mut r: Vec<TokenTree> = Vec::new();
    r.push(TokenTree::Punct(ch1, Spacing::Joint));
    r.push(TokenTree::Punct(ch2, Spacing::Alone));
    assert(toks(r@) =~= seq![Tok::Punct(ch1, Spacing::Joint), Tok::Punct(ch2, Spacing::Alone)]);
    r
}

/// The unsuffixed integer literal `value`.
pub fn int_token(value: u64) -> (r: TokenTree)
    ensures
        r.view() == Tok::Literal(Lit::Int(value)),
{
    TokenTree::Literal(Literal::Int(value))
}

/// The group of `tokens` between the brackets of `delimiter`.
pub fn group_token(delimiter: Delimiter, tokens: Vec<TokenTree>) -> (r: TokenTree)
    ensures
        r.view() == Tok::Group(delimiter, toks(tokens@)),
{
    proof {
        lemma_view_seq(tokens@);
    }
    TokenTree::Group(delimiter, tokens)
}

/// `( tokens )`
pub fn paren_token(tokens: Vec<TokenTree>) -> (r: TokenTree)
    ensures
        r.view() == Tok::Group(Delimiter::Parenthesis, toks(tokens@)),
{
    group_token(Delimiter::Parenthesis, tokens)
}

/// `[ tokens ]`
pub fn bracket_token(tokens: Vec<TokenTree>) -> (r: TokenTree)
    ensures
        r.view() == Tok::Group(Delimiter::Bracket, toks(tokens@)),
{
    group_token(Delimiter::Bracket, tokens)
}

/// `{ tokens }`
pub fn brace_token(tokens: Vec<TokenTree>) -> (r: TokenTree)
    ensures
        r.view() == Tok::Group(Delimiter::Brace, toks(tokens@)),
{
    group_token(Delimiter::Brace, tokens)
}

/// `v1` followed by `v2`.
pub fn concat<T>(v1: Vec<T>, v2: Vec<T>) -> (r: Vec<T>)
    ensures
        r@ == v1@ + v2@,
{
    let mut v1 = v1;
    let mut v2 = v2;
    v1.append(&mut v2);
    v1
}

} // verus!
