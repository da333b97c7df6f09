//! Expanding an enum description into the tokens of a `#[repr]` enum and its
//! lookup functions `from`, `from_name` and `list`.

use vstd::prelude::*;
use crate::token::{
    Delimiter, Lit, Literal, Spacing, Tok, TokenTree, toks, copy_token, copy_tokens,
    ident_token, punct_token, punct_cont_token, punc2_tokens, paren_token, bracket_token,
    brace_token, concat,
};
use crate::parse::{EnumDef, EnumModel, ParseError, Variant, VariantModel, parse_enum, parse_spec, variant_models};
use crate::resolve::{
    check_for_default, resolve_values, value_toks, last_marked, default_attr,
};

verus! {

pub open spec fn alone(c: char) -> Tok {
    Tok::Punct(c, Spacing::Alone)
}

pub open spec fn joint(c: char) -> Tok {
    Tok::Punct(c, Spacing::Joint)
}

pub open spec fn ident(s: Seq<char>) -> Tok {
    Tok::Ident(s)
}

/// `En::Vn`
pub open spec fn path(en: Seq<char>, vn: Seq<char>) -> Seq<Tok> {
    seq![ident(en), joint(':'), alone(':'), ident(vn)]
}

/// `{ return Some(En::Vn) }`
pub open spec fn return_some(en: Seq<char>, vn: Seq<char>) -> Tok {
    Tok::Group(
        Delimiter::Brace,
        seq![
            ident("return"@),
            ident("Some"@),
            Tok::Group(Delimiter::Parenthesis, path(en, vn)),
        ],
    )
}

/// `-> Option<En>`
pub open spec fn returns_option(en: Seq<char>) -> Seq<Tok> {
    seq![joint('-'), alone('>'), ident("Option"@), alone('<'), ident(en), alone('>')]
}

/// The concatenation of `f(0)`, ..., `f(n - 1)`.
pub open spec fn each(n: int, f: spec_fn(int) -> Seq<Tok>) -> Seq<Tok> {
    Seq::new(n as nat, f).flatten()
}

/// `attrs Vn = value,` for variant `i`.
pub open spec fn enum_entry(vs: Seq<VariantModel>, vals: Seq<Tok>) -> spec_fn(int) -> Seq<Tok> {
    |i: int| vs[i].attributes + seq![ident(vs[i].name), alone('='), vals[i], alone(',')]
}

/// `if x == value { return Some(En::Vn) }` for variant `i`.
pub open spec fn from_arm(en: Seq<char>, vs: Seq<VariantModel>, vals: Seq<Tok>) -> spec_fn(int) -> Seq<Tok> {
    |i: int|
        seq![
            ident("if"@),
            ident("x"@),
            joint('='),
            alone('='),
            vals[i],
            return_some(en, vs[i].name),
        ]
}

/// `if name == "Vn" { return Some(En::Vn) }` for variant `i`.
pub open spec fn name_arm(en: Seq<char>, vs: Seq<VariantModel>) -> spec_fn(int) -> Seq<Tok> {
    |i: int|
        seq![
            ident("if"@),
            ident("name"@),
            joint('='),
            alone('='),
            Tok::Literal(Lit::Str(vs[i].name)),
            return_some(en, vs[i].name),
        ]
}

/// `En::Vn,` for variant `i`.
pub open spec fn list_entry(en: Seq<char>, vs: Seq<VariantModel>) -> spec_fn(int) -> Seq<Tok> {
    |i: int| path(en, vs[i].name) + seq![alone(',')]
}

/// `pub fn from(x: repr) -> Option<En> { ... None }`
pub open spec fn from_fn(d: EnumModel, vals: Seq<Tok>) -> Seq<Tok> {
    seq![
        ident("pub"@),
        ident("fn"@),
        ident("from"@),
        Tok::Group(Delimiter::Parenthesis, seq![ident("x"@), alone(':')] + d.repr),
    ] + returns_option(d.name) + seq![
        Tok::Group(
            Delimiter::Brace,
            each(d.variants.len() as int, from_arm(d.name, d.variants, vals)) + seq![ident("None"@)],
        ),
    ]
}

/// `pub fn from_name(name: &str) -> Option<En> { ... None }`
pub open spec fn from_name_fn(d: EnumModel) -> Seq<Tok> {
    seq![
        ident("pub"@),
        ident("fn"@),
        ident("from_name"@),
        Tok::Group(
            Delimiter::Parenthesis,
            seq![ident("name"@), alone(':'), alone('&'), ident("str"@)],
        ),
    ] + returns_option(d.name) + seq![
        Tok::Group(
            Delimiter::Brace,
            each(d.variants.len() as int, name_arm(d.name, d.variants)) + seq![ident("None"@)],
        ),
    ]
}

/// `pub fn list() -> &'static [En] { &[En::A, ...] }`
pub open spec fn list_fn(d: EnumModel) -> Seq<Tok> {
    seq![
        ident("pub"@),
        ident("fn"@),
        ident("list"@),
        Tok::Group(Delimiter::Parenthesis, Seq::empty()),
        joint('-'),
        alone('>'),
        alone('&'),
        joint('\''),
        ident("static"@),
        Tok::Group(Delimiter::Bracket, seq![ident(d.name)]),
        Tok::Group(
            Delimiter::Brace,
            seq![
                alone('&'),
                Tok::Group(
                    Delimiter::Bracket,
                    each(d.variants.len() as int, list_entry(d.name, d.variants)),
                ),
            ],
        ),
    ]
}

/// `[derive(Debug, Clone, Copy, PartialEq, Eq, Hash, Default)]`
pub open spec fn derive_attr() -> Tok {
    Tok::Group(
        Delimiter::Bracket,
        seq![
            ident("derive"@),
            Tok::Group(
                Delimiter::Parenthesis,
                seq![
                    ident("Debug"@),
                    alone(','),
                    ident("Clone"@),
                    alone(','),
                    ident("Copy"@),
                    alone(','),
                    ident("PartialEq"@),
                    alone(','),
                    ident("Eq"@),
                    alone(','),
                    ident("Hash"@),
                    alone(','),
                    ident("Default"@),
                ],
            ),
        ],
    )
}

/// The variants with the first one marked as default where none is.
pub open spec fn with_default(vs: Seq<VariantModel>) -> Seq<VariantModel> {
    if last_marked(vs, vs.len() as int) is None {
        vs.update(
            0,
            VariantModel {
                attributes: vs[0].attributes + seq![alone('#'), default_attr()],
                ..vs[0]
            },
        )
    } else {
        vs
    }
}

/// The tokens of the enum item and its impl block, for a description whose
/// default variant is already marked.
pub open spec fn emitted(d: EnumModel) -> Seq<Tok> {
    let vals = value_toks(d.variants);
    d.attributes + seq![
        alone('#'),
        Tok::Group(
            Delimiter::Bracket,
            seq![ident("repr"@), Tok::Group(Delimiter::Parenthesis, d.repr)],
        ),
        alone('#'),
        derive_attr(),
        ident("pub"@),
        ident("enum"@),
        ident(d.name),
        Tok::Group(
            Delimiter::Brace,
            each(d.variants.len() as int, enum_entry(d.variants, vals)),
        ),
        ident("impl"@),
        ident(d.name),
        Tok::Group(Delimiter::Brace, from_fn(d, vals) + from_name_fn(d) + list_fn(d)),
    ]
}

/// The tokens that a description expands to.
pub open spec fn expansion(d: EnumModel) -> Seq<Tok> {
    emitted(EnumModel { variants: with_default(d.variants), ..d })
}

/// What `primitive_enum` gives for the tokens `s`.
pub open spec fn primitive_enum_spec(s: Seq<Tok>) -> Result<Seq<Tok>, ParseError> {
    match parse_spec(s) {
        Ok(d) => Ok(expansion(d)),
        Err(e) => Err(e),
    }
}

proof fn lemma_each_push(n: int, f: spec_fn(int) -> Seq<Tok>)
    requires
        n >= 0,
    ensures
        each(n + 1, f) == each(n, f) + f(n),
{
    assert(Seq::new((n + 1) as nat, f) =~= Seq::new(n as nat, f).push(f(n)));
    Seq::new(n as nat, f).lemma_flatten_push(f(n));
}

proof fn lemma_each_empty(f: spec_fn(int) -> Seq<Tok>)
    ensures
        each(0, f) == Seq::<Tok>::empty(),
{
    assert(Seq::new(0, f) =~= Seq::<Seq<Tok>>::empty());
}

/// Appends `more` to `out`.
fn append_tokens(out: &mut Vec<TokenTree>, more: Vec<TokenTree>)
    ensures
        toks(final(out)@) == toks(old(out)@) + toks(more@),
{
    let ghost before = out@;
    let ghost added = more@;
    let mut more = more;
    out.append(&mut more);
    assert(toks(out@) =~= toks(before) + toks(added));
}

fn ident_of(s: &String) -> (r: TokenTree)
    ensures
        r.view() == ident(s@),
{
    ident_token(s.as_str())
}

/// `En::Vn`
fn path_tokens(en: &String, vn: &String) -> (r: Vec<TokenTree>)
    ensures
        toks(r@) == path(en@, vn@),
{
    let mut r: Vec<TokenTree> = Vec::new();
    r.push(ident_of(en));
    r.push(punct_cont_token(':'));
    r.push(punct_token(':'));
    r.push(ident_of(vn));
    assert(toks(r@) =~= path(en@, vn@));
    r
}

/// `{ return Some(En::Vn) }`
fn return_some_token(en: &String, vn: &String) -> (r: TokenTree)
    ensures
        r.view() == return_some(en@, vn@),
{
    let mut body: Vec<TokenTree> = Vec::new();
    body.push(ident_token("return"));
    body.push(ident_token("Some"));
    body.push(paren_token(path_tokens(en, vn)));
    assert(toks(body@) =~= seq![
        ident("return"@),
        ident("Some"@),
        Tok::Group(Delimiter::Parenthesis, path(en@, vn@)),
    ]);
    brace_token(body)
}

/// `-> Option<En>`
fn returns_option_tokens(en: &String) -> (r: Vec<TokenTree>)
    ensures
        toks(r@) == returns_option(en@),
{
    let mut r = punc2_tokens('-', '>');
    assert(toks(r@).len() == 2 && r@.len() == 2);
    assert(toks(r@)[0] == joint('-') && toks(r@)[1] == alone('>'));
    r.push(ident_token("Option"));
    r.push(punct_token('<'));
    r.push(ident_of(en));
    r.push(punct_token('>'));
    assert(toks(r@) =~= returns_option(en@));
    r
}


/// `attrs Vn = value,` for every variant.
fn enum_entries(variants: &Vec<Variant>, values: &Vec<TokenTree>) -> (r: Vec<TokenTree>)
    requires
        values.len() == variants.len(),
    ensures
        toks(r@) == each(variants.len() as int, enum_entry(variant_models(variants@), toks(values@))),
{
    let ghost vs = variant_models(variants@);
    let ghost vals = toks(values@);
    let mut r: Vec<TokenTree> = Vec::new();
    proof {
        lemma_each_empty(enum_entry(vs, vals));
        assert(toks(r@) =~= Seq::<Tok>::empty());
    }
    let mut i: usize = 0;
    while i < variants.len()
        invariant
            i <= variants.len(),
            values.len() == variants.len(),
            vs == variant_models(variants@),
            vals == toks(values@),
            toks(r@) == each(i as int, enum_entry(vs, vals)),
        decreases variants.len() - i,
    {
        let v = &variants[i];
        let mut piece = copy_tokens(&v.attributes);
        let ghost attrs = toks(piece@);
        assert(attrs.len() == piece@.len());
        piece.push(ident_of(&v.name));
        piece.push(punct_token('='));
        piece.push(copy_token(&values[i]));
        piece.push(punct_token(','));
        proof {
            assert(vs[i as int] == v@);
            assert(vals[i as int] == values@[i as int].view());
            assert(toks(piece@) =~= enum_entry(vs, vals)(i as int));
            lemma_each_push(i as int, enum_entry(vs, vals));
        }
        append_tokens(&mut r, piece);
        i += 1;
    }
    r
}

/// `if x == value { return Some(En::Vn) }` for every variant.
fn from_arms(en: &String, variants: &Vec<Variant>, values: &Vec<TokenTree>) -> (r: Vec<TokenTree>)
    requires
        values.len() == variants.len(),
    ensures
        toks(r@) == each(variants.len() as int, from_arm(en@, variant_models(variants@), toks(values@))),
{
    let ghost vs = variant_models(variants@);
    let ghost vals = toks(values@);
    let mut r: Vec<TokenTree> = Vec::new();
    proof {
        lemma_each_empty(from_arm(en@, vs, vals));
        assert(toks(r@) =~= Seq::<Tok>::empty());
    }
    let mut i: usize = 0;
    while i < variants.len()
        invariant
            i <= variants.len(),
            values.len() == variants.len(),
            vs == variant_models(variants@),
            vals == toks(values@),
            toks(r@) == each(i as int, from_arm(en@, vs, vals)),
        decreases variants.len() - i,
    {
        let v = &variants[i];
        let mut piece: Vec<TokenTree> = Vec::new();
        piece.push(ident_token("if"));
        piece.push(ident_token("x"));
        piece.push(punct_cont_token('='));
        piece.push(punct_token('='));
        piece.push(copy_token(&values[i]));
        piece.push(return_some_token(en, &v.name));
        proof {
            assert(vs[i as int] == v@);
            assert(vals[i as int] == values@[i as int].view());
            assert(toks(piece@) =~= from_arm(en@, vs, vals)(i as int));
            lemma_each_push(i as int, from_arm(en@, vs, vals));
        }
        append_tokens(&mut r, piece);
        i += 1;
    }
    r
}

/// `if name == "Vn" { return Some(En::Vn) }` for every variant.
fn name_arms(en: &String, variants: &Vec<Variant>) -> (r: Vec<TokenTree>)
    ensures
        toks(r@) == each(variants.len() as int, name_arm(en@, variant_models(variants@))),
{
    let ghost vs = variant_models(variants@);
    let mut r: Vec<TokenTree> = Vec::new();
    proof {
        lemma_each_empty(name_arm(en@, vs));
        assert(toks(r@) =~= Seq::<Tok>::empty());
    }
    let mut i: usize = 0;
    while i < variants.len()
        invariant
            i <= variants.len(),
            vs == variant_models(variants@),
            toks(r@) == each(i as int, name_arm(en@, vs)),
        decreases variants.len() - i,
    {
        let v = &variants[i];
        let mut piece: Vec<TokenTree> = Vec::new();
        piece.push(ident_token("if"));
        piece.push(ident_token("name"));
        piece.push(punct_cont_token('='));
        piece.push(punct_token('='));
        piece.push(TokenTree::Literal(Literal::Str(v.name.clone())));
        piece.push(return_some_token(en, &v.name));
        proof {
            assert(vs[i as int] == v@);
            assert(toks(piece@) =~= name_arm(en@, vs)(i as int));
            lemma_each_push(i as int, name_arm(en@, vs));
        }
        append_tokens(&mut r, piece);
        i += 1;
    }
    r
}

/// `En::Vn,` for every variant.
fn list_entries(en: &String, variants: &Vec<Variant>) -> (r: Vec<TokenTree>)
    ensures
        toks(r@) == each(variants.len() as int, list_entry(en@, variant_models(variants@))),
{
    let ghost vs = variant_models(variants@);
    let mut r: Vec<TokenTree> = Vec::new();
    proof {
        lemma_each_empty(list_entry(en@, vs));
        assert(toks(r@) =~= Seq::<Tok>::empty());
    }
    let mut i: usize = 0;
    while i < variants.len()
        invariant
            i <= variants.len(),
            vs == variant_models(variants@),
            toks(r@) == each(i as int, list_entry(en@, vs)),
        decreases variants.len() - i,
    {
        let v = &variants[i];
        let mut piece = path_tokens(en, &v.name);
        assert(toks(piece@).len() == 4 && piece@.len() == 4);
        piece.push(punct_token(','));
        proof {
            assert(vs[i as int] == v@);
            assert(toks(piece@) =~= list_entry(en@, vs)(i as int));
            lemma_each_push(i as int, list_entry(en@, vs));
        }
        append_tokens(&mut r, piece);
        i += 1;
    }
    r
}


/// `pub fn from(x: repr) -> Option<En> { ... None }`
fn from_fn_tokens(d: &EnumDef, values: &Vec<TokenTree>) -> (r: Vec<TokenTree>)
    requires
        values.len() == d.variants.len(),
    ensures
        toks(r@) == from_fn(d@, toks(values@)),
{
    let mut params: Vec<TokenTree> = Vec::new();
    params.push(ident_token("x"));
    params.push(punct_token(':'));
    let ghost head = toks(params@);
    let repr = copy_tokens(&d.repr);
    let ghost tail = toks(repr@);
    let params = concat(params, repr);
    assert(toks(params@) =~= head + tail);
    assert(head =~= seq![ident("x"@), alone(':')]);
    let mut r: Vec<TokenTree> = Vec::new();
    r.push(ident_token("pub"));
    r.push(ident_token("fn"));
    r.push(ident_token("from"));
    r.push(paren_token(params));
    let ghost sig = toks(r@);
    assert(sig =~= seq![
        ident("pub"@),
        ident("fn"@),
        ident("from"@),
        Tok::Group(Delimiter::Parenthesis, seq![ident("x"@), alone(':')] + d@.repr),
    ]);
    append_tokens(&mut r, returns_option_tokens(&d.name));
    let mut body = from_arms(&d.name, &d.variants, values);
    let ghost arms = toks(body@);
    assert(arms.len() == body@.len());
    body.push(ident_token("None"));
    assert(toks(body@) =~= arms + seq![ident("None"@)]);
    let ghost before = toks(r@);
    r.push(brace_token(body));
    assert(toks(r@) =~= before + seq![Tok::Group(Delimiter::Brace, arms + seq![ident("None"@)])]);
    r
}

/// `pub fn from_name(name: &str) -> Option<En> { ... None }`
fn from_name_fn_tokens(d: &EnumDef) -> (r: Vec<TokenTree>)
    ensures
        toks(r@) == from_name_fn(d@),
{
    let mut params: Vec<TokenTree> = Vec::new();
    params.push(ident_token("name"));
    params.push(punct_token(':'));
    params.push(punct_token('&'));
    params.push(ident_token("str"));
    assert(toks(params@) =~= seq![ident("name"@), alone(':'), alone('&'), ident("str"@)]);
    let mut r: Vec<TokenTree> = Vec::new();
    r.push(ident_token("pub"));
    r.push(ident_token("fn"));
    r.push(ident_token("from_name"));
    r.push(paren_token(params));
    let ghost sig = toks(r@);
    assert(sig =~= seq![
        ident("pub"@),
        ident("fn"@),
        ident("from_name"@),
        Tok::Group(
            Delimiter::Parenthesis,
            seq![ident("name"@), alone(':'), alone('&'), ident("str"@)],
        ),
    ]);
    append_tokens(&mut r, returns_option_tokens(&d.name));
    let mut body = name_arms(&d.name, &d.variants);
    let ghost arms = toks(body@);
    assert(arms.len() == body@.len());
    body.push(ident_token("None"));
    assert(toks(body@) =~= arms + seq![ident("None"@)]);
    let ghost before = toks(r@);
    r.push(brace_token(body));
    assert(toks(r@) =~= before + seq![Tok::Group(Delimiter::Brace, arms + seq![ident("None"@)])]);
    r
}

/// `pub fn list() -> &'static [En] { &[En::A, ...] }`
fn list_fn_tokens(d: &EnumDef) -> (r: Vec<TokenTree>)
    ensures
        toks(r@) == list_fn(d@),
{
    let mut elem: Vec<TokenTree> = Vec::new();
    elem.push(ident_of(&d.name));
    assert(toks(elem@) =~= seq![ident(d.name@)]);
    let mut body: Vec<TokenTree> = Vec::new();
    body.push(punct_token('&'));
    body.push(bracket_token(list_entries(&d.name, &d.variants)));
    assert(toks(body@) =~= seq![
        alone('&'),
        Tok::Group(
            Delimiter::Bracket,
            each(d.variants.len() as int, list_entry(d.name@, d@.variants)),
        ),
    ]);
    let none: Vec<TokenTree> = Vec::new();
    assert(toks(none@) =~= Seq::<Tok>::empty());
    let mut r: Vec<TokenTree> = Vec::new();
    r.push(ident_token("pub"));
    r.push(ident_token("fn"));
    r.push(ident_token("list"));
    r.push(paren_token(none));
    r.push(punct_cont_token('-'));
    r.push(punct_token('>'));
    r.push(punct_token('&'));
    r.push(punct_cont_token('\''));
    r.push(ident_token("static"));
    r.push(bracket_token(elem));
    r.push(brace_token(body));
    assert(toks(r@) =~= list_fn(d@));
    r
}

/// `[derive(Debug, Clone, Copy, PartialEq, Eq, Hash, Default)]`
fn derive_token() -> (r: TokenTree)
    ensures
        r.view() == derive_attr(),
{
    let mut names: Vec<TokenTree> = Vec::new();
    names.push(ident_token("Debug"));
    names.push(punct_token(','));
    names.push(ident_token("Clone"));
    names.push(punct_token(','));
    names.push(ident_token("Copy"));
    names.push(punct_token(','));
    names.push(ident_token("PartialEq"));
    names.push(punct_token(','));
    names.push(ident_token("Eq"));
    names.push(punct_token(','));
    names.push(ident_token("Hash"));
    names.push(punct_token(','));
    names.push(ident_token("Default"));
    assert(toks(names@) =~= seq![
        ident("Debug"@),
        alone(','),
        ident("Clone"@),
        alone(','),
        ident("Copy"@),
        alone(','),
        ident("PartialEq"@),
        alone(','),
        ident("Eq"@),
        alone(','),
        ident("Hash"@),
        alone(','),
        ident("Default"@),
    ]);
    let mut attr: Vec<TokenTree> = Vec::new();
    attr.push(ident_token("derive"));
    attr.push(paren_token(names));
    assert(toks(attr@)[1] == Tok::Group(
        Delimiter::Parenthesis,
        seq![
            ident("Debug"@),
            alone(','),
            ident("Clone"@),
            alone(','),
            ident("Copy"@),
            alone(','),
            ident("PartialEq"@),
            alone(','),
            ident("Eq"@),
            alone(','),
            ident("Hash"@),
            alone(','),
            ident("Default"@),
        ],
    ));
    let r = bracket_token(attr);
    assert(toks(attr@) =~= derive_attr()->Group_1);
    r
}


/// The tokens of the enum item and its impl block, for a description whose
/// default variant is already marked.
pub fn emit(d: &EnumDef) -> (r: Vec<TokenTree>)
    ensures
        toks(r@) == emitted(d@),
{
    let values = resolve_values(&d.variants);
    let ghost vals = toks(values@);
    assert(vals.len() == values@.len());
    let ghost dm = d@;
    let mut repr_attr: Vec<TokenTree> = Vec::new();
    repr_attr.push(ident_token("repr"));
    repr_attr.push(paren_token(copy_tokens(&d.repr)));
    assert(toks(repr_attr@) =~= seq![
        ident("repr"@),
        Tok::Group(Delimiter::Parenthesis, dm.repr),
    ]);
    let fns = from_fn_tokens(d, &values);
    let ghost f1 = toks(fns@);
    let by_name = from_name_fn_tokens(d);
    let ghost f2 = toks(by_name@);
    let list = list_fn_tokens(d);
    let ghost f3 = toks(list@);
    let items = concat(concat(fns, by_name), list);
    assert(toks(items@) =~= f1 + f2 + f3);
    let entries = enum_entries(&d.variants, &values);
    let mut r = copy_tokens(&d.attributes);
    let ghost attrs = toks(r@);
    assert(attrs.len() == r@.len());
    r.push(punct_token('#'));
    r.push(bracket_token(repr_attr));
    r.push(punct_token('#'));
    r.push(derive_token());
    r.push(ident_token("pub"));
    r.push(ident_token("enum"));
    r.push(ident_of(&d.name));
    r.push(brace_token(entries));
    r.push(ident_token("impl"));
    r.push(ident_of(&d.name));
    r.push(brace_token(items));
    assert(toks(r@) =~= emitted(dm));
    r
}

/// The tokens that a description expands to: its first variant is marked as
/// default where no variant is, and the result emitted.
pub fn expand(d: EnumDef) -> (r: Vec<TokenTree>)
    requires
        d.variants.len() > 0,
    ensures
        toks(r@) == expansion(d@),
{
    let ghost d0 = d@;
    let mut d = d;
    check_for_default(&mut d.variants);
    assert(d@ == EnumModel { variants: with_default(d0.variants), ..d0 });
    emit(&d)
}

/// Expands the enum description `tokens`, or says why it describes no enum.
pub fn primitive_enum(tokens: Vec<TokenTree>) -> (r: Result<Vec<TokenTree>, ParseError>)
    ensures
        match r {
            Ok(out) => primitive_enum_spec(toks(tokens@)) == Ok::<_, ParseError>(toks(out@)),
            Err(e) => primitive_enum_spec(toks(tokens@)) == Err::<Seq<Tok>, _>(e),
        },
{
    match parse_enum(&tokens) {
        Ok(d) => {
            assert(d.variants@.len() == variant_models(d.variants@).len());
            Ok(expand(d))
        },
        Err(e) => Err(e),
    }
}

} // verus!
