//! The value of each variant, and the choice of the default variant.

use vstd::prelude::*;
use crate::token::{
    Delimiter, Lit, Spacing, Tok, TokenTree, toks, is_punct, copy_token, copy_tokens, int_token,
    punct_token, paren_token, at_punc, ident_token, bracket_token, lemma_view_seq,
};
use crate::parse::{Variant, VariantModel, variant_models};

verus! {

/// The value of a variant: the expression `base` (zero where there is none)
/// plus `offset`.
pub struct ValueModel {
    pub base: Option<Seq<Tok>>,
    pub offset: nat,
}

/// The value of variant `i`: its own expression where it has one, else one
/// more than the value of the variant before it, and zero for a first
/// variant without an expression.
pub open spec fn resolved(vs: Seq<VariantModel>, i: int) -> ValueModel
    decreases i,
{
    match vs[i].value {
        Some(e) => ValueModel { base: Some(e), offset: 0 },
        None => if i <= 0 {
            ValueModel { base: None, offset: 0 }
        } else {
            let p = resolved(vs, i - 1);
            ValueModel { base: p.base, offset: p.offset + 1 }
        },
    }
}

/// The base expression as one token: itself where it is a single token,
/// else the tokens in parentheses.
pub open spec fn base_tok(b: Seq<Tok>) -> Tok {
    if b.len() == 1 {
        b[0]
    } else {
        Tok::Group(Delimiter::Parenthesis, b)
    }
}

/// The value as one token.
pub open spec fn value_tok(v: ValueModel) -> Tok {
    match v.base {
        None => Tok::Literal(Lit::Int(v.offset as u64)),
        Some(b) => if v.offset == 0 {
            base_tok(b)
        } else {
            Tok::Group(
                Delimiter::Parenthesis,
                seq![
                    base_tok(b),
                    Tok::Punct('+', Spacing::Alone),
                    Tok::Literal(Lit::Int(v.offset as u64)),
                ],
            )
        },
    }
}

/// The value tokens of all variants, in order.
pub open spec fn value_toks(vs: Seq<VariantModel>) -> Seq<Tok> {
    Seq::new(vs.len(), |i: int| value_tok(resolved(vs, i)))
}

/// An implicit value is one more than the value before it, whether that one
/// was given or implicit itself.
pub proof fn lemma_implicit_increments(vs: Seq<VariantModel>, i: int)
    requires
        0 < i < vs.len(),
        vs[i].value is None,
    ensures
        resolved(vs, i).base == resolved(vs, i - 1).base,
        resolved(vs, i).offset == resolved(vs, i - 1).offset + 1,
{
}

/// The offset of a value never exceeds the position of its variant.
pub proof fn lemma_offset_bound(vs: Seq<VariantModel>, i: int)
    requires
        0 <= i < vs.len(),
    ensures
        resolved(vs, i).offset <= i,
    decreases i,
{
    if i > 0 {
        lemma_offset_bound(vs, i - 1);
    }
}

/// The base expression as one token.
fn base_token(b: &Vec<TokenTree>) -> (r: TokenTree)
    ensures
        r.view() == base_tok(toks(b@)),
{
    if b.len() == 1 {
        copy_token(&b[0])
    } else {
        paren_token(copy_tokens(b))
    }
}

/// The value of every variant as one token, in order.
pub fn resolve_values(variants: &Vec<Variant>) -> (r: Vec<TokenTree>)
    ensures
        toks(r@) == value_toks(variant_models(variants@)),
{
    let ghost vs = variant_models(variants@);
    let mut r: Vec<TokenTree> = Vec::new();
    let mut base: Option<&Vec<TokenTree>> = None;
    let mut offset: u64 = 0;
    let mut i: usize = 0;
    while i < variants.len()
        invariant
            i <= variants.len(),
            vs == variant_models(variants@),
            r@.len() == i,
            forall|k: int| 0 <= k < i ==> (#[trigger] r@[k]).view() == value_tok(resolved(vs, k)),
            i > 0 ==> offset == resolved(vs, i - 1).offset + 1,
            i > 0 ==> (match base {
                Some(b) => resolved(vs, i - 1).base == Some(toks(b@)),
                None => resolved(vs, i - 1).base is None,
            }),
            i == 0 ==> base is None && offset == 0,
        decreases variants.len() - i,
    {
        assert(vs[i as int] == variants@[i as int]@);
        if let Some(e) = &variants[i].value {
            base = Some(e);
            offset = 0;
        }
        proof {
            lemma_offset_bound(vs, i as int);
        }
        let t = match base {
            None => int_token(offset),
            Some(b) => if offset == 0 {
                base_token(b)
            } else {
                let mut sum: Vec<TokenTree> = Vec::new();
                sum.push(base_token(b));
                sum.push(punct_token('+'));
                sum.push(int_token(offset));
                assert(toks(sum@) =~= seq![
                    base_tok(toks(b@)),
                    Tok::Punct('+', Spacing::Alone),
                    Tok::Literal(Lit::Int(offset)),
                ]);
                paren_token(sum)
            },
        };
        r.push(t);
        offset = offset + 1;
        i += 1;
    }
    assert(toks(r@) =~= value_toks(vs));
    r
}


/// The word `default`.
pub open spec fn default_word() -> Seq<char> {
    seq!['d', 'e', 'f', 'a', 'u', 'l', 't']
}

/// The attribute body `[default]`.
pub open spec fn default_attr() -> Tok {
    Tok::Group(Delimiter::Bracket, seq![Tok::Ident(default_word())])
}

/// Whether the attributes hold `#[default]`.
pub open spec fn has_default_marker(attrs: Seq<Tok>) -> bool {
    exists|k: int|
        0 <= k && k + 1 < attrs.len() && is_punct(#[trigger] attrs[k], '#') && attrs[k + 1]
            == default_attr()
}

/// The last of the first `n` variants that is marked as default.
pub open spec fn last_marked(vs: Seq<VariantModel>, n: int) -> Option<int>
    decreases n,
{
    if n <= 0 {
        None
    } else if has_default_marker(vs[n - 1].attributes) {
        Some(n - 1)
    } else {
        last_marked(vs, n - 1)
    }
}

/// The default variant: the last one marked as default, else the first.
pub open spec fn default_of(vs: Seq<VariantModel>) -> int {
    match last_marked(vs, vs.len() as int) {
        Some(i) => i,
        None => 0,
    }
}

proof fn lemma_last_marked(vs: Seq<VariantModel>, n: int)
    requires
        0 <= n <= vs.len(),
    ensures
        match last_marked(vs, n) {
            Some(i) => 0 <= i < n && has_default_marker(vs[i].attributes)
                && forall|j: int| i < j < n ==> !has_default_marker(#[trigger] vs[j].attributes),
            None => forall|j: int| 0 <= j < n ==> !has_default_marker(#[trigger] vs[j].attributes),
        },
    decreases n,
{
    if n > 0 {
        lemma_last_marked(vs, n - 1);
    }
}

/// With no variant marked as default the first is the default; with
/// exactly one marked, that one is.
pub proof fn lemma_default_selection(vs: Seq<VariantModel>, m: int)
    requires
        vs.len() > 0,
    ensures
        (forall|j: int| 0 <= j < vs.len() ==> !has_default_marker(#[trigger] vs[j].attributes))
            ==> default_of(vs) == 0,
        (0 <= m < vs.len() && has_default_marker(vs[m].attributes) && forall|j: int|
            0 <= j < vs.len() && j != m ==> !has_default_marker(#[trigger] vs[j].attributes))
            ==> default_of(vs) == m,
{
    lemma_last_marked(vs, vs.len() as int);
}

/// Whether the token is the attribute body `[default]`.
fn is_default_attr(t: &TokenTree, word: &String) -> (r: bool)
    requires
        word@ == default_word(),
    ensures
        r == (t.view() == default_attr()),
{
    if let TokenTree::Group(d, inner) = t {
        proof {
            lemma_view_seq(inner@);
        }
        if *d == Delimiter::Bracket && inner.len() == 1 {
            if let TokenTree::Ident(w) = &inner[0] {
                if *w == *word {
                    assert(toks(inner@) =~= seq![Tok::Ident(default_word())]);
                    return true;
                }
            }
            assert(toks(inner@)[0] != Tok::Ident(default_word()));
        } else {
            assert(seq![Tok::Ident(default_word())].len() == 1);
        }
    }
    false
}

/// Whether the attributes hold `#[default]`.
pub fn is_marked_default(attrs: &Vec<TokenTree>) -> (r: bool)
    ensures
        r == has_default_marker(toks(attrs@)),
{
    let ghost t = toks(attrs@);
    let word = "default".to_owned();
    proof {
        reveal_strlit("default");
        assert(word@ =~= default_word());
    }
    let mut k: usize = 0;
    while k < attrs.len() && k + 1 < attrs.len()
        invariant
            k <= attrs.len(),
            t == toks(attrs@),
            t.len() == attrs.len(),
            word@ == default_word(),
            forall|m: int|
                0 <= m < k ==> !(is_punct(#[trigger] t[m], '#') && t[m + 1] == default_attr()),
        decreases attrs.len() - k,
    {
        if at_punc(Some(&attrs[k]), '#') && is_default_attr(&attrs[k + 1], &word) {
            assert(is_punct(t[k as int], '#'));
            return true;
        }
        k += 1;
    }
    false
}

/// The position of the last variant marked as default, if any.
fn find_default(variants: &Vec<Variant>) -> (r: Option<usize>)
    ensures
        match r {
            Some(i) => last_marked(variant_models(variants@), variants.len() as int) == Some(i as int),
            None => last_marked(variant_models(variants@), variants.len() as int) is None,
        },
{
    let ghost vs = variant_models(variants@);
    let mut found: Option<usize> = None;
    let mut i: usize = 0;
    while i < variants.len()
        invariant
            i <= variants.len(),
            vs == variant_models(variants@),
            match found {
                Some(j) => last_marked(vs, i as int) == Some(j as int),
                None => last_marked(vs, i as int) is None,
            },
        decreases variants.len() - i,
    {
        assert(vs[i as int] == variants@[i as int]@);
        if is_marked_default(&variants[i].attributes) {
            found = Some(i);
        }
        i += 1;
    }
    found
}

/// The position of the default variant: the last one marked as default,
/// else the first.
pub fn default_index(variants: &Vec<Variant>) -> (r: usize)
    ensures
        r == default_of(variant_models(variants@)),
        variants.len() > 0 ==> r < variants.len(),
{
    proof {
        lemma_last_marked(variant_models(variants@), variants.len() as int);
    }
    match find_default(variants) {
        Some(i) => i,
        None => 0,
    }
}

/// Marks the first variant as default where no variant is marked.
pub fn check_for_default(variants: &mut Vec<Variant>)
    requires
        old(variants).len() > 0,
    ensures
        final(variants).len() == old(variants).len(),
        last_marked(variant_models(old(variants)@), old(variants).len() as int) is Some
            ==> variant_models(final(variants)@) == variant_models(old(variants)@),
        last_marked(variant_models(old(variants)@), old(variants).len() as int) is None
            ==> variant_models(final(variants)@) == variant_models(old(variants)@).update(
            0,
            VariantModel {
                attributes: toks(old(variants)@[0].attributes@) + seq![
                    Tok::Punct('#', Spacing::Alone),
                    default_attr(),
                ],
                ..old(variants)@[0]@
            },
        ),
        default_of(variant_models(final(variants)@)) == default_of(variant_models(old(variants)@)),
{
    let ghost vs = variant_models(variants@);
    if find_default(variants).is_some() {
        return;
    }
    let mut first = variants.remove(0);
    first.attributes.push(punct_token('#'));
    let mut inner: Vec<TokenTree> = Vec::new();
    inner.push(ident_token("default"));
    proof {
        reveal_strlit("default");
        assert("default"@ =~= default_word());
    }
    assert(toks(inner@) =~= seq![Tok::Ident(default_word())]);
    first.attributes.push(bracket_token(inner));
    variants.insert(0, first);
    let ghost ws = variant_models(variants@);
    assert(ws =~= vs.update(0, ws[0]));
    assert(ws[0].attributes =~= vs[0].attributes + seq![Tok::Punct('#', Spacing::Alone), default_attr()]);
    proof {
        lemma_last_marked(vs, vs.len() as int);
        let a = ws[0].attributes;
        assert(is_punct(a[a.len() - 2], '#') && a[a.len() - 1] == default_attr());
        lemma_last_marked(ws, ws.len() as int);
    }
}

} // verus!
