//! Reading an enum description from tokens.
//!
//! The grammar is
//!
//! ```text
//! (# attr)* Name repr... ;
//!     ( (# attr)* Variant (= expr...)? (, | end) )*
//! ```
//!
//! where an attribute is `#` followed by any one token tree, `repr...` is any
//! run of tokens up to the first `;`, and `expr...` any run of tokens up to the
//! next `,`.

use vstd::prelude::*;
use crate::token::{Tok, TokenTree, toks, is_punct, at_punc, copy_range};

verus! {

/// One variant as written: its attributes, its name and its explicit value.
pub struct Variant {
    pub attributes: Vec<TokenTree>,
    pub name: String,
    pub value: Option<Vec<TokenTree>>,
}

/// A whole enum description.
pub struct EnumDef {
    pub attributes: Vec<TokenTree>,
    pub name: String,
    pub repr: Vec<TokenTree>,
    pub variants: Vec<Variant>,
}

/// The mathematical value of a [`Variant`].
pub struct VariantModel {
    pub attributes: Seq<Tok>,
    pub name: Seq<char>,
    pub value: Option<Seq<Tok>>,
}

/// The mathematical value of an [`EnumDef`].
pub struct EnumModel {
    pub attributes: Seq<Tok>,
    pub name: Seq<char>,
    pub repr: Seq<Tok>,
    pub variants: Seq<VariantModel>,
}

/// Why a description could not be read. A position is an index into the
/// input tokens; the length of the input stands for its end.
#[derive(Clone, Copy, Debug, PartialEq, Eq, Structural)]
pub enum ParseError {
    /// The input ends right after a `#`.
    DanglingHash,
    /// The enum's name was expected at this position.
    MissingEnumName(usize),
    /// The input ends before the `;` that closes the header.
    MissingSemicolon,
    /// A variant's name was expected at this position.
    MissingVariantName(usize),
    /// A `,` was expected at this position.
    MissingComma(usize),
    /// The description declares no variant.
    NoVariants,
}

pub open spec fn opt_toks(v: Option<Vec<TokenTree>>) -> Option<Seq<Tok>> {
    match v {
        Some(t) => Some(toks(t@)),
        None => None,
    }
}

impl View for Variant {
    type V = VariantModel;

    open spec fn view(&self) -> VariantModel {
        VariantModel {
            attributes: toks(self.attributes@),
            name: self.name@,
            value: opt_toks(self.value),
        }
    }
}

/// The views of a sequence of variants.
pub open spec fn variant_models(vs: Seq<Variant>) -> Seq<VariantModel> {
    vs.map_values(|v: Variant| v@)
}

impl View for EnumDef {
    type V = EnumModel;

    open spec fn view(&self) -> EnumModel {
        EnumModel {
            attributes: toks(self.attributes@),
            name: self.name@,
            repr: toks(self.repr@),
            variants: variant_models(self.variants@),
        }
    }
}

/// The end of the run of attributes (`#` and one token, repeated) that
/// starts at `i`; `None` where the run ends in a `#` with nothing after it.
pub open spec fn attrs_end(s: Seq<Tok>, i: int) -> Option<int>
    decreases s.len() - i,
{
    if 0 <= i < s.len() && is_punct(s[i], '#') {
        if i + 1 < s.len() {
            attrs_end(s, i + 2)
        } else {
            None
        }
    } else {
        Some(i)
    }
}

/// The first position from `i` on that holds the punctuation `c`, or the
/// end of `s`.
pub open spec fn scan_to(s: Seq<Tok>, i: int, c: char) -> int
    decreases s.len() - i,
{
    if 0 <= i < s.len() && !is_punct(s[i], c) {
        scan_to(s, i + 1, c)
    } else {
        i
    }
}

/// The variant that starts at `i`, and the position after it and after the
/// `,` that ends it.
pub open spec fn variant_at(s: Seq<Tok>, i: int) -> Result<(VariantModel, int), ParseError> {
    match attrs_end(s, i) {
        None => Err(ParseError::DanglingHash),
        Some(a) => if a >= s.len() {
            Err(ParseError::MissingVariantName(a as usize))
        } else {
            match s[a] {
                Tok::Ident(name) => {
                    let has_value = a + 1 < s.len() && is_punct(s[a + 1], '=');
                    let e = if has_value {
                        scan_to(s, a + 2, ',')
                    } else {
                        a + 1
                    };
                    let v = VariantModel {
                        attributes: s.subrange(i, a),
                        name,
                        value: if has_value {
                            Some(s.subrange(a + 2, e))
                        } else {
                            None
                        },
                    };
                    if e >= s.len() {
                        Ok((v, e))
                    } else if is_punct(s[e], ',') {
                        Ok((v, e + 1))
                    } else {
                        Err(ParseError::MissingComma(e as usize))
                    }
                },
                _ => Err(ParseError::MissingVariantName(a as usize)),
            }
        },
    }
}

/// `p` put in front of the variants of `r`, or the error of `r`.
pub open spec fn prepend(
    p: Seq<VariantModel>,
    r: Result<Seq<VariantModel>, ParseError>,
) -> Result<Seq<VariantModel>, ParseError> {
    match r {
        Ok(rest) => Ok(p + rest),
        Err(e) => Err(e),
    }
}

/// The variants from position `i` to the end of `s`.
pub open spec fn variants_from(s: Seq<Tok>, i: int) -> Result<Seq<VariantModel>, ParseError>
    decreases s.len() - i,
    via variants_from_decreases
{
    if i < 0 || i >= s.len() {
        Ok(Seq::empty())
    } else {
        match variant_at(s, i) {
            Err(e) => Err(e),
            Ok((v, j)) => prepend(seq![v], variants_from(s, j)),
        }
    }
}

pub proof fn lemma_attrs_end(s: Seq<Tok>, i: int)
    requires
        0 <= i <= s.len(),
    ensures
        attrs_end(s, i) matches Some(a) ==> i <= a <= s.len(),
    decreases s.len() - i,
{
    if i < s.len() && is_punct(s[i], '#') && i + 1 < s.len() {
        lemma_attrs_end(s, i + 2);
    }
}

pub proof fn lemma_scan_to(s: Seq<Tok>, i: int, c: char)
    requires
        0 <= i <= s.len(),
    ensures
        i <= scan_to(s, i, c) <= s.len(),
    decreases s.len() - i,
{
    if i < s.len() && !is_punct(s[i], c) {
        lemma_scan_to(s, i + 1, c);
    }
}

pub proof fn lemma_variant_at(s: Seq<Tok>, i: int)
    requires
        0 <= i < s.len(),
    ensures
        variant_at(s, i) matches Ok((v, j)) ==> i < j <= s.len(),
{
    lemma_attrs_end(s, i);
    if let Some(a) = attrs_end(s, i) {
        if a + 2 <= s.len() {
            lemma_scan_to(s, a + 2, ',');
        }
    }
}

#[via_fn]
proof fn variants_from_decreases(s: Seq<Tok>, i: int) {
    if 0 <= i < s.len() {
        lemma_variant_at(s, i);
    }
}

/// What the tokens `s` describe, or why they describe no enum.
pub open spec fn parse_spec(s: Seq<Tok>) -> Result<EnumModel, ParseError> {
    match attrs_end(s, 0) {
        None => Err(ParseError::DanglingHash),
        Some(a) => if a >= s.len() {
            Err(ParseError::MissingEnumName(a as usize))
        } else {
            match s[a] {
                Tok::Ident(name) => {
                    let r = scan_to(s, a + 1, ';');
                    if r >= s.len() {
                        Err(ParseError::MissingSemicolon)
                    } else {
                        match variants_from(s, r + 1) {
                            Err(e) => Err(e),
                            Ok(vs) => if vs.len() == 0 {
                                Err(ParseError::NoVariants)
                            } else {
                                Ok(
                                    EnumModel {
                                        attributes: s.subrange(0, a),
                                        name,
                                        repr: s.subrange(a + 1, r),
                                        variants: vs,
                                    },
                                )
                            },
                        }
                    }
                },
                _ => Err(ParseError::MissingEnumName(a as usize)),
            }
        },
    }
}


/// The token at position `i`, if there is one.
fn peek(s: &Vec<TokenTree>, i: usize) -> (r: Option<&TokenTree>)
    ensures
        r == (if i < s.len() { Some(&s@[i as int]) } else { None }),
{
    if i < s.len() {
        Some(&s[i])
    } else {
        None
    }
}

/// The end of the run of attributes that starts at `i`.
fn skip_attributes(s: &Vec<TokenTree>, i: usize) -> (r: Option<usize>)
    requires
        i <= s.len(),
    ensures
        match r {
            Some(j) => attrs_end(toks(s@), i as int) == Some(j as int),
            None => attrs_end(toks(s@), i as int) is None,
        },
{
    let mut j: usize = i;
    while at_punc(peek(s, j), '#')
        invariant
            i <= j <= s.len(),
            attrs_end(toks(s@), i as int) == attrs_end(toks(s@), j as int),
        decreases s.len() - j,
    {
        if j + 1 >= s.len() {
            return None;
        }
        j += 2;
    }
    Some(j)
}

/// The first position from `i` on that holds the punctuation `c`, or the end.
fn skip_to(s: &Vec<TokenTree>, i: usize, c: char) -> (r: usize)
    requires
        i <= s.len(),
    ensures
        r == scan_to(toks(s@), i as int, c),
        i <= r <= s.len(),
{
    let mut j: usize = i;
    while j < s.len() && !at_punc(peek(s, j), c)
        invariant
            i <= j <= s.len(),
            scan_to(toks(s@), i as int, c) == scan_to(toks(s@), j as int, c),
        decreases s.len() - j,
    {
        j += 1;
    }
    j
}

/// Reads the variant that starts at `i`.
fn parse_variant(s: &Vec<TokenTree>, i: usize) -> (r: Result<(Variant, usize), ParseError>)
    requires
        i < s.len(),
    ensures
        match r {
            Ok((v, j)) => variant_at(toks(s@), i as int) == Ok::<_, ParseError>((v@, j as int)),
            Err(e) => variant_at(toks(s@), i as int) == Err::<(VariantModel, int), _>(e),
        },
{
    let ghost t = toks(s@);
    let a = match skip_attributes(s, i) {
        Some(a) => a,
        None => {
            return Err(ParseError::DanglingHash);
        },
    };
    proof {
        lemma_attrs_end(t, i as int);
    }
    if a >= s.len() {
        return Err(ParseError::MissingVariantName(a));
    }
    let name = match &s[a] {
        TokenTree::Ident(n) => n.clone(),
        _ => {
            return Err(ParseError::MissingVariantName(a));
        },
    };
    let attributes = copy_range(s, i, a);
    let has_value = at_punc(peek(s, a + 1), '=');
    let mut e: usize = a + 1;
    let mut value: Option<Vec<TokenTree>> = None;
    if has_value {
        e = skip_to(s, a + 2, ',');
        value = Some(copy_range(s, a + 2, e));
    }
    let v = Variant { attributes, name, value };
    assert(v@ == VariantModel {
        attributes: t.subrange(i as int, a as int),
        name: v.name@,
        value: if has_value { Some(t.subrange(a + 2, e as int)) } else { None },
    });
    if e >= s.len() {
        Ok((v, e))
    } else if at_punc(peek(s, e), ',') {
        Ok((v, e + 1))
    } else {
        Err(ParseError::MissingComma(e))
    }
}

/// Reads the variants from position `i` to the end of the input.
fn parse_variants(s: &Vec<TokenTree>, i: usize) -> (r: Result<Vec<Variant>, ParseError>)
    requires
        i <= s.len(),
    ensures
        match r {
            Ok(vs) => variants_from(toks(s@), i as int) == Ok::<_, ParseError>(variant_models(vs@)),
            Err(e) => variants_from(toks(s@), i as int) == Err::<Seq<VariantModel>, _>(e),
        },
{
    let ghost t = toks(s@);
    assert(t.len() == s.len());
    let mut vs: Vec<Variant> = Vec::new();
    let mut j: usize = i;
    while j < s.len()
        invariant
            i <= j <= s.len(),
            t == toks(s@),
            t.len() == s.len(),
            variants_from(t, i as int) == prepend(variant_models(vs@), variants_from(t, j as int)),
        decreases s.len() - j,
    {
        proof {
            lemma_variant_at(t, j as int);
        }
        match parse_variant(s, j) {
            Ok((v, k)) => {
                let ghost before = variant_models(vs@);
                let ghost m = v@;
                vs.push(v);
                proof {
                    assert(variant_models(vs@) =~= before + seq![m]);
                    assert(variants_from(t, j as int) == prepend(seq![m], variants_from(t, k as int)));
                    match variants_from(t, k as int) {
                        Ok(rest) => {
                            assert(before + (seq![m] + rest) =~= (before + seq![m]) + rest);
                        },
                        Err(_) => {},
                    }
                }
                j = k;
            },
            Err(e) => {
                return Err(e);
            },
        }
    }
    assert(variant_models(vs@) + Seq::<VariantModel>::empty() =~= variant_models(vs@));
    Ok(vs)
}

/// Reads an enum description.
pub fn parse_enum(s: &Vec<TokenTree>) -> (r: Result<EnumDef, ParseError>)
    ensures
        match r {
            Ok(d) => parse_spec(toks(s@)) == Ok::<_, ParseError>(d@),
            Err(e) => parse_spec(toks(s@)) == Err::<EnumModel, _>(e),
        },
{
    let ghost t = toks(s@);
    let a = match skip_attributes(s, 0) {
        Some(a) => a,
        None => {
            return Err(ParseError::DanglingHash);
        },
    };
    proof {
        lemma_attrs_end(t, 0);
    }
    if a >= s.len() {
        return Err(ParseError::MissingEnumName(a));
    }
    let name = match &s[a] {
        TokenTree::Ident(n) => n.clone(),
        _ => {
            return Err(ParseError::MissingEnumName(a));
        },
    };
    let r = skip_to(s, a + 1, ';');
    if r >= s.len() {
        return Err(ParseError::MissingSemicolon);
    }
    let variants = match parse_variants(s, r + 1) {
        Ok(vs) => vs,
        Err(e) => {
            return Err(e);
        },
    };
    if variants.len() == 0 {
        return Err(ParseError::NoVariants);
    }
    let attributes = copy_range(s, 0, a);
    let repr = copy_range(s, a + 1, r);
    Ok(EnumDef { attributes, name, repr, variants })
}

} // verus!
