//! The lookups of an expanded enum, at run time: the value of every variant,
//! and `from`, `from_name`, `list` and the default variant.
//!
//! A variant is named by its position in declaration order.

use vstd::prelude::*;
use crate::token::{Lit, Tok, TokenTree, Literal, toks};
use crate::parse::{EnumDef, EnumModel, VariantModel};
use crate::resolve::{default_of, default_index, resolved, ValueModel};

verus! {

pub open spec fn is_digit(c: char) -> bool {
    '0' <= c && c <= '9'
}

pub open spec fn digit_value(c: char) -> nat {
    (c as u32 - '0' as u32) as nat
}

/// The number that the decimal digits `s` spell.
pub open spec fn digits_value(s: Seq<char>) -> nat
    decreases s.len(),
{
    if s.len() == 0 {
        0
    } else {
        digits_value(s.drop_last()) * 10 + digit_value(s.last())
    }
}

/// The number that `s` spells, where `s` is a non-empty run of decimal
/// digits.
pub open spec fn decimal_value(s: Seq<char>) -> Option<nat> {
    if s.len() > 0 && forall|i: int| 0 <= i < s.len() ==> is_digit(#[trigger] s[i]) {
        Some(digits_value(s))
    } else {
        None
    }
}

/// The number that a token stands for, where it is an integer literal.
pub open spec fn int_value(t: Tok) -> Option<nat> {
    match t {
        Tok::Literal(Lit::Int(n)) => Some(n as nat),
        Tok::Literal(Lit::Text(s)) => decimal_value(s),
        _ => None,
    }
}

/// The number that a value stands for, where its base is an integer
/// literal or absent.
pub open spec fn value_number(v: ValueModel) -> Option<nat> {
    match v.base {
        None => Some(v.offset),
        Some(b) => if b.len() == 1 {
            match int_value(b[0]) {
                Some(n) => Some(n + v.offset),
                None => None,
            }
        } else {
            None
        },
    }
}

/// The number of variant `i`: the literal it is given, else one more than
/// the number of the variant before it, and zero for a first variant
/// without a value.
pub open spec fn number_of(vs: Seq<VariantModel>, i: int) -> Option<nat>
    decreases i,
{
    match vs[i].value {
        Some(e) => if e.len() == 1 {
            int_value(e[0])
        } else {
            None
        },
        None => if i <= 0 {
            Some(0)
        } else {
            match number_of(vs, i - 1) {
                Some(n) => Some(n + 1),
                None => None,
            }
        },
    }
}

/// The largest value of an unsigned representation type.
pub open spec fn repr_max(repr: Seq<Tok>) -> Option<nat> {
    if repr == seq![Tok::Ident("u8"@)] {
        Some(0xff)
    } else if repr == seq![Tok::Ident("u16"@)] {
        Some(0xffff)
    } else if repr == seq![Tok::Ident("u32"@)] {
        Some(0xffff_ffff)
    } else if repr == seq![Tok::Ident("u64"@)] {
        Some(0xffff_ffff_ffff_ffff)
    } else {
        None
    }
}

/// The mathematical value of an [`EnumTable`].
pub struct TableModel {
    pub names: Seq<Seq<char>>,
    pub values: Seq<nat>,
    pub default: int,
}

/// Whether every variant has a number, and each fits in `max`.
pub open spec fn numbers_fit(vs: Seq<VariantModel>, max: nat) -> bool {
    forall|i: int| 0 <= i < vs.len() ==> (#[trigger] number_of(vs, i) matches Some(n) && n <= max)
}

/// The table of a description: defined where it has a variant, its
/// representation is an unsigned integer type, and every value is a literal,
/// or follows one, that fits in it.
pub open spec fn table_of(d: EnumModel) -> Option<TableModel> {
    match repr_max(d.repr) {
        Some(max) => if d.variants.len() > 0 && numbers_fit(d.variants, max) {
            Some(
                TableModel {
                    names: Seq::new(d.variants.len(), |i: int| d.variants[i].name),
                    values: Seq::new(d.variants.len(), |i: int| number_of(d.variants, i)->0),
                    default: default_of(d.variants),
                },
            )
        } else {
            None
        },
        None => None,
    }
}

/// The first of the first `n` positions of `s` that holds `x`.
pub open spec fn first_in<A>(s: Seq<A>, x: A, n: int) -> Option<int>
    decreases n,
{
    if n <= 0 {
        None
    } else {
        match first_in(s, x, n - 1) {
            Some(i) => Some(i),
            None => if s[n - 1] == x {
                Some(n - 1)
            } else {
                None
            },
        }
    }
}

/// The first position of `s` that holds `x`.
pub open spec fn position_of<A>(s: Seq<A>, x: A) -> Option<int> {
    first_in(s, x, s.len() as int)
}

pub proof fn lemma_first_in<A>(s: Seq<A>, x: A, n: int)
    requires
        0 <= n <= s.len(),
    ensures
        match first_in(s, x, n) {
            Some(i) => 0 <= i < n && s[i] == x && forall|j: int| 0 <= j < i ==> s[j] != x,
            None => forall|j: int| 0 <= j < n ==> s[j] != x,
        },
    decreases n,
{
    if n > 0 {
        lemma_first_in(s, x, n - 1);
    }
}

/// The first position that holds `x` is the position `i` that holds it
/// where no earlier one does; where none holds it there is none.
pub proof fn lemma_position_of<A>(s: Seq<A>, x: A, i: int)
    ensures
        (0 <= i < s.len() && s[i] == x && forall|j: int| 0 <= j < i ==> s[j] != x)
            ==> position_of(s, x) == Some(i),
        (forall|j: int| 0 <= j < s.len() ==> s[j] != x) ==> position_of(s, x) is None,
{
    lemma_first_in(s, x, s.len() as int);
}

/// The number of a variant is the number that its value expression stands
/// for, so the table agrees with the emitted enum.
pub proof fn lemma_number_is_value(vs: Seq<VariantModel>, i: int)
    requires
        0 <= i < vs.len(),
    ensures
        number_of(vs, i) == value_number(resolved(vs, i)),
    decreases i,
{
    if i > 0 {
        lemma_number_is_value(vs, i - 1);
    }
}

/// A variant without a value of its own has the number of the variant
/// before it plus one.
pub proof fn lemma_implicit_number(vs: Seq<VariantModel>, i: int)
    requires
        0 < i < vs.len(),
        vs[i].value is None,
    ensures
        number_of(vs, i) == (match number_of(vs, i - 1) {
            Some(n) => Some(n + 1),
            None => None::<nat>,
        }),
{
}

/// Looking up the value of a variant gives that variant, unless an earlier
/// variant has the same value; looking up a value that no variant has gives
/// nothing.
pub proof fn lemma_from_value(t: TableModel, i: int, x: nat)
    requires
        0 <= i < t.values.len(),
        forall|j: int| 0 <= j < i ==> t.values[j] != t.values[i],
    ensures
        position_of(t.values, t.values[i]) == Some(i),
        (forall|j: int| 0 <= j < t.values.len() ==> t.values[j] != x) ==> position_of(t.values, x)
            is None,
{
    lemma_position_of(t.values, t.values[i], i);
    lemma_position_of(t.values, x, i);
}

/// Looking up the name of a variant gives that variant, unless an earlier
/// variant has the same name; looking up a name that no variant has gives
/// nothing.
pub proof fn lemma_from_name(t: TableModel, i: int, name: Seq<char>)
    requires
        0 <= i < t.names.len(),
        forall|j: int| 0 <= j < i ==> t.names[j] != t.names[i],
    ensures
        position_of(t.names, t.names[i]) == Some(i),
        (forall|j: int| 0 <= j < t.names.len() ==> t.names[j] != name) ==> position_of(t.names, name)
            is None,
{
    lemma_position_of(t.names, t.names[i], i);
    lemma_position_of(t.names, name, i);
}

/// Where no two variants share a value, converting any variant to its value
/// and back gives that variant.
pub proof fn lemma_round_trip(t: TableModel)
    requires
        forall|j: int, k: int|
            0 <= j < t.values.len() && 0 <= k < t.values.len() && j != k ==> t.values[j]
                != t.values[k],
    ensures
        forall|i: int| 0 <= i < t.values.len() ==> position_of(t.values, #[trigger] t.values[i]) == Some(i),
{
    assert forall|i: int| 0 <= i < t.values.len() implies position_of(t.values, #[trigger] t.values[i])
        == Some(i) by {
        lemma_position_of(t.values, t.values[i], i);
    }
}

/// The number that the decimal digits `s` spell, where it is at most `limit`.
fn decimal_at_most(s: &String, limit: u64) -> (r: Option<u64>)
    ensures
        match r {
            Some(n) => decimal_value(s@) == Some(n as nat) && n <= limit,
            None => !(decimal_value(s@) matches Some(v) && v <= limit),
        },
{
    let text = s.as_str();
    let n = text.unicode_len();
    if n == 0 {
        return None;
    }
    let mut acc: u64 = 0;
    let mut over = false;
    let mut i: usize = 0;
    while i < n
        invariant
            n == s@.len(),
            text@ == s@,
            i <= n,
            forall|k: int| 0 <= k < i ==> is_digit(#[trigger] s@[k]),
            !over ==> acc == digits_value(s@.subrange(0, i as int)) && acc <= limit,
            over ==> digits_value(s@.subrange(0, i as int)) > limit,
        decreases n - i,
    {
        let c = text.get_char(i);
        if !('0' <= c && c <= '9') {
            assert(!is_digit(s@[i as int]));
            return None;
        }
        let d = (c as u32 - '0' as u32) as u64;
        let ghost prev = digits_value(s@.subrange(0, i as int));
        assert(s@.subrange(0, i + 1).drop_last() =~= s@.subrange(0, i as int));
        assert(digits_value(s@.subrange(0, i + 1)) == prev * 10 + d);
        if !over {
            if d > limit || acc > (limit - d) / 10 {
                assert(prev * 10 + d > limit) by (nonlinear_arith)
                    requires
                        prev == acc,
                        d > limit || acc > (limit - d) / 10,
                        d <= 9,
                ;
                over = true;
            } else {
                assert(acc * 10 + d <= limit) by (nonlinear_arith)
                    requires
                        acc <= (limit - d) / 10,
                        d <= limit,
                ;
                acc = acc * 10 + d;
            }
        } else {
            assert(prev * 10 + d > limit) by (nonlinear_arith)
                requires
                    prev > limit,
            ;
        }
        i += 1;
    }
    assert(s@.subrange(0, n as int) =~= s@);
    if over {
        None
    } else {
        Some(acc)
    }
}

/// The number that the token stands for, where it is an integer literal
/// of at most `limit`.
fn literal_at_most(t: &TokenTree, limit: u64) -> (r: Option<u64>)
    ensures
        match r {
            Some(n) => int_value(t.view()) == Some(n as nat) && n <= limit,
            None => !(int_value(t.view()) matches Some(v) && v <= limit),
        },
{
    match t {
        TokenTree::Literal(Literal::Int(n)) => if *n <= limit {
            Some(*n)
        } else {
            None
        },
        TokenTree::Literal(Literal::Text(s)) => decimal_at_most(s, limit),
        _ => None,
    }
}

/// Whether the tokens are the one identifier `word`.
fn is_single_ident(repr: &Vec<TokenTree>, word: &str) -> (r: bool)
    ensures
        r == (toks(repr@) == seq![Tok::Ident(word@)]),
{
    if repr.len() != 1 {
        assert(toks(repr@).len() != 1);
        return false;
    }
    let w = word.to_owned();
    let r = match &repr[0] {
        TokenTree::Ident(s) => *s == w,
        _ => false,
    };
    if r {
        assert(toks(repr@) =~= seq![Tok::Ident(word@)]);
    } else {
        assert(toks(repr@)[0] != Tok::Ident(word@));
    }
    r
}

/// The largest value of the representation type, where it is an unsigned
/// integer type.
fn repr_limit(repr: &Vec<TokenTree>) -> (r: Option<u64>)
    ensures
        match r {
            Some(m) => repr_max(toks(repr@)) == Some(m as nat),
            None => repr_max(toks(repr@)) is None,
        },
{
    if is_single_ident(repr, "u8") {
        Some(0xff)
    } else if is_single_ident(repr, "u16") {
        Some(0xffff)
    } else if is_single_ident(repr, "u32") {
        Some(0xffff_ffff)
    } else if is_single_ident(repr, "u64") {
        Some(0xffff_ffff_ffff_ffff)
    } else {
        None
    }
}

/// The run-time lookups of one enum.
pub struct EnumTable {
    names: Vec<String>,
    values: Vec<u64>,
    default: usize,
}

impl View for EnumTable {
    type V = TableModel;

    closed spec fn view(&self) -> TableModel {
        TableModel {
            names: self.names@.map_values(|s: String| s@),
            values: self.values@.map_values(|v: u64| v as nat),
            default: self.default as int,
        }
    }
}

impl EnumTable {
    /// The lookups of the enum that `d` describes, where its table is
    /// defined (see [`table_of`]).
    pub fn new(d: &EnumDef) -> (r: Option<EnumTable>)
        ensures
            match r {
                Some(t) => table_of(d@) == Some(t@),
                None => table_of(d@) is None,
            },
    {
        let max = match repr_limit(&d.repr) {
            Some(m) => m,
            None => {
                return None;
            },
        };
        let ghost vs = d@.variants;
        if d.variants.len() == 0 {
            return None;
        }
        let mut names: Vec<String> = Vec::new();
        let mut values: Vec<u64> = Vec::new();
        let mut i: usize = 0;
        while i < d.variants.len()
            invariant
                i <= d.variants.len(),
                vs == d@.variants,
                vs.len() == d.variants.len(),
                repr_max(d@.repr) == Some(max as nat),
                names@.len() == i,
                values@.len() == i,
                forall|k: int|
                    0 <= k < i ==> number_of(vs, k) == Some(#[trigger] values@[k] as nat)
                        && values@[k] <= max,
                forall|k: int| 0 <= k < i ==> (#[trigger] names@[k])@ == vs[k].name,
            decreases d.variants.len() - i,
        {
            let v = &d.variants[i];
            assert(vs[i as int] == v@);
            let n = match &v.value {
                Some(e) => {
                    if e.len() != 1 {
                        assert(!numbers_fit(vs, max as nat) && number_of(vs, i as int) is None);
                        return None;
                    }
                    assert(toks(e@)[0] == e@[0].view());
                    match literal_at_most(&e[0], max) {
                        Some(n) => n,
                        None => {
                            assert(!(number_of(vs, i as int) matches Some(n) && n <= max));
                            return None;
                        },
                    }
                },
                None => if i == 0 {
                    0
                } else {
                    let p = values[i - 1];
                    if p >= max {
                        assert(!(number_of(vs, i as int) matches Some(n) && n <= max));
                        return None;
                    }
                    p + 1
                },
            };
            values.push(n);
            names.push(v.name.clone());
            i += 1;
        }
        assert forall|k: int| 0 <= k < vs.len() implies (#[trigger] number_of(vs, k) matches Some(
            n,
        ) && n <= max) by {
            assert(number_of(vs, k) == Some(values@[k] as nat));
        }
        let default = default_index(&d.variants);
        let t = EnumTable { names, values, default };
        assert(t@.names =~= Seq::new(vs.len(), |k: int| vs[k].name));
        assert(t@.values =~= Seq::new(vs.len(), |k: int| number_of(vs, k)->0));
        Some(t)
    }

    #[verifier::type_invariant]
    spec fn inv(self) -> bool {
        &&& self.names.len() == self.values.len()
        &&& self.default < self.names.len()
    }

    /// The number of variants.
    pub fn len(&self) -> (r: usize)
        ensures
            r == self@.names.len(),
            r == self@.values.len(),
            self@.default < r,
    {
        proof {
            use_type_invariant(self);
        }
        self.names.len()
    }

    /// The name of variant `i`.
    pub fn name(&self, i: usize) -> (r: &String)
        requires
            i < self@.names.len(),
        ensures
            r@ == self@.names[i as int],
    {
        &self.names[i]
    }

    /// The value of variant `i`.
    pub fn value(&self, i: usize) -> (r: u64)
        requires
            i < self@.values.len(),
        ensures
            r as nat == self@.values[i as int],
    {
        self.values[i]
    }

    /// The default variant.
    pub fn default_variant(&self) -> (r: usize)
        ensures
            r as int == self@.default,
            r < self@.names.len(),
    {
        proof {
            use_type_invariant(self);
        }
        self.default
    }

    /// All variants, in declaration order.
    pub fn list(&self) -> (r: Vec<usize>)
        ensures
            r@.len() == self@.names.len(),
            forall|i: int| 0 <= i < r@.len() ==> r@[i] == i,
    {
        let n = self.len();
        let mut r: Vec<usize> = Vec::new();
        let mut i: usize = 0;
        while i < n
            invariant
                i <= n,
                n == self@.names.len(),
                r@.len() == i,
                forall|k: int| 0 <= k < i ==> r@[k] == k,
            decreases n - i,
        {
            r.push(i);
            i += 1;
        }
        r
    }

    /// The first variant whose value is `x`.
    pub fn from(&self, x: u64) -> (r: Option<usize>)
        ensures
            match r {
                Some(i) => position_of(self@.values, x as nat) == Some(i as int),
                None => position_of(self@.values, x as nat) is None,
            },
    {
        let ghost s = self@.values;
        let mut i: usize = 0;
        while i < self.values.len()
            invariant
                i <= self.values.len(),
                s == self@.values,
                s.len() == self.values.len(),
                first_in(s, x as nat, i as int) is None,
            decreases self.values.len() - i,
        {
            if self.values[i] == x {
                proof {
                    lemma_first_in(s, x as nat, i as int);
                    lemma_first_in(s, x as nat, s.len() as int);
                    assert(first_in(s, x as nat, i + 1) == Some(i as int));
                    if let Some(j) = first_in(s, x as nat, s.len() as int) {
                        assert(j == i);
                    }
                }
                return Some(i);
            }
            i += 1;
        }
        None
    }

    /// The first variant whose name is `name`.
    pub fn from_name(&self, name: &str) -> (r: Option<usize>)
        ensures
            match r {
                Some(i) => position_of(self@.names, name@) == Some(i as int),
                None => position_of(self@.names, name@) is None,
            },
    {
        let ghost s = self@.names;
        let wanted = name.to_owned();
        let mut i: usize = 0;
        while i < self.names.len()
            invariant
                i <= self.names.len(),
                s == self@.names,
                s.len() == self.names.len(),
                wanted@ == name@,
                first_in(s, name@, i as int) is None,
            decreases self.names.len() - i,
        {
            if self.names[i] == wanted {
                proof {
                    lemma_first_in(s, name@, i as int);
                    lemma_first_in(s, name@, s.len() as int);
                    assert(first_in(s, name@, i + 1) == Some(i as int));
                    if let Some(j) = first_in(s, name@, s.len() as int) {
                        assert(j == i);
                    }
                }
                return Some(i);
            }
            i += 1;
        }
        None
    }
}

} // verus!
