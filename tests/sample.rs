use primitive_enum::expand::{expand, primitive_enum};
use primitive_enum::parse::{parse_enum, EnumDef, ParseError};
use primitive_enum::resolve::{check_for_default, default_index, is_marked_default, resolve_values};
use primitive_enum::table::EnumTable;
use primitive_enum::token::{
    at_punc, brace_token, copy_tokens, int_token, punc2_tokens, punct_cont_token, Delimiter,
    Literal, Spacing, TokenTree,
};

// Splits `src` into token trees: identifiers, decimal literals, string
// literals, single punctuation characters and bracketed groups.
fn lex(src: &str) -> Vec<TokenTree> {
    let chars: Vec<char> = src.chars().collect();
    let mut pos = 0;
    lex_group(&chars, &mut pos, None)
}

fn lex_group(c: &[char], pos: &mut usize, close: Option<char>) -> Vec<TokenTree> {
    let mut out = Vec::new();
    while *pos < c.len() {
        let ch = c[*pos];
        if ch.is_whitespace() {
            *pos += 1;
        } else if Some(ch) == close {
            *pos += 1;
            return out;
        } else if ch.is_alphabetic() || ch == '_' {
            let start = *pos;
            while *pos < c.len() && (c[*pos].is_alphanumeric() || c[*pos] == '_') {
                *pos += 1;
            }
            out.push(TokenTree::Ident(c[start..*pos].iter().collect()));
        } else if ch.is_ascii_digit() {
            let start = *pos;
            while *pos < c.len() && c[*pos].is_ascii_alphanumeric() {
                *pos += 1;
            }
            out.push(TokenTree::Literal(Literal::Text(c[start..*pos].iter().collect())));
        } else if ch == '"' {
            *pos += 1;
            let start = *pos;
            while c[*pos] != '"' {
                *pos += 1;
            }
            let text: String = c[start..*pos].iter().collect();
            *pos += 1;
            out.push(TokenTree::Literal(Literal::Str(text)));
        } else if ch == '(' || ch == '[' || ch == '{' {
            *pos += 1;
            let (delimiter, closing) = match ch {
                '(' => (Delimiter::Parenthesis, ')'),
                '[' => (Delimiter::Bracket, ']'),
                _ => (Delimiter::Brace, '}'),
            };
            let inner = lex_group(c, pos, Some(closing));
            out.push(TokenTree::Group(delimiter, inner));
        } else {
            *pos += 1;
            out.push(TokenTree::Punct(ch, Spacing::Alone));
        }
    }
    out
}

// Writes token trees back as text, one space between tokens.
fn render(tokens: &[TokenTree]) -> String {
    let parts: Vec<String> = tokens.iter().map(render_one).collect();
    parts.join(" ")
}

fn render_one(t: &TokenTree) -> String {
    match t {
        TokenTree::Ident(s) => s.clone(),
        TokenTree::Punct(c, _) => c.to_string(),
        TokenTree::Literal(Literal::Int(n)) => n.to_string(),
        TokenTree::Literal(Literal::Str(s)) => format!("{:?}", s),
        TokenTree::Literal(Literal::Text(s)) => s.clone(),
        TokenTree::Group(d, inner) => {
            let (open, close) = match d {
                Delimiter::Parenthesis => ("(", ")"),
                Delimiter::Bracket => ("[", "]"),
                Delimiter::Brace => ("{", "}"),
                Delimiter::Invisible => ("", ""),
            };
            format!("{}{}{}", open, render(inner), close)
        }
    }
}

fn def(src: &str) -> EnumDef {
    parse_enum(&lex(src)).unwrap()
}

fn table(src: &str) -> EnumTable {
    EnumTable::new(&def(src)).unwrap()
}

const MY_ENUM: &str = "
    #[doc = \"Some comments about MyEnum\"]
    MyEnum u16 ;
        A,
        B,
        #[doc = \"Some special comments about variant C\"]
        C,
        D = 500,
        E,
";

const MARKER_TYPE: &str = "MarkerType u32 ;
    Markercone = 0, Markercylinder = 1, Markerarrow = 2, Markerarrowflat = 3, Markerflag = 4,
    Markerringflag = 5, Markerring = 6, Markerplane = 7, Markerbikelogo1 = 8,
    Markerbikelogo2 = 9, Markernum0 = 10, Markernum1 = 11, Markernum2 = 12, Markernum3 = 13,
    Markernum4 = 14, Markernum5 = 15, Markernum6 = 16, Markernum7 = 17, Markernum8 = 18,
    Markernum9 = 19, Markerchevron1 = 20, Markerchevron2 = 21, Markerchevron3 = 22,
    Markerringflat = 23, Markerlap = 24, Markerhalo = 25, Markerhalopoint = 26,
    Markerhalorotate = 27, Markersphere = 28, Markermoney = 29, Markerlines = 30,
    Markerbeast = 31, Markerquestionmark = 32, Markertransformplane = 33,
    Markertransformhelicopter = 34, Markertransformboat = 35, Markertransformcar = 36,
    Markertransformbike = 37, Markertransformpushbike = 38, Markertransformtruck = 39,
    Markertransformparachute = 40, Markertransformthruster = 41, Markerwarp = 42,
    Markerboxes = 43, Markerpitlane = 44,
";

const MARKER_NAMES: [&str; 45] = [
    "Markercone", "Markercylinder", "Markerarrow", "Markerarrowflat", "Markerflag",
    "Markerringflag", "Markerring", "Markerplane", "Markerbikelogo1", "Markerbikelogo2",
    "Markernum0", "Markernum1", "Markernum2", "Markernum3", "Markernum4", "Markernum5",
    "Markernum6", "Markernum7", "Markernum8", "Markernum9", "Markerchevron1", "Markerchevron2",
    "Markerchevron3", "Markerringflat", "Markerlap", "Markerhalo", "Markerhalopoint",
    "Markerhalorotate", "Markersphere", "Markermoney", "Markerlines", "Markerbeast",
    "Markerquestionmark", "Markertransformplane", "Markertransformhelicopter",
    "Markertransformboat", "Markertransformcar", "Markertransformbike",
    "Markertransformpushbike", "Markertransformtruck", "Markertransformparachute",
    "Markertransformthruster", "Markerwarp", "Markerboxes", "Markerpitlane",
];

const MARKER_TYPE2: &str = "MarkerType2 u32 ;
    A, B, C, D, E,
    #[default]
    F,
    G,
";

#[test]
fn test_enum_list() {
    let t = table(MY_ENUM);
    let list = t.list();
    assert_eq!(list, vec![0, 1, 2, 3, 4]);
    let names: Vec<&str> = list.iter().map(|&i| t.name(i).as_str()).collect();
    assert_eq!(names, vec!["A", "B", "C", "D", "E"]);

    for &x in &list {
        assert_eq!(t.from(t.value(x)), Some(x));
    }
}

#[test]
fn test_enum_from() {
    let t = table(MY_ENUM);
    assert_eq!(t.from(0), Some(0));
    assert_eq!(t.from(1), Some(1));
    assert_eq!(t.from(2), Some(2));
    assert_eq!(t.from(3), None);
    assert_eq!(t.from(4), None);
    assert_eq!(t.from(500), Some(3));
    assert_eq!(t.from(501), Some(4));
    assert_eq!(t.from(502), None);
}

#[test]
fn test_enum_from_name() {
    let t = table(MY_ENUM);
    assert_eq!(t.from_name("A"), Some(0));
    assert_eq!(t.from_name("B"), Some(1));
    assert_eq!(t.from_name("C"), Some(2));
    assert_eq!(t.from_name("D"), Some(3));
    assert_eq!(t.from_name("E"), Some(4));
    assert_eq!(t.from_name("X"), None);
    assert_eq!(t.from_name("asdf"), None);
}

#[test]
fn test_big_enum() {
    let t = table(MARKER_TYPE);
    assert_eq!(t.len(), 45);
    for (i, name) in MARKER_NAMES.iter().enumerate() {
        assert_eq!(t.name(i).as_str(), *name);
        assert_eq!(t.value(i) as u16, i as u16);
        assert_eq!(t.from_name(name), Some(i));
    }
    assert_eq!(t.value(0), 0);
    assert_eq!(t.value(10), 10);
    assert_eq!(t.value(44), 44);
    assert_eq!(t.from_name("Markercone"), Some(0));
    assert_eq!(t.from_name("Markercylinder"), Some(1));
    assert_eq!(t.from_name("Markerarrow"), Some(2));
    assert_eq!(t.from_name("Markerarrowflat"), Some(3));
    assert_eq!(t.from_name("Markerflag"), Some(4));
    assert_eq!(t.from_name("Markerpitlane"), Some(44));
}

#[test]
fn test_enum_default() {
    let t = table(MARKER_TYPE2);
    assert_eq!(t.default_variant(), 5);
    assert_eq!(t.name(t.default_variant()).as_str(), "F");
    assert_eq!(t.from(0), Some(0));
}

#[test]
fn example_values_and_lookups() {
    let t = table("MyEnum u16 ; A, B, C, D = 500, E,");
    let values: Vec<u64> = (0..t.len()).map(|i| t.value(i)).collect();
    assert_eq!(values, vec![0, 1, 2, 500, 501]);
    assert_eq!(t.from(3), None);
    assert_eq!(t.from(501), Some(4));
    assert_eq!(t.from_name("E"), Some(4));
}

#[test]
fn implicit_values_follow_the_previous_one() {
    // a hexadecimal literal is not a decimal one: the table is not defined
    assert!(EnumTable::new(&def("Codes u8 ; A = 0x10, B,")).is_none());
    let t = table("Codes u8 ; A = 7, B, C = 2, D, E,");
    let values: Vec<u64> = (0..t.len()).map(|i| t.value(i)).collect();
    assert_eq!(values, vec![7, 8, 2, 3, 4]);
}

#[test]
fn default_is_first_without_marker() {
    let t = table(MY_ENUM);
    assert_eq!(t.default_variant(), 0);
    let d = def(MY_ENUM);
    assert_eq!(default_index(&d.variants), 0);
    let d = def(MARKER_TYPE2);
    assert_eq!(default_index(&d.variants), 5);
}

#[test]
fn last_marker_wins() {
    let d = def("E u8 ; #[default] A, B, #[default] C,");
    assert_eq!(default_index(&d.variants), 2);
}

#[test]
fn default_marker_must_be_exact() {
    assert!(is_marked_default(&lex("#[default]")));
    assert!(is_marked_default(&lex("#[doc = \"x\"] #[default]")));
    assert!(!is_marked_default(&lex("#[doc = \"default\"]")));
    assert!(!is_marked_default(&lex("#[defaults]")));
    assert!(!is_marked_default(&lex("")));
}

#[test]
fn value_bounds_follow_the_representation() {
    assert!(EnumTable::new(&def("E u8 ; A = 255,")).is_some());
    assert!(EnumTable::new(&def("E u8 ; A = 255, B,")).is_none());
    assert!(EnumTable::new(&def("E u8 ; A = 256,")).is_none());
    assert!(EnumTable::new(&def("E u16 ; A = 65535,")).is_some());
    assert!(EnumTable::new(&def("E u64 ; A = 18446744073709551615,")).is_some());
    assert!(EnumTable::new(&def("E u64 ; A = 18446744073709551616,")).is_none());
    assert!(EnumTable::new(&def("E i32 ; A,")).is_none());
    assert!(EnumTable::new(&def("E u8 ; A = X + 1,")).is_none());
}

#[test]
fn round_trip_through_values() {
    let t = table(MARKER_TYPE2);
    for i in t.list() {
        assert_eq!(t.from(t.value(i)), Some(i));
        assert_eq!(t.from_name(t.name(i)), Some(i));
    }
}

#[test]
fn equal_values_find_the_first() {
    let t = table("E u8 ; A = 1, B = 1, C,");
    assert_eq!(t.from(1), Some(0));
    assert_eq!(t.from(2), Some(2));
}

#[test]
fn resolved_value_tokens() {
    let d = def("E u16 ; A, B, C = X + 1, D, E = 5, F,");
    let values = resolve_values(&d.variants);
    assert_eq!(render(&values), "0 1 (X + 1) ((X + 1) + 1) 5 (5 + 1)");
}

#[test]
fn parses_the_description() {
    let d = def(MY_ENUM);
    assert_eq!(d.name, "MyEnum");
    assert_eq!(render(&d.attributes), "# [doc = \"Some comments about MyEnum\"]");
    assert_eq!(render(&d.repr), "u16");
    assert_eq!(d.variants.len(), 5);
    assert_eq!(render(&d.variants[2].attributes), "# [doc = \"Some special comments about variant C\"]");
    assert_eq!(d.variants[3].name, "D");
    assert_eq!(render(d.variants[3].value.as_ref().unwrap()), "500");
    assert!(d.variants[4].value.is_none());
}

#[test]
fn last_variant_needs_no_comma() {
    let d = def("E u8 ; A, B");
    assert_eq!(d.variants.len(), 2);
    let d = def("E u8 ; A = 1, B = 2");
    assert_eq!(render(d.variants[1].value.as_ref().unwrap()), "2");
}

#[test]
fn parse_errors() {
    assert_eq!(parse_enum(&lex("#")).err(), Some(ParseError::DanglingHash));
    assert_eq!(parse_enum(&lex("E u8 ; A, #")).err(), Some(ParseError::DanglingHash));
    assert_eq!(parse_enum(&lex("")).err(), Some(ParseError::MissingEnumName(0)));
    assert_eq!(parse_enum(&lex("#[doc = \"x\"] 5 u8 ;")).err(), Some(ParseError::MissingEnumName(2)));
    assert_eq!(parse_enum(&lex("E u8 A,")).err(), Some(ParseError::MissingSemicolon));
    assert_eq!(parse_enum(&lex("E u8 ; 5,")).err(), Some(ParseError::MissingVariantName(3)));
    assert_eq!(parse_enum(&lex("E u8 ; A, #[default]")).err(), Some(ParseError::MissingVariantName(7)));
    assert_eq!(parse_enum(&lex("E u8 ; A B")).err(), Some(ParseError::MissingComma(4)));
    assert_eq!(parse_enum(&lex("E u8 ;")).err(), Some(ParseError::NoVariants));
}

#[test]
fn expands_the_example() {
    let out = primitive_enum(lex("MyEnum u16 ; A, B, C, D = 500, E,")).unwrap();
    assert_eq!(
        render(&out),
        "# [repr (u16)] # [derive (Debug , Clone , Copy , PartialEq , Eq , Hash , Default)] \
         pub enum MyEnum {# [default] A = 0 , B = 1 , C = 2 , D = 500 , E = (500 + 1) ,} \
         impl MyEnum {\
         pub fn from (x : u16) - > Option < MyEnum > {\
         if x = = 0 {return Some (MyEnum : : A)} \
         if x = = 1 {return Some (MyEnum : : B)} \
         if x = = 2 {return Some (MyEnum : : C)} \
         if x = = 500 {return Some (MyEnum : : D)} \
         if x = = (500 + 1) {return Some (MyEnum : : E)} None} \
         pub fn from_name (name : & str) - > Option < MyEnum > {\
         if name = = \"A\" {return Some (MyEnum : : A)} \
         if name = = \"B\" {return Some (MyEnum : : B)} \
         if name = = \"C\" {return Some (MyEnum : : C)} \
         if name = = \"D\" {return Some (MyEnum : : D)} \
         if name = = \"E\" {return Some (MyEnum : : E)} None} \
         pub fn list () - > & ' static [MyEnum] {& [MyEnum : : A , MyEnum : : B , MyEnum : : C , MyEnum : : D , MyEnum : : E ,]}}"
    );
}

#[test]
fn expansion_keeps_a_given_default() {
    let out = expand(def(MARKER_TYPE2));
    let text = render(&out);
    assert!(text.contains("{A = 0 , B = 1 , C = 2 , D = 3 , E = 4 , # [default] F = 5 , G = 6 ,}"));
    assert_eq!(text.matches("default").count(), 1);
}

#[test]
fn expansion_reports_parse_errors() {
    assert_eq!(primitive_enum(lex("E u8")).err(), Some(ParseError::MissingSemicolon));
}

#[test]
fn token_helpers() {
    assert_eq!(primitive_enum::token::concat(vec![1, 2], vec![3]), vec![1, 2, 3]);
    assert_eq!(primitive_enum::token::concat(Vec::<u8>::new(), vec![]), Vec::<u8>::new());
    let t = lex("# , x");
    assert!(at_punc(Some(&t[0]), '#'));
    assert!(!at_punc(Some(&t[0]), ','));
    assert!(at_punc(Some(&t[1]), ','));
    assert!(!at_punc(Some(&t[2]), 'x'));
    assert!(!at_punc(None, '#'));
    assert!(matches!(punct_cont_token(':'), TokenTree::Punct(':', Spacing::Joint)));
    let arrow = punc2_tokens('-', '>');
    assert!(matches!(arrow[0], TokenTree::Punct('-', Spacing::Joint)));
    assert!(matches!(arrow[1], TokenTree::Punct('>', Spacing::Alone)));
    assert_eq!(render(&[int_token(42)]), "42");
    assert_eq!(render(&[brace_token(lex("a (b [c])"))]), "{a (b [c])}");
    let source = lex("f(x, [1, 2]) { \"s\" }");
    assert_eq!(render(&copy_tokens(&source)), render(&source));
}

#[test]
fn marks_the_first_variant_when_none_is_marked() {
    let mut d = def("E u8 ; #[doc = \"a\"] A, B,");
    check_for_default(&mut d.variants);
    assert_eq!(render(&d.variants[0].attributes), "# [doc = \"a\"] # [default]");
    assert_eq!(render(&d.variants[1].attributes), "");

    let mut d = def(MARKER_TYPE2);
    check_for_default(&mut d.variants);
    assert_eq!(render(&d.variants[0].attributes), "");
    assert_eq!(render(&d.variants[5].attributes), "# [default]");
}
