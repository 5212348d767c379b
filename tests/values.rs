use codemap::{CodeMap, Span};
use sass_value::error::ErrorKind;
use sass_value::number::Number;
use sass_value::ops::Op;
use sass_value::unit::{SimpleUnit, Unit};
use sass_value::value::{Brackets, Color, ListSeparator, QuoteKind, SassFunction, SassMap, Value};

fn span() -> Span {
    let mut map = CodeMap::new();
    let file = map.add_file("input.scss".to_string(), "a { color: red; }".to_string());
    file.span
}

fn plain(n: i128) -> Value {
    Value::Dimension(Some(Number::from_integer(n)), Unit::Dimensionless, false)
}

fn dim(n: i128, u: SimpleUnit) -> Value {
    Value::Dimension(Some(Number::from_integer(n)), Unit::Simple(u), false)
}

fn css(v: &Value) -> String {
    v.to_css_string(span(), false).ok().unwrap()
}

fn unquoted(s: &str) -> Value {
    Value::String(s.to_string(), QuoteKind::Unquoted)
}

fn quoted(s: &str) -> Value {
    Value::String(s.to_string(), QuoteKind::Quoted)
}

fn sum(a: Value, b: Value) -> String {
    css(&a.add(&b, span()).ok().unwrap())
}

#[test]
fn add_inch_and_centimetre() {
    assert_eq!(sum(dim(1, SimpleUnit::In), dim(1, SimpleUnit::Cm)), "1.3937007874in");
}

#[test]
fn add_pixels() {
    assert_eq!(sum(dim(1, SimpleUnit::Px), dim(1, SimpleUnit::Px)), "2px");
}

#[test]
fn add_dimensionless_right() {
    assert_eq!(sum(dim(10, SimpleUnit::Px), plain(10)), "20px");
}

#[test]
fn add_dimensionless_left() {
    assert_eq!(sum(plain(10), dim(10, SimpleUnit::Px)), "20px");
}

#[test]
fn add_unit_table() {
    let cases = [
        (SimpleUnit::In, SimpleUnit::In, "2"), (SimpleUnit::In, SimpleUnit::Pc, "1.1666666667"), (SimpleUnit::In, SimpleUnit::Mm, "1.0393700787"), (SimpleUnit::In, SimpleUnit::Q, "1.0098425197"),
        (SimpleUnit::In, SimpleUnit::Pt, "1.0138888889"), (SimpleUnit::In, SimpleUnit::Px, "1.0104166667"), (SimpleUnit::Cm, SimpleUnit::Pc, "1.4233333333"), (SimpleUnit::Cm, SimpleUnit::Mm, "1.1"),
        (SimpleUnit::Cm, SimpleUnit::Q, "1.025"), (SimpleUnit::Cm, SimpleUnit::Pt, "1.0352777778"), (SimpleUnit::Cm, SimpleUnit::Px, "1.0264583333"), (SimpleUnit::Pc, SimpleUnit::In, "7"),
        (SimpleUnit::Pc, SimpleUnit::Cm, "3.3622047244"), (SimpleUnit::Pc, SimpleUnit::Mm, "1.2362204724"), (SimpleUnit::Pc, SimpleUnit::Q, "1.0590551181"), (SimpleUnit::Pc, SimpleUnit::Pt, "1.0833333333"),
        (SimpleUnit::Pc, SimpleUnit::Px, "1.0625"), (SimpleUnit::Mm, SimpleUnit::In, "26.4"), (SimpleUnit::Mm, SimpleUnit::Cm, "11"), (SimpleUnit::Mm, SimpleUnit::Pc, "5.2333333333"), (SimpleUnit::Mm, SimpleUnit::Q, "1.25"),
        (SimpleUnit::Mm, SimpleUnit::Pt, "1.3527777778"), (SimpleUnit::Mm, SimpleUnit::Px, "1.2645833333"), (SimpleUnit::Q, SimpleUnit::In, "102.6"), (SimpleUnit::Q, SimpleUnit::Cm, "41"),
        (SimpleUnit::Q, SimpleUnit::Pc, "17.9333333333"), (SimpleUnit::Q, SimpleUnit::Mm, "5"), (SimpleUnit::Q, SimpleUnit::Pt, "2.4111111111"), (SimpleUnit::Q, SimpleUnit::Px, "2.0583333333"),
        (SimpleUnit::Pt, SimpleUnit::In, "73"), (SimpleUnit::Pt, SimpleUnit::Cm, "29.3464566929"), (SimpleUnit::Pt, SimpleUnit::Pc, "13"), (SimpleUnit::Pt, SimpleUnit::Mm, "3.8346456693"),
        (SimpleUnit::Pt, SimpleUnit::Q, "1.7086614173"), (SimpleUnit::Pt, SimpleUnit::Px, "1.75"), (SimpleUnit::Px, SimpleUnit::In, "97"), (SimpleUnit::Px, SimpleUnit::Cm, "38.7952755906"),
        (SimpleUnit::Px, SimpleUnit::Pc, "17"), (SimpleUnit::Px, SimpleUnit::Mm, "4.7795275591"), (SimpleUnit::Px, SimpleUnit::Q, "1.9448818898"), (SimpleUnit::Px, SimpleUnit::Pt, "2.3333333333"),
        (SimpleUnit::Deg, SimpleUnit::Grad, "1.9"), (SimpleUnit::Deg, SimpleUnit::Rad, "58.2957795131"), (SimpleUnit::Deg, SimpleUnit::Turn, "361"), (SimpleUnit::Grad, SimpleUnit::Deg, "2.1111111111"),
        (SimpleUnit::Grad, SimpleUnit::Rad, "64.6619772368"), (SimpleUnit::Grad, SimpleUnit::Turn, "401"), (SimpleUnit::Rad, SimpleUnit::Deg, "1.0174532925"),
        (SimpleUnit::Rad, SimpleUnit::Grad, "1.0157079633"), (SimpleUnit::Rad, SimpleUnit::Turn, "7.2831853072"), (SimpleUnit::Turn, SimpleUnit::Deg, "1.0027777778"),
        (SimpleUnit::Turn, SimpleUnit::Grad, "1.0025"), (SimpleUnit::Turn, SimpleUnit::Rad, "1.1591549431"), (SimpleUnit::S, SimpleUnit::Ms, "1.001"), (SimpleUnit::Ms, SimpleUnit::S, "1001"),
        (SimpleUnit::Hz, SimpleUnit::Khz, "1001"), (SimpleUnit::Khz, SimpleUnit::Hz, "1.001"), (SimpleUnit::Dpi, SimpleUnit::Dppx, "97"), (SimpleUnit::Dpcm, SimpleUnit::Dpi, "1.3937007874"),
        (SimpleUnit::Dpcm, SimpleUnit::Dppx, "38.7952755906"), (SimpleUnit::Dppx, SimpleUnit::Dpi, "1.0104166667"), (SimpleUnit::Dppx, SimpleUnit::Dpcm, "1.0264583333"),
    ];
    for (a, b, out) in cases {
        let expected = format!("{}{}", out, a.name());
        assert_eq!(sum(dim(1, a), dim(1, b)), expected);
    }
}

#[test]
fn add_incompatible_units() {
    let e = dim(1, SimpleUnit::Px).add(&dim(1, SimpleUnit::S), span()).err().unwrap();
    assert_eq!(e.kind, ErrorKind::IncompatibleUnits);
    assert_eq!(e.message, "Incompatible units s and px.");
}

#[test]
fn equal_dimensions() {
    assert!(dim(10, SimpleUnit::Px) == dim(10, SimpleUnit::Px));
    assert!(dim(10, SimpleUnit::Px) != dim(11, SimpleUnit::Px));
    assert!(dim(1, SimpleUnit::In) == dim(96, SimpleUnit::Px));
    assert!(dim(1, SimpleUnit::Px) != plain(1));
    assert!(dim(1, SimpleUnit::Px) != dim(1, SimpleUnit::S));
}

#[test]
fn not_a_number_is_never_equal() {
    let nan = Value::Dimension(None, Unit::Simple(SimpleUnit::Px), false);
    let nan2 = Value::Dimension(None, Unit::Simple(SimpleUnit::Px), false);
    assert!(!nan.equals(&nan2));
    assert!(nan.not_equals(&nan2));
}

#[test]
fn arglist_equals_comma_list() {
    let args = Value::ArgList(vec![plain(1).span(span())]);
    let list = Value::List(vec![plain(1)], ListSeparator::Comma, Brackets::Unbracketed);
    assert!(args == list);
    assert!(list == args);
    assert!(!list.not_equals(&args));
    let empty_list = Value::List(vec![], ListSeparator::Comma, Brackets::Unbracketed);
    let empty_args = Value::ArgList(vec![]);
    assert!(empty_list == empty_args);
    let bracketed = Value::List(vec![plain(1)], ListSeparator::Comma, Brackets::Bracketed);
    assert!(bracketed != Value::ArgList(vec![plain(1).span(span())]));
    let other = Value::List(vec![plain(2)], ListSeparator::Comma, Brackets::Unbracketed);
    assert!(other != Value::ArgList(vec![plain(1).span(span())]));
    let space = Value::List(vec![plain(1)], ListSeparator::Space, Brackets::Unbracketed);
    assert!(args != space);
}

#[test]
fn strings_ignore_quotes_in_equality() {
    assert!(quoted("a") == unquoted("a"));
    assert!(quoted("a") != unquoted("b"));
}

#[test]
fn lists_compare_separator_and_brackets() {
    let a = Value::List(vec![plain(1), plain(2)], ListSeparator::Comma, Brackets::Unbracketed);
    let b = Value::List(vec![plain(1), plain(2)], ListSeparator::Comma, Brackets::Unbracketed);
    let c = Value::List(vec![plain(1), plain(2)], ListSeparator::Space, Brackets::Unbracketed);
    let d = Value::List(vec![plain(1), plain(2)], ListSeparator::Comma, Brackets::Bracketed);
    assert!(a == b);
    assert!(a != c);
    assert!(a != d);
}

#[test]
fn empty_list_nullity() {
    assert!(Value::List(vec![], ListSeparator::Space, Brackets::Unbracketed).is_null());
    assert!(!Value::List(vec![], ListSeparator::Space, Brackets::Bracketed).is_null());
}

#[test]
fn nullity_rules() {
    assert!(Value::Null.is_null());
    assert!(unquoted("").is_null());
    assert!(!quoted("").is_null());
    assert!(Value::List(vec![Value::Null, unquoted("")], ListSeparator::Comma, Brackets::Unbracketed).is_null());
    assert!(!Value::List(vec![Value::Null, plain(1)], ListSeparator::Comma, Brackets::Unbracketed).is_null());
    assert!(!Value::ArgList(vec![]).is_null());
    assert!(Value::ArgList(vec![Value::Null.span(span())]).is_null());
}

#[test]
fn truthiness() {
    assert!(!Value::Null.is_true());
    assert!(!Value::False.is_true());
    assert!(Value::True.is_true());
    assert!(plain(0).is_true());
    assert!(unquoted("").is_true());
}

#[test]
fn only_single_quotes_use_double_quotes() {
    assert_eq!(css(&quoted("a'b")), "\"a'b\"");
}

#[test]
fn only_double_quotes_use_single_quotes() {
    assert_eq!(css(&quoted("a\"b")), "'a\"b'");
}

#[test]
fn both_quotes_escape_double() {
    assert_eq!(css(&quoted("a'b\"c")), "\"a'b\\\"c\"");
    assert_eq!(css(&quoted("a\"b'c")), "\"a\\\"b'c\"");
}

#[test]
fn quoted_escapes() {
    assert_eq!(css(&quoted("a\\b")), "\"a\\\\b\"");
    assert_eq!(css(&quoted("a\u{1}z")), "\"a\\1z\"");
    assert_eq!(css(&quoted("a\u{1}b")), "\"a\\1 b\"");
    assert_eq!(css(&quoted("a\u{1f} ")), "\"a\\1f  \"");
    assert_eq!(css(&quoted("x\u{1}")), "\"x\\1\"");
}

#[test]
fn unquoted_newlines() {
    assert_eq!(css(&unquoted("a\n   b")), "a b");
    assert_eq!(css(&unquoted("a  b")), "a  b");
    assert_eq!(css(&unquoted("a\nb")), "a b");
}

#[test]
fn comma_list_join() {
    let l = Value::List(vec![plain(1), plain(2), plain(3)], ListSeparator::Comma, Brackets::Unbracketed);
    assert_eq!(l.to_css_string(span(), false).ok().unwrap(), "1, 2, 3");
    assert_eq!(l.to_css_string(span(), true).ok().unwrap(), "1,2,3");
    let b = Value::List(vec![plain(1), Value::Null, plain(3)], ListSeparator::Space, Brackets::Bracketed);
    assert_eq!(css(&b), "[1 3]");
}

#[test]
fn singleton_comma_list_inspect() {
    let l = Value::List(vec![plain(1)], ListSeparator::Comma, Brackets::Unbracketed);
    assert_eq!(l.inspect(span()).ok().unwrap(), "(1,)");
    assert_eq!(css(&l), "1");
}

#[test]
fn inspect_forms() {
    let s = span();
    assert_eq!(Value::List(vec![], ListSeparator::Space, Brackets::Unbracketed).inspect(s).ok().unwrap(), "()");
    assert_eq!(Value::List(vec![], ListSeparator::Comma, Brackets::Bracketed).inspect(s).ok().unwrap(), "[]");
    assert_eq!(Value::List(vec![plain(1)], ListSeparator::Space, Brackets::Bracketed).inspect(s).ok().unwrap(), "[1]");
    assert_eq!(Value::List(vec![plain(1)], ListSeparator::Comma, Brackets::Bracketed).inspect(s).ok().unwrap(), "[1,]");
    assert_eq!(Value::Null.inspect(s).ok().unwrap(), "null");
    let m = Value::Mapping(SassMap { pairs: vec![(unquoted("a"), plain(1)), (unquoted("b"), plain(2))] });
    assert_eq!(m.inspect(s).ok().unwrap(), "(a: 1, b: 2)");
    let f = Value::FunctionRef(SassFunction { name: "foo".to_string(), id: 1 });
    assert_eq!(f.inspect(s).ok().unwrap(), "get-function(\"foo\")");
    let a = Value::ArgList(vec![plain(1).span(s), plain(2).span(s)]);
    assert_eq!(a.inspect(s).ok().unwrap(), "1, 2");
    assert_eq!(Value::ArgList(vec![plain(1).span(s)]).inspect(s).ok().unwrap(), "(1,)");
    assert_eq!(Value::ArgList(vec![]).inspect(s).ok().unwrap(), "()");
}

#[test]
fn invalid_css_values() {
    let s = span();
    let m = Value::Mapping(SassMap { pairs: vec![(unquoted("a"), plain(1))] });
    let e = m.to_css_string(s, false).err().unwrap();
    assert_eq!(e.kind, ErrorKind::InvalidCss);
    assert_eq!(e.message, "(a: 1) isn't a valid CSS value.");
    let f = Value::FunctionRef(SassFunction { name: "foo".to_string(), id: 1 });
    assert_eq!(f.to_css_string(s, false).err().unwrap().kind, ErrorKind::InvalidCss);
    let e = Value::ArgList(vec![]).to_css_string(s, false).err().unwrap();
    assert_eq!(e.message, "() isn't a valid CSS value.");
    let compound = Value::Dimension(Some(Number::from_integer(1)), Unit::Mul(vec![SimpleUnit::Px, SimpleUnit::Px]), false);
    let e = compound.to_css_string(s, false).err().unwrap();
    assert_eq!(e.message, "1px*px isn't a valid CSS value.");
}

#[test]
fn scalar_outputs() {
    assert_eq!(css(&Value::Important), "!important");
    assert_eq!(css(&Value::True), "true");
    assert_eq!(css(&Value::False), "false");
    assert_eq!(css(&Value::Null), "");
    assert_eq!(css(&Value::Color(Color { repr: "red".to_string() })), "red");
    assert_eq!(css(&Value::Dimension(None, Unit::Simple(SimpleUnit::Px), false)), "NaNpx");
    let args = Value::ArgList(vec![plain(1).span(span()), Value::Null.span(span()), plain(2).span(span())]);
    assert_eq!(args.to_css_string(span(), true).ok().unwrap(), "1,2");
}

#[test]
fn multiply_by_number_keeps_unit() {
    let p = dim(3, SimpleUnit::Px).mul(&plain(2), span()).ok().unwrap();
    assert_eq!(css(&p), "6px");
    let q = plain(2).mul(&dim(3, SimpleUnit::Px), span()).ok().unwrap();
    assert_eq!(css(&q), "6px");
    let r = plain(1).mul(&plain(1), span()).ok().unwrap().mul(&plain(1), span()).ok().unwrap();
    assert_eq!(css(&r), "1");
}

#[test]
fn multiply_units_compound() {
    let s = span();
    let p = dim(1, SimpleUnit::Px).mul(&dim(1, SimpleUnit::Rad), s).ok().unwrap().mul(&dim(1, SimpleUnit::Em), s).ok().unwrap();
    match p {
        Value::Dimension(_, u, _) => assert_eq!(u.to_text(), "px*rad*em"),
        _ => panic!("not a number"),
    }
    let q = dim(1, SimpleUnit::Px).mul(&dim(1, SimpleUnit::Px), s).ok().unwrap();
    match q {
        Value::Dimension(_, u, _) => assert_eq!(u.to_text(), "px*px"),
        _ => panic!("not a number"),
    }
}

#[test]
fn unit_division() {
    let px = Unit::Simple(SimpleUnit::Px);
    let s = Unit::Simple(SimpleUnit::S);
    assert_eq!(px.div(&px).to_text(), "");
    assert_eq!(px.div(&s).to_text(), "px/s");
}

#[test]
fn ordering() {
    let s = span();
    let o = dim(1, SimpleUnit::In).cmp(&dim(95, SimpleUnit::Px), s, Op::GreaterThan).ok().unwrap();
    assert_eq!(o, std::cmp::Ordering::Greater);
    let o = plain(1).cmp(&dim(2, SimpleUnit::Px), s, Op::LessThan).ok().unwrap();
    assert_eq!(o, std::cmp::Ordering::Less);
    let e = dim(1, SimpleUnit::Px).cmp(&dim(1, SimpleUnit::S), s, Op::LessThan).err().unwrap();
    assert_eq!(e.kind, ErrorKind::IncompatibleUnits);
    let e = unquoted("a").cmp(&plain(1), s, Op::LessThan).err().unwrap();
    assert_eq!(e.kind, ErrorKind::UndefinedOperation);
    assert_eq!(e.message, "Undefined operation \"a < 1\".");
    let nan = Value::Dimension(None, Unit::Dimensionless, false);
    assert_eq!(nan.cmp(&plain(1), s, Op::LessThan).err().unwrap().kind, ErrorKind::UndefinedOperation);
}

#[test]
fn number_display() {
    assert_eq!(Number::ratio(1, 3).to_text(), "0.3333333333");
    assert_eq!(Number::ratio(2, 3).to_text(), "0.6666666667");
    assert_eq!(Number::ratio(-3, 2).to_text(), "-1.5");
    assert_eq!(Number::ratio(1, 4).to_text(), "0.25");
    assert_eq!(Number::from_integer(-7).to_text(), "-7");
    assert_eq!(Number::from_integer(0).to_text(), "0");
}

#[test]
fn number_rounding() {
    assert_eq!(Number::ratio(5, 2).round().to_text(), "3");
    assert_eq!(Number::ratio(-5, 2).round().to_text(), "-3");
    assert_eq!(Number::ratio(7, 3).ceil().to_text(), "3");
    assert_eq!(Number::ratio(-7, 3).floor().to_text(), "-3");
    assert_eq!(Number::ratio(-7, 3).to_integer().to_text(), "-2");
}

#[test]
fn number_arithmetic() {
    let a = Number::ratio(1, 2);
    let b = Number::ratio(1, 3);
    assert_eq!(a.add(&b).to_text(), "0.8333333333");
    assert_eq!(a.sub(&b).to_text(), "0.1666666667");
    assert_eq!(a.mul(&b).to_text(), "0.1666666667");
    assert_eq!(a.div(&b).to_text(), "1.5");
    assert!(Number::ratio(2, 4).equals(&a));
}

#[test]
fn display_round_trip_within_precision() {
    let n = Number::ratio(22, 7);
    let text = n.to_text();
    let parsed: f64 = text.parse().unwrap();
    assert!((parsed - 22.0 / 7.0).abs() <= 1e-10);
}

#[test]
fn kinds() {
    assert_eq!(Value::Important.kind(), "string");
    assert_eq!(plain(1).kind(), "number");
    assert_eq!(Value::ArgList(vec![]).kind(), "arglist");
    assert_eq!(Value::True.kind(), "bool");
    assert_eq!(Value::Mapping(SassMap { pairs: vec![] }).kind(), "map");
}

#[test]
fn unquote_lists() {
    let l = Value::List(vec![quoted("a"), plain(1)], ListSeparator::Space, Brackets::Unbracketed).unquote();
    assert_eq!(css(&l), "a 1");
}

#[test]
fn as_list_forms() {
    let m = Value::Mapping(SassMap { pairs: vec![(unquoted("a"), plain(1))] });
    let l = m.as_list();
    assert_eq!(l.len(), 1);
    assert_eq!(css(&l[0]), "a 1");
    assert_eq!(plain(3).as_list().len(), 1);
}

#[test]
fn selector_strings() {
    let s = span();
    let inner = Value::List(vec![unquoted("a"), unquoted("b")], ListSeparator::Space, Brackets::Unbracketed);
    let l = Value::List(vec![inner, unquoted("c")], ListSeparator::Comma, Brackets::Unbracketed);
    assert_eq!(l.to_selector("sel", s).ok().unwrap(), "a b, c");
    let bad = Value::List(vec![plain(1)], ListSeparator::Comma, Brackets::Unbracketed);
    let e = bad.to_selector("sel", s).err().unwrap();
    assert_eq!(e.kind, ErrorKind::InvalidSelector);
    assert_eq!(
        e.message,
        "$sel: (1,) is not a valid selector: it must be a string, a list of strings, or a list of lists of strings."
    );
    assert!(Value::List(vec![], ListSeparator::Comma, Brackets::Unbracketed).selector_string().is_none());
}

#[test]
fn special_functions() {
    assert!(unquoted("calc(1px + 2px)").is_special_function());
    assert!(!quoted("calc(1px)").is_special_function());
    assert!(!unquoted("foo(1)").is_special_function());
}

#[test]
fn map_insert_replaces_equal_key() {
    let mut m = SassMap::new();
    m.insert(unquoted("a"), plain(1));
    m.insert(unquoted("b"), plain(2));
    m.insert(quoted("a"), plain(3));
    assert_eq!(m.pairs.len(), 2);
    assert_eq!(Value::Mapping(m).inspect(span()).ok().unwrap(), "(a: 3, b: 2)");
}

#[test]
fn forced_double_quotes() {
    let mut buf = String::from("x=");
    sass_value::escape::visit_quoted_string(&mut buf, true, "a\"b");
    assert_eq!(buf, "x=\"a\\\"b\"");
}

#[test]
fn rounding_carries_into_earlier_digits() {
    assert_eq!(Number::ratio(99999999996, 100000000000).to_text(), "1");
    assert_eq!(Number::ratio(199999999996, 100000000000).to_text(), "2");
    assert_eq!(Number::ratio(12999999999996, 100000000000000).to_text(), "0.13");
    let v = Value::Dimension(Some(Number::ratio(99999999996, 100000000000)), Unit::Simple(SimpleUnit::Px), false);
    assert_eq!(css(&v), "1px");
}

#[test]
fn display_drops_trailing_zeros() {
    assert_eq!(Number::ratio(12345678901, 100000000000).to_text(), "0.123456789");
    assert_eq!(Number::ratio(-1, 100000000000).to_text(), "0");
    assert_eq!(Number::ratio(-1, 3).to_text(), "-0.3333333333");
}

#[test]
fn hex_text() {
    assert_eq!(Number::from_integer(255).to_hex_text(), "ff");
    assert_eq!(Number::from_integer(10).to_hex_text(), "0a");
    assert_eq!(Number::from_integer(256).to_hex_text(), "100");
    assert_eq!(Number::ratio(31, 2).to_hex_text(), "0f");
    assert_eq!(Number::from_integer(-1).to_hex_text(), "-1");
}

#[test]
fn ordering_messages() {
    let s = span();
    let e = dim(1, SimpleUnit::Px).cmp(&dim(1, SimpleUnit::Deg), s, Op::LessThan).err().unwrap();
    assert_eq!(e.message, "Incompatible units deg and px.");
    let e = Value::True.cmp(&dim(1, SimpleUnit::Px), s, Op::GreaterThan).err().unwrap();
    assert_eq!(e.message, "Undefined operation \"true > 1px\".");
    let nan = Value::Dimension(None, Unit::Dimensionless, false);
    let e = nan.cmp(&plain(1), s, Op::LessThanEqual).err().unwrap();
    assert_eq!(e.message, "Undefined operation \"NaN <= 1\".");
    let e = plain(1).mul(&unquoted("a"), s).err().unwrap();
    assert_eq!(e.message, "Undefined operation \"1 * a\".");
}

#[test]
fn compound_unit_error_ignores_compression() {
    let v = Value::Dimension(Some(Number::ratio(3, 2)), Unit::Div(vec![SimpleUnit::Px], vec![SimpleUnit::S]), false);
    let a = v.to_css_string(span(), true).err().unwrap();
    let b = v.to_css_string(span(), false).err().unwrap();
    assert_eq!(a.message, "1.5px/s isn't a valid CSS value.");
    assert_eq!(a.message, b.message);
    let nested = Value::List(vec![plain(1), Value::FunctionRef(SassFunction { name: "f".to_string(), id: 2 })], ListSeparator::Space, Brackets::Unbracketed);
    assert_eq!(nested.to_css_string(span(), false).err().unwrap().message, "get-function(\"f\") isn't a valid CSS value.");
}
