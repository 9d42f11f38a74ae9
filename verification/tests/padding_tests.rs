use tola::markup::Attr;
use tola::padding::{
    pad_attrs, pad_height, pad_svg, pad_view_box, raise, read_decimal, Decimal,
};
use tola::rewrite::RawSvg;

fn chars(text: &str) -> Vec<char> {
    text.chars().collect()
}

fn raised(text: &str, amount: i64) -> String {
    raise(read_decimal(&chars(text)).unwrap(), amount).iter().collect()
}

fn attr(key: &str, value: &str) -> Attr {
    Attr { key: key.to_string(), value: value.to_string() }
}

#[test]
fn decimals_are_read_with_sign_and_point() {
    assert_eq!(read_decimal(&chars("12.50")), Some(Decimal { negative: false, scaled: 1250, places: 2 }));
    assert_eq!(read_decimal(&chars("-0.5")), Some(Decimal { negative: true, scaled: 5, places: 1 }));
    assert_eq!(read_decimal(&chars("+7")), Some(Decimal { negative: false, scaled: 7, places: 0 }));
    assert_eq!(read_decimal(&chars(".5")), Some(Decimal { negative: false, scaled: 5, places: 1 }));
    assert_eq!(read_decimal(&chars("5.")), Some(Decimal { negative: false, scaled: 5, places: 0 }));
    assert_eq!(read_decimal(&chars("123456789012345")).map(|d| d.scaled), Some(123456789012345));
    assert_eq!(read_decimal(&chars("1234567890123456")), None);
    assert_eq!(read_decimal(&chars("")), None);
    assert_eq!(read_decimal(&chars("-")), None);
    assert_eq!(read_decimal(&chars(".")), None);
    assert_eq!(read_decimal(&chars("1.2.3")), None);
    assert_eq!(read_decimal(&chars("1e3")), None);
    assert_eq!(read_decimal(&chars("--1")), None);
    assert_eq!(read_decimal(&chars("1 ")), None);
}

#[test]
fn whole_units_are_added_exactly() {
    assert_eq!(raised("12.34", 5), "17.34");
    assert_eq!(raised("12.50", 5), "17.5");
    assert_eq!(raised("12.00", 5), "17");
    assert_eq!(raised("0", 0), "0");
    assert_eq!(raised("0.0", 0), "0");
    assert_eq!(raised("-0", 0), "0");
    assert_eq!(raised("3", -5), "-2");
    assert_eq!(raised("3.25", -5), "-1.75");
    assert_eq!(raised("-3.25", 5), "1.75");
    assert_eq!(raised("5", -5), "0");
    assert_eq!(raised("4.999", -5), "-0.001");
    assert_eq!(raised("0.05", 9), "9.05");
    assert_eq!(raised("100.100", 9), "109.1");
    assert_eq!(raised("999999999999.999", 1000), "1000000000999.999");
}

#[test]
fn height_grows_at_the_top() {
    assert_eq!(pad_height("12.5pt"), "17.5pt");
    assert_eq!(pad_height("12"), "17pt");
    assert_eq!(pad_height("0.25ptpt"), "5.25pt");
    assert_eq!(pad_height("100%"), "100%");
    assert_eq!(pad_height("auto"), "auto");
    assert_eq!(pad_height(""), "");
    assert_eq!(pad_height("pt"), "pt");
}

#[test]
fn view_box_grows_at_the_top_and_the_bottom() {
    assert_eq!(pad_view_box("0 0 100 50"), "0 -5 100 59");
    assert_eq!(pad_view_box("  0.0\t-1.5  20.25 10.5 "), "0 -6.5 20.25 19.5");
    assert_eq!(pad_view_box("0 0 100"), "0 0 100");
    assert_eq!(pad_view_box("0 0 100 50 1"), "0 0 100 50 1");
    assert_eq!(pad_view_box("0,0,100,50"), "0,0,100,50");
    assert_eq!(pad_view_box("0 0 a 50"), "0 0 a 50");
}

#[test]
fn only_height_and_view_box_are_padded() {
    let attrs = vec![
        attr("class", "typst-frame"),
        attr("width", "10pt"),
        attr("height", "20pt"),
        attr("viewBox", "0 0 10 20"),
    ];
    assert_eq!(
        pad_attrs(&attrs),
        vec![
            attr("class", "typst-frame"),
            attr("width", "10pt"),
            attr("height", "25pt"),
            attr("viewBox", "0 -5 10 29"),
        ]
    );
    let svg = RawSvg { attrs, inner: "<g/></svg>".to_string() };
    assert_eq!(
        pad_svg(&svg),
        "<svg class=\"typst-frame\" width=\"10pt\" height=\"25pt\" viewBox=\"0 -5 10 29\"><g/></svg>"
    );
}
