use colored::style::CLEARV;
use colored::{Style, Styles};

fn style_from_multiples(styles: &[Styles]) -> Style {
    let mut res = Style::default();
    let mut i = 0;
    while i < styles.len() {
        res.add(styles[i]);
        i += 1;
    }
    res
}

fn aggreg_check(styles: &[Styles], expect: &[Styles]) {
    let v = style_from_multiples(styles);
    let r = Styles::from_u8(v.to_u8()).expect("should find styles");
    assert_eq!(expect, &r[..]);
}

fn combine_check(styles: &[Styles]) {
    let v = style_from_multiples(styles);
    let r = Styles::from_u8(v.to_u8()).expect("should find styles");
    assert_eq!(styles, &r[..]);
}

#[test]
fn empty_is_none() {
    assert_eq!(None, Styles::from_u8(CLEARV));
}

#[test]
fn aggreg1() {
    let styles: &[Styles] = &[Styles::Bold, Styles::Bold, Styles::Bold];
    aggreg_check(styles, &[Styles::Bold]);
}

#[test]
fn aggreg2() {
    let styles: &[Styles] = &[Styles::Italic, Styles::Italic, Styles::Bold, Styles::Bold];
    aggreg_check(styles, &[Styles::Bold, Styles::Italic]);
}

#[test]
fn aggreg3() {
    let styles: &[Styles] = &[Styles::Bold, Styles::Italic, Styles::Bold];
    aggreg_check(styles, &[Styles::Bold, Styles::Italic]);
}

#[test]
fn two1() {
    let s: &[Styles] = &[Styles::Bold, Styles::Underline];
    combine_check(s);
}

#[test]
fn two2() {
    let s: &[Styles] = &[Styles::Underline, Styles::Italic];
    combine_check(s);
}

#[test]
fn two3() {
    let s: &[Styles] = &[Styles::Bold, Styles::Italic];
    combine_check(s);
}

#[test]
fn three1() {
    let s: &[Styles] = &[Styles::Bold, Styles::Underline, Styles::Italic];
    combine_check(s);
}

#[test]
fn three2() {
    let s: &[Styles] = &[Styles::Dimmed, Styles::Underline, Styles::Italic];
    combine_check(s);
}

#[test]
fn four() {
    let s: &[Styles] = &[Styles::Dimmed, Styles::Underline, Styles::Italic, Styles::Hidden];
    combine_check(s);
}

#[test]
fn five() {
    let s: &[Styles] = &[
        Styles::Dimmed,
        Styles::Underline,
        Styles::Italic,
        Styles::Blink,
        Styles::Hidden,
    ];
    combine_check(s);
}

#[test]
fn six() {
    let s: &[Styles] = &[
        Styles::Bold,
        Styles::Dimmed,
        Styles::Underline,
        Styles::Italic,
        Styles::Blink,
        Styles::Hidden,
    ];
    combine_check(s);
}

#[test]
fn all() {
    let s: &[Styles] = &[
        Styles::Bold,
        Styles::Dimmed,
        Styles::Underline,
        Styles::Reversed,
        Styles::Italic,
        Styles::Blink,
        Styles::Hidden,
        Styles::Strikethrough,
    ];
    combine_check(s);
}

#[test]
fn test_style_contains() {
    let mut style = Style::default();
    style.add(Styles::Bold);
    style.add(Styles::Italic);

    assert_eq!(style.contains(Styles::Bold), true);
    assert_eq!(style.contains(Styles::Italic), true);
    assert_eq!(style.contains(Styles::Dimmed), false);
}

#[test]
fn styles_value_isomorphism() {
    let masks = [
        Styles::Bold,
        Styles::Underline,
        Styles::Reversed,
        Styles::Italic,
        Styles::Blink,
        Styles::Hidden,
        Styles::Dimmed,
        Styles::Strikethrough,
    ];
    for s in masks {
        let u = Styles::from_u8(s.to_u8()).expect("one bit gives one style");
        assert_eq!(u.len(), 1);
        assert_eq!(u[0].to_u8(), s.to_u8());
    }
}
