//! The rendered bytes agree with what the `ansi_term` crate produces for
//! the same colors, attributes, and overrides.

use ansi_term::Colour;
use colored::Colorize;

#[test]
fn complex1() {
    let s = "test string";
    let ansi = Colour::Red.on(Colour::Black).bold().italic().paint(s);
    assert_eq!(
        ansi.to_string(),
        s.red().bold().italic().on_black().render(true)
    );
}

#[test]
fn complex2() {
    let s = "test string";
    let ansi = Colour::Green.on(Colour::Yellow).underline().paint(s);
    assert_eq!(
        ansi.to_string(),
        s.green().on_yellow().underline().render(true)
    );
}

#[test]
fn overrides1() {
    let s = "test string";
    let ansi = Colour::Red.on(Colour::Black).on(Colour::Blue).paint(s);
    assert_eq!(ansi.to_string(), s.red().on_blue().render(true));
}

#[test]
fn overrides2() {
    let s = "test string";
    let ansi = Colour::Green.on(Colour::Yellow).paint(s);
    assert_eq!(
        ansi.to_string(),
        s.green().on_yellow().green().on_yellow().render(true)
    );
}

#[test]
fn simple_color_compat() {
    let s = "test string";
    assert_eq!(s.black().render(true), Colour::Black.paint(s).to_string());
    assert_eq!(s.red().render(true), Colour::Red.paint(s).to_string());
    assert_eq!(s.green().render(true), Colour::Green.paint(s).to_string());
    assert_eq!(s.yellow().render(true), Colour::Yellow.paint(s).to_string());
    assert_eq!(s.blue().render(true), Colour::Blue.paint(s).to_string());
    assert_eq!(s.magenta().render(true), Colour::Purple.paint(s).to_string());
    assert_eq!(s.cyan().render(true), Colour::Cyan.paint(s).to_string());
    assert_eq!(s.white().render(true), Colour::White.paint(s).to_string());
}

#[test]
fn simple_bgcolor_compat() {
    let s = "test string";
    let base = ansi_term::Style::default();
    assert_eq!(s.on_black().render(true), base.on(Colour::Black).paint(s).to_string());
    assert_eq!(s.on_red().render(true), base.on(Colour::Red).paint(s).to_string());
    assert_eq!(s.on_green().render(true), base.on(Colour::Green).paint(s).to_string());
    assert_eq!(s.on_yellow().render(true), base.on(Colour::Yellow).paint(s).to_string());
    assert_eq!(s.on_blue().render(true), base.on(Colour::Blue).paint(s).to_string());
    assert_eq!(s.on_magenta().render(true), base.on(Colour::Purple).paint(s).to_string());
    assert_eq!(s.on_cyan().render(true), base.on(Colour::Cyan).paint(s).to_string());
    assert_eq!(s.on_white().render(true), base.on(Colour::White).paint(s).to_string());
}
