use colored::control::ShouldColorize;
use colored::{Color, ColoredString, Colorize, Styles};

const RESET: &str = "\x1B[0m";

/// Renders the way the application-side formatter does: the escape prefix
/// (outside any width directive), the width/precision-formatted escaped
/// text, and the trailing reset.
fn render_padded(c: &ColoredString, inner: String) -> String {
    format!("{}{}{}", c.compute_style(), inner, RESET)
}

#[test]
fn formatting() {
    // respect the formatting. Escape sequence add some padding so >= 40
    let c = "".blue();
    let padded = render_padded(&c, format!("{:40}", c.escape_inner_reset_sequences()));
    assert!(padded.len() >= 40);
    // both should be truncated to 1 char before coloring
    let a = "toto".blue();
    let b = "1".blue();
    let fa = render_padded(&a, format!("{:1.1}", a.escape_inner_reset_sequences()));
    let fb = render_padded(&b, format!("{:1.1}", b.escape_inner_reset_sequences()));
    assert_eq!(fa.len(), fb.len());
}

#[test]
fn it_works() {
    let toto = "toto";
    println!("{}", toto.red().render(true));
    println!("{}", String::from(toto).red().render(true));
    println!("{}", toto.blue().render(true));

    println!("blue style ****");
    println!("{}", toto.bold().render(true));
    println!("{}", "yeah ! Red bold !".red().bold().render(true));
    println!("{}", "yeah ! Yellow bold !".bold().yellow().render(true));
    println!("{}", toto.bold().blue().render(true));
    println!("{}", toto.blue().bold().render(true));
    println!("{}", toto.blue().bold().underline().render(true));
    println!("{}", toto.blue().italic().render(true));
    println!("******");
    println!("test clearing");
    println!("{}", "red cleared".red().clear().render(true));
    println!("{}", "bold cyan cleared".bold().cyan().clear().render(true));
    println!("******");
    println!("Bg tests");
    println!("{}", toto.green().on_blue().render(true));
    println!("{}", toto.on_magenta().yellow().render(true));
    println!("{}", toto.purple().on_yellow().render(true));
    println!("{}", toto.magenta().on_white().render(true));
    println!("{}", toto.cyan().on_green().render(true));
    println!("{}", toto.black().on_white().render(true));
    println!("******");
    println!("{}", toto.green().render(true));
    println!("{}", toto.yellow().render(true));
    println!("{}", toto.purple().render(true));
    println!("{}", toto.magenta().render(true));
    println!("{}", toto.cyan().render(true));
    println!("{}", toto.white().render(true));
    println!("{}", toto.white().red().blue().green().render(true));
    println!("{}", toto.truecolor(255, 0, 0).render(true));
    println!("{}", toto.truecolor(255, 255, 0).render(true));
    println!("{}", toto.on_truecolor(0, 80, 80).render(true));
}

#[test]
fn compute_style_empty_string() {
    assert_eq!("", "".clear().compute_style());
}

#[test]
fn compute_style_simple_fg_blue() {
    let blue = "\x1B[34m";

    assert_eq!(blue, "".blue().compute_style());
}

#[test]
fn compute_style_simple_bg_blue() {
    let on_blue = "\x1B[44m";

    assert_eq!(on_blue, "".on_blue().compute_style());
}

#[test]
fn compute_style_blue_on_blue() {
    let blue_on_blue = "\x1B[44;34m";

    assert_eq!(blue_on_blue, "".blue().on_blue().compute_style());
}

#[test]
fn compute_style_simple_fg_bright_blue() {
    let blue = "\x1B[94m";

    assert_eq!(blue, "".bright_blue().compute_style());
}

#[test]
fn compute_style_simple_bg_bright_blue() {
    let on_blue = "\x1B[104m";

    assert_eq!(on_blue, "".on_bright_blue().compute_style());
}

#[test]
fn compute_style_bright_blue_on_bright_blue() {
    let blue_on_blue = "\x1B[104;94m";

    assert_eq!(blue_on_blue, "".bright_blue().on_bright_blue().compute_style());
}

#[test]
fn compute_style_simple_bold() {
    let bold = "\x1B[1m";

    assert_eq!(bold, "".bold().compute_style());
}

#[test]
fn compute_style_blue_bold() {
    let blue_bold = "\x1B[1;34m";

    assert_eq!(blue_bold, "".blue().bold().compute_style());
}

#[test]
fn compute_style_blue_bold_on_blue() {
    let blue_bold_on_blue = "\x1B[1;44;34m";

    assert_eq!(blue_bold_on_blue, "".blue().bold().on_blue().compute_style());
}

#[test]
fn escape_reset_sequence_spec_should_do_nothing_on_empty_strings() {
    let style = ColoredString::default();
    let expected = String::new();

    let output = style.escape_inner_reset_sequences();

    assert_eq!(expected, output);
}

#[test]
fn escape_reset_sequence_spec_should_do_nothing_on_string_with_no_reset() {
    let style = ColoredString::from("hello world !");

    let expected = String::from("hello world !");
    let output = style.escape_inner_reset_sequences();

    assert_eq!(expected, output);
}

#[test]
fn escape_reset_sequence_spec_should_replace_inner_reset_sequence_with_current_style() {
    let input = format!("start {} end", String::from("hello world !").red().render(true));
    let style = input.blue();

    let output = style.escape_inner_reset_sequences();
    let blue = "\x1B[34m";
    let red = "\x1B[31m";
    let reset = "\x1B[0m";
    let expected = format!("start {}hello world !{}{} end", red, reset, blue);
    assert_eq!(expected, output);
}

#[test]
fn escape_reset_sequence_spec_should_replace_multiple_inner_reset_sequences_with_current_style() {
    let italic_str = String::from("yo").italic().render(true);
    let input = format!("start 1:{} 2:{} 3:{} end", italic_str, italic_str, italic_str);
    let style = input.blue();

    let output = style.escape_inner_reset_sequences();
    let blue = "\x1B[34m";
    let italic = "\x1B[3m";
    let reset = "\x1B[0m";
    let expected = format!(
        "start 1:{}yo{}{} 2:{}yo{}{} 3:{}yo{}{} end",
        italic, reset, blue, italic, reset, blue, italic, reset, blue
    );

    println!("first: {}\nsecond: {}", expected, output);

    assert_eq!(expected, output);
}

#[test]
fn color_fn() {
    assert_eq!("blue".blue(), "blue".color("blue"));
}

#[test]
fn on_color_fn() {
    assert_eq!("blue".on_blue(), "blue".on_color("blue"));
}

#[test]
fn bright_color_fn() {
    assert_eq!("blue".bright_blue(), "blue".color("bright blue"));
}

#[test]
fn on_bright_color_fn() {
    assert_eq!("blue".on_bright_blue(), "blue".on_color("bright blue"));
}

#[test]
fn exposing_tests() {
    let cstring = "".red();
    assert_eq!(cstring.fgcolor(), Some(Color::Red));
    assert_eq!(cstring.bgcolor(), None);

    let cstring = cstring.clear();
    assert_eq!(cstring.fgcolor(), None);
    assert_eq!(cstring.bgcolor(), None);

    let cstring = cstring.blue().on_bright_yellow();
    assert_eq!(cstring.fgcolor(), Some(Color::Blue));
    assert_eq!(cstring.bgcolor(), Some(Color::BrightYellow));

    let cstring = cstring.bold().italic();
    assert_eq!(cstring.fgcolor(), Some(Color::Blue));
    assert_eq!(cstring.bgcolor(), Some(Color::BrightYellow));
    assert!(cstring.style().contains(Styles::Bold));
    assert!(cstring.style().contains(Styles::Italic));
    assert!(!cstring.style().contains(Styles::Dimmed));
}

#[test]
fn render_plain_and_disabled() {
    let plain = ColoredString::from("just text");
    assert_eq!("just text", plain.render(true));
    assert_eq!("just text", plain.render(false));
    let styled = "just text".red().bold();
    assert_eq!("just text", styled.render(false));
}

#[test]
fn render_styled_wraps_text() {
    let styled = "hi".red();
    assert_eq!("\x1B[31mhi\x1B[0m", styled.render(true));
    let styled = "hi".bold().on_blue().yellow();
    assert_eq!("\x1B[1;44;33mhi\x1B[0m", styled.render(true));
}

#[test]
fn render_nested_reinstates_outer_style_and_ends_with_one_reset() {
    let inner = "in".red().render(true);
    let text = format!("a{}b", inner);
    let outer = text.blue();
    let out = outer.render(true);
    assert_eq!("\x1B[34ma\x1B[31min\x1B[0m\x1B[34mb\x1B[0m", out);
    assert!(out.ends_with("\x1B[0m"));
    assert!(!out.ends_with("\x1B[0m\x1B[0m"));
}

#[test]
fn clear_discards_styling_and_keeps_text() {
    let styled = "keep me".red().on_blue().bold().strikethrough();
    let cleared = styled.clear();
    assert!(cleared.is_plain());
    assert_eq!(None, cleared.fgcolor());
    assert_eq!(None, cleared.bgcolor());
    assert_eq!("keep me", cleared.text());
    assert_eq!("keep me", cleared.render(true));

    let renormalized = "again".yellow().underline().normal();
    assert!(renormalized.is_plain());
    assert_eq!("again", renormalized.text());
}

#[test]
fn compose_order_of_flags_is_irrelevant() {
    let one = "x".bold().italic().on_blue();
    let two = "x".italic().bold().on_blue();
    assert_eq!(one, two);
    assert!(one.style().contains(Styles::Bold));
    assert!(one.style().contains(Styles::Italic));
    assert_eq!(Some(Color::Blue), one.bgcolor());
}

#[test]
fn color_fields_last_write_wins() {
    let c = "x".red().blue();
    assert_eq!(Some(Color::Blue), c.fgcolor());
    let c = "x".on_red().on_blue();
    assert_eq!(Some(Color::Blue), c.bgcolor());
    let c = "x".red().on_blue().green();
    assert_eq!(Some(Color::Green), c.fgcolor());
    assert_eq!(Some(Color::Blue), c.bgcolor());
}

#[test]
fn truecolor_styling() {
    let c = "x".truecolor(0, 255, 136);
    assert_eq!("\x1B[38;2;0;255;136mx\x1B[0m", c.render(true));
    let c = "x".on_truecolor(135, 28, 167);
    assert_eq!("\x1B[48;2;135;28;167mx\x1B[0m", c.render(true));
}

#[test]
fn render_with_policy() {
    let mut policy = ShouldColorize::default();
    let styled = "hi".red();
    assert_eq!("\x1B[31mhi\x1B[0m", styled.render_with(&policy));
    policy.set_override(false);
    assert_eq!("hi", styled.render_with(&policy));
    policy.set_override(true);
    assert_eq!("\x1B[31mhi\x1B[0m", styled.render_with(&policy));
    policy.unset_override();
    assert_eq!("\x1B[31mhi\x1B[0m", styled.render_with(&policy));
}
