use exercises::color_string::{ColorString, Colorize, BG_YELLOW, FG_RED, RESET};

#[test]
fn red_wraps_text_in_foreground_code() {
    assert_eq!("hello".red().render(), "\x1B[31mhello\x1B[0m");
}

#[test]
fn on_yellow_wraps_text_in_background_code() {
    assert_eq!("hello".on_yellow().render(), "\x1B[43mhello\x1B[0m");
}

#[test]
fn background_then_foreground() {
    assert_eq!("hello".on_yellow().red().render(), "\x1B[43;31mhello\x1B[0m");
}

#[test]
fn foreground_then_background() {
    assert_eq!("hello".red().on_yellow().render(), "\x1B[43;31mhello\x1B[0m");
}

#[test]
fn order_of_operations_makes_no_difference() {
    for text in ["", "a", "hello world", "\x1B[0m", "näive ☃"] {
        assert_eq!(text.red().on_yellow().render(), text.on_yellow().red().render());
        assert_eq!(text.red().on_yellow().render(), format!("\x1B[43;31m{}\x1B[0m", text));
    }
}

#[test]
fn same_operation_twice_is_as_once() {
    for text in ["", "hello", "two words"] {
        assert_eq!(text.red().red().render(), text.red().render());
        assert_eq!(text.on_yellow().on_yellow().render(), text.on_yellow().render());
        assert_eq!(text.red().on_yellow().red().render(), text.red().on_yellow().render());
        assert_eq!(text.on_yellow().red().on_yellow().render(), text.red().on_yellow().render());
    }
}

#[test]
fn empty_text_red() {
    assert_eq!("".red().render(), "\x1B[31m\x1B[0m");
}

#[test]
fn empty_text_on_yellow() {
    assert_eq!("".on_yellow().render(), "\x1B[43m\x1B[0m");
}

#[test]
fn text_is_not_escaped() {
    assert_eq!("a\x1B[0mb;m".red().render(), "\x1B[31ma\x1B[0mb;m\x1B[0m");
}

#[test]
fn no_colour_chosen_renders_empty_style() {
    let plain = ColorString::default();
    assert_eq!(plain.compute_style(), "\x1B[m");
    assert_eq!(plain.render(), "\x1B[m\x1B[0m");
}

#[test]
fn default_takes_colours_like_empty_text() {
    assert_eq!(ColorString::default().red().render(), "".red().render());
    assert_eq!(ColorString::default().on_yellow().render(), "".on_yellow().render());
}

#[test]
fn compute_style_gives_the_prefix_only() {
    assert_eq!("hello".red().compute_style(), "\x1B[31m");
    assert_eq!("hello".on_yellow().compute_style(), "\x1B[43m");
    assert_eq!("hello".red().on_yellow().compute_style(), "\x1B[43;31m");
}

#[test]
fn rendering_leaves_the_value_as_it_is() {
    let styled = "hello".red();
    let first = styled.render();
    let second = styled.render();
    assert_eq!(first, second);
    assert_eq!(styled.on_yellow().render(), "\x1B[43;31mhello\x1B[0m");
}

#[test]
fn style_codes() {
    assert_eq!(FG_RED, "31");
    assert_eq!(BG_YELLOW, "43");
    assert_eq!(RESET, "\x1B[0m");
}
