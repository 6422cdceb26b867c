use vsh::theme::{
    parse_background_color, parse_color, parse_frag, parse_literal, parse_no_bg_color, parse_style, parse_theme,
    parse_var, Color, Span, Styles,
};

#[test]
fn parse_color_test() {
    let span = Span::new("&[#FF00FF]");
    let r = parse_color(span).unwrap();
    assert_eq!(
        r.1.clone().color().unwrap().color,
        Color {
            red: 255,
            green: 0,
            blue: 255
        }
    );
    assert_eq!(r.1.color().unwrap().end_pos.location_offset(), 10);
}

#[test]
fn parse_background_color_test() {
    let span = Span::new("*[#FF00FF]");
    let r = parse_background_color(span).unwrap();
    assert_eq!(
        r.1.clone().background_color().unwrap().background_color,
        Some(Color {
            red: 255,
            green: 0,
            blue: 255
        })
    );
    assert_eq!(r.1.background_color().unwrap().end_pos.location_offset(), 10);
}

#[test]
fn parse_no_bg_color_test() {
    let span = Span::new("*[]");
    let r = parse_no_bg_color(span).unwrap();
    assert_eq!(r.1.clone().background_color().unwrap().background_color, None);
    // The fragment `*[]` is three characters long, so it ends at offset 3.
    assert_eq!(r.1.background_color().unwrap().end_pos.location_offset(), 3);
}

#[test]
fn parse_style_test() {
    let span = Span::new("$[b]");
    let r = parse_style(span).unwrap();
    assert_eq!(r.1.clone().style().unwrap().style, Styles::Bold);
    assert_eq!(r.1.style().unwrap().end_pos.location_offset(), 4);
}

#[test]
fn parse_var_test() {
    let span = Span::new("{{my_var}}");
    let r = parse_var(span).unwrap();
    assert_eq!(r.1.clone().var().unwrap().var_name, "my_var");
    assert_eq!(r.1.var().unwrap().end_pos.location_offset(), 10);
}

#[test]
fn parse_literal_test() {
    let span = Span::new("`hello world `");
    let r = parse_literal(span).unwrap();
    assert_eq!(r.1.clone().literal().unwrap().literal, "hello world ");
    assert_eq!(r.1.literal().unwrap().end_pos.location_offset(), 14);
}

#[test]
fn parse_frag_test() {
    let span = Span::new("{{my_var}}");
    let r = parse_frag(span).unwrap();
    assert_eq!(r.1.clone().var().unwrap().var_name, "my_var");
    assert_eq!(r.1.var().unwrap().end_pos.location_offset(), 10);
}

#[test]
fn parse_theme_test() {
    let span = Span::new("&[#FF00FF]`hello world`{{my_var}}");
    let t = parse_theme(span).unwrap();
    let r = t.1.get_vec();
    assert_eq!(
        r[0].color().unwrap().color,
        Color {
            red: 255,
            green: 0,
            blue: 255
        }
    );
    assert_eq!(r[1].literal().unwrap().literal, "hello world");
    assert_eq!(r[2].var().unwrap().var_name, "my_var");
}

#[test]
fn theme_rejects_unknown_text() {
    assert!(parse_theme(Span::new("&[#FF00FF]plain")).is_none());
    assert!(parse_theme(Span::new("``")).is_none());
    assert!(parse_theme(Span::new("$[x]")).is_none());
    assert!(parse_theme(Span::new("&[#GG0000]")).is_none());
}

#[test]
fn theme_of_empty_text_is_empty() {
    let t = parse_theme(Span::new("")).unwrap();
    assert_eq!(t.1.get_vec().len(), 0);
    assert_eq!(t.0.location_offset(), 0);
}

#[test]
fn theme_reads_lowercase_hex_and_every_kind() {
    let t = parse_theme(Span::new("*[#0a0B0c]$[u]*[]`x`{{v}}")).unwrap();
    let r = t.1.get_vec();
    assert_eq!(r.len(), 5);
    assert_eq!(
        r[0].background_color().unwrap().background_color,
        Some(Color::new(10, 11, 12))
    );
    assert_eq!(r[1].style().unwrap().style, Styles::Underline);
    assert_eq!(r[2].background_color().unwrap().background_color, None);
    assert_eq!(r[3].literal().unwrap().literal, "x");
    assert_eq!(r[4].var().unwrap().var_name, "v");
    assert_eq!(t.0.location_offset(), 25);
}

#[test]
fn var_ends_at_first_closing_braces() {
    let r = parse_var(Span::new("{{a}}b}}")).unwrap();
    assert_eq!(r.1.var().unwrap().var_name, "a");
    assert_eq!(r.0.location_offset(), 5);
}
