use seqgen::emitter::Writer;

#[test]
fn new_writer_is_empty() {
    let w = Writer::new();
    assert_eq!(w.end(), "");
}

#[test]
fn write_at_depth_zero_is_verbatim() {
    let mut w = Writer::new();
    w.write_str("a = 1;\nb = 2;\n");
    assert_eq!(w.end(), "a = 1;\nb = 2;\n");
}

#[test]
fn each_line_is_indented_by_four_spaces_per_level() {
    let mut w = Writer::new();
    w.write_str("top\n");
    w.indent();
    w.write_str("one\n");
    w.indent();
    w.write_str("two\n");
    w.outdent();
    w.write_str("one again\n");
    w.outdent();
    w.write_str("top again\n");
    assert_eq!(w.end(), "top\n    one\n        two\n    one again\ntop again\n");
}

#[test]
fn indentation_comes_once_per_line() {
    let mut w = Writer::new();
    w.indent();
    w.write_str("a");
    w.write_str("b");
    w.write_str(" c\nd");
    w.write_str("e\n");
    assert_eq!(w.end(), "    ab c\n    de\n");
}

#[test]
fn line_breaks_inside_a_text_start_indented_lines() {
    let mut w = Writer::new();
    w.indent();
    w.write_str("x\ny\nz");
    assert_eq!(w.end(), "    x\n    y\n    z");
}

#[test]
fn empty_lines_are_not_indented() {
    let mut w = Writer::new();
    w.indent();
    w.write_str("\n\na\n\n");
    assert_eq!(w.end(), "\n\n    a\n\n");
}

#[test]
fn depth_applies_when_the_line_starts() {
    let mut w = Writer::new();
    w.write_str("a");
    w.indent();
    w.write_str("b\nc");
    w.outdent();
    w.write_str("d\ne");
    assert_eq!(w.end(), "ab\n    cd\ne");
}

#[test]
fn empty_text_changes_nothing() {
    let mut w = Writer::new();
    w.indent();
    w.write_str("");
    w.write_str("a");
    w.write_str("");
    assert_eq!(w.end(), "    a");
}

#[test]
fn write_line_ends_the_line() {
    let mut w = Writer::new();
    w.write_line("{");
    w.indent();
    w.write_line("body");
    w.write_line("");
    w.outdent();
    w.write_line("}");
    assert_eq!(w.end(), "{\n    body\n\n}\n");
}

#[test]
fn text_beyond_ascii_is_kept() {
    let mut w = Writer::new();
    w.indent();
    w.write_str("gr\u{fc}n\n\u{20ac}");
    assert_eq!(w.end(), "    gr\u{fc}n\n    \u{20ac}");
}
