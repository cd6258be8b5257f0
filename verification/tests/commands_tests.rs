use collaborate::commands::{command_would_cut, parse_command, Command};

#[test]
fn export_commands() {
    assert!(matches!(parse_command("w"), Command::ExportPng));
    assert!(matches!(parse_command("  ws "), Command::ExportSvg));
    assert!(matches!(parse_command("wq"), Command::ExportAndClose));
    assert!(matches!(parse_command("w x"), Command::Unknown));
}

#[test]
fn colour_commands() {
    assert!(matches!(parse_command("color #ff0000"), Command::SetStrokeColor(0xFF0000FF)));
    assert!(matches!(parse_command("fill  0f0"), Command::SetFillColor(0x00FF00FF)));
    assert!(matches!(parse_command("color nope"), Command::Ignored));
    assert!(matches!(parse_command("color"), Command::Unknown));
}

#[test]
fn stroke_keeps_the_width_text() {
    assert!(matches!(parse_command("stroke 2.5"), Command::SetStrokeWidth(ref w) if w == "2.5"));
    assert!(matches!(parse_command("stroke"), Command::Unknown));
    assert!(matches!(parse_command(""), Command::Unknown));
}

#[test]
fn cut_detection() {
    assert!(!command_would_cut("color #fff"));
    assert!(command_would_cut("color #éa"));
    assert!(!command_would_cut("stroke #éa"));
}
