use mnist_embed::export::{export_line, export_text, label_text, EmbeddedPoint};

fn point(x: f64, y: f64, label: u8) -> EmbeddedPoint {
    EmbeddedPoint { x: format!("{}", x), y: format!("{}", y), label }
}

#[test]
fn two_point_export() {
    let pts = vec![point(1.5, -2.0, 3), point(0.0, 0.25, 7)];
    assert_eq!(export_text(&pts), "1.5 -2 3\n0 0.25 7\n");
}

#[test]
fn empty_export_is_empty() {
    assert_eq!(export_text(&vec![]), "");
}

#[test]
fn one_line() {
    assert_eq!(export_line("0.5", "12", 9), "0.5 12 9\n");
}

#[test]
fn labels_in_decimal() {
    assert_eq!(label_text(0), "0");
    assert_eq!(label_text(7), "7");
    assert_eq!(label_text(10), "10");
    assert_eq!(label_text(42), "42");
    assert_eq!(label_text(100), "100");
    assert_eq!(label_text(255), "255");
}
