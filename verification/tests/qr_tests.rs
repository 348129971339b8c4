use base64::Engine;
use deskremote::qr::{generate_qr_code, svg_for_grid};

#[test]
fn svg_builder_lays_out_a_small_grid() {
    // two lines: "██  " and "█ "
    let grid: Vec<char> = "██  \n█ ".chars().collect();
    let svg = String::from_utf8(svg_for_grid(&grid)).unwrap();
    let mut expected = String::new();
    expected.push_str("<svg xmlns=\"http://www.w3.org/2000/svg\" width=\"200\" height=\"200\" viewBox=\"0 0 2 8\">\n");
    expected.push_str("        <rect width=\"100%\" height=\"100%\" fill=\"white\"/>\n");
    expected.push_str("        <g fill=\"black\">");
    expected.push_str("<rect x=\"0\" y=\"0\" width=\"1\" height=\"1\"/>");
    expected.push_str("<rect x=\"1\" y=\"0\" width=\"1\" height=\"1\"/>");
    expected.push_str("<rect x=\"0\" y=\"1\" width=\"1\" height=\"1\"/>");
    expected.push_str("</g>\n        </svg>");
    assert_eq!(svg, expected);
}

#[test]
fn svg_builder_empty_grid() {
    let svg = String::from_utf8(svg_for_grid(&[])).unwrap();
    assert!(svg.starts_with(
        "<svg xmlns=\"http://www.w3.org/2000/svg\" width=\"200\" height=\"200\" viewBox=\"0 0 0 0\">"
    ));
    assert!(!svg.contains("<rect x="));
}

#[test]
fn qr_data_url_round_trips_through_base64() {
    let url = b"http://192.168.1.10:3000/?ip=192.168.1.10".to_vec();
    let out = generate_qr_code(&url).unwrap();
    let text = String::from_utf8(out).unwrap();
    let prefix = "data:image/svg+xml;base64,";
    assert!(text.starts_with(prefix), "{}", text);
    let decoded = base64::engine::general_purpose::STANDARD
        .decode(&text[prefix.len()..])
        .unwrap();
    let svg = String::from_utf8(decoded).unwrap();
    assert!(svg.starts_with("<svg xmlns=\"http://www.w3.org/2000/svg\""));
    assert!(svg.contains("<g fill=\"black\">"));
    assert!(svg.contains("<rect x="));

    // the SVG reflects the very grid qrcode renders for this input
    let code = qrcode::QrCode::new(&url).unwrap();
    let image: String = code
        .render::<char>()
        .quiet_zone(false)
        .module_dimensions(2, 1)
        .build();
    let lines = image.lines().count();
    let first_len = image.lines().next().unwrap_or("").len();
    assert!(svg.contains(&format!("viewBox=\"0 0 {} {}\"", lines, first_len)));
    let darks: usize = image.chars().filter(|c| *c == '█').count();
    assert_eq!(svg.matches("<rect x=").count(), darks);
}

#[test]
fn qr_too_much_data_reports_the_failure() {
    let url = vec![b'a'; 5000];
    let e = generate_qr_code(&url).unwrap_err();
    let text = String::from_utf8_lossy(&e).into_owned();
    assert!(text.starts_with("Failed to generate QR code: "), "{}", text);
}
