use self_changer::css_sanitizer::CssSanitizer;

#[test]
fn test_sanitize_safe_properties() {
    let sanitizer = CssSanitizer::new();

    assert_eq!(
        sanitizer.sanitize_css_string("background-color: #ff0000; color: white;"),
        "background-color: #ff0000; color: white"
    );

    assert_eq!(
        sanitizer.sanitize_css_string("width: 100px; height: 200px; margin: 10px;"),
        "width: 100px; height: 200px; margin: 10px"
    );
}

#[test]
fn test_block_dangerous_properties() {
    let sanitizer = CssSanitizer::new();

    let result1 =
        sanitizer.sanitize_css_string("background-color: red; javascript: alert('xss');");
    assert!(result1.contains("background-color: red"));
    assert!(!result1.contains("javascript:"));

    let result2 = sanitizer.sanitize_css_string("expression(alert('xss')); color: blue;");
    assert!(result2.contains("color: blue"));
    assert!(!result2.contains("expression("));
}

#[test]
fn test_sanitize_values() {
    let sanitizer = CssSanitizer::new();

    assert_eq!(
        sanitizer.sanitize_css_string("color: #ffffff; background-color: rgb(255, 0, 0);"),
        "color: #ffffff; background-color: rgb(255, 0, 0)"
    );

    assert_eq!(
        sanitizer.sanitize_css_string("font-family: Arial, sans-serif; font-size: 16px;"),
        "font-family: Arial, sans-serif; font-size: 16px"
    );
}

#[test]
fn script_scheme_is_dropped_and_the_rest_kept() {
    let sanitizer = CssSanitizer::new();
    let result = sanitizer.sanitize_css_string("color: red; javascript:alert(1);");
    assert_eq!(result, "color: red");
    assert!(!result.contains("javascript:"));
    assert_eq!(sanitizer.sanitize_css_string("background-image: url(javascript:alert(1));"), "");
}

#[test]
fn sanitized_text_is_a_fixed_point() {
    let sanitizer = CssSanitizer::new();
    for raw in [
        "background-color: #ff0000; color: white;",
        "  color : RED ;; margin:0 ;x; padding : 1em  ",
        "behavior: url(a); width: 10px",
        "",
        ";;;",
    ] {
        let once = sanitizer.sanitize_css_string(raw);
        assert_eq!(sanitizer.sanitize_css_string(&once), once);
    }
    assert_eq!(
        sanitizer.sanitize_css_string("  color : RED ;; margin:0 ;x; padding : 1em  "),
        "color : RED; margin:0; padding : 1em"
    );
}

#[test]
fn unknown_and_forbidden_properties_are_refused() {
    let sanitizer = CssSanitizer::new();
    assert_eq!(sanitizer.sanitize_css_string("foo: 1px"), "");
    assert_eq!(sanitizer.sanitize_css_string("position: absolute"), "");
    assert_eq!(sanitizer.sanitize_css_string("-moz-binding: url(x)"), "");
    assert_eq!(sanitizer.sanitize_css_string("BEHAVIOR: none"), "");
    assert_eq!(sanitizer.sanitize_css_string("Color: red"), "Color: red");
    assert_eq!(sanitizer.sanitize_css_string("color red"), "");
    assert_eq!(sanitizer.sanitize_css_string(": red"), "");
}

#[test]
fn dangerous_values_are_refused_in_any_case() {
    let sanitizer = CssSanitizer::new();
    for value in [
        "JavaScript:alert(1)",
        "vbscript:x",
        "url(data:text/html,x)",
        "expression(1)",
        "eval(1)",
        "document.cookie",
        "window.open",
        "location.href",
        "history.back",
        "navigator.x",
        "red onload=x",
        "red onerror=x",
        "red onclick=x",
        "red onmouseover=x",
        "behavior:x red",
        "binding:x red",
        "-moz-binding:x red",
        "-webkit-binding:x red",
        "red <script",
        "red </SCRIPT",
    ] {
        let css = format!("color: {}", value);
        assert_eq!(sanitizer.sanitize_css_string(&css), "", "{}", value);
    }
}

#[test]
fn each_value_shape_is_recognised() {
    let sanitizer = CssSanitizer::new();
    for value in [
        "0", "-1.5", ".5", "12px", "1.5EM", "2rem", "50%", "10vh", "10vw", "#fff", "rgb(0,0,0)",
        "RGBA(0,0,0,0.5)", "hsl(10, 10%, 10%)", "auto", "inline-block", "Arial, sans-serif",
        "translateX(3px)", "calc(1 + 2)", "var(--x)", "url(https://example.com/a.png)", "white",
    ] {
        let css = format!("background: {}", value);
        assert_eq!(sanitizer.sanitize_css_string(&css), css, "{}", value);
    }
    for value in ["", "-", "1-2", "12pt", "wobble", "--", "1 2"] {
        let css = format!("background: {}", value);
        assert_eq!(sanitizer.sanitize_css_string(&css), "", "{}", value);
    }
}

#[test]
fn value_keeps_its_later_colons() {
    let sanitizer = CssSanitizer::new();
    assert_eq!(
        sanitizer.sanitize_css_string("background: url(https://example.com/a.png)"),
        "background: url(https://example.com/a.png)"
    );
}

#[test]
fn default_sanitizer_is_the_same() {
    let sanitizer = CssSanitizer::default();
    assert_eq!(sanitizer.sanitize_css_string("color: red;"), "color: red");
}
