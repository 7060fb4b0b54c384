use gitblog::templates::{
    footer, render_a, render_body, render_h1, render_header, render_list, render_p, render_page,
    stylesheet,
};

#[test]
fn render_header_exact() {
    let r = render_header("My Title", "style.css");
    assert_eq!(
        r,
        "<!DOCTYPE html>\n<html lang=\"en\">\n\n    <head>\n        <meta charset=\"utf-8\">\n        <title>My Title</title>\n        <link rel=\"stylesheet\" href=\"style.css\">\n    </head>\n"
    );
}

#[test]
fn render_body_exact() {
    assert_eq!(render_body("X"), "\n    <body>\n        X\n    </body>\n");
}

#[test]
fn render_h1_exact() {
    assert_eq!(render_h1("Posts Index"), "\n        <h1>Posts Index</h1>\n");
}

#[test]
fn render_p_exact() {
    assert_eq!(render_p("some text"), "\n        <p>some text</p>\n");
}

#[test]
fn render_a_exact() {
    assert_eq!(
        render_a("../index.html", "Back"),
        "\n        <p><a href=\"../index.html\">Back</a></p>\n"
    );
}

#[test]
fn render_list_empty() {
    let entries: Vec<(String, String)> = Vec::new();
    assert_eq!(render_list(&entries), "\n        <ul>\n        </ul>\n");
}

#[test]
fn render_list_two_entries() {
    let entries = vec![
        ("Hello".to_string(), "abc1234".to_string()),
        ("Second post".to_string(), "1234567".to_string()),
    ];
    assert_eq!(
        render_list(&entries),
        "\n        <ul>\n            <li><a href=\"posts/abc1234.html\">Hello</a></li>\n            <li><a href=\"posts/1234567.html\">Second post</a></li>\n        </ul>\n"
    );
}

#[test]
fn footer_exact() {
    assert_eq!(footer(), "\n</html>\n");
}

#[test]
fn render_page_exact() {
    let r = render_page("T", "s.css", "B");
    assert_eq!(
        r,
        "<!DOCTYPE html>\n<html lang=\"en\">\n\n    <head>\n        <meta charset=\"utf-8\">\n        <title>T</title>\n        <link rel=\"stylesheet\" href=\"s.css\">\n    </head>\n\n    <body>\n        B\n    </body>\n\n</html>\n"
    );
}

#[test]
fn stylesheet_exact() {
    let css = stylesheet();
    assert!(css.starts_with("\n:root {\n    --bg: #fbf1c7;\n"));
    assert!(css.ends_with(
        "@media screen and (max-width: 600px) {\n    body {\n        overflow-x: hidden;\n        width: 95%;\n        padding: 0.5em;\n    }\n}\n"
    ));
    assert!(css.contains("box-shadow: 2px 2px 2px var(--gray);"));
}

#[test]
fn paragraph_text_is_not_escaped() {
    // A known limitation kept on purpose: paragraph text is embedded
    // verbatim, markup included.
    assert_eq!(
        render_p("<script>alert(1)</script>"),
        "\n        <p><script>alert(1)</script></p>\n"
    );
}
