use gitblog::ident::short_id;
use gitblog::site::{run_pipeline, Builder, Commit};
use gitblog::text::{split_paragraphs, starts_with_marker, title_of};

fn commit(id: Vec<u8>, summary: Option<&str>, body: Option<&str>) -> Commit {
    Commit { id, summary: summary.map(|s| s.to_string()), body: body.map(|s| s.to_string()) }
}

#[test]
fn short_id_is_first_seven_hex_chars() {
    // 0xde 0xad 0xbe 0xef ... writes as "deadbeef..."; the short id is its
    // first seven characters.
    let id = vec![0xde, 0xad, 0xbe, 0xef, 0x01, 0x02];
    assert_eq!(short_id(&id), "deadbee");
}

#[test]
fn short_id_is_lowercase_hex() {
    let id = vec![0x0f, 0xa0, 0xbc, 0x9d];
    assert_eq!(short_id(&id), "0fa0bc9");
}

#[test]
fn short_id_of_full_length_identifier() {
    let mut id = vec![0x12, 0x34, 0x56, 0x78];
    id.extend(std::iter::repeat(0xff).take(16));
    assert_eq!(id.len(), 20);
    assert_eq!(short_id(&id), "1234567");
}

#[test]
fn marker_detection() {
    assert!(starts_with_marker("POST: Hello"));
    assert!(starts_with_marker("POST: "));
    assert!(!starts_with_marker("POST:"));
    assert!(!starts_with_marker("post: Hello"));
    assert!(!starts_with_marker("Unrelated fix"));
    assert!(!starts_with_marker(""));
}

#[test]
fn title_strips_marker() {
    assert_eq!(title_of("POST: Hello"), "Hello");
    assert_eq!(title_of("POST: "), "");
}

#[test]
fn split_paragraphs_in_order() {
    let ps = split_paragraphs("A\n\nB\n\nC");
    assert_eq!(ps, vec!["A".to_string(), "B".to_string(), "C".to_string()]);
}

#[test]
fn split_paragraphs_drops_empty_segments() {
    let ps = split_paragraphs("A\n\n\n\nB");
    assert_eq!(ps, vec!["A".to_string(), "B".to_string()]);
}

#[test]
fn split_paragraphs_empty_body() {
    let ps = split_paragraphs("");
    assert_eq!(ps, Vec::<String>::new());
}

#[test]
fn split_paragraphs_trailing_separator() {
    let ps = split_paragraphs("A\n\n");
    assert_eq!(ps, vec!["A".to_string()]);
}

#[test]
fn split_paragraphs_only_separators() {
    let ps = split_paragraphs("\n\n\n\n");
    assert_eq!(ps, Vec::<String>::new());
}

#[test]
fn split_paragraphs_leading_separator() {
    let ps = split_paragraphs("\n\nA");
    assert_eq!(ps, vec!["A".to_string()]);
}

#[test]
fn split_paragraphs_single_newline_is_no_separator() {
    let ps = split_paragraphs("line one\nline two");
    assert_eq!(ps, vec!["line one\nline two".to_string()]);
}

#[test]
fn non_post_commits_leave_no_trace() {
    // Neither a plain commit nor one without a summary line yields a post
    // file or an index entry.
    let commits = vec![
        commit(vec![1, 2, 3, 4], Some("Unrelated fix"), Some("details")),
        commit(vec![5, 6, 7, 8], None, None),
    ];
    let site = run_pipeline(&commits);
    assert_eq!(site.posts.len(), 0);

    let empty = run_pipeline(&Vec::new());
    assert_eq!(site.index_html, empty.index_html);
}

#[test]
fn builder_ignores_non_posts() {
    let mut b = Builder::new();
    let before = b.finish();
    let out = b.handle_commit(&commit(vec![9, 9, 9, 9], Some("no marker here"), None));
    assert!(out.is_none());
    let after = b.finish();
    assert_eq!(before.0, after.0);
    assert_eq!(before.1, after.1);
}

#[test]
fn index_keeps_emission_order() {
    let commits = vec![
        commit(vec![0xaa, 0xaa, 0xaa, 0xaa], Some("POST: First"), None),
        commit(vec![0xbb, 0xbb, 0xbb, 0xbb], Some("Noise"), None),
        commit(vec![0xcc, 0xcc, 0xcc, 0xcc], Some("POST: Second"), None),
        commit(vec![0xdd, 0xdd, 0xdd, 0xdd], Some("POST: Third"), None),
    ];
    let site = run_pipeline(&commits);
    assert_eq!(site.posts.len(), 3);
    assert_eq!(site.posts[0].name, "aaaaaaa.html");
    assert_eq!(site.posts[1].name, "ccccccc.html");
    assert_eq!(site.posts[2].name, "ddddddd.html");
    let first = site.index_html.find("First").unwrap();
    let second = site.index_html.find("Second").unwrap();
    let third = site.index_html.find("Third").unwrap();
    assert!(first < second && second < third);
}

#[test]
fn repeated_runs_are_byte_identical() {
    let commits = vec![
        commit(vec![0xab, 0xcd, 0xef, 0x01], Some("POST: Hello"), Some("First.\n\nSecond.")),
        commit(vec![0x11, 0x22, 0x33, 0x44], Some("chore: bump"), None),
        commit(vec![0x55, 0x66, 0x77, 0x88], Some("POST: Again"), Some("")),
    ];
    let a = run_pipeline(&commits);
    let b = run_pipeline(&commits);
    assert_eq!(a.index_html, b.index_html);
    assert_eq!(a.style_css, b.style_css);
    assert_eq!(a.posts.len(), b.posts.len());
    for (x, y) in a.posts.iter().zip(b.posts.iter()) {
        assert_eq!(x.name, y.name);
        assert_eq!(x.contents, y.contents);
    }
}

#[test]
fn end_to_end_scenario() {
    let commits = vec![
        commit(
            vec![0xab, 0xc1, 0x23, 0x45],
            Some("POST: Hello"),
            Some("First line.\n\nSecond line."),
        ),
        commit(vec![0x99, 0x99, 0x99, 0x99], Some("Unrelated fix"), None),
        commit(vec![0x12, 0x34, 0x56, 0x78], Some("POST: Second post"), Some("")),
    ];
    let site = run_pipeline(&commits);

    // Exactly two post files, named after the short identifiers.
    assert_eq!(site.posts.len(), 2);
    assert_eq!(site.posts[0].name, "abc1234.html");
    assert_eq!(site.posts[1].name, "1234567.html");

    // The "Hello" page: back link, heading, and one paragraph element per
    // body paragraph.
    assert_eq!(
        site.posts[0].contents,
        "<!DOCTYPE html>\n<html lang=\"en\">\n\n    <head>\n        <meta charset=\"utf-8\">\n        <title>Hello</title>\n        <link rel=\"stylesheet\" href=\"../style.css\">\n    </head>\n\n    <body>\n        \n        <p><a href=\"../index.html\">Back</a></p>\n\n        <h1>Hello</h1>\n\n        <p>First line.</p>\n\n        <p>Second line.</p>\n\n    </body>\n\n</html>\n"
    );

    // The empty-bodied post has no paragraph elements at all.
    assert_eq!(
        site.posts[1].contents,
        "<!DOCTYPE html>\n<html lang=\"en\">\n\n    <head>\n        <meta charset=\"utf-8\">\n        <title>Second post</title>\n        <link rel=\"stylesheet\" href=\"../style.css\">\n    </head>\n\n    <body>\n        \n        <p><a href=\"../index.html\">Back</a></p>\n\n        <h1>Second post</h1>\n\n    </body>\n\n</html>\n"
    );

    // The index lists the two titles, in traversal order.
    assert_eq!(
        site.index_html,
        "<!DOCTYPE html>\n<html lang=\"en\">\n\n    <head>\n        <meta charset=\"utf-8\">\n        <title>Posts Index</title>\n        <link rel=\"stylesheet\" href=\"style.css\">\n    </head>\n\n    <body>\n        \n        <h1>Posts Index</h1>\n\n        <ul>\n            <li><a href=\"posts/abc1234.html\">Hello</a></li>\n            <li><a href=\"posts/1234567.html\">Second post</a></li>\n        </ul>\n\n    </body>\n\n</html>\n"
    );
}

#[test]
fn empty_history_still_produces_index_and_stylesheet() {
    let site = run_pipeline(&Vec::new());
    assert_eq!(site.posts.len(), 0);
    assert_eq!(
        site.index_html,
        "<!DOCTYPE html>\n<html lang=\"en\">\n\n    <head>\n        <meta charset=\"utf-8\">\n        <title>Posts Index</title>\n        <link rel=\"stylesheet\" href=\"style.css\">\n    </head>\n\n    <body>\n        \n        <h1>Posts Index</h1>\n\n        <ul>\n        </ul>\n\n    </body>\n\n</html>\n"
    );
    assert!(!site.style_css.is_empty());
    assert!(site.style_css.contains(":root"));
}
