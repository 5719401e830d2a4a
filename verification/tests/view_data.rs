use eikodan::view_data::{
    escape_double_dashes, failure_page, finish_render, finish_view_fragment, finish_view_page,
    insert_view_comment, prepend_view_comment, render_error, view_comment_block, RenderFailure,
};

#[test]
fn full_page_puts_view_data_just_before_body_close() {
    let rendered = "<!doctype html><html><body><p>3</p></body></html>".to_string();
    let html = finish_view_page("page.html", Ok(rendered), Ok("{\n  \"value\": 3\n}".to_string()));

    let comment = html.find("<!-- view-data").expect("view-data comment exists");
    let body_close = html.find("</body>").expect("</body> exists");
    let doctype = html.find("<!doctype").expect("<!doctype exists");

    assert!(comment > doctype, "view-data comes after <!doctype>");
    assert!(comment < body_close, "view-data comes just before </body>");
    assert!(html.contains("<p>3</p>"), "the page itself is rendered as usual");
}

#[test]
fn fragment_prepends_view_data_at_the_head() {
    let html = finish_view_fragment("count.html", Ok("42".to_string()), Ok("{\n  \"value\": 42\n}".to_string()));

    assert!(html.starts_with("<!-- view-data"), "{html:?}");
    assert!(!html.contains("</body>"));
    let visible = html.rsplit("-->").next().expect("comment terminator").trim();
    assert_eq!(visible, "42");
}

#[test]
fn double_hyphen_cannot_close_the_comment_early() {
    let html = finish_view_fragment("frag.html", Ok("ok".to_string()), Ok("{\"note\":\"a--b\"}".to_string()));

    assert!(html.contains("a- -b"), "{html:?}");
    assert!(!html.contains("a--b"));
    assert_eq!(html.matches("-->").count(), 1);
}

#[test]
fn missing_template_renders_an_error_instead_of_panicking() {
    let html = finish_view_page(
        "nope.html",
        Err(RenderFailure::Template("template not found: nope.html".to_string())),
        Ok("{}".to_string()),
    );
    assert!(html.contains("template error"), "{html:?}");
    assert!(html.contains("nope.html"));
}

#[test]
fn block_has_exact_shape() {
    assert_eq!(view_comment_block("{\"a\":1}"), "<!-- view-data\n{\"a\":1}\n-->\n");
    assert_eq!(view_comment_block(""), "<!-- view-data\n\n-->\n");
}

#[test]
fn dashes_are_never_left_adjacent() {
    assert_eq!(escape_double_dashes("a--b"), "a- -b");
    assert_eq!(escape_double_dashes("----"), "- - - -");
    assert_eq!(escape_double_dashes("---"), "- - -");
    assert_eq!(escape_double_dashes("-x-"), "-x-");
    assert_eq!(escape_double_dashes("ユーザー--7"), "ユーザー- -7");
    for s in ["a--b", "----", "---", "", "x-y--z---", "--->", "---!>"] {
        assert!(!escape_double_dashes(s).contains("--"), "{s:?}");
    }
}

#[test]
fn no_json_can_close_the_comment_early() {
    for json in ["--->", "---!>", "{\"a\":\"-->\"}", "--!>", "-----", "-"] {
        let block = view_comment_block(json);
        assert!(block.starts_with("<!-- view-data\n"));
        assert!(block.ends_with("\n-->\n"));
        assert_eq!(block.matches("-->").count(), 1, "{json:?}");
        assert!(!block.contains("--!>"), "{json:?}");
    }
}

#[test]
fn insert_uses_the_last_body_close() {
    let out = insert_view_comment("<body>a</body>b</body>".to_string(), "J");
    assert_eq!(out, "<body>a</body>b<!-- view-data\nJ\n-->\n</body>");
}

#[test]
fn insert_without_body_close_appends() {
    let out = insert_view_comment("<p>x</p>".to_string(), "J");
    assert_eq!(out, "<p>x</p>\n<!-- view-data\nJ\n-->\n");
}

#[test]
fn prepend_puts_block_first() {
    assert_eq!(prepend_view_comment("<li>1</li>".to_string(), "[]"), "<!-- view-data\n[]\n-->\n<li>1</li>");
}

#[test]
fn render_error_format() {
    assert_eq!(
        render_error("acquire env", "boom"),
        "<pre style=\"color:#b91c1c;white-space:pre-wrap;padding:1rem;border:1px solid #b91c1c;\">template error [acquire env]\nboom</pre>"
    );
}

#[test]
fn failure_pages_name_the_stage() {
    let p = failure_page("a.html", &RenderFailure::Template("m".to_string()));
    assert!(p.contains("template error [template 'a.html']\nm</pre>"));
    let p = failure_page("a.html", &RenderFailure::Render("m".to_string()));
    assert!(p.contains("[render 'a.html']"));
    let p = failure_page("a.html", &RenderFailure::AcquireEnv("m".to_string()));
    assert!(p.contains("[acquire env]"));
    let p = finish_view_page("a.html", Ok("<body></body>".to_string()), Err("bad json".to_string()));
    assert!(p.contains("[encode view JSON for 'a.html']\nbad json"));
    assert!(!p.contains("view-data"));
}

#[test]
fn plain_render_passes_html_through() {
    assert_eq!(finish_render("i.html", Ok("<h1>fastweb</h1>".to_string())), "<h1>fastweb</h1>");
    assert!(finish_render("i.html", Err(RenderFailure::Template("x".to_string()))).contains("[template 'i.html']"));
}
