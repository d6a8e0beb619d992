use mailviewer::html::{is_banned_element, is_dropped_attribute, CSS};
use mailviewer::Html;

const PAGE: &str = r#"<!DOCTYPE html>
<html>
<head>
  <meta charset="utf-8">
  <title>Test page</title>
  <link rel="stylesheet" href="style.css">
  <script type="text/javascript">alert("head");</script>
  <style>body { color: red; }</style>
</head>
<body class="main" style="background: black" onload="start()">
  <h1 class="title" ONCLICK="alert(1)">Title</h1>
  <form action="/submit"><input type="text" onchange="changed()" onblur="left()"></form>
  <p style="color: red" onMouseOver="over()">Some <b class="x">text</b> one can read.</p>
  <iframe src="http://example.com/"></iframe>
  <audio src="a.ogg"></audio><video src="v.ogv"></video>
  <object data="o.swf"><embed src="e.swf"></object>
  <applet code="A.class"></applet>
  <div><script>document.write("<p>late</p>");</script><span id="kept" data-on="x">kept</span></div>
</body>
</html>
"#;

fn assert_safe(body: &str) {
    assert!(!body.contains("onblur="));
    assert!(!body.contains("onclick="));
    assert!(!body.contains("onchange="));
    assert!(!body.contains("onload="));
    assert!(!body.contains("onmouseover="));

    assert!(!body.contains("<script"));
    assert!(!body.contains("<meta"));
    assert!(!body.contains("<audio"));
    assert!(!body.contains("<video"));
    assert!(!body.contains("<iframe"));
    assert!(!body.contains("<link"));
    assert!(!body.contains("<object"));
    assert!(!body.contains("<embed"));
    assert!(!body.contains("<applet"));
    assert!(!body.contains("<form"));
}

#[test]
fn html_html() {
    let html = Html::new(PAGE, true);
    let body = html.safe().to_lowercase();

    assert!(!body.contains("onblur="));
    assert!(!body.contains("onclick="));
    assert!(!body.contains("onchange="));
    assert!(!body.contains("style="));
    assert!(!body.contains("class="));

    assert!(!body.contains("<script"));
    assert!(!body.contains("<meta"));
    assert!(!body.contains("<audio"));
    assert!(!body.contains("<video"));
    assert!(!body.contains("<iframe"));
    assert!(!body.contains("<link"));
    assert!(!body.contains("<object"));
    assert!(!body.contains("<embed"));
    assert!(!body.contains("<applet"));
    assert!(!body.contains("<form"));

    assert!(body.contains(&CSS.to_lowercase()));
}

#[test]
fn html_tests_html() {
    let html = Html::new(PAGE, true);
    let body = html.safe().to_lowercase();

    assert!(!body.contains("onblur="));
    assert!(!body.contains("onclick="));
    assert!(!body.contains("onchange="));
    assert!(!body.contains("style="));
    assert!(!body.contains("class="));

    assert!(!body.contains("<script>"));
    assert!(!body.contains("<meta>"));
    assert!(!body.contains("<audio>"));
    assert!(!body.contains("<video>"));
    assert!(!body.contains("<iframe>"));
    assert!(!body.contains("<link>"));
    assert!(!body.contains("<object>"));
    assert!(!body.contains("<embed>"));
    assert!(!body.contains("<applet>"));
    assert!(!body.contains("<form>"));

    assert!(body.contains(&CSS.to_lowercase()));
}

#[test]
fn stylesheet_is_added_exactly_once() {
    let body = Html::new(PAGE, true).safe();
    assert_eq!(body.matches(CSS).count(), 1);
    assert_eq!(body.matches("<style>").count(), 2);
    assert!(body.contains("body { color: red; }"));
    assert!(body.contains("one can read."));
    assert!(body.contains("<span id=\"kept\" data-on=\"x\">kept</span>"));
}

#[test]
fn presentation_stays_when_not_stripped() {
    let body = Html::new(PAGE, false).safe();
    assert_safe(&body.to_lowercase());
    assert!(body.contains("class=\"main\""));
    assert!(body.contains("style=\"background: black\""));
    assert!(body.contains("<b class=\"x\">text</b>"));
    assert!(!body.contains(CSS));
    assert_eq!(body.matches("<style>").count(), 1);
}

#[test]
fn sanitizing_twice_changes_nothing_more() {
    let once = Html::new(PAGE, false).safe();
    let twice = Html::new(&once, false).safe();
    assert_eq!(once, twice);
}

#[test]
fn small_document_is_sanitized_exactly() {
    let html = Html::new(
        "<html><head></head><body><p onclick=\"x()\" id=\"a\" class=\"c\">Hi<script>x()</script></p><iframe></iframe></body></html>",
        false,
    );
    assert_eq!(
        html.safe(),
        "<html><head></head><body><p id=\"a\" class=\"c\">Hi</p></body></html>"
    );
    let strict = Html::new("<p style=\"s\" class=\"c\" title=\"t\">Hi</p>", true);
    assert_eq!(
        strict.safe(),
        format!("<html><head>{}</head><body><p title=\"t\">Hi</p></body></html>", CSS)
    );
}

#[test]
fn nested_banned_elements_go_with_their_content() {
    let html = Html::new(
        "<body><form><div><input name=\"a\"><form><p>inner</p></form></div></form><p>after</p></body>",
        false,
    );
    assert_eq!(html.safe(), "<html><head></head><body><p>after</p></body></html>");
}

#[test]
fn event_handler_names_are_recognised_in_any_case() {
    assert!(Html::starts_with_on("onclick"));
    assert!(Html::starts_with_on("ONCLICK"));
    assert!(Html::starts_with_on("On"));
    assert!(Html::starts_with_on("oN"));
    assert!(Html::starts_with_on("online"));
    assert!(!Html::starts_with_on("o"));
    assert!(!Html::starts_with_on(""));
    assert!(!Html::starts_with_on("no"));
    assert!(!Html::starts_with_on("data-on"));
    assert!(!Html::starts_with_on("\u{f6}nclick"));
}

#[test]
fn banned_elements_and_dropped_attributes() {
    for name in ["script", "meta", "audio", "video", "iframe", "link", "object", "embed", "applet", "form"] {
        assert!(is_banned_element(name));
    }
    assert!(!is_banned_element("style"));
    assert!(!is_banned_element("Script"));
    assert!(!is_banned_element("img"));
    assert!(is_dropped_attribute("onload", false));
    assert!(is_dropped_attribute("style", true));
    assert!(is_dropped_attribute("class", true));
    assert!(!is_dropped_attribute("style", false));
    assert!(!is_dropped_attribute("class", false));
    assert!(!is_dropped_attribute("href", true));
}

#[test]
fn stylesheet_comes_last_in_the_head() {
    let html = Html::new(
        "<html><head><title>t</title><script>x()</script></head><body><p class=\"c\" onclick=\"y()\">Hi</p><form><p>gone</p></form></body></html>",
        true,
    );
    assert_eq!(
        html.safe(),
        format!("<html><head><title>t</title>{}</head><body><p>Hi</p></body></html>", CSS)
    );
}

#[test]
fn stylesheet_is_not_added_twice() {
    let once = Html::new("<p>Hi</p>", true).safe();
    assert_eq!(once.matches(CSS).count(), 1);
    let twice = Html::new(&once, true).safe();
    assert_eq!(twice.matches(CSS).count(), 1);
    assert_eq!(twice, once);
    let thrice = Html::new(&twice, true).safe();
    assert_eq!(thrice, once);
}

#[test]
fn sanitizing_twice_changes_nothing_more_when_stripping() {
    let once = Html::new(PAGE, true).safe();
    let twice = Html::new(&once, true).safe();
    assert_eq!(once, twice);
    assert_eq!(twice.matches(CSS).count(), 1);
}

#[test]
fn another_stylesheet_at_the_end_of_the_head_is_not_taken_for_it() {
    let html = Html::new("<html><head>\n<style>p { color: red; }</style>\n</head><body></body></html>", true);
    let out = html.safe();
    assert_eq!(out.matches("<style>").count(), 2);
    assert_eq!(out.matches(CSS).count(), 1);
    assert!(out.contains(&format!("{}</head>", CSS)));
    assert!(out.contains("p { color: red; }"));
}

#[test]
fn stylesheet_goes_to_the_end_of_the_head() {
    let inside = format!("<html><head>{}<title>t</title></head><body></body></html>", CSS);
    let out = Html::new(&inside, true).safe();
    assert_eq!(
        out,
        format!("<html><head>{}<title>t</title>{}</head><body></body></html>", CSS, CSS)
    );
    assert_eq!(Html::new(&out, true).safe(), out);
}

#[test]
fn text_beyond_the_limit_is_not_looked_into() {
    let long = "a".repeat(0x4000_0000);
    assert_eq!(Html::new(&long, false).safe(), "");
    assert_eq!(Html::new(&long, true).safe(), "");
}
