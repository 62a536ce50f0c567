use markdown_workspace::markdown::parse_markdown_internal;
use markdown_workspace::markdown::sanitize_fragment;

#[test]
fn lib_test_parse_markdown_basic() {
    let input = "# Hello\nThis is **bold**.".to_string();
    let output = parse_markdown_internal(input);
    assert!(output.contains("<h1>Hello</h1>"));
    assert!(output.contains("<strong>bold</strong>"));
}

#[test]
fn lib_test_parse_markdown_sanitization() {
    let input = "Hello <script>alert('xss')</script> world".to_string();
    let output = parse_markdown_internal(input);
    assert!(!output.contains("<script>"));
    assert!(output.contains("Hello  world"));
}

#[test]
fn lib_test_parse_markdown_gfm() {
    let input = "- [x] Task 1\n- [ ] Task 2".to_string();
    let output = parse_markdown_internal(input);
    assert!(output.contains("type=\"checkbox\""));
}

#[test]
fn utils_test_parse_markdown_basic() {
    let input = "# Hello\nThis is **bold**.".to_string();
    let output = parse_markdown_internal(input);
    assert!(output.contains("<h1>Hello</h1>"));
    assert!(output.contains("<strong>bold</strong>"));
}

#[test]
fn utils_test_parse_markdown_sanitization() {
    let input = "Hello <script>alert('xss')</script> world".to_string();
    let output = parse_markdown_internal(input);
    assert!(!output.contains("<script>"));
    assert!(output.contains("Hello  world"));
}

#[test]
fn utils_test_parse_markdown_gfm() {
    let input = "- [x] Task 1\n- [ ] Task 2".to_string();
    let output = parse_markdown_internal(input);
    assert!(output.contains("type=\"checkbox\""));
}

#[test]
fn script_is_stripped_whatever_its_spelling() {
    let output = parse_markdown_internal("Hello <script>alert('x')</script> world".to_string());
    assert!(!output.contains("<script"));
    let output = parse_markdown_internal("a <SCRIPT src=x></SCRIPT> b".to_string());
    assert!(!output.to_lowercase().contains("<script"));
}

#[test]
fn task_list_marks_first_item_checked_only() {
    let output = parse_markdown_internal("- [x] Task 1\n- [ ] Task 2".to_string());
    let first = output.find("Task 1").unwrap();
    let second = output.find("Task 2").unwrap();
    let head = &output[..first];
    let between = &output[first..second];
    assert!(head.contains("<input"));
    assert!(head.contains("type=\"checkbox\""));
    assert!(head.contains("checked"));
    assert!(between.contains("<input"));
    assert!(between.contains("type=\"checkbox\""));
    assert!(!between.contains("checked"));
}

#[test]
fn plain_paragraph_is_wrapped() {
    assert_eq!(parse_markdown_internal("hello".to_string()), "<p>hello</p>\n");
}

#[test]
fn empty_text_gives_empty_fragment() {
    assert_eq!(parse_markdown_internal(String::new()), "");
}

#[test]
fn tables_are_rendered() {
    let output = parse_markdown_internal("| a | b |\n|---|---|\n| 1 | 2 |".to_string());
    assert!(output.contains("<table>"));
    assert!(output.contains("<th>a</th>"));
    assert!(output.contains("<td>2</td>"));
}

#[test]
fn strikethrough_is_rendered() {
    let output = parse_markdown_internal("~~gone~~".to_string());
    assert!(output.contains("<del>gone</del>"));
}

#[test]
fn footnotes_are_rendered() {
    let output = parse_markdown_internal("Text[^1].\n\n[^1]: The note.".to_string());
    assert!(output.contains("<sup"));
    assert!(output.contains("The note."));
    assert!(!output.contains("[^1]"));
}

#[test]
fn smart_punctuation_is_applied() {
    let output = parse_markdown_internal("\"quoted\" -- dash".to_string());
    assert!(output.contains("\u{201c}quoted\u{201d}"));
    assert!(output.contains("\u{2013}"));
}

#[test]
fn links_get_the_forced_rel() {
    let output = parse_markdown_internal("[site](https://example.com)".to_string());
    assert!(output.contains("href=\"https://example.com\""));
    assert!(output.contains("rel=\"noopener noreferrer\""));
}

#[test]
fn a_rel_in_the_source_is_replaced() {
    let output =
        parse_markdown_internal("<a href=\"https://example.com\" rel=\"opener\">x</a>".to_string());
    assert!(output.contains("rel=\"noopener noreferrer\""));
    assert!(!output.contains("rel=\"opener\""));
}

#[test]
fn script_scheme_links_lose_their_target() {
    let output = parse_markdown_internal("[x](javascript:alert(1))".to_string());
    assert!(!output.contains("javascript:"));
}

#[test]
fn event_handlers_are_stripped() {
    let output = parse_markdown_internal("<b onclick=\"alert(1)\">bold</b>".to_string());
    assert!(output.contains("<b>bold</b>"));
    assert!(!output.contains("onclick"));
}

#[test]
fn style_and_class_attributes_are_kept() {
    let output =
        parse_markdown_internal("<span class=\"note\" style=\"color: red\">x</span>".to_string());
    assert!(output.contains("class=\"note\""));
    assert!(output.contains("style=\"color: red\""));
}

#[test]
fn checkbox_keeps_only_its_allowed_attributes() {
    let output = parse_markdown_internal(
        "<input type=\"checkbox\" checked disabled name=\"n\" onfocus=\"x()\">".to_string(),
    );
    assert!(output.contains("<input"));
    assert!(output.contains("type=\"checkbox\""));
    assert!(output.contains("checked"));
    assert!(output.contains("disabled"));
    assert!(!output.contains("name="));
    assert!(!output.contains("onfocus"));
}

#[test]
fn unlisted_tags_are_dropped_but_their_text_stays() {
    let output = parse_markdown_internal("<iframe src=\"x\"></iframe><form>kept</form>".to_string());
    assert!(!output.contains("<iframe"));
    assert!(!output.contains("<form"));
    assert!(output.contains("kept"));
}

#[test]
fn malformed_markup_is_rendered_as_text() {
    let output = parse_markdown_internal("a < b and **unclosed".to_string());
    assert!(output.contains("a &lt; b and **unclosed"));
}

#[test]
fn rendering_is_repeatable() {
    let text = "# T\n\n- [x] a\n\n[l](http://e.org) <i>x</i>";
    assert_eq!(
        parse_markdown_internal(text.to_string()),
        parse_markdown_internal(text.to_string())
    );
}

#[test]
fn fragment_of_allowed_tags_is_kept_as_it_is() {
    assert_eq!(sanitize_fragment("<p>hello <em>you</em></p>"), "<p>hello <em>you</em></p>");
    assert_eq!(sanitize_fragment(""), "");
    assert_eq!(sanitize_fragment("plain text"), "plain text");
}

#[test]
fn fragment_loses_scripts_with_their_content() {
    assert_eq!(sanitize_fragment("a<script>alert(1)</script>b"), "ab");
    assert_eq!(sanitize_fragment("a<style>p { color: red }</style>b"), "ab");
}

#[test]
fn fragment_loses_handlers_and_unlisted_tags() {
    assert_eq!(sanitize_fragment("<b onclick=\"x()\">hi</b>"), "<b>hi</b>");
    assert_eq!(sanitize_fragment("<blink>hi</blink>"), "hi");
}

#[test]
fn fragment_keeps_the_checkbox_and_the_generic_attributes() {
    assert_eq!(
        sanitize_fragment("<input type=\"checkbox\" checked=\"\" disabled=\"\">"),
        "<input type=\"checkbox\" checked=\"\" disabled=\"\">"
    );
    assert_eq!(
        sanitize_fragment("<span class=\"c\" style=\"s\" id=\"i\">x</span>"),
        "<span class=\"c\" style=\"s\">x</span>"
    );
}

#[test]
fn fragment_links_get_the_forced_rel() {
    assert_eq!(
        sanitize_fragment("<a href=\"https://example.com\">x</a>"),
        "<a href=\"https://example.com\" rel=\"noopener noreferrer\">x</a>"
    );
    assert_eq!(
        sanitize_fragment("<a href=\"javascript:alert(1)\">x</a>"),
        "<a rel=\"noopener noreferrer\">x</a>"
    );
}

#[test]
fn rendering_is_the_sanitized_parser_output() {
    assert_eq!(
        parse_markdown_internal("**hi** <script>x</script>".to_string()),
        sanitize_fragment("<p><strong>hi</strong> <script>x</script></p>\n")
    );
}
