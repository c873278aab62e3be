use mynote::sanitize::sanitize_content;

#[test]
fn removes_closed_script_element() {
    assert_eq!(sanitize_content("a<script>alert(1)</script>b"), "ab");
}

#[test]
fn removes_script_in_any_ascii_case() {
    assert_eq!(sanitize_content("<SCRIPT>bad()</ScRiPt>ok"), "ok");
    assert_eq!(sanitize_content("x<Script src='a.js'></SCRIPT>y"), "xy");
}

#[test]
fn unclosed_script_removes_to_end() {
    assert_eq!(sanitize_content("keep<script>tail"), "keep");
    assert_eq!(sanitize_content("<script"), "");
}

#[test]
fn removes_every_script_element() {
    assert_eq!(sanitize_content("1<script>a</script>2<script>b</script>3"), "123");
}

#[test]
fn removal_that_forms_a_new_tag_removes_it_too() {
    assert_eq!(sanitize_content("<scr<script></script>ipt>x"), "");
}

#[test]
fn clean_content_is_unchanged() {
    assert_eq!(sanitize_content("今天天气很好 <b>bold</b>"), "今天天气很好 <b>bold</b>");
    assert_eq!(sanitize_content(""), "");
    assert_eq!(sanitize_content("</script> only a closing tag"), "</script> only a closing tag");
}

#[test]
fn non_ascii_text_around_a_script_is_kept() {
    assert_eq!(sanitize_content("日记<script>x</script>内容"), "日记内容");
}

#[test]
fn sanitize_is_idempotent_on_examples() {
    for s in ["a<script>b</script>c", "<scr<script></script>ipt>x", "plain", "x<SCRIPT"] {
        let once = sanitize_content(s);
        assert_eq!(sanitize_content(&once), once);
    }
}

#[test]
fn sanitized_holds_no_script_tag_and_never_grows() {
    for s in ["a<script>b</script>c<ScRiPt", "<<script>script>", "<scr<script></script>ipt>x<script>"] {
        let out = sanitize_content(s);
        assert!(!out.to_lowercase().contains("<script"));
        assert!(out.chars().count() <= s.chars().count());
    }
}

#[test]
fn positions_are_characters_even_when_lowercasing_changes_byte_lengths() {
    assert_eq!(sanitize_content("Ⱥ<script>x</script>abc"), "Ⱥabc");
    assert_eq!(sanitize_content("İ<SCRIPT>x</script>y"), "İy");
}
