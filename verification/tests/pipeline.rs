use ftml::data::PageInfo;
use ftml::handle::Handle;
use ftml::preprocess::preprocess;
use ftml::service::RenderService;
use ftml::settings::{ModuleRenderMode, WikitextSettings};
use ftml::tokenizer::tokenize;
use ftml::tree::WarningKind;
use ftml::utils::replace_in_place;

fn sample_info() -> PageInfo {
    PageInfo {
        page: "start".to_string(),
        site: "sandbox".to_string(),
        title: "Start".to_string(),
        alt_title: None,
        rating: 7,
        language: "en".to_string(),
    }
}

fn html_settings() -> WikitextSettings {
    WikitextSettings { mode: ModuleRenderMode::Html, allow_local_paths: false }
}

#[test]
fn preprocess_normalizes_line_endings() {
    let mut text = String::from("a\r\nb\rc\u{0}d");
    preprocess(&mut text);
    assert_eq!(text, "a\nb\ncd");
}

#[test]
fn preprocess_expands_tabs() {
    let mut text = String::from("a\tb");
    preprocess(&mut text);
    assert_eq!(text, "a    b");
}

#[test]
fn preprocess_is_idempotent() {
    let mut once = String::from("x\r\ny\rz\tw");
    preprocess(&mut once);
    let mut twice = once.clone();
    preprocess(&mut twice);
    assert_eq!(once, twice);
}

#[test]
fn replace_in_place_rewrites_all() {
    let mut s = String::from("one fish two fish");
    replace_in_place(&mut s, "fish", "cat");
    assert_eq!(s, "one cat two cat");

    let mut s = String::from("aaa");
    replace_in_place(&mut s, "aa", "b");
    assert_eq!(s, "ba");

    let mut s = String::from("nothing here");
    replace_in_place(&mut s, "zebra", "lion");
    assert_eq!(s, "nothing here");
}

#[test]
fn tokenize_partitions_input() {
    let tokens = tokenize("ab **c**\n+ d");
    let mut joined = String::new();
    let mut offset = 0;
    for token in &tokens {
        assert_eq!(token.span.start, offset, "spans are adjacent and increasing");
        assert!(token.span.len > 0);
        offset += token.span.len;
        joined.push_str(&token.text);
    }
    assert_eq!(joined, "ab **c**\n+ d");
}

#[test]
fn render_heading_and_styles() {
    let (output, warnings) = RenderService::render(
        "+ Title\n\nHello **world**".to_string(),
        &sample_info(),
        &html_settings(),
        &Handle::new(),
    );
    assert_eq!(output.body, "<h1> Title</h1><p>Hello <strong>world</strong></p>");
    assert!(warnings.is_empty());
}

#[test]
fn render_is_deterministic() {
    let text = "+ A //b//\n\n[[[page|x]]] **c\n\n----\n[[module Rate]]";
    let info = sample_info();
    let settings = html_settings();
    let handle = Handle::new();
    let (first, first_warnings) =
        RenderService::render(text.to_string(), &info, &settings, &handle);
    let (second, second_warnings) =
        RenderService::render(text.to_string(), &info, &settings, &handle);
    assert_eq!(first.body, second.body, "byte-identical output");
    assert_eq!(first_warnings, second_warnings, "identical warning lists");
}

#[test]
fn render_missing_page_is_marked() {
    let info = sample_info();
    let settings = html_settings();
    let handle = Handle {
        missing_pages: vec![("sandbox".to_string(), "missing".to_string())],
        page_titles: Vec::new(),
    };

    let (absent, _) = RenderService::render(
        "[[[missing|go]]]".to_string(),
        &info,
        &settings,
        &handle,
    );
    let (present, _) = RenderService::render(
        "[[[existing|go]]]".to_string(),
        &info,
        &settings,
        &handle,
    );
    assert!(absent.body.contains("class=\"newpage\""), "missing page carries the marker");
    assert!(!present.body.contains("class=\"newpage\""), "existing page has no marker");
    assert_ne!(absent.body, present.body);
}

#[test]
fn render_label_falls_back_to_canonical_reference() {
    let (output, warnings) = RenderService::render(
        "[[[:scp-wiki:page]]]".to_string(),
        &sample_info(),
        &html_settings(),
        &Handle::new(),
    );
    assert!(
        output.body.contains(">:scp-wiki:page</a>"),
        "no explicit label and no title: the canonical reference string, got {}",
        output.body,
    );
    assert!(warnings.is_empty());
}

#[test]
fn render_image_respects_gate() {
    let info = sample_info();
    let handle = Handle::new();
    let closed = WikitextSettings { mode: ModuleRenderMode::Html, allow_local_paths: false };
    let open = WikitextSettings { mode: ModuleRenderMode::Html, allow_local_paths: true };

    let (blocked, _) =
        RenderService::render("[[image cat.png]]".to_string(), &info, &closed, &handle);
    assert!(blocked.body.contains("image-missing"));
    assert!(!blocked.body.contains("<img"));

    let (allowed, _) =
        RenderService::render("[[image cat.png]]".to_string(), &info, &open, &handle);
    assert_eq!(
        allowed.body,
        "<p><img src=\"https://sandbox.wjfiles.com/local--files/start/cat.png\"></p>",
    );

    let (remote, _) = RenderService::render(
        "[[image https://example.org/cat.png]]".to_string(),
        &info,
        &closed,
        &handle,
    );
    assert_eq!(remote.body, "<p><img src=\"https://example.org/cat.png\"></p>");
}

#[test]
fn render_unclosed_bold_degrades() {
    let (output, warnings) = RenderService::render(
        "**bold".to_string(),
        &sample_info(),
        &html_settings(),
        &Handle::new(),
    );
    assert_eq!(output.body, "<p>**bold</p>");
    assert_eq!(warnings.len(), 1);
    assert_eq!(warnings[0].kind, WarningKind::UnclosedBlock);
}

#[test]
fn render_invalid_reference_degrades() {
    let (output, warnings) = RenderService::render(
        "[[[::bad]]]".to_string(),
        &sample_info(),
        &html_settings(),
        &Handle::new(),
    );
    assert_eq!(output.body, "<p>[[[::bad]]]</p>");
    assert_eq!(warnings.len(), 1);
    assert_eq!(warnings[0].kind, WarningKind::InvalidReference);
}

#[test]
fn render_unknown_tag_degrades() {
    let (output, warnings) = RenderService::render(
        "[[shiny thing]]".to_string(),
        &sample_info(),
        &html_settings(),
        &Handle::new(),
    );
    assert_eq!(output.body, "<p>[[shiny thing]]</p>");
    assert_eq!(warnings.len(), 1);
    assert_eq!(warnings[0].kind, WarningKind::UnrecognizedTag);
}

#[test]
fn render_horizontal_rule_and_rule_text() {
    let (output, warnings) = RenderService::render(
        "above\n\n----\nbelow".to_string(),
        &sample_info(),
        &html_settings(),
        &Handle::new(),
    );
    assert_eq!(output.body, "<p>above</p><hr><p>below</p>");
    assert!(warnings.is_empty());
}

#[test]
fn render_escapes_html_text() {
    let (output, _) = RenderService::render(
        "a <b> & \"c\"".to_string(),
        &sample_info(),
        &html_settings(),
        &Handle::new(),
    );
    assert_eq!(output.body, "<p>a &lt;b&gt; &amp; &quot;c&quot;</p>");
}

#[test]
fn render_text_mode() {
    let settings = WikitextSettings { mode: ModuleRenderMode::Text, allow_local_paths: false };
    let (output, _) = RenderService::render(
        "+ Title\n\nHello **world**".to_string(),
        &sample_info(),
        &settings,
        &Handle::new(),
    );
    assert_eq!(output.body, " Title\nHello world\n");
}

#[test]
fn render_toc_and_user() {
    let (output, _) = RenderService::render(
        "[[toc]] and [[user alice]]".to_string(),
        &sample_info(),
        &html_settings(),
        &Handle::new(),
    );
    assert_eq!(
        output.body,
        "<p><div class=\"toc\">Table of Contents</div> and \
         <a class=\"user\" href=\"/user:info/alice\">alice</a></p>",
    );
}

#[test]
fn render_nesting_depth_is_bounded() {
    let mut text = String::new();
    for _ in 0..12 {
        text.push_str("**//");
    }
    text.push_str("deep");
    let (_, warnings) = RenderService::render(
        text,
        &sample_info(),
        &html_settings(),
        &Handle::new(),
    );
    assert!(
        warnings.iter().any(|w| w.kind == WarningKind::DepthExceeded),
        "exceeding the nesting bound is flattened with a warning",
    );
}

#[test]
fn finish_carries_hash_and_generator() {
    let (output, warnings) = RenderService::render(
        "hello".to_string(),
        &sample_info(),
        &html_settings(),
        &Handle::new(),
    );
    let result = RenderService::finish(output, warnings, "abc123".to_string());
    assert_eq!(result.compiled_hash, "abc123");
    assert_eq!(result.compiled_generator, "ftml 0.1.0");
    assert_eq!(result.html_output.body, "<p>hello</p>");
    assert!(result.warnings.is_empty());
}

#[test]
fn render_blockquote() {
    let (output, warnings) = RenderService::render(
        "> quoted **x**\n\ntail".to_string(),
        &sample_info(),
        &html_settings(),
        &Handle::new(),
    );
    assert_eq!(
        output.body,
        "<blockquote> quoted <strong>x</strong></blockquote><p>tail</p>",
    );
    assert!(warnings.is_empty());
}

#[test]
fn render_lists() {
    let (output, warnings) = RenderService::render(
        "* one\n* two\n\n# first".to_string(),
        &sample_info(),
        &html_settings(),
        &Handle::new(),
    );
    assert_eq!(
        output.body,
        "<ul><li> one</li><li> two</li></ul><ol><li> first</li></ol>",
    );
    assert!(warnings.is_empty());
}

#[test]
fn render_stray_markers_stay_literal() {
    let (output, _) = RenderService::render(
        "2 # 3 | x".to_string(),
        &sample_info(),
        &html_settings(),
        &Handle::new(),
    );
    assert_eq!(output.body, "<p>2 # 3 | x</p>");
}

#[test]
fn render_code_and_math() {
    let (output, warnings) = RenderService::render(
        "[[code let x = 1 < 2;]] [[math a^2]]".to_string(),
        &sample_info(),
        &html_settings(),
        &Handle::new(),
    );
    assert_eq!(
        output.body,
        "<p><pre><code>let x = 1 &lt; 2;</code></pre> <span class=\"math\">a^2</span></p>",
    );
    assert!(warnings.is_empty());
}

#[test]
fn render_include_and_footnote() {
    let (output, warnings) = RenderService::render(
        "[[include :scp-wiki:fragment:page]] [[footnote see also]]".to_string(),
        &sample_info(),
        &html_settings(),
        &Handle::new(),
    );
    assert_eq!(
        output.body,
        "<p><div class=\"include\">:scp-wiki:fragment:page</div> \
         <sup class=\"footnote\">Footnote</sup>\
         <span class=\"footnote-text\">see also</span></p>",
    );
    assert!(warnings.is_empty());

    let (bad, bad_warnings) = RenderService::render(
        "[[include ::broken]]".to_string(),
        &sample_info(),
        &html_settings(),
        &Handle::new(),
    );
    assert_eq!(bad.body, "<p>[[include ::broken]]</p>");
    assert_eq!(bad_warnings.len(), 1);
    assert_eq!(bad_warnings[0].kind, WarningKind::InvalidReference);
}

#[test]
fn render_table() {
    let (output, warnings) = RenderService::render(
        "||a||**b**||\n||c||\n\nafter".to_string(),
        &sample_info(),
        &html_settings(),
        &Handle::new(),
    );
    assert_eq!(
        output.body,
        "<table><tr><td>a</td><td><strong>b</strong></td></tr>\
         <tr><td>c</td></tr></table><p>after</p>",
    );
    assert!(warnings.is_empty());
}

#[test]
fn render_missing_page_marked_in_whole_document() {
    let info = sample_info();
    let settings = html_settings();
    let existing = Handle::new();
    let missing = Handle {
        missing_pages: vec![("sandbox".to_string(), "target".to_string())],
        page_titles: Vec::new(),
    };
    let text = "before **x**\n\nsee [[[target|the page]]] here\n\nafter";

    let (with_page, _) = RenderService::render(text.to_string(), &info, &settings, &existing);
    let (without_page, _) = RenderService::render(text.to_string(), &info, &settings, &missing);
    assert!(without_page.body.contains("<a class=\"newpage\""));
    assert!(!with_page.body.contains("<a class=\"newpage\""));
    assert_ne!(without_page.body, with_page.body);

    // The two documents correspond outside the link itself.
    let marker = "class=\"newpage\" ";
    let normalized = without_page.body.replace(marker, "");
    assert_eq!(normalized, with_page.body, "the renderings differ only in the marker");
}
