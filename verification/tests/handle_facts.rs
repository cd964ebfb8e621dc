use ftml::data::PageInfo;
use ftml::handle::Handle;
use ftml::settings::{ModuleRenderMode, WikitextSettings};
use ftml::tree::{ImageSource, LinkLabel, LinkLocation, Module};
use ftml::page_ref::PageRef;

fn sample_info() -> PageInfo {
    PageInfo {
        page: "start".to_string(),
        site: "sandbox".to_string(),
        title: "Start".to_string(),
        alt_title: None,
        rating: 0,
        language: "en".to_string(),
    }
}

#[test]
fn message_table() {
    let handle = Handle::new();
    assert_eq!(handle.get_message("en", "button-copy-clipboard"), "Copy to Clipboard");
    assert_eq!(handle.get_message("en", "collapsible-open"), "+ open block");
    assert_eq!(handle.get_message("en", "collapsible-hide"), "- hide block");
    assert_eq!(handle.get_message("en", "table-of-contents"), "Table of Contents");
    assert_eq!(handle.get_message("en", "footnote"), "Footnote");
    assert_eq!(handle.get_message("en", "footnote-block-title"), "Footnotes");
    assert_eq!(handle.get_message("en", "image-context-bad"), "No images in this context");
    assert_eq!(handle.get_message("en", "no-such-key"), "?");
}

#[test]
fn image_gating_disallowed() {
    let handle = Handle::new();
    let info = sample_info();
    let settings = WikitextSettings { mode: ModuleRenderMode::Html, allow_local_paths: false };

    let url = ImageSource::Url("https://example.org/cat.png".to_string());
    assert_eq!(
        handle.get_image_link(&url, &info, &settings),
        Some("https://example.org/cat.png".to_string()),
    );

    let file = ImageSource::File1 { file: "cat.png".to_string() };
    assert_eq!(handle.get_image_link(&file, &info, &settings), None);

    let file2 = ImageSource::File2 { page: "other".to_string(), file: "cat.png".to_string() };
    assert_eq!(handle.get_image_link(&file2, &info, &settings), None);

    let file3 = ImageSource::File3 {
        site: "s".to_string(),
        page: "p".to_string(),
        file: "f.png".to_string(),
    };
    assert_eq!(handle.get_image_link(&file3, &info, &settings), None);
}

#[test]
fn image_gating_allowed() {
    let handle = Handle::new();
    let info = sample_info();
    let settings = WikitextSettings { mode: ModuleRenderMode::Html, allow_local_paths: true };

    let file = ImageSource::File1 { file: "cat.png".to_string() };
    assert_eq!(
        handle.get_image_link(&file, &info, &settings),
        Some("https://sandbox.wjfiles.com/local--files/start/cat.png".to_string()),
    );

    let file2 = ImageSource::File2 { page: "other".to_string(), file: "cat.png".to_string() };
    assert_eq!(
        handle.get_image_link(&file2, &info, &settings),
        Some("https://sandbox.wjfiles.com/local--files/other/cat.png".to_string()),
    );
}

#[test]
fn label_fallbacks() {
    let handle = Handle::new();
    let link = LinkLocation::Page(PageRef::page_and_site(
        "scp-wiki".to_string(),
        "page".to_string(),
    ));

    // Explicit text wins.
    assert_eq!(
        handle.get_link_label("sandbox", &link, &LinkLabel::Text("shown".to_string())),
        "shown",
    );

    // No explicit label, no resolvable title: the canonical reference string.
    assert_eq!(handle.get_link_label("sandbox", &link, &LinkLabel::Page), ":scp-wiki:page");

    // A recorded title wins over the canonical form.
    let handle = Handle {
        missing_pages: Vec::new(),
        page_titles: vec![("scp-wiki".to_string(), "page".to_string(), "The Page".to_string())],
    };
    assert_eq!(handle.get_link_label("sandbox", &link, &LinkLabel::Page), "The Page");

    // A URL link with no label falls back to the literal URL.
    let url = LinkLocation::Url("https://example.org/".to_string());
    assert_eq!(
        handle.get_link_label("sandbox", &url, &LinkLabel::Url(None)),
        "https://example.org/",
    );
}

#[test]
fn page_existence() {
    let handle = Handle {
        missing_pages: vec![("sandbox".to_string(), "missing".to_string())],
        page_titles: Vec::new(),
    };
    assert!(handle.get_page_exists("sandbox", "start"));
    assert!(!handle.get_page_exists("sandbox", "missing"));
    assert!(
        handle.get_page_exists("other-site", "missing"),
        "existence is keyed by both coordinates",
    );
}

#[test]
fn page_titles() {
    let handle = Handle {
        missing_pages: Vec::new(),
        page_titles: vec![
            ("sandbox".to_string(), "start".to_string(), "Welcome".to_string()),
            ("sandbox".to_string(), "start".to_string(), "Shadowed".to_string()),
        ],
    };
    assert_eq!(handle.get_page_title("sandbox", "start"), Some("Welcome".to_string()));
    assert_eq!(handle.get_page_title("sandbox", "other"), None);
    assert_eq!(
        handle.get_page_title("other-site", "start"),
        None,
        "titles are keyed by both coordinates",
    );
}

#[test]
fn user_info_profile() {
    let handle = Handle::new();
    let info = handle.get_user_info("alice").expect("user info is always resolved");
    assert_eq!(info.user_name, "alice");
    assert_eq!(info.user_profile_url, "/user:info/alice");
}

#[test]
fn build_url_normalizes_path() {
    let handle = Handle::new();
    assert_eq!(
        handle.build_url("scp-sandbox", "Some Page"),
        "https://scp-sandbox.wikijump.com/some-page",
    );
    assert_eq!(handle.build_url("www", "start"), "https://www.wikijump.com/start");
}

#[test]
fn module_placeholder() {
    let handle = Handle::new();
    let module = Module { name: "Rate".to_string() };
    let mut buffer = String::from("pre|");
    handle.render_module(&mut buffer, &module, ModuleRenderMode::Html);
    assert_eq!(buffer, "pre|<p>TODO: module Rate</p>");
    let mut text = String::new();
    handle.render_module(&mut text, &module, ModuleRenderMode::Text);
    assert_eq!(text, "TODO: module Rate");
}

#[test]
fn mode_names() {
    assert_eq!(ModuleRenderMode::Html.name(), "Html");
    assert_eq!(ModuleRenderMode::Text.name(), "Text");
}

#[test]
fn post_html_returns_embed_reference() {
    let handle = Handle::new();
    let info = sample_info();
    assert_eq!(handle.post_html(&info, "<p>x</p>"), "https://example.com/");
    handle.post_code(1, "code text");
}
