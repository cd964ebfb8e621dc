//! The capability through which rendering obtains contextual facts.
//!
//! A [`Handle`] answers the questions the text alone cannot: whether a page
//! exists, what its title is, how an image source resolves, what a
//! localized message says. It is injected per render call; its answers are
//! plain data, so a render call is a mathematical function of the input
//! text, the page context, the settings and the handle.

use vstd::prelude::*;
use vstd::string::StringExecFns;
use crate::data::{PageInfo, PageInfoView, UserInfo};
use crate::page_ref::canonical_spec;
use crate::settings::{ModuleRenderMode, WikitextSettings};
use crate::text::{chars_to_string, push_str_chars, str_eq};
use crate::tree::{ImageSource, ImageSourceView, LinkLabel, LinkLabelView, LinkLocation,
    LinkLocationView, Module};

verus! {

/// Mathematical model of a [`Handle`]'s answers.
pub struct HandleView {
    pub missing_pages: Seq<(Seq<char>, Seq<char>)>,
    pub page_titles: Seq<(Seq<char>, Seq<char>, Seq<char>)>,
}

/// Host-supplied facts for one render call.
///
/// Pages are assumed to exist unless their `(site, page)` coordinates are
/// listed in `missing_pages`; titles resolve through `page_titles` by the
/// same coordinates, first match wins. Because the facts are fixed for the
/// life of the value, answers are referentially consistent within a render
/// call.
pub struct Handle {
    /// Coordinates of pages known not to exist.
    pub missing_pages: Vec<(String, String)>,
    /// Known page titles, keyed by site and page.
    pub page_titles: Vec<(String, String, String)>,
}

impl View for Handle {
    type V = HandleView;

    open spec fn view(&self) -> HandleView {
        HandleView {
            missing_pages: self.missing_pages@.map_values(
                |p: (String, String)| (p.0@, p.1@),
            ),
            page_titles: self.page_titles@.map_values(
                |p: (String, String, String)| (p.0@, p.1@, p.2@),
            ),
        }
    }
}

/// Whether a page exists, according to the handle's facts.
pub open spec fn page_exists_spec(h: HandleView, site: Seq<char>, page: Seq<char>) -> bool {
    !h.missing_pages.contains((site, page))
}

/// The first title recorded for the coordinates at or after position `i`.
pub open spec fn title_from_spec(
    titles: Seq<(Seq<char>, Seq<char>, Seq<char>)>,
    i: int,
    site: Seq<char>,
    page: Seq<char>,
) -> Option<Seq<char>>
    decreases titles.len() - i when 0 <= i <= titles.len()
{
    if i >= titles.len() {
        None
    } else if titles[i].0 == site && titles[i].1 == page {
        Some(titles[i].2)
    } else {
        title_from_spec(titles, i + 1, site, page)
    }
}

/// The title the handle resolves for a page, when it has one.
pub open spec fn title_spec(h: HandleView, site: Seq<char>, page: Seq<char>) -> Option<Seq<char>> {
    title_from_spec(h.page_titles, 0, site, page)
}

/// The site a reference resolves against: its own, or the current one.
pub open spec fn resolved_site_spec(
    page_ref: crate::page_ref::PageRefView,
    current_site: Seq<char>,
) -> Seq<char> {
    match page_ref.site {
        Some(site) => site,
        None => current_site,
    }
}

/// The profile URL the handle builds for a user.
pub open spec fn user_profile_url_spec(name: Seq<char>) -> Seq<char> {
    "/user:info/"@ + name
}

/// Where a page-attached file is served from.
pub open spec fn file_url_spec(site: Seq<char>, page: Seq<char>, file: Seq<char>) -> Seq<char> {
    "https://"@ + site + ".wjfiles.com/local--files/"@ + page + "/"@ + file
}

/// How an image source resolves: a literal URL always, a file-relative
/// source only when local paths are allowed.
pub open spec fn image_link_spec(
    source: ImageSourceView,
    info: PageInfoView,
    settings: WikitextSettings,
) -> Option<Seq<char>> {
    match source {
        ImageSourceView::Url(url) => Some(url),
        ImageSourceView::File1 { file } => if settings.allow_local_paths {
            Some(file_url_spec(info.site, info.page, file))
        } else {
            None
        },
        ImageSourceView::File2 { page, file } => if settings.allow_local_paths {
            Some(file_url_spec(info.site, page, file))
        } else {
            None
        },
        ImageSourceView::File3 { site, page, file } => if settings.allow_local_paths {
            Some(file_url_spec(site, page, file))
        } else {
            None
        },
    }
}

/// The display text of a link: explicit text wins; a URL label falls back
/// to the literal URL; a page label falls back to the page's title, then to
/// its canonical reference string.
pub open spec fn link_label_spec(
    h: HandleView,
    current_site: Seq<char>,
    link: LinkLocationView,
    label: LinkLabelView,
) -> Seq<char>
    recommends !(label is Page && link is Url)
{
    match label {
        LinkLabelView::Text(text) => text,
        LinkLabelView::Url(Some(text)) => text,
        LinkLabelView::Url(None) => match link {
            LinkLocationView::Url(url) => url,
            LinkLocationView::Page(page_ref) => page_ref.page,
        },
        LinkLabelView::Page => match link {
            LinkLocationView::Url(url) => arbitrary(),
            LinkLocationView::Page(page_ref) => match title_spec(
                h,
                resolved_site_spec(page_ref, current_site),
                page_ref.page,
            ) {
                Some(title) => title,
                None => canonical_spec(page_ref),
            },
        },
    }
}

/// The message table: localized strings for fixed keys, with a visible `?`
/// fallback for an unknown key.
pub open spec fn message_spec(language: Seq<char>, key: Seq<char>) -> Seq<char> {
    if key == "button-copy-clipboard"@ {
        "Copy to Clipboard"@
    } else if key == "collapsible-open"@ {
        "+ open block"@
    } else if key == "collapsible-hide"@ {
        "- hide block"@
    } else if key == "table-of-contents"@ {
        "Table of Contents"@
    } else if key == "footnote"@ {
        "Footnote"@
    } else if key == "footnote-block-title"@ {
        "Footnotes"@
    } else if key == "image-context-bad"@ {
        "No images in this context"@
    } else {
        "?"@
    }
}

/// The placeholder representation a module renders to.
pub open spec fn module_placeholder_spec(name: Seq<char>, mode: ModuleRenderMode) -> Seq<char> {
    match mode {
        ModuleRenderMode::Html => "<p>TODO: module "@ + name + "</p>"@,
        ModuleRenderMode::Text => "TODO: module "@ + name,
    }
}

/// What a slug path canonicalizes to.
///
/// The normal form depends on the path's characters alone; nothing beyond
/// that is assumed of it.
pub uninterp spec fn normal_of(path: Seq<char>) -> Seq<char>;

/// The absolute URL of a site-relative path, after slug canonicalization.
pub open spec fn build_url_spec(site: Seq<char>, path: Seq<char>) -> Seq<char> {
    "https://"@ + site + ".wikijump.com/"@ + normal_of(path)
}

/// Relies on `wikidot_normalize::normalize`: it rewrites the string into
/// Wikidot normal form, a function of the string's characters alone.
#[verifier::external_body]
pub(crate) fn normalize_path(path: &str) -> (r: String)
    ensures
        r@ == normal_of(path@),
{
    let mut text = path.to_string();
    wikidot_normalize::normalize(&mut text);
    text
}

impl Handle {
    /// A handle with no recorded facts: every page exists, no titles.
    pub fn new() -> (r: Handle)
        ensures
            r@.missing_pages.len() == 0,
            r@.page_titles.len() == 0,
    {
        Handle { missing_pages: Vec::new(), page_titles: Vec::new() }
    }

    /// Appends a representation of the module to the buffer. Never fails;
    /// an unrenderable module still leaves a visible placeholder so the
    /// rest of the document renders.
    pub fn render_module(&self, buffer: &mut String, module: &Module, mode: ModuleRenderMode)
        ensures
            final(buffer)@ == old(buffer)@ + module_placeholder_spec(module@, mode),
    {
        match mode {
            ModuleRenderMode::Html => {
                buffer.append("<p>TODO: module ");
                buffer.append(module.name.as_str());
                buffer.append("</p>");
            },
            ModuleRenderMode::Text => {
                buffer.append("TODO: module ");
                buffer.append(module.name.as_str());
            },
        }
    }

    /// The page's title, when the handle resolves one; absence sends the
    /// caller to the reference's own canonical text.
    pub fn get_page_title(&self, site: &str, page: &str) -> (r: Option<String>)
        ensures
            match r {
                Some(title) => title_spec(self@, site@, page@) == Some(title@),
                None => title_spec(self@, site@, page@) is None,
            },
    {
        let n = self.page_titles.len();
        let mut i: usize = 0;
        while i < n
            invariant
                n == self.page_titles@.len(),
                i <= n,
                n == self@.page_titles.len(),
                forall|k: int| 0 <= k < n ==> self@.page_titles[k] == (
                    self.page_titles@[k].0@,
                    self.page_titles@[k].1@,
                    self.page_titles@[k].2@,
                ),
                title_from_spec(self@.page_titles, 0, site@, page@) == title_from_spec(
                    self@.page_titles,
                    i as int,
                    site@,
                    page@,
                ),
            decreases n - i,
        {
            let entry = &self.page_titles[i];
            if str_eq(entry.0.as_str(), site) && str_eq(entry.1.as_str(), page) {
                return Some(entry.2.clone());
            }
            i = i + 1;
        }
        None
    }

    /// Whether the page exists: true unless the handle lists it missing.
    /// Referentially consistent within one render call, since the facts are
    /// fixed data.
    pub fn get_page_exists(&self, site: &str, page: &str) -> (r: bool)
        ensures
            r == page_exists_spec(self@, site@, page@),
    {
        let n = self.missing_pages.len();
        let mut i: usize = 0;
        while i < n
            invariant
                n == self.missing_pages@.len(),
                i <= n,
                n == self@.missing_pages.len(),
                forall|k: int| 0 <= k < n ==> self@.missing_pages[k] == (
                    self.missing_pages@[k].0@,
                    self.missing_pages@[k].1@,
                ),
                forall|k: int| 0 <= k < i ==> self@.missing_pages[k] != (site@, page@),
            decreases n - i,
        {
            let entry = &self.missing_pages[i];
            if str_eq(entry.0.as_str(), site) && str_eq(entry.1.as_str(), page) {
                assert(self@.missing_pages[i as int] == (site@, page@));
                return false;
            }
            i = i + 1;
        }
        assert(forall|k: int| 0 <= k < n ==> self@.missing_pages[k] != (site@, page@));
        true
    }

    /// Structured facts about a user; the generic profile link is derived
    /// from the name.
    pub fn get_user_info(&self, name: &str) -> (r: Option<UserInfo>)
        ensures
            match r {
                Some(info) => info@.user_name == name@ && info@.user_profile_url
                    == user_profile_url_spec(name@),
                None => false,
            },
    {
        let mut url: Vec<char> = Vec::new();
        push_str_chars(&mut url, "/user:info/");
        push_str_chars(&mut url, name);
        Some(UserInfo { user_name: name.to_owned(), user_profile_url: chars_to_string(&url) })
    }

    /// Resolves an image source to a URL. A literal URL source always
    /// resolves; a file-relative source resolves only when the settings
    /// allow local paths — this gate is never bypassed.
    pub fn get_image_link(
        &self,
        source: &ImageSource,
        info: &PageInfo,
        settings: &WikitextSettings,
    ) -> (r: Option<String>)
        ensures
            match r {
                Some(url) => image_link_spec(source@, info@, *settings) == Some(url@),
                None => image_link_spec(source@, info@, *settings) is None,
            },
    {
        let (site, page, file): (&str, &str, &str) = match source {
            ImageSource::Url(url) => {
                return Some(url.clone());
            },
            ImageSource::File1 { file } => {
                if !settings.allow_local_paths {
                    return None;
                }
                (info.site.as_str(), info.page.as_str(), file.as_str())
            },
            ImageSource::File2 { page, file } => {
                if !settings.allow_local_paths {
                    return None;
                }
                (info.site.as_str(), page.as_str(), file.as_str())
            },
            ImageSource::File3 { site, page, file } => {
                if !settings.allow_local_paths {
                    return None;
                }
                (site.as_str(), page.as_str(), file.as_str())
            },
        };
        let mut url: Vec<char> = Vec::new();
        push_str_chars(&mut url, "https://");
        push_str_chars(&mut url, site);
        push_str_chars(&mut url, ".wjfiles.com/local--files/");
        push_str_chars(&mut url, page);
        push_str_chars(&mut url, "/");
        push_str_chars(&mut url, file);
        Some(chars_to_string(&url))
    }

    /// Computes a link's display text. Asking for the page-title form of a
    /// URL-only link is a caller bug, excluded by contract rather than
    /// absorbed.
    pub fn get_link_label(&self, site: &str, link: &LinkLocation, label: &LinkLabel) -> (r: String)
        requires
            !(label@ is Page && link@ is Url),
        ensures
            r@ == link_label_spec(self@, site@, link@, label@),
    {
        match label {
            LinkLabel::Text(text) => text.clone(),
            LinkLabel::Url(Some(text)) => text.clone(),
            LinkLabel::Url(None) => match link {
                LinkLocation::Url(url) => url.clone(),
                LinkLocation::Page(page_ref) => page_ref.page.clone(),
            },
            LinkLabel::Page => match link {
                LinkLocation::Url(_) => vstd::pervasive::unreached(),
                LinkLocation::Page(page_ref) => {
                    let (target_site, target_page) = page_ref.fields_or(site);
                    match self.get_page_title(target_site, target_page) {
                        Some(title) => title,
                        None => page_ref.canonical_string(),
                    }
                },
            },
        }
    }

    /// The localized string for a message key; an unknown key yields the
    /// visible `?` marker rather than failing.
    pub fn get_message(&self, language: &str, message: &str) -> (r: &'static str)
        ensures
            r@ == message_spec(language@, message@),
    {
        if str_eq(message, "button-copy-clipboard") {
            "Copy to Clipboard"
        } else if str_eq(message, "collapsible-open") {
            "+ open block"
        } else if str_eq(message, "collapsible-hide") {
            "- hide block"
        } else if str_eq(message, "table-of-contents") {
            "Table of Contents"
        } else if str_eq(message, "footnote") {
            "Footnote"
        } else if str_eq(message, "footnote-block-title") {
            "Footnotes"
        } else if str_eq(message, "image-context-bad") {
            "No images in this context"
        } else {
            "?"
        }
    }

    /// Submits rendered HTML and returns the hosted embedding reference.
    pub fn post_html(&self, info: &PageInfo, html: &str) -> (r: String)
        ensures
            r@ == "https://example.com/"@,
    {
        String::from_str("https://example.com/")
    }

    /// Accepts a code snippet for separate processing; fire and forget.
    pub fn post_code(&self, index: usize, code: &str) {
    }

    /// The absolute URL of `path` on `site`, after slug canonicalization.
    pub fn build_url(&self, site: &str, path: &str) -> (r: String)
        ensures
            r@ == build_url_spec(site@, path@),
    {
        let normalized = normalize_path(path);
        let mut url: Vec<char> = Vec::new();
        push_str_chars(&mut url, "https://");
        push_str_chars(&mut url, site);
        push_str_chars(&mut url, ".wikijump.com/");
        push_str_chars(&mut url, normalized.as_str());
        chars_to_string(&url)
    }
}

/// Image gating: with local paths disallowed, a file-relative source never
/// resolves; a literal URL source always resolves, regardless of settings.
pub proof fn lemma_image_gating(
    source: ImageSourceView,
    info: PageInfoView,
    settings: WikitextSettings,
)
    ensures
        !settings.allow_local_paths && !(source is Url) ==> image_link_spec(
            source,
            info,
            settings,
        ) is None,
        source matches ImageSourceView::Url(url) ==> image_link_spec(source, info, settings)
            == Some(url),
{
}

/// Label fallback: a page link labeled by its page, with no resolvable
/// title, displays as its canonical reference string.
pub proof fn lemma_label_fallback(
    h: HandleView,
    current_site: Seq<char>,
    page_ref: crate::page_ref::PageRefView,
)
    requires
        title_spec(h, resolved_site_spec(page_ref, current_site), page_ref.page) is None,
    ensures
        link_label_spec(
            h,
            current_site,
            LinkLocationView::Page(page_ref),
            LinkLabelView::Page,
        ) == canonical_spec(page_ref),
{
}

} // verus!
