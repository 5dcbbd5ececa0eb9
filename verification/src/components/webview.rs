//! Configuration of an embedded web view.

use vstd::prelude::*;

verus! {

/// What a web view shows.
#[derive(Debug, Clone)]
pub enum Content {
    Url(String),
    Html(String),
}

/// How a web view is built: its content, transparency and developer tools.
#[derive(Debug, Clone)]
pub struct WebViewConfig {
    content: Content,
    transparent: bool,
    devtools: bool,
}

impl WebViewConfig {
    /// The content shown.
    pub closed spec fn content_spec(&self) -> Content {
        self.content
    }

    /// Whether the background is transparent.
    pub closed spec fn transparent_spec(&self) -> bool {
        self.transparent
    }

    /// Whether developer tools are enabled.
    pub closed spec fn devtools_spec(&self) -> bool {
        self.devtools
    }

    /// An empty URL, opaque, without developer tools.
    pub fn new() -> (c: Self)
        ensures
            c.content_spec() matches Content::Url(u) && u@.len() == 0,
            !c.transparent_spec(),
            !c.devtools_spec(),
    {
        WebViewConfig { content: Content::Url(String::new()), transparent: false, devtools: false }
    }

    /// Shows `url`.
    pub fn url(self, url: String) -> (c: Self)
        ensures
            c.content_spec() == Content::Url(url),
            c.transparent_spec() == self.transparent_spec(),
            c.devtools_spec() == self.devtools_spec(),
    {
        WebViewConfig { content: Content::Url(url), ..self }
    }

    /// Shows the document `html`.
    pub fn html(self, html: String) -> (c: Self)
        ensures
            c.content_spec() == Content::Html(html),
            c.transparent_spec() == self.transparent_spec(),
            c.devtools_spec() == self.devtools_spec(),
    {
        WebViewConfig { content: Content::Html(html), ..self }
    }

    /// Sets transparency.
    pub fn transparent(self, transparent: bool) -> (c: Self)
        ensures
            c.content_spec() == self.content_spec(),
            c.transparent_spec() == transparent,
            c.devtools_spec() == self.devtools_spec(),
    {
        WebViewConfig { transparent, ..self }
    }

    /// Enables or disables developer tools.
    pub fn devtools(self, devtools: bool) -> (c: Self)
        ensures
            c.content_spec() == self.content_spec(),
            c.transparent_spec() == self.transparent_spec(),
            c.devtools_spec() == devtools,
    {
        WebViewConfig { devtools, ..self }
    }

    /// The content shown.
    pub fn content(&self) -> (c: &Content)
        ensures
            *c == self.content_spec(),
    {
        &self.content
    }

    /// Whether the background is transparent.
    pub fn is_transparent(&self) -> (b: bool)
        ensures
            b == self.transparent_spec(),
    {
        self.transparent
    }

    /// Whether developer tools are enabled.
    pub fn has_devtools(&self) -> (b: bool)
        ensures
            b == self.devtools_spec(),
    {
        self.devtools
    }
}

impl Default for WebViewConfig {
    fn default() -> (c: Self)
        ensures
            c.content_spec() matches Content::Url(u) && u@.len() == 0,
            !c.transparent_spec(),
            !c.devtools_spec(),
    {
        WebViewConfig::new()
    }
}

} // verus!
