//! Site configuration: titles, directories, the image-service credential and
//! the theme colors.

use vstd::prelude::*;

verus! {

/// The settings of one site.
#[derive(Debug, Clone)]
pub struct Config {
    pub title: String,
    pub description: Option<String>,
    pub author: String,
    pub url: Option<String>,
    pub posts_dir: String,
    pub output_dir: String,
    pub openai_api_key: Option<String>,
    pub theme: Theme,
}

/// The colors of the generated pages.
#[derive(Debug, Clone)]
pub struct Theme {
    pub primary_color: String,
    pub background_color: String,
    pub text_color: String,
    pub accent_color: String,
}

impl Default for Theme {
    fn default() -> (r: Self)
        ensures
            r.primary_color@ == "#f5f5f5"@,
            r.background_color@ == "#0a0a0a"@,
            r.text_color@ == "#f5f5f5"@,
            r.accent_color@ == "#8b8b8b"@,
    {
        Theme {
            primary_color: String::from_str("#f5f5f5"),
            background_color: String::from_str("#0a0a0a"),
            text_color: String::from_str("#f5f5f5"),
            accent_color: String::from_str("#8b8b8b"),
        }
    }
}

impl Default for Config {
    fn default() -> (r: Self)
        ensures
            r.title@ == "Scribe"@,
            r.description matches Some(d) && d@ == "A minimal static site generator • ink • eternal"@,
            r.author@ == "Author"@,
            r.url is None,
            r.posts_dir@ == "posts"@,
            r.output_dir@ == "dist"@,
            r.openai_api_key is None,
            r.theme.primary_color@ == "#f5f5f5"@,
            r.theme.background_color@ == "#0a0a0a"@,
            r.theme.text_color@ == "#f5f5f5"@,
            r.theme.accent_color@ == "#8b8b8b"@,
    {
        Config {
            title: String::from_str("Scribe"),
            description: Some(String::from_str("A minimal static site generator • ink • eternal")),
            author: String::from_str("Author"),
            url: None,
            posts_dir: String::from_str("posts"),
            output_dir: String::from_str("dist"),
            openai_api_key: None,
            theme: Theme::default(),
        }
    }
}

} // verus!
