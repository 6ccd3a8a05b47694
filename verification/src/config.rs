//! The site configuration: where styles, fragments and documents live,
//! and the site's public identity.

use vstd::prelude::*;

verus! {

/// A site's configuration. Paths are kept as text, relative to the
/// project directory.
#[derive(Debug)]
pub struct Config {
    pub styles_css: String,
    pub components_dir: String,
    pub posts_dir: String,
    pub hosted_url: String,
    pub og_image_url: String,
    pub site_name: String,
    pub description: String,
}

impl Default for Config {
    /// The configuration a fresh project starts with.
    fn default() -> (c: Config)
        ensures
            c.styles_css@ == "src/styles.css"@,
            c.components_dir@ == "src/components"@,
            c.posts_dir@ == "src/posts"@,
            c.hosted_url@ == "https://example.com"@,
            c.og_image_url@ == "https://upload.wikimedia.org/wikipedia/en/a/a9/Example.jpg"@,
            c.site_name@ == "My Site"@,
            c.description@ == "My lovely website"@,
    {
        Config {
            styles_css: String::from_str("src/styles.css"),
            components_dir: String::from_str("src/components"),
            posts_dir: String::from_str("src/posts"),
            hosted_url: String::from_str("https://example.com"),
            og_image_url: String::from_str(
                "https://upload.wikimedia.org/wikipedia/en/a/a9/Example.jpg",
            ),
            site_name: String::from_str("My Site"),
            description: String::from_str("My lovely website"),
        }
    }
}

} // verus!
