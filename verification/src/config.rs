//! Requests, the conversion settings and the results handed back.

use vstd::prelude::*;

verus! {

/// Which parts of a document are pruned, and whether line breaks survive.
#[derive(Debug, Clone, Copy, PartialEq, Eq, Structural)]
pub struct CleaningRules {
    pub remove_scripts: bool,
    pub remove_styles: bool,
    pub remove_comments: bool,
    pub preserve_line_breaks: bool,
}

impl Default for CleaningRules {
    fn default() -> (rules: CleaningRules)
        ensures
            rules == (CleaningRules {
                remove_scripts: false,
                remove_styles: false,
                remove_comments: false,
                preserve_line_breaks: false,
            }),
    {
        CleaningRules {
            remove_scripts: false,
            remove_styles: false,
            remove_comments: false,
            preserve_line_breaks: false,
        }
    }
}

/// The settings of one conversion. They are fixed for the whole conversion.
#[derive(Debug, Clone, Copy, PartialEq, Eq, Structural)]
pub struct ConvertConfig {
    pub include_links: bool,
    pub clean_whitespace: bool,
    pub cleaning_rules: CleaningRules,
    pub preserve_headings: bool,
    pub include_metadata: bool,
    pub max_heading_level: u8,
}

impl Default for ConvertConfig {
    fn default() -> (config: ConvertConfig)
        ensures
            config == (ConvertConfig {
                include_links: false,
                clean_whitespace: false,
                cleaning_rules: CleaningRules {
                    remove_scripts: false,
                    remove_styles: false,
                    remove_comments: false,
                    preserve_line_breaks: false,
                },
                preserve_headings: false,
                include_metadata: false,
                max_heading_level: 0,
            }),
    {
        ConvertConfig {
            include_links: false,
            clean_whitespace: false,
            cleaning_rules: CleaningRules::default(),
            preserve_headings: false,
            include_metadata: false,
            max_heading_level: 0,
        }
    }
}

impl ConvertConfig {
    /// The settings used where a page is asked for by its address alone:
    /// links, metadata and headings down to level 6, every cleaning rule on.
    pub fn full() -> (config: ConvertConfig)
        ensures
            config == (ConvertConfig {
                include_links: true,
                clean_whitespace: true,
                cleaning_rules: CleaningRules {
                    remove_scripts: true,
                    remove_styles: true,
                    remove_comments: true,
                    preserve_line_breaks: true,
                },
                preserve_headings: true,
                include_metadata: true,
                max_heading_level: 6,
            }),
    {
        ConvertConfig {
            include_links: true,
            clean_whitespace: true,
            cleaning_rules: CleaningRules {
                remove_scripts: true,
                remove_styles: true,
                remove_comments: true,
                preserve_line_breaks: true,
            },
            preserve_headings: true,
            include_metadata: true,
            max_heading_level: 6,
        }
    }
}

/// A request to convert the page at `url`.
#[derive(Debug)]
pub struct ConvertRequest {
    pub url: String,
    pub config: ConvertConfig,
}

/// A request to crawl from `url`: at most `limit` pages, links followed down to
/// `max_depth` steps from the seed, relative links only where `follow_relative`.
#[derive(Debug)]
pub struct CrawlRequest {
    pub url: String,
    pub limit: u32,
    pub max_depth: u32,
    pub config: ConvertConfig,
    pub follow_relative: bool,
}

/// One converted page of a crawl, with its address and its distance from the seed.
#[derive(Debug)]
pub struct CrawlResult {
    pub url: String,
    pub markdown: String,
    pub depth: u32,
}

/// What a conversion gives: the Markdown, and the targets of the links in the
/// order in which the document holds them.
#[derive(Debug)]
pub struct HtmlConversionResult {
    pub markdown: String,
    pub links: Vec<String>,
}

} // verus!
