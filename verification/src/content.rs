//! Content search queries: the kinds of content a query can be restricted
//! to, the query itself, and a builder with presets for common searches;
//! and the changes a content index reports to its listeners.

use crate::ast::Language;
use vstd::prelude::*;

verus! {

/// Documentation formats.
#[derive(Clone, Copy, Debug, PartialEq, Eq, Structural)]
pub enum DocumentFormat {
    Markdown,
    RestructuredText,
    AsciiDoc,
    PlainText,
    Html,
}

/// Configuration file formats.
#[derive(Clone, Copy, Debug, PartialEq, Eq, Structural)]
pub enum ConfigFormat {
    Json,
    Yaml,
    Toml,
    Ini,
    Properties,
    Env,
    Xml,
}

/// Where a comment stands.
#[derive(Clone, Debug)]
pub enum CommentContext {
    /// A comment on a function
    Function { function_name: String },
    /// A comment on a class
    Class { class_name: String },
    /// A module-level comment
    Module,
    /// A comment at the end of a line
    Inline,
    /// A block comment
    Block,
    /// A documentation comment or docstring
    Documentation,
}

/// Kinds of content.
#[derive(Clone, Debug)]
pub enum ContentType {
    /// Source code
    Code { language: Language },
    /// Documentation
    Documentation { format: DocumentFormat },
    /// Configuration
    Configuration { format: ConfigFormat },
    /// A comment in source code
    Comment { language: Language, context: CommentContext },
    /// Plain text
    PlainText,
}

/// A content search query.
#[derive(Clone, Debug)]
pub struct SearchQuery {
    /// The text or pattern to search for
    pub query: String,
    /// Content types to search in (all when empty)
    pub content_types: Vec<ContentType>,
    /// File patterns to include
    pub file_patterns: Vec<String>,
    /// File patterns to exclude
    pub exclude_patterns: Vec<String>,
    /// Maximum number of results
    pub max_results: usize,
    /// Whether matching respects case
    pub case_sensitive: bool,
    /// Whether the query is a regular expression
    pub use_regex: bool,
    /// Whether matches carry surrounding lines
    pub include_context: bool,
    /// How many lines of context around a match
    pub context_lines: usize,
}

/// The value of the fields of a query that nothing has set.
pub open spec fn default_query_fields(q: SearchQuery) -> bool {
    &&& q.content_types@.len() == 0
    &&& default_query_options(q)
}

/// The value of the fields other than text and content types of a query
/// that nothing has set.
pub open spec fn default_query_options(q: SearchQuery) -> bool {
    &&& q.file_patterns@.len() == 0
    &&& q.exclude_patterns@.len() == 0
    &&& q.max_results == 100
    &&& !q.case_sensitive
    &&& !q.use_regex
    &&& q.include_context
    &&& q.context_lines == 2
}

impl Default for SearchQuery {
    /// An empty query over all content: at most a hundred results, matching
    /// without regard to case, with two lines of context.
    fn default() -> (r: Self)
        ensures
            r.query@.len() == 0,
            default_query_fields(r),
    {
        SearchQuery {
            query: String::new(),
            content_types: Vec::new(),
            file_patterns: Vec::new(),
            exclude_patterns: Vec::new(),
            max_results: 100,
            case_sensitive: false,
            use_regex: false,
            include_context: true,
            context_lines: 2,
        }
    }
}

/// Builder for creating search queries.
#[derive(Clone, Debug)]
pub struct SearchQueryBuilder {
    query: SearchQuery,
}

impl View for SearchQueryBuilder {
    type V = SearchQuery;

    /// The query being built.
    closed spec fn view(&self) -> SearchQuery {
        self.query
    }
}

/// Two comment kinds of one language.
pub open spec fn two_comment_kinds(
    t: Seq<ContentType>,
    l: Language,
    c0: CommentContext,
    c1: CommentContext,
) -> bool {
    &&& t.len() == 2
    &&& t[0] == ContentType::Comment { language: l, context: c0 }
    &&& t[1] == ContentType::Comment { language: l, context: c1 }
}

impl SearchQueryBuilder {
    /// A builder for a query with the given text and nothing else set.
    pub fn new(query: &str) -> (r: Self)
        ensures
            r@.query@ == query@,
            default_query_fields(r@),
    {
        let mut q = SearchQuery::default();
        q.query = query.to_string();
        SearchQueryBuilder { query: q }
    }

    /// Set content types to search in.
    pub fn content_types(self, types: Vec<ContentType>) -> (r: Self)
        ensures
            r@ == (SearchQuery { content_types: types, ..self@ }),
    {
        let mut s = self;
        s.query.content_types = types;
        s
    }

    /// Set file patterns to include.
    pub fn include_files(self, patterns: Vec<String>) -> (r: Self)
        ensures
            r@ == (SearchQuery { file_patterns: patterns, ..self@ }),
    {
        let mut s = self;
        s.query.file_patterns = patterns;
        s
    }

    /// Set file patterns to exclude.
    pub fn exclude_files(self, patterns: Vec<String>) -> (r: Self)
        ensures
            r@ == (SearchQuery { exclude_patterns: patterns, ..self@ }),
    {
        let mut s = self;
        s.query.exclude_patterns = patterns;
        s
    }

    /// Set maximum number of results.
    pub fn max_results(self, max: usize) -> (r: Self)
        ensures
            r@ == (SearchQuery { max_results: max, ..self@ }),
    {
        let mut s = self;
        s.query.max_results = max;
        s
    }

    /// Enable case sensitive search.
    pub fn case_sensitive(self) -> (r: Self)
        ensures
            r@ == (SearchQuery { case_sensitive: true, ..self@ }),
    {
        let mut s = self;
        s.query.case_sensitive = true;
        s
    }

    /// Enable regex pattern matching.
    pub fn use_regex(self) -> (r: Self)
        ensures
            r@ == (SearchQuery { use_regex: true, ..self@ }),
    {
        let mut s = self;
        s.query.use_regex = true;
        s
    }

    /// Include the given number of lines of context around matches.
    pub fn with_context(self, lines: usize) -> (r: Self)
        ensures
            r@ == (SearchQuery { include_context: true, context_lines: lines, ..self@ }),
    {
        let mut s = self;
        s.query.include_context = true;
        s.query.context_lines = lines;
        s
    }

    /// Disable context around matches.
    pub fn without_context(self) -> (r: Self)
        ensures
            r@ == (SearchQuery { include_context: false, ..self@ }),
    {
        let mut s = self;
        s.query.include_context = false;
        s
    }

    /// The query built.
    pub fn build(self) -> (r: SearchQuery)
        ensures
            r == self@,
    {
        self.query
    }

    /// A query over Markdown documentation only.
    pub fn markdown_docs(query: &str) -> (r: Self)
        ensures
            r@.query@ == query@,
            r@.content_types@ == seq![ContentType::Documentation { format: DocumentFormat::Markdown }],
            default_query_options(r@),
    {
        let types = vec![ContentType::Documentation { format: DocumentFormat::Markdown }];
        Self::new(query).content_types(types)
    }

    /// A query over the block and documentation comments of JavaScript and
    /// TypeScript, in that order.
    pub fn js_comments(query: &str) -> (r: Self)
        ensures
            r@.query@ == query@,
            r@.content_types@ == seq![
                ContentType::Comment { language: Language::JavaScript, context: CommentContext::Block },
                ContentType::Comment { language: Language::JavaScript, context: CommentContext::Documentation },
                ContentType::Comment { language: Language::TypeScript, context: CommentContext::Block },
                ContentType::Comment { language: Language::TypeScript, context: CommentContext::Documentation },
            ],
            default_query_options(r@),
    {
        let types = vec![
            ContentType::Comment { language: Language::JavaScript, context: CommentContext::Block },
            ContentType::Comment {
                language: Language::JavaScript,
                context: CommentContext::Documentation,
            },
            ContentType::Comment { language: Language::TypeScript, context: CommentContext::Block },
            ContentType::Comment {
                language: Language::TypeScript,
                context: CommentContext::Documentation,
            },
        ];
        Self::new(query).content_types(types)
    }

    /// A query over Python docstrings and inline comments.
    pub fn python_docs(query: &str) -> (r: Self)
        ensures
            r@.query@ == query@,
            two_comment_kinds(
                r@.content_types@,
                Language::Python,
                CommentContext::Documentation,
                CommentContext::Inline,
            ),
            default_query_options(r@),
    {
        let types = vec![
            ContentType::Comment { language: Language::Python, context: CommentContext::Documentation },
            ContentType::Comment { language: Language::Python, context: CommentContext::Inline },
        ];
        Self::new(query).content_types(types)
    }

    /// A query over JSON configuration files only.
    pub fn json_config(query: &str) -> (r: Self)
        ensures
            r@.query@ == query@,
            r@.content_types@ == seq![ContentType::Configuration { format: ConfigFormat::Json }],
            default_query_options(r@),
    {
        let types = vec![ContentType::Configuration { format: ConfigFormat::Json }];
        Self::new(query).content_types(types)
    }

    /// A query over YAML configuration files only.
    pub fn yaml_config(query: &str) -> (r: Self)
        ensures
            r@.query@ == query@,
            r@.content_types@ == seq![ContentType::Configuration { format: ConfigFormat::Yaml }],
            default_query_options(r@),
    {
        let types = vec![ContentType::Configuration { format: ConfigFormat::Yaml }];
        Self::new(query).content_types(types)
    }
}

/// How indexed content changed.
#[derive(Clone, Copy, Debug, PartialEq, Eq, Structural)]
pub enum ContentUpdateKind {
    Created,
    Modified,
    Deleted,
}

/// A change of the content indexed for a file: which file, how, and when
/// (milliseconds since the Unix epoch).
#[derive(Clone, Debug)]
pub struct ContentUpdate {
    pub file_path: String,
    pub update_kind: ContentUpdateKind,
    pub timestamp_ms: i64,
}

/// Receives the changes of a content index; implemented by the index's
/// users.
pub trait ContentUpdateListener {
    /// Called when content is updated.
    fn on_content_update(&self, update: &ContentUpdate);
}

} // verus!
