//! MCP resources: their descriptions, the catalog a repository offers, the
//! routing of resource URIs, and MIME types by file extension.

use crate::ast::NodeKind;
use crate::text::{chars_of, push_str, str_eq};
use vstd::prelude::*;

verus! {

/// The extension of a path as `std::path::Path::extension` gives it: the
/// part of the file name after its last dot, if the name has a dot that is
/// not its first character.
pub uninterp spec fn path_extension_of(p: Seq<char>) -> Option<Seq<char>>;

/// Calls `std::path::Path::extension` on a path and converts the result to
/// an owned string.  The contract names the result only.
#[verifier::external_body]
fn path_extension(p: &str) -> (r: Option<String>)
    ensures
        match path_extension_of(p@) {
            Some(e) => r matches Some(s) && s@ == e,
            None => r is None,
        },
{
    std::path::Path::new(p).extension().and_then(|e| e.to_str()).map(|e| e.to_string())
}

/// The MIME type for a file extension (plain text when unknown).
pub open spec fn mime_for(ext: Option<Seq<char>>) -> Seq<char> {
    match ext {
        Some(e) => if e == "js"@ {
            "application/javascript"@
        } else if e == "ts"@ {
            "application/typescript"@
        } else if e == "py"@ {
            "text/x-python"@
        } else if e == "java"@ {
            "text/x-java-source"@
        } else if e == "json"@ {
            "application/json"@
        } else if e == "md"@ {
            "text/markdown"@
        } else if e == "txt"@ {
            "text/plain"@
        } else if e == "html"@ {
            "text/html"@
        } else if e == "css"@ {
            "text/css"@
        } else if e == "xml"@ {
            "application/xml"@
        } else if e == "yaml"@ || e == "yml"@ {
            "application/yaml"@
        } else if e == "toml"@ {
            "application/toml"@
        } else {
            "text/plain"@
        },
        None => "text/plain"@,
    }
}

/// The MIME type for an extension, if any.
pub fn mime_for_extension(ext: Option<&str>) -> (r: String)
    ensures
        r@ == mime_for(
            match ext {
                Some(e) => Some(e@),
                None => None,
            },
        ),
{
    proof {
        reveal_strlit("js");
        reveal_strlit("ts");
        reveal_strlit("py");
        reveal_strlit("java");
        reveal_strlit("json");
        reveal_strlit("md");
        reveal_strlit("txt");
        reveal_strlit("html");
        reveal_strlit("css");
        reveal_strlit("xml");
        reveal_strlit("yaml");
        reveal_strlit("yml");
        reveal_strlit("toml");
    }
    let m = match ext {
        Some(e) => if str_eq(e, "js") {
            "application/javascript"
        } else if str_eq(e, "ts") {
            "application/typescript"
        } else if str_eq(e, "py") {
            "text/x-python"
        } else if str_eq(e, "java") {
            "text/x-java-source"
        } else if str_eq(e, "json") {
            "application/json"
        } else if str_eq(e, "md") {
            "text/markdown"
        } else if str_eq(e, "txt") {
            "text/plain"
        } else if str_eq(e, "html") {
            "text/html"
        } else if str_eq(e, "css") {
            "text/css"
        } else if str_eq(e, "xml") {
            "application/xml"
        } else if str_eq(e, "yaml") || str_eq(e, "yml") {
            "application/yaml"
        } else if str_eq(e, "toml") {
            "application/toml"
        } else {
            "text/plain"
        },
        None => "text/plain",
    };
    m.to_string()
}

/// Detects the MIME type of a file from its extension.
pub fn detect_mime_type(path: &str) -> (r: String)
    ensures
        r@ == mime_for(path_extension_of(path@)),
{
    let e = path_extension(path);
    match &e {
        Some(s) => mime_for_extension(Some(s.as_str())),
        None => mime_for_extension(None),
    }
}

/// Resource capabilities as defined by MCP.
#[derive(Clone, Debug)]
pub struct ResourceCapabilities {
    /// Whether the client can subscribe to changes of individual resources
    pub subscribe: Option<bool>,
    /// Whether the server emits notifications when the list changes
    pub list_changed: Option<bool>,
}

/// An MCP resource.
#[derive(Clone, Debug)]
pub struct Resource {
    /// Unique identifier for the resource (URI)
    pub uri: String,
    /// Optional human-readable name
    pub name: Option<String>,
    /// Optional human-readable description
    pub description: Option<String>,
    /// MIME type of the resource
    pub mime_type: Option<String>,
}

/// Resource content.
#[derive(Clone, Debug)]
pub struct ResourceContent {
    /// The resource URI
    pub uri: String,
    /// MIME type of the content
    pub mime_type: Option<String>,
    /// Text content
    pub text: Option<String>,
    /// Binary content (base64 encoded)
    pub blob: Option<String>,
}

/// Parameters for listing resources.
#[derive(Clone, Debug)]
pub struct ListResourcesParams {
    /// Optional cursor for pagination
    pub cursor: Option<String>,
}

/// Result of listing resources.
#[derive(Clone, Debug)]
pub struct ListResourcesResult {
    /// Available resources
    pub resources: Vec<Resource>,
    /// Optional cursor for pagination
    pub next_cursor: Option<String>,
}

/// Parameters for reading a resource.
#[derive(Clone, Debug)]
pub struct ReadResourceParams {
    /// URI of the resource to read
    pub uri: String,
}

/// Result of reading a resource.
#[derive(Clone, Debug)]
pub struct ReadResourceResult {
    /// The content items
    pub contents: Vec<ResourceContent>,
}

/// The fixed resources of a repository, by URI, in the order they are
/// listed.
pub open spec fn fixed_resource_uris() -> Seq<Seq<char>> {
    seq![
        "gcore://repository/"@,
        "gcore://repository/stats"@,
        "gcore://repository/config"@,
        "gcore://repository/tree"@,
        "gcore://graph/repository"@,
        "gcore://symbols/functions"@,
        "gcore://symbols/classes"@,
        "gcore://symbols/variables"@,
        "gcore://symbols/modules"@,
    ]
}

/// Prefix of the URI of a file of the repository.
pub open spec fn file_uri_prefix() -> Seq<char> {
    "gcore://repository/file/"@
}

fn resource(uri: &str, name: &str, description: &str, mime: &str) -> (r: Resource)
    ensures
        r.uri@ == uri@,
        r.name matches Some(n) && n@ == name@,
        r.description matches Some(d) && d@ == description@,
        r.mime_type matches Some(m) && m@ == mime@,
{
    Resource {
        uri: uri.to_string(),
        name: Some(name.to_string()),
        description: Some(description.to_string()),
        mime_type: Some(mime.to_string()),
    }
}

/// The names, descriptions and MIME types of the fixed resources, in the
/// order of `fixed_resource_uris`.
pub open spec fn fixed_resource_texts() -> Seq<(Seq<char>, Seq<char>, Seq<char>)> {
    seq![
        ("Repository Root"@, "Root directory of the indexed repository"@, "application/vnd.gcore.directory"@),
        ("Repository Statistics"@, "Statistical information about the repository"@, "application/json"@),
        ("Repository Configuration"@, "Configuration and metadata for the repository"@, "application/json"@),
        ("File Tree"@, "Complete file tree structure of the repository"@, "application/json"@),
        ("Repository Graph"@, "Graph structure and statistics for the repository"@, "application/json"@),
        ("Functions"@, "All function symbols in the repository"@, "application/json"@),
        ("Classes"@, "All class symbols in the repository"@, "application/json"@),
        ("Variables"@, "All variable symbols in the repository"@, "application/json"@),
        ("Modules"@, "All module symbols in the repository"@, "application/json"@),
    ]
}

/// A resource is the fixed resource number `i`.
pub open spec fn is_fixed_resource(i: int, r: Resource) -> bool {
    &&& r.uri@ == fixed_resource_uris()[i]
    &&& r.name matches Some(n) && n@ == fixed_resource_texts()[i].0
    &&& r.description matches Some(d) && d@ == fixed_resource_texts()[i].1
    &&& r.mime_type matches Some(m) && m@ == fixed_resource_texts()[i].2
}

/// `uri` is the resource URI of discovered file `f`, which lies inside the
/// repository.
pub open spec fn listed_file(f: DiscoveredFile, uri: Seq<char>) -> bool {
    f.relative_path matches Some(rp) && uri == file_uri_prefix() + rp@
}

/// The resource of a discovered file inside the repository: its URI, its
/// file name (`unknown` without one), `Source file: ` and its path, and its
/// MIME type.
pub open spec fn file_resource(f: DiscoveredFile, r: Resource) -> bool {
    &&& f.relative_path matches Some(rp) && r.uri@ == file_uri_prefix() + rp@ && (
    r.description matches Some(d) && d@ == "Source file: "@ + rp@)
    &&& r.name matches Some(n) && n@ == match f.file_name {
        Some(x) => x@,
        None => "unknown"@,
    }
    &&& r.mime_type matches Some(m) && m@ == f.mime_type@
}

/// The files of a list that lie inside the repository, in order.
pub open spec fn inside_files(files: Seq<DiscoveredFile>) -> Seq<DiscoveredFile>
    decreases files.len(),
{
    if files.len() == 0 {
        Seq::empty()
    } else {
        let rest = inside_files(files.drop_last());
        if files.last().relative_path is Some {
            rest.push(files.last())
        } else {
            rest
        }
    }
}

/// The files that are listed: those inside the repository among the first
/// hundred discovered, in discovery order.
pub open spec fn listed_files(files: Seq<DiscoveredFile>) -> Seq<DiscoveredFile> {
    inside_files(
        files.subrange(
            0,
            if files.len() < MAX_LISTED_FILES {
                files.len() as int
            } else {
                MAX_LISTED_FILES as int
            },
        ),
    )
}

/// At most this many discovered files are listed.
pub const MAX_LISTED_FILES: usize = 100;

/// A discovered file of the repository: its path relative to the
/// repository (`None` when it lies outside), and its file name.
#[derive(Clone, Debug)]
pub struct DiscoveredFile {
    pub relative_path: Option<String>,
    pub file_name: Option<String>,
    /// Its MIME type
    pub mime_type: String,
}

proof fn lemma_inside_files_len(files: Seq<DiscoveredFile>)
    ensures
        inside_files(files).len() <= files.len(),
    decreases files.len(),
{
    if files.len() > 0 {
        lemma_inside_files_len(files.drop_last());
    }
}

/// Lists the resources of a repository: nothing without a repository;
/// otherwise the nine fixed resources, then one resource per file among the
/// first hundred discovered that lies inside the repository, in discovery
/// order.
pub fn list_resources(has_repository: bool, files: &Vec<DiscoveredFile>) -> (r:
    ListResourcesResult)
    ensures
        r.next_cursor is None,
        !has_repository ==> r.resources@.len() == 0,
        has_repository ==> {
            &&& r.resources@.len() == 9 + listed_files(files@).len()
            &&& forall|i: int| 0 <= i < 9 ==> is_fixed_resource(i, #[trigger] r.resources@[i])
            &&& forall|k: int|
                0 <= k < listed_files(files@).len() ==> file_resource(
                    listed_files(files@)[k],
                    #[trigger] r.resources@[9 + k],
                )
        },
{
    let mut resources: Vec<Resource> = Vec::new();
    if has_repository {
        proof {
            reveal_strlit("gcore://repository/");
            reveal_strlit("gcore://repository/stats");
            reveal_strlit("gcore://repository/config");
            reveal_strlit("gcore://repository/tree");
            reveal_strlit("gcore://graph/repository");
            reveal_strlit("gcore://symbols/functions");
            reveal_strlit("gcore://symbols/classes");
            reveal_strlit("gcore://symbols/variables");
            reveal_strlit("gcore://symbols/modules");
            reveal_strlit("gcore://repository/file/");
        }
        resources.push(
            resource(
                "gcore://repository/",
                "Repository Root",
                "Root directory of the indexed repository",
                "application/vnd.gcore.directory",
            ),
        );
        resources.push(
            resource(
                "gcore://repository/stats",
                "Repository Statistics",
                "Statistical information about the repository",
                "application/json",
            ),
        );
        resources.push(
            resource(
                "gcore://repository/config",
                "Repository Configuration",
                "Configuration and metadata for the repository",
                "application/json",
            ),
        );
        resources.push(
            resource(
                "gcore://repository/tree",
                "File Tree",
                "Complete file tree structure of the repository",
                "application/json",
            ),
        );
        resources.push(
            resource(
                "gcore://graph/repository",
                "Repository Graph",
                "Graph structure and statistics for the repository",
                "application/json",
            ),
        );
        resources.push(
            resource(
                "gcore://symbols/functions",
                "Functions",
                "All function symbols in the repository",
                "application/json",
            ),
        );
        resources.push(
            resource(
                "gcore://symbols/classes",
                "Classes",
                "All class symbols in the repository",
                "application/json",
            ),
        );
        resources.push(
            resource(
                "gcore://symbols/variables",
                "Variables",
                "All variable symbols in the repository",
                "application/json",
            ),
        );
        resources.push(
            resource(
                "gcore://symbols/modules",
                "Modules",
                "All module symbols in the repository",
                "application/json",
            ),
        );
        assert forall|i: int| 0 <= i < 9 implies is_fixed_resource(i, #[trigger] resources@[i]) by {}
        let ghost fs = files@;
        let mut j: usize = 0;
        while j < files.len() && j < MAX_LISTED_FILES
            invariant
                fs == files@,
                j <= files@.len(),
                j <= MAX_LISTED_FILES,
                resources@.len() == 9 + inside_files(fs.subrange(0, j as int)).len(),
                forall|i: int| 0 <= i < 9 ==> is_fixed_resource(i, #[trigger] resources@[i]),
                forall|k: int|
                    0 <= k < inside_files(fs.subrange(0, j as int)).len() ==> file_resource(
                        inside_files(fs.subrange(0, j as int))[k],
                        #[trigger] resources@[9 + k],
                    ),
            decreases files@.len() - j,
        {
            let ghost before = inside_files(fs.subrange(0, j as int));
            assert(fs.subrange(0, j + 1).drop_last() =~= fs.subrange(0, j as int));
            assert(fs.subrange(0, j + 1).last() == fs[j as int]);
            let f = &files[j];
            let ghost old_res = resources@;
            match &f.relative_path {
                Some(rel) => {
                    let mut uri = String::new();
                    push_str(&mut uri, "gcore://repository/file/");
                    push_str(&mut uri, rel.as_str());
                    let mut desc = String::new();
                    push_str(&mut desc, "Source file: ");
                    push_str(&mut desc, rel.as_str());
                    let name = match &f.file_name {
                        Some(n) => n.clone(),
                        None => "unknown".to_string(),
                    };
                    resources.push(
                        Resource {
                            uri,
                            name: Some(name),
                            description: Some(desc),
                            mime_type: Some(f.mime_type.clone()),
                        },
                    );
                    proof {
                        reveal_strlit("Source file: ");
                        reveal_strlit("unknown");
                        let after = inside_files(fs.subrange(0, j + 1));
                        assert(after == before.push(fs[j as int]));
                        assert(file_resource(fs[j as int], resources@[9 + before.len() as int]));
                        assert forall|k: int| 0 <= k < after.len() implies file_resource(
                            after[k],
                            #[trigger] resources@[9 + k],
                        ) by {
                            if k < before.len() {
                                assert(resources@[9 + k] == old_res[9 + k]);
                                assert(after[k] == before[k]);
                            }
                        }
                        assert forall|i: int| 0 <= i < 9 implies is_fixed_resource(
                            i,
                            #[trigger] resources@[i],
                        ) by {
                            assert(resources@[i] == old_res[i]);
                        }
                    }
                },
                None => {
                    assert(inside_files(fs.subrange(0, j + 1)) == before);
                },
            }
            j = j + 1;
        }
        proof {
            if files@.len() < MAX_LISTED_FILES {
                assert(j == files@.len());
            } else {
                assert(j == MAX_LISTED_FILES);
            }
        }
    }
    ListResourcesResult { resources, next_cursor: None }
}

/// What a resource URI asks for.
#[derive(Clone, Debug, PartialEq, Eq)]
pub enum ResourceRoute {
    /// The repository root
    RepositoryRoot,
    /// Repository statistics
    RepositoryStats,
    /// Repository configuration
    RepositoryConfig,
    /// The file tree
    FileTree,
    /// The graph of the repository
    RepositoryGraph,
    /// All symbols of one kind
    Symbols(NodeKind),
    /// One file, by its path relative to the repository
    File(String),
}

/// Whether `p` is a prefix of `s`.
pub open spec fn has_prefix(s: Seq<char>, p: Seq<char>) -> bool {
    p.len() <= s.len() && s.subrange(0, p.len() as int) == p
}

pub(crate) fn starts_with(s: &str, p: &str) -> (r: bool)
    ensures
        r == has_prefix(s@, p@),
{
    let cs = chars_of(s);
    let cp = chars_of(p);
    if cp.len() > cs.len() {
        return false;
    }
    let mut i: usize = 0;
    while i < cp.len()
        invariant
            cp@ == p@,
            cs@ == s@,
            cp@.len() <= cs@.len(),
            i <= cp@.len(),
            forall|k: int| 0 <= k < i ==> cs@[k] == cp@[k],
        decreases cp@.len() - i,
    {
        if cs[i] != cp[i] {
            assert(s@.subrange(0, p@.len() as int)[i as int] != p@[i as int]);
            return false;
        }
        i = i + 1;
    }
    assert(s@.subrange(0, p@.len() as int) =~= p@);
    true
}

/// Whether a URI is under one of the supported prefixes.
pub open spec fn supported_uri(uri: Seq<char>) -> bool {
    has_prefix(uri, "gcore://repository/"@) || has_prefix(uri, "gcore://graph/"@) || has_prefix(
        uri,
        "gcore://symbols/"@,
    )
}

/// The route of a URI under the supported prefixes, or the message of the
/// refusal.
pub open spec fn route_of(uri: Seq<char>) -> Result<ResourceRoute, Seq<char>> {
    if !supported_uri(uri) {
        Err("Unsupported resource URI: "@ + uri)
    } else if uri == "gcore://repository/"@ {
        Ok(ResourceRoute::RepositoryRoot)
    } else if uri == "gcore://repository/stats"@ {
        Ok(ResourceRoute::RepositoryStats)
    } else if uri == "gcore://repository/config"@ {
        Ok(ResourceRoute::RepositoryConfig)
    } else if uri == "gcore://repository/tree"@ {
        Ok(ResourceRoute::FileTree)
    } else if uri == "gcore://graph/repository"@ {
        Ok(ResourceRoute::RepositoryGraph)
    } else if uri == "gcore://symbols/functions"@ {
        Ok(ResourceRoute::Symbols(NodeKind::Function))
    } else if uri == "gcore://symbols/classes"@ {
        Ok(ResourceRoute::Symbols(NodeKind::Class))
    } else if uri == "gcore://symbols/variables"@ {
        Ok(ResourceRoute::Symbols(NodeKind::Variable))
    } else if uri == "gcore://symbols/modules"@ {
        Ok(ResourceRoute::Symbols(NodeKind::Module))
    } else if has_prefix(uri, file_uri_prefix()) {
        Ok(ResourceRoute::File(arbitrary()))
    } else {
        Err("Unknown resource URI: "@ + uri)
    }
}

/// Routes a resource URI: the fixed resources by exact URI, files by the
/// file prefix; a URI outside the three supported prefixes is unsupported,
/// one inside them but not known is unknown.
pub fn route_resource(uri: &str) -> (r: Result<ResourceRoute, String>)
    ensures
        match route_of(uri@) {
            Ok(ResourceRoute::File(_)) => r matches Ok(ResourceRoute::File(rel))
                && uri@ == file_uri_prefix() + rel@,
            Ok(route) => r matches Ok(x) && x == route,
            Err(m) => r matches Err(e) && e@ == m,
        },
{
    proof {
        reveal_strlit("gcore://repository/");
        reveal_strlit("gcore://graph/");
        reveal_strlit("gcore://symbols/");
        reveal_strlit("gcore://repository/file/");
        reveal_strlit("Unsupported resource URI: ");
        reveal_strlit("Unknown resource URI: ");
    }
    if !(starts_with(uri, "gcore://repository/") || starts_with(uri, "gcore://graph/")
        || starts_with(uri, "gcore://symbols/")) {
        let mut m = String::new();
        push_str(&mut m, "Unsupported resource URI: ");
        push_str(&mut m, uri);
        return Err(m);
    }
    if str_eq(uri, "gcore://repository/") {
        Ok(ResourceRoute::RepositoryRoot)
    } else if str_eq(uri, "gcore://repository/stats") {
        Ok(ResourceRoute::RepositoryStats)
    } else if str_eq(uri, "gcore://repository/config") {
        Ok(ResourceRoute::RepositoryConfig)
    } else if str_eq(uri, "gcore://repository/tree") {
        Ok(ResourceRoute::FileTree)
    } else if str_eq(uri, "gcore://graph/repository") {
        Ok(ResourceRoute::RepositoryGraph)
    } else if str_eq(uri, "gcore://symbols/functions") {
        Ok(ResourceRoute::Symbols(NodeKind::Function))
    } else if str_eq(uri, "gcore://symbols/classes") {
        Ok(ResourceRoute::Symbols(NodeKind::Class))
    } else if str_eq(uri, "gcore://symbols/variables") {
        Ok(ResourceRoute::Symbols(NodeKind::Variable))
    } else if str_eq(uri, "gcore://symbols/modules") {
        Ok(ResourceRoute::Symbols(NodeKind::Module))
    } else if starts_with(uri, "gcore://repository/file/") {
        let cs = chars_of(uri);
        let p: usize = 24;
        assert(file_uri_prefix().len() == 24);
        let rel = crate::text::string_from_chars(&cs.as_slice()[p..cs.len()]);
        assert(uri@ =~= file_uri_prefix() + rel@);
        Ok(ResourceRoute::File(rel))
    } else {
        let mut m = String::new();
        push_str(&mut m, "Unknown resource URI: ");
        push_str(&mut m, uri);
        Err(m)
    }
}

/// Routes a read of a resource: a URI outside the supported prefixes is
/// refused first, then any read before a repository is initialized, and
/// only then is the URI routed.
pub fn read_route(uri: &str, has_repository: bool) -> (r: Result<ResourceRoute, String>)
    ensures
        !supported_uri(uri@) ==> (r matches Err(e) && e@ == "Unsupported resource URI: "@
            + uri@),
        supported_uri(uri@) && !has_repository ==> (r matches Err(e) && e@
            == "No repository initialized"@),
        supported_uri(uri@) && has_repository ==> match route_of(uri@) {
            Ok(ResourceRoute::File(_)) => r matches Ok(ResourceRoute::File(rel))
                && uri@ == file_uri_prefix() + rel@,
            Ok(route) => r matches Ok(x) && x == route,
            Err(m) => r matches Err(e) && e@ == m,
        },
{
    proof {
        reveal_strlit("gcore://repository/");
        reveal_strlit("gcore://graph/");
        reveal_strlit("gcore://symbols/");
        reveal_strlit("Unsupported resource URI: ");
    }
    if !(starts_with(uri, "gcore://repository/") || starts_with(uri, "gcore://graph/")
        || starts_with(uri, "gcore://symbols/")) {
        let mut m = String::new();
        push_str(&mut m, "Unsupported resource URI: ");
        push_str(&mut m, uri);
        return Err(m);
    }
    if !has_repository {
        return Err("No repository initialized".to_string());
    }
    route_resource(uri)
}

} // verus!
