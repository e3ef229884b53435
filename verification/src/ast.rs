//! Universal AST types: node identifiers, node and edge kinds, source spans,
//! languages, nodes and edges.
//!
//! A node identifier is the first sixteen bytes of the BLAKE3 digest of the
//! repository id, the file path, the span's byte offsets and the node kind's
//! name; it is shown as lowercase hex.

use crate::text::{
    contains_seq, decimal, lowercase_of, push_char, push_str, str_eq, to_lowercase,
    usize_to_string,
};
use vstd::prelude::*;
use vstd::string::*;
use vstd::utf8::encode_utf8;

verus! {

/// `serde_json::Value`, carried through opaquely (node metadata, message ids).
#[verifier::external_type_specification]
#[verifier::external_body]
pub struct ExJsonValue(serde_json::Value);

/// `Clone` of `serde_json::Value`: nothing is claimed of the copy, since the
/// library only carries the value.
pub assume_specification[ <serde_json::Value as Clone>::clone ](v: &serde_json::Value) -> serde_json::Value;

/// Returns `serde_json::Value::Null`.  Nothing is claimed of the value: the
/// library only stores it.
#[verifier::external_body]
pub fn json_null() -> serde_json::Value {
    serde_json::Value::Null
}

/// The BLAKE3 digest (32 bytes) of a byte sequence.
pub uninterp spec fn blake3_digest_of(data: Seq<u8>) -> Seq<u8>;

/// Hashes `data` with `blake3::Hasher` and returns the 32 bytes of the
/// digest.  The contract claims that the result is a function of the input
/// alone, named `blake3_digest_of`; the digest itself is not written out.
#[verifier::external_body]
fn blake3_digest(data: &[u8]) -> (r: [u8; 32])
    ensures
        r@ == blake3_digest_of(data@),
{
    let mut hasher = blake3::Hasher::new();
    hasher.update(data);
    *hasher.finalize().as_bytes()
}

/// The lowercase hex digit of a value below sixteen.
pub open spec fn hex_digit(v: nat) -> char {
    if v < 10 {
        ((48 + v) as u8) as char
    } else {
        ((87 + v) as u8) as char
    }
}

/// Lowercase hex encoding: two digits per byte, high nibble first.
pub open spec fn hex_lower(b: Seq<u8>) -> Seq<char>
    decreases b.len(),
{
    if b.len() == 0 {
        Seq::empty()
    } else {
        seq![hex_digit((b[0] / 16) as nat), hex_digit((b[0] % 16) as nat)] + hex_lower(
            b.drop_first(),
        )
    }
}

/// Calls `hex::encode`, which maps each byte to two lowercase hex digits.
#[verifier::external_body]
fn hex_encode(data: &[u8]) -> (r: String)
    ensures
        r@ == hex_lower(data@),
{
    hex::encode(data)
}

/// Errors of hex decoding (the variants of `hex::FromHexError`).
#[derive(Clone, Copy, Debug, PartialEq, Eq, Structural)]
pub enum HexError {
    /// A byte that is not a hex digit, at the given byte index.
    InvalidHexCharacter { c: char, index: usize },
    /// An odd number of bytes.
    OddLength,
    /// A decoded length other than the expected one.
    InvalidStringLength,
}

/// The value of a hex digit byte (either case).
pub open spec fn hex_val(c: u8) -> Option<nat> {
    if 48 <= c <= 57 {
        Some((c - 48) as nat)
    } else if 65 <= c <= 70 {
        Some((c - 55) as nat)
    } else if 97 <= c <= 102 {
        Some((c - 87) as nat)
    } else {
        None
    }
}

/// The first index at or after `i` that holds no hex digit.
pub open spec fn first_non_hex(b: Seq<u8>, i: int) -> Option<int>
    decreases b.len() - i,
{
    if i < 0 || i >= b.len() {
        None
    } else if hex_val(b[i]) is None {
        Some(i)
    } else {
        first_non_hex(b, i + 1)
    }
}

/// What `hex::decode` gives for a byte sequence.
#[verifier::opaque]
pub open spec fn hex_decode_spec(b: Seq<u8>) -> Result<Seq<u8>, HexError> {
    if b.len() % 2 != 0 {
        Err(HexError::OddLength)
    } else {
        match first_non_hex(b, 0) {
            Some(i) => Err(HexError::InvalidHexCharacter { c: b[i] as char, index: i as usize }),
            None => Ok(
                Seq::new(
                    (b.len() / 2) as nat,
                    |k: int| (hex_val(b[2 * k])->0 * 16 + hex_val(b[2 * k + 1])->0) as u8,
                ),
            ),
        }
    }
}

/// Calls `hex::decode`: an odd number of bytes is `OddLength`, otherwise the
/// first byte that is no hex digit is reported with its index, otherwise each
/// pair of digits gives one byte.  The error variants are carried over one
/// for one.
#[verifier::external_body]
fn hex_decode(data: &[u8]) -> (r: Result<Vec<u8>, HexError>)
    ensures
        match r {
            Ok(v) => hex_decode_spec(data@) == Ok::<Seq<u8>, HexError>(v@),
            Err(e) => hex_decode_spec(data@) == Err::<Seq<u8>, HexError>(e),
        },
{
    match hex::decode(data) {
        Ok(v) => Ok(v),
        Err(hex::FromHexError::InvalidHexCharacter { c, index }) => Err(
            HexError::InvalidHexCharacter { c, index },
        ),
        Err(hex::FromHexError::OddLength) => Err(HexError::OddLength),
        Err(hex::FromHexError::InvalidStringLength) => Err(HexError::InvalidStringLength),
    }
}

/// Little-endian bytes of `x`, `n` of them.
pub open spec fn le_bytes(x: nat, n: nat) -> Seq<u8>
    decreases n,
{
    if n == 0 {
        Seq::empty()
    } else {
        seq![(x % 256) as u8] + le_bytes(x / 256, (n - 1) as nat)
    }
}

/// The number of bytes of a `usize`.
pub open spec fn usize_width() -> nat {
    (usize::BITS / 8) as nat
}

/// The little-endian bytes of a `usize`, as `usize::to_le_bytes` gives them.
pub fn usize_le_bytes(x: usize) -> (r: Vec<u8>)
    ensures
        r@ == le_bytes(x as nat, usize_width()),
{
    let width: u32 = usize::BITS / 8;
    let mut r: Vec<u8> = Vec::new();
    let mut v: usize = x;
    let mut i: u32 = 0;
    while i < width
        invariant
            width == usize_width(),
            i <= width,
            r@ + le_bytes(v as nat, (width - i) as nat) == le_bytes(x as nat, width as nat),
        decreases width - i,
    {
        let b: u8 = (v % 256) as u8;
        proof {
            assert(le_bytes(v as nat, (width - i) as nat) == seq![b] + le_bytes(
                (v / 256) as nat,
                (width - i - 1) as nat,
            ));
            assert(r@.push(b) + le_bytes((v / 256) as nat, (width - i - 1) as nat) =~= r@ + (
            seq![b] + le_bytes((v / 256) as nat, (width - i - 1) as nat)));
        }
        r.push(b);
        v = v / 256;
        i = i + 1;
    }
    assert(le_bytes(v as nat, 0) =~= Seq::<u8>::empty());
    assert(r@ + Seq::<u8>::empty() =~= r@);
    r
}

/// Appends the bytes of a slice to a vector.
fn append_bytes(v: &mut Vec<u8>, b: &[u8])
    ensures
        final(v)@ == old(v)@ + b@,
{
    let mut i: usize = 0;
    while i < b.len()
        invariant
            i <= b@.len(),
            v@ == old(v)@ + b@.subrange(0, i as int),
        decreases b@.len() - i,
    {
        v.push(b[i]);
        i = i + 1;
    }
    assert(b@.subrange(0, b@.len() as int) =~= b@);
}

/// Unique identifier for AST nodes.
#[derive(Clone, Copy, Debug, Eq, Hash)]
pub struct NodeId(pub [u8; 16]);

impl PartialEq for NodeId {
    fn eq(&self, other: &Self) -> (r: bool) {
        let mut i: usize = 0;
        while i < 16
            invariant
                i <= 16,
                forall|j: int| 0 <= j < i ==> self.0[j] == other.0[j],
            decreases 16 - i,
        {
            if self.0[i] != other.0[i] {
                return false;
            }
            i = i + 1;
        }
        proof {
            broadcast use vstd::array::axiom_array_ext_equal;

            assert(self.0 =~= other.0);
        }
        true
    }
}

impl vstd::std_specs::cmp::PartialEqSpecImpl for NodeId {
    open spec fn obeys_eq_spec() -> bool {
        true
    }

    open spec fn eq_spec(&self, other: &NodeId) -> bool {
        *self == *other
    }
}

/// The bytes that a node identifier hashes: repository id, file path, the
/// span's start and end byte offsets (little-endian), and the kind's name.
pub open spec fn node_id_input(repo: Seq<char>, file: Seq<char>, span: Span, kind: NodeKind) -> Seq<
    u8,
> {
    encode_utf8(repo) + encode_utf8(file) + le_bytes(span.start_byte as nat, usize_width())
        + le_bytes(span.end_byte as nat, usize_width()) + encode_utf8(kind.name())
}

/// The identifier of a node with these components: the first sixteen
/// bytes of the BLAKE3 digest of its input bytes.
pub open spec fn node_id_of(repo: Seq<char>, file: Seq<char>, span: Span, kind: NodeKind) -> Seq<u8> {
    blake3_digest_of(node_id_input(repo, file, span, kind)).subrange(0, 16)
}

/// The first eight hex digits of an identifier, as it is displayed.
pub open spec fn short_hex(id: NodeId) -> Seq<char> {
    hex_lower(id.0@).subrange(0, 8)
}

pub proof fn lemma_hex_lower_len(b: Seq<u8>)
    ensures
        hex_lower(b).len() == 2 * b.len(),
    decreases b.len(),
{
    if b.len() > 0 {
        lemma_hex_lower_len(b.drop_first());
    }
}

impl NodeId {
    /// Creates the identifier of a node from its components.
    pub fn new(repo_id: &str, file_path: &str, span: &Span, kind: &NodeKind) -> (r: Self)
        ensures
            r.0@ == node_id_of(repo_id@, file_path@, *span, *kind),
    {
        let mut data: Vec<u8> = Vec::new();
        append_bytes(&mut data, repo_id.as_bytes());
        append_bytes(&mut data, file_path.as_bytes());
        let start = usize_le_bytes(span.start_byte);
        append_bytes(&mut data, start.as_slice());
        let end = usize_le_bytes(span.end_byte);
        append_bytes(&mut data, end.as_slice());
        append_bytes(&mut data, kind.name_str().as_bytes());
        let d = blake3_digest(data.as_slice());
        let id: [u8; 16] = [
            d[0],
            d[1],
            d[2],
            d[3],
            d[4],
            d[5],
            d[6],
            d[7],
            d[8],
            d[9],
            d[10],
            d[11],
            d[12],
            d[13],
            d[14],
            d[15],
        ];
        assert(id@ =~= d@.subrange(0, 16));
        NodeId(id)
    }

    /// The identifier as a lowercase hex string (32 digits).
    pub fn to_hex(&self) -> (r: String)
        ensures
            r@ == hex_lower(self.0@),
            r@.len() == 32,
    {
        proof {
            lemma_hex_lower_len(self.0@);
        }
        hex_encode(&self.0)
    }

    /// Parses an identifier from a hex string of sixteen bytes.
    pub fn from_hex(hex_str: &str) -> (r: Result<Self, HexError>)
        ensures
            match hex_decode_spec(encode_utf8(hex_str@)) {
                Err(e) => r == Err::<NodeId, HexError>(e),
                Ok(b) => if b.len() == 16 {
                    r is Ok && r->Ok_0.0@ == b
                } else {
                    r == Err::<NodeId, HexError>(HexError::InvalidStringLength)
                },
            },
    {
        match hex_decode(hex_str.as_bytes()) {
            Ok(b) => Self::from_bytes(&b),
            Err(e) => Err(e),
        }
    }

    /// An identifier from exactly sixteen bytes.
    fn from_bytes(bytes: &Vec<u8>) -> (r: Result<Self, HexError>)
        ensures
            bytes@.len() == 16 ==> r is Ok && r->Ok_0.0@ == bytes@,
            bytes@.len() != 16 ==> r == Err::<NodeId, HexError>(HexError::InvalidStringLength),
    {
        if bytes.len() != 16 {
            return Err(HexError::InvalidStringLength);
        }
        let id: [u8; 16] = [
            bytes[0],
            bytes[1],
            bytes[2],
            bytes[3],
            bytes[4],
            bytes[5],
            bytes[6],
            bytes[7],
            bytes[8],
            bytes[9],
            bytes[10],
            bytes[11],
            bytes[12],
            bytes[13],
            bytes[14],
            bytes[15],
        ];
        assert(id@ =~= bytes@);
        Ok(NodeId(id))
    }

    /// The first eight hex digits, as the identifier is displayed.
    pub fn to_string(&self) -> (r: String)
        ensures
            r@ == short_hex(*self),
    {
        let h = self.to_hex();
        h.as_str().substring_char(0, 8).to_owned()
    }
}

/// Types of nodes in the Universal AST.
#[derive(Clone, Copy, Debug, PartialEq, Eq, Hash, Structural)]
pub enum NodeKind {
    Module,
    Class,
    Function,
    Method,
    Parameter,
    Variable,
    Call,
    Import,
    Literal,
    Route,
    SqlQuery,
    Event,
    Unknown,
}

impl NodeKind {
    /// The kind's name, as it is displayed and hashed.
    pub open spec fn name(self) -> Seq<char> {
        match self {
            NodeKind::Module => "Module"@,
            NodeKind::Class => "Class"@,
            NodeKind::Function => "Function"@,
            NodeKind::Method => "Method"@,
            NodeKind::Parameter => "Parameter"@,
            NodeKind::Variable => "Variable"@,
            NodeKind::Call => "Call"@,
            NodeKind::Import => "Import"@,
            NodeKind::Literal => "Literal"@,
            NodeKind::Route => "Route"@,
            NodeKind::SqlQuery => "SqlQuery"@,
            NodeKind::Event => "Event"@,
            NodeKind::Unknown => "Unknown"@,
        }
    }

    /// The kind's name.
    pub fn name_str(&self) -> (r: &'static str)
        ensures
            r@ == self.name(),
    {
        match self {
            NodeKind::Module => "Module",
            NodeKind::Class => "Class",
            NodeKind::Function => "Function",
            NodeKind::Method => "Method",
            NodeKind::Parameter => "Parameter",
            NodeKind::Variable => "Variable",
            NodeKind::Call => "Call",
            NodeKind::Import => "Import",
            NodeKind::Literal => "Literal",
            NodeKind::Route => "Route",
            NodeKind::SqlQuery => "SqlQuery",
            NodeKind::Event => "Event",
            NodeKind::Unknown => "Unknown",
        }
    }

    /// The kind's name as a string.
    pub fn to_string(&self) -> (r: String)
        ensures
            r@ == self.name(),
    {
        self.name_str().to_owned()
    }
}

/// Types of edges between nodes.
#[derive(Clone, Copy, Debug, PartialEq, Eq, Hash, Structural)]
pub enum EdgeKind {
    Calls,
    Reads,
    Writes,
    Imports,
    Emits,
    RoutesTo,
    Raises,
    Extends,
    Implements,
}

impl EdgeKind {
    /// The kind as it is displayed.
    pub open spec fn display(self) -> Seq<char> {
        match self {
            EdgeKind::Calls => "CALLS"@,
            EdgeKind::Reads => "READS"@,
            EdgeKind::Writes => "WRITES"@,
            EdgeKind::Imports => "IMPORTS"@,
            EdgeKind::Emits => "EMITS"@,
            EdgeKind::RoutesTo => "ROUTES_TO"@,
            EdgeKind::Raises => "RAISES"@,
            EdgeKind::Extends => "EXTENDS"@,
            EdgeKind::Implements => "IMPLEMENTS"@,
        }
    }

    /// The variant's name.
    pub open spec fn name(self) -> Seq<char> {
        match self {
            EdgeKind::Calls => "Calls"@,
            EdgeKind::Reads => "Reads"@,
            EdgeKind::Writes => "Writes"@,
            EdgeKind::Imports => "Imports"@,
            EdgeKind::Emits => "Emits"@,
            EdgeKind::RoutesTo => "RoutesTo"@,
            EdgeKind::Raises => "Raises"@,
            EdgeKind::Extends => "Extends"@,
            EdgeKind::Implements => "Implements"@,
        }
    }

    /// The kind as it is displayed.
    pub fn to_string(&self) -> (r: String)
        ensures
            r@ == self.display(),
    {
        let s: &str = match self {
            EdgeKind::Calls => "CALLS",
            EdgeKind::Reads => "READS",
            EdgeKind::Writes => "WRITES",
            EdgeKind::Imports => "IMPORTS",
            EdgeKind::Emits => "EMITS",
            EdgeKind::RoutesTo => "ROUTES_TO",
            EdgeKind::Raises => "RAISES",
            EdgeKind::Extends => "EXTENDS",
            EdgeKind::Implements => "IMPLEMENTS",
        };
        s.to_owned()
    }

    /// The variant's name.
    pub fn name_str(&self) -> (r: &'static str)
        ensures
            r@ == self.name(),
    {
        match self {
            EdgeKind::Calls => "Calls",
            EdgeKind::Reads => "Reads",
            EdgeKind::Writes => "Writes",
            EdgeKind::Imports => "Imports",
            EdgeKind::Emits => "Emits",
            EdgeKind::RoutesTo => "RoutesTo",
            EdgeKind::Raises => "Raises",
            EdgeKind::Extends => "Extends",
            EdgeKind::Implements => "Implements",
        }
    }
}

/// Source code location.
#[derive(Clone, Copy, Debug, PartialEq, Eq, Hash, Structural)]
pub struct Span {
    /// Starting byte offset
    pub start_byte: usize,
    /// Ending byte offset (exclusive)
    pub end_byte: usize,
    /// Starting line (1-indexed)
    pub start_line: usize,
    /// Ending line (1-indexed)
    pub end_line: usize,
    /// Starting column (1-indexed)
    pub start_column: usize,
    /// Ending column (1-indexed)
    pub end_column: usize,
}

/// `start_line:start_column-end_line:end_column`.
pub open spec fn span_display(s: Span) -> Seq<char> {
    decimal(s.start_line as nat) + seq![':'] + decimal(s.start_column as nat) + seq!['-']
        + decimal(s.end_line as nat) + seq![':'] + decimal(s.end_column as nat)
}

impl Span {
    /// Creates a new span.
    pub fn new(
        start_byte: usize,
        end_byte: usize,
        start_line: usize,
        end_line: usize,
        start_column: usize,
        end_column: usize,
    ) -> (r: Self)
        ensures
            r == (Span { start_byte, end_byte, start_line, end_line, start_column, end_column }),
    {
        Span { start_byte, end_byte, start_line, end_line, start_column, end_column }
    }

    /// The length in bytes.
    pub fn len(&self) -> (r: usize)
        requires
            self.start_byte <= self.end_byte,
        ensures
            r == self.end_byte - self.start_byte,
    {
        self.end_byte - self.start_byte
    }

    /// Whether the span covers no bytes.
    pub fn is_empty(&self) -> (r: bool)
        ensures
            r == (self.start_byte == self.end_byte),
    {
        self.start_byte == self.end_byte
    }

    /// The span as it is displayed.
    pub fn to_string(&self) -> (r: String)
        ensures
            r@ == span_display(*self),
    {
        let mut r = usize_to_string(self.start_line);
        push_char(&mut r, ':');
        let a = usize_to_string(self.start_column);
        push_str(&mut r, a.as_str());
        push_char(&mut r, '-');
        let b = usize_to_string(self.end_line);
        push_str(&mut r, b.as_str());
        push_char(&mut r, ':');
        let c = usize_to_string(self.end_column);
        push_str(&mut r, c.as_str());
        assert(r@ =~= span_display(*self));
        r
    }
}

/// Programming language.
#[derive(Clone, Copy, Debug, PartialEq, Eq, Hash, Structural)]
pub enum Language {
    JavaScript,
    TypeScript,
    Python,
    Java,
    Go,
    Rust,
    C,
    Cpp,
    Unknown,
}

/// The language of an already lowercased file extension.
pub open spec fn language_for(e: Seq<char>) -> Language {
    if e == "js"@ || e == "mjs"@ || e == "cjs"@ {
        Language::JavaScript
    } else if e == "ts"@ || e == "tsx"@ {
        Language::TypeScript
    } else if e == "py"@ || e == "pyw"@ {
        Language::Python
    } else if e == "java"@ {
        Language::Java
    } else if e == "go"@ {
        Language::Go
    } else if e == "rs"@ {
        Language::Rust
    } else if e == "c"@ || e == "h"@ {
        Language::C
    } else if e == "cpp"@ || e == "cc"@ || e == "cxx"@ || e == "hpp"@ || e == "hxx"@ {
        Language::Cpp
    } else {
        Language::Unknown
    }
}

impl Language {
    /// The language of a file extension, compared without regard to case.
    pub fn from_extension(ext: &str) -> (r: Self)
        ensures
            r == language_for(lowercase_of(ext@)),
            crate::text::all_ascii(ext@) ==> r == language_for(crate::text::ascii_lower(ext@)),
    {
        let lower = to_lowercase(ext);
        Self::from_lowercase_extension(lower.as_str())
    }

    /// The language of a file extension that is already lowercase.
    pub fn from_lowercase_extension(e: &str) -> (r: Self)
        ensures
            r == language_for(e@),
    {
        if str_eq(e, "js") || str_eq(e, "mjs") || str_eq(e, "cjs") {
            Language::JavaScript
        } else if str_eq(e, "ts") || str_eq(e, "tsx") {
            Language::TypeScript
        } else if str_eq(e, "py") || str_eq(e, "pyw") {
            Language::Python
        } else if str_eq(e, "java") {
            Language::Java
        } else if str_eq(e, "go") {
            Language::Go
        } else if str_eq(e, "rs") {
            Language::Rust
        } else if str_eq(e, "c") || str_eq(e, "h") {
            Language::C
        } else if str_eq(e, "cpp") || str_eq(e, "cc") || str_eq(e, "cxx") || str_eq(e, "hpp")
            || str_eq(e, "hxx") {
            Language::Cpp
        } else {
            Language::Unknown
        }
    }

    /// The language as it is displayed.
    pub open spec fn display(self) -> Seq<char> {
        match self {
            Language::JavaScript => "JavaScript"@,
            Language::TypeScript => "TypeScript"@,
            Language::Python => "Python"@,
            Language::Java => "Java"@,
            Language::Go => "Go"@,
            Language::Rust => "Rust"@,
            Language::C => "C"@,
            Language::Cpp => "C++"@,
            Language::Unknown => "Unknown"@,
        }
    }

    /// The language as it is displayed.
    pub fn display_str(&self) -> (r: &'static str)
        ensures
            r@ == self.display(),
    {
        match self {
            Language::JavaScript => "JavaScript",
            Language::TypeScript => "TypeScript",
            Language::Python => "Python",
            Language::Java => "Java",
            Language::Go => "Go",
            Language::Rust => "Rust",
            Language::C => "C",
            Language::Cpp => "C++",
            Language::Unknown => "Unknown",
        }
    }

    /// The language as it is displayed.
    pub fn to_string(&self) -> (r: String)
        ensures
            r@ == self.display(),
    {
        self.display_str().to_owned()
    }
}

/// A node in the Universal AST.
#[derive(Clone, Debug)]
pub struct Node {
    /// Unique identifier
    pub id: NodeId,
    /// Node type
    pub kind: NodeKind,
    /// Node name (e.g., function name)
    pub name: String,
    /// Programming language
    pub lang: Language,
    /// Source file path
    pub file: String,
    /// Source location
    pub span: Span,
    /// Optional type signature
    pub signature: Option<String>,
    /// Additional metadata
    pub metadata: serde_json::Value,
}

/// `lang kind 'name' at file:span`, as a node is displayed.
pub open spec fn node_display(n: Node) -> Seq<char> {
    n.lang.display() + seq![' '] + n.kind.name() + seq![' ', '\''] + n.name@ + seq![
        '\'',
        ' ',
        'a',
        't',
        ' ',
    ] + n.file@ + seq![':'] + span_display(n.span)
}

impl Node {
    /// Creates a node; its identifier is computed from the repository id,
    /// file, span and kind.
    pub fn new(
        repo_id: &str,
        kind: NodeKind,
        name: String,
        lang: Language,
        file: String,
        span: Span,
    ) -> (r: Self)
        ensures
            r.id.0@ == node_id_of(repo_id@, file@, span, kind),
            r.kind == kind,
            r.name == name,
            r.lang == lang,
            r.file == file,
            r.span == span,
            r.signature is None,
    {
        let id = NodeId::new(repo_id, file.as_str(), &span, &kind);
        Node {
            id,
            kind,
            name,
            lang,
            file,
            span,
            signature: None,
            metadata: json_null(),
        }
    }

    /// Sets the type signature.
    pub fn with_signature(self, sig: String) -> (r: Self)
        ensures
            r == (Node { signature: Some(sig), ..self }),
    {
        Node { signature: Some(sig), ..self }
    }

    /// Sets the metadata.
    pub fn with_metadata(self, metadata: serde_json::Value) -> (r: Self)
        ensures
            r == (Node { metadata, ..self }),
    {
        Node { metadata, ..self }
    }

    /// The node as it is displayed.
    pub fn to_string(&self) -> (r: String)
        ensures
            r@ == node_display(*self),
    {
        let mut r = self.lang.to_string();
        push_char(&mut r, ' ');
        push_str(&mut r, self.kind.name_str());
        push_char(&mut r, ' ');
        push_char(&mut r, '\'');
        push_str(&mut r, self.name.as_str());
        push_char(&mut r, '\'');
        push_char(&mut r, ' ');
        push_char(&mut r, 'a');
        push_char(&mut r, 't');
        push_char(&mut r, ' ');
        push_str(&mut r, self.file.as_str());
        push_char(&mut r, ':');
        let s = self.span.to_string();
        push_str(&mut r, s.as_str());
        assert(r@ =~= node_display(*self));
        r
    }
}

/// Builder for creating nodes.
pub struct NodeBuilder {
    pub repo_id: String,
    pub kind: NodeKind,
    pub name: String,
    pub lang: Language,
    pub file: String,
    pub span: Span,
    pub signature: Option<String>,
    pub metadata: serde_json::Value,
}

impl NodeBuilder {
    /// A builder for a node of the given kind: empty name and file, unknown
    /// language, span `0..0` at line 1, column 1.
    pub fn new(repo_id: &str, kind: NodeKind) -> (r: Self)
        ensures
            r.repo_id@ == repo_id@,
            r.kind == kind,
            r.name@ == Seq::<char>::empty(),
            r.lang == Language::Unknown,
            r.file@ == Seq::<char>::empty(),
            r.span == (Span {
                start_byte: 0,
                end_byte: 0,
                start_line: 1,
                end_line: 1,
                start_column: 1,
                end_column: 1,
            }),
            r.signature is None,
    {
        NodeBuilder {
            repo_id: repo_id.to_owned(),
            kind,
            name: String::new(),
            lang: Language::Unknown,
            file: String::new(),
            span: Span::new(0, 0, 1, 1, 1, 1),
            signature: None,
            metadata: json_null(),
        }
    }

    /// Sets the node name.
    pub fn name(self, name: &str) -> (r: Self)
        ensures
            r.name@ == name@,
            r.repo_id == self.repo_id,
            r.kind == self.kind,
            r.lang == self.lang,
            r.file == self.file,
            r.span == self.span,
            r.signature == self.signature,
            r.metadata == self.metadata,
    {
        NodeBuilder { name: name.to_owned(), ..self }
    }

    /// Sets the language.
    pub fn language(self, lang: Language) -> (r: Self)
        ensures
            r == (NodeBuilder { lang, ..self }),
    {
        NodeBuilder { lang, ..self }
    }

    /// Sets the file path.
    pub fn file(self, file: &str) -> (r: Self)
        ensures
            r.file@ == file@,
            r.repo_id == self.repo_id,
            r.kind == self.kind,
            r.name == self.name,
            r.lang == self.lang,
            r.span == self.span,
            r.signature == self.signature,
            r.metadata == self.metadata,
    {
        NodeBuilder { file: file.to_owned(), ..self }
    }

    /// Sets the span.
    pub fn span(self, span: Span) -> (r: Self)
        ensures
            r == (NodeBuilder { span, ..self }),
    {
        NodeBuilder { span, ..self }
    }

    /// Sets the type signature.
    pub fn signature(self, sig: &str) -> (r: Self)
        ensures
            r.signature is Some,
            r.signature->0@ == sig@,
            r.repo_id == self.repo_id,
            r.kind == self.kind,
            r.name == self.name,
            r.lang == self.lang,
            r.file == self.file,
            r.span == self.span,
            r.metadata == self.metadata,
    {
        NodeBuilder { signature: Some(sig.to_owned()), ..self }
    }

    /// Sets the metadata.
    pub fn metadata(self, metadata: serde_json::Value) -> (r: Self)
        ensures
            r == (NodeBuilder { metadata, ..self }),
    {
        NodeBuilder { metadata, ..self }
    }

    /// Builds the node; its identifier is computed from the builder's
    /// repository id, file, span and kind.
    pub fn build(self) -> (r: Node)
        ensures
            r.id.0@ == node_id_of(self.repo_id@, self.file@, self.span, self.kind),
            r.kind == self.kind,
            r.name == self.name,
            r.lang == self.lang,
            r.file == self.file,
            r.span == self.span,
            r.signature == self.signature,
            r.metadata == self.metadata,
    {
        let id = NodeId::new(self.repo_id.as_str(), self.file.as_str(), &self.span, &self.kind);
        Node {
            id,
            kind: self.kind,
            name: self.name,
            lang: self.lang,
            file: self.file,
            span: self.span,
            signature: self.signature,
            metadata: self.metadata,
        }
    }
}

/// An edge between nodes.
#[derive(Clone, Copy, Debug, Eq, Hash)]
pub struct Edge {
    /// Source node ID
    pub source: NodeId,
    /// Target node ID
    pub target: NodeId,
    /// Edge type
    pub kind: EdgeKind,
}

/// `source>target>:Kind`, the identifier of an edge: the full hex of its
/// two node ids and the name of its kind.
pub open spec fn edge_id(e: Edge) -> Seq<char> {
    hex_lower(e.source.0@) + seq!['>'] + hex_lower(e.target.0@) + seq!['>', ':'] + e.kind.name()
}

/// `source --KIND-> target`, as an edge is displayed.
pub open spec fn edge_display(e: Edge) -> Seq<char> {
    short_hex(e.source) + seq![' ', '-', '-'] + e.kind.display() + seq!['-', '>', ' ']
        + short_hex(e.target)
}

impl PartialEq for Edge {
    fn eq(&self, other: &Self) -> (r: bool) {
        self.source == other.source && self.target == other.target && self.kind == other.kind
    }
}

impl vstd::std_specs::cmp::PartialEqSpecImpl for Edge {
    open spec fn obeys_eq_spec() -> bool {
        true
    }

    open spec fn eq_spec(&self, other: &Edge) -> bool {
        *self == *other
    }
}

impl Edge {
    /// Creates a new edge.
    pub fn new(source: NodeId, target: NodeId, kind: EdgeKind) -> (r: Self)
        ensures
            r == (Edge { source, target, kind }),
    {
        Edge { source, target, kind }
    }

    /// A unique identifier for this edge.
    pub fn id(&self) -> (r: String)
        ensures
            r@ == edge_id(*self),
    {
        let mut r = self.source.to_hex();
        push_char(&mut r, '>');
        let t = self.target.to_hex();
        push_str(&mut r, t.as_str());
        push_char(&mut r, '>');
        push_char(&mut r, ':');
        push_str(&mut r, self.kind.name_str());
        assert(r@ =~= edge_id(*self));
        r
    }

    /// The edge as it is displayed.
    pub fn to_string(&self) -> (r: String)
        ensures
            r@ == edge_display(*self),
    {
        let mut r = self.source.to_string();
        push_char(&mut r, ' ');
        push_char(&mut r, '-');
        push_char(&mut r, '-');
        let k = self.kind.to_string();
        push_str(&mut r, k.as_str());
        push_char(&mut r, '-');
        push_char(&mut r, '>');
        push_char(&mut r, ' ');
        let t = self.target.to_string();
        push_str(&mut r, t.as_str());
        assert(r@ =~= edge_display(*self));
        r
    }
}

} // verus!
