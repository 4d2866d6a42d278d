//! Configuration deserialization: reading the source map out of a TOML
//! document, and the error type shared by every (de)serialization failure.

use vstd::prelude::*;
use vstd::string::StringExecFns;
use crate::strings::str_eq;

verus! {

/// Contains the error for serializer/deserializer.
#[derive(Debug)]
pub struct SerializerError {
    pub kind: SerializerErrorKind,
    pub msg: String,
}

/// Describes the kind of error for the serializer/deserializer.
#[derive(Debug, Clone, Copy, PartialEq, Eq, Structural)]
pub enum SerializerErrorKind {
    Io,
    Syntax,
}

/// The short name of an error kind.
pub open spec fn spec_kind_name(kind: SerializerErrorKind) -> Seq<char> {
    match kind {
        SerializerErrorKind::Io => "IO error"@,
        SerializerErrorKind::Syntax => "Syntax error"@,
    }
}

impl SerializerErrorKind {
    /// The short human-readable name of this error kind.
    pub fn name(&self) -> (r: &'static str)
        ensures
            r@ == spec_kind_name(*self),
    {
        match self {
            SerializerErrorKind::Io => "IO error",
            SerializerErrorKind::Syntax => "Syntax error",
        }
    }
}

impl SerializerError {
    /// Instantiates a new `SerializerError` with description message.
    pub fn new(kind: SerializerErrorKind, msg: String) -> (r: SerializerError)
        ensures
            r.kind == kind,
            r.msg == msg,
    {
        SerializerError { kind, msg }
    }

    /// The display form of the error: the kind's name followed by the
    /// message in parentheses.
    pub fn to_message(&self) -> (r: String)
        ensures
            r@ == spec_kind_name(self.kind) + " ("@ + self.msg@ + ")"@,
    {
        let mut s = String::from_str(self.kind.name());
        s.append(" (");
        s.append(self.msg.as_str());
        s.append(")");
        s
    }
}

/// The configuration consumed by the engine: a mapping from source name to
/// fetch URI, read once before the orchestration loop starts.
#[derive(Debug, Clone, PartialEq)]
pub struct Config {
    pub sources: Vec<(String, String)>,
}

/// The first value associated with a name, searching in order.
pub open spec fn assoc_first<T>(t: Seq<(Seq<char>, T)>, name: Seq<char>) -> Option<T>
    decreases t.len(),
{
    if t.len() == 0 {
        None
    } else if t[0].0 == name {
        Some(t[0].1)
    } else {
        assoc_first(t.skip(1), name)
    }
}

/// Searching an association list whose first `i` names all differ from the
/// key is the same as searching from position `i` on.
proof fn lemma_assoc_first_skip<T>(t: Seq<(Seq<char>, T)>, name: Seq<char>, i: int)
    requires
        0 <= i <= t.len(),
        forall|k: int| 0 <= k < i ==> t[k].0 != name,
    ensures
        assoc_first(t, name) == assoc_first(t.skip(i), name),
    decreases i,
{
    if i == 0 {
        assert(t.skip(0) =~= t);
    } else {
        assert(forall|k: int| 0 <= k < i - 1 ==> t.skip(1)[k].0 != name);
        lemma_assoc_first_skip(t.skip(1), name, i - 1);
        assert(t.skip(1).skip(i - 1) =~= t.skip(i));
    }
}

impl Config {
    /// The configured source names, in stored order.
    pub open spec fn names(self) -> Seq<Seq<char>> {
        self.sources@.map_values(|p: (String, String)| p.0@)
    }

    /// The configured `(name, uri)` pairs, as character sequences.
    pub open spec fn source_pairs(self) -> Seq<(Seq<char>, Seq<char>)> {
        self.sources@.map_values(|p: (String, String)| (p.0@, p.1@))
    }

    /// The URI configured for a source name, if any.
    pub fn get(&self, name: &str) -> (r: Option<&String>)
        ensures
            match r {
                Some(u) => assoc_first(self.source_pairs(), name@) == Some(u@),
                None => assoc_first(self.source_pairs(), name@) is None,
            },
    {
        let n = self.sources.len();
        let mut i: usize = 0;
        loop
            invariant
                n == self.sources@.len(),
                i <= n,
                forall|k: int| 0 <= k < i ==> self.source_pairs()[k].0 != name@,
            decreases n - i,
        {
            if i == n {
                proof {
                    lemma_assoc_first_skip(self.source_pairs(), name@, i as int);
                }
                return None;
            }
            if str_eq(self.sources[i].0.as_str(), name) {
                proof {
                    lemma_assoc_first_skip(self.source_pairs(), name@, i as int);
                    assert(self.source_pairs().skip(i as int)[0] == self.source_pairs()[i as int]);
                }
                return Some(&self.sources[i].1);
            }
            i = i + 1;
        }
    }
}

/// What parsing a TOML document into string-valued tables yields: the tables
/// in key order, each with its entries in key order, or nothing when the
/// document is not of that shape. The result is a function of the document
/// text alone.
pub uninterp spec fn toml_string_tables_of(s: Seq<char>) -> Option<
    Seq<(Seq<char>, Seq<(Seq<char>, Seq<char>)>)>,
>;

/// Relies on toml::from_str: parses a TOML document whose top level is a map
/// of tables of string values, deterministically in the document text.
#[verifier::external_body]
fn parse_toml_string_tables(data: &str) -> (r: Result<
    Vec<(String, Vec<(String, String)>)>,
    String,
>)
    ensures
        r is Ok <==> toml_string_tables_of(data@) is Some,
        r matches Ok(v) ==> {
            let t = toml_string_tables_of(data@).unwrap();
            &&& v@.len() == t.len()
            &&& forall|i: int|
                0 <= i < t.len() ==> (#[trigger] v@[i]).0@ == t[i].0 && v@[i].1@.map_values(
                    |p: (String, String)| (p.0@, p.1@),
                ) == t[i].1
        },
{
    match toml::from_str::<
        std::collections::BTreeMap<String, std::collections::BTreeMap<String, String>>,
    >(data) {
        Ok(m) => Ok(m.into_iter().map(|(k, v)| (k, v.into_iter().collect())).collect()),
        Err(e) => Err(e.to_string()),
    }
}

/// Deserializes a configuration from TOML text: the `sources` table becomes
/// the source map. A document that does not parse as string-valued tables,
/// or that lacks a `sources` table, is a syntax error. The shape is strict
/// by choice: every top-level entry must be a table of strings, so an
/// unrecognised key or a non-string value is reported instead of being
/// silently ignored.
pub fn deserialize(data: &str) -> (r: Result<Config, SerializerError>)
    ensures
        match r {
            Ok(c) => toml_string_tables_of(data@) matches Some(t) && assoc_first(t, "sources"@)
                == Some(c.source_pairs()),
            Err(e) => e.kind is Syntax && (toml_string_tables_of(data@) is None || (
            toml_string_tables_of(data@) matches Some(t) && assoc_first(t, "sources"@) is None)),
        },
{
    let mut tables = match parse_toml_string_tables(data) {
        Ok(tables) => tables,
        Err(msg) => {
            return Err(SerializerError::new(SerializerErrorKind::Syntax, msg));
        },
    };
    let ghost t = toml_string_tables_of(data@).unwrap();
    let n = tables.len();
    let mut i: usize = 0;
    loop
        invariant
            toml_string_tables_of(data@) == Some(t),
            n == tables@.len(),
            n == t.len(),
            i <= n,
            forall|k: int|
                0 <= k < n ==> (#[trigger] tables@[k]).0@ == t[k].0 && tables@[k].1@.map_values(
                    |p: (String, String)| (p.0@, p.1@),
                ) == t[k].1,
            forall|k: int| 0 <= k < i ==> t[k].0 != "sources"@,
        decreases n - i,
    {
        if i == n {
            proof {
                lemma_assoc_first_skip(t, "sources"@, i as int);
            }
            return Err(
                SerializerError::new(
                    SerializerErrorKind::Syntax,
                    String::from_str("missing table `sources`"),
                ),
            );
        }
        if str_eq(tables[i].0.as_str(), "sources") {
            proof {
                lemma_assoc_first_skip(t, "sources"@, i as int);
                assert(t.skip(i as int)[0] == t[i as int]);
            }
            let entry = tables.remove(i);
            return Ok(Config { sources: entry.1 });
        }
        i = i + 1;
    }
}

} // verus!
