//! Support for a Cypher-speaking backend: connection configuration and the
//! pure Cypher helpers — string escaping, label sanitising, identifier
//! checking and property-filter construction. The wire driver itself lives
//! outside the library.

use vstd::prelude::*;

use vstd::string::StringExecFns;
use vstd::string::StrSliceExecFns;

use crate::errors::GraphError;
use crate::ext::{char_alphanumeric, is_alphanumeric_char, char_alphabetic, is_alphabetic_char};
use crate::props::{PropEntry, PropEntryView, props_view, clone_props};
use crate::text::{dec_of, u64_to_dec};

verus! {

broadcast use vstd::seq::group_seq_axioms;

/// Connection configuration for a Cypher-speaking backend.
pub struct Neo4jConfig {
    /// The connection URI, e.g. "bolt://localhost:7687".
    pub uri: String,
    /// Username for authentication.
    pub user: Option<String>,
    /// Password for authentication.
    pub password: Option<String>,
    /// Maximum number of pooled connections.
    pub max_connections: usize,
    /// Connection timeout in milliseconds.
    pub connection_timeout_ms: u64,
}

impl Default for Neo4jConfig {
    /// The local default endpoint with the stock credentials.
    fn default() -> (r: Self)
        ensures
            r.uri@ == "bolt://localhost:7687"@,
            r.user matches Some(u) && u@ == "neo4j"@,
            r.password matches Some(p) && p@ == "neo4j"@,
            r.max_connections == 10,
            r.connection_timeout_ms == 5000,
    {
        Neo4jConfig {
            uri: String::from_str("bolt://localhost:7687"),
            user: Some(String::from_str("neo4j")),
            password: Some(String::from_str("neo4j")),
            max_connections: 10,
            connection_timeout_ms: 5000,
        }
    }
}

impl Neo4jConfig {
    /// A configuration for the given URI with the default credentials, pool
    /// size and timeout.
    pub fn new(uri: String) -> (r: Self)
        ensures
            r.uri@ == uri@,
            r.user matches Some(u) && u@ == "neo4j"@,
            r.password matches Some(p) && p@ == "neo4j"@,
            r.max_connections == 10,
            r.connection_timeout_ms == 5000,
    {
        Neo4jConfig { uri, ..Default::default() }
    }

    /// Sets the authentication credentials.
    pub fn with_auth(self, user: String, password: String) -> (r: Self)
        ensures
            r.user matches Some(u) && u@ == user@,
            r.password matches Some(p) && p@ == password@,
            r.uri@ == self.uri@,
            r.max_connections == self.max_connections,
            r.connection_timeout_ms == self.connection_timeout_ms,
    {
        Neo4jConfig { user: Some(user), password: Some(password), ..self }
    }

    /// Sets the connection pool size.
    pub fn with_max_connections(self, max_connections: usize) -> (r: Self)
        ensures
            r.max_connections == max_connections,
            r.uri@ == self.uri@,
            r.user == self.user,
            r.password == self.password,
            r.connection_timeout_ms == self.connection_timeout_ms,
    {
        Neo4jConfig { max_connections, ..self }
    }

    /// Sets the connection timeout.
    pub fn with_timeout(self, timeout_ms: u64) -> (r: Self)
        ensures
            r.connection_timeout_ms == timeout_ms,
            r.uri@ == self.uri@,
            r.user == self.user,
            r.password == self.password,
            r.max_connections == self.max_connections,
    {
        Neo4jConfig { connection_timeout_ms: timeout_ms, ..self }
    }
}

/// The escaping of one character for a Cypher string literal: backslashes,
/// single quotes and double quotes get a leading backslash.
pub open spec fn escaped_char(c: char) -> Seq<char> {
    if c == '\\' {
        seq!['\\', '\\']
    } else if c == '\'' {
        seq!['\\', '\'']
    } else if c == '"' {
        seq!['\\', '"']
    } else {
        seq![c]
    }
}

/// The escaping of a whole string for a Cypher string literal.
pub open spec fn escape_cypher(s: Seq<char>) -> Seq<char>
    decreases s.len(),
{
    if s.len() == 0 {
        Seq::empty()
    } else {
        escape_cypher(s.drop_last()) + escaped_char(s.last())
    }
}

/// Escapes a string for use inside a Cypher string literal.
pub fn escape_cypher_string(s: &str) -> (r: String)
    ensures
        r@ == escape_cypher(s@),
{
    let len = s.unicode_len();
    let mut out = String::new();
    let mut i: usize = 0;
    while i < len
        invariant
            0 <= i <= s@.len(),
            len == s@.len(),
            out@ == escape_cypher(s@.take(i as int)),
        decreases len - i,
    {
        proof {
            assert(s@.take(i as int + 1).drop_last() =~= s@.take(i as int));
            assert(s@.take(i as int + 1).last() == s@[i as int]);
        }
        let c = s.get_char(i);
        if c == '\\' {
            crate::ext::string_push(&mut out, '\\');
            crate::ext::string_push(&mut out, '\\');
        } else if c == '\'' {
            crate::ext::string_push(&mut out, '\\');
            crate::ext::string_push(&mut out, '\'');
        } else if c == '"' {
            crate::ext::string_push(&mut out, '\\');
            crate::ext::string_push(&mut out, '"');
        } else {
            crate::ext::string_push(&mut out, c);
        }
        proof {
            assert(out@ =~= escape_cypher(s@.take(i as int + 1)));
        }
        i += 1;
    }
    proof {
        assert(s@.take(len as int) =~= s@);
    }
    out
}

/// A label is valid for Cypher: non-empty and made of alphanumeric characters
/// and underscores.
pub open spec fn valid_label(s: Seq<char>) -> bool {
    s.len() > 0 && forall|i: int|
        0 <= i < s.len() ==> char_alphanumeric(#[trigger] s[i]) || s[i] == '_'
}

/// Accepts a label made of alphanumeric characters and underscores; rejects
/// any other with `QueryFailed`.
pub fn sanitize_label(label: &str) -> (r: Result<String, GraphError>)
    ensures
        r matches Ok(out) ==> valid_label(label@) && out@ == label@,
        r matches Err(e) ==> !valid_label(label@) && e is QueryFailed,
{
    let len = label.unicode_len();
    if len == 0 {
        return Err(GraphError::QueryFailed(String::from_str("empty label name")));
    }
    let mut i: usize = 0;
    while i < len
        invariant
            0 <= i <= label@.len(),
            len == label@.len(),
            forall|j: int|
                0 <= j < i ==> char_alphanumeric(#[trigger] label@[j]) || label@[j] == '_',
        decreases len - i,
    {
        let c = label.get_char(i);
        if !(is_alphanumeric_char(c) || c == '_') {
            return Err(GraphError::QueryFailed(String::from_str("invalid label name")));
        }
        i += 1;
    }
    Ok(label.to_owned())
}

/// A string is a valid identifier: non-empty, alphabetic first character, and
/// every character alphanumeric or an underscore.
pub open spec fn valid_identifier(s: Seq<char>) -> bool {
    &&& s.len() > 0
    &&& char_alphabetic(s[0])
    &&& forall|i: int| 0 <= i < s.len() ==> char_alphanumeric(#[trigger] s[i]) || s[i] == '_'
}

/// Whether a string can stand as a Cypher identifier.
pub fn is_valid_identifier(s: &str) -> (r: bool)
    ensures
        r == valid_identifier(s@),
{
    let len = s.unicode_len();
    if len == 0 {
        return false;
    }
    if !is_alphabetic_char(s.get_char(0)) {
        return false;
    }
    let mut i: usize = 0;
    while i < len
        invariant
            0 <= i <= s@.len(),
            len == s@.len(),
            char_alphabetic(s@[0]),
            forall|j: int| 0 <= j < i ==> char_alphanumeric(#[trigger] s@[j]) || s@[j] == '_',
        decreases len - i,
    {
        let c = s.get_char(i);
        if !(is_alphanumeric_char(c) || c == '_') {
            return false;
        }
        i += 1;
    }
    true
}

/// A parameter name: the base, an underscore, and the index in decimal.
pub fn generate_param_name(base: &str, index: usize) -> (r: String)
    ensures
        r@ == base@ + "_"@ + dec_of(index as nat),
{
    String::from_str(base).concat("_").concat(u64_to_dec(index as u64).as_str())
}

/// The condition text for one property filter entry.
pub open spec fn filter_condition(node_var: Seq<char>, prefix: Seq<char>, key: Seq<char>) -> Seq<
    char,
> {
    node_var + "."@ + key + " = $"@ + prefix + "_"@ + key
}

/// The conditions of a filter, joined with " AND ".
pub open spec fn filter_conditions(
    entries: Seq<PropEntryView>,
    node_var: Seq<char>,
    prefix: Seq<char>,
) -> Seq<char>
    decreases entries.len(),
{
    if entries.len() == 0 {
        Seq::empty()
    } else if entries.len() == 1 {
        filter_condition(node_var, prefix, entries[0].key)
    } else {
        filter_conditions(entries.drop_last(), node_var, prefix) + " AND "@ + filter_condition(
            node_var,
            prefix,
            entries.last().key,
        )
    }
}

/// The whole filter clause: empty for no entries, otherwise " AND " followed
/// by the joined conditions.
pub open spec fn filter_clause(
    entries: Seq<PropEntryView>,
    node_var: Seq<char>,
    prefix: Seq<char>,
) -> Seq<char> {
    if entries.len() == 0 {
        Seq::empty()
    } else {
        " AND "@ + filter_conditions(entries, node_var, prefix)
    }
}

/// Builds the Cypher filter clause for a property filter, together with the
/// renamed parameter entries the clause refers to.
pub fn build_property_filters(
    properties: &Vec<PropEntry>,
    node_var: &str,
    param_prefix: &str,
) -> (r: (String, Vec<PropEntry>))
    ensures
        r.0@ == filter_clause(props_view(properties@), node_var@, param_prefix@),
        r.1@.len() == properties@.len(),
        forall|i: int|
            0 <= i < properties@.len() ==> (#[trigger] r.1@[i]).key@ == param_prefix@ + "_"@
                + properties@[i].key@ && r.1@[i].value@ == properties@[i].value@,
{
    let ghost entries = props_view(properties@);
    let mut clause = String::new();
    let mut params: Vec<PropEntry> = Vec::new();
    let mut i: usize = 0;
    while i < properties.len()
        invariant
            0 <= i <= properties@.len(),
            entries == props_view(properties@),
            entries.len() == properties@.len(),
            clause@ == filter_conditions(entries.take(i as int), node_var@, param_prefix@),
            params@.len() == i,
            forall|j: int|
                0 <= j < i ==> (#[trigger] params@[j]).key@ == param_prefix@ + "_"@
                    + properties@[j].key@ && params@[j].value@ == properties@[j].value@,
        decreases properties@.len() - i,
    {
        proof {
            assert(entries.take(i as int + 1).drop_last() =~= entries.take(i as int));
            assert(entries.take(i as int + 1).last() == entries[i as int]);
        }
        let key = &properties[i].key;
        let param_name = String::from_str(param_prefix).concat("_").concat(key.as_str());
        let condition = String::from_str(node_var).concat(".").concat(key.as_str()).concat(
            " = $",
        ).concat(param_name.as_str());
        if i == 0 {
            clause = condition;
        } else {
            clause = clause.concat(" AND ").concat(condition.as_str());
        }
        params.push(PropEntry { key: param_name, value: properties[i].value.clone() });
        i += 1;
    }
    proof {
        assert(entries.take(entries.len() as int) =~= entries);
    }
    let out = if params.len() == 0 {
        String::new()
    } else {
        String::from_str(" AND ").concat(clause.as_str())
    };
    (out, params)
}

} // verus!
