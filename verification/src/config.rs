//! Node configuration data and the node-name grammar.
//!
//! The loader itself (TOML file, environment overrides) is mechanical
//! I/O that lives with the front end; here are the configuration types
//! it fills and the one rule that matters to the core: a node's name
//! must fit the fleet bus subject grammar.

use vstd::prelude::*;

verus! {

/// A node's own configuration.
pub struct NodeConfig {
    /// Short identifier used in the fleet; must fit the subject grammar.
    pub name: String,
    /// TCP bind address for the remote WebSocket transport, if any.
    pub listen: Option<String>,
    /// Externally reachable URL advertised to the fleet, if any.
    pub external_url: Option<String>,
}

/// Message-bus connection parameters for the fleet plane.
pub struct NatsConfig {
    pub url: String,
    pub token: Option<String>,
    pub creds_file: Option<String>,
}

/// The whole node configuration.
pub struct Config {
    pub node: NodeConfig,
    pub nats: Option<NatsConfig>,
}

/// One saved remote server, client side.
pub struct ServerEntry {
    pub url: String,
    pub token: String,
}

/// The client's saved remote servers, by name.
pub struct ServersConfig {
    pub servers: Vec<(String, ServerEntry)>,
}

/// A character the node-name grammar accepts: ASCII letters and digits,
/// hyphen and underscore (the bus uses the dot as its own delimiter).
pub open spec fn spec_is_name_char(c: char) -> bool {
    ('a' <= c && c <= 'z') || ('A' <= c && c <= 'Z') || ('0' <= c && c <= '9') || c == '-' || c
        == '_'
}

/// Whether a name fits the node-name grammar: non-empty, name
/// characters only.
pub open spec fn spec_valid_node_name(s: Seq<char>) -> bool {
    s.len() > 0 && (forall|i: int| 0 <= i < s.len() ==> spec_is_name_char(#[trigger] s[i]))
}

fn is_name_char(c: char) -> (r: bool)
    ensures
        r == spec_is_name_char(c),
{
    ('a' <= c && c <= 'z') || ('A' <= c && c <= 'Z') || ('0' <= c && c <= '9') || c == '-' || c
        == '_'
}

/// Validate a node name for use in fleet bus subjects. Accepts exactly
/// the names of the grammar; rejected names come back with a message
/// that repeats the offending name.
pub fn validate_node_name(name: &str) -> (r: Result<(), String>)
    ensures
        (r is Ok) <==> spec_valid_node_name(name@),
        r matches Err(m) ==> m@
            == "node name must be non-empty and alphanumeric (with - or _), got: "@ + name@,
{
    let len = name.unicode_len();
    let mut ok = len > 0;
    let mut i: usize = 0;
    while i < len
        invariant
            i <= len,
            len == name@.len(),
            ok == (len > 0 && (forall|k: int|
                0 <= k < i ==> spec_is_name_char(#[trigger] name@[k]))),
        decreases len - i,
    {
        if !is_name_char(name.get_char(i)) {
            ok = false;
        }
        i = i + 1;
    }
    if ok {
        Ok(())
    } else {
        let mut m: String =
            "node name must be non-empty and alphanumeric (with - or _), got: ".to_owned();
        m.append(name);
        Err(m)
    }
}

/// Sanitize a raw host name into the node-name grammar: characters the
/// grammar refuses become hyphens.
pub fn sanitize_node_name(raw: &str) -> (out: String)
    ensures
        out@.len() == raw@.len(),
        forall|i: int|
            0 <= i < raw@.len() ==> out@[i] == (if spec_is_name_char(#[trigger] raw@[i]) {
                raw@[i]
            } else {
                '-'
            }),
{
    let len = raw.unicode_len();
    let mut out = String::new();
    let mut i: usize = 0;
    while i < len
        invariant
            i <= len,
            len == raw@.len(),
            out@.len() == i,
            forall|k: int|
                0 <= k < i ==> out@[k] == (if spec_is_name_char(#[trigger] raw@[k]) {
                    raw@[k]
                } else {
                    '-'
                }),
        decreases len - i,
    {
        if is_name_char(raw.get_char(i)) {
            out.append(raw.substring_char(i, i + 1));
            proof {
                assert(raw@.subrange(i as int, i + 1)[0] == raw@[i as int]);
            }
        } else {
            out.append("-");
            proof {
                reveal_strlit("-");
                assert("-"@[0] == '-' && "-"@.len() == 1);
            }
        }
        i = i + 1;
    }
    out
}

} // verus!
