//! Configuration of servers, and timeouts.

use std::time::Duration;

use vstd::prelude::*;
use vstd::std_specs::cmp::PartialEqSpec;

use crate::config;
use crate::config::{LspConfig, LspServerConfig, ServerMap};
use crate::option_duration_ms;

verus! {

/// The servers for a language are those that list it, each once under its label.
pub proof fn law_servers_for_language(
    found: Seq<(&str, &LspServerConfig)>,
    servers: Map<Seq<char>, LspServerConfig>,
    language_id: Seq<char>,
    label: Seq<char>,
    place: int,
)
    requires
        config::lists_servers_for(found, servers, language_id),
    ensures
        servers.contains_key(label) && 0 <= place < servers[label].languages@.len()
            && servers[label].languages@[place]@ == language_id ==> exists|i: int|
            0 <= i < found.len() && (#[trigger] found[i]).0@ == label && *found[i].1
                == servers[label],
        forall|i: int|
            0 <= i < found.len() ==> servers.contains_key((#[trigger] found[i]).0@) && *found[i].1
                == servers[found[i].0@] && exists|j: int|
                0 <= j < found[i].1.languages@.len() && (#[trigger] found[i].1.languages@[j])@
                    == language_id,
        forall|i: int, j: int|
            0 <= i < j < found.len() ==> (#[trigger] found[i]).0@ != (#[trigger] found[j]).0@,
{
    if servers.contains_key(label) && 0 <= place < servers[label].languages@.len()
        && servers[label].languages@[place]@ == language_id {
        assert(config::handles(servers[label], language_id));
        let i = choose|i: int| 0 <= i < found.len() && (#[trigger] found[i]).0@ == label;
        assert(servers[found[i].0@] == *found[i].1);
    }
    assert forall|i: int| 0 <= i < found.len() implies servers.contains_key(
        (#[trigger] found[i]).0@,
    ) && *found[i].1 == servers[found[i].0@] && exists|j: int|
        0 <= j < found[i].1.languages@.len() && (#[trigger] found[i].1.languages@[j])@
            == language_id by {
        assert(config::handles(*found[i].1, language_id));
    }
}

/// A server handles a language if and only if it lists it.
pub proof fn law_handles(server: LspServerConfig, language_id: Seq<char>)
    ensures
        config::handles(server, language_id) <==> exists|i: int|
            0 <= i < server.languages@.len() && (#[trigger] server.languages@[i])@ == language_id,
{
}

/// Servers are configured alike if and only if they have the same command, arguments,
/// languages and timeout.
pub proof fn law_same_server(a: LspServerConfig, b: LspServerConfig)
    ensures
        config::same_server(a, b) <==> {
            &&& a.command@ == b.command@
            &&& a.args@.len() == b.args@.len()
            &&& forall|i: int| 0 <= i < a.args@.len() ==> (#[trigger] a.args@[i])@ == b.args@[i]@
            &&& a.languages@.len() == b.languages@.len()
            &&& forall|i: int|
                0 <= i < a.languages@.len() ==> (#[trigger] a.languages@[i])@ == b.languages@[i]@
            &&& match (a.startup_timeout_ms, b.startup_timeout_ms) {
                (Some(x), Some(y)) => option_duration_ms::duration_nanos(x)
                    == option_duration_ms::duration_nanos(y),
                (None, None) => true,
                _ => false,
            }
        },
{
    let x = crate::text::texts(a.args@);
    let y = crate::text::texts(b.args@);
    let u = crate::text::texts(a.languages@);
    let v = crate::text::texts(b.languages@);
    if config::same_server(a, b) {
        assert(x.len() == y.len() && u.len() == v.len());
        assert forall|i: int| 0 <= i < a.args@.len() implies (#[trigger] a.args@[i])@
            == b.args@[i]@ by {
            assert(x[i] == y[i]);
        }
        assert forall|i: int| 0 <= i < a.languages@.len() implies (#[trigger] a.languages@[i])@
            == b.languages@[i]@ by {
            assert(u[i] == v[i]);
        }
    }
    if a.args@.len() == b.args@.len() && (forall|i: int|
        0 <= i < a.args@.len() ==> (#[trigger] a.args@[i])@ == b.args@[i]@) {
        assert(x =~= y);
    }
    if a.languages@.len() == b.languages@.len() && (forall|i: int|
        0 <= i < a.languages@.len() ==> (#[trigger] a.languages@[i])@ == b.languages@[i]@) {
        assert(u =~= v);
    }
}

/// Two sets of servers are alike if and only if they have the same labels, with servers that
/// are configured alike.
pub proof fn law_same_servers(
    a: Map<Seq<char>, LspServerConfig>,
    b: Map<Seq<char>, LspServerConfig>,
    label: Seq<char>,
)
    requires
        config::same_servers(a, b),
    ensures
        a.dom() == b.dom(),
        a.contains_key(label) ==> config::same_server(a[label], b[label]),
{
    assert forall|key: Seq<char>| a.dom().contains(key) == b.dom().contains(key) by {
        assert(a.contains_key(key) == b.contains_key(key));
    }
    assert(a.dom() =~= b.dom());
}

/// A set of servers is alike to any with its labels and servers that are configured alike.
pub proof fn law_alike_servers(
    a: Map<Seq<char>, LspServerConfig>,
    b: Map<Seq<char>, LspServerConfig>,
)
    requires
        a.dom() == b.dom(),
        forall|label: Seq<char>| #[trigger]
            a.contains_key(label) ==> config::same_server(a[label], b[label]),
    ensures
        config::same_servers(a, b),
{
}

/// Configurations are equal if and only if they agree in the switch, the servers and the
/// timeout.
pub proof fn law_equal_configurations(
    a: LspConfig,
    b: LspConfig,
    one: LspServerConfig,
    other: LspServerConfig,
    first: ServerMap,
    second: ServerMap,
)
    ensures
        a.eq_spec(&b) <==> {
            &&& a.enabled == b.enabled
            &&& config::same_servers(a.servers@, b.servers@)
            &&& match (a.diagnostics_timeout_ms, b.diagnostics_timeout_ms) {
                (Some(x), Some(y)) => option_duration_ms::duration_nanos(x)
                    == option_duration_ms::duration_nanos(y),
                (None, None) => true,
                _ => false,
            }
        },
        one.eq_spec(&other) <==> config::same_server(one, other),
        first.eq_spec(&second) <==> config::same_servers(first@, second@),
{
}

/// A timeout is written as its whole milliseconds: what is left over is less than one, unless
/// the number would be too large.
pub proof fn law_timeouts(duration: Duration)
    ensures
        option_duration_ms::whole_millis(Some(duration)) matches Some(millis) && {
            let nanos = option_duration_ms::duration_nanos(duration) as int;
            &&& millis * 1_000_000 <= nanos
            &&& nanos < (millis + 1) * 1_000_000 || millis == u64::MAX
        },
        option_duration_ms::whole_millis(None) is None,
        option_duration_ms::timeout_nanos(Some(duration)) == Some(
            option_duration_ms::duration_nanos(duration),
        ),
        option_duration_ms::timeout_nanos(None) is None,
{
}

} // verus!
