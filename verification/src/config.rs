//! Opt-in configuration of language servers.

use std::time::Duration;

use vstd::prelude::*;

use crate::entries;
use crate::entries::{find_entry, put_entry};
use crate::option_duration_ms;
use crate::option_duration_ms::{duration_from_millis, same_timeout};
use crate::text;
use crate::text::{same_text, same_texts};

verus! {

/// How long a server may take to start, in milliseconds, where its configuration does not say.
pub const DEFAULT_STARTUP_TIMEOUT_MS: u64 = 10000;

/// `String::from` of a text slice holds the same text.
pub assume_specification<'a>[ <std::string::String as std::convert::From<&'a str>>::from ](
    slice: &str,
) -> (r: std::string::String)
    ensures
        r@ == slice@,
;

/// One stdio language server.
#[derive(Debug)]
pub struct LspServerConfig {
    /// Binary to spawn (must speak LSP over stdio).
    pub command: String,
    /// Extra argv. Defaults to empty.
    pub args: Vec<String>,
    /// Language ids this server handles (e.g. `["python"]`).
    pub languages: Vec<String>,
    /// Per-server startup timeout override.
    pub startup_timeout_ms: Option<Duration>,
}

/// Language servers by label: no label stands twice.
#[derive(Debug)]
pub struct ServerMap {
    entries: Vec<(String, LspServerConfig)>,
}

/// Opt-in LSP configuration.
///
/// Example `config.toml`:
/// ```toml
/// [lsp]
/// enabled = true
///
/// [lsp.servers.pyright]
/// command = "pyright-langserver"
/// args = ["--stdio"]
/// languages = ["python"]
/// ```
#[derive(Debug)]
pub struct LspConfig {
    /// Master switch. Default off: zero behavior change unless opted in.
    pub enabled: bool,
    /// Named language servers, keyed by an arbitrary label.
    pub servers: ServerMap,
    /// How long to wait for `publishDiagnostics` after `didOpen`.
    pub diagnostics_timeout_ms: Option<Duration>,
}

impl View for ServerMap {
    type V = Map<Seq<char>, LspServerConfig>;

    closed spec fn view(&self) -> Map<Seq<char>, LspServerConfig> {
        entries::entries_map(self.entries@)
    }
}

/// Whether a server handles a language.
pub open spec fn handles(server: LspServerConfig, language_id: Seq<char>) -> bool {
    exists|i: int| 0 <= i < server.languages@.len() && (#[trigger] server.languages@[i])@ == language_id
}

impl ServerMap {
    #[verifier::type_invariant]
    spec fn labels_are_distinct(self) -> bool {
        entries::distinct_keys(self.entries@)
    }

    pub fn new() -> (r: Self)
        ensures
            r@ == Map::<Seq<char>, LspServerConfig>::empty(),
    {
        ServerMap { entries: Vec::new() }
    }

    /// Sets the server of a label.
    pub fn insert(&mut self, label: String, server: LspServerConfig)
        ensures
            final(self)@ == old(self)@.insert(label@, server),
    {
        proof {
            use_type_invariant(&*self);
        }
        let mut entries: Vec<(String, LspServerConfig)> = Vec::new();
        std::mem::swap(&mut entries, &mut self.entries);
        put_entry(&mut entries, label, server);
        self.entries = entries;
    }

    /// The server of a label.
    pub fn get(&self, label: &str) -> (r: Option<&LspServerConfig>)
        ensures
            match r {
                Some(server) => self@.contains_key(label@) && *server == self@[label@],
                None => !self@.contains_key(label@),
            },
    {
        match find_entry(&self.entries, label) {
            Some(i) => Some(&self.entries[i].1),
            None => None,
        }
    }

    /// The servers with their labels.
    pub fn into_entries(self) -> (r: Vec<(String, LspServerConfig)>)
        ensures
            entries::distinct_keys(r@),
            entries::entries_map(r@) == self@,
    {
        proof {
            use_type_invariant(&self);
        }
        self.entries
    }

    /// Whether there is no server.
    pub fn is_empty(&self) -> (r: bool)
        ensures
            r == (self@ == Map::<Seq<char>, LspServerConfig>::empty()),
    {
        if self.entries.len() > 0 {
            proof {
                use_type_invariant(self);
                entries::lemma_distinct_entry(self.entries@, 0);
                assert(!Map::<Seq<char>, LspServerConfig>::empty().contains_key(
                    self.entries@[0].0@,
                ));
            }
            false
        } else {
            true
        }
    }
}

impl LspServerConfig {
    /// Whether this server handles a language.
    pub fn handles_language(&self, language_id: &str) -> (r: bool)
        ensures
            r == handles(*self, language_id@),
    {
        let mut i: usize = 0;
        while i < self.languages.len()
            invariant
                i <= self.languages@.len(),
                forall|j: int| 0 <= j < i ==> (#[trigger] self.languages@[j])@ != language_id@,
            decreases self.languages@.len() - i,
        {
            if same_text(self.languages[i].as_str(), language_id) {
                return true;
            }
            i = i + 1;
        }
        false
    }

    pub fn new<C: Into<String>>(command: C) -> (r: Self)
        ensures
            call_ensures(<C as Into<String>>::into, (command,), r.command),
            r.args@ == Seq::<String>::empty(),
            r.languages@ == Seq::<String>::empty(),
            r.startup_timeout_ms is None,
    {
        LspServerConfig {
            command: command.into(),
            args: Vec::new(),
            languages: Vec::new(),
            startup_timeout_ms: None,
        }
    }

    pub fn with_language<L: Into<String>>(self, language: L) -> (r: Self)
        ensures
            r.command == self.command,
            r.args == self.args,
            r.startup_timeout_ms == self.startup_timeout_ms,
            r.languages@.len() == self.languages@.len() + 1,
            r.languages@.drop_last() == self.languages@,
            call_ensures(<L as Into<String>>::into, (language,), r.languages@.last()),
    {
        let mut server = self;
        server.languages.push(language.into());
        assert(server.languages@.drop_last() =~= self.languages@);
        server
    }

    /// How long this server may take to start.
    pub fn startup_timeout(&self) -> (r: Duration)
        ensures
            match self.startup_timeout_ms {
                Some(timeout) => r == timeout,
                None => option_duration_ms::duration_nanos(r) == DEFAULT_STARTUP_TIMEOUT_MS
                    * 1_000_000,
            },
    {
        match self.startup_timeout_ms {
            Some(timeout) => timeout,
            None => duration_from_millis(DEFAULT_STARTUP_TIMEOUT_MS),
        }
    }
}

/// Whether two servers are configured alike.
pub open spec fn same_server(a: LspServerConfig, b: LspServerConfig) -> bool {
    &&& a.command@ == b.command@
    &&& text::texts(a.args@) == text::texts(b.args@)
    &&& text::texts(a.languages@) == text::texts(b.languages@)
    &&& option_duration_ms::timeout_nanos(a.startup_timeout_ms)
        == option_duration_ms::timeout_nanos(b.startup_timeout_ms)
}

/// Whether two maps have the same labels, with servers that are configured alike.
pub open spec fn same_servers(
    a: Map<Seq<char>, LspServerConfig>,
    b: Map<Seq<char>, LspServerConfig>,
) -> bool {
    &&& forall|label: Seq<char>|
        #![trigger a.contains_key(label)]
        #![trigger b.contains_key(label)]
        a.contains_key(label) == b.contains_key(label)
    &&& forall|label: Seq<char>| #[trigger]
        a.contains_key(label) ==> same_server(a[label], b[label])
}

impl PartialEq for LspServerConfig {
    fn eq(&self, other: &Self) -> (r: bool) {
        same_text(self.command.as_str(), other.command.as_str()) && same_texts(
            &self.args,
            &other.args,
        ) && same_texts(&self.languages, &other.languages) && same_timeout(
            &self.startup_timeout_ms,
            &other.startup_timeout_ms,
        )
    }
}

impl vstd::std_specs::cmp::PartialEqSpecImpl for LspServerConfig {
    open spec fn obeys_eq_spec() -> bool {
        true
    }

    open spec fn eq_spec(&self, other: &Self) -> bool {
        same_server(*self, *other)
    }
}

impl ServerMap {
    /// Whether every label of `self` is one of `other`, with a server that is configured alike.
    fn within(&self, other: &Self) -> (r: bool)
        ensures
            r == forall|label: Seq<char>| #[trigger]
                self@.contains_key(label) ==> other@.contains_key(label) && same_server(
                    self@[label],
                    other@[label],
                ),
    {
        proof {
            use_type_invariant(self);
            entries::lemma_keys_come_from_entries(self.entries@);
        }
        let mut i: usize = 0;
        while i < self.entries.len()
            invariant
                i <= self.entries@.len(),
                entries::distinct_keys(self.entries@),
                forall|j: int|
                    0 <= j < i ==> other@.contains_key((#[trigger] self.entries@[j]).0@)
                        && same_server(self.entries@[j].1, other@[self.entries@[j].0@]),
            decreases self.entries@.len() - i,
        {
            let alike = match other.get(self.entries[i].0.as_str()) {
                Some(server) => self.entries[i].1 == *server,
                None => false,
            };
            if !alike {
                proof {
                    entries::lemma_distinct_entry(self.entries@, i as int);
                    assert(self@.contains_key(self.entries@[i as int].0@));
                }
                return false;
            }
            i = i + 1;
        }
        proof {
            assert forall|label: Seq<char>| #[trigger] self@.contains_key(label) implies
                other@.contains_key(label) && same_server(self@[label], other@[label]) by {
                let j = choose|j: int|
                    0 <= j < self.entries@.len() && (#[trigger] self.entries@[j]).0@ == label;
                entries::lemma_distinct_entry(self.entries@, j);
            }
        }
        true
    }
}

impl PartialEq for ServerMap {
    fn eq(&self, other: &Self) -> (r: bool) {
        self.within(other) && other.within(self)
    }
}

impl vstd::std_specs::cmp::PartialEqSpecImpl for ServerMap {
    open spec fn obeys_eq_spec() -> bool {
        true
    }

    open spec fn eq_spec(&self, other: &Self) -> bool {
        same_servers(self@, other@)
    }
}

impl PartialEq for LspConfig {
    fn eq(&self, other: &Self) -> (r: bool) {
        self.enabled == other.enabled && self.servers == other.servers && same_timeout(
            &self.diagnostics_timeout_ms,
            &other.diagnostics_timeout_ms,
        )
    }
}

impl vstd::std_specs::cmp::PartialEqSpecImpl for LspConfig {
    open spec fn obeys_eq_spec() -> bool {
        true
    }

    open spec fn eq_spec(&self, other: &Self) -> bool {
        &&& self.enabled == other.enabled
        &&& same_servers(self.servers@, other.servers@)
        &&& option_duration_ms::timeout_nanos(self.diagnostics_timeout_ms)
            == option_duration_ms::timeout_nanos(other.diagnostics_timeout_ms)
    }
}

impl Clone for LspServerConfig {
    fn clone(&self) -> (r: Self)
        ensures
            same_server(r, *self),
    {
        let args = self.args.clone();
        let languages = self.languages.clone();
        assert(args@ =~= self.args@);
        assert(languages@ =~= self.languages@);
        LspServerConfig {
            command: self.command.clone(),
            args,
            languages,
            startup_timeout_ms: self.startup_timeout_ms,
        }
    }
}

impl Clone for ServerMap {
    fn clone(&self) -> (r: Self)
        ensures
            same_servers(r@, self@),
    {
        proof {
            use_type_invariant(self);
        }
        let servers = &self.entries;
        let mut copies: Vec<(String, LspServerConfig)> = Vec::new();
        let mut i: usize = 0;
        assert(servers@.take(0) =~= Seq::<(String, LspServerConfig)>::empty());
        while i < servers.len()
            invariant
                i <= servers@.len(),
                copies@.len() == i,
                forall|j: int|
                    0 <= j < i ==> (#[trigger] copies@[j]).0@ == servers@[j].0@,
                same_servers(
                    entries::entries_map(copies@),
                    entries::entries_map(servers@.take(i as int)),
                ),
            decreases servers@.len() - i,
        {
            let ghost before = copies@;
            copies.push((servers[i].0.clone(), servers[i].1.clone()));
            proof {
                assert(copies@.drop_last() =~= before);
                assert(servers@.take(i + 1).drop_last() =~= servers@.take(i as int));
                assert(entries::entries_map(copies@).dom() =~= entries::entries_map(
                    servers@.take(i + 1),
                ).dom());
            }
            i = i + 1;
        }
        proof {
            assert(servers@.take(i as int) =~= servers@);
            assert forall|a: int, b: int| 0 <= a < b < copies@.len() implies (
            #[trigger] copies@[a]).0@ != (#[trigger] copies@[b]).0@ by {
                assert(servers@[a].0@ != servers@[b].0@);
            }
        }
        ServerMap { entries: copies }
    }
}

impl Clone for LspConfig {
    fn clone(&self) -> (r: Self)
        ensures
            r.enabled == self.enabled,
            same_servers(r.servers@, self.servers@),
            r.diagnostics_timeout_ms == self.diagnostics_timeout_ms,
    {
        LspConfig {
            enabled: self.enabled,
            servers: self.servers.clone(),
            diagnostics_timeout_ms: self.diagnostics_timeout_ms,
        }
    }
}

impl Default for LspConfig {
    fn default() -> (r: Self)
        ensures
            !r.enabled,
            r.servers@ == Map::<Seq<char>, LspServerConfig>::empty(),
            r.diagnostics_timeout_ms is None,
    {
        LspConfig { enabled: false, servers: ServerMap::new(), diagnostics_timeout_ms: None }
    }
}

/// Whether `found` lists the servers for a language: each of them once, and no other.
pub open spec fn lists_servers_for(
    found: Seq<(&str, &LspServerConfig)>,
    servers: Map<Seq<char>, LspServerConfig>,
    language_id: Seq<char>,
) -> bool {
    &&& forall|i: int|
        0 <= i < found.len() ==> {
            &&& servers.contains_key((#[trigger] found[i]).0@)
            &&& servers[found[i].0@] == *found[i].1
            &&& handles(*found[i].1, language_id)
        }
    &&& forall|i: int, j: int|
        0 <= i < j < found.len() ==> (#[trigger] found[i]).0@ != (#[trigger] found[j]).0@
    &&& forall|label: Seq<char>| #[trigger]
        servers.contains_key(label) && handles(servers[label], language_id) ==> exists|i: int|
            0 <= i < found.len() && (#[trigger] found[i]).0@ == label
}

impl LspConfig {
    /// Servers applicable to `language_id` (e.g. `"python"`, `"rust"`).
    pub fn servers_for_language(&self, language_id: &str) -> (r: Vec<(&str, &LspServerConfig)>)
        ensures
            lists_servers_for(r@, self.servers@, language_id@),
    {
        let mut found: Vec<(&str, &LspServerConfig)> = Vec::new();
        let servers = &self.servers.entries;
        proof {
            use_type_invariant(&self.servers);
        }
        let ghost mut picked: Seq<int> = Seq::empty();
        let mut n: usize = 0;
        while n < servers.len()
            invariant
                n <= servers@.len(),
                picked.len() == found@.len(),
                forall|i: int|
                    #![trigger picked[i]]
                    #![trigger found@[i]]
                    0 <= i < picked.len() ==> {
                        &&& 0 <= picked[i] < n
                        &&& found@[i].0@ == servers@[picked[i]].0@
                        &&& *found@[i].1 == servers@[picked[i]].1
                        &&& handles(servers@[picked[i]].1, language_id@)
                    },
                forall|i: int, j: int| 0 <= i < j < picked.len() ==> picked[i] < picked[j],
                forall|k: int|
                    0 <= k < n && handles((#[trigger] servers@[k]).1, language_id@)
                        ==> picked.contains(k),
            decreases servers@.len() - n,
        {
            let ghost before = picked;
            if servers[n].1.handles_language(language_id) {
                found.push((servers[n].0.as_str(), &servers[n].1));
                proof {
                    picked = picked.push(n as int);
                    assert(picked[before.len() as int] == n);
                }
            }
            proof {
                assert forall|k: int|
                    0 <= k < n + 1 && handles(
                        (#[trigger] servers@[k]).1,
                        language_id@,
                    ) implies picked.contains(k) by {
                    if k < n {
                        let i = choose|i: int| 0 <= i < before.len() && before[i] == k;
                        assert(picked[i] == k);
                    }
                }
            }
            n = n + 1;
        }
        proof {
            let map = self.servers@;
            assert forall|i: int| 0 <= i < found@.len() implies {
                &&& map.contains_key((#[trigger] found@[i]).0@)
                &&& map[found@[i].0@] == *found@[i].1
                &&& handles(*found@[i].1, language_id@)
            } by {
                entries::lemma_distinct_entry(servers@, picked[i]);
            }
            assert forall|i: int, j: int| 0 <= i < j < found@.len() implies (
            #[trigger] found@[i]).0@ != (#[trigger] found@[j]).0@ by {
                assert(picked[i] < picked[j]);
                assert(servers@[picked[i]].0@ != servers@[picked[j]].0@);
            }
            entries::lemma_keys_come_from_entries(servers@);
            assert forall|label: Seq<char>| #[trigger]
                map.contains_key(label) && handles(map[label], language_id@) implies exists|i: int|
                0 <= i < found@.len() && (#[trigger] found@[i]).0@ == label by {
                let k = choose|k: int|
                    0 <= k < servers@.len() && (#[trigger] servers@[k]).0@ == label;
                entries::lemma_distinct_entry(servers@, k);
                let i = choose|i: int| 0 <= i < picked.len() && picked[i] == k;
                assert(found@[i].0@ == label);
            }
        }
        found
    }
}

} // verus!
