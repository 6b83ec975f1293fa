//! Configuration data: workspaces, their database connections, and the
//! inference model settings, together with the flattened connection list the
//! user picks from.
//!
//! Reading and parsing the configuration file is the caller's business; this
//! module holds the plain data, its documented defaults, and the pure
//! selection helpers.

use vstd::prelude::*;

verus! {

use vstd::string::StringExecFns;

/// Top-level configuration: a set of workspaces plus inference settings.
pub struct PeekConfig {
    pub workspaces: Vec<Workspace>,
    pub ai: AIConfig,
}

/// Which model to run and where to reach it.
pub struct AIConfig {
    pub model: String,
    pub url: String,
}

/// A named group of database connections.
pub struct Workspace {
    pub name: String,
    pub connections: Vec<DatabaseConnection>,
}

/// One database connection entry.
pub struct DatabaseConnection {
    pub name: String,
    pub color: String,
    pub url: String,
    pub ssh: Option<SSHConfig>,
}

/// Optional SSH tunnel settings for a connection.
pub struct SSHConfig {
    pub host: String,
    pub port: u16,
    pub username: String,
    pub password: Option<String>,
    pub ssh_key: Option<String>,
}

impl Default for AIConfig {
    /// The fallback model name and inference endpoint used when no
    /// configuration file provides them.
    fn default() -> (r: Self)
        ensures
            r.model@ == "qwen3:8b"@,
            r.url@ == "http://localhost:11434"@,
    {
        AIConfig {
            model: String::from_str("qwen3:8b"),
            url: String::from_str("http://localhost:11434"),
        }
    }
}

impl Default for PeekConfig {
    /// No workspaces, default inference settings.
    fn default() -> (r: Self)
        ensures
            r.workspaces@.len() == 0,
            r.ai.model@ == "qwen3:8b"@,
            r.ai.url@ == "http://localhost:11434"@,
    {
        PeekConfig { workspaces: Vec::new(), ai: AIConfig::default() }
    }
}

impl Default for Workspace {
    fn default() -> (r: Self)
        ensures
            r.name@ == Seq::<char>::empty(),
            r.connections@.len() == 0,
    {
        Workspace { name: String::new(), connections: Vec::new() }
    }
}

impl Default for DatabaseConnection {
    fn default() -> (r: Self)
        ensures
            r.name@ == Seq::<char>::empty(),
            r.color@ == Seq::<char>::empty(),
            r.url@ == Seq::<char>::empty(),
            r.ssh is None,
    {
        DatabaseConnection {
            name: String::new(),
            color: String::new(),
            url: String::new(),
            ssh: None,
        }
    }
}

impl Default for SSHConfig {
    fn default() -> (r: Self)
        ensures
            r.host@ == Seq::<char>::empty(),
            r.port == 0,
            r.username@ == Seq::<char>::empty(),
            r.password is None,
            r.ssh_key is None,
    {
        SSHConfig {
            host: String::new(),
            port: 0,
            username: String::new(),
            password: None,
            ssh_key: None,
        }
    }
}

/// One selectable connection: which workspace it came from, its own name,
/// and the connection URL.
pub struct ConnectionInfo {
    pub workspace_name: String,
    pub connection_name: String,
    pub url: String,
}

impl View for ConnectionInfo {
    type V = (Seq<char>, Seq<char>, Seq<char>);

    open spec fn view(&self) -> (Seq<char>, Seq<char>, Seq<char>) {
        (self.workspace_name@, self.connection_name@, self.url@)
    }
}

impl DeepView for ConnectionInfo {
    type V = (Seq<char>, Seq<char>, Seq<char>);

    open spec fn deep_view(&self) -> (Seq<char>, Seq<char>, Seq<char>) {
        self.view()
    }
}

impl ConnectionInfo {
    /// The label shown to the user: `[workspace] connection`.
    pub fn display_name(&self) -> (r: String)
        ensures
            r@ == "["@ + self.workspace_name@ + "] "@ + self.connection_name@,
    {
        let mut s = String::from_str("[");
        s.append(self.workspace_name.as_str());
        s.append("] ");
        s.append(self.connection_name.as_str());
        s
    }

    pub fn connection_url(&self) -> (r: &str)
        ensures
            r@ == self.url@,
    {
        self.url.as_str()
    }
}

/// The connection entries of one workspace, each tagged with the workspace
/// name, in the order they are configured.
pub open spec fn spec_workspace_infos(w: &Workspace) -> Seq<(Seq<char>, Seq<char>, Seq<char>)> {
    Seq::new(
        w.connections@.len(),
        |i: int| (w.name@, w.connections@[i].name@, w.connections@[i].url@),
    )
}

/// All connection entries of all workspaces, flattened in configuration
/// order.
pub open spec fn spec_connection_infos(ws: Seq<Workspace>) -> Seq<(Seq<char>, Seq<char>, Seq<char>)>
    decreases ws.len(),
{
    if ws.len() == 0 {
        Seq::empty()
    } else {
        spec_connection_infos(ws.drop_last()) + spec_workspace_infos(&ws.last())
    }
}

/// Flattens the configured workspaces into the list of selectable
/// connections, in configuration order.
pub fn connection_choices(conf: &PeekConfig) -> (r: Vec<ConnectionInfo>)
    ensures
        r.deep_view() == spec_connection_infos(conf.workspaces@),
{
    let mut r: Vec<ConnectionInfo> = Vec::new();
    let ws = &conf.workspaces;
    let mut i: usize = 0;
    while i < ws.len()
        invariant
            i <= ws@.len(),
            r.deep_view() == spec_connection_infos(ws@.take(i as int)),
        decreases ws@.len() - i,
    {
        let w = &ws[i];
        let mut j: usize = 0;
        while j < w.connections.len()
            invariant
                i < ws@.len(),
                j <= w.connections@.len(),
                w == &ws@[i as int],
                r.deep_view() == spec_connection_infos(ws@.take(i as int))
                    + spec_workspace_infos(w).take(j as int),
            decreases w.connections@.len() - j,
        {
            let c = &w.connections[j];
            let ghost r0 = r.deep_view();
            let ghost rv0 = r@;
            r.push(ConnectionInfo {
                workspace_name: w.name.clone(),
                connection_name: c.name.clone(),
                url: c.url.clone(),
            });
            proof {
                let pre = spec_connection_infos(ws@.take(i as int));
                let wsi = spec_workspace_infos(w);
                assert(r0 == pre + wsi.take(j as int));
                assert(rv0.len() == r0.len());
                assert(r@ == rv0.push(r@[rv0.len() as int]));
                assert(r.deep_view().len() == pre.len() + j + 1);
                assert(r.deep_view()[pre.len() + j] == wsi[j as int]);
                assert(forall|k: int| 0 <= k < pre.len() + j
                    ==> r.deep_view()[k] == (pre + wsi.take(j as int))[k]);
                assert(r.deep_view() =~= pre + wsi.take(j + 1));
            }
            j = j + 1;
        }
        proof {
            assert(spec_workspace_infos(w).take(j as int) =~= spec_workspace_infos(w));
            assert(ws@.take(i + 1 as int).drop_last() =~= ws@.take(i as int));
            assert(r.deep_view() =~= spec_connection_infos(ws@.take(i + 1 as int)));
        }
        i = i + 1;
    }
    proof {
        assert(ws@.take(ws@.len() as int) =~= ws@);
    }
    r
}

} // verus!
