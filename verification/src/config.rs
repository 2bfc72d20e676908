//! Application settings, the saved configuration, and merging the
//! connections found in `~/.ssh/config` into it.
use vstd::prelude::*;
use crate::connection::{clone_connections, Connection};
use crate::path::{join_path, join_path_spec};
use crate::trusted::home_dir;

verus! {

broadcast use vstd::string::group_string_axioms;

/// Application settings.
#[derive(Debug)]
pub struct AppSettings {
    /// Interval between resource refreshes, in milliseconds.
    pub refresh_interval_ms: u64,
    /// Editor command.
    pub editor: String,
    /// Theme name.
    pub theme: String,
    /// Connection timeout, in seconds.
    pub connection_timeout_secs: u64,
}

impl Clone for AppSettings {
    fn clone(&self) -> (r: Self)
        ensures
            r == *self,
    {
        AppSettings {
            refresh_interval_ms: self.refresh_interval_ms,
            editor: self.editor.clone(),
            theme: self.theme.clone(),
            connection_timeout_secs: self.connection_timeout_secs,
        }
    }
}

impl Default for AppSettings {
    /// Refresh every 3000 ms, edit with `vim`, the `default` theme, time out
    /// connections after 10 s.
    fn default() -> (r: Self)
        ensures
            r.refresh_interval_ms == 3000,
            r.editor@ == "vim"@,
            r.theme@ == "default"@,
            r.connection_timeout_secs == 10,
    {
        AppSettings {
            refresh_interval_ms: 3000,
            editor: String::from_str("vim"),
            theme: String::from_str("default"),
            connection_timeout_secs: 10,
        }
    }
}

/// The saved configuration.
#[derive(Debug)]
pub struct AppConfig {
    pub connections: Vec<Connection>,
    pub settings: AppSettings,
}

impl Clone for AppConfig {
    fn clone(&self) -> (r: Self)
        ensures
            r.connections@ == self.connections@,
            r.settings == self.settings,
    {
        AppConfig {
            connections: clone_connections(&self.connections),
            settings: self.settings.clone(),
        }
    }
}

impl Default for AppConfig {
    /// No connections, default settings.
    fn default() -> (r: Self)
        ensures
            r.connections@.len() == 0,
            r.settings.refresh_interval_ms == 3000,
            r.settings.editor@ == "vim"@,
            r.settings.theme@ == "default"@,
            r.settings.connection_timeout_secs == 10,
    {
        AppConfig { connections: Vec::new(), settings: AppSettings::default() }
    }
}

/// Two connections go to the same account: same host and same user name.
pub open spec fn same_account(a: Connection, b: Connection) -> bool {
    a.host@ == b.host@ && a.username@ == b.username@
}

/// Some connection of `conns` goes to the account of `c`.
pub open spec fn has_account(conns: Seq<Connection>, c: Connection) -> bool {
    exists|i: int| 0 <= i < conns.len() && same_account(#[trigger] conns[i], c)
}

/// `conns` followed, in order, by those of `incoming` whose account is not
/// already there (counting the ones added before them).
pub open spec fn merge_spec(conns: Seq<Connection>, incoming: Seq<Connection>) -> Seq<Connection>
    decreases incoming.len(),
{
    if incoming.len() == 0 {
        conns
    } else {
        let c = incoming[0];
        merge_spec(
            if has_account(conns, c) {
                conns
            } else {
                conns.push(c)
            },
            incoming.drop_first(),
        )
    }
}

/// No two connections of `conns` go to the same account.
pub open spec fn accounts_distinct(conns: Seq<Connection>) -> bool {
    forall|i: int, j: int|
        0 <= i < conns.len() && 0 <= j < conns.len() && i != j ==> !same_account(
            #[trigger] conns[i],
            #[trigger] conns[j],
        )
}

/// The path of the configuration file under a home directory (`"."` when
/// there is none): `<home>/.oh-my-sftp/config.json`.
pub open spec fn config_path_spec(home: Option<Seq<char>>) -> Seq<char> {
    let base = match home {
        Some(h) => h,
        None => "."@,
    };
    join_path_spec(join_path_spec(base, ".oh-my-sftp"@), "config.json"@)
}

fn has_account_exec(conns: &Vec<Connection>, c: &Connection) -> (r: bool)
    ensures
        r == has_account(conns@, *c),
{
    let mut i: usize = 0;
    while i < conns.len()
        invariant
            i <= conns.len(),
            forall|k: int| 0 <= k < i ==> !same_account(#[trigger] conns@[k], *c),
        decreases conns.len() - i,
    {
        if conns[i].host == c.host && conns[i].username == c.username {
            assert(same_account(conns@[i as int], *c));
            return true;
        }
        i += 1;
    }
    false
}

/// Adds the connections found in `~/.ssh/config` to the configuration,
/// leaving out each one whose host and user name are already there.
pub fn merge_ssh_connections(config: &mut AppConfig, ssh_connections: Vec<Connection>)
    ensures
        final(config).connections@ == merge_spec(old(config).connections@, ssh_connections@),
        final(config).settings == old(config).settings,
{
    let mut i: usize = 0;
    assert(ssh_connections@.skip(0) =~= ssh_connections@);
    while i < ssh_connections.len()
        invariant
            i <= ssh_connections.len(),
            config.settings == old(config).settings,
            merge_spec(old(config).connections@, ssh_connections@) == merge_spec(
                config.connections@,
                ssh_connections@.skip(i as int),
            ),
        decreases ssh_connections.len() - i,
    {
        let c = &ssh_connections[i];
        assert(ssh_connections@.skip(i as int).drop_first() =~= ssh_connections@.skip(i + 1));
        if !has_account_exec(&config.connections, c) {
            config.connections.push(c.clone());
        }
        i += 1;
    }
    assert(ssh_connections@.skip(ssh_connections.len() as int) =~= Seq::<Connection>::empty());
}

/// The configuration file under the home directory `home`.
pub fn config_path_in(home: &Option<String>) -> (r: String)
    ensures
        r@ == config_path_spec(home.deep_view()),
{
    let dir = match home {
        Some(h) => join_path(h.as_str(), ".oh-my-sftp"),
        None => join_path(".", ".oh-my-sftp"),
    };
    join_path(dir.as_str(), "config.json")
}

/// The configuration file, `~/.oh-my-sftp/config.json`, under the home
/// directory the machine reports (the current directory when it reports none).
pub fn config_path() -> (r: String)
    ensures
        exists|home: Option<Seq<char>>| r@ == config_path_spec(home),
{
    let home = home_dir();
    config_path_in(&home)
}

// ---------------------------------------------------------------------------
// Laws of merging
// ---------------------------------------------------------------------------

proof fn lemma_merge_extends(conns: Seq<Connection>, incoming: Seq<Connection>)
    ensures
        merge_spec(conns, incoming).len() >= conns.len(),
        forall|i: int| 0 <= i < conns.len() ==> #[trigger] merge_spec(conns, incoming)[i] == conns[i],
    decreases incoming.len(),
{
    if incoming.len() > 0 {
        let c = incoming[0];
        let next = if has_account(conns, c) {
            conns
        } else {
            conns.push(c)
        };
        lemma_merge_extends(next, incoming.drop_first());
        assert forall|i: int| 0 <= i < conns.len() implies #[trigger] merge_spec(conns, incoming)[i]
            == conns[i] by {
            assert(next[i] == conns[i]);
        }
    }
}

proof fn lemma_has_account_extends(conns: Seq<Connection>, incoming: Seq<Connection>, c: Connection)
    requires
        has_account(conns, c),
    ensures
        has_account(merge_spec(conns, incoming), c),
{
    lemma_merge_extends(conns, incoming);
    let i = choose|i: int| 0 <= i < conns.len() && same_account(#[trigger] conns[i], c);
    assert(merge_spec(conns, incoming)[i] == conns[i]);
}

proof fn lemma_merge_covers(conns: Seq<Connection>, incoming: Seq<Connection>)
    ensures
        forall|k: int| 0 <= k < incoming.len() ==> has_account(merge_spec(conns, incoming), #[trigger] incoming[k]),
    decreases incoming.len(),
{
    if incoming.len() > 0 {
        let c = incoming[0];
        let next = if has_account(conns, c) {
            conns
        } else {
            conns.push(c)
        };
        assert(has_account(next, c)) by {
            if !has_account(conns, c) {
                assert(same_account(next[conns.len() as int], c));
            }
        }
        lemma_has_account_extends(next, incoming.drop_first(), c);
        lemma_merge_covers(next, incoming.drop_first());
        assert forall|k: int| 0 <= k < incoming.len() implies has_account(
            merge_spec(conns, incoming),
            #[trigger] incoming[k],
        ) by {
            if k > 0 {
                assert(incoming[k] == incoming.drop_first()[k - 1]);
            }
        }
    }
}

proof fn lemma_merge_known(conns: Seq<Connection>, incoming: Seq<Connection>)
    requires
        forall|k: int| 0 <= k < incoming.len() ==> has_account(conns, #[trigger] incoming[k]),
    ensures
        merge_spec(conns, incoming) == conns,
    decreases incoming.len(),
{
    if incoming.len() > 0 {
        assert(has_account(conns, incoming[0]));
        assert forall|k: int| 0 <= k < incoming.drop_first().len() implies has_account(
            conns,
            #[trigger] incoming.drop_first()[k],
        ) by {
            assert(incoming.drop_first()[k] == incoming[k + 1]);
        }
        lemma_merge_known(conns, incoming.drop_first());
    }
}

/// Merging the same connections a second time changes nothing.
pub proof fn law_merge_idempotent(conns: Seq<Connection>, incoming: Seq<Connection>)
    ensures
        merge_spec(merge_spec(conns, incoming), incoming) == merge_spec(conns, incoming),
{
    lemma_merge_covers(conns, incoming);
    lemma_merge_known(merge_spec(conns, incoming), incoming);
}

/// Merging keeps the existing connections, in place, as a prefix, and adds a
/// connection for every account of the incoming ones that was not there.
pub proof fn law_merge_keeps_and_covers(conns: Seq<Connection>, incoming: Seq<Connection>)
    ensures
        merge_spec(conns, incoming).len() >= conns.len(),
        forall|i: int| 0 <= i < conns.len() ==> #[trigger] merge_spec(conns, incoming)[i] == conns[i],
        forall|k: int| 0 <= k < incoming.len() ==> has_account(merge_spec(conns, incoming), #[trigger] incoming[k]),
        merge_spec(conns, incoming).len() <= conns.len() + incoming.len(),
{
    lemma_merge_extends(conns, incoming);
    lemma_merge_covers(conns, incoming);
    lemma_merge_len(conns, incoming);
}

proof fn lemma_merge_len(conns: Seq<Connection>, incoming: Seq<Connection>)
    ensures
        merge_spec(conns, incoming).len() <= conns.len() + incoming.len(),
    decreases incoming.len(),
{
    if incoming.len() > 0 {
        let c = incoming[0];
        let next = if has_account(conns, c) {
            conns
        } else {
            conns.push(c)
        };
        lemma_merge_len(next, incoming.drop_first());
    }
}

/// When no two saved connections share an account, none do after merging.
pub proof fn law_merge_keeps_accounts_distinct(conns: Seq<Connection>, incoming: Seq<Connection>)
    requires
        accounts_distinct(conns),
    ensures
        accounts_distinct(merge_spec(conns, incoming)),
    decreases incoming.len(),
{
    if incoming.len() > 0 {
        let c = incoming[0];
        let next = if has_account(conns, c) {
            conns
        } else {
            conns.push(c)
        };
        assert(accounts_distinct(next)) by {
            if !has_account(conns, c) {
                assert forall|i: int, j: int|
                    0 <= i < next.len() && 0 <= j < next.len() && i != j implies !same_account(
                    #[trigger] next[i],
                    #[trigger] next[j],
                ) by {
                    if i == conns.len() {
                        assert(!same_account(conns[j], c));
                    } else if j == conns.len() {
                        assert(!same_account(conns[i], c));
                    } else {
                        assert(next[i] == conns[i] && next[j] == conns[j]);
                    }
                }
            }
        }
        law_merge_keeps_accounts_distinct(next, incoming.drop_first());
    }
}

} // verus!
