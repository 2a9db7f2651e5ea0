//! Text of an OpenSSH client configuration for every target of the
//! catalogue: one `Host` entry per host, jump hosts chained with
//! `ProxyJump`, and database shortcuts that open a `mysql` client.

use crate::connect_info::ConnectInfo;
use crate::ssh_config::SshConfig;
use crate::text::{decimal, push_padded};
use vstd::prelude::*;

verus! {

/// The banner written above an entry that carries a comment.
pub open spec fn banner_text(name: Seq<char>) -> Seq<char> {
    "\n#==========================================================\n# "@ + name + "\n#=========================================================="@
}

/// The `ProxyJump` line, when there is a jump host.
pub open spec fn jump_text(jump_host: Option<Seq<char>>) -> Seq<char> {
    match jump_host {
        Some(j) => "    ProxyJump "@ + j + "\n"@,
        None => seq![],
    }
}

/// One `Host` entry.
pub open spec fn item_text(
    name: Seq<char>,
    ci: ConnectInfo,
    jump_host: Option<Seq<char>>,
    comment: bool,
) -> Seq<char> {
    (if comment { banner_text(name) } else { seq![] }) + "\nHost "@ + name + "\n    HostName "@
        + ci.host@ + "\n    Port "@ + decimal(ci.spec_port() as nat) + "\n    User "@
        + ci.spec_user() + "\n    IdentityFile "@ + ci.spec_identity_file() + "\n"@ + jump_text(
        jump_host,
    )
}

/// The view of an optional string.
pub open spec fn opt_text(o: Option<String>) -> Option<Seq<char>> {
    match o {
        Some(s) => Some(s@),
        None => None,
    }
}

/// Appends `s` to `out`.
fn push_str(out: &mut String, s: &str)
    ensures
        final(out)@ == old(out)@ + s@,
{
    out.append(s);
}

/// Generates one `Host` entry named `name` for the host `connect_info`,
/// reached through `jump_host` when one is given, with a banner above it
/// when `comment` is set.
pub fn generate_ssh_config_item(
    name: &str,
    connect_info: &ConnectInfo,
    jump_host: Option<String>,
    comment: bool,
) -> (r: String)
    ensures
        r@ == item_text(name@, *connect_info, opt_text(jump_host), comment),
{
    let host_name = connect_info.host();
    let port = connect_info.port();
    let user = connect_info.user();
    let identity_file = connect_info.identity_file();
    let mut config = String::new();
    if comment {
        push_str(&mut config, "\n#==========================================================\n# ");
        push_str(&mut config, name);
        push_str(&mut config, "\n#==========================================================");
    }
    push_str(&mut config, "\nHost ");
    push_str(&mut config, name);
    push_str(&mut config, "\n    HostName ");
    push_str(&mut config, host_name.as_str());
    push_str(&mut config, "\n    Port ");
    push_padded(&mut config, port as u64, 1);
    push_str(&mut config, "\n    User ");
    push_str(&mut config, user.as_str());
    push_str(&mut config, "\n    IdentityFile ");
    push_str(&mut config, identity_file.as_str());
    push_str(&mut config, "\n");
    if let Some(j) = jump_host {
        push_str(&mut config, "    ProxyJump ");
        push_str(&mut config, j.as_str());
        push_str(&mut config, "\n");
    }
    proof {
        assert(config@ =~= item_text(name@, *connect_info, opt_text(jump_host), comment));
    }
    config
}

/// The jump hosts of a target, outermost first.
pub open spec fn tunnel_seq(entry: SshConfig) -> Seq<ConnectInfo> {
    match entry.tunnels {
        Some(v) => v@,
        None => seq![],
    }
}

/// The name of the `i`-th of `count` jump hosts of target `name`: numbered
/// only when there are several.
pub open spec fn bastion_name(name: Seq<char>, i: nat, count: nat) -> Seq<char> {
    name + "_bastion"@ + (if count > 1 { "_"@ + decimal(i) } else { seq![] })
}

/// The host to jump through once the first `k` of `count` jump hosts are
/// chained.
pub open spec fn jump_after(name: Seq<char>, count: nat, k: nat) -> Option<Seq<char>> {
    if k == 0 {
        None
    } else {
        Some(bastion_name(name, (k - 1) as nat, count))
    }
}

/// The entries of the first `k` jump hosts, the innermost first: each one
/// jumps through the one before it.
pub open spec fn tunnel_text(name: Seq<char>, tunnels: Seq<ConnectInfo>, k: nat) -> Seq<char>
    decreases k,
{
    if k == 0 || k > tunnels.len() {
        seq![]
    } else {
        item_text(
            bastion_name(name, (k - 1) as nat, tunnels.len()),
            tunnels[k - 1],
            jump_after(name, tunnels.len(), (k - 1) as nat),
            false,
        ) + tunnel_text(name, tunnels, (k - 1) as nat)
    }
}

/// A database shortcut: an entry on the target's host that opens a `mysql`
/// client on database host `db_host`.
pub open spec fn db_text(
    name: Seq<char>,
    entry: SshConfig,
    jump_host: Option<Seq<char>>,
    db_host: Seq<char>,
) -> Seq<char> {
    item_text(name, entry.connect_info, jump_host, true) + "    RemoteCommand mysql -h "@
        + db_host + " -P "@ + decimal(entry.spec_db_port() as nat) + " -u "@
        + entry.spec_db_user() + " -p"@ + entry.spec_db_password() + " "@
        + entry.spec_db_name() + "\n"@ + "    RequestTTY yes\n"@
}

/// Everything generated for the target `entry` known as `name`: its own
/// entry, its jump hosts, a shortcut to the database when one is set, and
/// one to the read replica when it differs from the primary host.
pub open spec fn entry_text(name: Seq<char>, entry: SshConfig) -> Seq<char> {
    let ts = tunnel_seq(entry);
    let jump = jump_after(name, ts.len(), ts.len());
    item_text(name, entry.connect_info, jump, true) + tunnel_text(name, ts, ts.len()) + (if entry.spec_db_host().len() > 0 {
        db_text(name + "_db"@, entry, jump, entry.spec_db_host())
    } else {
        seq![]
    }) + (if entry.spec_db_host() != entry.spec_db_host_reader() {
        db_text(name + "_db_reader"@, entry, jump, entry.spec_db_host_reader())
    } else {
        seq![]
    })
}

/// The whole configuration for the first `k` targets, in order.
pub open spec fn config_text(entries: Seq<(String, SshConfig)>, k: nat) -> Seq<char>
    decreases k,
{
    if k == 0 || k > entries.len() {
        seq![]
    } else {
        config_text(entries, (k - 1) as nat) + entry_text(entries[k - 1].0@, entries[k - 1].1)
    }
}

fn bastion(name: &str, i: usize, count: usize) -> (r: String)
    ensures
        r@ == bastion_name(name@, i as nat, count as nat),
{
    let mut r = String::from_str(name);
    push_str(&mut r, "_bastion");
    if count > 1 {
        push_str(&mut r, "_");
        push_padded(&mut r, i as u64, 1);
    } else {
        assert(r@ + Seq::<char>::empty() == r@);
    }
    r
}

fn db_shortcut(name: &str, entry: &SshConfig, jump_host: Option<String>, db_host: &str) -> (r: String)
    ensures
        r@ == db_text(name@, *entry, opt_text(jump_host), db_host@),
{
    let mut config = generate_ssh_config_item(name, &entry.connect_info, jump_host, true);
    push_str(&mut config, "    RemoteCommand mysql -h ");
    push_str(&mut config, db_host);
    push_str(&mut config, " -P ");
    push_padded(&mut config, entry.db_port() as u64, 1);
    push_str(&mut config, " -u ");
    push_str(&mut config, entry.db_user().as_str());
    push_str(&mut config, " -p");
    push_str(&mut config, entry.db_password().as_str());
    push_str(&mut config, " ");
    push_str(&mut config, entry.db_name().as_str());
    push_str(&mut config, "\n");
    push_str(&mut config, "    RequestTTY yes\n");
    config
}

fn clone_opt(o: &Option<String>) -> (r: Option<String>)
    ensures
        opt_text(r) == opt_text(*o),
{
    match o {
        Some(s) => Some(s.clone()),
        None => None,
    }
}

/// Generates everything for the target `entry` known as `name`.
pub fn generate_ssh_config_entry(name: &str, entry: &SshConfig) -> (r: String)
    ensures
        r@ == entry_text(name@, *entry),
{
    let ghost ts = tunnel_seq(*entry);
    let mut jump_host: Option<String> = None;
    let mut block = String::new();
    if let Some(tunnels) = &entry.tunnels {
        let n = tunnels.len();
        let mut i: usize = 0;
        while i < n
            invariant
                ts == tunnels@,
                n == ts.len(),
                i <= n,
                block@ == tunnel_text(name@, ts, i as nat),
                opt_text(jump_host) == jump_after(name@, n as nat, i as nat),
            decreases n - i,
        {
            let bname = bastion(name, i, n);
            let mut config = generate_ssh_config_item(bname.as_str(), &tunnels[i], jump_host, false);
            push_str(&mut config, block.as_str());
            block = config;
            jump_host = Some(bname);
            i = i + 1;
        }
    }
    let mut out = generate_ssh_config_item(name, &entry.connect_info, clone_opt(&jump_host), true);
    push_str(&mut out, block.as_str());
    let db_host = entry.db_host();
    let reader = entry.db_host_reader();
    let ghost head = out@;
    if db_host.unicode_len() > 0 {
        let mut dname = String::from_str(name);
        push_str(&mut dname, "_db");
        let d = db_shortcut(dname.as_str(), entry, clone_opt(&jump_host), db_host.as_str());
        push_str(&mut out, d.as_str());
    }
    let ghost mid = out@;
    if db_host != reader {
        let mut dname = String::from_str(name);
        push_str(&mut dname, "_db_reader");
        let d = db_shortcut(dname.as_str(), entry, clone_opt(&jump_host), reader.as_str());
        push_str(&mut out, d.as_str());
    }
    proof {
        assert(out@ =~= entry_text(name@, *entry));
    }
    out
}

/// Generates the client configuration for every target, in the order
/// given; each target comes with the name it is known by.
pub fn generate_ssh_config(entries: &Vec<(String, SshConfig)>) -> (r: String)
    ensures
        r@ == config_text(entries@, entries@.len()),
{
    let mut out = String::new();
    let mut k: usize = 0;
    while k < entries.len()
        invariant
            k <= entries@.len(),
            out@ == config_text(entries@, k as nat),
        decreases entries@.len() - k,
    {
        let e = generate_ssh_config_entry(entries[k].0.as_str(), &entries[k].1);
        push_str(&mut out, e.as_str());
        k = k + 1;
    }
    out
}

} // verus!
