//! Runtime configuration shared by all node roles.

use vstd::prelude::*;
use vstd::string::*;

verus! {

/// Runtime configuration shared by all node roles.
pub struct NetworkConfig {
    pub login_host: String,
    pub login_port: u16,
    pub supernode_host: String,
    pub supernode_port: u16,
    pub relay_host: String,
    pub relay_port: u16,
    pub supernode_cache_size: usize,
    pub peer_cluster_limit: usize,
    pub database_url: String,
    pub known_supernodes: Vec<String>,
}

/// The database location used when the configuration file names none.
pub open spec fn spec_default_database_url() -> Seq<char> {
    "sqlite://./data/skype-rs.db"@
}

/// Returns the database location used when the configuration file names none.
pub fn default_database_url() -> (url: String)
    ensures
        url@ == spec_default_database_url(),
{
    String::from_str("sqlite://./data/skype-rs.db")
}

/// The character of the decimal digit `d`.
pub open spec fn digit_char(d: nat) -> char {
    if d == 0 { '0' }
    else if d == 1 { '1' }
    else if d == 2 { '2' }
    else if d == 3 { '3' }
    else if d == 4 { '4' }
    else if d == 5 { '5' }
    else if d == 6 { '6' }
    else if d == 7 { '7' }
    else if d == 8 { '8' }
    else { '9' }
}

/// The decimal representation of `n`, without sign or leading zeros.
pub open spec fn decimal(n: nat) -> Seq<char>
    decreases n,
{
    if n < 10 {
        seq![digit_char(n)]
    } else {
        decimal(n / 10).push(digit_char(n % 10))
    }
}

/// Appends the decimal representation of `n` to `s`.
pub fn push_decimal(s: &mut String, n: u64)
    ensures
        final(s)@ == old(s)@ + decimal(n as nat),
    decreases n,
{
    if n >= 10 {
        push_decimal(s, n / 10);
    }
    let d = n % 10;
    let digit: &str = if d == 0 { "0" }
        else if d == 1 { "1" }
        else if d == 2 { "2" }
        else if d == 3 { "3" }
        else if d == 4 { "4" }
        else if d == 5 { "5" }
        else if d == 6 { "6" }
        else if d == 7 { "7" }
        else if d == 8 { "8" }
        else { "9" };
    proof {
        reveal_strlit("0");
        reveal_strlit("1");
        reveal_strlit("2");
        reveal_strlit("3");
        reveal_strlit("4");
        reveal_strlit("5");
        reveal_strlit("6");
        reveal_strlit("7");
        reveal_strlit("8");
        reveal_strlit("9");
    }
    let ghost before = s@;
    s.append(digit);
    assert(digit@ =~= seq![digit_char(d as nat)]);
    if n >= 10 {
        assert(decimal(n as nat) =~= decimal((n / 10) as nat).push(digit_char(d as nat)));
    }
}

/// The text `host:port`, the address a service binds or is reached at.
pub open spec fn host_port(host: Seq<char>, port: u16) -> Seq<char> {
    host + seq![':'] + decimal(port as nat)
}

/// Formats `host:port`.
pub fn format_host_port(host: &str, port: u16) -> (addr: String)
    ensures
        addr@ == host_port(host@, port),
{
    let mut addr = host.to_owned();
    addr.append(":");
    proof { reveal_strlit(":"); }
    push_decimal(&mut addr, port as u64);
    assert(addr@ =~= host_port(host@, port));
    addr
}

impl NetworkConfig {
    /// The address the login server listens on.
    pub fn login_addr(&self) -> (addr: String)
        ensures
            addr@ == host_port(self.login_host@, self.login_port),
    {
        format_host_port(self.login_host.as_str(), self.login_port)
    }

    /// The address of the supernode, which the login server hands out and
    /// the supernode listens on.
    pub fn supernode_addr(&self) -> (addr: String)
        ensures
            addr@ == host_port(self.supernode_host@, self.supernode_port),
    {
        format_host_port(self.supernode_host.as_str(), self.supernode_port)
    }

    /// The address of the UDP relay.
    pub fn relay_addr(&self) -> (addr: String)
        ensures
            addr@ == host_port(self.relay_host@, self.relay_port),
    {
        format_host_port(self.relay_host.as_str(), self.relay_port)
    }
}

} // verus!
