//! Servers as libmemcached takes them: in the text of a configuration.

use vstd::prelude::*;
use vstd::string::*;

use crate::text;

verus! {

/// What libmemcached can connect to.
pub trait Connectable {
    /// The connection string, as a text.
    open spec fn connection_text(&self) -> Seq<char> {
        arbitrary()
    }

    /// The text that names the servers.
    fn get_connection_str(&self) -> (r: String)
        ensures
            r@ == self.connection_text(),
    ;
}

/// How one server is named.
pub open spec fn server_text(host: Seq<char>, port: u64) -> Seq<char> {
    "--SERVER="@ + host + ":"@ + text::number(port as nat)
}

fn name_server(host: &str, port: u64) -> (r: String)
    ensures
        r@ == server_text(host@, port),
{
    let mut s = "--SERVER=".to_string();
    s.append(host);
    s.append(":");
    s.append(text::number_text(port as u128).as_str());
    s
}

/// How servers are named: one after the other, set off by spaces.
pub open spec fn servers_text(servers: Seq<(&str, u64)>) -> Seq<char>
    decreases servers.len(),
{
    if servers.len() == 0 {
        Seq::empty()
    } else {
        let last = server_text(servers.last().0@, servers.last().1);
        if servers.len() == 1 {
            last
        } else {
            servers_text(servers.drop_last()) + " "@ + last
        }
    }
}

impl<'a> Connectable for (&'a str, u64) {
    open spec fn connection_text(&self) -> Seq<char> {
        server_text(self.0@, self.1)
    }

    fn get_connection_str(&self) -> (r: String) {
        name_server(self.0, self.1)
    }
}

impl<'a> Connectable for Vec<(&'a str, u64)> {
    open spec fn connection_text(&self) -> Seq<char> {
        servers_text(self@)
    }

    fn get_connection_str(&self) -> (r: String) {
        let mut s = "".to_string();
        proof {
            reveal_strlit("");
            assert(s@ =~= Seq::<char>::empty());
            assert(self@.take(0) =~= Seq::<(&str, u64)>::empty());
        }
        let mut i: usize = 0;
        while i < self.len()
            invariant
                i <= self@.len(),
                s@ == servers_text(self@.take(i as int)),
            decreases self@.len() - i,
        {
            assert(self@.take(i + 1).drop_last() =~= self@.take(i as int));
            assert(self@.take(i + 1).last() == self@[i as int]);
            if i > 0 {
                s.append(" ");
            }
            let (host, port) = self[i];
            s.append(name_server(host, port).as_str());
            assert(s@ =~= servers_text(self@.take(i + 1)));
            i += 1;
        }
        assert(self@.take(i as int) =~= self@);
        s
    }
}

} // verus!
