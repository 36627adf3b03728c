//! The bot: one session wired to one socket driver.
//!
//! [`Bot::new`] opens the session, queueing the registration lines on the
//! driver; [`Bot::handle_line`] parses one incoming protocol line and lets
//! the session consume it, queueing whatever it answers. The loop that
//! performs the actual reads and writes lives outside the library and
//! drives the [`Driver`] between calls.

use vstd::prelude::*;
use crate::driver::Driver;
use crate::irc::{parse_spec, Message};
use crate::network::{
    configured_nick, emit_spec, next_state_spec, nick_cmd, user_cmd, Config, ConfigV, Network,
    Output, StateV,
};

verus! {

/// One connection: the session state and the socket driver that carries
/// its lines.
pub struct Bot {
    net: Network,
    sock: Driver,
}

impl Bot {
    /// The driver is well formed.
    pub closed spec fn wf(&self) -> bool {
        self.sock.wf()
    }

    /// The session's phase.
    pub closed spec fn session(&self) -> StateV {
        self.net.st()
    }

    /// The session's configuration.
    pub closed spec fn cfg(&self) -> ConfigV {
        self.net.cfg()
    }

    /// The driver, for its queue and decoder histories.
    pub closed spec fn sock_v(&self) -> Driver {
        self.sock
    }

    /// Wires a fresh driver to a fresh session: the registration lines are
    /// queued and the session is registering under the configured nick.
    pub fn new(env: Config) -> (b: Bot)
        ensures
            b.wf(),
            b.cfg() == env@,
            b.session() == StateV::Registering(configured_nick(env@)),
            b.sock_v().enqueued_lines() == seq![
                nick_cmd(configured_nick(env@)),
                user_cmd("miau"@, "miau"@),
            ],
    {
        let mut sock = Driver::new();
        let net = Network::register(env, &mut sock);
        proof {
            assert(sock.enqueued_lines() =~= seq![
                nick_cmd(configured_nick(env@)),
                user_cmd("miau"@, "miau"@),
            ]);
        }
        Bot { net, sock }
    }

    /// Parses one incoming line and hands it to the session; the session's
    /// replies join the driver's outbound queue.
    pub fn handle_line(&mut self, line: &str)
        requires
            old(self).wf(),
        ensures
            final(self).wf(),
            final(self).cfg() == old(self).cfg(),
            final(self).session() == next_state_spec(old(self).session(), parse_spec(line@)),
            final(self).sock_v().enqueued_lines() == old(self).sock_v().enqueued_lines()
                + emit_spec(old(self).session(), old(self).cfg(), parse_spec(line@)),
    {
        match Message::parse(line) {
            Ok(m) => {
                self.net.handle_message(&mut self.sock, m);
            },
            Err(_) => {
                proof {
                    assert(false);
                }
            },
        }
    }

    /// The session's accepted nickname, defined exactly while it is
    /// active.
    pub fn current_nick(&self) -> (r: Option<&str>)
        ensures
            r matches Some(s) ==> self.session() == StateV::Active(s@),
            r is None ==> self.session() is Registering,
    {
        self.net.current_nick()
    }
}

/// What the transport is opened with: the configured host, and the
/// configured port where one fits the port range, the customary default
/// port otherwise. A configuration without a host is refused; that failure
/// surfaces before any socket is opened.
pub fn connect_params(cfg: &Config) -> (r: Result<(String, u16), &'static str>)
    ensures
        r is Ok <==> cfg@.host is Some,
        r matches Ok(p) ==> cfg@.host == Some(p.0@),
        r matches Ok(p) ==> (cfg@.port is None ==> p.1 == 6667),
        r matches Ok(p) ==> (cfg@.port matches Some(q) ==> (0 <= q <= 65535 ==> p.1 == q)),
{
    let host = match &cfg.host {
        Some(h) => h.clone(),
        None => {
            return Err("config value irc.host wrong type or missing");
        },
    };
    let port: u16 = match cfg.port {
        Some(p) => {
            #[verifier::truncate]
            (p as u16)
        },
        None => 6667,
    };
    Ok((host, port))
}

} // verus!
