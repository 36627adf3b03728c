//! IRC session state management and protocol handling.
//!
//! A [`Network`] owns the single connection's protocol state: it starts in
//! a registering phase with the configured nickname already requested, and
//! becomes active when the server welcomes it. Outgoing protocol lines go
//! through an [`Output`] sink.

use vstd::prelude::*;
use vstd::string::StringExecFns;
use crate::text::{concat2, concat4, str_eq};
use crate::irc::{Message, MessageV};

verus! {

/// Read-only configuration handed to the session at connect time.
pub struct Config {
    /// The nickname to request; a fixed default is used when absent.
    pub nick: Option<String>,
    /// The channels to join upon registration; a fixed default channel is
    /// used when absent.
    pub channels: Option<Vec<String>>,
    /// The host to connect to; connecting fails when absent.
    pub host: Option<String>,
    /// The port to connect to; a fixed default is used when absent.
    pub port: Option<i64>,
}

/// The mathematical form of a [`Config`].
pub struct ConfigV {
    pub nick: Option<Seq<char>>,
    pub channels: Option<Seq<Seq<char>>>,
    pub host: Option<Seq<char>>,
    pub port: Option<int>,
}

impl View for Config {
    type V = ConfigV;

    open spec fn view(&self) -> ConfigV {
        ConfigV {
            nick: match &self.nick {
                Some(n) => Some(n@),
                None => None,
            },
            channels: match &self.channels {
                Some(cs) => Some(cs.deep_view()),
                None => None,
            },
            host: match &self.host {
                Some(h) => Some(h@),
                None => None,
            },
            port: match self.port {
                Some(p) => Some(p as int),
                None => None,
            },
        }
    }
}

/// The nickname the session requests at connect time.
pub open spec fn configured_nick(cfg: ConfigV) -> Seq<char> {
    match cfg.nick {
        Some(n) => n,
        None => "miau"@,
    }
}

/// The channels joined upon registration.
pub open spec fn autojoin_chans(cfg: ConfigV) -> Seq<Seq<char>> {
    match cfg.channels {
        Some(cs) => cs,
        None => seq!["#miau-dev"@],
    }
}

/// The line requesting a nickname.
pub open spec fn nick_cmd(nick: Seq<char>) -> Seq<char> {
    "NICK "@ + nick
}

/// The line identifying the user at registration.
pub open spec fn user_cmd(ident: Seq<char>, gecos: Seq<char>) -> Seq<char> {
    "USER "@ + ident + " * * :"@ + gecos
}

/// The line joining a channel.
pub open spec fn join_cmd(chan: Seq<char>) -> Seq<char> {
    "JOIN "@ + chan
}

/// The line sending a notice to a user or channel.
pub open spec fn notice_cmd(target: Seq<char>, text: Seq<char>) -> Seq<char> {
    "NOTICE "@ + target + " :"@ + text
}

/// The line sending a message to a user or channel.
pub open spec fn privmsg_cmd(target: Seq<char>, text: Seq<char>) -> Seq<char> {
    "PRIVMSG "@ + target + " :"@ + text
}

/// The line answering a server ping carrying `token`.
pub open spec fn pong_cmd(token: Seq<char>) -> Seq<char> {
    "PONG :"@ + token
}

/// One `JOIN` line for each channel, in order.
pub open spec fn join_lines(chans: Seq<Seq<char>>) -> Seq<Seq<char>> {
    chans.map_values(|c: Seq<char>| join_cmd(c))
}

/// A sink for outgoing protocol lines. The sink records, as the
/// specification-level `lines()`, every line it was handed, in order; the
/// provided methods format the common commands.
#[allow(non_snake_case)]
pub trait Output {
    /// The sink's own well-formedness, preserved by every send.
    spec fn wf(&self) -> bool;

    /// Every line handed to this sink so far, in order.
    spec fn lines(&self) -> Seq<Seq<char>>;

    /// Hands one line to the sink.
    fn send(&mut self, line: String)
        requires
            old(self).wf(),
        ensures
            final(self).wf(),
            final(self).lines() == old(self).lines().push(line@),
    ;

    fn NICK(&mut self, nick: &str)
        requires
            old(self).wf(),
        ensures
            final(self).wf(),
            final(self).lines() == old(self).lines().push(nick_cmd(nick@)),
    {
        self.send(concat2("NICK ", nick));
    }

    fn USER(&mut self, ident: &str, gecos: &str)
        requires
            old(self).wf(),
        ensures
            final(self).wf(),
            final(self).lines() == old(self).lines().push(user_cmd(ident@, gecos@)),
    {
        self.send(concat4("USER ", ident, " * * :", gecos));
    }

    fn JOIN(&mut self, chan: &str)
        requires
            old(self).wf(),
        ensures
            final(self).wf(),
            final(self).lines() == old(self).lines().push(join_cmd(chan@)),
    {
        self.send(concat2("JOIN ", chan));
    }

    fn NOTICE(&mut self, target: &str, text: &str)
        requires
            old(self).wf(),
        ensures
            final(self).wf(),
            final(self).lines() == old(self).lines().push(notice_cmd(target@, text@)),
    {
        self.send(concat4("NOTICE ", target, " :", text));
    }

    fn PRIVMSG(&mut self, target: &str, text: &str)
        requires
            old(self).wf(),
        ensures
            final(self).wf(),
            final(self).lines() == old(self).lines().push(privmsg_cmd(target@, text@)),
    {
        self.send(concat4("PRIVMSG ", target, " :", text));
    }
}

/// An [`Output`] that keeps the lines it is handed, for inspection.
pub struct CollectedOutput {
    /// The lines handed to this sink, in order.
    pub sent: Vec<String>,
}

impl CollectedOutput {
    pub fn new() -> (o: CollectedOutput)
        ensures
            o.wf(),
            o.lines() == Seq::<Seq<char>>::empty(),
    {
        let o = CollectedOutput { sent: Vec::new() };
        proof {
            assert(o.sent.deep_view() =~= Seq::<Seq<char>>::empty());
        }
        o
    }
}

impl Output for CollectedOutput {
    open spec fn wf(&self) -> bool {
        true
    }

    open spec fn lines(&self) -> Seq<Seq<char>> {
        self.sent.deep_view()
    }

    fn send(&mut self, line: String) {
        self.sent.push(line);
        proof {
            assert(self.sent.deep_view() =~= old(self).sent.deep_view().push(line@));
        }
    }
}

/// The session phase: registering under a last requested nickname, or
/// active under the nickname the server accepted.
pub enum StateV {
    Registering(Seq<char>),
    Active(Seq<char>),
}

struct Registration {
    last_requested_nick: String,
}

struct Active {
    nick: String,
}

enum State {
    Registering(Registration),
    Active(Active),
}

/// The single live connection's protocol state.
pub struct Network {
    env: Config,
    state: State,
}

impl Network {
    /// The session's configuration.
    pub closed spec fn cfg(&self) -> ConfigV {
        self.env@
    }

    /// The session's phase.
    pub closed spec fn st(&self) -> StateV {
        match &self.state {
            State::Registering(reg) => StateV::Registering(reg.last_requested_nick@),
            State::Active(act) => StateV::Active(act.nick@),
        }
    }

    /// Opens the session: requests the configured nickname, identifies the
    /// user, and enters the registering phase.
    pub fn register<T: Output>(env: Config, out: &mut T) -> (n: Network)
        requires
            old(out).wf(),
        ensures
            final(out).wf(),
            final(out).lines() == old(out).lines() + seq![
                nick_cmd(configured_nick(env@)),
                user_cmd("miau"@, "miau"@),
            ],
            n.cfg() == env@,
            n.st() == StateV::Registering(configured_nick(env@)),
    {
        let nick: String = match &env.nick {
            Some(n) => n.clone(),
            None => String::from_str("miau"),
        };

        out.NICK(nick.as_str());
        out.USER("miau", "miau");
        proof {
            assert(out.lines() =~= old(out).lines() + seq![
                nick_cmd(configured_nick(env@)),
                user_cmd("miau"@, "miau"@),
            ]);
        }

        let reg = Registration { last_requested_nick: nick };
        Network { env, state: State::Registering(reg) }
    }

    /// The nickname the server accepted, defined exactly while the session
    /// is active.
    pub fn current_nick(&self) -> (r: Option<&str>)
        ensures
            r matches Some(s) ==> self.st() == StateV::Active(s@),
            r is None ==> self.st() is Registering,
    {
        match &self.state {
            State::Active(act) => Some(act.nick.as_str()),
            State::Registering(_) => None,
        }
    }

    /// Emits one `JOIN` for each configured autojoin channel, in order.
    fn emit_joins<T: Output>(&self, out: &mut T)
        requires
            old(out).wf(),
        ensures
            final(out).wf(),
            final(out).lines() == old(out).lines() + join_lines(autojoin_chans(self.cfg())),
    {
        match &self.env.channels {
            Some(chans) => {
                let ghost cs = chans.deep_view();
                let mut i: usize = 0;
                while i < chans.len()
                    invariant
                        0 <= i <= chans.deep_view().len(),
                        chans.deep_view() == cs,
                        out.wf(),
                        out.lines() == old(out).lines() + join_lines(cs.subrange(0, i as int)),
                    decreases chans.deep_view().len() - i,
                {
                    out.JOIN(chans[i].as_str());
                    proof {
                        assert(out.lines() =~= old(out).lines() + join_lines(
                            cs.subrange(0, i + 1),
                        ));
                    }
                    i = i + 1;
                }
                proof {
                    assert(cs.subrange(0, cs.len() as int) =~= cs);
                }
            },
            None => {
                out.JOIN("#miau-dev");
                proof {
                    assert(join_lines(autojoin_chans(self.cfg())) =~= seq![join_cmd("#miau-dev"@)]);
                    assert(out.lines() =~= old(out).lines() + join_lines(
                        autojoin_chans(self.cfg()),
                    ));
                }
            },
        }
    }

    /// Consumes one parsed message: answers pings in any phase, completes
    /// registration on the server's welcome, retries a taken nickname with
    /// a trailing underscore, and forwards channel traffic to the command
    /// dispatcher once active. Exactly the lines of [`emit_spec`] go out,
    /// and the phase moves per [`next_state_spec`].
    pub fn handle_message<T: Output>(&mut self, out: &mut T, m: Message)
        requires
            old(out).wf(),
        ensures
            final(out).wf(),
            final(out).lines() == old(out).lines() + emit_spec(
                old(self).st(),
                old(self).cfg(),
                m@,
            ),
            final(self).st() == next_state_spec(old(self).st(), m@),
            final(self).cfg() == old(self).cfg(),
    {
        proof {
            assert(old(out).lines() =~= old(out).lines() + Seq::<Seq<char>>::empty());
            reveal_strlit("PING");
            reveal_strlit("001");
            reveal_strlit("433");
            reveal_strlit("PRIVMSG");
        }
        if str_eq(m.verb.as_str(), "PING") {
            if m.args.len() > 0 {
                out.send(concat2("PONG :", m.args[0].as_str()));
                proof {
                    assert(out.lines() =~= old(out).lines() + seq![pong_cmd(m@.args[0])]);
                }
            }
            return;
        }

        if str_eq(m.verb.as_str(), "001") {
            let is_reg = match &self.state {
                State::Registering(_) => true,
                State::Active(_) => false,
            };
            if is_reg && m.args.len() > 0 {
                self.emit_joins(out);
                let nick = m.args[0].clone();
                proof {
                    assert(out.lines() =~~= old(out).lines() + emit_spec(old(self).st(), old(self).cfg(), m@));
                }
                self.state = State::Active(Active { nick });
                proof {
                    assert(self.st() == next_state_spec(old(self).st(), m@));
                }
            } else {
                proof {
                    assert("001"@.len() == 3 && "433"@.len() == 3 && "PRIVMSG"@.len() == 7);
                    assert("001"@[0] == '0' && "433"@[0] == '4');
                    assert(out.lines() =~~= old(out).lines() + emit_spec(old(self).st(), old(self).cfg(), m@));
                }
            }
        } else if str_eq(m.verb.as_str(), "433") {
            let next: Option<String> = match &self.state {
                State::Registering(reg) => {
                    let mut n = reg.last_requested_nick.clone();
                    n.append("_");
                    Some(n)
                },
                State::Active(_) => None,
            };
            match next {
                Some(n) => {
                    out.NICK(n.as_str());
                    proof {
                        assert(out.lines() =~~= old(out).lines() + emit_spec(old(self).st(), old(self).cfg(), m@));
                    }
                    self.state = State::Registering(Registration { last_requested_nick: n });
                },
                None => {
                    proof {
                        assert("433"@.len() == 3 && "PRIVMSG"@.len() == 7);
                        assert(out.lines() =~~= old(out).lines() + emit_spec(old(self).st(), old(self).cfg(), m@));
                    }
                },
            }
        } else if str_eq(m.verb.as_str(), "PRIVMSG") {
            let is_active = match &self.state {
                State::Registering(_) => false,
                State::Active(_) => true,
            };
            if is_active {
                crate::commands::handle_irc(&*self, out, m);
            }
        }
    }
}

/// The phase after one message: a welcome with its argument completes
/// registration under the server's canonical nickname; a nickname-in-use
/// reply appends an underscore to the last requested nickname and keeps
/// registering; nothing else moves the phase, and an active session never
/// reverts.
pub open spec fn next_state_spec(st: StateV, m: MessageV) -> StateV {
    if m.verb == "PING"@ {
        st
    } else {
        match st {
            StateV::Registering(nick) => {
                if m.verb == "001"@ && m.args.len() > 0 {
                    StateV::Active(m.args[0])
                } else if m.verb == "433"@ {
                    StateV::Registering(nick + "_"@)
                } else {
                    st
                }
            },
            StateV::Active(_) => st,
        }
    }
}

/// The lines one message causes to be sent: a `PONG` echoing a ping's
/// token in any phase; the autojoin `JOIN`s on the welcome; a fresh `NICK`
/// request on a nickname collision; the dispatcher's reply to channel
/// traffic once active; and nothing otherwise. A message that lacks the
/// argument a transition needs is ignored rather than acted on.
pub open spec fn emit_spec(st: StateV, cfg: ConfigV, m: MessageV) -> Seq<Seq<char>> {
    if m.verb == "PING"@ {
        if m.args.len() > 0 {
            seq![pong_cmd(m.args[0])]
        } else {
            Seq::empty()
        }
    } else {
        match st {
            StateV::Registering(nick) => {
                if m.verb == "001"@ && m.args.len() > 0 {
                    join_lines(autojoin_chans(cfg))
                } else if m.verb == "433"@ {
                    seq![nick_cmd(nick + "_"@)]
                } else {
                    Seq::empty()
                }
            },
            StateV::Active(nick) => {
                if m.verb == "PRIVMSG"@ {
                    crate::commands::dispatch_lines(nick, m)
                } else {
                    Seq::empty()
                }
            },
        }
    }
}

/// An active session never reverts to registering: whatever message
/// arrives, the phase stays active.
pub proof fn lemma_active_never_reverts(st: StateV, m: MessageV)
    requires
        st is Active,
    ensures
        next_state_spec(st, m) is Active,
{
}

/// A ping is answered in every phase: a message whose verb is `PING` and
/// which carries a token produces exactly one `PONG` echoing that token,
/// and moves no state, whatever the session's phase and configuration.
pub proof fn lemma_ping_always_answered(st: StateV, cfg: ConfigV, m: MessageV)
    requires
        m.verb == "PING"@,
        m.args.len() > 0,
    ensures
        emit_spec(st, cfg, m) == seq![pong_cmd(m.args[0])],
        next_state_spec(st, m) == st,
{
}

} // verus!
