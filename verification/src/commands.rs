//! The command dispatcher.
//!
//! A `PRIVMSG` addressed to the bot carries a command invocation: a
//! private message is one in its entirety, and a channel message is one
//! when its text opens with the bot's name or with a `!` sigil. The
//! command's handler replies through a [`Context`] that knows how to
//! address the response: channel replies are prefixed with the sender's
//! name, and warnings are suppressed in channels so that bot errors do not
//! spam them.

use vstd::prelude::*;
use vstd::string::{StrSliceExecFns, StringExecFns};
use crate::irc::{
    lemma_skip_spaces, lemma_token_end, short_name_spec, skip_spaces_spec, token_end_spec,
    Message, MessageV,
};
use crate::network::{notice_cmd, privmsg_cmd, Network, Output, StateV};
use crate::text::{concat2, concat3, concat4, starts_with_spec, str_eq, str_starts_with};

verus! {

/// One reply requested by a command handler: a normal reply, which every
/// context delivers, or a warning, which a context may suppress.
pub enum Event {
    Reply(Seq<char>),
    Warn(Seq<char>),
}

/// The bot's fixed identification string.
pub open spec fn version_reply() -> Seq<char> {
    "i am miau v0.1.0"@
}

/// The reply a command name earns: the identification string for
/// `version`, and an unknown-command warning for anything else.
pub open spec fn command_event(cmd: Seq<char>) -> Event {
    if cmd == "version"@ {
        Event::Reply(version_reply())
    } else {
        Event::Warn("unknown command: "@ + cmd)
    }
}

/// The context in which commands are handled. Commands interact with the
/// world only through an implementation of `Context`, which records every
/// requested reply as an abstract event; what a recorded warning becomes
/// is the implementation's affair.
pub trait Context {
    /// The context's own well-formedness, preserved by every reply.
    spec fn wf(&self) -> bool;

    /// Every reply requested so far, in order.
    spec fn events(&self) -> Seq<Event>;

    /// Where this context addresses replies; fixed for its lifetime. A
    /// context without a notion of addressing may return anything, as
    /// long as it stays constant.
    spec fn reply_target(&self) -> Seq<char>;

    /// The name prefixed to channel replies, absent in private contexts;
    /// fixed for the context's lifetime.
    spec fn reply_name(&self) -> Option<Seq<char>>;

    /// A normal response to a command, seen by whoever issued it.
    fn reply(&mut self, line: String)
        requires
            old(self).wf(),
        ensures
            final(self).wf(),
            final(self).events() == old(self).events().push(Event::Reply(line@)),
            final(self).reply_target() == old(self).reply_target(),
            final(self).reply_name() == old(self).reply_name(),
    ;

    /// An error message; by default errors are treated as normal replies.
    fn reply_error(&mut self, line: String)
        requires
            old(self).wf(),
        ensures
            final(self).wf(),
            final(self).events() == old(self).events().push(Event::Reply(line@)),
            final(self).reply_target() == old(self).reply_target(),
            final(self).reply_name() == old(self).reply_name(),
    {
        self.reply(line);
    }

    /// A warning message; a context may deliver or suppress it.
    fn reply_warn(&mut self, line: String)
        requires
            old(self).wf(),
        ensures
            final(self).wf(),
            final(self).events() == old(self).events().push(Event::Warn(line@)),
            final(self).reply_target() == old(self).reply_target(),
            final(self).reply_name() == old(self).reply_name(),
    ;
}

/// Handles a command in the given command handling context.
pub fn handle_command<X: Context>(ctx: &mut X, cmd: &str, _args: &str)
    requires
        old(ctx).wf(),
    ensures
        final(ctx).wf(),
        final(ctx).events() == old(ctx).events().push(command_event(cmd@)),
        final(ctx).reply_target() == old(ctx).reply_target(),
        final(ctx).reply_name() == old(ctx).reply_name(),
{
    if str_eq(cmd, "version") {
        ctx.reply(String::from_str("i am miau v0.1.0"));
    } else {
        ctx.reply_warn(concat2("unknown command: ", cmd));
    }
}

/// Where the first whitespace run of `s` stands: the position of its first
/// whitespace character, and the position of the first non-whitespace
/// character after it (or the length when nothing follows). Nothing when
/// `s` holds no whitespace at all.
pub open spec fn chomp_index_spec(s: Seq<char>) -> Option<(int, int)> {
    let j = token_end_spec(s, 0);
    if j == s.len() {
        None
    } else {
        Some((j, skip_spaces_spec(s, j)))
    }
}

/// Finds the first whitespace run of `s`, by character position.
pub fn chomp_index(s: &str) -> (r: Option<(usize, usize)>)
    ensures
        r matches Some(p) ==> chomp_index_spec(s@) == Some((p.0 as int, p.1 as int)),
        r is None ==> chomp_index_spec(s@) is None,
{
    let len = s.unicode_len();
    let mut j: usize = 0;
    while j < len && !crate::irc::is_space_char(s.get_char(j))
        invariant
            0 <= j <= len,
            len == s@.len(),
            token_end_spec(s@, 0) == token_end_spec(s@, j as int),
        decreases len - j,
    {
        j = j + 1;
    }
    if j == len {
        return None;
    }
    let mut k: usize = j;
    while k < len && crate::irc::is_space_char(s.get_char(k))
        invariant
            j <= k <= len,
            len == s@.len(),
            skip_spaces_spec(s@, j as int) == skip_spaces_spec(s@, k as int),
        decreases len - k,
    {
        k = k + 1;
    }
    Some((j, k))
}

/// What an event renders to on the wire, given the reply target and the
/// optional name prefix of a channel reply: a reply becomes a prefixed
/// `PRIVMSG` in a channel and a `NOTICE` in private; a warning is
/// suppressed in a channel and becomes a `NOTICE` in private.
pub open spec fn render_event(reply_to: Seq<char>, prefix: Option<Seq<char>>, ev: Event) -> Seq<
    Seq<char>,
> {
    match ev {
        Event::Reply(text) => match prefix {
            Some(p) => seq![privmsg_cmd(reply_to, p + ": "@ + text)],
            None => seq![notice_cmd(reply_to, text)],
        },
        Event::Warn(text) => match prefix {
            Some(_) => Seq::empty(),
            None => seq![notice_cmd(reply_to, text)],
        },
    }
}

/// What a sequence of events renders to on the wire, in order.
pub open spec fn render_events(
    reply_to: Seq<char>,
    prefix: Option<Seq<char>>,
    evs: Seq<Event>,
) -> Seq<Seq<char>>
    decreases evs.len(),
{
    if evs.len() == 0 {
        Seq::empty()
    } else {
        render_events(reply_to, prefix, evs.drop_last()) + render_event(
            reply_to,
            prefix,
            evs.last(),
        )
    }
}

/// A [`Context`] that addresses replies back onto an IRC network: straight
/// to the sender for a private message, into the channel with the sender's
/// name prefixed for a channel message.
pub struct IrcContext {
    reply_to: String,
    reply_prefix: Option<String>,
    out_lines: Vec<String>,
    events_g: Ghost<Seq<Event>>,
}

impl IrcContext {
    /// The reply target.
    pub closed spec fn reply_to_v(&self) -> Seq<char> {
        self.reply_to@
    }

    /// The name prefixed to channel replies, absent in private contexts.
    pub closed spec fn prefix_v(&self) -> Option<Seq<char>> {
        match &self.reply_prefix {
            Some(p) => Some(p@),
            None => None,
        }
    }

    /// The protocol lines this context has rendered so far.
    pub closed spec fn out_lines_v(&self) -> Seq<Seq<char>> {
        self.out_lines.deep_view()
    }

    /// Builds the reply context for a message: a channel target keeps the
    /// channel as the reply target and prefixes the sender's name; any
    /// other target replies straight to the sender.
    pub fn new(m: &Message) -> (ctx: IrcContext)
        requires
            m@.args.len() >= 1,
        ensures
            ctx.wf(),
            ctx.events() == Seq::<Event>::empty(),
            ctx.out_lines_v() == Seq::<Seq<char>>::empty(),
            ctx.reply_to_v() == if starts_with_spec(m@.args[0], "#"@) {
                m@.args[0]
            } else {
                short_name_spec(m@.src)
            },
            ctx.prefix_v() == if starts_with_spec(m@.args[0], "#"@) {
                Some(short_name_spec(m@.src))
            } else {
                None::<Seq<char>>
            },
    {
        let target = &m.args[0];
        let ctx = if str_starts_with(target.as_str(), "#") {
            IrcContext {
                reply_to: target.clone(),
                reply_prefix: Some(m.src.short_name().to_owned()),
                out_lines: Vec::new(),
                events_g: Ghost(Seq::empty()),
            }
        } else {
            IrcContext {
                reply_to: m.src.short_name().to_owned(),
                reply_prefix: None,
                out_lines: Vec::new(),
                events_g: Ghost(Seq::empty()),
            }
        };
        proof {
            assert(ctx.out_lines.deep_view() =~= Seq::<Seq<char>>::empty());
        }
        ctx
    }
}

impl Context for IrcContext {
    /// The rendered lines are exactly the rendering of the recorded
    /// events.
    closed spec fn wf(&self) -> bool {
        self.out_lines.deep_view() == render_events(self.reply_to@, self.prefix_v(), self.events_g@)
    }

    closed spec fn events(&self) -> Seq<Event> {
        self.events_g@
    }

    closed spec fn reply_target(&self) -> Seq<char> {
        self.reply_to@
    }

    closed spec fn reply_name(&self) -> Option<Seq<char>> {
        self.prefix_v()
    }

    /// Renders the reply onto the wire: in a channel context exactly one
    /// `PRIVMSG` to the channel with the sender's name prefixed, in a
    /// private context exactly one `NOTICE` to the sender.
    fn reply(&mut self, line: String)
        ensures
            final(self).out_lines_v() == old(self).out_lines_v() + render_event(
                old(self).reply_to_v(),
                old(self).prefix_v(),
                Event::Reply(line@),
            ),
    {
        let ghost evs = self.events_g@;
        match &self.reply_prefix {
            Some(prefix) => {
                let full_line = concat3(prefix.as_str(), ": ", line.as_str());
                self.out_lines.push(concat4("PRIVMSG ", self.reply_to.as_str(), " :", full_line.as_str()));
            },
            None => {
                self.out_lines.push(concat4("NOTICE ", self.reply_to.as_str(), " :", line.as_str()));
            },
        }
        self.events_g = Ghost(evs.push(Event::Reply(line@)));
        proof {
            assert(evs.push(Event::Reply(line@)).drop_last() =~= evs);
            assert(self.out_lines.deep_view() =~= render_events(
                self.reply_to@,
                self.prefix_v(),
                self.events_g@,
            ));
        }
    }

    /// Renders the warning onto the wire: suppressed in a channel context,
    /// exactly one `NOTICE` to the sender in a private context.
    fn reply_warn(&mut self, line: String)
        ensures
            final(self).out_lines_v() == old(self).out_lines_v() + render_event(
                old(self).reply_to_v(),
                old(self).prefix_v(),
                Event::Warn(line@),
            ),
    {
        let ghost evs = self.events_g@;
        if self.reply_prefix.is_none() {
            self.out_lines.push(concat4("NOTICE ", self.reply_to.as_str(), " :", line.as_str()));
        }
        self.events_g = Ghost(evs.push(Event::Warn(line@)));
        proof {
            assert(evs.push(Event::Warn(line@)).drop_last() =~= evs);
            assert(self.out_lines.deep_view() =~= render_events(
                self.reply_to@,
                self.prefix_v(),
                self.events_g@,
            ));
        }
    }
}

/// Where the command text starts inside a message addressed to a bot
/// nicknamed `nick`. A message whose target is not a channel is a private
/// message, and its entire text is the command invocation. In a channel,
/// the command starts after the bot's name and the following whitespace
/// run when the text opens with the name and such a boundary follows, or
/// after a leading `!` sigil; any other channel message is not addressed
/// to the bot.
pub open spec fn command_start_spec(nick: Seq<char>, target: Seq<char>, text: Seq<char>) -> Option<
    int,
> {
    if !starts_with_spec(target, "#"@) {
        Some(0)
    } else if starts_with_spec(text, nick) && chomp_index_spec(text) is Some {
        match chomp_index_spec(text) {
            Some(p) => Some(p.1),
            None => None,
        }
    } else if starts_with_spec(text, "!"@) {
        Some(1)
    } else {
        None
    }
}

/// The protocol lines that handling a `PRIVMSG` produces, for a session
/// whose accepted nickname is `nick`: nothing unless the message carries a
/// target and a text and is addressed to the bot; otherwise the rendering
/// of the named command's reply, addressed per the channel-or-private
/// rules of [`render_event`].
pub open spec fn dispatch_lines(nick: Seq<char>, m: MessageV) -> Seq<Seq<char>> {
    if m.verb != "PRIVMSG"@ {
        Seq::empty()
    } else if m.args.len() < 2 {
        Seq::empty()
    } else {
        let target = m.args[0];
        let text = m.args[1];
        match command_start_spec(nick, target, text) {
            None => Seq::empty(),
            Some(i) => {
                let rest = text.subrange(i, text.len() as int);
                let ce = match chomp_index_spec(rest) {
                    Some(p) => p.0,
                    None => rest.len() as int,
                };
                let cmd = rest.subrange(0, ce);
                let reply_to = if starts_with_spec(target, "#"@) {
                    target
                } else {
                    short_name_spec(m.src)
                };
                let prefix = if starts_with_spec(target, "#"@) {
                    Some(short_name_spec(m.src))
                } else {
                    None::<Seq<char>>
                };
                render_event(reply_to, prefix, command_event(cmd))
            },
        }
    }
}

/// Handles a message that came from an IRC network. This may or may not
/// actually reach [`handle_command`], since the message may not carry the
/// command syntax; exactly the lines of [`dispatch_lines`] are sent, and
/// nothing at all while the session has no nickname yet.
pub fn handle_irc<T: Output>(net: &Network, out: &mut T, m: Message)
    requires
        old(out).wf(),
    ensures
        final(out).wf(),
        final(out).lines() == old(out).lines() + (match net.st() {
            StateV::Active(nick) => dispatch_lines(nick, m@),
            StateV::Registering(_) => Seq::<Seq<char>>::empty(),
        }),
{
    proof {
        assert(old(out).lines() =~= old(out).lines() + Seq::<Seq<char>>::empty());
    }
    if !str_eq(m.verb.as_str(), "PRIVMSG") {
        return;
    }
    let my_nick = match net.current_nick() {
        Some(s) => s,
        None => {
            return;
        },
    };
    let ghost nick = my_nick@;
    if m.args.len() < 2 {
        return;
    }
    let target = m.args[0].as_str();
    let text = m.args[1].as_str();
    let tlen = text.unicode_len();
    let ghost cs = command_start_spec(nick, target@, text@);

    let start_at: Option<usize> = if !str_starts_with(target, "#") {
        Some(0)
    } else if str_starts_with(text, my_nick) && chomp_index(text).is_some() {
        match chomp_index(text) {
            Some(p) => Some(p.1),
            None => None,
        }
    } else if str_starts_with(text, "!") {
        Some(1)
    } else {
        None
    };
    proof {
        assert(match start_at {
            Some(u) => cs == Some(u as int),
            None => cs is None,
        });
    }

    let i = match start_at {
        Some(i) => i,
        None => {
            return;
        },
    };
    proof {
        lemma_token_end(text@, 0);
        lemma_skip_spaces(text@, token_end_spec(text@, 0));
        reveal_strlit("!");
    }
    let rest = text.substring_char(i, tlen);
    let rlen = rest.unicode_len();
    let (ce, args_start) = match chomp_index(rest) {
        Some(p) => p,
        None => (rlen, rlen),
    };
    proof {
        lemma_token_end(rest@, 0);
        lemma_skip_spaces(rest@, token_end_spec(rest@, 0));
    }
    let cmd = rest.substring_char(0, ce);
    let cmd_args = rest.substring_char(args_start, rlen);

    let mut ctx = IrcContext::new(&m);
    handle_command(&mut ctx, cmd, cmd_args);
    proof {
        assert(ctx.events_g@.drop_last() =~= Seq::<Event>::empty());
        assert(ctx.out_lines.deep_view() =~= render_event(
            ctx.reply_to@,
            ctx.prefix_v(),
            command_event(cmd@),
        ));
    }

    let ghost rendered = match net.st() {
        StateV::Active(n) => dispatch_lines(n, m@),
        StateV::Registering(_) => Seq::<Seq<char>>::empty(),
    };
    proof {
        assert(rendered =~= ctx.out_lines.deep_view());
    }
    let ghost sofar = out.lines();
    let mut j: usize = 0;
    while j < ctx.out_lines.len()
        invariant
            0 <= j <= ctx.out_lines.deep_view().len(),
            out.wf(),
            rendered == ctx.out_lines.deep_view(),
            out.lines() == sofar + rendered.subrange(0, j as int),
        decreases ctx.out_lines.deep_view().len() - j,
    {
        out.send(ctx.out_lines[j].clone());
        proof {
            assert(out.lines() =~= sofar + rendered.subrange(0, j + 1));
        }
        j = j + 1;
    }
    proof {
        assert(rendered.subrange(0, rendered.len() as int) =~= rendered);
    }
}

} // verus!
