use miau::irc::Message;
use miau::network::{CollectedOutput, Config, Network};

fn s(x: &str) -> String {
    x.to_string()
}

fn cfg(nick: Option<&str>, channels: Option<Vec<&str>>) -> Config {
    Config {
        nick: nick.map(s),
        channels: channels.map(|cs| cs.into_iter().map(s).collect()),
        host: None,
        port: None,
    }
}

fn msg(line: &str) -> Message {
    Message::parse(line).unwrap()
}

#[test]
fn register_requests_nick_and_user() {
    let mut out = CollectedOutput::new();
    let net = Network::register(cfg(Some("miau"), None), &mut out);
    assert_eq!(out.sent, vec![s("NICK miau"), s("USER miau * * :miau")]);
    assert_eq!(net.current_nick(), None);
}

#[test]
fn register_falls_back_to_default_nick() {
    let mut out = CollectedOutput::new();
    let _net = Network::register(cfg(None, None), &mut out);
    assert_eq!(out.sent[0], s("NICK miau"));
}

#[test]
fn nick_collision_appends_underscore() {
    let mut out = CollectedOutput::new();
    let mut net = Network::register(cfg(Some("miau"), None), &mut out);

    let mut out2 = CollectedOutput::new();
    net.handle_message(&mut out2, msg(":serv.er 433 * miau :Nickname in use"));
    assert_eq!(out2.sent, vec![s("NICK miau_")]);
    assert_eq!(net.current_nick(), None);

    // still registering, under the updated nick: a second collision
    // retries from it
    let mut out3 = CollectedOutput::new();
    net.handle_message(&mut out3, msg(":serv.er 433 * miau_ :Nickname in use"));
    assert_eq!(out3.sent, vec![s("NICK miau__")]);
    assert_eq!(net.current_nick(), None);
}

#[test]
fn welcome_joins_channels_and_activates() {
    let mut out = CollectedOutput::new();
    let mut net = Network::register(cfg(Some("miau"), Some(vec!["#a", "#b"])), &mut out);

    let mut out2 = CollectedOutput::new();
    net.handle_message(&mut out2, msg(":serv.er 001 miau_ :Welcome"));
    assert_eq!(out2.sent, vec![s("JOIN #a"), s("JOIN #b")]);
    assert_eq!(net.current_nick(), Some("miau_"));
}

#[test]
fn welcome_joins_default_channel() {
    let mut out = CollectedOutput::new();
    let mut net = Network::register(cfg(Some("miau"), None), &mut out);

    let mut out2 = CollectedOutput::new();
    net.handle_message(&mut out2, msg(":serv.er 001 miau :Welcome"));
    assert_eq!(out2.sent, vec![s("JOIN #miau-dev")]);
}

#[test]
fn ping_answered_in_any_state() {
    // while registering
    let mut out = CollectedOutput::new();
    let mut net = Network::register(cfg(Some("miau"), None), &mut out);
    let mut out2 = CollectedOutput::new();
    net.handle_message(&mut out2, msg("PING :abc123"));
    assert_eq!(out2.sent, vec![s("PONG :abc123")]);
    assert_eq!(net.current_nick(), None);

    // while active
    let mut out3 = CollectedOutput::new();
    net.handle_message(&mut out3, msg(":serv.er 001 miau :Welcome"));
    let mut out4 = CollectedOutput::new();
    net.handle_message(&mut out4, msg("PING :abc123"));
    assert_eq!(out4.sent, vec![s("PONG :abc123")]);
    assert_eq!(net.current_nick(), Some("miau"));
}

#[test]
fn channel_command_gets_prefixed_reply() {
    let mut out = CollectedOutput::new();
    let mut net = Network::register(cfg(Some("miau"), None), &mut out);
    let mut out2 = CollectedOutput::new();
    net.handle_message(&mut out2, msg(":serv.er 001 miau :Welcome"));

    let mut out3 = CollectedOutput::new();
    net.handle_message(&mut out3, msg(":bob!u@h PRIVMSG #chan :miau: version"));
    assert_eq!(out3.sent, vec![s("PRIVMSG #chan :bob: i am miau v0.1.0")]);
}

#[test]
fn private_command_gets_notice_reply() {
    let mut out = CollectedOutput::new();
    let mut net = Network::register(cfg(Some("miau"), None), &mut out);
    let mut out2 = CollectedOutput::new();
    net.handle_message(&mut out2, msg(":serv.er 001 miau :Welcome"));

    let mut out3 = CollectedOutput::new();
    net.handle_message(&mut out3, msg(":bob!u@h PRIVMSG miau :version"));
    assert_eq!(out3.sent, vec![s("NOTICE bob :i am miau v0.1.0")]);
}

#[test]
fn unknown_command_warns_only_in_private() {
    let mut out = CollectedOutput::new();
    let mut net = Network::register(cfg(Some("miau"), None), &mut out);
    let mut out2 = CollectedOutput::new();
    net.handle_message(&mut out2, msg(":serv.er 001 miau :Welcome"));

    // in a channel, the warning is suppressed
    let mut out3 = CollectedOutput::new();
    net.handle_message(&mut out3, msg(":bob!u@h PRIVMSG #chan :!nope"));
    assert_eq!(out3.sent, Vec::<String>::new());

    // in private, it surfaces as a notice
    let mut out4 = CollectedOutput::new();
    net.handle_message(&mut out4, msg(":bob!u@h PRIVMSG miau :nope"));
    assert_eq!(out4.sent, vec![s("NOTICE bob :unknown command: nope")]);
}

#[test]
fn sigil_command_in_channel() {
    let mut out = CollectedOutput::new();
    let mut net = Network::register(cfg(Some("miau"), None), &mut out);
    let mut out2 = CollectedOutput::new();
    net.handle_message(&mut out2, msg(":serv.er 001 miau :Welcome"));

    let mut out3 = CollectedOutput::new();
    net.handle_message(&mut out3, msg(":bob!u@h PRIVMSG #chan :!version"));
    assert_eq!(out3.sent, vec![s("PRIVMSG #chan :bob: i am miau v0.1.0")]);
}

#[test]
fn unaddressed_channel_chatter_is_ignored() {
    let mut out = CollectedOutput::new();
    let mut net = Network::register(cfg(Some("miau"), None), &mut out);
    let mut out2 = CollectedOutput::new();
    net.handle_message(&mut out2, msg(":serv.er 001 miau :Welcome"));

    let mut out3 = CollectedOutput::new();
    net.handle_message(&mut out3, msg(":bob!u@h PRIVMSG #chan :just chatting"));
    assert_eq!(out3.sent, Vec::<String>::new());
}

#[test]
fn private_text_is_the_whole_invocation() {
    // in a private message the entire text is the command: a leading
    // sigil or nick does not move the command start
    let mut out = CollectedOutput::new();
    let mut net = Network::register(cfg(Some("miau"), None), &mut out);
    let mut out2 = CollectedOutput::new();
    net.handle_message(&mut out2, msg(":serv.er 001 miau :Welcome"));

    let mut out3 = CollectedOutput::new();
    net.handle_message(&mut out3, msg(":bob!u@h PRIVMSG miau :!version"));
    assert_eq!(out3.sent, vec![s("NOTICE bob :unknown command: !version")]);

    let mut out4 = CollectedOutput::new();
    net.handle_message(&mut out4, msg(":bob!u@h PRIVMSG miau :miau: version"));
    assert_eq!(out4.sent, vec![s("NOTICE bob :unknown command: miau:")]);
}

#[test]
fn bare_nick_in_channel_is_ignored() {
    // the nick alone, with no boundary and no sigil, addresses nothing
    let mut out = CollectedOutput::new();
    let mut net = Network::register(cfg(Some("miau"), None), &mut out);
    let mut out2 = CollectedOutput::new();
    net.handle_message(&mut out2, msg(":serv.er 001 miau :Welcome"));

    let mut out3 = CollectedOutput::new();
    net.handle_message(&mut out3, msg(":bob!u@h PRIVMSG #chan :miau"));
    assert_eq!(out3.sent, Vec::<String>::new());
}

#[test]
fn privmsg_ignored_while_registering() {
    let mut out = CollectedOutput::new();
    let mut net = Network::register(cfg(Some("miau"), None), &mut out);

    let mut out2 = CollectedOutput::new();
    net.handle_message(&mut out2, msg(":bob!u@h PRIVMSG miau :version"));
    assert_eq!(out2.sent, Vec::<String>::new());
}

#[test]
fn ping_without_token_is_ignored() {
    let mut out = CollectedOutput::new();
    let mut net = Network::register(cfg(Some("miau"), None), &mut out);
    let mut out2 = CollectedOutput::new();
    net.handle_message(&mut out2, msg("PING"));
    assert_eq!(out2.sent, Vec::<String>::new());
}
