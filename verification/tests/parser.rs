use miau::irc::{Message, MessageSource};

fn s(x: &str) -> String {
    x.to_string()
}

fn user(n: &str, u: Option<&str>, h: Option<&str>) -> MessageSource {
    MessageSource::User(s(n), u.map(s), h.map(s))
}

#[test]
fn message_source_parse_server() {
    assert_eq!(MessageSource::parse("my.host"), MessageSource::Server(s("my.host")));
}

#[test]
fn message_source_parse_user() {
    assert_eq!(MessageSource::parse("miau"), user("miau", None, None));
    assert_eq!(MessageSource::parse("miau!~u"), user("miau", Some("~u"), None));
    assert_eq!(MessageSource::parse("miau@h.ost"), user("miau", None, Some("h.ost")));
    assert_eq!(MessageSource::parse("miau!~u@h.ost"), user("miau", Some("~u"), Some("h.ost")));

    // servers should never do this, but test it anyway just in case.
    assert_eq!(MessageSource::parse("miau@h.ost!~u"), user("miau", Some("~u"), Some("h.ost")));
}

#[test]
fn message_parse_no_source() {
    assert_eq!(
        Message { src: MessageSource::Missing, verb: s("PING"), args: vec![s("123")] },
        Message::parse("PING 123").unwrap()
    );
}

#[test]
fn message_parse_trailing() {
    assert_eq!(
        Message { src: MessageSource::Missing, verb: s("PING"), args: vec![s("this has spaces")] },
        Message::parse("PING :this has spaces").unwrap()
    );
}

#[test]
fn message_parse_with_spaces() {
    assert_eq!(
        Message {
            src: MessageSource::Missing,
            verb: s("PING"),
            args: vec![s("this"), s("has"), s("spaces")],
        },
        Message::parse("PING this has spaces").unwrap()
    );
}

#[test]
fn message_parse_with_many_extra_spaces() {
    // not technically to-spec
    assert_eq!(
        Message {
            src: MessageSource::Server(s("h.ost")),
            verb: s("PING"),
            args: vec![s("this"), s("has"), s("very many spaces  ")],
        },
        Message::parse("  :h.ost  PING     this   has   :very many spaces  ").unwrap()
    );
}

#[test]
fn message_parse_with_many_extra_spaces_and_no_trailing() {
    // not technically to-spec
    assert_eq!(
        Message {
            src: MessageSource::Server(s("h.ost")),
            verb: s("PING"),
            args: vec![s("this"), s("has"), s("very"), s("many"), s("spaces")],
        },
        Message::parse("  :h.ost  PING     this   has   very many spaces  ").unwrap()
    );
}

#[test]
fn message_parse_with_source() {
    assert_eq!(
        Message {
            src: MessageSource::Server(s("h.ost")),
            verb: s("PING"),
            args: vec![s("this"), s("has spaces")],
        },
        Message::parse(":h.ost PING this :has spaces").unwrap()
    );
}

#[test]
fn message_parse_full_user_prefix() {
    let m = Message::parse(":nick!user@host VERB").unwrap();
    assert_eq!(m.src, user("nick", Some("user"), Some("host")));
    assert_eq!(m.verb, "VERB");
    assert!(m.args.is_empty());
}

#[test]
fn message_parse_no_prefix_yields_missing_source() {
    assert_eq!(Message::parse("VERB a b").unwrap().src, MessageSource::Missing);
    assert_eq!(Message::parse("433 * miau :taken").unwrap().src, MessageSource::Missing);
    assert_eq!(Message::parse("  PRIVMSG #c :hi").unwrap().src, MessageSource::Missing);
}

#[test]
fn message_parse_trailing_verbatim() {
    let m = Message::parse("VERB :trailing with spaces").unwrap();
    assert_eq!(m.args, vec![s("trailing with spaces")]);
}

#[test]
fn message_parse_empty_trailing() {
    let m = Message::parse("VERB :").unwrap();
    assert_eq!(m.args, vec![s("")]);
}

#[test]
fn message_parse_empty_line() {
    let m = Message::parse("").unwrap();
    assert_eq!(m.src, MessageSource::Missing);
    assert_eq!(m.verb, "");
    assert!(m.args.is_empty());
}

#[test]
fn message_parse_blank_line() {
    let m = Message::parse("   ").unwrap();
    assert_eq!(m.verb, "");
    assert!(m.args.is_empty());
}

#[test]
fn message_source_parse_empty_prefix() {
    assert_eq!(MessageSource::parse(""), MessageSource::Missing);
}

#[test]
fn message_source_short_name() {
    assert_eq!(MessageSource::parse("bob!u@h").short_name(), "bob");
    assert_eq!(MessageSource::parse("serv.er").short_name(), "serv.er");
    assert_eq!(MessageSource::Missing.short_name(), "");
}

#[test]
fn message_parse_unicode_whitespace_separates_tokens() {
    // any Unicode whitespace separates tokens, not just the space character
    let m = Message::parse("PING\u{00A0}tok\u{2003} two").unwrap();
    assert_eq!(m.verb, "PING");
    assert_eq!(m.args, vec![s("tok"), s("two")]);
}
