use miau::bot::{connect_params, Bot};
use miau::network::Config;

fn cfg(nick: Option<&str>, host: Option<&str>, port: Option<i64>) -> Config {
    Config {
        nick: nick.map(|x| x.to_string()),
        channels: None,
        host: host.map(|x| x.to_string()),
        port,
    }
}

#[test]
fn bot_activates_on_welcome() {
    let mut bot = Bot::new(cfg(Some("miau"), None, None));
    assert_eq!(bot.current_nick(), None);
    bot.handle_line(":serv.er 001 miau_ :Welcome");
    assert_eq!(bot.current_nick(), Some("miau_"));
}

#[test]
fn bot_retries_taken_nick() {
    let mut bot = Bot::new(cfg(Some("miau"), None, None));
    bot.handle_line(":serv.er 433 * miau :Nickname in use");
    assert_eq!(bot.current_nick(), None);
    bot.handle_line(":serv.er 001 miau_ :Welcome");
    assert_eq!(bot.current_nick(), Some("miau_"));
}

#[test]
fn connect_params_needs_a_host() {
    assert!(connect_params(&cfg(None, None, None)).is_err());
    assert_eq!(
        connect_params(&cfg(None, Some("irc.example.net"), None)),
        Ok(("irc.example.net".to_string(), 6667))
    );
    assert_eq!(
        connect_params(&cfg(None, Some("irc.example.net"), Some(6697))),
        Ok(("irc.example.net".to_string(), 6697))
    );
}
