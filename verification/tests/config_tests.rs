use feedreader::config::{
    default_cooldown_minutes, default_hn_limit, default_min_reactions, default_negative_emojis,
    default_state_file, expand_tilde, Config, FilterConfig, HackerNewsConfig, TelegramConfig,
};

#[test]
fn defaults() {
    assert_eq!(default_state_file(), "~/.config/web.state.json");
    assert_eq!(default_cooldown_minutes(), 0);
    assert_eq!(default_hn_limit(), 30);
    assert_eq!(default_min_reactions(), 10);
    assert_eq!(default_negative_emojis(), vec!["🤡".to_string(), "💩".to_string()]);
    let f = FilterConfig::default();
    assert_eq!(f.min_negative_reactions, 10);
    assert_eq!(f.negative_emojis.len(), 2);
    let h = HackerNewsConfig::default();
    assert!(!h.enabled);
    assert_eq!(h.limit, 30);
}

#[test]
fn tilde_expansion() {
    assert_eq!(expand_tilde("~/a/b", Some("/home/u")), "/home/u/a/b");
    assert_eq!(expand_tilde("~/a", None), "~/a");
    assert_eq!(expand_tilde("/abs", Some("/home/u")), "/abs");
    assert_eq!(expand_tilde("~", Some("/home/u")), "~");
    assert_eq!(expand_tilde("~user/x", Some("/home/u")), "~user/x");
}

#[test]
fn config_paths_expand() {
    let mut c = Config {
        telegram: TelegramConfig {
            api_id: 1,
            api_hash: "h".to_string(),
            session_file: "~/s.session".to_string(),
            phone: None,
        },
        rss: vec!["https://x".to_string()],
        hacker_news: HackerNewsConfig::default(),
        state_file: "~/.config/web.state.json".to_string(),
        filter: FilterConfig::default(),
        cooldown_minutes: 5,
    };
    c.expand_paths(Some("/h"));
    assert_eq!(c.telegram.session_file, "/h/s.session");
    assert_eq!(c.state_file, "/h/.config/web.state.json");
    assert_eq!(c.rss, vec!["https://x".to_string()]);
    assert_eq!(c.cooldown_minutes, 5);
}
