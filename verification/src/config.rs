use vstd::prelude::*;

verus! {

/// The reader's configuration.
pub struct Config {
    pub telegram: TelegramConfig,
    /// The URLs of the RSS, Atom or JSON feeds to read.
    pub rss: Vec<String>,
    pub hacker_news: HackerNewsConfig,
    /// Where the record of seen posts is kept.
    pub state_file: String,
    pub filter: FilterConfig,
    /// How long, in minutes, the reader refuses to open again after it was opened.
    pub cooldown_minutes: u64,
}

/// How to reach Telegram.
pub struct TelegramConfig {
    pub api_id: i32,
    pub api_hash: String,
    pub session_file: String,
    /// Needed only for the first sign-in.
    pub phone: Option<String>,
}

/// Which Telegram posts to hide: those whose most frequent reaction is one of the
/// negative emojis, given at least `min_negative_reactions` times.
pub struct FilterConfig {
    pub min_negative_reactions: i32,
    pub negative_emojis: Vec<String>,
}

/// Whether and how many Hacker News top stories to read.
pub struct HackerNewsConfig {
    pub enabled: bool,
    pub limit: usize,
}

/// The state file used when none is configured.
pub fn default_state_file() -> (r: String)
    ensures
        r@ == "~/.config/web.state.json"@,
{
    "~/.config/web.state.json".to_owned()
}

/// No cooldown unless one is configured.
pub fn default_cooldown_minutes() -> (r: u64)
    ensures
        r == 0,
{
    0
}

/// The number of top stories read unless configured otherwise.
pub fn default_hn_limit() -> (r: usize)
    ensures
        r == 30,
{
    30
}

/// The number of negative reactions that hides a post unless configured otherwise.
pub fn default_min_reactions() -> (r: i32)
    ensures
        r == 10,
{
    10
}

/// The emojis that count as negative unless configured otherwise: clown and pile of poo.
pub fn default_negative_emojis() -> (r: Vec<String>)
    ensures
        r@.len() == 2,
        r@[0]@ == "\u{1F921}"@,
        r@[1]@ == "\u{1F4A9}"@,
{
    let mut v: Vec<String> = Vec::new();
    v.push("\u{1F921}".to_owned());
    v.push("\u{1F4A9}".to_owned());
    v
}

impl Default for FilterConfig {
    fn default() -> (r: FilterConfig)
        ensures
            r.min_negative_reactions == 10,
            r.negative_emojis@.len() == 2,
            r.negative_emojis@[0]@ == "\u{1F921}"@,
            r.negative_emojis@[1]@ == "\u{1F4A9}"@,
    {
        FilterConfig { min_negative_reactions: default_min_reactions(), negative_emojis: default_negative_emojis() }
    }
}

impl Default for HackerNewsConfig {
    fn default() -> (r: HackerNewsConfig)
        ensures
            !r.enabled,
            r.limit == 30,
    {
        HackerNewsConfig { enabled: false, limit: default_hn_limit() }
    }
}

/// `path` with a leading `~/` replaced by the home directory `home` and a slash; `path`
/// itself when it does not start with `~/` or there is no home directory.
pub open spec fn expanded(path: Seq<char>, home: Option<Seq<char>>) -> Seq<char> {
    if path.len() >= 2 && path[0] == '~' && path[1] == '/' && home is Some {
        home->0 + "/"@ + path.skip(2)
    } else {
        path
    }
}

/// Expands a leading `~/` in `path` to the home directory `home`.
pub fn expand_tilde(path: &str, home: Option<&str>) -> (r: String)
    ensures
        r@ == expanded(path@, match home {
            Some(h) => Some(h@),
            None => None,
        }),
{
    let n = path.unicode_len();
    if n >= 2 && path.get_char(0) == '~' && path.get_char(1) == '/' {
        match home {
            Some(h) => {
                let mut s = h.to_owned();
                s.append("/");
                s.append(path.substring_char(2, n));
                proof {
                    assert(path@.subrange(2, n as int) =~= path@.skip(2));
                }
                s
            },
            None => path.to_owned(),
        }
    } else {
        path.to_owned()
    }
}

impl Config {
    /// Expands a leading `~/` in the session file and the state file to the home
    /// directory `home`; the rest of the configuration is unchanged.
    pub fn expand_paths(&mut self, home: Option<&str>)
        ensures
            final(self).telegram.session_file@ == expanded(old(self).telegram.session_file@, match home {
                Some(h) => Some(h@),
                None => None,
            }),
            final(self).state_file@ == expanded(old(self).state_file@, match home {
                Some(h) => Some(h@),
                None => None,
            }),
            final(self).telegram.api_id == old(self).telegram.api_id,
            final(self).telegram.api_hash == old(self).telegram.api_hash,
            final(self).telegram.phone == old(self).telegram.phone,
            final(self).rss@ == old(self).rss@,
            final(self).hacker_news == old(self).hacker_news,
            final(self).filter == old(self).filter,
            final(self).cooldown_minutes == old(self).cooldown_minutes,
    {
        self.telegram.session_file = expand_tilde(self.telegram.session_file.as_str(), home);
        self.state_file = expand_tilde(self.state_file.as_str(), home);
    }
}

} // verus!
