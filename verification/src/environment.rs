//! The fake browser environment a script runs in: a seed for `Math.random`,
//! a frozen clock and a user agent.

use vstd::prelude::*;

verus! {

/// Environment configuration for the sandbox.
#[derive(Debug, Clone)]
pub struct Environment {
    /// Seed for `Math.random()`.
    pub random_seed: u64,
    /// Frozen timestamp for `Date`, in milliseconds.
    pub frozen_timestamp: i64,
    /// Fake navigator user agent.
    pub user_agent: String,
}

/// The user agent of the Chrome on Windows preset.
pub open spec fn chrome_windows_agent() -> Seq<char> {
    "Mozilla/5.0 (Windows NT 10.0; Win64; x64) AppleWebKit/537.36 (KHTML, like Gecko) Chrome/120.0.0.0 Safari/537.36"@
}

/// The user agent of the Firefox on Linux preset.
pub open spec fn firefox_linux_agent() -> Seq<char> {
    "Mozilla/5.0 (X11; Linux x86_64; rv:109.0) Gecko/20100101 Firefox/115.0"@
}

/// The user agent of the Safari on macOS preset.
pub open spec fn safari_macos_agent() -> Seq<char> {
    "Mozilla/5.0 (Macintosh; Intel Mac OS X 13_5) AppleWebKit/605.1.15 (KHTML, like Gecko) Version/16.5 Safari/605.1.15"@
}

impl Environment {
    /// Whether this environment has the given seed, timestamp and user agent.
    pub open spec fn is(&self, seed: u64, timestamp: i64, agent: Seq<char>) -> bool {
        self.random_seed == seed && self.frozen_timestamp == timestamp && self.user_agent@ == agent
    }

    /// Chrome on Windows (the default).
    pub fn chrome_windows() -> (env: Self)
        ensures
            env.is(42, 1640000000000, chrome_windows_agent()),
    {
        Environment {
            random_seed: 42,
            frozen_timestamp: 1640000000000,
            user_agent: String::from_str(
                "Mozilla/5.0 (Windows NT 10.0; Win64; x64) AppleWebKit/537.36 (KHTML, like Gecko) Chrome/120.0.0.0 Safari/537.36",
            ),
        }
    }

    /// Firefox on Linux.
    pub fn firefox_linux() -> (env: Self)
        ensures
            env.is(1337, 1650000000000, firefox_linux_agent()),
    {
        Environment {
            random_seed: 1337,
            frozen_timestamp: 1650000000000,
            user_agent: String::from_str(
                "Mozilla/5.0 (X11; Linux x86_64; rv:109.0) Gecko/20100101 Firefox/115.0",
            ),
        }
    }

    /// Safari on macOS.
    pub fn safari_macos() -> (env: Self)
        ensures
            env.is(9999, 1660000000000, safari_macos_agent()),
    {
        Environment {
            random_seed: 9999,
            frozen_timestamp: 1660000000000,
            user_agent: String::from_str(
                "Mozilla/5.0 (Macintosh; Intel Mac OS X 13_5) AppleWebKit/605.1.15 (KHTML, like Gecko) Version/16.5 Safari/605.1.15",
            ),
        }
    }

    /// A custom environment.
    pub fn custom(random_seed: u64, frozen_timestamp: i64, user_agent: &str) -> (env: Self)
        ensures
            env.is(random_seed, frozen_timestamp, user_agent@),
    {
        Environment { random_seed, frozen_timestamp, user_agent: String::from_str(user_agent) }
    }

    /// The three presets, for runs in several environments: Chrome on
    /// Windows, Firefox on Linux, Safari on macOS, in that order.
    pub fn diverse_set() -> (envs: Vec<Self>)
        ensures
            envs@.len() == 3,
            envs@[0].is(42, 1640000000000, chrome_windows_agent()),
            envs@[1].is(1337, 1650000000000, firefox_linux_agent()),
            envs@[2].is(9999, 1660000000000, safari_macos_agent()),
    {
        let mut envs = Vec::new();
        envs.push(Self::chrome_windows());
        envs.push(Self::firefox_linux());
        envs.push(Self::safari_macos());
        envs
    }
}

impl Default for Environment {
    /// Chrome on Windows.
    fn default() -> (env: Self)
        ensures
            env.is(42, 1640000000000, chrome_windows_agent()),
    {
        Self::chrome_windows()
    }
}

} // verus!
