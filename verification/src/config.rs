//! Saved settings and the precedence by which they combine with command-line values.

use vstd::prelude::*;

verus! {

/// Settings that may be saved to the configuration file.
pub struct Config {
    pub daemon_url: Option<String>,
    pub bundle_template: Option<String>,
    pub registry_address: Option<String>,
    pub ipfs_api: Option<String>,
    pub pinata_jwt: Option<String>,
}

/// The wallet daemon URL used when none is given or saved.
pub open spec fn default_daemon_url() -> Seq<char> {
    "http://localhost:5100/json_rpc"@
}

/// The daemon URL in effect: the one given for this run, else the saved one, else the default.
pub open spec fn effective_daemon_url(saved: Option<Seq<char>>, given: Option<Seq<char>>) -> Seq<char> {
    match given {
        Some(u) => u,
        None => match saved {
            Some(d) => d,
            None => default_daemon_url(),
        },
    }
}

/// A URL given for the run wins over a saved one; a saved one wins over the default;
/// and a URL saved by the `config` command is the one read back when none is given.
pub proof fn lemma_daemon_url_precedence(saved: Option<Seq<char>>, given: Seq<char>, stored: Seq<char>)
    ensures
        effective_daemon_url(saved, Some(given)) == given,
        effective_daemon_url(Some(stored), None) == stored,
        effective_daemon_url(None, None) == default_daemon_url(),
        effective_daemon_url(prefer(Some(stored), saved), None) == stored,
{
}

/// The characters of an optional string.
pub open spec fn opt_view(o: Option<String>) -> Option<Seq<char>> {
    match o {
        Some(s) => Some(s@),
        None => None,
    }
}

/// `top` where it is set, else `base`.
pub open spec fn prefer(top: Option<Seq<char>>, base: Option<Seq<char>>) -> Option<Seq<char>> {
    if top is Some { top } else { base }
}

fn clone_opt(o: &Option<String>) -> (res: Option<String>)
    ensures
        opt_view(res) == opt_view(*o),
{
    match o {
        Some(s) => Some(s.clone()),
        None => None,
    }
}

fn prefer_opt(top: &Option<String>, base: &Option<String>) -> (res: Option<String>)
    ensures
        opt_view(res) == prefer(opt_view(*top), opt_view(*base)),
{
    if top.is_some() { clone_opt(top) } else { clone_opt(base) }
}

impl Config {
    /// A configuration with nothing saved.
    pub fn empty() -> (res: Config)
        ensures
            res.daemon_url is None,
            res.bundle_template is None,
            res.registry_address is None,
            res.ipfs_api is None,
            res.pinata_jwt is None,
    {
        Config { daemon_url: None, bundle_template: None, registry_address: None, ipfs_api: None, pinata_jwt: None }
    }

    /// The daemon URL to use: `override_url` if given, else the saved one, else the default.
    pub fn daemon_url(&self, override_url: Option<&str>) -> (res: String)
        ensures
            res@ == effective_daemon_url(opt_view(self.daemon_url), match override_url {
                Some(u) => Some(u@),
                None => None,
            }),
    {
        match override_url {
            Some(u) => u.to_owned(),
            None => match &self.daemon_url {
                Some(d) => d.clone(),
                None => "http://localhost:5100/json_rpc".to_owned(),
            },
        }
    }

    /// Each setting of `top` that is set, and of `self` otherwise. Values given on the
    /// command line take precedence over saved ones in this way, and the `config`
    /// command saves new values over old ones in this way.
    pub fn overlay(&self, top: &Config) -> (res: Config)
        ensures
            opt_view(res.daemon_url) == prefer(opt_view(top.daemon_url), opt_view(self.daemon_url)),
            opt_view(res.bundle_template) == prefer(opt_view(top.bundle_template), opt_view(self.bundle_template)),
            opt_view(res.registry_address) == prefer(opt_view(top.registry_address), opt_view(self.registry_address)),
            opt_view(res.ipfs_api) == prefer(opt_view(top.ipfs_api), opt_view(self.ipfs_api)),
            opt_view(res.pinata_jwt) == prefer(opt_view(top.pinata_jwt), opt_view(self.pinata_jwt)),
    {
        Config {
            daemon_url: prefer_opt(&top.daemon_url, &self.daemon_url),
            bundle_template: prefer_opt(&top.bundle_template, &self.bundle_template),
            registry_address: prefer_opt(&top.registry_address, &self.registry_address),
            ipfs_api: prefer_opt(&top.ipfs_api, &self.ipfs_api),
            pinata_jwt: prefer_opt(&top.pinata_jwt, &self.pinata_jwt),
        }
    }
}

impl Default for Config {
    fn default() -> (res: Config)
        ensures
            res.daemon_url is None,
            res.bundle_template is None,
            res.registry_address is None,
            res.ipfs_api is None,
            res.pinata_jwt is None,
    {
        Config::empty()
    }
}

} // verus!
