//! Settings of the node daemon and its command-line client that follow from
//! the network.
use vstd::prelude::*;
use vstd::string::StringExecFns;

use crate::params::Network;
use crate::types::Hash32;

verus! {

/// `s` without the path separators (`/` or `\`) at its end.
pub open spec fn trim_separators(s: Seq<char>) -> Seq<char>
    decreases s.len(),
{
    if s.len() > 0 && (s.last() == '/' || s.last() == '\\') {
        trim_separators(s.drop_last())
    } else {
        s
    }
}

/// An accumulator state to start from instead of validating the chain up to
/// `height`.
#[derive(Clone, Debug)]
pub struct AssumeUtreexoValue {
    pub block_hash: Hash32,
    pub height: u32,
    pub roots: Vec<Hash32>,
    pub leaves: u64,
}

/// General configuration of the node daemon.
#[derive(Clone, Debug)]
pub struct Config {
    /// Whether DNS seeds are not asked for peers.
    pub disable_dns_seeds: bool,
    /// Where the node keeps its data; `.floresta` in the home directory if unset.
    pub data_dir: Option<String>,
    /// Blocks before this one are taken to have valid scripts.
    pub assume_valid: Option<String>,
    /// Extended public keys for the watch-only wallet.
    pub wallet_xpub: Option<Vec<String>>,
    /// Output descriptors for the watch-only wallet.
    pub wallet_descriptor: Option<Vec<String>>,
    /// A configuration file to read.
    pub config_file: Option<String>,
    /// A SOCKS5 proxy for outgoing connections.
    pub proxy: Option<String>,
    /// The network the node runs on.
    pub network: Network,
    /// Whether compact block filters are built and stored.
    pub cfilters: bool,
    /// Height from which filters are downloaded; negative counts back from the tip.
    pub filters_start_height: Option<i32>,
    /// A single peer to connect to.
    pub connect: Option<String>,
    /// Address of the JSON-RPC server.
    pub json_rpc_address: Option<String>,
    /// Whether logs go to standard output.
    pub log_to_stdout: bool,
    /// Whether logs go to a file in the data directory.
    pub log_to_file: bool,
    /// Whether to start from a known accumulator state.
    pub assume_utreexo: bool,
    /// Whether debug messages are logged.
    pub debug: bool,
    /// The user agent advertised to peers.
    pub user_agent: String,
    /// The accumulator state to start from.
    pub assumeutreexo_value: Option<AssumeUtreexoValue>,
    /// Address of the Electrum server.
    pub electrum_address: Option<String>,
    /// Whether the Electrum server also listens with TLS.
    pub enable_electrum_tls: bool,
    /// Address of the Electrum TLS server.
    pub electrum_address_tls: Option<String>,
    /// TLS private key, PKCS#8; `{data_dir}/tls/key.pem` if unset.
    pub tls_key_path: Option<String>,
    /// TLS certificate; `{data_dir}/tls/cert.pem` if unset.
    pub tls_cert_path: Option<String>,
    /// Whether to create a self-signed certificate.
    pub generate_cert: bool,
    /// Whether v1 transport is used where v2 fails.
    pub allow_v1_fallback: bool,
    /// Whether blocks skipped at start-up are validated in the background.
    pub backfill: bool,
}

impl Default for Config {
    /// Mainnet, everything optional unset and every switch off.
    fn default() -> (r: Config)
        ensures
            r.network == Network::Bitcoin,
            r.data_dir is None,
            r.assume_valid is None,
            r.wallet_xpub is None,
            r.wallet_descriptor is None,
            r.config_file is None,
            r.proxy is None,
            r.filters_start_height is None,
            r.connect is None,
            r.json_rpc_address is None,
            r.assumeutreexo_value is None,
            r.electrum_address is None,
            r.electrum_address_tls is None,
            r.tls_key_path is None,
            r.tls_cert_path is None,
            r.user_agent@.len() == 0,
            !r.disable_dns_seeds && !r.cfilters && !r.log_to_stdout && !r.log_to_file,
            !r.assume_utreexo && !r.debug && !r.enable_electrum_tls && !r.generate_cert,
            !r.allow_v1_fallback && !r.backfill,
    {
        Config {
            disable_dns_seeds: false,
            data_dir: None,
            assume_valid: None,
            wallet_xpub: None,
            wallet_descriptor: None,
            config_file: None,
            proxy: None,
            network: Network::Bitcoin,
            cfilters: false,
            filters_start_height: None,
            connect: None,
            json_rpc_address: None,
            log_to_stdout: false,
            log_to_file: false,
            assume_utreexo: false,
            debug: false,
            user_agent: String::new(),
            assumeutreexo_value: None,
            electrum_address: None,
            enable_electrum_tls: false,
            electrum_address_tls: None,
            generate_cert: false,
            tls_key_path: None,
            tls_cert_path: None,
            allow_v1_fallback: false,
            backfill: false,
        }
    }
}

/// Relies on `str::trim_end_matches` with the two separators: every trailing
/// `/` and `\` removed.
#[verifier::external_body]
fn trim_end_separators(s: &str) -> (r: String)
    ensures
        r@ == trim_separators(s@),
{
    s.trim_end_matches(['/', '\\']).to_string()
}

/// Relies on `PathBuf::push` with a relative component, as on Unix: the
/// component itself after an empty path, else appended with a `/` between
/// unless the path already ends in one.
#[verifier::external_body]
fn push_component(base: String, name: &str) -> (r: String)
    requires
        name@.len() > 0,
        name@[0] != '/',
    ensures
        r@ == join_path(base@, name@),
{
    let mut path = std::path::PathBuf::from(base);
    path.push(name);
    path.to_string_lossy().into_owned()
}

/// The directory below the base directory that holds a network's data; none
/// for mainnet.
pub open spec fn network_subdir(network: Network) -> Seq<char> {
    match network {
        Network::Bitcoin => Seq::empty(),
        Network::Signet => "signet"@,
        Network::Testnet => "testnet3"@,
        Network::Testnet4 => "testnet4"@,
        Network::Regtest => "regtest"@,
    }
}

/// `base` with `name` appended as a path component.
pub open spec fn join_path(base: Seq<char>, name: Seq<char>) -> Seq<char> {
    if name.len() == 0 {
        base
    } else if base.len() == 0 {
        name
    } else if base.last() == '/' {
        base + name
    } else {
        base + "/"@ + name
    }
}

/// The data directory: the configured one without trailing separators, or
/// `.floresta` in the home directory (in the working directory where there is
/// no home), then the network's own subdirectory. Components are joined as
/// paths are on Unix.
pub open spec fn data_dir_spec(data_dir: Option<Seq<char>>, home: Option<Seq<char>>, network: Network) -> Seq<char> {
    let base = match data_dir {
        Some(d) => trim_separators(d),
        None => join_path(
            match home {
                Some(h) => h,
                None => "."@,
            },
            ".floresta"@,
        ),
    };
    join_path(base, network_subdir(network))
}

fn subdir(network: Network) -> (r: &'static str)
    ensures
        r@ == network_subdir(network),
        r@.len() > 0 ==> r@[0] != '/',
{
    proof {
        reveal_strlit("signet");
        reveal_strlit("testnet3");
        reveal_strlit("testnet4");
        reveal_strlit("regtest");
        reveal_strlit("");
    }
    match network {
        Network::Bitcoin => "",
        Network::Signet => "signet",
        Network::Testnet => "testnet3",
        Network::Testnet4 => "testnet4",
        Network::Regtest => "regtest",
    }
}

fn join(base: String, name: &str) -> (r: String)
    requires
        name@.len() > 0 ==> name@[0] != '/',
    ensures
        r@ == join_path(base@, name@),
{
    if name.is_empty() {
        return base;
    }
    push_component(base, name)
}

/// Where the node keeps its data under `config`, given the user's home
/// directory `home`.
pub fn data_dir_path(config: &Config, home: &Option<String>) -> (r: String)
    ensures
        r@ == data_dir_spec(
            match config.data_dir {
                Some(d) => Some(d@),
                None => None,
            },
            match home {
                Some(h) => Some(h@),
                None => None,
            },
            config.network,
        ),
{
    proof {
        reveal_strlit(".");
        reveal_strlit(".floresta");
    }
    let base = match &config.data_dir {
        Some(d) => trim_end_separators(d.as_str()),
        None => {
            let h = match home {
                Some(h) => h.clone(),
                None => String::from_str("."),
            };
            join(h, ".floresta")
        },
    };
    join(base, subdir(config.network))
}

/// The default port of the Electrum server on `network`; the TLS server
/// listens on the next port.
pub fn get_default_electrum_port(network: Network, enable_electrum_tls: bool) -> (r: u16)
    ensures
        r == (match network {
            Network::Bitcoin => 50001u16,
            Network::Signet => 60001u16,
            Network::Testnet4 => 40001u16,
            Network::Testnet => 30001u16,
            Network::Regtest => 20001u16,
        }) + (if enable_electrum_tls {
            1u16
        } else {
            0u16
        }),
{
    let port: u16 = match network {
        Network::Bitcoin => 50001,
        Network::Signet => 60001,
        Network::Testnet4 => 40001,
        Network::Testnet => 30001,
        Network::Regtest => 20001,
    };
    if enable_electrum_tls {
        port + 1
    } else {
        port
    }
}

/// The local RPC address of a node on `network`.
pub open spec fn default_rpc_host(network: Network) -> Seq<char> {
    match network {
        Network::Testnet => "http://127.0.0.1:18332"@,
        Network::Signet => "http://127.0.0.1:38332"@,
        Network::Regtest => "http://127.0.0.1:18442"@,
        _ => "http://127.0.0.1:8332"@,
    }
}

/// The RPC host the client talks to: the one given, else the network's default.
pub fn get_host(rpc_host: &Option<String>, network: Network) -> (r: String)
    ensures
        r@ == match rpc_host {
            Some(h) => h@,
            None => default_rpc_host(network),
        },
{
    match rpc_host {
        Some(h) => h.clone(),
        None => {
            proof {
                reveal_strlit("http://127.0.0.1:18332");
                reveal_strlit("http://127.0.0.1:38332");
                reveal_strlit("http://127.0.0.1:18442");
                reveal_strlit("http://127.0.0.1:8332");
            }
            let host = match network {
                Network::Testnet => "http://127.0.0.1:18332",
                Network::Signet => "http://127.0.0.1:38332",
                Network::Regtest => "http://127.0.0.1:18442",
                _ => "http://127.0.0.1:8332",
            };
            String::from_str(host)
        },
    }
}

} // verus!
