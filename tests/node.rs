use std::path::PathBuf;

use floresta_consensus::daemon::{data_dir_path, get_default_electrum_port, get_host, Config};
use floresta_consensus::params::Network;
use floresta_consensus::rpc::{get_memory_info, GetMemInfoRes, GetMemInfoStats, JsonRpcError, MallInfo, RpcImpl};

fn home() -> Option<String> {
    dirs::home_dir().map(|p| p.display().to_string())
}

#[test]
fn test_data_dir_path() {
    let mut config = Config::default();

    let expected = dirs::home_dir()
        .unwrap_or(PathBuf::from("."))
        .join(".floresta");

    assert_eq!(
        data_dir_path(&config, &home()),
        expected.display().to_string(),
    );

    // Using other made-up directories
    config.data_dir = Some("path/to/dir".to_string());
    assert_eq!(data_dir_path(&config, &home()), "path/to/dir");

    config.data_dir = Some("path/to/dir/".to_string());
    assert_eq!(data_dir_path(&config, &home()), "path/to/dir");

    config.data_dir = Some(format!("path{}", '\\')); // test removing the \ separator
    assert_eq!(data_dir_path(&config, &home()), "path");

    config.data_dir = Some("path///".to_string()); // test removing many separators
    assert_eq!(data_dir_path(&config, &home()), "path");

    // Using other networks
    for &(net, suffix) in &[
        (Network::Testnet, "testnet3"),
        (Network::Testnet4, "testnet4"),
        (Network::Signet, "signet"),
        (Network::Regtest, "regtest"),
    ] {
        let expected = PathBuf::from("path").join(suffix);
        config.network = net;

        assert_eq!(
            data_dir_path(&config, &home()),
            expected.display().to_string(),
        );
    }
}

#[test]
fn data_dir_without_home() {
    let mut config = Config::default();
    config.network = Network::Signet;
    assert_eq!(data_dir_path(&config, &None), "./.floresta/signet");
    config.network = Network::Bitcoin;
    assert_eq!(data_dir_path(&config, &Some("/".to_string())), "/.floresta");
    config.network = Network::Regtest;
    config.data_dir = Some("///".to_string());
    assert_eq!(data_dir_path(&config, &None), "regtest");
}

#[test]
fn electrum_ports() {
    assert_eq!(get_default_electrum_port(Network::Bitcoin, false), 50001);
    assert_eq!(get_default_electrum_port(Network::Bitcoin, true), 50002);
    assert_eq!(get_default_electrum_port(Network::Signet, false), 60001);
    assert_eq!(get_default_electrum_port(Network::Testnet4, true), 40002);
    assert_eq!(get_default_electrum_port(Network::Testnet, false), 30001);
    assert_eq!(get_default_electrum_port(Network::Regtest, true), 20002);
}

#[test]
fn rpc_hosts() {
    assert_eq!(get_host(&None, Network::Bitcoin), "http://127.0.0.1:8332");
    assert_eq!(get_host(&None, Network::Testnet), "http://127.0.0.1:18332");
    assert_eq!(get_host(&None, Network::Signet), "http://127.0.0.1:38332");
    assert_eq!(get_host(&None, Network::Regtest), "http://127.0.0.1:18442");
    assert_eq!(get_host(&None, Network::Testnet4), "http://127.0.0.1:8332");
    assert_eq!(get_host(&Some("http://node:1".to_string()), Network::Regtest), "http://node:1");
}

#[test]
fn uptime_counts_from_start() {
    let rpc = RpcImpl::new(100);
    assert_eq!(rpc.uptime(160), 60);
    assert_eq!(rpc.uptime(100), 0);
    assert_eq!(rpc.uptime(50), 0);
}

#[test]
fn memory_stats_total() {
    let s = GetMemInfoStats::from_counters(10, 5, 7, 3, 2);
    assert_eq!(s.locked.total, 15);
    assert_eq!(s.locked.locked, 7);
    assert_eq!(s.locked.chunks_free, 2);
}

#[test]
fn memory_info_modes() {
    let info = MallInfo { uordblks: 1200, fordblks: -5, hblkhd: 0, ordblks: 7, smblks: 90 };
    match get_memory_info("mallocinfo", &info) {
        Ok(GetMemInfoRes::MallocInfo(x)) => assert_eq!(
            x,
            "<malloc version=\"2.0\"><heap nr=\"1\"><allocated>0</allocated><free>1200</free><total>-5</total><locked>1195</locked><chunks nr=\"0\"><used>7</used><free>90</free></chunks></heap></malloc>"
        ),
        other => panic!("{other:?}"),
    }
    match get_memory_info("stats", &info) {
        Ok(GetMemInfoRes::Stats(s)) => {
            assert_eq!(s.locked.used, 1200);
            assert_eq!(s.locked.total, 1195);
            assert_eq!(s.locked.chunks_free, 90);
        }
        other => panic!("{other:?}"),
    }
    assert_eq!(get_memory_info("other", &info).err(), Some(JsonRpcError::InvalidMemInfoMode));
}
