//! The application shell's shutdown and wallet-reload decisions.

use liana_gui::aliases::AliasMap;
use liana_gui::app::App;
use liana_gui::chain::Fingerprint;
use liana_gui::config::Config;
use liana_gui::wallet::Wallet;

fn wallet(name: &str) -> Wallet {
    Wallet {
        name: String::from(name),
        main_descriptor: String::from("wsh(pk(k))#c"),
        keys: vec![Fingerprint::new(1)],
        keys_aliases: AliasMap::new(),
        hardware_wallets: Vec::new(),
    }
}

fn app(external: bool, internal_bitcoind: bool) -> App {
    App {
        config: Config::new(String::from("/data/daemon.toml"), internal_bitcoind),
        wallet: wallet("w"),
        daemon_is_external: external,
        daemon_running: true,
        internal_bitcoind,
        internal_bitcoind_running: internal_bitcoind,
    }
}

#[test]
fn stop_leaves_an_external_daemon_alone() {
    let mut a = app(true, false);
    a.stop();
    assert!(a.daemon_running);
}

#[test]
fn stop_stops_an_embedded_daemon_and_its_bitcoind() {
    let mut a = app(false, true);
    a.stop();
    assert!(!a.daemon_running);
    assert!(!a.internal_bitcoind_running);
}

#[test]
fn stop_without_internal_bitcoind_stops_only_the_daemon() {
    let mut a = app(false, false);
    a.stop();
    assert!(!a.daemon_running);
    assert!(!a.internal_bitcoind_running);
}

#[test]
fn load_wallet_installs_the_new_context() {
    let mut a = app(false, false);
    a.load_wallet(wallet("reloaded"));
    assert_eq!(a.wallet.name, "reloaded");
    assert!(a.daemon_running);
}
