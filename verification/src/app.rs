//! The application shell's verified core: the state the surrounding program
//! keeps about its daemon and wallet, and the decisions it takes on shutdown
//! and wallet reload. The I/O those decisions command (stopping processes,
//! asking the daemon for its info, reading settings) is performed by the
//! surrounding program.

use vstd::prelude::*;

use crate::config::Config;
use crate::wallet::Wallet;

verus! {

/// The running application's core state.
#[derive(Debug)]
pub struct App {
    pub config: Config,
    /// The active wallet context.
    pub wallet: Wallet,
    /// Whether the daemon serving this application runs outside it; an
    /// external daemon is never stopped by the application.
    pub daemon_is_external: bool,
    /// Whether the daemon is running.
    pub daemon_running: bool,
    /// Whether an internal bitcoind executable was started for this run.
    pub internal_bitcoind: bool,
    /// Whether that internal bitcoind is running.
    pub internal_bitcoind_running: bool,
}

impl App {
    /// Close requested: an embedded daemon is stopped, and with it the
    /// internal bitcoind where one was started; an external daemon is left
    /// alone.
    pub fn stop(&mut self)
        ensures
            old(self).daemon_is_external ==> *final(self) == *old(self),
            !old(self).daemon_is_external ==> {
                &&& final(self).daemon_running == false
                &&& final(self).internal_bitcoind_running == (old(self).internal_bitcoind_running
                    && !old(self).internal_bitcoind)
                &&& final(self).config == old(self).config
                &&& final(self).wallet == old(self).wallet
                &&& final(self).daemon_is_external == old(self).daemon_is_external
                &&& final(self).internal_bitcoind == old(self).internal_bitcoind
            },
    {
        if !self.daemon_is_external {
            self.daemon_running = false;
            if self.internal_bitcoind {
                self.internal_bitcoind_running = false;
            }
        }
    }

    /// Installs a freshly loaded wallet context (built by the surrounding
    /// program from the daemon's info and the stored settings).
    pub fn load_wallet(&mut self, wallet: Wallet)
        ensures
            final(self).wallet == wallet,
            final(self).config == old(self).config,
            final(self).daemon_is_external == old(self).daemon_is_external,
            final(self).daemon_running == old(self).daemon_running,
            final(self).internal_bitcoind == old(self).internal_bitcoind,
            final(self).internal_bitcoind_running == old(self).internal_bitcoind_running,
    {
        self.wallet = wallet;
    }
}

} // verus!
