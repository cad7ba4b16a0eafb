//! Process configuration.  Loading the values from the environment is
//! I/O and lives outside the verified library; this module holds the
//! configuration shape and the derived server address.

use vstd::prelude::*;
use vstd::string::StringExecFns;

verus! {

/// Configuration supplied by the process environment.
#[derive(Clone, Debug)]
pub struct Config {
    pub server_host: String,
    pub server_port: u16,
    pub log_level: Option<String>,
    pub binance_socket_url: String,
    pub max_reconnect_attempts: u32,
}

/// The decimal digit character for `d` (`d < 10`).
pub open spec fn digit_char(d: nat) -> char {
    if d == 0 { '0' }
    else if d == 1 { '1' }
    else if d == 2 { '2' }
    else if d == 3 { '3' }
    else if d == 4 { '4' }
    else if d == 5 { '5' }
    else if d == 6 { '6' }
    else if d == 7 { '7' }
    else if d == 8 { '8' }
    else { '9' }
}

/// The decimal digits of `n`, most significant first, without leading
/// zeros (except that `0` itself is the single digit `0`).
pub open spec fn dec_digits(n: nat) -> Seq<char>
    decreases n,
{
    if n < 10 {
        seq![digit_char(n)]
    } else {
        dec_digits(n / 10) + seq![digit_char(n % 10)]
    }
}

/// A one-character string slice for the decimal digit `d`.
fn digit_str(d: u16) -> (r: &'static str)
    requires
        d < 10,
    ensures
        r@ =~= seq![digit_char(d as nat)],
{
    proof {
        reveal_strlit("0");
        reveal_strlit("1");
        reveal_strlit("2");
        reveal_strlit("3");
        reveal_strlit("4");
        reveal_strlit("5");
        reveal_strlit("6");
        reveal_strlit("7");
        reveal_strlit("8");
        reveal_strlit("9");
    }
    if d == 0 { "0" }
    else if d == 1 { "1" }
    else if d == 2 { "2" }
    else if d == 3 { "3" }
    else if d == 4 { "4" }
    else if d == 5 { "5" }
    else if d == 6 { "6" }
    else if d == 7 { "7" }
    else if d == 8 { "8" }
    else { "9" }
}

/// Appends the decimal digits of `n` to `s`.
fn push_decimal(s: &mut String, n: u16)
    ensures
        final(s)@ == old(s)@ + dec_digits(n as nat),
    decreases n,
{
    if n >= 10 {
        push_decimal(s, n / 10);
        s.append(digit_str(n % 10));
        proof {
            assert(s@ =~= old(s)@ + dec_digits(n as nat));
        }
    } else {
        s.append(digit_str(n));
        proof {
            assert(s@ =~= old(s)@ + dec_digits(n as nat));
        }
    }
}

impl Default for Config {
    /// The development defaults: a local server and the public Binance
    /// endpoint template, with five reconnection attempts.
    fn default() -> (c: Config)
        ensures
            c.server_host@ == "127.0.0.1"@,
            c.server_port == 3000,
            c.log_level matches Some(l) && l@ == "info"@,
            c.binance_socket_url@ == "wss://stream.binance.com:9443/ws/{}@ticker"@,
            c.max_reconnect_attempts == 5,
    {
        Config {
            server_host: String::from_str("127.0.0.1"),
            server_port: 3000,
            log_level: Some(String::from_str("info")),
            binance_socket_url: String::from_str("wss://stream.binance.com:9443/ws/{}@ticker"),
            max_reconnect_attempts: 5,
        }
    }
}

impl Config {
    /// The host and port of this configuration as `host:port`.
    pub fn server_address(&self) -> (r: String)
        ensures
            r@ == self.server_host@ + ":"@ + dec_digits(self.server_port as nat),
    {
        let mut r = self.server_host.clone();
        r.append(":");
        push_decimal(&mut r, self.server_port);
        proof {
            assert(r@ =~= self.server_host@ + ":"@ + dec_digits(self.server_port as nat));
        }
        r
    }
}

} // verus!
