//! The reverse-proxy target.
//!
//! A proxied request keeps its method, headers and body; only its target
//! URI changes, to the local backend: `http://127.0.0.1:<port>` followed
//! by the original path-and-query (or the bare path when the request URI
//! carries no path-and-query part).

use vstd::prelude::*;

verus! {

/// The decimal digit character for `d`.
pub open spec fn digit_char(d: nat) -> char {
    if d == 0 {
        '0'
    } else if d == 1 {
        '1'
    } else if d == 2 {
        '2'
    } else if d == 3 {
        '3'
    } else if d == 4 {
        '4'
    } else if d == 5 {
        '5'
    } else if d == 6 {
        '6'
    } else if d == 7 {
        '7'
    } else if d == 8 {
        '8'
    } else {
        '9'
    }
}

/// The decimal digits of `n`, most significant first, with no leading
/// zero except for `n == 0` itself.
pub open spec fn decimal_digits(n: nat) -> Seq<char>
    decreases n,
{
    if n < 10 {
        seq![digit_char(n)]
    } else {
        decimal_digits(n / 10) + seq![digit_char(n % 10)]
    }
}

/// The single-character string for the decimal digit `d`.
fn digit_str(d: u16) -> (r: &'static str)
    requires
        d < 10,
    ensures
        r@ == seq![digit_char(d as nat)],
{
    proof {
        reveal_strlit("0");
        reveal_strlit("1");
        reveal_strlit("2");
        reveal_strlit("3");
        reveal_strlit("4");
        reveal_strlit("5");
        reveal_strlit("6");
        reveal_strlit("7");
        reveal_strlit("8");
        reveal_strlit("9");
    }
    if d == 0 {
        proof {
            assert("0"@ =~= seq!['0']);
        }
        "0"
    } else if d == 1 {
        proof {
            assert("1"@ =~= seq!['1']);
        }
        "1"
    } else if d == 2 {
        proof {
            assert("2"@ =~= seq!['2']);
        }
        "2"
    } else if d == 3 {
        proof {
            assert("3"@ =~= seq!['3']);
        }
        "3"
    } else if d == 4 {
        proof {
            assert("4"@ =~= seq!['4']);
        }
        "4"
    } else if d == 5 {
        proof {
            assert("5"@ =~= seq!['5']);
        }
        "5"
    } else if d == 6 {
        proof {
            assert("6"@ =~= seq!['6']);
        }
        "6"
    } else if d == 7 {
        proof {
            assert("7"@ =~= seq!['7']);
        }
        "7"
    } else if d == 8 {
        proof {
            assert("8"@ =~= seq!['8']);
        }
        "8"
    } else {
        proof {
            assert("9"@ =~= seq!['9']);
        }
        "9"
    }
}

/// The decimal rendering of a port number.
pub fn u16_decimal(n: u16) -> (r: String)
    ensures
        r@ == decimal_digits(n as nat),
    decreases n,
{
    if n < 10 {
        digit_str(n).to_owned()
    } else {
        let mut r = u16_decimal(n / 10);
        r.append(digit_str(n % 10));
        r
    }
}

/// The backend URI a proxied request is rewritten to.
pub open spec fn proxy_target_spec(port: u16, path_query: Seq<char>) -> Seq<char> {
    seq!['h', 't', 't', 'p', ':', '/', '/', '1', '2', '7', '.', '0', '.', '0', '.', '1', ':']
        + decimal_digits(port as nat) + path_query
}

/// Build the backend target URI for the reverse proxy: scheme and
/// loopback authority with the backend port, then the original
/// path-and-query, which defaults to the bare path when the request URI
/// has no path-and-query part. Method, headers and body are not touched
/// here: the caller forwards them unchanged.
pub fn proxy_target(port: u16, path_and_query: Option<&str>, path: &str) -> (r: String)
    ensures
        r@ == proxy_target_spec(
            port,
            match path_and_query {
                Some(pq) => pq@,
                None => path@,
            },
        ),
{
    let prefix: String = "http://127.0.0.1:".to_owned();
    proof {
        reveal_strlit("http://127.0.0.1:");
        assert(prefix@ =~= seq![
            'h',
            't',
            't',
            'p',
            ':',
            '/',
            '/',
            '1',
            '2',
            '7',
            '.',
            '0',
            '.',
            '0',
            '.',
            '1',
            ':',
        ]);
    }
    let port_str = u16_decimal(port);
    let mut r = prefix.concat(port_str.as_str());
    match path_and_query {
        Some(pq) => r.concat(pq),
        None => r.concat(path),
    }
}

} // verus!
