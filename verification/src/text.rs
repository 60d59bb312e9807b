//! The textual addresses the nodes build: websocket URLs and local socket
//! addresses with a decimal port.

use vstd::prelude::*;

verus! {

/// The characters of `"ws://"`.
pub open spec fn ws_scheme() -> Seq<char> {
    seq!['w', 's', ':', '/', '/']
}

/// The websocket URL of a `host:port` address.
pub open spec fn ws_url_of(addr: Seq<char>) -> Seq<char> {
    ws_scheme() + addr
}

/// The character of a decimal digit.
pub open spec fn digit_char(d: nat) -> char
    recommends
        d < 10,
{
    ((d + 48) as u8) as char
}

/// The decimal notation of `n`, without leading zeros.
pub open spec fn decimal(n: nat) -> Seq<char>
    decreases n,
{
    if n < 10 {
        seq![digit_char(n)]
    } else {
        decimal(n / 10).push(digit_char(n % 10))
    }
}

/// The characters of `"127.0.0.1:"`.
pub open spec fn loopback_prefix() -> Seq<char> {
    seq!['1', '2', '7', '.', '0', '.', '0', '.', '1', ':']
}

/// The loopback socket address with the given port.
pub open spec fn loopback_addr(port: nat) -> Seq<char> {
    loopback_prefix() + decimal(port)
}

/// The URL is `ws://` followed by the whole address, character for
/// character.
pub proof fn lemma_ws_url_of(addr: Seq<char>)
    ensures
        ws_url_of(addr).len() == addr.len() + 5,
        ws_url_of(addr).subrange(0, 5) == seq!['w', 's', ':', '/', '/'],
        ws_url_of(addr).subrange(5, ws_url_of(addr).len() as int) == addr,
        forall|i: int| 0 <= i < addr.len() ==> #[trigger] ws_url_of(addr)[i + 5] == addr[i],
{
    assert(ws_url_of(addr).subrange(0, 5) =~= seq!['w', 's', ':', '/', '/']);
    assert(ws_url_of(addr).subrange(5, ws_url_of(addr).len() as int) =~= addr);
}

/// The number that a string of decimal digits denotes, the last digit being
/// the units.
pub open spec fn decimal_value(s: Seq<char>) -> int
    decreases s.len(),
{
    if s.len() == 0 {
        0
    } else {
        decimal_value(s.drop_last()) * 10 + (s.last() as u32 - 48)
    }
}

/// A character is a decimal digit, `'0'` to `'9'`.
pub open spec fn is_digit(c: char) -> bool {
    48 <= c as u32 <= 57
}

/// The digit character of `d` is the ASCII digit `'0' + d`.
pub proof fn lemma_digit_char(d: nat)
    requires
        d < 10,
    ensures
        digit_char(d) as u32 == 48 + d,
        is_digit(digit_char(d)),
{
}

/// The decimal notation of `n` is made of digits, has no leading zero, and
/// reads back as `n`.
pub proof fn lemma_decimal_reads_back(n: nat)
    ensures
        decimal(n).len() >= 1,
        forall|i: int| 0 <= i < decimal(n).len() ==> is_digit(#[trigger] decimal(n)[i]),
        n >= 10 ==> decimal(n)[0] != '0',
        decimal_value(decimal(n)) == n,
    decreases n,
{
    lemma_digit_char(n % 10);
    if n < 10 {
        assert(decimal(n).drop_last() =~= Seq::<char>::empty());
        assert(decimal(n).last() == digit_char(n));
        assert(n % 10 == n);
        assert(decimal_value(decimal(n)) == decimal_value(Seq::<char>::empty()) * 10 + (digit_char(n) as u32
            - 48));
    } else {
        lemma_decimal_reads_back(n / 10);
        let s = decimal(n);
        assert(s.drop_last() =~= decimal(n / 10));
        assert(s.last() == digit_char(n % 10));
        assert(n == (n / 10) * 10 + n % 10) by (nonlinear_arith);
        assert(decimal_value(s) == decimal_value(decimal(n / 10)) * 10 + (digit_char(n % 10) as u32 - 48));
        assert forall|i: int| 0 <= i < s.len() implies is_digit(#[trigger] s[i]) by {
            if i < s.len() - 1 {
                assert(s[i] == decimal(n / 10)[i]);
            }
        }
        if n / 10 >= 10 {
            assert(s[0] == decimal(n / 10)[0]);
        } else {
            lemma_digit_char(n / 10);
            assert(s[0] == digit_char(n / 10));
        }
    }
}

/// A loopback address is `127.0.0.1:` followed by the decimal digits of the
/// port, which read back as the port.
pub proof fn lemma_loopback_addr(port: nat)
    ensures
        loopback_addr(port).len() > 10,
        loopback_addr(port).subrange(0, 10) == seq!['1', '2', '7', '.', '0', '.', '0', '.', '1', ':'],
        forall|i: int| 10 <= i < loopback_addr(port).len() ==> is_digit(#[trigger] loopback_addr(port)[i]),
        decimal_value(loopback_addr(port).subrange(10, loopback_addr(port).len() as int)) == port,
{
    lemma_decimal_reads_back(port);
    let a = loopback_addr(port);
    assert(a.subrange(0, 10) =~= seq!['1', '2', '7', '.', '0', '.', '0', '.', '1', ':']);
    assert(a.subrange(10, a.len() as int) =~= decimal(port));
    assert forall|i: int| 10 <= i < a.len() implies is_digit(#[trigger] a[i]) by {
        assert(a[i] == decimal(port)[i - 10]);
    }
}

/// The websocket URL at which a node listening on `addr` is reached:
/// `ws://` followed by the address.
pub fn ws_url(addr: &str) -> (url: String)
    ensures
        url@ == ws_url_of(addr@),
{
    let mut url = String::from_str("ws://");
    proof {
        reveal_strlit("ws://");
    }
    url.append(addr);
    url
}

/// The one-character string of a decimal digit.
fn digit_str(d: u64) -> (s: &'static str)
    requires
        d < 10,
    ensures
        s@ == seq![digit_char(d as nat)],
{
    proof {
        reveal_strlit("0");
        reveal_strlit("1");
        reveal_strlit("2");
        reveal_strlit("3");
        reveal_strlit("4");
        reveal_strlit("5");
        reveal_strlit("6");
        reveal_strlit("7");
        reveal_strlit("8");
        reveal_strlit("9");
    }
    if d == 0 {
        "0"
    } else if d == 1 {
        "1"
    } else if d == 2 {
        "2"
    } else if d == 3 {
        "3"
    } else if d == 4 {
        "4"
    } else if d == 5 {
        "5"
    } else if d == 6 {
        "6"
    } else if d == 7 {
        "7"
    } else if d == 8 {
        "8"
    } else {
        "9"
    }
}

/// Appends the decimal notation of `n` to `s`.
fn append_decimal(s: &mut String, n: u64)
    ensures
        final(s)@ == old(s)@ + decimal(n as nat),
    decreases n,
{
    if n >= 10 {
        append_decimal(s, n / 10);
    }
    let d = digit_str(n % 10);
    s.append(d);
}

/// The loopback socket address `127.0.0.1:<port>`.
pub fn loopback_address(port: u64) -> (addr: String)
    ensures
        addr@ == loopback_addr(port as nat),
{
    let mut addr = String::from_str("127.0.0.1:");
    proof {
        reveal_strlit("127.0.0.1:");
    }
    append_decimal(&mut addr, port);
    addr
}

} // verus!
