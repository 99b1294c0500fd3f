//! Which addresses the HTTP proxy refuses: anything but `http` and
//! `https`, the local host, and the private address ranges.

use crate::text::{
    chars_of,
    find_char,
    has_prefix,
    index_of_char,
    lemma_index_of_char,
    lowercase,
    same_chars,
    slice_chars,
    starts_with,
};
use vstd::prelude::*;

verus! {

/// The seconds a request may take unless the caller says otherwise.
pub const DEFAULT_TIMEOUT_SECS: u64 = 30;

/// The part of `s` before its first `c`; all of `s` if it holds none.
pub open spec fn before_char(s: Seq<char>, c: char) -> Seq<char> {
    s.take(index_of_char(s, c, 0))
}

/// The host and port of a lower-case address: what stands between the
/// scheme and the first `/`. `None` for a scheme other than `http` and
/// `https`.
pub open spec fn authority_of(lower: Seq<char>) -> Option<Seq<char>> {
    if starts_with(lower, "http://"@) {
        Some(before_char(lower.skip(7), '/'))
    } else if starts_with(lower, "https://"@) {
        Some(before_char(lower.skip(8), '/'))
    } else {
        None
    }
}

/// The value of a run of decimal digits.
pub open spec fn digits_value(s: Seq<char>, n: int) -> int
    decreases n,
{
    if n <= 0 || n > s.len() {
        0
    } else {
        digits_value(s, n - 1) * 10 + (s[n - 1] as int - '0' as int)
    }
}

/// Whether every character is a decimal digit.
pub open spec fn all_digits(s: Seq<char>) -> bool {
    forall|i: int| 0 <= i < s.len() ==> '0' <= #[trigger] s[i] && s[i] <= '9'
}

/// The number from 0 to 255 that a text writes: decimal digits, which a
/// `+` may precede.
pub open spec fn octet_value(s: Seq<char>) -> Option<int> {
    let digits = if s.len() > 0 && s[0] == '+' {
        s.skip(1)
    } else {
        s
    };
    if digits.len() > 0 && all_digits(digits) && digits_value(digits, digits.len() as int) <= 255 {
        Some(digits_value(digits, digits.len() as int))
    } else {
        None
    }
}

/// The second of the labels of a host that dots separate, if it has more
/// than one.
pub open spec fn second_label(host: Seq<char>) -> Option<Seq<char>> {
    let dot = index_of_char(host, '.', 0);
    if dot >= host.len() {
        None
    } else {
        Some(before_char(host.skip(dot + 1), '.'))
    }
}

/// Whether a host, without its port, is refused: the local host by name or
/// address, and the addresses that begin with `10.`, `192.168.`, `0.`, or
/// `172.` followed by a number from 16 to 31.
pub open spec fn blocked_host(host: Seq<char>) -> bool {
    ||| host == "localhost"@
    ||| host == "127.0.0.1"@
    ||| host == "::1"@
    ||| starts_with(host, "10."@)
    ||| starts_with(host, "192.168."@)
    ||| starts_with(host, "0."@)
    ||| (starts_with(host, "172."@) && match second_label(host) {
        Some(label) => match octet_value(label) {
            Some(n) => 16 <= n <= 31,
            None => false,
        },
        None => false,
    })
}

/// Whether an address is refused. Case does not matter.
pub open spec fn blocked_url(url: Seq<char>) -> bool {
    let lower = lowercase(url);
    if starts_with(lower, "file://"@) {
        true
    } else {
        match authority_of(lower) {
            None => true,
            Some(authority) => blocked_host(before_char(authority, ':')),
        }
    }
}

proof fn lemma_digits_value_grows(s: Seq<char>, n: int)
    requires
        0 <= n <= s.len(),
        all_digits(s),
    ensures
        0 <= digits_value(s, n),
        n > 0 ==> digits_value(s, n - 1) <= digits_value(s, n),
    decreases n,
{
    if n > 0 {
        lemma_digits_value_grows(s, n - 1);
        assert('0' <= s[n - 1] && s[n - 1] <= '9');
    }
}

proof fn lemma_digits_value_monotone(s: Seq<char>, n: int, m: int)
    requires
        0 <= n <= m <= s.len(),
        all_digits(s),
    ensures
        digits_value(s, n) <= digits_value(s, m),
    decreases m - n,
{
    if n < m {
        lemma_digits_value_monotone(s, n, m - 1);
        lemma_digits_value_grows(s, m);
    }
}

/// The number from 0 to 255 that a text writes.
pub fn parse_octet(text: &Vec<char>) -> (r: Option<u8>)
    ensures
        match r {
            Some(n) => octet_value(text@) == Some(n as int),
            None => octet_value(text@) is None,
        },
{
    let start: usize = if text.len() > 0 && text[0] == '+' {
        1
    } else {
        0
    };
    let digits = slice_chars(text, start, text.len());
    assert(digits@ =~= if text@.len() > 0 && text@[0] == '+' {
        text@.skip(1)
    } else {
        text@
    });
    if digits.len() == 0 {
        return None;
    }
    let mut value: u32 = 0;
    let mut i: usize = 0;
    while i < digits.len()
        invariant
            i <= digits.len(),
            digits.len() > 0,
            digits@ == if text@.len() > 0 && text@[0] == '+' {
                text@.skip(1)
            } else {
                text@
            },
            forall|k: int| 0 <= k < i ==> '0' <= #[trigger] digits@[k] && digits@[k] <= '9',
            value == digits_value(digits@, i as int),
            value <= 255,
        decreases digits.len() - i,
    {
        let c = digits[i];
        if !('0' <= c && c <= '9') {
            assert(!all_digits(digits@));
            return None;
        }
        let next = value * 10 + (c as u32 - '0' as u32);
        if next > 255 {
            proof {
                if all_digits(digits@) {
                    lemma_digits_value_monotone(digits@, i + 1, digits.len() as int);
                }
            }
            return None;
        }
        value = next;
        i += 1;
    }
    assert(all_digits(digits@));
    Some(value as u8)
}

/// Whether a host, without its port, is refused.
pub fn is_blocked_host(host: &Vec<char>) -> (r: bool)
    ensures
        r == blocked_host(host@),
{
    if same_chars(host, &chars_of("localhost")) || same_chars(host, &chars_of("127.0.0.1"))
        || same_chars(host, &chars_of("::1")) {
        return true;
    }
    if has_prefix(host, &chars_of("10.")) || has_prefix(host, &chars_of("192.168."))
        || has_prefix(host, &chars_of("0.")) {
        return true;
    }
    if !has_prefix(host, &chars_of("172.")) {
        return false;
    }
    let dot = find_char(host, '.', 0);
    if dot >= host.len() {
        return false;
    }
    let rest = slice_chars(host, dot + 1, host.len());
    assert(rest@ =~= host@.skip(dot + 1));
    let end = find_char(&rest, '.', 0);
    let label = slice_chars(&rest, 0, end);
    assert(label@ =~= before_char(rest@, '.'));
    match parse_octet(&label) {
        Some(n) => 16 <= n && n <= 31,
        None => false,
    }
}

/// Whether the proxy refuses an address.
pub fn is_blocked_url(url: &str) -> (r: bool)
    ensures
        r == blocked_url(url@),
{
    let lowered = url.to_lowercase();
    let lower = chars_of(lowered.as_str());
    if has_prefix(&lower, &chars_of("file://")) {
        return true;
    }
    proof {
        reveal_strlit("http://");
        reveal_strlit("https://");
    }
    let skip: usize = if has_prefix(&lower, &chars_of("http://")) {
        7
    } else if has_prefix(&lower, &chars_of("https://")) {
        8
    } else {
        return true;
    };
    let rest = slice_chars(&lower, skip, lower.len());
    assert(rest@ =~= lower@.skip(skip as int));
    let end = find_char(&rest, '/', 0);
    let authority = slice_chars(&rest, 0, end);
    assert(authority@ =~= before_char(rest@, '/'));
    let port = find_char(&authority, ':', 0);
    let host = slice_chars(&authority, 0, port);
    assert(host@ =~= before_char(authority@, ':'));
    is_blocked_host(&host)
}

} // verus!
