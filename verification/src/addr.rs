//! IPv4 addresses as four octets, with their dotted-decimal text form.

use crate::text::{
    all_digits, chars_of, decimal_text, decimal_value, digit_of, is_digit, join,
    lemma_decimal_round_trip, lemma_split_join, split, split_text, u32_text,
};
use vstd::prelude::*;
use vstd::string::*;

verus! {

/// An IPv4 address: its four octets, most significant first.
#[derive(Clone, Copy, Debug, PartialEq, Eq, Structural)]
pub struct Ipv4Addr {
    pub a: u8,
    pub b: u8,
    pub c: u8,
    pub d: u8,
}

/// One octet in decimal: one to three digits, no leading zero before
/// another digit, at most 255.
pub open spec fn octet_spec(s: Seq<char>) -> Option<u8> {
    if s.len() == 0 || s.len() > 3 || !all_digits(s) || (s.len() > 1 && s[0] == '0')
        || decimal_value(s) > 255 {
        None
    } else {
        Some(decimal_value(s) as u8)
    }
}

/// An address in dotted decimal: exactly four octets between three dots.
pub open spec fn parse_ipv4_spec(s: Seq<char>) -> Option<Ipv4Addr> {
    let parts = split(s, '.');
    if parts.len() != 4 {
        None
    } else if octet_spec(parts[0]) is None || octet_spec(parts[1]) is None || octet_spec(parts[2])
        is None || octet_spec(parts[3]) is None {
        None
    } else {
        Some(
            Ipv4Addr {
                a: octet_spec(parts[0])->0,
                b: octet_spec(parts[1])->0,
                c: octet_spec(parts[2])->0,
                d: octet_spec(parts[3])->0,
            },
        )
    }
}

/// The address in dotted decimal.
pub open spec fn ipv4_text(ip: Ipv4Addr) -> Seq<char> {
    join(
        seq![
            decimal_text(ip.a as int),
            decimal_text(ip.b as int),
            decimal_text(ip.c as int),
            decimal_text(ip.d as int),
        ],
        '.',
    )
}

/// The text of an octet reads back as the octet.
pub proof fn lemma_octet_round_trip(n: u8)
    ensures
        octet_spec(decimal_text(n as int)) == Some(n),
        forall|i: int| 0 <= i < decimal_text(n as int).len() ==> decimal_text(n as int)[i] != '.',
{
    let t = decimal_text(n as int);
    lemma_decimal_round_trip(n as int);
    reveal_with_fuel(decimal_text, 4);
    assert(t.len() <= 3);
    assert(t.len() > 1 ==> t[0] != '0');
    assert forall|i: int| 0 <= i < t.len() implies t[i] != '.' by {
        assert(is_digit(t[i]));
    }
}

/// The text of an address reads back as the address.
pub proof fn lemma_ipv4_round_trip(ip: Ipv4Addr)
    ensures
        parse_ipv4_spec(ipv4_text(ip)) == Some(ip),
{
    let parts = seq![
        decimal_text(ip.a as int),
        decimal_text(ip.b as int),
        decimal_text(ip.c as int),
        decimal_text(ip.d as int),
    ];
    lemma_octet_round_trip(ip.a);
    lemma_octet_round_trip(ip.b);
    lemma_octet_round_trip(ip.c);
    lemma_octet_round_trip(ip.d);
    lemma_split_join(parts, '.');
}

impl Ipv4Addr {
    /// The address `a.b.c.d`.
    pub fn new(a: u8, b: u8, c: u8, d: u8) -> (ip: Ipv4Addr)
        ensures
            ip == (Ipv4Addr { a, b, c, d }),
    {
        Ipv4Addr { a, b, c, d }
    }

    /// The four octets in network order.
    pub open spec fn spec_octets(self) -> Seq<u8> {
        seq![self.a, self.b, self.c, self.d]
    }

    /// The four octets in network order.
    pub fn octets(&self) -> (o: [u8; 4])
        ensures
            o@ == self.spec_octets(),
    {
        let o = [self.a, self.b, self.c, self.d];
        assert(o@ =~= self.spec_octets());
        o
    }

    /// Reads an address in dotted decimal.
    pub fn parse(s: &str) -> (res: Option<Ipv4Addr>)
        ensures
            res == parse_ipv4_spec(s@),
    {
        let parts = split_text(s, '.');
        if parts.len() != 4 {
            return None;
        }
        let a = match parse_octet(parts[0].as_str()) {
            Some(v) => v,
            None => {
                return None;
            },
        };
        let b = match parse_octet(parts[1].as_str()) {
            Some(v) => v,
            None => {
                return None;
            },
        };
        let c = match parse_octet(parts[2].as_str()) {
            Some(v) => v,
            None => {
                return None;
            },
        };
        let d = match parse_octet(parts[3].as_str()) {
            Some(v) => v,
            None => {
                return None;
            },
        };
        Some(Ipv4Addr { a, b, c, d })
    }

    /// The address in dotted decimal.
    pub fn to_text(&self) -> (s: String)
        ensures
            s@ == ipv4_text(*self),
    {
        proof {
            reveal_strlit(".");
            reveal_with_fuel(join, 5);
        }
        let mut s = u32_text(self.a as u32);
        s.append(".");
        s.append(u32_text(self.b as u32).as_str());
        s.append(".");
        s.append(u32_text(self.c as u32).as_str());
        s.append(".");
        s.append(u32_text(self.d as u32).as_str());
        proof {
            let parts = seq![
                decimal_text(self.a as int),
                decimal_text(self.b as int),
                decimal_text(self.c as int),
                decimal_text(self.d as int),
            ];
            let rest_b = parts.drop_first();
            let rest_c = rest_b.drop_first();
            let rest_d = rest_c.drop_first();
            assert(join(rest_d, '.') == parts[3]);
            assert(join(rest_c, '.') == parts[2] + seq!['.'] + join(rest_d, '.'));
            assert(join(rest_b, '.') == parts[1] + seq!['.'] + join(rest_c, '.'));
            assert(join(parts, '.') == parts[0] + seq!['.'] + join(rest_b, '.'));
            assert("."@ =~= seq!['.']);
            assert(s@ =~= join(parts, '.'));
        }
        s
    }
}

/// Reads one octet in decimal.
fn parse_octet(s: &str) -> (res: Option<u8>)
    ensures
        res == octet_spec(s@),
{
    let chars = chars_of(s);
    let n = chars.len();
    if n == 0 || n > 3 {
        return None;
    }
    let mut acc: u32 = 0;
    let mut i: usize = 0;
    proof {
        assert(s@.take(0) =~= Seq::<char>::empty());
    }
    while i < n
        invariant
            i <= n <= 3,
            n == chars@.len(),
            chars@ == s@,
            all_digits(s@.take(i as int)),
            acc == decimal_value(s@.take(i as int)),
            acc <= 999,
            i == 0 ==> acc == 0,
            i == 1 ==> acc <= 9,
            i == 2 ==> acc <= 99,
        decreases n - i,
    {
        let value: u32 = match digit_of(chars[i]) {
            Some(d) => d,
            None => {
                proof {
                    assert(!is_digit(s@[i as int]));
                }
                return None;
            },
        };
        proof {
            let before = s@.take(i as int);
            let next = s@.take(i + 1);
            assert(next.drop_last() =~= before);
            assert(next.last() == chars@[i as int]);
            assert forall|k: int| 0 <= k < next.len() implies is_digit(#[trigger] next[k]) by {
                if k < before.len() {
                    assert(next[k] == before[k]);
                }
            }
        }
        acc = acc * 10 + value;
        i += 1;
    }
    proof {
        assert(s@.take(n as int) =~= s@);
    }
    if n > 1 && chars[0] == '0' {
        return None;
    }
    if acc > 255 {
        return None;
    }
    Some(acc as u8)
}

} // verus!
