use vstd::prelude::*;
use crate::utils::{ascii_chars_of, is_ascii_bytes, lossy_chars_of, lossy_string};

verus! {

/// The decimal value of a digit character.
pub open spec fn digit_char(d: int) -> char {
    (48 + d) as char
}

/// The decimal digits of `n`, most significant first.
pub open spec fn spec_dec_chars(n: int) -> Seq<char>
    decreases n,
{
    if n < 0 {
        seq![]
    } else if n < 10 {
        seq![digit_char(n)]
    } else {
        spec_dec_chars(n / 10).push(digit_char(n % 10))
    }
}

/// The character of one decimal digit.
fn digit_str(d: u16) -> (s: &'static str)
    requires
        d < 10,
    ensures
        s@ == seq![digit_char(d as int)],
{
    if d == 0 {
        proof {
            reveal_strlit("0");
            assert("0"@ =~= seq![digit_char(0)]);
        }
        "0"
    } else if d == 1 {
        proof {
            reveal_strlit("1");
            assert("1"@ =~= seq![digit_char(1)]);
        }
        "1"
    } else if d == 2 {
        proof {
            reveal_strlit("2");
            assert("2"@ =~= seq![digit_char(2)]);
        }
        "2"
    } else if d == 3 {
        proof {
            reveal_strlit("3");
            assert("3"@ =~= seq![digit_char(3)]);
        }
        "3"
    } else if d == 4 {
        proof {
            reveal_strlit("4");
            assert("4"@ =~= seq![digit_char(4)]);
        }
        "4"
    } else if d == 5 {
        proof {
            reveal_strlit("5");
            assert("5"@ =~= seq![digit_char(5)]);
        }
        "5"
    } else if d == 6 {
        proof {
            reveal_strlit("6");
            assert("6"@ =~= seq![digit_char(6)]);
        }
        "6"
    } else if d == 7 {
        proof {
            reveal_strlit("7");
            assert("7"@ =~= seq![digit_char(7)]);
        }
        "7"
    } else if d == 8 {
        proof {
            reveal_strlit("8");
            assert("8"@ =~= seq![digit_char(8)]);
        }
        "8"
    } else {
        proof {
            reveal_strlit("9");
            assert("9"@ =~= seq![digit_char(9)]);
        }
        "9"
    }
}

/// Writes a port number in decimal.
pub fn u16_to_decimal(n: u16) -> (s: String)
    ensures
        s@ == spec_dec_chars(n as int),
    decreases n,
{
    if n < 10 {
        let d = digit_str(n);
        d.to_owned()
    } else {
        let mut s = u16_to_decimal(n / 10);
        s.append(digit_str(n % 10));
        proof {
            assert(s@ =~= spec_dec_chars(n as int));
        }
        s
    }
}

/// Where a session wants to go: the raw domain bytes from the ingress
/// request — not yet resolved — and the port.
pub struct Destination {
    address: Vec<u8>,
    port: u16,
}

impl View for Destination {
    type V = (Seq<u8>, u16);

    closed spec fn view(&self) -> (Seq<u8>, u16) {
        (self.address@, self.port)
    }
}

impl Destination {
    pub fn new(address: Vec<u8>, port: u16) -> (d: Self)
        ensures
            d@ == (address@, port),
    {
        Self { address, port }
    }

    /// The raw domain bytes.
    pub fn address(&self) -> (a: &Vec<u8>)
        ensures
            a@ == self@.0,
    {
        &self.address
    }

    /// The domain as readable text: the raw bytes as UTF-8 with lossy
    /// substitution.
    pub fn domain(&self) -> (r: String)
        ensures
            r@ == lossy_chars_of(self@.0),
            is_ascii_bytes(self@.0) ==> r@ == ascii_chars_of(self@.0),
    {
        lossy_string(self.address.as_slice())
    }

    pub fn port(&self) -> (p: u16)
        ensures
            p == self@.1,
    {
        self.port
    }

    /// The destination as text: the domain, a colon, and the decimal port.
    pub fn to_str(&self) -> (r: String)
        ensures
            r@ == lossy_chars_of(self@.0) + seq![':'] + spec_dec_chars(self@.1 as int),
    {
        let mut s = lossy_string(self.address.as_slice());
        s.append(":");
        let p = u16_to_decimal(self.port);
        s.append(p.as_str());
        proof {
            reveal_strlit(":");
            assert(":"@ =~= seq![':']);
        }
        s
    }
}

impl Default for Destination {
    /// An empty destination: no domain bytes and port zero.
    fn default() -> (d: Self)
        ensures
            d@ == (Seq::<u8>::empty(), 0u16),
    {
        let d = Self { address: Vec::new(), port: 0 };
        proof {
            assert(d@.0 =~= Seq::<u8>::empty());
        }
        d
    }
}

} // verus!
