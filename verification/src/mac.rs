use vstd::prelude::*;

use crate::error::Error;
use crate::text::{
    chars_to_string, fmt_hex_byte, hex_digit, hex_val, hex_val_exec, is_hex_digit,
    is_hex_digit_exec, lemma_hex_digit_props, sp_hex_byte, str_to_chars,
};

verus! {

broadcast use vstd::array::group_array_axioms;

/// A six-byte device address, canonically rendered as uppercase hex
/// octets joined by colons.
#[derive(Clone, Copy, Debug)]
pub struct Mac {
    bytes: [u8; 6],
}

impl View for Mac {
    type V = Seq<u8>;

    closed spec fn view(&self) -> Seq<u8> {
        self.bytes@
    }
}

/// Parses a colon-separated run of hex octets: each segment is one or two
/// hex digits, segments are separated by single colons, and the string
/// must end right after a segment.  Yields the byte of each segment.
pub open spec fn sp_mac_bytes(s: Seq<char>) -> Option<Seq<u8>>
    decreases s.len(),
{
    if s.len() == 0 || !is_hex_digit(s[0]) {
        None
    } else {
        let two = s.len() >= 2 && is_hex_digit(s[1]);
        let b = if two {
            (hex_val(s[0]) * 16 + hex_val(s[1])) as u8
        } else {
            hex_val(s[0]) as u8
        };
        let used: int = if two {
            2
        } else {
            1
        };
        if s.len() == used {
            Some(seq![b])
        } else if s[used] == ':' {
            match sp_mac_bytes(s.subrange(used + 1, s.len() as int)) {
                Some(bs) => Some(seq![b] + bs),
                None => None,
            }
        } else {
            None
        }
    }
}

/// A string denotes a device address exactly when it consists of six
/// colon-separated hex octets; the result is those six bytes in order.
pub open spec fn sp_parse_mac(s: Seq<char>) -> Option<Seq<u8>> {
    match sp_mac_bytes(s) {
        Some(bs) => if bs.len() == 6 {
            Some(bs)
        } else {
            None
        },
        None => None,
    }
}

/// The canonical rendering of a byte sequence: two-digit uppercase hex
/// octets joined by colons.
pub open spec fn sp_format_mac(bs: Seq<u8>) -> Seq<char>
    decreases bs.len(),
{
    if bs.len() == 0 {
        Seq::empty()
    } else if bs.len() == 1 {
        sp_hex_byte(bs[0] as nat)
    } else {
        sp_hex_byte(bs[0] as nat) + seq![':'] + sp_format_mac(bs.drop_first())
    }
}

/// The number of colon characters in a string; colon-splitting a string
/// yields one more segment than this.
pub open spec fn colon_count(s: Seq<char>) -> nat
    decreases s.len(),
{
    if s.len() == 0 {
        0
    } else {
        (if s[0] == ':' {
            1nat
        } else {
            0nat
        }) + colon_count(s.drop_first())
    }
}

proof fn lemma_mac_bytes_of_format(bs: Seq<u8>)
    requires
        bs.len() >= 1,
    ensures
        sp_mac_bytes(sp_format_mac(bs)) == Some(bs),
    decreases bs.len(),
{
    let s = sp_format_mac(bs);
    let b0 = bs[0];
    lemma_hex_digit_props((b0 / 16) as nat);
    lemma_hex_digit_props((b0 % 16) as nat);
    let h = sp_hex_byte(b0 as nat);
    assert(h[0] == hex_digit((b0 / 16) as nat));
    assert(h[1] == hex_digit((b0 % 16) as nat));
    if bs.len() == 1 {
        assert(s == h);
        assert(is_hex_digit(s[0]) && is_hex_digit(s[1]));
        assert(hex_val(s[0]) * 16 + hex_val(s[1]) == (b0 / 16) * 16 + b0 % 16);
        assert((b0 / 16) * 16 + b0 % 16 == b0);
        assert(sp_mac_bytes(s) == Some(seq![b0]));
        assert(seq![b0] =~= bs);
    } else {
        let rest = sp_format_mac(bs.drop_first());
        assert(s == h + seq![':'] + rest);
        assert(s[0] == h[0] && s[1] == h[1] && s[2] == ':');
        assert(is_hex_digit(s[0]) && is_hex_digit(s[1]));
        assert(!is_hex_digit(':'));
        assert(hex_val(s[0]) * 16 + hex_val(s[1]) == (b0 / 16) * 16 + b0 % 16);
        assert((b0 / 16) * 16 + b0 % 16 == b0);
        lemma_mac_bytes_of_format(bs.drop_first());
        assert(s.subrange(3, s.len() as int) =~= rest);
        assert(sp_mac_bytes(s) == Some(seq![b0] + bs.drop_first()));
        assert(seq![b0] + bs.drop_first() =~= bs);
    }
}

/// Byte round-trip: rendering any six bytes canonically and parsing the
/// rendering yields the same six bytes.
pub proof fn lemma_format_parse_roundtrip(bs: Seq<u8>)
    requires
        bs.len() == 6,
    ensures
        sp_parse_mac(sp_format_mac(bs)) == Some(bs),
{
    lemma_mac_bytes_of_format(bs);
}

proof fn lemma_mac_bytes_chars(s: Seq<char>)
    requires
        sp_mac_bytes(s) is Some,
    ensures
        forall|k: int| 0 <= k < s.len() ==> is_hex_digit(s[k]) || s[k] == ':',
    decreases s.len(),
{
    let two = s.len() >= 2 && is_hex_digit(s[1]);
    let used: int = if two {
        2
    } else {
        1
    };
    if s.len() != used {
        let rest = s.subrange(used + 1, s.len() as int);
        lemma_mac_bytes_chars(rest);
        assert forall|k: int| 0 <= k < s.len() implies is_hex_digit(s[k]) || s[k] == ':' by {
            if k > used {
                assert(s[k] == rest[k - used - 1]);
            }
        }
    }
}

proof fn lemma_mac_bytes_count(s: Seq<char>, bs: Seq<u8>)
    requires
        sp_mac_bytes(s) == Some(bs),
    ensures
        bs.len() == colon_count(s) + 1,
    decreases s.len(),
{
    let two = s.len() >= 2 && is_hex_digit(s[1]);
    let used: int = if two {
        2
    } else {
        1
    };
    assert(!is_hex_digit(':'));
    assert(s[0] != ':');
    let s1 = s.drop_first();
    assert(colon_count(s) == colon_count(s1));
    if s.len() == used {
        if two {
            assert(s1[0] == s[1]);
            assert(s1[0] != ':');
            assert(colon_count(s1) == colon_count(s1.drop_first()));
            assert(s1.drop_first().len() == 0);
        }
        assert(colon_count(s) == 0);
    } else {
        let rest = s.subrange(used + 1, s.len() as int);
        let bs_rest = sp_mac_bytes(rest)->Some_0;
        lemma_mac_bytes_count(rest, bs_rest);
        if two {
            assert(s1[0] == s[1]);
            assert(s1[0] != ':');
            let s2 = s1.drop_first();
            assert(colon_count(s1) == colon_count(s2));
            assert(s2[0] == s[2]);
            assert(s[used] == ':');
            assert(colon_count(s2) == 1 + colon_count(s2.drop_first()));
            assert(s2.drop_first() =~= rest);
        } else {
            assert(s1[0] == s[1]);
            assert(s[used] == ':');
            assert(colon_count(s1) == 1 + colon_count(s1.drop_first()));
            assert(s1.drop_first() =~= rest);
        }
    }
}

/// Parsing rejects the empty string.
pub proof fn lemma_parse_rejects_empty()
    ensures
        sp_parse_mac(Seq::<char>::empty()) is None,
{
}

/// Parsing rejects any string holding a character that is neither a hex
/// digit nor a colon.
pub proof fn lemma_parse_rejects_bad_char(s: Seq<char>, k: int)
    requires
        0 <= k < s.len(),
        !is_hex_digit(s[k]),
        s[k] != ':',
    ensures
        sp_parse_mac(s) is None,
{
    if sp_mac_bytes(s) is Some {
        lemma_mac_bytes_chars(s);
    }
}

/// Parsing rejects any string whose colon-split yields other than six
/// segments (that is, whose colon count is not five).
pub proof fn lemma_parse_rejects_segment_count(s: Seq<char>)
    requires
        colon_count(s) != 5,
    ensures
        sp_parse_mac(s) is None,
{
    if sp_mac_bytes(s) is Some {
        let bs = sp_mac_bytes(s)->Some_0;
        lemma_mac_bytes_count(s, bs);
    }
}

fn parse_mac_rest(v: &Vec<char>, i: usize) -> (r: Option<Vec<u8>>)
    requires
        i <= v@.len(),
    ensures
        match r {
            Some(bs) => sp_mac_bytes(v@.subrange(i as int, v@.len() as int)) == Some(bs@),
            None => sp_mac_bytes(v@.subrange(i as int, v@.len() as int)) is None,
        },
    decreases v@.len() - i,
{
    let ghost tail = v@.subrange(i as int, v@.len() as int);
    if i == v.len() {
        return None;
    }
    let c0 = v[i];
    proof {
        assert(tail[0] == c0);
    }
    if !is_hex_digit_exec(c0) {
        return None;
    }
    let two = i + 1 < v.len() && is_hex_digit_exec(v[i + 1]);
    proof {
        if i + 1 < v@.len() {
            assert(tail[1] == v@[i + 1]);
        }
        assert(two == (tail.len() >= 2 && is_hex_digit(tail[1])));
    }
    let b: u8 = if two {
        hex_val_exec(c0) * 16 + hex_val_exec(v[i + 1])
    } else {
        hex_val_exec(c0)
    };
    let used: usize = if two {
        2
    } else {
        1
    };
    let j = i + used;
    if j == v.len() {
        let mut out: Vec<u8> = Vec::new();
        out.push(b);
        proof {
            assert(out@ =~= seq![b]);
        }
        Some(out)
    } else if v[j] == ':' {
        proof {
            assert(tail[used as int] == v@[j as int]);
            assert(v@.subrange(j + 1, v@.len() as int) =~= tail.subrange(
                used + 1,
                tail.len() as int,
            ));
        }
        match parse_mac_rest(v, j + 1) {
            Some(mut bs) => {
                let ghost rest = bs@;
                bs.insert(0, b);
                proof {
                    assert(bs@ =~= seq![b] + rest);
                }
                Some(bs)
            },
            None => None,
        }
    } else {
        proof {
            assert(tail[used as int] == v@[j as int]);
        }
        None
    }
}

fn fmt_join(v: &Vec<u8>, i: usize) -> (out: Vec<char>)
    requires
        i <= v@.len(),
    ensures
        out@ == sp_format_mac(v@.subrange(i as int, v@.len() as int)),
    decreases v@.len() - i,
{
    let ghost tail = v@.subrange(i as int, v@.len() as int);
    if i == v.len() {
        let out: Vec<char> = Vec::new();
        proof {
            assert(out@ =~= Seq::<char>::empty());
        }
        out
    } else {
        let mut out = fmt_hex_byte(v[i]);
        proof {
            assert(tail[0] == v@[i as int]);
        }
        if i + 1 == v.len() {
            proof {
                assert(tail.len() == 1);
            }
            out
        } else {
            out.push(':');
            let mut rest = fmt_join(v, i + 1);
            proof {
                assert(v@.subrange(i + 1, v@.len() as int) =~= tail.drop_first());
            }
            out.append(&mut rest);
            proof {
                assert(out@ =~= sp_hex_byte(tail[0] as nat) + seq![':'] + sp_format_mac(
                    tail.drop_first(),
                ));
            }
            out
        }
    }
}

impl Mac {
    /// Wraps six raw bytes as a device address.
    pub fn from_bytes(bytes: [u8; 6]) -> (m: Mac)
        ensures
            m@ == bytes@,
            m@.len() == 6,
    {
        Mac { bytes }
    }

    /// The six raw bytes of the address.
    pub fn to_bytes(&self) -> (r: [u8; 6])
        ensures
            r@ == self@,
    {
        self.bytes
    }

    /// Every address holds exactly six bytes.
    pub proof fn lemma_len(self)
        ensures
            self@.len() == 6,
    {
    }

    /// Parses a colon-hex identifier string; any string that does not
    /// denote exactly six hex octets is rejected.
    pub fn parse(s: &str) -> (r: Result<Mac, Error>)
        ensures
            match r {
                Ok(m) => sp_parse_mac(s@) == Some(m@),
                Err(e) => sp_parse_mac(s@) is None && e == Error::InvalidIdentifier,
            },
    {
        let chars = str_to_chars(s);
        proof {
            assert(chars@.subrange(0, chars@.len() as int) =~= s@);
        }
        match parse_mac_rest(&chars, 0) {
            Some(bs) => {
                if bs.len() == 6 {
                    let mut bytes = [0u8; 6];
                    bytes[0] = bs[0];
                    bytes[1] = bs[1];
                    bytes[2] = bs[2];
                    bytes[3] = bs[3];
                    bytes[4] = bs[4];
                    bytes[5] = bs[5];
                    proof {
                        assert(bytes@ =~= bs@);
                    }
                    Ok(Mac { bytes })
                } else {
                    Err(Error::InvalidIdentifier)
                }
            },
            None => Err(Error::InvalidIdentifier),
        }
    }

    /// Renders the address canonically: uppercase hex octets joined by
    /// colons.
    pub fn format(&self) -> (r: String)
        ensures
            r@ == sp_format_mac(self@),
    {
        let bv = vstd::slice::slice_to_vec(self.bytes.as_slice());
        proof {
            assert(bv@.subrange(0, bv@.len() as int) =~= self@);
        }
        let chars = fmt_join(&bv, 0);
        chars_to_string(&chars)
    }
}

} // verus!
