//! Fields derived from a row's canonical fields: the last AS number of the
//! path and the integer bounds of the prefix.

use vstd::prelude::*;
use vstd::string::{StrSliceExecFns, StringExecFns};
use ipnetwork::IpNetwork;
use num_bigint::BigUint;

verus! {

/// The code points that separate the entries of an AS path: those with the
/// Unicode property White_Space.
pub open spec fn is_space(c: char) -> bool {
    let u = c as u32;
    (0x9 <= u <= 0xD) || u == 0x20 || u == 0x85 || u == 0xA0 || u == 0x1680 || (0x2000 <= u
        <= 0x200A) || u == 0x2028 || u == 0x2029 || u == 0x202F || u == 0x205F || u == 0x3000
}

/// The length of the first `end` characters of `s` once the separators at
/// their end are cut off.
pub open spec fn trimmed_end(s: Seq<char>, end: int) -> int
    decreases end,
{
    if end <= 0 {
        0
    } else if is_space(s[end - 1]) {
        trimmed_end(s, end - 1)
    } else {
        end
    }
}

/// Where the run of non-separators that ends before `end` begins.
pub open spec fn token_start(s: Seq<char>, end: int) -> int
    decreases end,
{
    if end <= 0 {
        0
    } else if is_space(s[end - 1]) {
        end
    } else {
        token_start(s, end - 1)
    }
}

/// The last entry of a path: the last maximal run of non-separators, or the
/// empty text where there is none.
pub open spec fn last_token(s: Seq<char>) -> Seq<char> {
    let end = trimmed_end(s, s.len() as int);
    s.subrange(token_start(s, end), end)
}

/// The last entry of a path holds no separator, only separators follow it,
/// a separator or nothing precedes it, and it is empty only where the path
/// holds separators alone.
pub proof fn last_token_is_last_entry(s: Seq<char>)
    ensures
        ({
            let end = trimmed_end(s, s.len() as int);
            let start = token_start(s, end);
            &&& 0 <= start <= end <= s.len()
            &&& forall|i: int| start <= i < end ==> !is_space(#[trigger] s[i])
            &&& forall|i: int| end <= i < s.len() ==> is_space(#[trigger] s[i])
            &&& start > 0 ==> is_space(s[start - 1])
            &&& start == end ==> end == 0
        }),
{
    trimmed_end_facts(s, s.len() as int);
    token_start_facts(s, trimmed_end(s, s.len() as int));
}

proof fn trimmed_end_facts(s: Seq<char>, n: int)
    requires
        0 <= n <= s.len(),
    ensures
        0 <= trimmed_end(s, n) <= n,
        forall|i: int| trimmed_end(s, n) <= i < n ==> is_space(#[trigger] s[i]),
        trimmed_end(s, n) > 0 ==> !is_space(s[trimmed_end(s, n) - 1]),
    decreases n,
{
    if n > 0 && is_space(s[n - 1]) {
        trimmed_end_facts(s, n - 1);
    }
}

proof fn token_start_facts(s: Seq<char>, end: int)
    requires
        0 <= end <= s.len(),
    ensures
        0 <= token_start(s, end) <= end,
        forall|i: int| token_start(s, end) <= i < end ==> !is_space(#[trigger] s[i]),
        token_start(s, end) > 0 ==> is_space(s[token_start(s, end) - 1]),
        end > 0 && !is_space(s[end - 1]) ==> token_start(s, end) < end,
    decreases end,
{
    if end > 0 && !is_space(s[end - 1]) {
        token_start_facts(s, end - 1);
    }
}

/// Tells whether the character separates the entries of an AS path.
pub fn is_separator(c: char) -> (b: bool)
    ensures
        b == is_space(c),
{
    let u: u32 = c as u32;
    (0x9 <= u && u <= 0xD) || u == 0x20 || u == 0x85 || u == 0xA0 || u == 0x1680 || (0x2000 <= u
        && u <= 0x200A) || u == 0x2028 || u == 0x2029 || u == 0x202F || u == 0x205F || u
        == 0x3000
}

/// Returns the last entry of an AS path, the empty text for an empty path.
pub fn last_as_number(as_path: &str) -> (asn: String)
    ensures
        asn@ == last_token(as_path@),
{
    let n = as_path.unicode_len();
    let mut end: usize = n;
    while end > 0 && is_separator(as_path.get_char(end - 1))
        invariant
            end <= n,
            n == as_path@.len(),
            trimmed_end(as_path@, end as int) == trimmed_end(as_path@, n as int),
        decreases end,
    {
        end -= 1;
    }
    let mut start: usize = end;
    while start > 0 && !is_separator(as_path.get_char(start - 1))
        invariant
            start <= end <= n,
            n == as_path@.len(),
            token_start(as_path@, start as int) == token_start(as_path@, end as int),
        decreases start,
    {
        start -= 1;
    }
    String::from_str(as_path.substring_char(start, end))
}

/// An address block: an address of one of the two families and the number
/// of leading bits that name the network.
#[derive(Clone, Copy, Debug, PartialEq, Eq, Structural)]
pub struct Network {
    pub v6: bool,
    pub address: u128,
    pub prefix_len: u8,
}

/// The number of bits in an address of the family.
pub open spec fn width_of(v6: bool) -> u8 {
    if v6 {
        128
    } else {
        32
    }
}

/// The number whose lowest `bits` bits are set, for `bits` up to 128.
pub open spec fn low_bits(bits: u8) -> u128 {
    if bits == 0 {
        0
    } else {
        u128::MAX >> ((128 - bits) as u128)
    }
}

impl Network {
    /// The prefix length is within the family's width, and the address too.
    pub open spec fn wf(self) -> bool {
        &&& self.prefix_len <= width_of(self.v6)
        &&& !self.v6 ==> self.address <= u32::MAX
    }

    /// The bits of an address that lie outside the network part.
    pub open spec fn host_mask(self) -> u128 {
        low_bits((width_of(self.v6) - self.prefix_len) as u8)
    }

    /// The lowest address of the block: the host bits cleared.
    pub open spec fn start_model(self) -> u128 {
        self.address & !self.host_mask()
    }

    /// The highest address of the block: the host bits set.
    pub open spec fn end_model(self) -> u128 {
        self.address | self.host_mask()
    }

    /// Makes a block, if the prefix length and the address fit the family.
    pub fn new(v6: bool, address: u128, prefix_len: u8) -> (made: Option<Network>)
        ensures
            made == network_of(Some((v6, address, prefix_len))),
    {
        let width: u8 = if v6 {
            128
        } else {
            32
        };
        if prefix_len > width || (!v6 && address > 0xFFFF_FFFFu128) {
            None
        } else {
            Some(Network { v6, address, prefix_len })
        }
    }

    fn mask(self) -> (m: u128)
        requires
            self.wf(),
        ensures
            m == self.host_mask(),
    {
        let width: u8 = if self.v6 {
            128
        } else {
            32
        };
        let bits: u8 = width - self.prefix_len;
        if bits == 0 {
            0
        } else {
            u128::MAX >> ((128 - bits) as u128)
        }
    }

    /// Returns the lowest address of the block as an integer.
    pub fn start(self) -> (lowest: u128)
        requires
            self.wf(),
        ensures
            lowest == self.start_model(),
    {
        self.address & !self.mask()
    }

    /// Returns the highest address of the block as an integer.
    pub fn end(self) -> (highest: u128)
        requires
            self.wf(),
        ensures
            highest == self.end_model(),
    {
        self.address | self.mask()
    }
}

/// The bounds of a block enclose its address, and the highest address lies
/// above the lowest by the host bits.
pub proof fn bounds_enclose_address(block: Network)
    ensures
        block.start_model() <= block.address <= block.end_model(),
        block.end_model() == block.start_model() + block.host_mask(),
{
    let a = block.address;
    let m = block.host_mask();
    assert(a & !m <= a) by (bit_vector);
    assert(a <= a | m) by (bit_vector);
    assert(a & !m <= 0xFFFF_FFFF_FFFF_FFFF_FFFF_FFFF_FFFF_FFFFu128 - m) by (bit_vector);
    assert(((a & !m) + m) as u128 == a | m) by (bit_vector)
        requires
            a & !m <= 0xFFFF_FFFF_FFFF_FFFF_FFFF_FFFF_FFFF_FFFFu128 - m,
    ;
}

/// The block that the parts stand for, if they fit together.
pub open spec fn network_of(parts: Option<(bool, u128, u8)>) -> Option<Network> {
    match parts {
        Some((v6, address, prefix_len)) => {
            let made = Network { v6, address, prefix_len };
            if made.wf() {
                Some(made)
            } else {
                None
            }
        },
        None => None,
    }
}

/// What `ipnetwork` reads a prefix text as: the family (true for the 128-bit
/// one), the address as an integer and the prefix length; `None` for a text
/// that it refuses.
pub uninterp spec fn parsed_prefix(text: Seq<char>) -> Option<(bool, u128, u8)>;

/// Calls `IpNetwork::from_str` of `ipnetwork` and takes the address and the
/// prefix length out of the network it made, through its `ip` and `prefix`.
/// The result is taken to depend on the text alone; nothing else is claimed
/// of it.
#[verifier::external_body]
fn parse_prefix(text: &str) -> (parts: Option<(bool, u128, u8)>)
    ensures
        parts == parsed_prefix(text@),
{
    match text.parse::<IpNetwork>() {
        Ok(IpNetwork::V4(net)) => Some((false, u128::from(u32::from(net.ip())), net.prefix())),
        Ok(IpNetwork::V6(net)) => Some((true, u128::from(net.ip()), net.prefix())),
        Err(_) => None,
    }
}

/// Reads a prefix in CIDR notation.
pub fn parse_network(prefix: &str) -> (made: Option<Network>)
    ensures
        made == network_of(parsed_prefix(prefix@)),
{
    match parse_prefix(prefix) {
        Some((v6, address, prefix_len)) => Network::new(v6, address, prefix_len),
        None => None,
    }
}

/// The character of a decimal digit.
pub open spec fn digit_char(d: nat) -> char {
    if d == 0 {
        '0'
    } else if d == 1 {
        '1'
    } else if d == 2 {
        '2'
    } else if d == 3 {
        '3'
    } else if d == 4 {
        '4'
    } else if d == 5 {
        '5'
    } else if d == 6 {
        '6'
    } else if d == 7 {
        '7'
    } else if d == 8 {
        '8'
    } else {
        '9'
    }
}

/// The decimal notation of a number, without leading zeros.
pub open spec fn decimal_text(n: nat) -> Seq<char>
    decreases n,
{
    if n < 10 {
        seq![digit_char(n)]
    } else {
        decimal_text(n / 10).push(digit_char(n % 10))
    }
}

/// Calls `BigUint::from` and the `to_string` of `num_bigint`'s `BigUint`,
/// which writes the number in base ten without sign, padding or leading
/// zeros.
#[verifier::external_body]
pub(crate) fn decimal_of(n: u128) -> (text: String)
    ensures
        text@ == decimal_text(n as nat),
{
    BigUint::from(n).to_string()
}

} // verus!
