//! Proposal identifiers and their total order.

use vstd::prelude::*;
use vstd::string::StringExecFns;

verus! {

/// A ballot number: a 128-bit, time-ordered, globally unique identifier.
/// A higher value is a more recent proposal. New identifiers are minted from
/// version-7 UUIDs, so the numeric order of the raw value follows creation
/// time.
#[derive(Clone, Copy, Debug, PartialEq, Eq, Hash, Structural)]
pub struct ProposalId(pub u128);

impl PartialOrd for ProposalId {
    fn partial_cmp(&self, other: &Self) -> (r: Option<core::cmp::Ordering>) {
        if self.0 < other.0 {
            Some(core::cmp::Ordering::Less)
        } else if self.0 == other.0 {
            Some(core::cmp::Ordering::Equal)
        } else {
            Some(core::cmp::Ordering::Greater)
        }
    }
}

impl vstd::std_specs::cmp::PartialOrdSpecImpl for ProposalId {
    open spec fn obeys_partial_cmp_spec() -> bool {
        true
    }

    open spec fn partial_cmp_spec(&self, other: &Self) -> Option<core::cmp::Ordering> {
        if self.0 < other.0 {
            Some(core::cmp::Ordering::Less)
        } else if self.0 == other.0 {
            Some(core::cmp::Ordering::Equal)
        } else {
            Some(core::cmp::Ordering::Greater)
        }
    }
}

/// Mints a fresh proposal identifier.
///
/// Relies on `uuid::Uuid::now_v7`: a version-7 UUID built from the current
/// time and random bits, whose documentation guarantees that values minted
/// by one process are ordered by creation. The contract assumes none of
/// that: every caller is verified for whatever value comes back.
#[verifier::external_body]
pub(crate) fn new_proposal_id() -> (r: ProposalId) {
    ProposalId(uuid::Uuid::now_v7().as_u128())
}

/// The hexadecimal digit, as the canonical UUID rendering writes it, for a
/// nibble value below sixteen.
pub open spec fn spec_hex_digit(n: u8) -> char {
    if n == 0 {
        '0'
    } else if n == 1 {
        '1'
    } else if n == 2 {
        '2'
    } else if n == 3 {
        '3'
    } else if n == 4 {
        '4'
    } else if n == 5 {
        '5'
    } else if n == 6 {
        '6'
    } else if n == 7 {
        '7'
    } else if n == 8 {
        '8'
    } else if n == 9 {
        '9'
    } else if n == 10 {
        'a'
    } else if n == 11 {
        'b'
    } else if n == 12 {
        'c'
    } else if n == 13 {
        'd'
    } else if n == 14 {
        'e'
    } else {
        'f'
    }
}

fn hex_digit_str(n: u8) -> (s: &'static str)
    requires
        n < 16,
    ensures
        s@.len() == 1,
        s@[0] == spec_hex_digit(n),
{
    proof {
        reveal_strlit("0");
        reveal_strlit("1");
        reveal_strlit("2");
        reveal_strlit("3");
        reveal_strlit("4");
        reveal_strlit("5");
        reveal_strlit("6");
        reveal_strlit("7");
        reveal_strlit("8");
        reveal_strlit("9");
        reveal_strlit("a");
        reveal_strlit("b");
        reveal_strlit("c");
        reveal_strlit("d");
        reveal_strlit("e");
        reveal_strlit("f");
    }
    match n {
        0 => "0",
        1 => "1",
        2 => "2",
        3 => "3",
        4 => "4",
        5 => "5",
        6 => "6",
        7 => "7",
        8 => "8",
        9 => "9",
        10 => "a",
        11 => "b",
        12 => "c",
        13 => "d",
        14 => "e",
        _ => "f",
    }
}

/// One hexadecimal digit of a raw identifier: the nibble that starts `shift`
/// bits above the low end.
pub open spec fn spec_nibble(v: u128, shift: u128) -> u8 {
    ((v >> shift) & 0xf) as u8
}

/// A branded identifier that can render a short human-readable tag of itself.
pub trait BrandedUuid {
    /// The characters that `formatted` returns.
    spec fn formatted_spec(&self) -> Seq<char>;

    /// A short tag for log lines and traces.
    fn formatted(&self) -> (s: String)
        ensures
            s@ == self.formatted_spec(),
    ;
}

impl BrandedUuid for ProposalId {
    /// The last six characters of the canonical UUID rendering: the six
    /// hexadecimal digits of the lowest 24 bits.
    open spec fn formatted_spec(&self) -> Seq<char> {
        seq![
            spec_hex_digit(spec_nibble(self.0, 20)),
            spec_hex_digit(spec_nibble(self.0, 16)),
            spec_hex_digit(spec_nibble(self.0, 12)),
            spec_hex_digit(spec_nibble(self.0, 8)),
            spec_hex_digit(spec_nibble(self.0, 4)),
            spec_hex_digit(spec_nibble(self.0, 0)),
        ]
    }

    fn formatted(&self) -> (s: String) {
        let mut s = String::new();
        let v = self.0;
        proof {
            assert((v >> 20u128) & 0xf < 16 && (v >> 16u128) & 0xf < 16 && (v >> 12u128) & 0xf
                < 16 && (v >> 8u128) & 0xf < 16 && (v >> 4u128) & 0xf < 16 && (v >> 0u128) & 0xf
                < 16) by (bit_vector);
        }
        s.append(hex_digit_str(((v >> 20u128) & 0xf) as u8));
        s.append(hex_digit_str(((v >> 16u128) & 0xf) as u8));
        s.append(hex_digit_str(((v >> 12u128) & 0xf) as u8));
        s.append(hex_digit_str(((v >> 8u128) & 0xf) as u8));
        s.append(hex_digit_str(((v >> 4u128) & 0xf) as u8));
        s.append(hex_digit_str(((v >> 0u128) & 0xf) as u8));
        proof {
            assert(s@ =~= self.formatted_spec());
        }
        s
    }
}

} // verus!
