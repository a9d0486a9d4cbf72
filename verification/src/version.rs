//! The four-component document version packed into a 32-bit value.

use vstd::prelude::*;

verus! {

/// A document version, one byte per component.
#[derive(Debug, Clone, Copy, PartialEq, Eq, Structural)]
pub struct HwpVersion {
    pub major: u8,
    pub minor: u8,
    pub build: u8,
    pub revision: u8,
}

/// The decimal digits of a byte value, most significant first.
pub open spec fn dec_digits(n: u8) -> Seq<char> {
    if n >= 100 {
        seq![
            ((n / 100 + 0x30) as u32) as char,
            ((n / 10 % 10 + 0x30) as u32) as char,
            ((n % 10 + 0x30) as u32) as char,
        ]
    } else if n >= 10 {
        seq![((n / 10 + 0x30) as u32) as char, ((n % 10 + 0x30) as u32) as char]
    } else {
        seq![((n + 0x30) as u32) as char]
    }
}

/// Append the decimal digits of `n` to `out`.
fn push_dec(out: &mut String, n: u8)
    ensures
        final(out)@ == old(out)@ + dec_digits(n),
{
    let ghost o0 = out@;
    if n >= 100 {
        push_digit(out, n / 100);
        push_digit(out, n / 10 % 10);
        push_digit(out, n % 10);
        proof {
            assert(final(out)@ =~= o0 + dec_digits(n));
        }
    } else if n >= 10 {
        push_digit(out, n / 10);
        push_digit(out, n % 10);
        proof {
            assert(final(out)@ =~= o0 + dec_digits(n));
        }
    } else {
        push_digit(out, n);
        proof {
            assert(final(out)@ =~= o0 + dec_digits(n));
        }
    }
}

/// Append one decimal digit to `out`.
pub fn push_digit(out: &mut String, d: u8)
    requires
        d < 10,
    ensures
        final(out)@ == old(out)@.push(((d + 0x30) as u32) as char),
{
    let c = match char::from_u32(d as u32 + 0x30) {
        Some(c) => c,
        None => {
            proof {
                assert(false);
            }
            ' '
        },
    };
    proof {
        vstd::utf8::char_u32_cast(c, (d + 0x30) as u32);
    }
    out.push(c);
}

/// The dotted rendering `major.minor.build.revision`.
pub open spec fn version_chars(v: HwpVersion) -> Seq<char> {
    dec_digits(v.major) + seq!['.'] + dec_digits(v.minor) + seq!['.'] + dec_digits(v.build)
        + seq!['.'] + dec_digits(v.revision)
}

/// The version a 32-bit value unpacks to, major byte first.
pub open spec fn version_of(value: u32) -> HwpVersion {
    HwpVersion {
        major: ((value >> 24) & 0xFF) as u8,
        minor: ((value >> 16) & 0xFF) as u8,
        build: ((value >> 8) & 0xFF) as u8,
        revision: (value & 0xFF) as u8,
    }
}

/// The decimal digits of an unsigned value, most significant first.
pub open spec fn dec_u64_chars(n: u64) -> Seq<char>
    decreases n,
{
    if n < 10 {
        seq![((n + 0x30) as u32) as char]
    } else {
        dec_u64_chars(n / 10) + seq![((n % 10 + 0x30) as u32) as char]
    }
}

/// Append the decimal digits of `n` to `out`.
pub fn push_udec(out: &mut String, n: u64)
    ensures
        final(out)@ == old(out)@ + dec_u64_chars(n),
    decreases n,
{
    if n < 10 {
        push_digit(out, (n % 10) as u8);
        proof {
            assert(final(out)@ =~= old(out)@ + dec_u64_chars(n));
        }
    } else {
        push_udec(out, n / 10);
        push_digit(out, (n % 10) as u8);
        proof {
            assert(final(out)@ =~= old(out)@ + dec_u64_chars(n));
        }
    }
}

impl HwpVersion {
    pub fn new(major: u8, minor: u8, build: u8, revision: u8) -> (r: Self)
        ensures
            r == (HwpVersion { major, minor, build, revision }),
    {
        HwpVersion { major, minor, build, revision }
    }

    /// Unpack a version from its 32-bit representation, major byte first.
    pub fn from_u32(value: u32) -> (r: Self)
        ensures
            r == version_of(value),
    {
        proof {
            assert((value >> 24) & 0xFF < 256 && (value >> 16) & 0xFF < 256 && (value >> 8) & 0xFF
                < 256 && value & 0xFF < 256) by (bit_vector);
        }
        HwpVersion {
            major: ((value >> 24) & 0xFF) as u8,
            minor: ((value >> 16) & 0xFF) as u8,
            build: ((value >> 8) & 0xFF) as u8,
            revision: (value & 0xFF) as u8,
        }
    }

    /// Pack the version back into its 32-bit representation.
    pub fn to_u32(&self) -> (r: u32)
        ensures
            r == self.major * 0x100_0000 + self.minor * 0x1_0000 + self.build * 0x100
                + self.revision,
    {
        self.major as u32 * 0x100_0000 + self.minor as u32 * 0x1_0000 + self.build as u32 * 0x100
            + self.revision as u32
    }

    /// Whether this decoder supports the version.
    pub fn is_supported(&self) -> (r: bool)
        ensures
            r == (self.major >= 5),
    {
        self.major >= 5
    }

    /// The dotted text form of the version.
    pub fn to_version_string(&self) -> (r: String)
        ensures
            r@ == version_chars(*self),
    {
        let mut out = String::new();
        push_dec(&mut out, self.major);
        out.push('.');
        push_dec(&mut out, self.minor);
        out.push('.');
        push_dec(&mut out, self.build);
        out.push('.');
        push_dec(&mut out, self.revision);
        proof {
            assert(out@ =~= version_chars(*self));
        }
        out
    }
}

} // verus!
