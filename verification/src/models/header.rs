//! The 256-byte document header: signature, version, and property flags.

use vstd::prelude::*;
use crate::version::HwpVersion;

verus! {

/// The parsed fixed-size document header.
#[derive(Debug, Clone)]
pub struct HwpHeader {
    /// File signature (32 bytes).
    pub signature: Vec<u8>,
    /// Document version.
    pub version: HwpVersion,
    /// File properties (bit flags).
    pub properties: HwpProperties,
    /// Reserved bytes.
    pub reserved: Vec<u8>,
}

/// Total header size in bytes.
pub const HEADER_SIZE: usize = 256;

impl HwpHeader {
    /// Whether the document body streams are compressed.
    pub fn is_compressed(&self) -> (r: bool)
        ensures
            r == self.properties.compressed,
    {
        self.properties.compressed
    }

    /// Whether the document has a password.
    pub fn has_password(&self) -> (r: bool)
        ensures
            r == self.properties.has_password,
    {
        self.properties.has_password
    }

    /// Whether the document is rights-managed.
    pub fn is_drm_document(&self) -> (r: bool)
        ensures
            r == self.properties.is_drm_document,
    {
        self.properties.is_drm_document
    }
}

/// The unpacked property bit flags.
#[derive(Debug, Clone)]
pub struct HwpProperties {
    pub compressed: bool,
    pub has_password: bool,
    pub is_distribution_document: bool,
    pub has_script: bool,
    pub is_drm_document: bool,
    pub has_xml_template_storage: bool,
    pub has_document_history: bool,
    pub has_certificate_signature: bool,
    pub certificate_encryption: bool,
    pub has_certificate_drm: bool,
    pub is_ccl_document: bool,
    pub is_mobile_optimized: bool,
    pub is_private_information_security: bool,
    pub has_change_tracking: bool,
    pub has_kogl_copyright: bool,
    pub has_video_control: bool,
    pub has_order_field_control: bool,
    pub reserved_bits: u16,
}

/// The flag struct a 32-bit value unpacks to.
pub open spec fn properties_of(value: u32) -> HwpProperties {
    HwpProperties {
        compressed: value & 0x0001 != 0,
        has_password: value & 0x0002 != 0,
        is_distribution_document: value & 0x0004 != 0,
        has_script: value & 0x0008 != 0,
        is_drm_document: value & 0x0010 != 0,
        has_xml_template_storage: value & 0x0020 != 0,
        has_document_history: value & 0x0040 != 0,
        has_certificate_signature: value & 0x0080 != 0,
        certificate_encryption: value & 0x0100 != 0,
        has_certificate_drm: value & 0x0200 != 0,
        is_ccl_document: value & 0x0400 != 0,
        is_mobile_optimized: value & 0x0800 != 0,
        is_private_information_security: value & 0x1000 != 0,
        has_change_tracking: value & 0x2000 != 0,
        has_kogl_copyright: value & 0x4000 != 0,
        has_video_control: value & 0x8000 != 0,
        has_order_field_control: value & 0x10000 != 0,
        reserved_bits: ((value >> 17) & 0x7FFF) as u16,
    }
}

impl HwpProperties {
    /// Unpack the property flags from their 32-bit representation.
    pub fn from_u32(value: u32) -> (r: Self)
        ensures
            r == properties_of(value),
    {
        HwpProperties {
            compressed: value & 0x0001 != 0,
            has_password: value & 0x0002 != 0,
            is_distribution_document: value & 0x0004 != 0,
            has_script: value & 0x0008 != 0,
            is_drm_document: value & 0x0010 != 0,
            has_xml_template_storage: value & 0x0020 != 0,
            has_document_history: value & 0x0040 != 0,
            has_certificate_signature: value & 0x0080 != 0,
            certificate_encryption: value & 0x0100 != 0,
            has_certificate_drm: value & 0x0200 != 0,
            is_ccl_document: value & 0x0400 != 0,
            is_mobile_optimized: value & 0x0800 != 0,
            is_private_information_security: value & 0x1000 != 0,
            has_change_tracking: value & 0x2000 != 0,
            has_kogl_copyright: value & 0x4000 != 0,
            has_video_control: value & 0x8000 != 0,
            has_order_field_control: value & 0x10000 != 0,
            reserved_bits: ((value >> 17) & 0x7FFF) as u16,
        }
    }

    /// Pack the property flags back into their 32-bit representation;
    /// only the low 15 bits of the reserved field fit.
    #[verifier::rlimit(60)]
    pub fn to_u32(&self) -> (r: u32)
        ensures
            properties_of(r) == (HwpProperties { reserved_bits: self.reserved_bits & 0x7FFF, ..*self }),
    {
        let v01 = flag_bit(self.compressed, 0x0001);
        let v02 = flag_bit(self.has_password, 0x0002);
        let v03 = flag_bit(self.is_distribution_document, 0x0004);
        let v04 = flag_bit(self.has_script, 0x0008);
        let v05 = flag_bit(self.is_drm_document, 0x0010);
        let v06 = flag_bit(self.has_xml_template_storage, 0x0020);
        let v07 = flag_bit(self.has_document_history, 0x0040);
        let v08 = flag_bit(self.has_certificate_signature, 0x0080);
        let v09 = flag_bit(self.certificate_encryption, 0x0100);
        let v10 = flag_bit(self.has_certificate_drm, 0x0200);
        let v11 = flag_bit(self.is_ccl_document, 0x0400);
        let v12 = flag_bit(self.is_mobile_optimized, 0x0800);
        let v13 = flag_bit(self.has_change_tracking, 0x2000);
        let v14 = flag_bit(self.is_private_information_security, 0x1000);
        let v15 = flag_bit(self.has_kogl_copyright, 0x4000);
        let v16 = flag_bit(self.has_video_control, 0x8000);
        let v17 = flag_bit(self.has_order_field_control, 0x10000);
        let rb = self.reserved_bits;
        let v18 = high_bits(rb);
        let value = v01 | v02 | v03 | v04 | v05 | v06 | v07 | v08 | v09 | v10 | v11 | v12 | v14
            | v13 | v15 | v16 | v17 | v18;
        proof {
            assert(((v01 == 0 || v01 == 0x0001) && (v02 == 0 || v02 == 0x0002) && (v03 == 0 || v03
                == 0x0004) && (v04 == 0 || v04 == 0x0008) && (v05 == 0 || v05 == 0x0010) && (v06
                == 0 || v06 == 0x0020) && (v07 == 0 || v07 == 0x0040) && (v08 == 0 || v08 == 0x0080)
                && (v09 == 0 || v09 == 0x0100) && (v10 == 0 || v10 == 0x0200) && (v11 == 0 || v11
                == 0x0400) && (v12 == 0 || v12 == 0x0800) && (v14 == 0 || v14 == 0x1000) && (v13
                == 0 || v13 == 0x2000) && (v15 == 0 || v15 == 0x4000) && (v16 == 0 || v16 == 0x8000)
                && (v17 == 0 || v17 == 0x10000) && v18 == ((rb & 0x7FFF) as u32) << 17) ==> {
                let w = v01 | v02 | v03 | v04 | v05 | v06 | v07 | v08 | v09 | v10 | v11 | v12 | v14
                    | v13 | v15 | v16 | v17 | v18;
                &&& (w & 0x0001 != 0) == (v01 != 0)
                &&& (w & 0x0002 != 0) == (v02 != 0)
                &&& (w & 0x0004 != 0) == (v03 != 0)
                &&& (w & 0x0008 != 0) == (v04 != 0)
                &&& (w & 0x0010 != 0) == (v05 != 0)
                &&& (w & 0x0020 != 0) == (v06 != 0)
                &&& (w & 0x0040 != 0) == (v07 != 0)
                &&& (w & 0x0080 != 0) == (v08 != 0)
                &&& (w & 0x0100 != 0) == (v09 != 0)
                &&& (w & 0x0200 != 0) == (v10 != 0)
                &&& (w & 0x0400 != 0) == (v11 != 0)
                &&& (w & 0x0800 != 0) == (v12 != 0)
                &&& (w & 0x1000 != 0) == (v14 != 0)
                &&& (w & 0x2000 != 0) == (v13 != 0)
                &&& (w & 0x4000 != 0) == (v15 != 0)
                &&& (w & 0x8000 != 0) == (v16 != 0)
                &&& (w & 0x10000 != 0) == (v17 != 0)
                &&& ((w >> 17) & 0x7FFF) as u16 == (rb & 0x7FFF)
            }) by (bit_vector);
        }
        value
    }
}

/// The mask when a flag is set, zero otherwise.
fn flag_bit(b: bool, mask: u32) -> (r: u32)
    ensures
        r == (if b {
            mask
        } else {
            0u32
        }),
{
    if b {
        mask
    } else {
        0
    }
}

/// The reserved bits moved above the seventeen flag bits; the topmost
/// bit does not fit and is dropped.
fn high_bits(rb: u16) -> (r: u32)
    ensures
        r == ((rb & 0x7FFF) as u32) << 17,
{
    ((rb & 0x7FFF) as u32) << 17
}

} // verus!
