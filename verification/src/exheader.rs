//! The extended header of the target: where its segments lie, and what
//! follows from that for the patch.

use vstd::prelude::*;

verus! {

/// Size in bytes of one page of the target's address space.
pub const PAGE_SIZE: u32 = 0x1000;

/// One segment of the program: where it starts, how many pages it takes,
/// and how many bytes of them it uses.
#[derive(Debug, Clone, Copy, PartialEq, Eq)]
pub struct CodeSection {
    pub address: u32,
    pub num_pages: u32,
    pub size: u32,
}

/// The system control block.
#[allow(clippy::upper_case_acronyms)]
#[derive(Debug, Clone, Copy, PartialEq, Eq)]
pub struct SCI {
    pub name: [u8; 8],
    pub flags: [u8; 6],
    pub remaster_version: u16,
    pub text_section: CodeSection,
    pub stack_size: u32,
    pub rodata_section: CodeSection,
    pub _reserved1: [u8; 4],
    pub data_section: CodeSection,
    pub bss_size: u32,
    pub dependencies: [u64; 48],
    pub save_data_size: u64,
    pub jump_id: u64,
    pub _reserved2: [u8; 0x30],
}

/// The access control block, which the patch carries through unread.
#[allow(clippy::upper_case_acronyms)]
#[derive(Debug, Clone, Copy, PartialEq, Eq)]
pub struct ACI {
    pub data: [u8; 0x200],
}

/// The system control block and the access control block.
#[derive(Debug, Clone, Copy, PartialEq, Eq)]
pub struct Info {
    pub sci: SCI,
    pub aci: ACI,
}

/// The signatures and the second access control block.
#[derive(Debug, Clone, Copy, PartialEq, Eq)]
pub struct ACIExt {
    pub rsa: [u8; 0x100],
    pub ncch_header_rsa: [u8; 0x100],
    pub aci: ACI,
}

/// The extended header as a whole.
#[derive(Debug, Clone, Copy, PartialEq, Eq)]
pub struct Exheader {
    pub info: Info,
    pub aci_ext: ACIExt,
}

/// The least multiple of the page size that is not below `v`.
pub open spec fn page_ceiling(v: int) -> int {
    ((v + 0xFFF) / 0x1000) * 0x1000
}

/// The number of pages that `v` bytes take.
pub open spec fn pages_for(v: int) -> int {
    (v + 0xFFF) / 0x1000
}

/// `v` rounded up to a page boundary.
pub fn round_to_page(v: u32) -> (r: u32)
    requires
        v <= 0xFFFF_F000,
    ensures
        r == page_ceiling(v as int),
        r % PAGE_SIZE == 0,
        v <= r < v + PAGE_SIZE,
{
    let sum: u32 = v + (PAGE_SIZE - 1);
    let r = sum & !(PAGE_SIZE - 1);
    assert(sum & !0xFFFu32 == (sum / 0x1000) * 0x1000) by (bit_vector);
    r
}

/// The number of pages that `v` bytes take.
pub fn page_count(v: u32) -> (r: u32)
    ensures
        r == pages_for(v as int),
        (r - 1) * PAGE_SIZE < v <= r * PAGE_SIZE,
{
    if v % PAGE_SIZE == 0 {
        v / PAGE_SIZE
    } else {
        v / PAGE_SIZE + 1
    }
}

impl Exheader {
    /// Address of the loader arena: the first byte behind the text that the
    /// program uses.
    pub open spec fn loader_address(self) -> int {
        self.info.sci.text_section.address + self.info.sci.text_section.size
    }

    /// Room in the loader arena: what the text pages hold beyond the text.
    pub open spec fn loader_max_size(self) -> int {
        self.info.sci.text_section.num_pages * PAGE_SIZE - self.info.sci.text_section.size
    }

    /// Address of the custom text: the first byte behind data and bss.
    pub open spec fn custom_text_address(self) -> int {
        self.info.sci.data_section.address + self.info.sci.data_section.num_pages * PAGE_SIZE
            + self.info.sci.bss_size
    }

    /// Whether the three addresses above are 32-bit numbers.
    pub open spec fn layout_fits(self) -> bool {
        &&& self.loader_address() <= u32::MAX
        &&& 0 <= self.loader_max_size() <= u32::MAX
        &&& self.custom_text_address() <= u32::MAX
    }

    /// The header of the patched program, whose image ends at
    /// `end_address`: the text takes its pages whole, the data segment
    /// reaches to the end of the image, and no bss is left.
    pub open spec fn patched(self, end_address: u32) -> Exheader {
        let data_size = (end_address - self.info.sci.data_section.address) as u32;
        Exheader {
            info: Info {
                sci: SCI {
                    text_section: CodeSection {
                        size: (self.info.sci.text_section.num_pages * PAGE_SIZE) as u32,
                        ..self.info.sci.text_section
                    },
                    data_section: CodeSection {
                        size: data_size,
                        num_pages: pages_for(data_size as int) as u32,
                        ..self.info.sci.data_section
                    },
                    bss_size: 0,
                    ..self.info.sci
                },
                ..self.info
            },
            ..self
        }
    }

    /// Whether the header can be patched for an image that ends at
    /// `end_address`.
    pub open spec fn patchable(self, end_address: u32) -> bool {
        &&& self.info.sci.text_section.num_pages * PAGE_SIZE <= u32::MAX
        &&& self.info.sci.data_section.address <= end_address
    }
}

/// The three addresses that the patch is laid out by.
#[derive(Debug, Clone, Copy, PartialEq, Eq, Structural)]
pub struct Layout {
    pub loader_address: u32,
    pub loader_max_size: u32,
    pub custom_text_address: u32,
}

/// Where extra loader code starts, or `None` if that is no 32-bit address.
pub fn calc_loader_address(eh: &Exheader) -> (r: Option<u32>)
    ensures
        r is Some == (eh.loader_address() <= u32::MAX),
        r matches Some(a) ==> a == eh.loader_address(),
{
    eh.info.sci.text_section.address.checked_add(eh.info.sci.text_section.size)
}

/// How much extra loader code there is room for, or `None` if the text is
/// larger than its pages or the pages do not fit into the address space.
pub fn calc_loader_max_size(eh: &Exheader) -> (r: Option<u32>)
    ensures
        r is Some == (0 <= eh.loader_max_size() <= u32::MAX),
        r matches Some(a) ==> a == eh.loader_max_size(),
{
    let pages: u64 = eh.info.sci.text_section.num_pages as u64 * PAGE_SIZE as u64;
    let size: u64 = eh.info.sci.text_section.size as u64;
    if pages >= size && pages - size <= 0xFFFF_FFFF {
        Some((pages - size) as u32)
    } else {
        None
    }
}

/// Where the custom text starts, or `None` if that is no 32-bit address.
pub fn calc_custom_text_address(eh: &Exheader) -> (r: Option<u32>)
    ensures
        r is Some == (eh.custom_text_address() <= u32::MAX),
        r matches Some(a) ==> a == eh.custom_text_address(),
{
    let count: u64 = eh.info.sci.data_section.num_pages as u64;
    assert(count * PAGE_SIZE <= 0xFFFF_FFFF * 0x1000) by (nonlinear_arith)
        requires
            count <= 0xFFFF_FFFF,
            PAGE_SIZE == 0x1000,
    ;
    let pages: u64 = count * PAGE_SIZE as u64;
    let sum: u64 = eh.info.sci.data_section.address as u64 + pages + eh.info.sci.bss_size as u64;
    if sum <= 0xFFFF_FFFF {
        Some(sum as u32)
    } else {
        None
    }
}

/// The layout that the header gives, if its three addresses are 32-bit
/// numbers.
pub fn calc_layout(eh: &Exheader) -> (r: Option<Layout>)
    ensures
        r is Some == eh.layout_fits(),
        r matches Some(l) ==> l.loader_address == eh.loader_address() && l.loader_max_size
            == eh.loader_max_size() && l.custom_text_address == eh.custom_text_address(),
{
    let loader_address = match calc_loader_address(eh) {
        Some(a) => a,
        None => {
            return None;
        },
    };
    let loader_max_size = match calc_loader_max_size(eh) {
        Some(a) => a,
        None => {
            return None;
        },
    };
    let custom_text_address = match calc_custom_text_address(eh) {
        Some(a) => a,
        None => {
            return None;
        },
    };
    Some(Layout { loader_address, loader_max_size, custom_text_address })
}

/// Rewrites the header for the patched image, which ends at `end_address`.
/// A header that cannot be patched is left as it is, and `false` comes
/// back.
pub fn patch_exheader(eh: &mut Exheader, end_address: u32) -> (ok: bool)
    ensures
        ok == old(eh).patchable(end_address),
        *final(eh) == (if ok {
            old(eh).patched(end_address)
        } else {
            *old(eh)
        }),
{
    let text_size: u64 = eh.info.sci.text_section.num_pages as u64 * PAGE_SIZE as u64;
    if text_size > 0xFFFF_FFFF || end_address < eh.info.sci.data_section.address {
        return false;
    }
    let data_size = end_address - eh.info.sci.data_section.address;
    eh.info.sci.text_section.size = text_size as u32;
    eh.info.sci.data_section.size = data_size;
    eh.info.sci.data_section.num_pages = page_count(data_size);
    eh.info.sci.bss_size = 0;
    true
}

/// Patching uses up the slack of the text pages: no room is left in the
/// loader arena, which starts where the text pages end.
pub proof fn lemma_patched_text_is_full(eh: Exheader, end_address: u32)
    requires
        eh.patchable(end_address),
    ensures
        eh.patched(end_address).loader_max_size() == 0,
        eh.patched(end_address).info.sci.data_section.address + eh.patched(
            end_address,
        ).info.sci.data_section.size == end_address,
        eh.patched(end_address).info.sci.data_section.size <= eh.patched(
            end_address,
        ).info.sci.data_section.num_pages * PAGE_SIZE,
{
}

} // verus!
