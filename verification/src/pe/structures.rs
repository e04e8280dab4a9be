//! The headers of an executable in the portable format of 32 bits, and the
//! arithmetic between the addresses of a section in memory and its offsets
//! in the file.

use crate::string::str_from_c_sized;
use vstd::prelude::*;
use vstd::slice::slice_subrange;
use vstd::string::StringExecFns;
use vstd::utf8::{decode_utf8, valid_utf8};

verus! {

/// Why an address or an offset has no counterpart.
#[derive(Clone, Debug, PartialEq, Eq)]
pub enum PeError {
    /// The value lies in front of the section, which begins at `bound`.
    Underflow { section: String, value: u32, bound: u64 },
    /// The value lies behind the section, which ends at `bound`.
    Overflow { section: String, value: u32, bound: u64 },
    /// A number does not fit the integer that has to hold it.
    TryFromInt,
}

pub enum PeErrorView {
    Underflow { section: Seq<char>, value: u32, bound: u64 },
    Overflow { section: Seq<char>, value: u32, bound: u64 },
    TryFromInt,
}

impl View for PeError {
    type V = PeErrorView;

    open spec fn view(&self) -> PeErrorView {
        match self {
            PeError::Underflow { section, value, bound } => PeErrorView::Underflow {
                section: section@,
                value: *value,
                bound: *bound,
            },
            PeError::Overflow { section, value, bound } => PeErrorView::Overflow {
                section: section@,
                value: *value,
                bound: *bound,
            },
            PeError::TryFromInt => PeErrorView::TryFromInt,
        }
    }
}

#[allow(non_camel_case_types)]
#[derive(Clone, Copy, Debug)]
pub struct IMAGE_DOS_HEADER {
    pub e_magic: u16,
    pub e_cblp: u16,
    pub e_cp: u16,
    pub e_crlc: u16,
    pub e_cparhdr: u16,
    pub e_minalloc: u16,
    pub e_maxalloc: u16,
    pub e_ss: u16,
    pub e_sp: u16,
    pub e_csum: u16,
    pub e_ip: u16,
    pub e_cs: u16,
    pub e_lfarlc: u16,
    pub e_ovno: u16,
    pub e_res: [u16; 4],
    pub e_oemid: u16,
    pub e_oeminfo: u16,
    pub e_res2: [u16; 10],
    pub e_lfanew: i32,
}

/// The signature of the first header: the letters M and Z.
pub const DOS_SIGNATURE: u16 = 0x5A4D;

#[allow(non_camel_case_types)]
#[derive(Clone, Copy, Debug)]
pub struct IMAGE_FILE_HEADER {
    pub machine: u16,
    pub number_of_sections: u16,
    pub time_date_stamp: u32,
    pub pointer_to_symbol_table: u32,
    pub number_of_symbols: u32,
    pub size_of_optional_header: u16,
    pub characteristics: u16,
}

pub const MACHINE_I386: u16 = 0x014c;

#[allow(non_camel_case_types)]
#[derive(Clone, Copy, Debug)]
pub struct IMAGE_DATA_DIRECTORY {
    pub virtual_address: u32,
    pub size: u32,
}

pub const IMAGE_NUMBEROF_DIRECTORY_ENTRIES: usize = 16;

#[allow(non_camel_case_types)]
#[derive(Clone, Copy, Debug)]
pub struct IMAGE_OPTIONAL_HEADER32 {
    pub magic: u16,
    pub major_linker_version: u8,
    pub minor_linker_version: u8,
    pub size_of_code: u32,
    pub size_of_initialized_data: u32,
    pub size_of_uninitialized_data: u32,
    pub address_of_entry_point: u32,
    pub base_of_code: u32,
    pub base_of_data: u32,
    pub image_base: u32,
    pub section_alignment: u32,
    pub file_alignment: u32,
    pub major_operating_system_version: u16,
    pub minor_operating_system_version: u16,
    pub major_image_version: u16,
    pub minor_image_version: u16,
    pub major_subsystem_version: u16,
    pub minor_subsystem_version: u16,
    pub win32_version_value: u32,
    pub size_of_image: u32,
    pub size_of_headers: u32,
    pub check_sum: u32,
    pub subsystem: u16,
    pub dll_characteristics: u16,
    pub size_of_stack_reserve: u32,
    pub size_of_stack_commit: u32,
    pub size_of_heap_reserve: u32,
    pub size_of_heap_commit: u32,
    pub loader_flags: u32,
    pub number_of_rva_and_sizes: u32,
    pub data_directory: [IMAGE_DATA_DIRECTORY; 16],
}

pub const OPTIONAL_MAGIC: u16 = 0x010b;

pub const SUBSYSTEM_WINDOWS_GUI: u16 = 2;

#[allow(non_camel_case_types)]
#[derive(Clone, Copy, Debug)]
pub struct IMAGE_NT_HEADERS {
    pub signature: u32,
    pub file_header: IMAGE_FILE_HEADER,
    pub optional_header: IMAGE_OPTIONAL_HEADER32,
}

/// The signature of the headers: the letters P and E, and two zeros.
pub const NT_SIGNATURE: u32 = 0x0000_4550;

pub const IMAGE_SIZEOF_SHORT_NAME: usize = 8;

#[allow(non_camel_case_types)]
#[derive(Clone, Copy, Debug)]
pub struct IMAGE_SECTION_HEADER {
    pub name: [u8; 8],
    pub virtual_size: u32,
    pub virtual_address: u32,
    pub size_of_raw_data: u32,
    pub pointer_to_raw_data: u32,
    pub pointer_to_relocations: u32,
    pub pointer_to_linenumbers: u32,
    pub number_of_relocations: u16,
    pub number_of_linenumbers: u16,
    pub characteristics: u32,
}

/// The number of bytes of `bytes` in front of the zeros at its end.
pub open spec fn trimmed_len(bytes: Seq<u8>) -> int
    decreases bytes.len(),
{
    if bytes.len() == 0 || bytes.last() != 0 {
        bytes.len() as int
    } else {
        trimmed_len(bytes.drop_last())
    }
}

/// The name that the eight bytes of a section header give: their text
/// without the zeros at its end, or a word that stands for a name that
/// cannot be read.
pub open spec fn section_name(bytes: Seq<u8>) -> Seq<char> {
    let text = bytes.take(trimmed_len(bytes));
    if valid_utf8(text) {
        decode_utf8(text)
    } else {
        "<unk>"@
    }
}

/// The offset of `value` from `start` in a run of `size` bytes of a
/// section, which cannot lie in front of the run nor behind it.
pub open spec fn delta_in(name: Seq<u8>, value: u32, start: u32, size: u32) -> Result<
    int,
    PeErrorView,
> {
    if value < start {
        Err(PeErrorView::Underflow { section: section_name(name), value, bound: start as u64 })
    } else if value - start > size {
        Err(
            PeErrorView::Overflow {
                section: section_name(name),
                value,
                bound: (start + size) as u64,
            },
        )
    } else {
        Ok(value - start)
    }
}

/// Where in the file the address `virt` lies, for a section that is laid
/// out as `h` says: nothing where the address lies in the part of the
/// section that the file does not hold.
pub open spec fn spec_virt_to_real(h: IMAGE_SECTION_HEADER, virt: u32) -> Result<
    Option<int>,
    PeErrorView,
> {
    match delta_in(h.name@, virt, h.virtual_address, h.virtual_size) {
        Err(e) => Err(e),
        Ok(delta) => if delta > h.size_of_raw_data {
            Ok(None)
        } else if h.pointer_to_raw_data + delta > usize::MAX {
            Err(PeErrorView::TryFromInt)
        } else {
            Ok(Some(h.pointer_to_raw_data + delta))
        },
    }
}

/// Which address the offset `real` is loaded to, for a section that is laid
/// out as `h` says: nothing where the offset lies in the padding behind
/// the section.
pub open spec fn spec_real_to_virt(h: IMAGE_SECTION_HEADER, raw: int) -> Result<
    Option<int>,
    PeErrorView,
> {
    if raw > u32::MAX {
        Err(PeErrorView::TryFromInt)
    } else {
        match delta_in(h.name@, raw as u32, h.pointer_to_raw_data, h.size_of_raw_data) {
            Err(e) => Err(e),
            Ok(delta) => if delta > h.virtual_size {
                Ok(None)
            } else if h.virtual_address + delta > u32::MAX {
                Err(PeErrorView::TryFromInt)
            } else {
                Ok(Some(h.virtual_address + delta))
            },
        }
    }
}

/// An address whose offset in the file is found, and is a 32-bit number,
/// comes back from that offset.
pub proof fn lemma_virt_real_virt(h: IMAGE_SECTION_HEADER, virt: u32, raw: int)
    requires
        spec_virt_to_real(h, virt) == Ok::<Option<int>, PeErrorView>(Some(raw)),
        raw <= u32::MAX,
    ensures
        spec_real_to_virt(h, raw) == Ok::<Option<int>, PeErrorView>(Some(virt as int)),
{
}

impl IMAGE_SECTION_HEADER {
    /// The name of the section.
    pub fn name(&self) -> (r: String)
        ensures
            r@ == section_name(self.name@),
    {
        let mut n: usize = 8;
        assert(self.name@.take(8) =~= self.name@);
        while n > 0 && self.name[n - 1] == 0
            invariant
                n <= 8,
                self.name@.len() == 8,
                trimmed_len(self.name@) == trimmed_len(self.name@.take(n as int)),
            decreases n,
        {
            proof {
                let front = self.name@.take(n as int);
                assert(front.drop_last() =~= self.name@.take(n - 1));
            }
            n = n - 1;
        }
        let text = slice_subrange(self.name.as_slice(), 0, n);
        match str_from_c_sized(text) {
            Some(name) => name,
            None => String::from_str("<unk>"),
        }
    }

    /// Where in the file the address `virt` lies.
    pub fn virt_to_real(&self, virt: u32) -> (r: Result<Option<usize>, PeError>)
        ensures
            match r {
                Ok(Some(raw)) => spec_virt_to_real(*self, virt) == Ok::<Option<int>, PeErrorView>(
                    Some(raw as int),
                ),
                Ok(None) => spec_virt_to_real(*self, virt) == Ok::<Option<int>, PeErrorView>(None),
                Err(e) => spec_virt_to_real(*self, virt) == Err::<Option<int>, PeErrorView>(e@),
            },
    {
        // an address in front of the section
        if virt < self.virtual_address {
            return Err(
                PeError::Underflow {
                    section: self.name(),
                    value: virt,
                    bound: self.virtual_address as u64,
                },
            );
        }
        let delta = virt - self.virtual_address;
        // an address behind the section
        if delta > self.virtual_size {
            return Err(
                PeError::Overflow {
                    section: self.name(),
                    value: virt,
                    bound: self.virtual_address as u64 + self.virtual_size as u64,
                },
            );
        }
        // a section can be larger in memory than in the file
        if delta > self.size_of_raw_data {
            Ok(None)
        } else {
            let raw = self.pointer_to_raw_data as u64 + delta as u64;
            if raw > usize::MAX as u64 {
                Err(PeError::TryFromInt)
            } else {
                Ok(Some(raw as usize))
            }
        }
    }

    /// Which address the offset `real` is loaded to.
    pub fn real_to_virt(&self, raw: usize) -> (r: Result<Option<u32>, PeError>)
        ensures
            match r {
                Ok(Some(virt)) => spec_real_to_virt(*self, raw as int) == Ok::<
                    Option<int>,
                    PeErrorView,
                >(Some(virt as int)),
                Ok(None) => spec_real_to_virt(*self, raw as int) == Ok::<Option<int>, PeErrorView>(
                    None,
                ),
                Err(e) => spec_real_to_virt(*self, raw as int) == Err::<Option<int>, PeErrorView>(
                    e@,
                ),
            },
    {
        if raw > u32::MAX as usize {
            return Err(PeError::TryFromInt);
        }
        let raw = raw as u32;
        // an offset in front of the section
        if raw < self.pointer_to_raw_data {
            return Err(
                PeError::Underflow {
                    section: self.name(),
                    value: raw,
                    bound: self.pointer_to_raw_data as u64,
                },
            );
        }
        let delta = raw - self.pointer_to_raw_data;
        // an offset behind the section
        if delta > self.size_of_raw_data {
            return Err(
                PeError::Overflow {
                    section: self.name(),
                    value: raw,
                    bound: self.pointer_to_raw_data as u64 + self.size_of_raw_data as u64,
                },
            );
        }
        // a section can be larger in the file than in memory, for its padding
        if delta > self.virtual_size {
            Ok(None)
        } else {
            let virt = self.virtual_address as u64 + delta as u64;
            if virt > u32::MAX as u64 {
                Err(PeError::TryFromInt)
            } else {
                Ok(Some(virt as u32))
            }
        }
    }

    /// The bytes of the section in the file `buf`, which has to hold them.
    pub fn get_section_bytes<'a, 'b>(&'a self, buf: &'b [u8]) -> (r: &'b [u8])
        requires
            self.pointer_to_raw_data + self.size_of_raw_data <= buf@.len(),
        ensures
            r@ == buf@.subrange(
                self.pointer_to_raw_data as int,
                self.pointer_to_raw_data + self.size_of_raw_data,
            ),
    {
        let len = buf.len();
        let from = self.pointer_to_raw_data as usize;
        let to = from + self.size_of_raw_data as usize;
        slice_subrange(buf, from, to)
    }
}

} // verus!
