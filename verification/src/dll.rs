//! The file version of a Windows DLL, read from the version resource of
//! its `.rsrc` section: the resource directories lead from the root to
//! the `RT_VERSION` entry, whose data holds a `VS_VERSIONINFO` block.

use crate::rmc::basic::{le_u16, le_u32};
use crate::version::Version;
use vstd::prelude::*;

verus! {

/// Why a DLL's version could not be read.
#[derive(Debug, Clone, Copy, PartialEq, Eq, Structural)]
pub enum DllError {
    /// The data ends before a value does.
    UnexpectedEof,
    /// The image has no `.rsrc` section.
    ResourceSectionNotFound,
}

/// A DLL: its file version.
#[derive(Debug)]
pub struct Dll {
    pub version: Version,
}

/// A section of a PE image: its name and the fields that locate its data.
#[derive(Debug, Clone, Copy)]
pub struct PeSection {
    pub name: [u8; 8],
    pub virtual_size: u32,
    pub virtual_address: u32,
    pub size_of_raw_data: u32,
    pub pointer_to_raw_data: u32,
}

/// What `goblin::pe::PE::parse` finds in an image: its sections, and the
/// file alignment of its optional header where it has one; `None` where
/// goblin refuses the image.
pub uninterp spec fn pe_image(data: Seq<u8>) -> Option<(Seq<PeSection>, Option<u32>)>;

/// `x` rounded up to a multiple of `a`.
pub open spec fn round_up(x: int, a: int) -> int {
    ((x + a - 1) / a) * a
}

/// The smaller of two numbers.
pub open spec fn min_int(a: int, b: int) -> int {
    if a <= b {
        a
    } else {
        b
    }
}

/// Whether `a` is a power of two.
pub open spec fn is_power_of_two(a: u32) -> bool {
    a != 0 && a & ((a - 1) as u32) == 0
}

/// How many bytes of a section the file backs, for a power-of-two file
/// alignment: none without raw data; else from the raw data pointer
/// rounded down to 512 bytes up to its end rounded up to the file
/// alignment, at most the raw size rounded up to 4 KiB, and at most the
/// virtual size rounded up to 4 KiB where that is not zero.
pub open spec fn section_read_size(s: PeSection, file_alignment: u32) -> int {
    if s.size_of_raw_data == 0 {
        0
    } else {
        let read = min_int(
            round_up(s.pointer_to_raw_data + s.size_of_raw_data, file_alignment as int) - (s.pointer_to_raw_data / 512)
                * 512,
            round_up(s.size_of_raw_data as int, 0x1000),
        );
        if s.virtual_size == 0 {
            read
        } else {
            min_int(read, round_up(s.virtual_size as int, 0x1000))
        }
    }
}

/// The file offset of `rva` through the first section whose backed bytes,
/// counted from its virtual address, hold it; `None` when no section does.
pub open spec fn offset_in_sections(rva: usize, sections: Seq<PeSection>, file_alignment: u32) -> Option<usize>
    decreases sections.len(),
{
    if sections.len() == 0 {
        None
    } else {
        let s = sections[0];
        if s.virtual_address <= rva < s.virtual_address + section_read_size(s, file_alignment) {
            Some((s.pointer_to_raw_data + (rva - s.virtual_address)) as usize)
        } else {
            offset_in_sections(rva, sections.skip(1), file_alignment)
        }
    }
}

/// The file offset that `goblin::pe::utils::find_offset` gives for a
/// relative virtual address, with the default options (which resolve it
/// through the sections): `None` unless the file alignment is a power of
/// two, else the offset through the first section that holds it.
pub open spec fn pe_offset(rva: usize, sections: Seq<PeSection>, file_alignment: u32) -> Option<usize> {
    if !is_power_of_two(file_alignment) {
        None
    } else {
        offset_in_sections(rva, sections, file_alignment)
    }
}

/// `goblin::pe::PE::parse`, with the default options: the sections of the
/// image (name, sizes and addresses) and the file alignment of its optional
/// header; `None` where goblin returns an error. The contract names the
/// result (`pe_image`) and says nothing more of it. Left unsaid: that the
/// parse returns on every input. goblin reads through bounds-checked reads
/// and reports fuzzing, but its code is not shown free of panics on all
/// bytes; an image on which it panicked would panic here as it does in any
/// caller of goblin, and no `requires` can name such images.
#[verifier::external_body]
fn parse_pe(data: &[u8]) -> (r: Option<(Vec<PeSection>, Option<u32>)>)
    ensures
        match pe_image(data@) {
            Some((s, a)) => r matches Some((v, b)) && v@ == s && b == a,
            None => r is None,
        },
{
    let pe = goblin::pe::PE::parse(data).ok()?;
    let sections = pe.sections.iter().map(|s| PeSection {
        name: s.name,
        virtual_size: s.virtual_size,
        virtual_address: s.virtual_address,
        size_of_raw_data: s.size_of_raw_data,
        pointer_to_raw_data: s.pointer_to_raw_data,
    }).collect();
    Some((sections, pe.header.optional_header.map(|h| h.windows_fields.file_alignment)))
}

/// Whether the address arithmetic of `find_offset` stays within `usize`
/// for these sections (always so where `usize` has 64 bits).
pub open spec fn sections_fit(sections: Seq<PeSection>, file_alignment: u32) -> bool {
    forall|i: int|
        0 <= i < sections.len() ==> {
            &&& #[trigger] sections[i].pointer_to_raw_data + sections[i].size_of_raw_data + file_alignment + 0x1000
                <= usize::MAX
            &&& sections[i].virtual_address + sections[i].size_of_raw_data + 0x1000 <= usize::MAX
            &&& sections[i].virtual_size + 0x1000 <= usize::MAX
        }
}

/// `x` rounded up to a multiple of `a`, within `usize`.
fn round_up_exec(x: usize, a: usize) -> (r: usize)
    requires
        a > 0,
        x + a - 1 <= usize::MAX,
    ensures
        r == round_up(x as int, a as int),
        x <= r <= x + a - 1,
{
    let q = (x + (a - 1)) / a;
    proof {
        let n: int = x + a - 1;
        assert(q * a <= n) by (nonlinear_arith)
            requires
                q == n / (a as int),
                a > 0,
                n >= 0,
        ;
        assert(q * a >= x) by (nonlinear_arith)
            requires
                q == n / (a as int),
                a > 0,
                n == x + a - 1,
                x >= 0,
        ;
    }
    q * a
}

/// How many bytes of the section the file backs, as `section_read_size`
/// states, for a power-of-two file alignment.
fn read_size(s: &PeSection, file_alignment: u32) -> (r: usize)
    requires
        file_alignment > 0,
        s.pointer_to_raw_data + s.size_of_raw_data + file_alignment + 0x1000 <= usize::MAX,
        s.virtual_address + s.size_of_raw_data + 0x1000 <= usize::MAX,
        s.virtual_size + 0x1000 <= usize::MAX,
    ensures
        r == section_read_size(*s, file_alignment),
        r <= s.size_of_raw_data + 0xfff,
        r <= s.pointer_to_raw_data + s.size_of_raw_data + file_alignment + 0x1000 - s.pointer_to_raw_data,
        s.pointer_to_raw_data / 512 * 512 + r <= s.pointer_to_raw_data + s.size_of_raw_data + file_alignment - 1,
{
    if s.size_of_raw_data == 0 {
        return 0;
    }
    let ptr = s.pointer_to_raw_data as usize;
    let size = s.size_of_raw_data as usize;
    let fa = file_alignment as usize;
    let up = round_up_exec(ptr + size, fa);
    let aligned = ptr / 512 * 512;
    proof {
        assert(aligned <= ptr && aligned + 511 >= ptr) by (nonlinear_arith)
            requires
                aligned == ptr / 512 * 512,
                ptr >= 0,
        ;
    }
    let from_file = up - aligned;
    let raw = round_up_exec(size, 0x1000);
    let read = if from_file <= raw { from_file } else { raw };
    if s.virtual_size == 0 {
        read
    } else {
        let virt = round_up_exec(s.virtual_size as usize, 0x1000);
        if read <= virt { read } else { virt }
    }
}

/// The file offset of a relative virtual address, found through the
/// section that holds it, as `goblin::pe::utils::find_offset` works it out
/// with the default options: `pe_offset`.
fn find_offset(rva: usize, sections: &[PeSection], file_alignment: u32) -> (r: Option<usize>)
    requires
        sections_fit(sections@, file_alignment),
    ensures
        r == pe_offset(rva, sections@, file_alignment),
{
    if file_alignment == 0 || file_alignment & (file_alignment - 1) != 0 {
        return None;
    }
    let mut i: usize = 0;
    assert(sections@.skip(0) =~= sections@);
    while i < sections.len()
        invariant
            i <= sections@.len(),
            file_alignment > 0,
            is_power_of_two(file_alignment),
            sections_fit(sections@, file_alignment),
            pe_offset(rva, sections@, file_alignment) == offset_in_sections(
                rva,
                sections@.skip(i as int),
                file_alignment,
            ),
        decreases sections@.len() - i,
    {
        let s = &sections[i];
        assert(sections@.skip(i as int)[0] == sections@[i as int]);
        assert(sections@.skip(i as int).skip(1) =~= sections@.skip(i + 1));
        let read = read_size(s, file_alignment);
        let va = s.virtual_address as usize;
        if va <= rva && rva < va + read {
            let ptr = s.pointer_to_raw_data as usize;
            return Some(ptr + (rva - va));
        }
        i = i + 1;
    }
    None
}

// ---------------------------------------------------------------------------
// Sections
// ---------------------------------------------------------------------------

/// The name of the resource section, `.rsrc` padded with NUL bytes.
pub open spec fn is_rsrc(name: [u8; 8]) -> bool {
    name@ == seq![0x2eu8, 0x72, 0x73, 0x72, 0x63, 0, 0, 0]
}

/// The index of the first resource section.
pub open spec fn first_rsrc(sections: Seq<PeSection>) -> Option<int>
    decreases sections.len(),
{
    if sections.len() == 0 {
        None
    } else if is_rsrc(sections[0].name) {
        Some(0)
    } else {
        match first_rsrc(sections.skip(1)) {
            Some(i) => Some(i + 1),
            None => None,
        }
    }
}

/// The first resource section is a resource section.
proof fn lemma_first_rsrc(sections: Seq<PeSection>)
    ensures
        first_rsrc(sections) matches Some(i) ==> 0 <= i < sections.len() && is_rsrc(sections[i].name),
    decreases sections.len(),
{
    if sections.len() > 0 && !is_rsrc(sections[0].name) {
        lemma_first_rsrc(sections.skip(1));
    }
}

/// The data of a section: its raw bytes in the file, zero padded to its
/// virtual size where that is larger; `None` where the file is too short.
pub open spec fn section_bytes(s: PeSection, pe: Seq<u8>) -> Option<Seq<u8>> {
    let start = s.pointer_to_raw_data as int;
    let end = start + s.size_of_raw_data;
    if end > pe.len() {
        None
    } else if s.virtual_size > s.size_of_raw_data {
        Some(pe.subrange(start, end) + Seq::new((s.virtual_size - s.size_of_raw_data) as nat, |i: int| 0u8))
    } else {
        Some(pe.subrange(start, end))
    }
}

// ---------------------------------------------------------------------------
// Resource directories
// ---------------------------------------------------------------------------

/// A named entry of a resource directory.
#[derive(Debug, Clone, Copy)]
pub struct NameEntry {
    pub name_offset: u32,
    pub offset: usize,
}

/// A numbered entry of a resource directory.
#[derive(Debug, Clone, Copy)]
pub struct IdEntry {
    pub offset: usize,
    pub id: u32,
}

/// A resource directory: its named and its numbered entries.
#[derive(Debug)]
pub struct Directory {
    pub name_entries: Vec<NameEntry>,
    pub id_entries: Vec<IdEntry>,
}

/// An entry's offset: the low 31 bits of its second word.
pub open spec fn entry_offset(w: u32) -> usize {
    (w % 0x8000_0000) as usize
}

/// The resource directory at the start of `d`: a 16-byte header whose last
/// two `u16` count the named and the numbered entries, then the entries,
/// eight bytes each, little endian.
pub open spec fn spec_directory(d: Seq<u8>) -> Result<(Seq<NameEntry>, Seq<IdEntry>), DllError> {
    if d.len() < 16 {
        Err(DllError::UnexpectedEof)
    } else {
        let n = le_u16(d.skip(12)) as int;
        let m = le_u16(d.skip(14)) as int;
        if d.len() < 16 + 8 * (n + m) {
            Err(DllError::UnexpectedEof)
        } else {
            Ok(
                (
                    Seq::new(
                        n as nat,
                        |k: int|
                            NameEntry {
                                name_offset: le_u32(d.skip(16 + 8 * k)),
                                offset: entry_offset(le_u32(d.skip(16 + 8 * k + 4))),
                            },
                    ),
                    Seq::new(
                        m as nat,
                        |k: int|
                            IdEntry {
                                id: le_u32(d.skip(16 + 8 * n + 8 * k)),
                                offset: entry_offset(le_u32(d.skip(16 + 8 * n + 8 * k + 4))),
                            },
                    ),
                ),
            )
        }
    }
}

/// The offset of the first numbered entry with id `id`.
pub open spec fn find_id(entries: Seq<IdEntry>, id: u32) -> Option<usize>
    decreases entries.len(),
{
    if entries.len() == 0 {
        None
    } else if entries[0].id == id {
        Some(entries[0].offset)
    } else {
        find_id(entries.skip(1), id)
    }
}

/// The resource type of version information.
pub const RT_VERSION: u32 = 0x10;

// ---------------------------------------------------------------------------
// The version block
// ---------------------------------------------------------------------------

/// What reading a DLL's version gives: the version, a failure, or nothing
/// where the reading gives up on malformed data.
pub enum DllOutcome {
    Version(usize, usize, usize),
    Failed(DllError),
    GivesUp,
}

/// The UTF-16 units at the start of `b` up to the first zero unit or the
/// end of the data, and whether a zero unit ended them.
pub open spec fn utf16_name(b: Seq<u8>) -> (Seq<u16>, bool)
    decreases b.len(),
{
    if b.len() < 2 {
        (Seq::empty(), false)
    } else if le_u16(b) == 0 {
        (Seq::empty(), true)
    } else {
        let (rest, ended) = utf16_name(b.skip(2));
        (seq![le_u16(b)] + rest, ended)
    }
}

/// `VS_VERSION_INFO` in UTF-16.
pub open spec fn vs_version_info() -> Seq<u16> {
    seq![
        0x56u16, 0x53, 0x5f, 0x56, 0x45, 0x52, 0x53, 0x49, 0x4f, 0x4e, 0x5f, 0x49, 0x4e, 0x46, 0x4f,
    ]
}

/// The `VS_VERSIONINFO` block `vi`: three `u16`, the key
/// `VS_VERSION_INFO` (anything else gives up), padding to four bytes, then
/// a `VS_FIXEDFILEINFO` whose file version words give minor, major, a word
/// that is skipped, and patch.
#[verifier::opaque]
pub open spec fn spec_version_info(vi: Seq<u8>) -> DllOutcome {
    if vi.len() < 6 {
        DllOutcome::Failed(DllError::UnexpectedEof)
    } else {
        let (name, ended) = utf16_name(vi.skip(6));
        if name != vs_version_info() {
            DllOutcome::GivesUp
        } else if !ended {
            DllOutcome::Failed(DllError::UnexpectedEof)
        } else {
            let rest = vi.skip(6 + 2 * (name.len() + 1) as int);
            let pad: int = (4 - (name.len() * 2) % 4) % 4;
            if rest.len() < pad + 16 {
                DllOutcome::Failed(DllError::UnexpectedEof)
            } else {
                let f = rest.skip(pad + 8);
                DllOutcome::Version(
                    le_u16(f.skip(2)) as usize,
                    le_u16(f) as usize,
                    le_u16(f.skip(6)) as usize,
                )
            }
        }
    }
}

/// The version entry `v` of the language directory: the address and size
/// of the version block (then a code page and a reserved word); the block
/// is found in the file through the address.
#[verifier::opaque]
pub open spec fn spec_version_entry(data: Seq<u8>, v: Seq<u8>, sections: Seq<PeSection>, alignment: Option<u32>) -> DllOutcome {
    if v.len() < 16 {
        DllOutcome::Failed(DllError::UnexpectedEof)
    } else {
        let rva = le_u32(v) as usize;
        let size = le_u32(v.skip(4)) as int;
        match alignment {
            None => DllOutcome::GivesUp,
            Some(fa) => if !sections_fit(sections, fa) {
                DllOutcome::GivesUp
            } else {
                match pe_offset(rva, sections, fa) {
                    None => DllOutcome::GivesUp,
                    Some(off) => if off > data.len() || size > data.len() - off {
                        DllOutcome::GivesUp
                    } else {
                        spec_version_info(data.subrange(off as int, off + size))
                    },
                }
            },
        }
    }
}

/// The first numbered entry of a directory at `offset` of the resource
/// data: reading the directory may fail; a directory without numbered
/// entries, or an offset past the data, gives up.
pub open spec fn first_entry_at(rsrc: Seq<u8>, offset: usize) -> Result<Option<usize>, DllError> {
    if offset > rsrc.len() {
        Ok(None)
    } else {
        match spec_directory(rsrc.skip(offset as int)) {
            Err(e) => Err(e),
            Ok((_, ids)) => if ids.len() == 0 {
                Ok(None)
            } else {
                Ok(Some(ids[0].offset))
            },
        }
    }
}

/// The version from the resource data `rsrc`: the root directory's
/// `RT_VERSION` entry (none: version 0.0.0) leads to a resource directory,
/// whose first entry leads to a language directory, whose first entry is
/// the version entry.
#[verifier::opaque]
pub open spec fn spec_resources(data: Seq<u8>, rsrc: Seq<u8>, sections: Seq<PeSection>, alignment: Option<u32>) -> DllOutcome {
    match spec_directory(rsrc) {
        Err(e) => DllOutcome::Failed(e),
        Ok((_, root)) => match find_id(root, RT_VERSION) {
            None => DllOutcome::Version(0, 0, 0),
            Some(o1) => match first_entry_at(rsrc, o1) {
                Err(e) => DllOutcome::Failed(e),
                Ok(None) => DllOutcome::GivesUp,
                Ok(Some(o2)) => match first_entry_at(rsrc, o2) {
                    Err(e) => DllOutcome::Failed(e),
                    Ok(None) => DllOutcome::GivesUp,
                    Ok(Some(o3)) => if o3 > rsrc.len() {
                        DllOutcome::GivesUp
                    } else {
                        spec_version_entry(data, rsrc.skip(o3 as int), sections, alignment)
                    },
                },
            },
        },
    }
}

/// The version of the DLL image `data`.
pub open spec fn spec_dll(data: Seq<u8>) -> DllOutcome {
    match pe_image(data) {
        None => DllOutcome::GivesUp,
        Some((sections, alignment)) => match first_rsrc(sections) {
            None => DllOutcome::Failed(DllError::ResourceSectionNotFound),
            Some(i) => match section_bytes(sections[i], data) {
                None => DllOutcome::GivesUp,
                Some(rsrc) => spec_resources(data, rsrc, sections, alignment),
            },
        },
    }
}

// ---------------------------------------------------------------------------
// Reading
// ---------------------------------------------------------------------------

/// The little-endian `u16` at `pos`, if two bytes are there.
fn read_u16(d: &[u8], pos: usize) -> (r: Option<u16>)
    ensures
        pos + 2 <= d@.len() ==> r == Some(le_u16(d@.skip(pos as int))),
        pos + 2 > d@.len() ==> r is None,
{
    if pos > d.len() || d.len() - pos < 2 {
        return None;
    }
    Some((d[pos] as u32 + 256 * d[pos + 1] as u32) as u16)
}

/// The little-endian `u32` at `pos`, if four bytes are there.
fn read_u32(d: &[u8], pos: usize) -> (r: Option<u32>)
    ensures
        pos + 4 <= d@.len() ==> r == Some(le_u32(d@.skip(pos as int))),
        pos + 4 > d@.len() ==> r is None,
{
    if pos > d.len() || d.len() - pos < 4 {
        return None;
    }
    Some(
        (d[pos] as u64 + 0x100 * d[pos + 1] as u64 + 0x1_0000 * d[pos + 2] as u64 + 0x100_0000 * d[pos + 3] as u64) as u32,
    )
}

/// The offset in an entry's second word.
fn offset_of(w: u32) -> (r: usize)
    ensures
        r == entry_offset(w),
{
    let low = w & 0x7fff_ffff;
    assert(w & 0x7fff_ffff == w % 0x8000_0000) by (bit_vector);
    low as usize
}

/// Reads the resource directory at `start`.
pub fn parse_directory(d: &[u8], start: usize) -> (r: Result<Directory, DllError>)
    requires
        start <= d@.len(),
    ensures
        match spec_directory(d@.skip(start as int)) {
            Ok((names, ids)) => r matches Ok(x) && x.name_entries@ == names && x.id_entries@ == ids,
            Err(e) => r == Err::<Directory, DllError>(e),
        },
{
    let ghost s = d@.skip(start as int);
    if d.len() - start < 16 {
        return Err(DllError::UnexpectedEof);
    }
    let n = match read_u16(d, start + 12) {
        Some(v) => v,
        None => return Err(DllError::UnexpectedEof),
    };
    let m = match read_u16(d, start + 14) {
        Some(v) => v,
        None => return Err(DllError::UnexpectedEof),
    };
    assert(d@.skip(start + 12) =~= s.skip(12));
    assert(d@.skip(start + 14) =~= s.skip(14));
    let total: usize = 16 + 8 * (n as usize + m as usize);
    if d.len() - start < total {
        return Err(DllError::UnexpectedEof);
    }
    let ghost expected = spec_directory(s)->Ok_0;
    let len = d.len();
    let mut name_entries: Vec<NameEntry> = Vec::new();
    let mut k: usize = 0;
    while k < n as usize
        invariant
            s == d@.skip(start as int),
            start + total <= d@.len(),
            len == d@.len(),
            total == 16 + 8 * (n + m),
            n == le_u16(s.skip(12)),
            m == le_u16(s.skip(14)),
            expected == spec_directory(s)->Ok_0,
            spec_directory(s) is Ok,
            k <= n,
            name_entries@ =~= expected.0.subrange(0, k as int),
        decreases n - k,
    {
        assert(8 * k + 8 <= 8 * n) by (nonlinear_arith)
            requires
                k < n,
        ;
        let p = start + 16 + 8 * k;
        let a = read_u32(d, p).unwrap();
        let b = read_u32(d, p + 4).unwrap();
        assert(d@.skip(p as int) =~= s.skip(16 + 8 * k));
        assert(d@.skip(p + 4) =~= s.skip(16 + 8 * k + 4));
        name_entries.push(NameEntry { name_offset: a, offset: offset_of(b) });
        k = k + 1;
    }
    let mut id_entries: Vec<IdEntry> = Vec::new();
    let mut k: usize = 0;
    while k < m as usize
        invariant
            s == d@.skip(start as int),
            start + total <= d@.len(),
            len == d@.len(),
            total == 16 + 8 * (n + m),
            n == le_u16(s.skip(12)),
            m == le_u16(s.skip(14)),
            expected == spec_directory(s)->Ok_0,
            spec_directory(s) is Ok,
            k <= m,
            id_entries@ =~= expected.1.subrange(0, k as int),
        decreases m - k,
    {
        assert(8 * k + 8 <= 8 * m) by (nonlinear_arith)
            requires
                k < m,
        ;
        let p = start + 16 + 8 * n as usize + 8 * k;
        let id = read_u32(d, p).unwrap();
        let b = read_u32(d, p + 4).unwrap();
        assert(d@.skip(p as int) =~= s.skip(16 + 8 * n + 8 * k));
        assert(d@.skip(p + 4) =~= s.skip(16 + 8 * n + 8 * k + 4));
        id_entries.push(IdEntry { offset: offset_of(b), id });
        k = k + 1;
    }
    assert(expected.0.subrange(0, n as int) =~= expected.0);
    assert(expected.1.subrange(0, m as int) =~= expected.1);
    Ok(Directory { name_entries, id_entries })
}

/// The index of the first resource section.
fn find_rsrc(sections: &Vec<PeSection>) -> (r: Option<usize>)
    ensures
        match first_rsrc(sections@) {
            Some(i) => r == Some(i as usize),
            None => r is None,
        },
{
    let mut i: usize = 0;
    assert(sections@.skip(0) =~= sections@);
    while i < sections.len()
        invariant
            i <= sections@.len(),
            first_rsrc(sections@) == match first_rsrc(sections@.skip(i as int)) {
                Some(j) => Some(j + i),
                None => None::<int>,
            },
        decreases sections@.len() - i,
    {
        let n = sections[i].name;
        assert(sections@.skip(i as int)[0] == sections@[i as int]);
        assert(sections@.skip(i as int).skip(1) =~= sections@.skip(i + 1));
        if n[0] == 0x2e && n[1] == 0x72 && n[2] == 0x73 && n[3] == 0x72 && n[4] == 0x63 && n[5] == 0 && n[6] == 0
            && n[7] == 0 {
            assert(n@ =~= seq![0x2eu8, 0x72, 0x73, 0x72, 0x63, 0, 0, 0]);
            return Some(i);
        }
        assert(!is_rsrc(n)) by {
            if is_rsrc(n) {
                assert(n@[0] == 0x2e && n@[1] == 0x72 && n@[2] == 0x73 && n@[3] == 0x72);
                assert(n@[4] == 0x63 && n@[5] == 0 && n@[6] == 0 && n@[7] == 0);
            }
        }
        i = i + 1;
    }
    None
}

/// The data of a section (see `section_bytes`).
fn section_data(s: PeSection, pe: &[u8]) -> (r: Option<Vec<u8>>)
    ensures
        match section_bytes(s, pe@) {
            Some(b) => r matches Some(v) && v@ == b,
            None => r is None,
        },
{
    let start = s.pointer_to_raw_data as u64;
    let end = start + s.size_of_raw_data as u64;
    if end > pe.len() as u64 {
        return None;
    }
    let mut v = crate::rmc::basic::slice_vec(pe, start as usize, end as usize);
    if s.virtual_size > s.size_of_raw_data {
        let extra = s.virtual_size - s.size_of_raw_data;
        let ghost head = v@;
        let mut k: u32 = 0;
        while k < extra
            invariant
                k <= extra,
                v@ =~= head + Seq::new(k as nat, |i: int| 0u8),
            decreases extra - k,
        {
            v.push(0);
            k = k + 1;
        }
    }
    Some(v)
}

/// The first numbered entry of the directory at `offset` (see
/// `first_entry_at`).
fn first_entry(rsrc: &[u8], offset: usize) -> (r: Result<Option<usize>, DllError>)
    ensures
        r == first_entry_at(rsrc@, offset),
{
    if offset > rsrc.len() {
        return Ok(None);
    }
    match parse_directory(rsrc, offset) {
        Err(e) => Err(e),
        Ok(dir) => if dir.id_entries.len() == 0 {
            Ok(None)
        } else {
            Ok(Some(dir.id_entries[0].offset))
        },
    }
}

/// The offset of the first numbered entry with id `id`.
fn find_id_exec(entries: &Vec<IdEntry>, id: u32) -> (r: Option<usize>)
    ensures
        r == find_id(entries@, id),
{
    let mut i: usize = 0;
    assert(entries@.skip(0) =~= entries@);
    while i < entries.len()
        invariant
            i <= entries@.len(),
            find_id(entries@, id) == find_id(entries@.skip(i as int), id),
        decreases entries@.len() - i,
    {
        assert(entries@.skip(i as int).skip(1) =~= entries@.skip(i + 1));
        if entries[i].id == id {
            return Some(entries[i].offset);
        }
        i = i + 1;
    }
    None
}

/// Whether `sections_fit` holds.
fn sections_fit_exec(sections: &Vec<PeSection>, file_alignment: u32) -> (r: bool)
    ensures
        r == sections_fit(sections@, file_alignment),
{
    let max = usize::MAX as u128;
    let mut i: usize = 0;
    while i < sections.len()
        invariant
            i <= sections@.len(),
            max == usize::MAX,
            forall|j: int|
                0 <= j < i ==> {
                    &&& #[trigger] sections@[j].pointer_to_raw_data + sections@[j].size_of_raw_data + file_alignment
                        + 0x1000 <= usize::MAX
                    &&& sections@[j].virtual_address + sections@[j].size_of_raw_data + 0x1000 <= usize::MAX
                    &&& sections@[j].virtual_size + 0x1000 <= usize::MAX
                },
        decreases sections@.len() - i,
    {
        let s = sections[i];
        if s.pointer_to_raw_data as u128 + s.size_of_raw_data as u128 + file_alignment as u128 + 0x1000 > max
            || s.virtual_address as u128 + s.size_of_raw_data as u128 + 0x1000 > max || s.virtual_size as u128 + 0x1000
            > max {
            return false;
        }
        i = i + 1;
    }
    true
}

/// The UTF-16 units at `start` up to a zero unit or the end (see
/// `utf16_name`), and the position after them and their terminator.
fn read_name(d: &[u8], start: usize) -> (r: (Vec<u16>, bool, usize))
    requires
        start <= d@.len(),
    ensures
        (r.0@, r.1) == utf16_name(d@.skip(start as int)),
        r.1 ==> r.2 == start + 2 * (r.0@.len() + 1) && r.2 <= d@.len(),
{
    let mut name: Vec<u16> = Vec::new();
    let mut p = start;
    let ghost b = d@.skip(start as int);
    let len = d.len();
    assert(d@.skip(p as int) =~= b);
    loop
        invariant
            start <= p <= d@.len(),
            len == d@.len(),
            p == start + 2 * name@.len(),
            b == d@.skip(start as int),
            utf16_name(b) == (name@ + utf16_name(d@.skip(p as int)).0, utf16_name(d@.skip(p as int)).1),
        decreases d@.len() - p,
    {
        let ghost t = d@.skip(p as int);
        match read_u16(d, p) {
            None => {
                assert(name@ + Seq::<u16>::empty() =~= name@);
                return (name, false, p);
            },
            Some(c) => {
                if c == 0 {
                    assert(name@ + Seq::<u16>::empty() =~= name@);
                    return (name, true, p + 2);
                }
                assert(t.skip(2) =~= d@.skip(p + 2));
                let ghost rest = utf16_name(d@.skip(p + 2));
                assert(name@ + (seq![c] + rest.0) =~= name@.push(c) + rest.0);
                name.push(c);
                p = p + 2;
            },
        }
    }
}

/// The version block `vi` (see `spec_version_info`).
fn version_info(vi: &[u8]) -> (r: DllOutcome)
    ensures
        r == spec_version_info(vi@),
{
    reveal(spec_version_info);
    if vi.len() < 6 {
        return DllOutcome::Failed(DllError::UnexpectedEof);
    }
    let (name, ended, p) = read_name(vi, 6);
    let expected: [u16; 15] = [0x56, 0x53, 0x5f, 0x56, 0x45, 0x52, 0x53, 0x49, 0x4f, 0x4e, 0x5f, 0x49, 0x4e, 0x46, 0x4f];
    assert(expected@ =~= vs_version_info());
    let mut same = name.len() == 15;
    let mut k: usize = 0;
    while same && k < 15
        invariant
            k <= 15,
            expected@ == vs_version_info(),
            same ==> name@.len() == 15,
            same ==> forall|j: int| 0 <= j < k ==> name@[j] == expected@[j],
            !same ==> name@ != vs_version_info(),
        decreases 15 - k,
    {
        if name[k] != expected[k] {
            same = false;
        }
        k = k + 1;
    }
    if !same {
        return DllOutcome::GivesUp;
    }
    assert(name@ =~= vs_version_info());
    if !ended {
        return DllOutcome::Failed(DllError::UnexpectedEof);
    }
    assert(vi@.skip(p as int) =~= vi@.skip(6 + 2 * (name@.len() + 1) as int));
    // fifteen units: thirty bytes, padded by two
    let q = p + 2;
    if vi.len() - p < 18 {
        return DllOutcome::Failed(DllError::UnexpectedEof);
    }
    let minor = read_u16(vi, q + 8).unwrap();
    let major = read_u16(vi, q + 10).unwrap();
    let patch = read_u16(vi, q + 14).unwrap();
    let ghost f = vi@.skip(p as int).skip(10);
    assert(vi@.skip(q + 8) =~= f);
    assert(vi@.skip(q + 10) =~= f.skip(2));
    assert(vi@.skip(q + 14) =~= f.skip(6));
    DllOutcome::Version(major as usize, minor as usize, patch as usize)
}

/// The version entry at `start` of the resource data (see
/// `spec_version_entry`).
fn version_entry(
    data: &[u8],
    rsrc: &[u8],
    start: usize,
    sections: &Vec<PeSection>,
    alignment: Option<u32>,
) -> (r: DllOutcome)
    requires
        start <= rsrc@.len(),
    ensures
        r == spec_version_entry(data@, rsrc@.skip(start as int), sections@, alignment),
{
    reveal(spec_version_entry);
    let ghost v = rsrc@.skip(start as int);
    if rsrc.len() - start < 16 {
        return DllOutcome::Failed(DllError::UnexpectedEof);
    }
    let rva = read_u32(rsrc, start).unwrap() as usize;
    let size = read_u32(rsrc, start + 4).unwrap();
    assert(rsrc@.skip(start + 4) =~= v.skip(4));
    let fa = match alignment {
        None => return DllOutcome::GivesUp,
        Some(fa) => fa,
    };
    if !sections_fit_exec(sections, fa) {
        return DllOutcome::GivesUp;
    }
    let off = match find_offset(rva, sections.as_slice(), fa) {
        None => return DllOutcome::GivesUp,
        Some(off) => off,
    };
    if off > data.len() || size as usize > data.len() - off {
        return DllOutcome::GivesUp;
    }
    let vi = crate::rmc::basic::slice_vec(data, off, off + size as usize);
    version_info(vi.as_slice())
}

/// The version from the resource data (see `spec_resources`).
fn resources(data: &[u8], rsrc: &[u8], sections: &Vec<PeSection>, alignment: Option<u32>) -> (r: DllOutcome)
    ensures
        r == spec_resources(data@, rsrc@, sections@, alignment),
{
    reveal(spec_resources);
    assert(rsrc@.skip(0) =~= rsrc@);
    let root = match parse_directory(rsrc, 0) {
        Err(e) => return DllOutcome::Failed(e),
        Ok(d) => d,
    };
    let o1 = match find_id_exec(&root.id_entries, RT_VERSION) {
        None => return DllOutcome::Version(0, 0, 0),
        Some(o) => o,
    };
    let o2 = match first_entry(rsrc, o1) {
        Err(e) => return DllOutcome::Failed(e),
        Ok(None) => return DllOutcome::GivesUp,
        Ok(Some(o)) => o,
    };
    let o3 = match first_entry(rsrc, o2) {
        Err(e) => return DllOutcome::Failed(e),
        Ok(None) => return DllOutcome::GivesUp,
        Ok(Some(o)) => o,
    };
    if o3 > rsrc.len() {
        return DllOutcome::GivesUp;
    }
    version_entry(data, rsrc, o3, sections, alignment)
}

/// The version of a DLL image (see `spec_dll`).
fn read_dll(data: &[u8]) -> (r: DllOutcome)
    ensures
        r == spec_dll(data@),
{
    let (sections, alignment) = match parse_pe(data) {
        Some(v) => v,
        None => return DllOutcome::GivesUp,
    };
    let i = match find_rsrc(&sections) {
        Some(i) => i,
        None => return DllOutcome::Failed(DllError::ResourceSectionNotFound),
    };
    proof {
        lemma_first_rsrc(sections@);
    }
    let rsrc = match section_data(sections[i], data) {
        Some(v) => v,
        None => return DllOutcome::GivesUp,
    };
    resources(data, rsrc.as_slice(), &sections, alignment)
}

/// Reads the file version of the DLL image `data`: 0.0.0 where it has no
/// version resource. Fails where the image has no resource section or
/// where the resource data ends early; `data` must be an image whose
/// reading does not give up (see `spec_dll`).
pub fn parse(data: &[u8]) -> (r: Result<Dll, DllError>)
    requires
        !(spec_dll(data@) is GivesUp),
    ensures
        match spec_dll(data@) {
            DllOutcome::Version(a, b, c) => r matches Ok(d) && d.version == Version { major: a, minor: b, patch: c },
            DllOutcome::Failed(e) => r matches Err(x) && x == e,
            DllOutcome::GivesUp => false,
        },
{
    match read_dll(data) {
        DllOutcome::Version(a, b, c) => Ok(Dll { version: Version { major: a, minor: b, patch: c } }),
        DllOutcome::Failed(e) => Err(e),
        DllOutcome::GivesUp => Err(DllError::UnexpectedEof),
    }
}

/// Reads the file version of any data: `None` where the reading gives up
/// on malformed data, else what `parse` gives.
pub fn try_parse(data: &[u8]) -> (r: Option<Result<Dll, DllError>>)
    ensures
        match spec_dll(data@) {
            DllOutcome::Version(a, b, c) => r matches Some(Ok(d)) && d.version == Version { major: a, minor: b, patch: c },
            DllOutcome::Failed(e) => r matches Some(Err(x)) && x == e,
            DllOutcome::GivesUp => r is None,
        },
{
    match read_dll(data) {
        DllOutcome::GivesUp => None,
        _ => Some(parse(data)),
    }
}

} // verus!
