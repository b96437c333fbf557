//! ELF64 load planning: which bytes of the file go where in memory.
use vstd::prelude::*;
use super::bytes::{le_u32, le_u64};
use super::constants::PT_LOAD;
use super::error::{ElfError, ElfResult};
use super::parser::{decode_program_header, header_decodes, header_error, phdr_decodes, phdrs_fit, ElfParser};
use super::structures::{Elf64Header, Elf64ProgramHeader, SegmentLoad};

verus! {

/// Most loadable segments one binary may have.
pub const MAX_SEGMENTS: usize = 8;

/// Bytes of the file that a segment with file offset `off` and file size
/// `filesz` takes from a file of `len` bytes.
pub open spec fn segment_file_size(off: int, filesz: int, len: int) -> int {
    if off < len {
        if filesz < len - off { filesz } else { len - off }
    } else {
        0
    }
}

/// What the program header at table index `i` asks to load, if anything.
pub open spec fn segment_at(d: Seq<u8>, ph_start: int, phentsize: int, i: int) -> Option<SegmentLoad> {
    let off = ph_start + i * phentsize;
    if off + 56 > d.len() {
        None
    } else if le_u32(d, off) != PT_LOAD {
        None
    } else if le_u64(d, off + 40) == 0 {
        None
    } else {
        Some(SegmentLoad {
            vaddr: le_u64(d, off + 16) as u64,
            memsz: le_u64(d, off + 40) as u64,
            flags: le_u32(d, off + 4) as u32,
            file_offset: le_u64(d, off + 8) as u64,
            file_size: segment_file_size(le_u64(d, off + 8), le_u64(d, off + 32), d.len() as int) as usize,
        })
    }
}

/// The loads asked for by the first `n` program headers, in table order.
pub open spec fn planned_segments(d: Seq<u8>, ph_start: int, phentsize: int, n: nat) -> Seq<SegmentLoad>
    decreases n,
{
    if n == 0 {
        Seq::empty()
    } else {
        let prev = planned_segments(d, ph_start, phentsize, (n - 1) as nat);
        match segment_at(d, ph_start, phentsize, n - 1) {
            Some(s) => prev.push(s),
            None => prev,
        }
    }
}

/// The whole load plan of a binary whose header `h` was decoded from `d`.
pub open spec fn load_plan(d: Seq<u8>, h: Elf64Header) -> Seq<SegmentLoad> {
    planned_segments(d, h.e_phoff as int, h.e_phentsize as int, h.e_phnum as nat)
}

/// Whether the program header table of `h` lies within `d`.
pub open spec fn ph_table_fits(d: Seq<u8>, h: Elf64Header) -> bool {
    h.e_phoff + h.e_phnum * h.e_phentsize <= d.len()
}

/// A validated binary and the loads that its segments ask for.
pub struct LoadPlan {
    pub header: Elf64Header,
    pub entry_point: u64,
    pub segments: Vec<SegmentLoad>,
}

/// ELF64 loader: validates a binary and decides how its segments are loaded.
pub struct ElfLoader {
    parser: ElfParser,
}

impl ElfLoader {
    pub fn new() -> (l: Self) {
        ElfLoader { parser: ElfParser::new() }
    }

    /// Parses and validates the ELF header.
    pub fn parse_header(&self, data: &[u8]) -> (r: ElfResult<Elf64Header>)
        ensures
            match r {
                Ok(h) => header_error(data@).is_none() && header_decodes(h, data@),
                Err(e) => header_error(data@) == Some(e),
            },
    {
        self.parser.parse_header(data)
    }

    /// The header and program headers of a binary, for display (see
    /// `ElfParser::display_elf_info`).
    pub fn display_elf_info(&self, data: &[u8]) -> (r: ElfResult<(Elf64Header, Vec<Elf64ProgramHeader>)>)
        ensures
            header_error(data@) matches Some(e) ==> r == Err::<(Elf64Header, Vec<Elf64ProgramHeader>), ElfError>(e),
            header_error(data@) is None && !phdrs_fit(data@) ==> r == Err::<(Elf64Header, Vec<Elf64ProgramHeader>), ElfError>(
                ElfError::InvalidHeader,
            ),
            header_error(data@) is None && phdrs_fit(data@) ==> (r matches Ok((h, phs)) && {
                &&& header_decodes(h, data@)
                &&& phs@.len() == h.e_phnum
                &&& forall|i: int| 0 <= i < phs@.len() ==> phdr_decodes(#[trigger] phs@[i], data@, h.e_phoff + i * h.e_phentsize)
            }),
    {
        self.parser.display_elf_info(data)
    }

    /// Whether `data` holds a valid ELF header.
    pub fn is_elf(&self, data: &[u8]) -> (b: bool)
        ensures
            b == header_error(data@).is_none(),
    {
        self.parser.is_elf(data)
    }

    /// Plans the loading of a binary: the header is validated, the program
    /// header table must lie within the file, and every `PT_LOAD` header with a
    /// non-zero memory size whose entry lies within the file becomes a load;
    /// more than `MAX_SEGMENTS` loads is a `LoadError`.
    pub fn plan_load(&self, data: &[u8]) -> (r: ElfResult<LoadPlan>)
        ensures
            match r {
                Ok(p) => {
                    &&& header_error(data@).is_none()
                    &&& header_decodes(p.header, data@)
                    &&& ph_table_fits(data@, p.header)
                    &&& p.entry_point == p.header.e_entry
                    &&& p.segments@ == load_plan(data@, p.header)
                    &&& p.segments@.len() <= MAX_SEGMENTS
                },
                Err(e) => match header_error(data@) {
                    Some(he) => e == he,
                    None => exists|h: Elf64Header| #[trigger] header_decodes(h, data@) && (
                        (!ph_table_fits(data@, h) && e == ElfError::InvalidHeader)
                        || (ph_table_fits(data@, h) && load_plan(data@, h).len() > MAX_SEGMENTS
                            && e == ElfError::LoadError)),
                },
            },
    {
        let header = self.parser.parse_header(data)?;
        let len = data.len();
        let ph_start = header.e_phoff;
        let phentsize = header.e_phentsize as u64;
        let phnum = header.e_phnum as u64;
        proof {
            assert(phnum * phentsize <= 0xffff * 0xffff) by (nonlinear_arith)
                requires phnum <= 0xffff, phentsize <= 0xffff;
        }
        let ph_size: u64 = phnum * phentsize;
        if ph_start > len as u64 || ph_size > len as u64 - ph_start {
            return Err(ElfError::InvalidHeader);
        }
        let mut segments: Vec<SegmentLoad> = Vec::new();
        let mut i: u64 = 0;
        while i < phnum
            invariant
                header_decodes(header, data@),
                header_error(data@).is_none(),
                len == data@.len(),
                ph_start == header.e_phoff,
                phentsize == header.e_phentsize,
                phnum == header.e_phnum,
                ph_start + phnum * phentsize <= len,
                0 <= i <= phnum,
                segments@ == planned_segments(data@, ph_start as int, phentsize as int, i as nat),
                segments@.len() <= MAX_SEGMENTS,
            decreases phnum - i,
        {
            proof {
                assert(i * phentsize <= phnum * phentsize) by (nonlinear_arith)
                    requires i <= phnum, phentsize >= 0;
            }
            let off = ph_start + i * phentsize;
            let ghost gi = i as int;
            if len as u64 >= 56 && off <= len as u64 - 56 {
                let ph = decode_program_header(data, off as usize);
                if ph.p_type == PT_LOAD && ph.p_memsz != 0 {
                    let file_size: u64 = if ph.p_offset < len as u64 {
                        if ph.p_filesz < len as u64 - ph.p_offset { ph.p_filesz } else { len as u64 - ph.p_offset }
                    } else {
                        0
                    };
                    let ghost seg = SegmentLoad {
                        vaddr: ph.p_vaddr,
                        memsz: ph.p_memsz,
                        flags: ph.p_flags,
                        file_offset: ph.p_offset,
                        file_size: file_size as usize,
                    };
                    assert(segment_at(data@, ph_start as int, phentsize as int, gi) == Some(seg));
                    assert(planned_segments(data@, ph_start as int, phentsize as int, (gi + 1) as nat)
                        == segments@.push(seg));
                    if segments.len() >= MAX_SEGMENTS {
                        proof {
                            let ghost n = (i + 1) as nat;
                            assert(planned_segments(data@, ph_start as int, phentsize as int, n).len() > MAX_SEGMENTS);
                            lemma_planned_monotone(data@, ph_start as int, phentsize as int, n, phnum as nat);
                            assert(load_plan(data@, header).len() > MAX_SEGMENTS);
                            assert(ph_table_fits(data@, header));
                            assert(header_error(data@).is_none());
                        }
                        return Err(ElfError::LoadError);
                    }
                    segments.push(SegmentLoad {
                        vaddr: ph.p_vaddr,
                        memsz: ph.p_memsz,
                        flags: ph.p_flags,
                        file_offset: ph.p_offset,
                        file_size: file_size as usize,
                    });
                } else {
                    assert(segment_at(data@, ph_start as int, phentsize as int, gi).is_none());
                }
            } else {
                assert(segment_at(data@, ph_start as int, phentsize as int, gi).is_none());
            }
            i = i + 1;
        }
        Ok(LoadPlan { header, entry_point: header.e_entry, segments })
    }
}

/// The memory image of a planned segment: its file bytes, at most `memsz`
/// of them, then zeros up to `memsz` bytes.
pub open spec fn segment_image_of(d: Seq<u8>, s: SegmentLoad) -> Seq<u8> {
    let n = if s.file_size < s.memsz { s.file_size as int } else { s.memsz as int };
    Seq::new(s.memsz as nat, |i: int| if i < n { d[s.file_offset + i] } else { 0u8 })
}

/// Builds the memory image of segment `s` of the binary `data`: the
/// segment's memory is zeroed and its file bytes are copied to its start.
pub fn segment_image(data: &[u8], s: &SegmentLoad) -> (r: Vec<u8>)
    requires
        s.memsz <= usize::MAX,
        s.file_size == 0 || s.file_offset + s.file_size <= data@.len(),
    ensures
        r@ == segment_image_of(data@, *s),
{
    let memsz = s.memsz as usize;
    let n: usize = if (s.file_size as u64) < s.memsz { s.file_size } else { memsz };
    let len = data.len();
    let mut image: Vec<u8> = Vec::new();
    let mut i: usize = 0;
    while i < memsz
        invariant
            len == data@.len(),
            memsz == s.memsz,
            n as int == (if s.file_size < s.memsz { s.file_size as int } else { s.memsz as int }),
            s.file_size == 0 || s.file_offset + s.file_size <= data@.len(),
            i <= memsz,
            image@.len() == i,
            forall|k: int| 0 <= k < i ==> image@[k] == segment_image_of(data@, *s)[k],
        decreases memsz - i,
    {
        if i < n {
            let at = s.file_offset as usize + i;
            image.push(data[at]);
        } else {
            image.push(0);
        }
        i = i + 1;
    }
    assert(image@ =~= segment_image_of(data@, *s));
    image
}

/// Every load of a plan takes its file bytes from within the binary.
pub proof fn law_planned_bytes_in_file(d: Seq<u8>, h: Elf64Header, k: int)
    requires
        0 <= k < load_plan(d, h).len(),
    ensures
        load_plan(d, h)[k].file_size == 0
            || load_plan(d, h)[k].file_offset + load_plan(d, h)[k].file_size <= d.len(),
{
    lemma_planned_in_file(d, h.e_phoff as int, h.e_phentsize as int, h.e_phnum as nat, k);
}

proof fn lemma_planned_in_file(d: Seq<u8>, ph_start: int, phentsize: int, n: nat, k: int)
    requires
        0 <= k < planned_segments(d, ph_start, phentsize, n).len(),
    ensures
        planned_segments(d, ph_start, phentsize, n)[k].file_size == 0
            || planned_segments(d, ph_start, phentsize, n)[k].file_offset
                + planned_segments(d, ph_start, phentsize, n)[k].file_size <= d.len(),
    decreases n,
{
    if n > 0 {
        let prev = planned_segments(d, ph_start, phentsize, (n - 1) as nat);
        if k < prev.len() {
            lemma_planned_in_file(d, ph_start, phentsize, (n - 1) as nat, k);
        }
    }
}

/// The plan of more headers extends the plan of fewer.
proof fn lemma_planned_monotone(d: Seq<u8>, ph_start: int, phentsize: int, m: nat, n: nat)
    requires
        m <= n,
    ensures
        planned_segments(d, ph_start, phentsize, m).len() <= planned_segments(d, ph_start, phentsize, n).len(),
    decreases n - m,
{
    if m < n {
        lemma_planned_monotone(d, ph_start, phentsize, m, (n - 1) as nat);
    }
}

} // verus!
