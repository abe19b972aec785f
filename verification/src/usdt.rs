//! USDT probe inspection: parsing the `.note.stapsdt` entries of an ELF
//! binary into typed notes, and looking probes up by `provider::name`
//! target or by address.
//!
//! The ELF container format is read through the `elf` crate; the note
//! payloads themselves, whose layout is the systemtap contract, are parsed
//! here and verified.

use crate::scan::str_eq;
use vstd::prelude::*;
use vstd::string::*;

verus! {

/// The standard ELF note type for systemtap information.
pub const STAPSDT_TYPE: u64 = 3;

/// An error while reading USDT information: what went wrong, in words.
#[derive(Clone, Debug)]
pub struct UsdtError {
    pub what: String,
}

impl UsdtError {
    pub fn new(what: &str) -> (r: UsdtError)
        ensures
            r.what@ == what@,
    {
        UsdtError { what: what.to_owned() }
    }
}

/// One entry of the `.note.stapsdt` ELF section: a probe's addresses and
/// its provider, name and argument description.
#[derive(Debug)]
pub struct UsdtNote {
    /// The provider name.
    pub provider: String,
    /// The probe's name.
    pub name: String,
    /// The probe's address.
    pub addr: u64,
    /// The link-time address of the base section.
    pub base_addr: u64,
    /// The semaphore's address; zero when the probe has none.
    pub sema_addr: u64,
    /// The argument description string.
    pub args: String,
}

/// Index of the first zero byte at or after `from`, if any.
pub open spec fn spec_cstr_end(b: Seq<u8>, from: int) -> Option<int>
    decreases b.len() - from,
{
    if from < 0 || from >= b.len() {
        None
    } else if b[from] == 0 {
        Some(from)
    } else {
        spec_cstr_end(b, from + 1)
    }
}

/// Where the three terminated strings of a note payload end: provider,
/// name and argument description, each up to its zero byte, following the
/// three addresses.
pub open spec fn spec_note_strings(b: Seq<u8>) -> Option<(int, int, int)> {
    if b.len() < 24 {
        None
    } else {
        match spec_cstr_end(b, 24) {
            None => None,
            Some(p1) => match spec_cstr_end(b, p1 + 1) {
                None => None,
                Some(p2) => match spec_cstr_end(b, p2 + 1) {
                    None => None,
                    Some(p3) => Some((p1, p2, p3)),
                },
            },
        }
    }
}

/// Exact executable form of [`spec_cstr_end`].
fn find_nul(b: &[u8], from: usize) -> (r: Option<usize>)
    ensures
        match r {
            Some(i) => spec_cstr_end(b@, from as int) == Some(i as int),
            None => spec_cstr_end(b@, from as int) is None,
        },
    decreases b@.len() - from,
{
    if from >= b.len() {
        None
    } else if *vstd::slice::slice_index_get(b, from) == 0 {
        Some(from)
    } else {
        find_nul(b, from + 1)
    }
}

/// Relies on String::from_utf8: it succeeds exactly on valid UTF-8 and
/// decodes those bytes, so the result re-encodes to the input.
#[verifier::external_body]
fn string_from_utf8(v: Vec<u8>) -> (r: Option<String>)
    ensures
        r is Some <==> vstd::utf8::valid_utf8(v@),
        (r matches Some(s) ==> vstd::utf8::encode_utf8(s@) == v@),
{
    String::from_utf8(v).ok()
}

/// Reads the bytes of one terminated string segment.
fn segment(b: &[u8], from: usize, to: usize) -> (r: Vec<u8>)
    requires
        from <= to <= b@.len(),
    ensures
        r@ == b@.subrange(from as int, to as int),
{
    vstd::slice::slice_to_vec(vstd::slice::slice_subrange(b, from, to))
}

impl UsdtNote {
    /// Parses one note payload. Its binary layout is the systemtap
    /// contract: the probe address, the link-time base section address
    /// and the semaphore address, in the byte order of this machine,
    /// followed by the provider name, the probe name and the argument
    /// description, each a zero-terminated string. Fails exactly when the
    /// payload is too short, a terminator is missing, or a string is not
    /// valid UTF-8.
    pub fn from_elf(bytes: &[u8]) -> (r: Result<UsdtNote, UsdtError>)
        ensures
            match r {
                Ok(n) => {
                    &&& spec_note_strings(bytes@) matches Some((p1, p2, p3))
                    &&& n.addr == vstd::bytes::spec_u64_from_le_bytes(bytes@.subrange(0, 8))
                    &&& n.base_addr == vstd::bytes::spec_u64_from_le_bytes(bytes@.subrange(8, 16))
                    &&& n.sema_addr == vstd::bytes::spec_u64_from_le_bytes(bytes@.subrange(16, 24))
                    &&& (spec_note_strings(bytes@) matches Some((p1, p2, p3))
                        ==> vstd::utf8::encode_utf8(n.provider@) == bytes@.subrange(24, p1)
                        && vstd::utf8::encode_utf8(n.name@) == bytes@.subrange(p1 + 1, p2)
                        && vstd::utf8::encode_utf8(n.args@) == bytes@.subrange(p2 + 1, p3))
                },
                Err(_) => spec_note_strings(bytes@) is None || (spec_note_strings(bytes@) matches
                    Some((p1, p2, p3)) && !(vstd::utf8::valid_utf8(bytes@.subrange(24, p1))
                    && vstd::utf8::valid_utf8(bytes@.subrange(p1 + 1, p2))
                    && vstd::utf8::valid_utf8(bytes@.subrange(p2 + 1, p3)))),
            },
    {
        if bytes.len() < 24 {
            return Err(UsdtError::new("note payload too short"));
        }
        let addr = vstd::bytes::u64_from_le_bytes(vstd::slice::slice_subrange(bytes, 0, 8));
        let base_addr = vstd::bytes::u64_from_le_bytes(vstd::slice::slice_subrange(bytes, 8, 16));
        let sema_addr = vstd::bytes::u64_from_le_bytes(vstd::slice::slice_subrange(bytes, 16, 24));
        let p1 = match find_nul(bytes, 24) {
            Some(p) => p,
            None => {
                return Err(UsdtError::new("provider name is not terminated"));
            },
        };
        proof {
            lemma_cstr_end_bounds(bytes@, 24, p1 as int);
        }
        let p2 = match find_nul(bytes, p1 + 1) {
            Some(p) => p,
            None => {
                return Err(UsdtError::new("probe name is not terminated"));
            },
        };
        proof {
            lemma_cstr_end_bounds(bytes@, p1 + 1, p2 as int);
        }
        let p3 = match find_nul(bytes, p2 + 1) {
            Some(p) => p,
            None => {
                return Err(UsdtError::new("argument description is not terminated"));
            },
        };
        proof {
            lemma_cstr_end_bounds(bytes@, p2 + 1, p3 as int);
        }
        let provider = match string_from_utf8(segment(bytes, 24, p1)) {
            Some(s) => s,
            None => {
                return Err(UsdtError::new("provider name is not valid text"));
            },
        };
        let name = match string_from_utf8(segment(bytes, p1 + 1, p2)) {
            Some(s) => s,
            None => {
                return Err(UsdtError::new("probe name is not valid text"));
            },
        };
        let args = match string_from_utf8(segment(bytes, p2 + 1, p3)) {
            Some(s) => s,
            None => {
                return Err(UsdtError::new("argument description is not valid text"));
            },
        };
        Ok(UsdtNote { provider, name, addr, base_addr, sema_addr, args })
    }
}

/// A found terminator lies at or after its starting point, inside the
/// buffer.
proof fn lemma_cstr_end_bounds(b: Seq<u8>, from: int, p: int)
    requires
        spec_cstr_end(b, from) == Some(p),
    ensures
        from <= p < b.len(),
    decreases b.len() - from,
{
    if !(from < 0 || from >= b.len()) && b[from] != 0 {
        lemma_cstr_end_bounds(b, from + 1, p);
    }
}

/// One raw ELF note as the container parsing hands it over: its type, its
/// name bytes (zero padding included) and its payload.
pub struct RawNote {
    pub n_type: u64,
    pub name: Vec<u8>,
    pub desc: Vec<u8>,
}

/// A parsed ELF byte image. It holds the `elf` crate's handle, whose
/// type Verus cannot declare directly because of its endianness trait
/// parameter.
#[verifier::external_body]
pub struct ElfImage<'data> {
    file: elf::ElfBytes<'data, elf::endian::AnyEndian>,
}

/// The `elf` crate's section header record.
#[verifier::external_type_specification]
#[verifier::external_body]
pub struct ExSectionHeader(elf::section::SectionHeader);

/// Relies on elf::ElfBytes::minimal_parse: reads the ELF file header and
/// locates the section tables of the byte image.
#[verifier::external_body]
fn elf_parse<'a>(data: &'a [u8]) -> (r: Result<ElfImage<'a>, UsdtError>) {
    match elf::ElfBytes::minimal_parse(data) {
        Ok(file) => Ok(ElfImage { file }),
        Err(e) => Err(UsdtError { what: format!("{e}") }),
    }
}

/// Relies on elf::ElfBytes::section_header_by_name: the header of the
/// section of that name, if the file has one.
#[verifier::external_body]
fn elf_section_by_name<'a>(img: &ElfImage<'a>, name: &str) -> (r: Result<
    Option<elf::section::SectionHeader>,
    UsdtError,
>) {
    img.file.section_header_by_name(name).map_err(|e| UsdtError { what: format!("{e}") })
}

/// Relies on the sh_addr field of elf::section::SectionHeader: the
/// address where the section is loaded.
#[verifier::external_body]
fn elf_section_addr(shdr: &elf::section::SectionHeader) -> (r: u64) {
    shdr.sh_addr
}

/// Relies on elf::ElfBytes::section_data_as_notes: the entries of a note
/// section in order. A note the elf crate does not recognize is handed
/// over raw; one it parses into a known kind comes back as `None`.
#[verifier::external_body]
fn elf_section_notes<'a>(
    img: &ElfImage<'a>,
    shdr: &elf::section::SectionHeader,
) -> (r: Result<Vec<Option<RawNote>>, UsdtError>) {
    let it = img.file.section_data_as_notes(shdr).map_err(|e| UsdtError { what: format!("{e}") })?;
    Ok(it.map(|n| match n {
        elf::note::Note::Unknown(a) => Some(RawNote { n_type: a.n_type, name: a.name.to_vec(), desc: a.desc.to_vec() }),
        elf::note::Note::GnuAbiTag(_) => None,
        elf::note::Note::GnuBuildId(_) => None,
    }).collect())
}

/// The name bytes of a note with their trailing zero padding removed.
pub open spec fn spec_trim_nuls(b: Seq<u8>) -> Seq<u8>
    decreases b.len(),
{
    if b.len() > 0 && b[b.len() - 1] == 0 {
        spec_trim_nuls(b.drop_last())
    } else {
        b
    }
}

/// The note name that marks systemtap information: the bytes of
/// `stapsdt`.
pub open spec fn spec_stapsdt_name() -> Seq<u8> {
    seq![115u8, 116u8, 97u8, 112u8, 115u8, 100u8, 116u8]
}

/// The note's name, padding aside, reads `stapsdt`.
fn is_stapsdt_name(name: &Vec<u8>) -> (r: bool)
    ensures
        r == (spec_trim_nuls(name@) == spec_stapsdt_name()),
{
    let mut end = name.len();
    proof {
        assert(name@.subrange(0, end as int) =~= name@);
    }
    while end > 0 && name[end - 1] == 0
        invariant
            end <= name@.len(),
            spec_trim_nuls(name@) == spec_trim_nuls(name@.subrange(0, end as int)),
        decreases end,
    {
        proof {
            assert(name@.subrange(0, end as int).drop_last() =~= name@.subrange(0, end - 1 as int));
        }
        end = end - 1;
    }
    proof {
        assert(spec_trim_nuls(name@.subrange(0, end as int)) == name@.subrange(0, end as int));
    }
    if end != 7 {
        proof {
            assert(name@.subrange(0, end as int).len() != spec_stapsdt_name().len());
        }
        return false;
    }
    let ok = name[0] == 115 && name[1] == 116 && name[2] == 97 && name[3] == 112 && name[4] == 115
        && name[5] == 100 && name[6] == 116;
    proof {
        if ok {
            assert(name@.subrange(0, 7) =~= spec_stapsdt_name());
        } else {
            assert(name@.subrange(0, 7) != spec_stapsdt_name()) by {
                if name@.subrange(0, 7) == spec_stapsdt_name() {
                    assert(name@[0] == spec_stapsdt_name()[0]);
                    assert(name@[1] == spec_stapsdt_name()[1]);
                    assert(name@[2] == spec_stapsdt_name()[2]);
                    assert(name@[3] == spec_stapsdt_name()[3]);
                    assert(name@[4] == spec_stapsdt_name()[4]);
                    assert(name@[5] == spec_stapsdt_name()[5]);
                    assert(name@[6] == spec_stapsdt_name()[6]);
                }
            }
        }
    }
    ok
}

/// A raw note is acceptable USDT material: present as an unrecognized
/// note, of the systemtap type, and named `stapsdt`.
pub open spec fn spec_raw_note_ok(r: Option<RawNote>) -> bool {
    r matches Some(n) && n.n_type == STAPSDT_TYPE && spec_trim_nuls(n.name@) == spec_stapsdt_name()
}

/// A note payload that cannot parse: a missing terminator or address, or
/// text that is not UTF-8.
pub open spec fn spec_note_malformed(b: Seq<u8>) -> bool {
    match spec_note_strings(b) {
        None => true,
        Some((p1, p2, p3)) => !(vstd::utf8::valid_utf8(b.subrange(24, p1)) && vstd::utf8::valid_utf8(
            b.subrange(p1 + 1, p2),
        ) && vstd::utf8::valid_utf8(b.subrange(p2 + 1, p3))),
    }
}

/// The USDT information of one binary: the base address used for address
/// calculation, and the probe notes.
#[derive(Debug)]
pub struct UsdtInfo {
    /// Base address for USDT address calculation.
    pub base_addr: u64,
    /// The USDT notes of the binary, in section order.
    pub notes: Vec<UsdtNote>,
}

impl Default for UsdtInfo {
    /// An empty set of USDT information, for binaries without a
    /// systemtap base section.
    fn default() -> (r: Self)
        ensures
            r.base_addr == 0,
            r.notes@.len() == 0,
    {
        UsdtInfo { base_addr: 0, notes: Vec::new() }
    }
}

/// Index of the first `::` separator at or after `from`, if any.
pub open spec fn spec_find_sep2(s: Seq<char>, from: int) -> Option<int>
    decreases s.len() - from,
{
    if from < 0 || from + 1 >= s.len() {
        None
    } else if s[from] == ':' && s[from + 1] == ':' {
        Some(from)
    } else {
        spec_find_sep2(s, from + 1)
    }
}

/// A found separator leaves room for the two colons.
proof fn lemma_find_sep2_bounds(s: Seq<char>, from: int, p: int)
    requires
        spec_find_sep2(s, from) == Some(p),
    ensures
        from <= p,
        p + 2 <= s.len(),
    decreases s.len() - from,
{
    if !(from < 0 || from + 1 >= s.len()) && !(s[from] == ':' && s[from + 1] == ':') {
        lemma_find_sep2_bounds(s, from + 1, p);
    }
}

/// Exact executable form of [`spec_find_sep2`].
fn find_sep2(s: &str) -> (r: Option<usize>)
    ensures
        match r {
            Some(p) => spec_find_sep2(s@, 0) == Some(p as int),
            None => spec_find_sep2(s@, 0) is None,
        },
{
    let n = s.unicode_len();
    let mut i: usize = 0;
    loop
        invariant
            n == s@.len(),
            i <= n,
            spec_find_sep2(s@, 0) == spec_find_sep2(s@, i as int),
        ensures
            match spec_find_sep2(s@, 0) {
                Some(p) => i == p && i + 1 < n && s@[i as int] == ':' && s@[i as int + 1] == ':',
                None => i + 1 >= n,
            },
        decreases n - i,
    {
        if n < 2 || i >= n - 1 {
            break ;
        }
        if s.get_char(i) == ':' && s.get_char(i + 1) == ':' {
            break ;
        }
        i += 1;
    }
    if n >= 2 && i < n - 1 {
        Some(i)
    } else {
        None
    }
}

/// The first note of the given provider and name, from `k` on.
pub open spec fn spec_find_note(
    notes: Seq<UsdtNote>,
    k: int,
    prov: Seq<char>,
    nm: Seq<char>,
) -> Option<int>
    decreases notes.len() - k,
{
    if k < 0 || k >= notes.len() {
        None
    } else if notes[k].provider@ == prov && notes[k].name@ == nm {
        Some(k)
    } else {
        spec_find_note(notes, k + 1, prov, nm)
    }
}

/// What looking a `provider::name` target up in USDT information yields:
/// the index of the first matching note, or no note, or a refusal of a
/// target without the `::` separator.
pub open spec fn spec_get_note(info: UsdtInfo, target: Seq<char>) -> Result<Option<int>, ()> {
    match spec_find_sep2(target, 0) {
        None => Err(()),
        Some(p) => Ok(
            spec_find_note(
                info.notes@,
                0,
                target.subrange(0, p),
                target.subrange(p + 2, target.len() as int),
            ),
        ),
    }
}

/// The address a note compares against when probes are looked up by
/// offset, compensating link-time relocation of the base section.
pub open spec fn spec_link_addr(n: UsdtNote, base: u64) -> u64 {
    vstd::wrapping::u64_specs::wrapping_sub(
        vstd::wrapping::u64_specs::wrapping_add(n.addr, base),
        n.base_addr,
    )
}

/// The first note whose link address equals `addr`, from `k` on.
pub open spec fn spec_find_note_off(notes: Seq<UsdtNote>, k: int, addr: u64, base: u64) -> Option<
    int,
>
    decreases notes.len() - k,
{
    if k < 0 || k >= notes.len() {
        None
    } else if spec_link_addr(notes[k], base) == addr {
        Some(k)
    } else {
        spec_find_note_off(notes, k + 1, addr, base)
    }
}

impl UsdtInfo {
    /// Builds USDT information from a base section address and the raw
    /// notes of the systemtap note section. Fails exactly when an entry
    /// is of an unexpected kind, type or name, or when a payload does not
    /// parse.
    pub fn from_raw_notes(base_addr: u64, raw: &Vec<Option<RawNote>>) -> (r: Result<
        UsdtInfo,
        UsdtError,
    >)
        ensures
            match r {
                Ok(info) => {
                    &&& info.base_addr == base_addr
                    &&& info.notes@.len() == raw@.len()
                    &&& (forall|i: int|
                        0 <= i < raw@.len() ==> spec_raw_note_ok(#[trigger] raw@[i]) && !(
                        raw@[i] matches Some(rn) && spec_note_malformed(rn.desc@)))
                },
                Err(_) => exists|i: int|
                    0 <= i < raw@.len() && (!spec_raw_note_ok(#[trigger] raw@[i]) || (raw@[i]
                        matches Some(rn) && spec_note_malformed(rn.desc@))),
            },
    {
        let mut notes: Vec<UsdtNote> = Vec::new();
        let n = raw.len();
        let mut i: usize = 0;
        while i < n
            invariant
                n == raw@.len(),
                i <= n,
                notes@.len() == i,
                forall|j: int|
                    0 <= j < i ==> spec_raw_note_ok(#[trigger] raw@[j]) && !(raw@[j] matches Some(
                        rn,
                    ) && spec_note_malformed(rn.desc@)),
            decreases n - i,
        {
            let rn = match &raw[i] {
                Some(rn) => rn,
                None => {
                    return Err(UsdtError::new("unexpected note variant found"));
                },
            };
            if rn.n_type != STAPSDT_TYPE || !is_stapsdt_name(&rn.name) {
                return Err(UsdtError::new("unexpected note type or name"));
            }
            let note = match UsdtNote::from_elf(rn.desc.as_slice()) {
                Ok(note) => note,
                Err(e) => {
                    return Err(e);
                },
            };
            proof {
                broadcast use vstd::utf8::encode_utf8_valid_utf8;

                assert(!spec_note_malformed(rn.desc@));
            }
            notes.push(note);
            i += 1;
        }
        Ok(UsdtInfo { base_addr, notes })
    }

    /// Reads the USDT information of an ELF binary image: its systemtap
    /// base section address and the notes of its systemtap note section.
    /// A binary without the base section has no USDT probes and yields
    /// the empty information; a present but unreadable note section is an
    /// error.
    pub fn new(file_data: &[u8]) -> (r: Result<UsdtInfo, UsdtError>) {
        let file = match elf_parse(file_data) {
            Ok(f) => f,
            Err(e) => {
                return Err(e);
            },
        };
        let base_hdr = match elf_section_by_name(&file, ".stapsdt.base") {
            Ok(h) => h,
            Err(e) => {
                return Err(e);
            },
        };
        let base_addr = match base_hdr {
            Some(h) => elf_section_addr(&h),
            None => {
                return Ok(UsdtInfo::default());
            },
        };
        let notes_hdr = match elf_section_by_name(&file, ".note.stapsdt") {
            Ok(h) => h,
            Err(e) => {
                return Err(e);
            },
        };
        match notes_hdr {
            Some(h) => {
                let raw = match elf_section_notes(&file, &h) {
                    Ok(raw) => raw,
                    Err(e) => {
                        return Err(e);
                    },
                };
                UsdtInfo::from_raw_notes(base_addr, &raw)
            },
            None => Ok(UsdtInfo { base_addr, notes: Vec::new() }),
        }
    }

    /// Whether a `provider::name` target names one of the binary's USDT
    /// probes. Fails exactly when the target lacks the `::` separator.
    pub fn is_usdt(&self, target: &str) -> (r: Result<bool, UsdtError>)
        ensures
            match r {
                Ok(b) => (spec_get_note(*self, target@) matches Ok(o) && b == (o is Some)),
                Err(_) => spec_get_note(*self, target@) is Err,
            },
    {
        match self.get_note(target) {
            Ok(o) => Ok(o.is_some()),
            Err(e) => Err(e),
        }
    }

    /// The first USDT note matching a `provider::name` target. Fails
    /// exactly when the target lacks the `::` separator.
    pub fn get_note(&self, target: &str) -> (r: Result<Option<&UsdtNote>, UsdtError>)
        ensures
            match r {
                Ok(opt) => match opt {
                    Some(n) => (spec_get_note(*self, target@) matches Ok(o) && o matches Some(i)
                        && *n == self.notes@[i]),
                    None => spec_get_note(*self, target@) == Ok::<Option<int>, ()>(None),
                },
                Err(_) => spec_get_note(*self, target@) is Err,
            },
    {
        let p = match find_sep2(target) {
            Some(p) => p,
            None => {
                return Err(UsdtError::new("target is not of the form provider::name"));
            },
        };
        proof {
            lemma_find_sep2_bounds(target@, 0, p as int);
        }
        let tn = target.unicode_len();
        let prov = target.substring_char(0, p);
        let nm = target.substring_char(p + 2, tn);
        let n = self.notes.len();
        let mut k: usize = 0;
        while k < n
            invariant
                n == self.notes@.len(),
                k <= n,
                spec_find_sep2(target@, 0) == Some(p as int),
                prov@ == target@.subrange(0, p as int),
                nm@ == target@.subrange(p as int + 2, target@.len() as int),
                spec_find_note(self.notes@, 0, prov@, nm@) == spec_find_note(
                    self.notes@,
                    k as int,
                    prov@,
                    nm@,
                ),
            decreases n - k,
        {
            if str_eq(self.notes[k].provider.as_str(), prov) && str_eq(
                self.notes[k].name.as_str(),
                nm,
            ) {
                proof {
                    assert(spec_find_note(self.notes@, k as int, prov@, nm@) == Some(k as int));
                }
                return Ok(Some(&self.notes[k]));
            }
            k += 1;
        }
        Ok(None)
    }

    /// The first USDT note whose relocation-compensated address equals
    /// the given offset.
    pub fn get_note_from_offset(&self, addr: u64) -> (r: Result<Option<&UsdtNote>, UsdtError>)
        ensures
            match r {
                Ok(opt) => match opt {
                    Some(n) => (spec_find_note_off(self.notes@, 0, addr, self.base_addr) matches
                        Some(i) && *n == self.notes@[i]),
                    None => spec_find_note_off(self.notes@, 0, addr, self.base_addr) is None,
                },
                Err(_) => false,
            },
    {
        let n = self.notes.len();
        let mut k: usize = 0;
        while k < n
            invariant
                n == self.notes@.len(),
                k <= n,
                spec_find_note_off(self.notes@, 0, addr, self.base_addr) == spec_find_note_off(
                    self.notes@,
                    k as int,
                    addr,
                    self.base_addr,
                ),
            decreases n - k,
        {
            let link_addr = self.notes[k].addr.wrapping_add(self.base_addr).wrapping_sub(
                self.notes[k].base_addr,
            );
            if link_addr == addr {
                proof {
                    assert(spec_find_note_off(self.notes@, k as int, addr, self.base_addr) == Some(
                        k as int,
                    ));
                }
                return Ok(Some(&self.notes[k]));
            }
            k += 1;
        }
        Ok(None)
    }
}

} // verus!
