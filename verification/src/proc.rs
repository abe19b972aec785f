//! Process inspection: the address-map lines of a process, the binaries
//! (executable and shared libraries) mapped into it, and USDT probe
//! lookup across all of them.
//!
//! Reading `/proc` and the binaries from disk belongs to the caller;
//! every decision over what was read is made and verified here.

use crate::scan::{
    parse_u64_body, spec_split, spec_split_ws, spec_u64_shape_ok, spec_u64_value, split_char,
    split_ws,
};
use crate::usdt::{
    spec_find_note_off, spec_get_note, UsdtError, UsdtInfo, UsdtNote,
};
use vstd::prelude::*;
use vstd::string::*;

verus! {

/// The process identifier that stands for all present and future
/// processes of a path.
pub const PID_ALL: i32 = -1;

/// The failures of process inspection.
#[derive(Clone, Copy, Debug, PartialEq, Eq, Structural)]
pub enum ProcessError {
    /// The process was not found.
    NotFound,
    /// Too many processes match the input parameters.
    TooMany,
    /// The process has no address map to read its binary layout from.
    NoMaps,
    /// An address-map line that does not follow the map format.
    InvalidMap,
}

/// One line of a process address map: an address range, permissions, a
/// file offset, an inode, and the backing path if the mapping has one.
#[derive(Debug)]
pub struct ProcessMap {
    pub addr_start: u64,
    pub addr_end: u64,
    pub perm: String,
    pub offset: u64,
    pub inode: u64,
    pub path: String,
}

/// A map line is well formed: at least five whitespace-separated fields,
/// the first a `start-end` pair of hexadecimal addresses, the third a
/// hexadecimal offset and the fifth a decimal inode, all within 64 bits.
pub open spec fn spec_map_line_ok(s: Seq<char>) -> bool {
    let parts = spec_split_ws(s);
    let addrs = spec_split(parts[0], '-');
    &&& parts.len() >= 5
    &&& addrs.len() == 2
    &&& spec_u64_shape_ok(addrs[0], 16) && spec_u64_value(addrs[0], 16) <= u64::MAX
    &&& spec_u64_shape_ok(addrs[1], 16) && spec_u64_value(addrs[1], 16) <= u64::MAX
    &&& spec_u64_shape_ok(parts[2], 16) && spec_u64_value(parts[2], 16) <= u64::MAX
    &&& spec_u64_shape_ok(parts[4], 10) && spec_u64_value(parts[4], 10) <= u64::MAX
}

impl ProcessMap {
    /// Parses one address-map line, exactly when [`spec_map_line_ok`]
    /// holds of it: the two addresses of the range, the permission
    /// field verbatim, the offset, the inode, and the backing path (empty
    /// when the line has none).
    pub fn from_string(mapstr: &str) -> (r: Result<ProcessMap, ProcessError>)
        ensures
            r is Ok <==> spec_map_line_ok(mapstr@),
            r matches Ok(pm) ==> {
                let parts = spec_split_ws(mapstr@);
                let addrs = spec_split(parts[0], '-');
                &&& pm.addr_start == spec_u64_value(addrs[0], 16)
                &&& pm.addr_end == spec_u64_value(addrs[1], 16)
                &&& pm.perm@ == parts[1]
                &&& pm.offset == spec_u64_value(parts[2], 16)
                &&& pm.inode == spec_u64_value(parts[4], 10)
                &&& pm.path@ == if parts.len() >= 6 {
                    parts[5]
                } else {
                    Seq::<char>::empty()
                }
            },
            r matches Err(e) ==> e == ProcessError::InvalidMap,
    {
        let parts = split_ws(mapstr);
        if parts.len() < 5 {
            return Err(ProcessError::InvalidMap);
        }
        let addr_parts = split_char(parts[0].as_str(), '-');
        if addr_parts.len() != 2 {
            return Err(ProcessError::InvalidMap);
        }
        let addr_start = match parse_u64_body(addr_parts[0].as_str(), 16) {
            Ok(v) => v,
            Err(_) => {
                return Err(ProcessError::InvalidMap);
            },
        };
        let addr_end = match parse_u64_body(addr_parts[1].as_str(), 16) {
            Ok(v) => v,
            Err(_) => {
                return Err(ProcessError::InvalidMap);
            },
        };
        let offset = match parse_u64_body(parts[2].as_str(), 16) {
            Ok(v) => v,
            Err(_) => {
                return Err(ProcessError::InvalidMap);
            },
        };
        let inode = match parse_u64_body(parts[4].as_str(), 10) {
            Ok(v) => v,
            Err(_) => {
                return Err(ProcessError::InvalidMap);
            },
        };
        let perm = parts[1].clone();
        let path: String = if parts.len() >= 6 {
            parts[5].clone()
        } else {
            String::new()
        };
        Ok(ProcessMap { addr_start, addr_end, perm, offset, inode, path })
    }

    /// The mapping is backed by a file: its path is neither empty nor a
    /// bracketed pseudo-path.
    pub open spec fn spec_is_file(self) -> bool {
        !((self.path@.len() > 0 && self.path@[0] == '[' && self.path@[self.path@.len() - 1] == ']')
            || self.path@.len() == 0)
    }

    /// Exact executable form of [`ProcessMap::spec_is_file`].
    pub fn is_file(&self) -> (r: bool)
        ensures
            r == self.spec_is_file(),
    {
        let n = self.path.as_str().unicode_len();
        if n == 0 {
            return false;
        }
        !(self.path.as_str().get_char(0) == '[' && self.path.as_str().get_char(n - 1) == ']')
    }
}

/// A binary (executable or library) that may carry USDT probes, and the
/// address it is loaded at when it belongs to a live process image.
#[derive(Debug)]
pub struct Binary {
    /// The path of the binary.
    pub path: String,
    /// Its USDT information; none when its image did not parse.
    pub usdt_info: Option<UsdtInfo>,
    /// The address the binary is loaded at, when known.
    pub addr: Option<u64>,
}

impl Binary {
    /// A binary not located in any address space. The USDT information
    /// is read from the given ELF image bytes; a binary whose image does
    /// not parse simply carries none.
    pub fn new(path: String, file_data: &[u8]) -> (r: Binary)
        ensures
            r.path@ == path@,
            r.addr is None,
    {
        let usdt_info = match UsdtInfo::new(file_data) {
            Ok(u) => Some(u),
            Err(_) => None,
        };
        Binary { path, usdt_info, addr: None }
    }

    /// A binary loaded at a known address within a process image.
    pub fn new_loaded(path: String, file_data: &[u8], addr: u64) -> (r: Binary)
        ensures
            r.path@ == path@,
            r.addr == Some(addr),
    {
        let mut binary = Binary::new(path, file_data);
        binary.addr = Some(addr);
        binary
    }

    /// What looking a `provider::name` target up in this binary yields: a
    /// binary without USDT information never has the probe; otherwise the
    /// first matching note.
    pub open spec fn spec_target_note(self, target: Seq<char>) -> Result<Option<UsdtNote>, ()> {
        match self.usdt_info {
            Some(info) => match spec_get_note(info, target) {
                Err(_) => Err(()),
                Ok(None) => Ok(None),
                Ok(Some(i)) => Ok(Some(info.notes@[i])),
            },
            None => Ok(None),
        }
    }

    /// The note at a relocation-compensated offset, if the binary has
    /// USDT information and one matches.
    pub open spec fn spec_offset_note(self, addr: u64) -> Option<UsdtNote> {
        match self.usdt_info {
            Some(info) => match spec_find_note_off(info.notes@, 0, addr, info.base_addr) {
                Some(i) => Some(info.notes@[i]),
                None => None,
            },
            None => None,
        }
    }

    /// The USDT note of a `provider::name` target, exactly as
    /// [`Binary::spec_target_note`] describes.
    pub fn get_note(&self, target: &str) -> (r: Result<Option<&UsdtNote>, UsdtError>)
        ensures
            match r {
                Ok(opt) => match opt {
                    Some(n) => self.spec_target_note(target@) == Ok::<Option<UsdtNote>, ()>(
                        Some(*n),
                    ),
                    None => self.spec_target_note(target@) == Ok::<Option<UsdtNote>, ()>(None),
                },
                Err(_) => self.spec_target_note(target@) is Err,
            },
    {
        match &self.usdt_info {
            Some(info) => info.get_note(target),
            None => Ok(None),
        }
    }

    /// The USDT note whose relocation-compensated address matches the
    /// given offset, exactly as [`Binary::spec_offset_note`] describes.
    pub fn get_note_from_offset(&self, addr: u64) -> (r: Result<Option<&UsdtNote>, UsdtError>)
        ensures
            match r {
                Ok(opt) => match opt {
                    Some(n) => self.spec_offset_note(addr) == Some(*n),
                    None => self.spec_offset_note(addr) is None,
                },
                Err(_) => false,
            },
    {
        match &self.usdt_info {
            Some(info) => info.get_note_from_offset(addr),
            None => Ok(None),
        }
    }
}

/// The library selection over address-map lines from `k` on: keep the
/// first line of each run of equal paths (`last` holding the previously
/// kept path), and of those the file-backed ones other than the
/// executable, each with the address it is mapped at.
pub open spec fn spec_lib_select(
    maps: Seq<ProcessMap>,
    k: int,
    last: Option<Seq<char>>,
    ex: Seq<char>,
) -> Seq<(Seq<char>, u64)>
    decreases maps.len() - k,
{
    if k < 0 || k >= maps.len() {
        Seq::empty()
    } else if last matches Some(lp) && maps[k].path@ == lp {
        spec_lib_select(maps, k + 1, last, ex)
    } else {
        let rest = spec_lib_select(maps, k + 1, Some(maps[k].path@), ex);
        if maps[k].spec_is_file() && maps[k].path@ != ex {
            seq![(maps[k].path@, maps[k].addr_start)] + rest
        } else {
            rest
        }
    }
}

/// One running process (or the stand-in for all processes of a path): its
/// identifier, its executable, and its shared libraries.
#[derive(Debug)]
pub struct Process {
    /// Process identifier; [`PID_ALL`] for the all-processes stand-in.
    pub pid: i32,
    /// The executable's binary.
    pub exe: Binary,
    /// The shared libraries mapped into the process.
    pub libs: Vec<Binary>,
}

/// The first library note matching a target, library order first,
/// propagating a refusal of the target's form.
pub open spec fn spec_libs_target_note(libs: Seq<Binary>, k: int, target: Seq<char>) -> Result<
    Option<(Seq<char>, UsdtNote)>,
    (),
>
    decreases libs.len() - k,
{
    if k < 0 || k >= libs.len() {
        Ok(None)
    } else {
        match libs[k].spec_target_note(target) {
            Err(_) => Err(()),
            Ok(Some(n)) => Ok(Some((libs[k].path@, n))),
            Ok(None) => spec_libs_target_note(libs, k + 1, target),
        }
    }
}

/// What looking a target up in a whole process yields: the executable
/// first, then the libraries in order.
pub open spec fn spec_process_target_note(p: Process, target: Seq<char>) -> Result<
    Option<(Seq<char>, UsdtNote)>,
    (),
> {
    match p.exe.spec_target_note(target) {
        Err(_) => Err(()),
        Ok(Some(n)) => Ok(Some((p.exe.path@, n))),
        Ok(None) => spec_libs_target_note(p.libs@, 0, target),
    }
}

/// The note of a binary at a symbol address: only a loaded binary is
/// considered, at the symbol's offset from its load address (computed
/// in wrapping arithmetic, as the addresses are plain machine words).
pub open spec fn spec_binary_sym_note(b: Binary, sym: u64) -> Option<UsdtNote> {
    match b.addr {
        Some(a) => b.spec_offset_note(vstd::wrapping::u64_specs::wrapping_sub(sym, a)),
        None => None,
    }
}

/// The first library note at a symbol address, in library order.
pub open spec fn spec_libs_sym_note(libs: Seq<Binary>, k: int, sym: u64) -> Option<UsdtNote>
    decreases libs.len() - k,
{
    if k < 0 || k >= libs.len() {
        None
    } else {
        match spec_binary_sym_note(libs[k], sym) {
            Some(n) => Some(n),
            None => spec_libs_sym_note(libs, k + 1, sym),
        }
    }
}

/// The note of a whole process at a symbol address: the executable
/// first, then the libraries in order.
pub open spec fn spec_process_sym_note(p: Process, sym: u64) -> Option<UsdtNote> {
    match spec_binary_sym_note(p.exe, sym) {
        Some(n) => Some(n),
        None => spec_libs_sym_note(p.libs@, 0, sym),
    }
}

impl Process {
    /// Assembles a process from its identifier, its executable, and its
    /// shared libraries. Reading `/proc` and the binaries from disk is
    /// the caller's part; [`Process::lib_paths`] decides which binaries
    /// to read.
    pub fn new(pid: i32, exe: Binary, libs: Vec<Binary>) -> (r: Process)
        ensures
            r.pid == pid,
            r.exe == exe,
            r.libs == libs,
    {
        Process { pid, exe, libs }
    }

    /// The stand-in for all present and future processes of a path: it
    /// exists exactly when the path does, and carries the executable's
    /// USDT information with no libraries.
    pub fn all(path: &str, path_exists: bool, exec_data: &[u8]) -> (r: Result<
        Process,
        ProcessError,
    >)
        ensures
            r is Err <==> !path_exists,
            r matches Err(e) ==> e == ProcessError::NotFound,
            r matches Ok(p) ==> p.pid == PID_ALL && p.libs@.len() == 0 && p.exe.path@ == path@
                && p.exe.addr is None,
    {
        if !path_exists {
            return Err(ProcessError::NotFound);
        }
        Ok(Process::new(PID_ALL, Binary::new(path.to_owned(), exec_data), Vec::new()))
    }

    /// The binary layout of a process image, from its address-map lines:
    /// the executable's load address (the first line's start), and the
    /// path and load address of each shared library, exactly as
    /// [`spec_lib_select`] describes. A process without map lines has no
    /// readable layout.
    pub fn lib_paths(maps: &Vec<ProcessMap>, exec_path: &str) -> (r: Result<
        (u64, Vec<(String, u64)>),
        ProcessError,
    >)
        ensures
            match r {
                Ok(p) => maps@.len() > 0 && p.0 == maps@[0].addr_start && p.1@.map_values(
                    |e: (String, u64)| (e.0@, e.1),
                ) == spec_lib_select(maps@, 0, None, exec_path@),
                Err(e) => maps@.len() == 0 && e == ProcessError::NoMaps,
            },
    {
        if maps.len() == 0 {
            return Err(ProcessError::NoMaps);
        }
        let bin_addr = maps[0].addr_start;
        let mut libs: Vec<(String, u64)> = Vec::new();
        let n = maps.len();
        let mut k: usize = 0;
        let mut last: Option<String> = None;
        while k < n
            invariant
                n == maps@.len(),
                k <= n,
                (match last {
                    Some(lp) => spec_lib_select(maps@, 0, None, exec_path@) == libs@.map_values(
                        |e: (String, u64)| (e.0@, e.1),
                    ) + spec_lib_select(maps@, k as int, Some(lp@), exec_path@),
                    None => k == 0 && libs@.len() == 0 && spec_lib_select(maps@, 0, None, exec_path@)
                        == spec_lib_select(maps@, k as int, None, exec_path@),
                }),
            decreases n - k,
        {
            let ghost pre = libs@;
            let skip = match &last {
                Some(lp) => crate::scan::str_eq(lp.as_str(), maps[k].path.as_str()),
                None => false,
            };
            if !skip {
                if maps[k].is_file() && !crate::scan::str_eq(maps[k].path.as_str(), exec_path) {
                    libs.push((maps[k].path.clone(), maps[k].addr_start));
                }
                last = Some(maps[k].path.clone());
            }
            proof {
                assert(libs@.map_values(|e: (String, u64)| (e.0@, e.1)) =~= pre.map_values(
                    |e: (String, u64)| (e.0@, e.1),
                ) + (libs@.map_values(|e: (String, u64)| (e.0@, e.1)).subrange(
                    pre.len() as int,
                    libs@.len() as int,
                )));
            }
            k += 1;
        }
        Ok((bin_addr, libs))
    }

    /// The process identifier.
    pub fn pid(&self) -> (r: i32)
        ensures
            r == self.pid,
    {
        self.pid
    }

    /// The path of the process's executable.
    pub fn path(&self) -> (r: &String)
        ensures
            r@ == self.exe.path@,
    {
        &self.exe.path
    }

    /// The USDT note at a symbol address, searched in the executable and
    /// then in each library, exactly as [`spec_process_sym_note`]
    /// describes.
    pub fn get_note_from_symbol(&self, symbol: u64) -> (r: Result<Option<&UsdtNote>, UsdtError>)
        ensures
            match r {
                Ok(opt) => match opt {
                    Some(n) => spec_process_sym_note(*self, symbol) == Some(*n),
                    None => spec_process_sym_note(*self, symbol) is None,
                },
                Err(_) => false,
            },
    {
        if let Some(addr) = self.exe.addr {
            match self.exe.get_note_from_offset(symbol.wrapping_sub(addr)) {
                Ok(Some(note)) => {
                    return Ok(Some(note));
                },
                Ok(None) => {},
                Err(e) => {
                    return Err(e);
                },
            }
        }
        let n = self.libs.len();
        let mut k: usize = 0;
        while k < n
            invariant
                n == self.libs@.len(),
                k <= n,
                spec_binary_sym_note(self.exe, symbol) is None,
                spec_libs_sym_note(self.libs@, 0, symbol) == spec_libs_sym_note(
                    self.libs@,
                    k as int,
                    symbol,
                ),
            decreases n - k,
        {
            if let Some(addr) = self.libs[k].addr {
                match self.libs[k].get_note_from_offset(symbol.wrapping_sub(addr)) {
                    Ok(Some(note)) => {
                        return Ok(Some(note));
                    },
                    Ok(None) => {},
                    Err(e) => {
                        return Err(e);
                    },
                }
            }
            k += 1;
        }
        Ok(None)
    }

    /// The USDT note and binary path of a `provider::name` target,
    /// searched in the executable and then in each library, exactly as
    /// [`spec_process_target_note`] describes. The target's form is only
    /// checked against binaries that carry USDT information, as each
    /// binary answers for itself.
    pub fn get_note(&self, target: &str) -> (r: Result<
        Option<(&String, &UsdtNote)>,
        UsdtError,
    >)
        ensures
            match r {
                Ok(opt) => match opt {
                    Some(pn) => spec_process_target_note(*self, target@) == Ok::<
                        Option<(Seq<char>, UsdtNote)>,
                        (),
                    >(Some((pn.0@, *pn.1))),
                    None => spec_process_target_note(*self, target@) == Ok::<
                        Option<(Seq<char>, UsdtNote)>,
                        (),
                    >(None),
                },
                Err(_) => spec_process_target_note(*self, target@) is Err,
            },
    {
        match self.exe.get_note(target) {
            Ok(Some(note)) => {
                return Ok(Some((&self.exe.path, note)));
            },
            Ok(None) => {},
            Err(e) => {
                return Err(e);
            },
        }
        let n = self.libs.len();
        let mut k: usize = 0;
        while k < n
            invariant
                n == self.libs@.len(),
                k <= n,
                self.exe.spec_target_note(target@) == Ok::<Option<UsdtNote>, ()>(None),
                spec_libs_target_note(self.libs@, 0, target@) == spec_libs_target_note(
                    self.libs@,
                    k as int,
                    target@,
                ),
            decreases n - k,
        {
            match self.libs[k].get_note(target) {
                Ok(Some(note)) => {
                    return Ok(Some((&self.libs[k].path, note)));
                },
                Ok(None) => {},
                Err(e) => {
                    return Err(e);
                },
            }
            k += 1;
        }
        Ok(None)
    }

    /// Whether a `provider::name` target names a USDT probe anywhere in
    /// the process.
    pub fn is_usdt(&self, target: &str) -> (r: Result<bool, UsdtError>)
        ensures
            match r {
                Ok(b) => (spec_process_target_note(*self, target@) matches Ok(o) && b == (o
                    is Some)),
                Err(_) => spec_process_target_note(*self, target@) is Err,
            },
    {
        match self.get_note(target) {
            Ok(o) => Ok(o.is_some()),
            Err(e) => Err(e),
        }
    }
}

} // verus!
