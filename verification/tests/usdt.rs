//! USDT note parsing and process-level probe lookup tests.

use retis::proc::{Binary, Process, ProcessError, ProcessMap, PID_ALL};
use retis::usdt::{RawNote, UsdtInfo, UsdtNote};

/// A well-formed note payload: three addresses then three terminated
/// strings.
fn note_bytes(addr: u64, base: u64, sema: u64, provider: &str, name: &str, args: &str) -> Vec<u8> {
    let mut v = Vec::new();
    v.extend_from_slice(&addr.to_ne_bytes());
    v.extend_from_slice(&base.to_ne_bytes());
    v.extend_from_slice(&sema.to_ne_bytes());
    v.extend_from_slice(provider.as_bytes());
    v.push(0);
    v.extend_from_slice(name.as_bytes());
    v.push(0);
    v.extend_from_slice(args.as_bytes());
    v.push(0);
    v
}

fn test_note(provider: &str, name: &str, addr: u64, base: u64) -> UsdtNote {
    UsdtNote {
        provider: provider.to_string(),
        name: name.to_string(),
        addr,
        base_addr: base,
        sema_addr: 0,
        args: String::new(),
    }
}

fn test_info() -> UsdtInfo {
    UsdtInfo {
        base_addr: 0x1000,
        notes: vec![
            test_note("test_provider", "test_function", 0x4000, 0x1000),
            test_note("test_provider", "other", 0x5000, 0x1800),
        ],
    }
}

#[test]
fn note_from_elf_round_trip() {
    let bytes = note_bytes(0x400123, 0x1000, 0x2000, "prov", "func", "8@%rdi");
    let n = UsdtNote::from_elf(&bytes).unwrap();
    assert_eq!(n.addr, 0x400123);
    assert_eq!(n.base_addr, 0x1000);
    assert_eq!(n.sema_addr, 0x2000);
    assert_eq!(n.provider, "prov");
    assert_eq!(n.name, "func");
    assert_eq!(n.args, "8@%rdi");
}

#[test]
fn note_from_elf_rejects_malformed() {
    // too short for the three addresses
    assert!(UsdtNote::from_elf(&[0u8; 23]).is_err());
    // missing the last terminator
    let mut bytes = note_bytes(1, 2, 3, "p", "n", "a");
    bytes.pop();
    assert!(UsdtNote::from_elf(&bytes).is_err());
    // a provider name that is not valid text
    let mut bytes = vec![0u8; 24];
    bytes.extend_from_slice(&[0xff, 0xfe, 0, 0, 0]);
    assert!(UsdtNote::from_elf(&bytes).is_err());
    // an empty payload of exactly the addresses still lacks strings
    assert!(UsdtNote::from_elf(&[0u8; 24]).is_err());
}

#[test]
fn info_from_raw_notes() {
    let stapsdt = b"stapsdt\0".to_vec();
    let good = RawNote {
        n_type: 3,
        name: stapsdt.clone(),
        desc: note_bytes(0x4000, 0x1000, 0, "p", "n", ""),
    };
    let info = UsdtInfo::from_raw_notes(0x1000, &vec![Some(good)]).unwrap();
    assert_eq!(info.base_addr, 0x1000);
    assert_eq!(info.notes.len(), 1);
    assert_eq!(info.notes[0].provider, "p");

    // a recognized (non-raw) note aborts
    assert!(UsdtInfo::from_raw_notes(0, &vec![None]).is_err());
    // a wrong note type aborts
    let bad_type = RawNote {
        n_type: 2,
        name: stapsdt.clone(),
        desc: note_bytes(0, 0, 0, "p", "n", ""),
    };
    assert!(UsdtInfo::from_raw_notes(0, &vec![Some(bad_type)]).is_err());
    // a wrong note name aborts
    let bad_name = RawNote {
        n_type: 3,
        name: b"gnuprop\0".to_vec(),
        desc: note_bytes(0, 0, 0, "p", "n", ""),
    };
    assert!(UsdtInfo::from_raw_notes(0, &vec![Some(bad_name)]).is_err());
}

#[test]
fn info_lookups() {
    let info = test_info();
    assert!(info.is_usdt("test_provider::test_function").unwrap());
    assert!(info.is_usdt("test_provider::other").unwrap());
    assert!(!info.is_usdt("foo::bar").unwrap());
    assert!(info.is_usdt("wrong_format").is_err());
    let n = info.get_note("test_provider::other").unwrap().unwrap();
    assert_eq!(n.addr, 0x5000);
    // link address compensates relocation: addr + base_addr - note base
    assert!(info.get_note_from_offset(0x4000).unwrap().is_some());
    assert_eq!(info.get_note_from_offset(0x5000 + 0x1000 - 0x1800).unwrap().unwrap().addr, 0x5000);
    assert!(info.get_note_from_offset(0x9999).unwrap().is_none());
}

#[test]
fn process_all() {
    let empty: Vec<u8> = Vec::new();
    let p = Process::all("_no_way_this_path/_exists", false, &empty);
    assert!(p.is_err() && p.unwrap_err() == ProcessError::NotFound);

    let p = Process::all("/bin/sh", true, &empty);
    assert!(p.is_ok() && p.unwrap().pid == PID_ALL);
}

#[test]
fn process_lookups() {
    let exe = Binary {
        path: "/bin/app".to_string(),
        usdt_info: Some(test_info()),
        addr: Some(0x10000),
    };
    let lib = Binary {
        path: "/lib/lib.so".to_string(),
        usdt_info: Some(UsdtInfo {
            base_addr: 0,
            notes: vec![test_note("libprov", "libfunc", 0x40, 0)],
        }),
        addr: Some(0x20000),
    };
    let p = Process::new(1234, exe, vec![lib]);
    assert_eq!(p.pid(), 1234);
    assert_eq!(p.path().as_str(), "/bin/app");
    assert!(p.is_usdt("test_provider::test_function").unwrap());
    assert!(p.is_usdt("libprov::libfunc").unwrap());
    assert!(!p.is_usdt("foo::bar").unwrap());
    assert!(p.is_usdt("wrong_format").is_err());
    let (path, note) = p.get_note("libprov::libfunc").unwrap().unwrap();
    assert_eq!(path, "/lib/lib.so");
    assert_eq!(note.addr, 0x40);
    // symbol resolution subtracts the load address
    let n = p.get_note_from_symbol(0x10000 + 0x4000).unwrap().unwrap();
    assert_eq!(n.name, "test_function");
    let n = p.get_note_from_symbol(0x20000 + 0x40).unwrap().unwrap();
    assert_eq!(n.name, "libfunc");
    assert!(p.get_note_from_symbol(0x999999).unwrap().is_none());
}

#[test]
fn map_line_parses() {
    let pm = ProcessMap::from_string(
        "5594f8dce000-5594f8dd7000 r--p 00000000 00:1f 3526003                    /usr/bin/kitty",
    )
    .unwrap();
    assert_eq!(pm.addr_start, 0x5594f8dce000);
    assert_eq!(pm.addr_end, 0x5594f8dd7000);
    assert_eq!(pm.perm, "r--p");
    assert_eq!(pm.offset, 0);
    assert_eq!(pm.inode, 3526003);
    assert_eq!(pm.path, "/usr/bin/kitty");
    assert!(pm.is_file());

    let pm = ProcessMap::from_string("7fff0000-7fff1000 rw-p 00001000 08:01 0").unwrap();
    assert_eq!(pm.path, "");
    assert!(!pm.is_file());

    let pm = ProcessMap::from_string("10-20 rw-p 0 00:00 5 [heap]").unwrap();
    assert!(!pm.is_file());

    assert!(ProcessMap::from_string("not a map line").is_err());
    assert!(ProcessMap::from_string("10+20 rw-p 0 00:00 5").is_err());
    assert!(ProcessMap::from_string("10-20 rw-p 0 00:00 zz").is_err());
}

fn map(start: u64, path: &str) -> ProcessMap {
    ProcessMap {
        addr_start: start,
        addr_end: start + 0x1000,
        perm: "r-xp".to_string(),
        offset: 0,
        inode: 1,
        path: path.to_string(),
    }
}

#[test]
fn lib_selection() {
    let maps = vec![
        map(0x1000, "/bin/app"),
        map(0x2000, "/bin/app"),
        map(0x3000, "/lib/a.so"),
        map(0x4000, "/lib/a.so"),
        map(0x5000, "[heap]"),
        map(0x6000, "/lib/b.so"),
        map(0x7000, ""),
    ];
    let (bin_addr, libs) = Process::lib_paths(&maps, "/bin/app").unwrap();
    assert_eq!(bin_addr, 0x1000);
    assert_eq!(libs.len(), 2);
    assert_eq!(libs[0], ("/lib/a.so".to_string(), 0x3000));
    assert_eq!(libs[1], ("/lib/b.so".to_string(), 0x6000));

    let none: Vec<ProcessMap> = Vec::new();
    assert!(Process::lib_paths(&none, "/bin/app").is_err());
}

#[test]
fn info_from_elf_images() {
    // garbage bytes are no ELF image
    assert!(UsdtInfo::new(&[1, 2, 3, 4]).is_err());

    // a minimal valid 64-bit ELF header without sections carries no
    // systemtap base section, which is fine: no probes
    let mut image = vec![0u8; 64];
    image[0..8].copy_from_slice(&[0x7f, 0x45, 0x4c, 0x46, 2, 1, 1, 0]);
    image[16] = 2; // executable
    image[18] = 0x3e; // x86-64
    image[20] = 1; // version
    image[52] = 64; // header size
    let info = UsdtInfo::new(&image).unwrap();
    assert_eq!(info.base_addr, 0);
    assert!(info.notes.is_empty());
}
