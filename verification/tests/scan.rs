use acscan::image::{Module, Process};
use acscan::overlay::{entity_name, resolve_addresses, Addresses, AcEntityList};
use acscan::pattern::{find_first, parse_pattern, PatternByte};
use acscan::signatures::{entity_list_sig, local_player_sig, player_count_sig, view_matrix_sig};
use acscan::sigscan::{find_signature, ScanError, Signature};

use PatternByte::{Any, Exact};

fn module(name: &str, base: usize, data: Vec<u8>) -> Module {
    Module { name: name.to_string(), base, data }
}

fn sig(pattern: &str, offsets: Vec<isize>) -> Signature {
    Signature {
        name: "test".to_string(),
        pattern: pattern.to_string(),
        module: "game.exe".to_string(),
        offsets,
        ..Signature::default()
    }
}

/// An image with `8B 0D` at offset 3, followed by the pointer 0x00401010.
fn game_image() -> Vec<u8> {
    vec![0x90, 0x90, 0x90, 0x8B, 0x0D, 0x10, 0x10, 0x40, 0x00, 0x46, 0x3B, 0xC3, 0x00, 0x00, 0x00, 0x00]
}

fn game_process() -> Process {
    Process { is_wow64: true, modules: vec![module("other.dll", 0x1000_0000, vec![0x8B, 0x0D]), module("game.exe", 0x400000, game_image())] }
}

#[test]
fn parse_bytes_and_wildcards() {
    assert_eq!(parse_pattern("8B 0D ? ? 46"), Some(vec![Exact(0x8B), Exact(0x0D), Any, Any, Exact(0x46)]));
}

#[test]
fn parse_lower_case_and_mixed_white_space() {
    assert_eq!(parse_pattern("  f3\t0f \n ?  a1 "), Some(vec![Exact(0xF3), Exact(0x0F), Any, Exact(0xA1)]));
}

#[test]
fn parse_empty_pattern() {
    assert_eq!(parse_pattern(""), Some(vec![]));
    assert_eq!(parse_pattern("   "), Some(vec![]));
}

#[test]
fn parse_rejects_bad_tokens() {
    assert_eq!(parse_pattern("8G"), None);
    assert_eq!(parse_pattern("8B0D"), None);
    assert_eq!(parse_pattern("8B ??"), None);
    assert_eq!(parse_pattern("8"), None);
    assert_eq!(parse_pattern("8B é"), None);
}

#[test]
fn find_first_occurrence() {
    let p = [Exact(1), Any, Exact(3)];
    assert_eq!(find_first(&p, &[0, 1, 2, 3, 1, 9, 3]), Some(1));
    assert_eq!(find_first(&p, &[0, 1, 2, 4, 1, 9, 3]), Some(4));
    assert_eq!(find_first(&p, &[0, 1, 2, 4, 1, 9]), None);
}

#[test]
fn find_edge_cases() {
    assert_eq!(find_first(&[], &[5, 6]), Some(0));
    assert_eq!(find_first(&[], &[]), Some(0));
    assert_eq!(find_first(&[Any, Any, Any], &[5, 6]), None);
    assert_eq!(find_first(&[Exact(6)], &[5, 6]), Some(1));
}

#[test]
fn module_find_pattern() {
    let m = module("game.exe", 0, game_image());
    assert_eq!(m.find_pattern("8B 0D ? ? ? ? 46 3B"), Some(3));
    assert_eq!(m.find_pattern("8B 0D ? ? ? ? 46 3C"), None);
    assert_eq!(m.find_pattern("8B 0X"), None);
}

#[test]
fn little_endian_reads() {
    let m = module("m", 0, vec![0x78, 0x56, 0x34, 0x12, 0xEF, 0xCD, 0xAB, 0x90, 0x01]);
    assert_eq!(m.read_u32(0), Some(0x1234_5678));
    assert_eq!(m.read_u32(5), Some(0x01_90_AB_CD));
    assert_eq!(m.read_u32(6), None);
    assert_eq!(m.read_u32(usize::MAX), None);
    assert_eq!(m.read_u64(0), Some(0x90AB_CDEF_1234_5678));
    assert_eq!(m.read_u64(1), Some(0x0190_ABCD_EF12_3456));
    assert_eq!(m.read_u64(2), None);
}

#[test]
fn pointer_width_follows_wow64() {
    let m = module("m", 0, vec![0x10, 0x20, 0x30, 0x40, 0x01, 0x00, 0x00, 0x00]);
    assert_eq!(m.read_pointer(0, true), Some(0x4030_2010));
    assert_eq!(m.read_pointer(0, false), Some(0x0000_0001_4030_2010u64 as usize));
    assert_eq!(m.read_pointer(1, true), Some(0x0140_3020));
    assert_eq!(m.read_pointer(1, false), None);
}

#[test]
fn get_module_by_name() {
    let p = game_process();
    assert_eq!(p.get_module(&"game.exe".to_string()).map(|m| m.base), Some(0x400000));
    assert!(p.get_module(&"missing.dll".to_string()).is_none());
}

#[test]
fn scan_absolute_pointer() {
    let p = game_process();
    let s = sig("8B 0D ? ? ? ? 46 3B", vec![2]);
    assert_eq!(find_signature(&s, &p), Ok(0x401010));
}

#[test]
fn scan_relative_pointer() {
    let p = game_process();
    let s = Signature { relative: true, ..sig("8B 0D ? ? ? ? 46 3B", vec![2]) };
    assert_eq!(find_signature(&s, &p), Ok(0x1010));
}

#[test]
fn scan_with_extra() {
    let p = game_process();
    let s = Signature { extra: 4, ..sig("8B 0D ? ? ? ? 46 3B", vec![2]) };
    assert_eq!(find_signature(&s, &p), Ok(0x401014));
    let s = Signature { extra: -0x10, relative: true, ..sig("8B 0D ? ? ? ? 46 3B", vec![2]) };
    assert_eq!(find_signature(&s, &p), Ok(0x1000));
}

#[test]
fn scan_plain_pattern_position() {
    let p = game_process();
    let s = Signature { relative: true, ..sig("46 3B", vec![]) };
    assert_eq!(find_signature(&s, &p), Ok(9));
    let s = sig("46 3B", vec![]);
    assert_eq!(find_signature(&s, &p), Ok(0x400009));
}

#[test]
fn scan_negative_offset_and_chain() {
    // pattern at 9; offset -4 reads the pointer at 5 (0x401010), minus base gives 0x1010.
    let mut data = game_image();
    data.resize(0x1020, 0);
    // at 0x1010 + 2 stands the pointer 0x400008 -> offset 8.
    data[0x1012] = 0x08;
    data[0x1013] = 0x00;
    data[0x1014] = 0x40;
    data[0x1015] = 0x00;
    let p = Process { is_wow64: true, modules: vec![module("game.exe", 0x400000, data)] };
    let s = Signature { relative: true, ..sig("46 3B", vec![-4, 2]) };
    assert_eq!(find_signature(&s, &p), Ok(8));
}

#[test]
fn scan_64_bit_pointers() {
    let mut data = vec![0xAA, 0xBB];
    data.extend_from_slice(&0x0000_0001_4000_1234u64.to_le_bytes());
    let p = Process { is_wow64: false, modules: vec![module("game.exe", 0x1_4000_0000u64 as usize, data)] };
    let s = Signature { relative: true, ..sig("AA BB", vec![2]) };
    assert_eq!(find_signature(&s, &p), Ok(0x1234));
}

#[test]
fn scan_rip_relative() {
    // pattern "48 8B 05" at 0, displacement 0x10 at 3: target = 3 + 4 + 0x10 = 0x17.
    let mut data = vec![0x48, 0x8B, 0x05, 0x10, 0x00, 0x00, 0x00];
    data.resize(0x20, 0xCC);
    let p = Process { is_wow64: false, modules: vec![module("game.exe", 0x1000, data)] };
    let s = Signature { rip_relative: true, rip_offset: 3, relative: true, ..sig("48 8B 05", vec![]) };
    assert_eq!(find_signature(&s, &p), Ok(0x17));
    let s = Signature { rip_relative: true, rip_offset: 3, ..sig("48 8B 05", vec![]) };
    assert_eq!(find_signature(&s, &p), Ok(0x1017));
}

#[test]
fn scan_errors() {
    let p = game_process();
    let s = Signature { module: "nothere.exe".to_string(), ..sig("8B 0D", vec![]) };
    assert_eq!(find_signature(&s, &p), Err(ScanError::ModuleNotFound));
    assert_eq!(find_signature(&sig("8B 0E", vec![]), &p), Err(ScanError::PatternNotFound));
    assert_eq!(find_signature(&sig("8B 0Z", vec![]), &p), Err(ScanError::PatternNotFound));
    assert_eq!(find_signature(&sig("8B 0D", vec![13]), &p), Err(ScanError::OffsetOutOfBounds));
    assert_eq!(find_signature(&sig("8B 0D", vec![-4]), &p), Err(ScanError::OffsetOutOfBounds));
    // the pointer 0x401010 lies 0x1010 into the module, past its end.
    assert_eq!(find_signature(&sig("8B 0D", vec![2, 0]), &p), Err(ScanError::OffsetOutOfBounds));
    let s = Signature { rip_relative: true, rip_offset: 12, ..sig("8B 0D", vec![]) };
    assert_eq!(find_signature(&s, &p), Err(ScanError::RIPRelativeFailed));
}

#[test]
fn error_messages() {
    assert_eq!(ScanError::ModuleNotFound.message(), "Module not found");
    assert_eq!(ScanError::PatternNotFound.message(), "Pattern not found");
    assert_eq!(ScanError::OffsetOutOfBounds.message(), "Offset out of module bounds");
    assert_eq!(ScanError::RIPRelativeFailed.message(), "rip_relative failed");
}

#[test]
fn default_signature() {
    let s = Signature::default();
    assert_eq!(s.name, "");
    assert_eq!(s.pattern, "");
    assert_eq!(s.module, "");
    assert!(s.offsets.is_empty());
    assert_eq!(s.extra, 0);
    assert!(!s.relative);
    assert!(!s.rip_relative);
    assert_eq!(s.rip_offset, 0);
}

#[test]
fn game_signatures() {
    let s = player_count_sig();
    assert_eq!(s.module, "ac_client.exe");
    assert_eq!(s.pattern, "8B 0D ? ? ? ? 46 3B ? 7C ? 8B 35");
    assert_eq!(s.offsets, vec![2]);
    assert!(!s.relative && !s.rip_relative);
    assert_eq!(local_player_sig().pattern, "8B 0D ? ? ? ? 56 57 8B 3D");
    assert_eq!(local_player_sig().offsets, vec![2]);
    assert_eq!(entity_list_sig().pattern, "A1 ? ? ? ? ? ? ? ? F6 0F 84 5F");
    assert_eq!(entity_list_sig().offsets, vec![1]);
    assert_eq!(view_matrix_sig().offsets, vec![4]);
    assert!(parse_pattern(&view_matrix_sig().pattern).is_some());
}

#[test]
fn resolve_game_addresses() {
    // player count pattern at 0 with pointer 0x00501234; local player pattern at 13 with pointer 0x00509999.
    let mut data = vec![0x8B, 0x0D, 0x34, 0x12, 0x50, 0x00, 0x46, 0x3B, 0xC6, 0x7C, 0xF0, 0x8B, 0x35];
    data.extend_from_slice(&[0x8B, 0x0D, 0x99, 0x99, 0x50, 0x00, 0x56, 0x57, 0x8B, 0x3D]);
    let p = Process { is_wow64: true, modules: vec![module("ac_client.exe", 0x400000, data)] };
    let a: Addresses = resolve_addresses(&p);
    assert_eq!(a.player_count, 0x501234);
    assert_eq!(a.local_player, 0x509999);
    assert_eq!(a.entity_list, 0);
    assert_eq!(a.view_matrix, 0);
}

#[test]
fn entity_list_holds_pointers() {
    let l = AcEntityList { entities: [7; 32] };
    assert_eq!(l.entities.len(), 32);
    assert_eq!(l.entities[31], 7);
}

#[test]
fn entity_names() {
    let mut raw = [0u8; 260];
    raw[..5].copy_from_slice(b"Alice");
    raw[6] = b'x';
    assert_eq!(entity_name(&raw), "Alice");
    assert_eq!(entity_name(b"Bob"), "Bob");
    assert_eq!(entity_name(&[0x52, 0xE9, 0x6D, 0x79]), "R\u{e9}my");
    assert_eq!(entity_name(&[0, 65]), "");
    assert_eq!(entity_name(&[]), "");
}
