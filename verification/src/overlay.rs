//! What the overlay computes from the game's memory: the addresses of the
//! values it reads, and the names of the players it draws.

use vstd::prelude::*;
use crate::image::{Process, module_named, pattern_position, pointer_at};
use vstd::utf8::encode_utf8;
use vstd::wrapping::usize_specs;
use crate::sigscan::{SignatureView, find_signature, scan, law_single_offset_reads_pointer};
use crate::signatures::{
    entity_list_sig, entity_list_signature, local_player_sig, local_player_signature, player_count_sig,
    player_count_signature, view_matrix_sig, view_matrix_signature,
};

verus! {

/// The addresses of the values that the overlay reads from the game.
pub struct Addresses {
    pub player_count: usize,
    pub local_player: usize,
    pub entity_list: usize,
    pub view_matrix: usize,
}

/// The game's list of entity pointers, as it lies in the game's memory.
pub struct AcEntityList {
    pub entities: [u32; 32],
}

/// The address that `sig` resolves to, or 0 when it cannot be resolved.
pub open spec fn address_or_zero(sig: SignatureView, process: Process) -> usize {
    match scan(sig, process) {
        Ok(a) => a,
        Err(_) => 0,
    }
}

/// Resolves the overlay's signatures; one that cannot be resolved gives 0.
pub fn resolve_addresses(process: &Process) -> (a: Addresses)
    ensures
        a.player_count == address_or_zero(player_count_signature(), *process),
        a.local_player == address_or_zero(local_player_signature(), *process),
        a.entity_list == address_or_zero(entity_list_signature(), *process),
        a.view_matrix == address_or_zero(view_matrix_signature(), *process),
{
    let player_count = match find_signature(&player_count_sig(), process) {
        Ok(x) => x,
        Err(_) => 0,
    };
    let local_player = match find_signature(&local_player_sig(), process) {
        Ok(x) => x,
        Err(_) => 0,
    };
    let entity_list = match find_signature(&entity_list_sig(), process) {
        Ok(x) => x,
        Err(_) => 0,
    };
    let view_matrix = match find_signature(&view_matrix_sig(), process) {
        Ok(x) => x,
        Err(_) => 0,
    };
    Addresses { player_count, local_player, entity_list, view_matrix }
}


/// The length of the name held in `bytes`: the bytes before the first NUL,
/// or all of them when there is none.
pub open spec fn name_len(bytes: Seq<u8>) -> nat
    decreases bytes.len(),
{
    if bytes.len() == 0 || bytes[0] == 0 {
        0
    } else {
        1 + name_len(bytes.drop_first())
    }
}

/// The name held in a NUL-terminated byte buffer, each byte read as the
/// character with that code (Latin-1).
pub open spec fn name_text(bytes: Seq<u8>) -> Seq<char> {
    Seq::new(name_len(bytes), |i: int| bytes[i] as char)
}

/// Appends `c` to `s` (`String::push`).
#[verifier::external_body]
fn push_char(s: &mut String, c: char)
    ensures
        final(s)@ == old(s)@.push(c),
{
    s.push(c)
}

/// The name of a player, as the game stores it: a NUL-terminated buffer of
/// single-byte characters.
pub fn entity_name(name: &[u8]) -> (r: String)
    ensures
        r@ == name_text(name@),
{
    let mut out = String::new();
    let mut i: usize = 0;
    assert(name@.skip(0) =~= name@);
    while i < name.len() && name[i] != 0
        invariant
            i <= name@.len(),
            name_len(name@) == i + name_len(name@.skip(i as int)),
            out@ == Seq::new(i as nat, |k: int| name@[k] as char),
        decreases name@.len() - i,
    {
        assert(name@.skip(i as int).drop_first() =~= name@.skip(i + 1));
        push_char(&mut out, name[i] as char);
        assert(out@ =~= Seq::new((i + 1) as nat, |k: int| name@[k] as char));
        i = i + 1;
    }
    assert(name@.skip(i as int) =~= Seq::<u8>::empty() || name@.skip(i as int)[0] == 0);
    assert(name_len(name@.skip(i as int)) == 0);
    out
}


/// The pointer stored `offset` bytes into the first occurrence of `pattern`
/// in the image of `ac_client.exe`, or 0 when there is none.
pub open spec fn stored_pointer_or_zero(process: Process, pattern: Seq<char>, offset: isize) -> usize {
    match module_named(process.modules@, "ac_client.exe"@) {
        None => 0,
        Some(m) => match pattern_position(encode_utf8(pattern), m.data@) {
            None => 0,
            Some(i) => match pointer_at(
                m.data@,
                usize_specs::wrapping_add_signed(i as usize, offset) as int,
                process.is_wow64,
            ) {
                None => 0,
                Some(p) => p,
            },
        },
    }
}

/// Each address the overlay resolves is the absolute address stored in the
/// instruction its pattern finds in `ac_client.exe`: 2 bytes in for the
/// player count and the local player, 1 for the entity list, 4 for the view
/// matrix; 0 when it cannot be found.
pub proof fn law_overlay_addresses_are_stored_pointers(process: Process)
    ensures
        address_or_zero(player_count_signature(), process)
            == stored_pointer_or_zero(
                process,
                "8B 0D ? ? ? ? 46 3B ? 7C ? 8B 35"@,
                2,
            ),
        address_or_zero(local_player_signature(), process)
            == stored_pointer_or_zero(
                process,
                "8B 0D ? ? ? ? 56 57 8B 3D"@,
                2,
            ),
        address_or_zero(entity_list_signature(), process)
            == stored_pointer_or_zero(
                process,
                "A1 ? ? ? ? ? ? ? ? F6 0F 84 5F"@,
                1,
            ),
        address_or_zero(view_matrix_signature(), process)
            == stored_pointer_or_zero(
                process,
                "F3 0F ? ? ? ? ? ? F3 0F ? ? 0F 28 ? 0F C6 C3 ? F3 0F ? ? ? ? ? ? F3 0F ? ? F3 0F ? ? F2 0F ? ? ? ? ? ? 0F 28 ? 0F 54 ? ? ? ? ? 0F 5A ? 66 0F ? ? 77 ? F3 0F"@,
                4,
            ),
{
    law_single_offset_reads_pointer(player_count_signature(), process);
    law_single_offset_reads_pointer(local_player_signature(), process);
    law_single_offset_reads_pointer(entity_list_signature(), process);
    law_single_offset_reads_pointer(view_matrix_signature(), process);
}

/// A name holds every byte before the first NUL, and nothing else: each of
/// its characters is the non-NUL byte at the same place, and after it comes
/// either a NUL or the end of the buffer.
pub proof fn law_name_is_text_before_first_nul(bytes: Seq<u8>)
    ensures
        name_text(bytes).len() <= bytes.len(),
        forall|k: int| 0 <= k < name_text(bytes).len() ==> #[trigger] bytes[k] != 0,
        forall|k: int| 0 <= k < name_text(bytes).len() ==> #[trigger] name_text(bytes)[k] == bytes[k] as char,
        name_text(bytes).len() == bytes.len() || bytes[name_text(bytes).len() as int] == 0,
    decreases bytes.len(),
{
    assert(name_text(bytes).len() == name_len(bytes));
    if bytes.len() > 0 && bytes[0] != 0 {
        let rest = bytes.drop_first();
        law_name_is_text_before_first_nul(rest);
        assert(name_text(rest).len() == name_len(rest));
        assert(name_len(bytes) == 1 + name_len(rest));
        assert forall|k: int| 0 <= k < name_text(bytes).len() implies #[trigger] bytes[k] != 0 by {
            if k > 0 {
                assert(name_text(rest)[k - 1] == rest[k - 1] as char);
                assert(rest[k - 1] == bytes[k]);
            }
        }
        if name_len(rest) < rest.len() {
            assert(rest[name_len(rest) as int] == bytes[name_len(bytes) as int]);
        }
    } else {
        assert(name_len(bytes) == 0);
    }
}

} // verus!
