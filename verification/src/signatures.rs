//! The signatures of the game client's values that the overlay reads.

use vstd::prelude::*;
use crate::sigscan::{Signature, SignatureView};

verus! {

/// The value of [`player_count_sig`].
pub open spec fn player_count_signature() -> SignatureView {
    SignatureView {
        name: Seq::empty(),
        pattern: "8B 0D ? ? ? ? 46 3B ? 7C ? 8B 35"@,
        module: "ac_client.exe"@,
        offsets: seq![2isize],
        extra: 0,
        relative: false,
        rip_relative: false,
        rip_offset: 0,
    }
}

/// The number of players: `mov ecx, [count]` in the client's player loop.
pub fn player_count_sig() -> (s: Signature)
    ensures
        s@ == player_count_signature(),
{
    Signature {
        name: String::new(),
        pattern: "8B 0D ? ? ? ? 46 3B ? 7C ? 8B 35".to_owned(),
        module: "ac_client.exe".to_owned(),
        offsets: vec![2],
        extra: 0,
        relative: false,
        rip_relative: false,
        rip_offset: 0,
    }
}

/// The value of [`local_player_sig`].
pub open spec fn local_player_signature() -> SignatureView {
    SignatureView {
        name: Seq::empty(),
        pattern: "8B 0D ? ? ? ? 56 57 8B 3D"@,
        module: "ac_client.exe"@,
        offsets: seq![2isize],
        extra: 0,
        relative: false,
        rip_relative: false,
        rip_offset: 0,
    }
}

/// The local player: `mov ecx, [player]` followed by `push esi; push edi`.
pub fn local_player_sig() -> (s: Signature)
    ensures
        s@ == local_player_signature(),
{
    Signature {
        name: String::new(),
        pattern: "8B 0D ? ? ? ? 56 57 8B 3D".to_owned(),
        module: "ac_client.exe".to_owned(),
        offsets: vec![2],
        extra: 0,
        relative: false,
        rip_relative: false,
        rip_offset: 0,
    }
}

/// The value of [`entity_list_sig`].
pub open spec fn entity_list_signature() -> SignatureView {
    SignatureView {
        name: Seq::empty(),
        pattern: "A1 ? ? ? ? ? ? ? ? F6 0F 84 5F"@,
        module: "ac_client.exe"@,
        offsets: seq![1isize],
        extra: 0,
        relative: false,
        rip_relative: false,
        rip_offset: 0,
    }
}

/// The entity list: `mov eax, [list]` in front of a flag test.
pub fn entity_list_sig() -> (s: Signature)
    ensures
        s@ == entity_list_signature(),
{
    Signature {
        name: String::new(),
        pattern: "A1 ? ? ? ? ? ? ? ? F6 0F 84 5F".to_owned(),
        module: "ac_client.exe".to_owned(),
        offsets: vec![1],
        extra: 0,
        relative: false,
        rip_relative: false,
        rip_offset: 0,
    }
}

/// The value of [`view_matrix_sig`].
pub open spec fn view_matrix_signature() -> SignatureView {
    SignatureView {
        name: Seq::empty(),
        pattern: "F3 0F ? ? ? ? ? ? F3 0F ? ? 0F 28 ? 0F C6 C3 ? F3 0F ? ? ? ? ? ? F3 0F ? ? F3 0F ? ? F2 0F ? ? ? ? ? ? 0F 28 ? 0F 54 ? ? ? ? ? 0F 5A ? 66 0F ? ? 77 ? F3 0F"@,
        module: "ac_client.exe"@,
        offsets: seq![4isize],
        extra: 0,
        relative: false,
        rip_relative: false,
        rip_offset: 0,
    }
}

/// The view matrix: an SSE load of its first element.
pub fn view_matrix_sig() -> (s: Signature)
    ensures
        s@ == view_matrix_signature(),
{
    Signature {
        name: String::new(),
        pattern: "F3 0F ? ? ? ? ? ? F3 0F ? ? 0F 28 ? 0F C6 C3 ? F3 0F ? ? ? ? ? ? F3 0F ? ? F3 0F ? ? F2 0F ? ? ? ? ? ? 0F 28 ? 0F 54 ? ? ? ? ? 0F 5A ? 66 0F ? ? 77 ? F3 0F".to_owned(),
        module: "ac_client.exe".to_owned(),
        offsets: vec![4],
        extra: 0,
        relative: false,
        rip_relative: false,
        rip_offset: 0,
    }
}

} // verus!
