//! The memory image of a process as the scanner sees it: its modules, each
//! with a name, a base address and a copy of its bytes.

use vstd::prelude::*;
use vstd::string::StringSliceAdditionalSpecFns;
use crate::pattern::{pattern_tokens, first_match, parse_pattern, find_first};

verus! {

/// The unsigned number whose little-endian encoding is `bytes`.
pub open spec fn le_value(bytes: Seq<u8>) -> nat
    decreases bytes.len(),
{
    if bytes.len() == 0 {
        0
    } else {
        bytes[0] as nat + 256 * le_value(bytes.drop_first())
    }
}

/// The little-endian number of `width` bytes at offset `pos` of `data`, when
/// those bytes lie inside `data`.
pub open spec fn read_le(data: Seq<u8>, pos: int, width: nat) -> Option<nat> {
    if 0 <= pos && pos + width <= data.len() {
        Some(le_value(data.subrange(pos, pos + width)))
    } else {
        None
    }
}

/// The pointer stored at `pos`: four bytes in a 32-bit (WOW64) process,
/// eight otherwise, taken as an address of this machine.
pub open spec fn pointer_at(data: Seq<u8>, pos: int, wow64: bool) -> Option<usize> {
    match read_le(data, pos, if wow64 { 4 } else { 8 }) {
        Some(v) => Some(v as usize),
        None => None,
    }
}

/// Where the text `pattern` first occurs in `data`; `None` when the text is
/// no valid pattern or does not occur.
pub open spec fn pattern_position(pattern: Seq<u8>, data: Seq<u8>) -> Option<int> {
    match pattern_tokens(pattern) {
        Some(p) => first_match(p, data),
        None => None,
    }
}

/// A pointer is stored little-endian: in a 32-bit (WOW64) process it is the
/// four bytes at `pos`, least significant first; otherwise the eight bytes
/// there. It is read exactly when those bytes lie inside the data.
pub proof fn law_pointer_is_little_endian(data: Seq<u8>, pos: int, wow64: bool)
    ensures
        pointer_at(data, pos, wow64) is Some <==> (0 <= pos && pos + (if wow64 { 4int } else { 8int }) <= data.len()),
        wow64 && pointer_at(data, pos, wow64) is Some ==> pointer_at(data, pos, wow64).unwrap() as int
            == data[pos] + 0x100 * data[pos + 1] + 0x1_0000 * data[pos + 2] + 0x100_0000 * data[pos + 3],
        !wow64 && pointer_at(data, pos, wow64) is Some ==> pointer_at(data, pos, wow64).unwrap() == (
        data[pos] + 0x100 * data[pos + 1] + 0x1_0000 * data[pos + 2] + 0x100_0000 * data[pos + 3]
            + 0x1_0000_0000 * data[pos + 4] + 0x100_0000_0000 * data[pos + 5] + 0x1_0000_0000_0000
            * data[pos + 6] + 0x100_0000_0000_0000 * data[pos + 7]) as usize,
{
    if 0 <= pos && pos + (if wow64 { 4int } else { 8int }) <= data.len() {
        if wow64 {
            let s = data.subrange(pos, pos + 4);
            lemma_le_value_4(s);
            assert(le_value(s) < 0x1_0000_0000);
        } else {
            lemma_le_value_8(data.subrange(pos, pos + 8));
        }
    }
}

proof fn lemma_le_value_4(s: Seq<u8>)
    requires
        s.len() == 4,
    ensures
        le_value(s) == s[0] + 0x100 * s[1] + 0x1_0000 * s[2] + 0x100_0000 * s[3],
{
    reveal_with_fuel(le_value, 5);
}

proof fn lemma_le_value_8(s: Seq<u8>)
    requires
        s.len() == 8,
    ensures
        le_value(s) == s[0] + 0x100 * s[1] + 0x1_0000 * s[2] + 0x100_0000 * s[3]
            + 0x1_0000_0000 * s[4] + 0x100_0000_0000 * s[5] + 0x1_0000_0000_0000 * s[6]
            + 0x100_0000_0000_0000 * s[7],
{
    reveal_with_fuel(le_value, 9);
}

/// A module loaded in a process: its name, the address it was loaded at, and
/// the bytes of its image.
pub struct Module {
    pub name: String,
    pub base: usize,
    pub data: Vec<u8>,
}

impl Module {
    /// The little-endian `u32` at offset `pos` of the image.
    pub fn read_u32(&self, pos: usize) -> (r: Option<u32>)
        ensures
            match r {
                Some(v) => read_le(self.data@, pos as int, 4) == Some(v as nat),
                None => read_le(self.data@, pos as int, 4) is None,
            },
    {
        let n = self.data.len();
        if pos > n || n - pos < 4 {
            return None;
        }
        let b0 = self.data[pos] as u32;
        let b1 = self.data[pos + 1] as u32;
        let b2 = self.data[pos + 2] as u32;
        let b3 = self.data[pos + 3] as u32;
        proof {
            let s = self.data@.subrange(pos as int, pos + 4);
            lemma_le_value_4(s);
        }
        Some(b0 + b1 * 0x100 + b2 * 0x1_0000 + b3 * 0x100_0000)
    }

    /// The little-endian `u64` at offset `pos` of the image.
    pub fn read_u64(&self, pos: usize) -> (r: Option<u64>)
        ensures
            match r {
                Some(v) => read_le(self.data@, pos as int, 8) == Some(v as nat),
                None => read_le(self.data@, pos as int, 8) is None,
            },
    {
        let n = self.data.len();
        if pos > n || n - pos < 8 {
            return None;
        }
        let b0 = self.data[pos] as u64;
        let b1 = self.data[pos + 1] as u64;
        let b2 = self.data[pos + 2] as u64;
        let b3 = self.data[pos + 3] as u64;
        let b4 = self.data[pos + 4] as u64;
        let b5 = self.data[pos + 5] as u64;
        let b6 = self.data[pos + 6] as u64;
        let b7 = self.data[pos + 7] as u64;
        proof {
            let s = self.data@.subrange(pos as int, pos + 8);
            lemma_le_value_8(s);
        }
        Some(
            b0 + b1 * 0x100 + b2 * 0x1_0000 + b3 * 0x100_0000 + b4 * 0x1_0000_0000 + b5
                * 0x100_0000_0000 + b6 * 0x1_0000_0000_0000 + b7 * 0x100_0000_0000_0000,
        )
    }

    /// The pointer stored at offset `pos` of the image: a `u32` when the
    /// process is a 32-bit (WOW64) one, a `u64` otherwise.
    pub fn read_pointer(&self, pos: usize, wow64: bool) -> (r: Option<usize>)
        ensures
            r == pointer_at(self.data@, pos as int, wow64),
    {
        if wow64 {
            match self.read_u32(pos) {
                Some(v) => Some(v as usize),
                None => None,
            }
        } else {
            match self.read_u64(pos) {
                Some(v) => Some(v as usize),
                None => None,
            }
        }
    }

    /// Where the text `pattern` first occurs in the image.
    pub fn find_pattern(&self, pattern: &str) -> (r: Option<usize>)
        ensures
            match r {
                Some(i) => pattern_position(pattern.spec_bytes(), self.data@) == Some(i as int),
                None => pattern_position(pattern.spec_bytes(), self.data@) is None,
            },
    {
        match parse_pattern(pattern) {
            None => None,
            Some(p) => find_first(p.as_slice(), self.data.as_slice()),
        }
    }
}


/// The first module at or after position `i` of `modules` whose name is `name`.
pub open spec fn module_index_from(modules: Seq<Module>, name: Seq<char>, i: int) -> Option<int>
    decreases modules.len() - i,
{
    if i < 0 || i >= modules.len() {
        None
    } else if modules[i].name@ == name {
        Some(i)
    } else {
        module_index_from(modules, name, i + 1)
    }
}

/// The first module of `modules` whose name is `name`.
pub open spec fn module_named(modules: Seq<Module>, name: Seq<char>) -> Option<Module> {
    match module_index_from(modules, name, 0) {
        Some(i) => Some(modules[i]),
        None => None,
    }
}

/// The module found for a name carries that name, and no module before it
/// does; no module is found only when none carries the name.
pub proof fn law_module_lookup_finds_first_named(modules: Seq<Module>, name: Seq<char>)
    ensures
        match module_named(modules, name) {
            Some(m) => m.name@ == name && exists|i: int| 0 <= i < modules.len() && modules[i] == m
                && forall|j: int| 0 <= j < i ==> #[trigger] modules[j].name@ != name,
            None => forall|j: int| 0 <= j < modules.len() ==> #[trigger] modules[j].name@ != name,
        },
{
    lemma_module_index_from(modules, name, 0);
}

proof fn lemma_module_index_from(modules: Seq<Module>, name: Seq<char>, i: int)
    requires
        0 <= i,
    ensures
        match module_index_from(modules, name, i) {
            Some(k) => i <= k < modules.len() && modules[k].name@ == name && forall|j: int|
                i <= j < k ==> #[trigger] modules[j].name@ != name,
            None => forall|j: int| i <= j < modules.len() ==> #[trigger] modules[j].name@ != name,
        },
    decreases modules.len() - i,
{
    if i < modules.len() && modules[i].name@ != name {
        lemma_module_index_from(modules, name, i + 1);
    }
}

/// A process as the scanner sees it: whether it runs as a 32-bit process on
/// a 64-bit system (WOW64), and its loaded modules.
pub struct Process {
    pub is_wow64: bool,
    pub modules: Vec<Module>,
}

impl Process {
    /// The first loaded module named `name`.
    pub fn get_module(&self, name: &String) -> (r: Option<&Module>)
        ensures
            match r {
                Some(m) => module_named(self.modules@, name@) == Some(*m),
                None => module_named(self.modules@, name@) is None,
            },
    {
        let mut i: usize = 0;
        while i < self.modules.len()
            invariant
                i <= self.modules@.len(),
                module_index_from(self.modules@, name@, 0) == module_index_from(
                    self.modules@,
                    name@,
                    i as int,
                ),
            decreases self.modules@.len() - i,
        {
            if self.modules[i].name == *name {
                return Some(&self.modules[i]);
            }
            i = i + 1;
        }
        None
    }
}

} // verus!
