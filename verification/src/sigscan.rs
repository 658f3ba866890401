//! Signatures and the scan that resolves one to an address: find the module,
//! find the pattern in its image, follow the pointer chain, apply the
//! instruction-relative displacement, add the extra, and make the result
//! absolute unless the signature asks for a module-relative one.

use vstd::prelude::*;
use vstd::wrapping::usize_specs;
use vstd::utf8::encode_utf8;
use crate::image::{Module, Process, module_named, pattern_position, pointer_at, read_le};

verus! {

/// Why a signature could not be resolved.
#[derive(Clone, Copy, Debug, PartialEq, Eq, Structural)]
pub enum ScanError {
    ModuleNotFound,
    PatternNotFound,
    OffsetOutOfBounds,
    RIPRelativeFailed,
}

impl ScanError {
    /// The text that describes the error.
    pub fn message(&self) -> (r: &'static str)
        ensures
            r@ == match *self {
                ScanError::ModuleNotFound => "Module not found"@,
                ScanError::PatternNotFound => "Pattern not found"@,
                ScanError::OffsetOutOfBounds => "Offset out of module bounds"@,
                ScanError::RIPRelativeFailed => "rip_relative failed"@,
            },
    {
        match self {
            ScanError::ModuleNotFound => "Module not found",
            ScanError::PatternNotFound => "Pattern not found",
            ScanError::OffsetOutOfBounds => "Offset out of module bounds",
            ScanError::RIPRelativeFailed => "rip_relative failed",
        }
    }
}

/// How to find one value in a module.
pub struct Signature {
    /// Signature name.
    pub name: String,
    /// Signature pattern.
    pub pattern: String,
    /// Module name.
    pub module: String,
    /// Signature offsets for dereferencing.
    pub offsets: Vec<isize>,
    /// Extra to be added to the result.
    pub extra: isize,
    /// If true, subtract module base from result.
    pub relative: bool,
    /// If true, read a u32 at the position and add it to the result.
    pub rip_relative: bool,
    /// Offset to the rip relative.
    pub rip_offset: isize,
}

/// The value of a signature: its texts as character sequences.
#[verifier::ext_equal]
pub struct SignatureView {
    pub name: Seq<char>,
    pub pattern: Seq<char>,
    pub module: Seq<char>,
    pub offsets: Seq<isize>,
    pub extra: isize,
    pub relative: bool,
    pub rip_relative: bool,
    pub rip_offset: isize,
}

impl View for Signature {
    type V = SignatureView;

    open spec fn view(&self) -> SignatureView {
        SignatureView {
            name: self.name@,
            pattern: self.pattern@,
            module: self.module@,
            offsets: self.offsets@,
            extra: self.extra,
            relative: self.relative,
            rip_relative: self.rip_relative,
            rip_offset: self.rip_offset,
        }
    }
}

impl Default for Signature {
    fn default() -> (s: Self)
        ensures
            s@ == (SignatureView {
                name: Seq::empty(),
                pattern: Seq::empty(),
                module: Seq::empty(),
                offsets: Seq::empty(),
                extra: 0,
                relative: false,
                rip_relative: false,
                rip_offset: 0,
            }),
    {
        Signature {
            name: String::new(),
            pattern: String::new(),
            module: String::new(),
            offsets: Vec::new(),
            extra: 0,
            relative: false,
            rip_relative: false,
            rip_offset: 0,
        }
    }
}

/// Follows the pointer chain `offsets` from `start`, an offset into the
/// module's image: each step reads the pointer at the current offset plus
/// the step's offset, and takes it relative to the module's base.
pub open spec fn follow_offsets(module: Module, wow64: bool, start: usize, offsets: Seq<isize>) -> Result<usize, ScanError>
    decreases offsets.len(),
{
    if offsets.len() == 0 {
        Ok(start)
    } else {
        match follow_offsets(module, wow64, start, offsets.drop_last()) {
            Err(e) => Err(e),
            Ok(addr) => {
                let pos = usize_specs::wrapping_add_signed(addr, offsets.last());
                match pointer_at(module.data@, pos as int, wow64) {
                    None => Err(ScanError::OffsetOutOfBounds),
                    Some(p) => Ok(usize_specs::wrapping_sub(p, module.base)),
                }
            },
        }
    }
}

/// Resolves an instruction-relative displacement: at `addr + rip_offset`
/// stands a `u32` displacement, counted from the end of those four bytes.
pub open spec fn resolve_rip(module: Module, addr: usize, rip_offset: isize) -> Result<usize, ScanError> {
    let at = usize_specs::wrapping_add_signed(addr, rip_offset);
    match read_le(module.data@, at as int, 4) {
        None => Err(ScanError::RIPRelativeFailed),
        Some(rip) => Ok(usize_specs::wrapping_add(usize_specs::wrapping_add(at, rip as usize), 4)),
    }
}

/// Adds the extra, and the module's base unless a module-relative result is asked for.
pub open spec fn finish(addr: usize, extra: isize, relative: bool, base: usize) -> usize {
    let a = usize_specs::wrapping_add_signed(addr, extra);
    if relative {
        a
    } else {
        usize_specs::wrapping_add(a, base)
    }
}

/// The outcome of scanning for `sig` in `process`.
pub open spec fn scan(sig: SignatureView, process: Process) -> Result<usize, ScanError> {
    match module_named(process.modules@, sig.module) {
        None => Err(ScanError::ModuleNotFound),
        Some(module) => match pattern_position(encode_utf8(sig.pattern), module.data@) {
            None => Err(ScanError::PatternNotFound),
            Some(start) => match follow_offsets(module, process.is_wow64, start as usize, sig.offsets) {
                Err(e) => Err(e),
                Ok(addr) => {
                    let rip = if sig.rip_relative {
                        resolve_rip(module, addr, sig.rip_offset)
                    } else {
                        Ok(addr)
                    };
                    match rip {
                        Err(e) => Err(e),
                        Ok(a) => Ok(finish(a, sig.extra, sig.relative, module.base)),
                    }
                },
            },
        },
    }
}

/// Once a step of the chain fails, the whole chain fails with that error.
proof fn lemma_chain_error_persists(module: Module, wow64: bool, start: usize, offsets: Seq<isize>, k: int)
    requires
        0 <= k <= offsets.len(),
        follow_offsets(module, wow64, start, offsets.take(k)) is Err,
    ensures
        follow_offsets(module, wow64, start, offsets) == follow_offsets(module, wow64, start, offsets.take(k)),
    decreases offsets.len(),
{
    if k == offsets.len() {
        assert(offsets.take(k) =~= offsets);
    } else {
        assert(offsets.drop_last().take(k) =~= offsets.take(k));
        lemma_chain_error_persists(module, wow64, start, offsets.drop_last(), k);
    }
}

/// Resolves `sig` in `process`.
pub fn find_signature(sig: &Signature, process: &Process) -> (r: Result<usize, ScanError>)
    ensures
        r == scan(sig@, *process),
{
    let module = match process.get_module(&sig.module) {
        Some(m) => m,
        None => return Err(ScanError::ModuleNotFound),
    };
    let start = match module.find_pattern(sig.pattern.as_str()) {
        Some(a) => a,
        None => return Err(ScanError::PatternNotFound),
    };
    let ghost offs = sig.offsets@;
    let mut addr = start;
    let mut i: usize = 0;
    assert(offs.take(0) =~= Seq::<isize>::empty());
    while i < sig.offsets.len()
        invariant
            offs == sig.offsets@,
            i <= offs.len(),
            module_named(process.modules@, sig.module@) == Some(*module),
            pattern_position(encode_utf8(sig.pattern@), module.data@) == Some(start as int),
            follow_offsets(*module, process.is_wow64, start, offs.take(i as int)) == Ok::<usize, ScanError>(addr),
        decreases offs.len() - i,
    {
        let pos = addr.wrapping_add_signed(sig.offsets[i]);
        assert(offs.take(i + 1).drop_last() =~= offs.take(i as int));
        match module.read_pointer(pos, process.is_wow64) {
            None => {
                proof {
                    lemma_chain_error_persists(*module, process.is_wow64, start, offs, i + 1);
                }
                return Err(ScanError::OffsetOutOfBounds);
            },
            Some(tmp) => {
                addr = tmp.wrapping_sub(module.base);
            },
        }
        i = i + 1;
    }
    assert(offs.take(offs.len() as int) =~= offs);
    if sig.rip_relative {
        let at = addr.wrapping_add_signed(sig.rip_offset);
        match module.read_u32(at) {
            None => return Err(ScanError::RIPRelativeFailed),
            Some(rip) => {
                addr = at.wrapping_add(rip as usize).wrapping_add(4);
            },
        }
    }
    addr = addr.wrapping_add_signed(sig.extra);
    if !sig.relative {
        addr = addr.wrapping_add(module.base);
    }
    Ok(addr)
}


/// `a` and `b` ask for the same scan, except perhaps in the fields that the
/// caller names separately.
pub open spec fn same_search(a: SignatureView, b: SignatureView) -> bool {
    &&& a.pattern == b.pattern
    &&& a.module == b.module
    &&& a.offsets == b.offsets
    &&& a.rip_relative == b.rip_relative
    &&& a.rip_offset == b.rip_offset
}

/// A signature that asks for an absolute address yields the address that the
/// same signature, asked for a module-relative one, yields plus the base of
/// the module; both fail alike.
pub proof fn law_absolute_is_relative_plus_base(absolute: SignatureView, relative: SignatureView, process: Process)
    requires
        same_search(absolute, relative),
        absolute.extra == relative.extra,
        !absolute.relative,
        relative.relative,
    ensures
        match (scan(absolute, process), scan(relative, process)) {
            (Ok(a), Ok(r)) => module_named(process.modules@, absolute.module) matches Some(m)
                && a == usize_specs::wrapping_add(r, m.base),
            (Err(e1), Err(e2)) => e1 == e2,
            _ => false,
        },
{
}

proof fn lemma_add_signed_commutes_with_add(x: usize, e: isize, b: usize)
    ensures
        usize_specs::wrapping_add(usize_specs::wrapping_add_signed(x, e), b)
            == usize_specs::wrapping_add_signed(usize_specs::wrapping_add(x, b), e),
{
}

proof fn lemma_add_signed_zero(x: usize)
    ensures
        usize_specs::wrapping_add_signed(x, 0) == x,
{
}

/// The extra is added to the result, modulo the size of an address: the
/// signature with extra `e` yields what the same signature with extra 0
/// yields, plus `e`; both fail alike.
pub proof fn law_extra_shifts_result(with_extra: SignatureView, without: SignatureView, process: Process)
    requires
        same_search(with_extra, without),
        with_extra.relative == without.relative,
        without.extra == 0,
    ensures
        match (scan(with_extra, process), scan(without, process)) {
            (Ok(a), Ok(r)) => a == usize_specs::wrapping_add_signed(r, with_extra.extra),
            (Err(e1), Err(e2)) => e1 == e2,
            _ => false,
        },
{
    match module_named(process.modules@, with_extra.module) {
        None => {},
        Some(m) => match pattern_position(encode_utf8(with_extra.pattern), m.data@) {
            None => {},
            Some(start) => match follow_offsets(m, process.is_wow64, start as usize, with_extra.offsets) {
                Err(e) => {},
                Ok(addr) => {
                    let rip = if with_extra.rip_relative {
                        resolve_rip(m, addr, with_extra.rip_offset)
                    } else {
                        Ok(addr)
                    };
                    match rip {
                        Err(e) => {},
                        Ok(x) => {
                            lemma_add_signed_zero(x);
                            lemma_add_signed_commutes_with_add(x, with_extra.extra, m.base);
                        },
                    }
                },
            },
        },
    }
}

/// A signature with no pointer chain, no displacement, no extra, asked for a
/// module-relative result, yields the offset at which its pattern first
/// occurs in the module's image.
pub proof fn law_plain_signature_locates_pattern(sig: SignatureView, process: Process)
    requires
        sig.offsets.len() == 0,
        !sig.rip_relative,
        sig.extra == 0,
        sig.relative,
    ensures
        scan(sig, process) == match module_named(process.modules@, sig.module) {
            None => Err(ScanError::ModuleNotFound),
            Some(m) => match pattern_position(encode_utf8(sig.pattern), m.data@) {
                None => Err(ScanError::PatternNotFound),
                Some(i) => Ok(i as usize),
            },
        },
{
    match module_named(process.modules@, sig.module) {
        None => {},
        Some(m) => match pattern_position(encode_utf8(sig.pattern), m.data@) {
            None => {},
            Some(i) => {
                lemma_add_signed_zero(i as usize);
            },
        },
    }
}


/// A signature with a single offset, no displacement and no extra, asked for
/// an absolute address, yields exactly the pointer stored at the pattern's
/// position plus that offset, whatever the pointer's value.
pub proof fn law_single_offset_reads_pointer(sig: SignatureView, process: Process)
    requires
        sig.offsets.len() == 1,
        !sig.rip_relative,
        sig.extra == 0,
        !sig.relative,
    ensures
        scan(sig, process) == match module_named(process.modules@, sig.module) {
            None => Err(ScanError::ModuleNotFound),
            Some(m) => match pattern_position(encode_utf8(sig.pattern), m.data@) {
                None => Err(ScanError::PatternNotFound),
                Some(i) => match pointer_at(
                    m.data@,
                    usize_specs::wrapping_add_signed(i as usize, sig.offsets[0]) as int,
                    process.is_wow64,
                ) {
                    None => Err(ScanError::OffsetOutOfBounds),
                    Some(p) => Ok(p),
                },
            },
        },
{
    match module_named(process.modules@, sig.module) {
        None => {},
        Some(m) => match pattern_position(encode_utf8(sig.pattern), m.data@) {
            None => {},
            Some(i) => {
                let offs = sig.offsets;
                assert(offs.drop_last() =~= Seq::<isize>::empty());
                assert(follow_offsets(m, process.is_wow64, i as usize, offs.drop_last()) == Ok::<usize, ScanError>(i as usize));
                match pointer_at(m.data@, usize_specs::wrapping_add_signed(i as usize, offs[0]) as int, process.is_wow64) {
                    None => {},
                    Some(p) => {
                        let a = usize_specs::wrapping_sub(p, m.base);
                        lemma_add_signed_zero(a);
                    },
                }
            },
        },
    }
}

/// The instruction-relative step reads a little-endian `u32` displacement at
/// the pattern's position plus the displacement offset and counts it from the
/// end of those four bytes.
pub proof fn law_rip_displacement_counts_from_its_end(sig: SignatureView, process: Process)
    requires
        sig.offsets.len() == 0,
        sig.rip_relative,
        sig.extra == 0,
        sig.relative,
    ensures
        match module_named(process.modules@, sig.module) {
            None => scan(sig, process) == Err::<usize, ScanError>(ScanError::ModuleNotFound),
            Some(m) => match pattern_position(encode_utf8(sig.pattern), m.data@) {
                None => scan(sig, process) == Err::<usize, ScanError>(ScanError::PatternNotFound),
                Some(i) => {
                    let at = usize_specs::wrapping_add_signed(i as usize, sig.rip_offset) as int;
                    let d = m.data@;
                    if at + 4 <= d.len() {
                        scan(sig, process) == Ok::<usize, ScanError>(
                            usize_specs::wrapping_add(
                                usize_specs::wrapping_add(
                                    at as usize,
                                    (d[at] + 0x100 * d[at + 1] + 0x1_0000 * d[at + 2] + 0x100_0000
                                        * d[at + 3]) as usize,
                                ),
                                4,
                            ),
                        )
                    } else {
                        scan(sig, process) == Err::<usize, ScanError>(ScanError::RIPRelativeFailed)
                    }
                },
            },
        },
{
    match module_named(process.modules@, sig.module) {
        None => {},
        Some(m) => match pattern_position(encode_utf8(sig.pattern), m.data@) {
            None => {},
            Some(i) => {
                let at = usize_specs::wrapping_add_signed(i as usize, sig.rip_offset);
                crate::image::law_pointer_is_little_endian(m.data@, at as int, true);
                match resolve_rip(m, i as usize, sig.rip_offset) {
                    Err(e) => {},
                    Ok(x) => {
                        lemma_add_signed_zero(x);
                    },
                }
            },
        },
    }
}

/// The last step of a pointer chain reads a pointer: the absolute result of
/// a chain is the pointer stored at the module-relative result of the chain
/// without its last offset, plus that offset.
pub proof fn law_chain_ends_in_stored_pointer(full: SignatureView, prefix: SignatureView, process: Process)
    requires
        full.pattern == prefix.pattern,
        full.module == prefix.module,
        full.offsets.len() > 0,
        prefix.offsets == full.offsets.drop_last(),
        !full.rip_relative,
        !prefix.rip_relative,
        full.extra == 0,
        prefix.extra == 0,
        !full.relative,
        prefix.relative,
    ensures
        match module_named(process.modules@, full.module) {
            None => scan(full, process) == Err::<usize, ScanError>(ScanError::ModuleNotFound),
            Some(m) => scan(full, process) == match scan(prefix, process) {
                Err(e) => Err(e),
                Ok(a) => match pointer_at(
                    m.data@,
                    usize_specs::wrapping_add_signed(a, full.offsets.last()) as int,
                    process.is_wow64,
                ) {
                    None => Err(ScanError::OffsetOutOfBounds),
                    Some(p) => Ok(p),
                },
            },
        },
{
    match module_named(process.modules@, full.module) {
        None => {},
        Some(m) => match pattern_position(encode_utf8(full.pattern), m.data@) {
            None => {},
            Some(i) => {
                match follow_offsets(m, process.is_wow64, i as usize, prefix.offsets) {
                    Err(e) => {},
                    Ok(b) => {
                        lemma_add_signed_zero(b);
                        match pointer_at(m.data@, usize_specs::wrapping_add_signed(b, full.offsets.last()) as int, process.is_wow64) {
                            None => {},
                            Some(p) => {
                                lemma_add_signed_zero(usize_specs::wrapping_sub(p, m.base));
                            },
                        }
                    },
                }
            },
        },
    }
}

} // verus!
