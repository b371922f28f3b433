//! Discovery of the program interpreter that an ELF executable names.
//!
//! [`parse_elf_interpreter`] reads a whole file image and reports what is wrong with it. The
//! other functions follow the kernel: they decide, from the parts of a file that were read,
//! whether the kernel would run it and with which interpreter.

use vstd::prelude::*;
use vstd::slice::slice_subrange;

use crate::error::{self, Error, ErrorModel};
use crate::text::{self, copy_bytes, find_byte, utf8_text};

verus! {

/// How much of a file is read for its ELF header.
pub const ELF_HEADER_PREFIX_LEN: usize = 64;

/// The longest program header table that is read.
pub const ELF_PROGRAM_HEADER_TABLE_MAX_LEN: usize = 1048576;

/// The longest interpreter path that is read, with its terminator.
pub const ELF_INTERPRETER_MAX_LEN: u64 = 4096;

// ---------------------------------------------------------------------------
// Numbers in a byte image
// ---------------------------------------------------------------------------

/// The 16-bit number at `o`.
pub open spec fn u16_at(b: Seq<u8>, o: int, little: bool) -> int {
    if little {
        b[o] + 256 * b[o + 1]
    } else {
        256 * b[o] + b[o + 1]
    }
}

/// The 32-bit number at `o`.
pub open spec fn u32_at(b: Seq<u8>, o: int, little: bool) -> int {
    if little {
        u16_at(b, o, little) + 65536 * u16_at(b, o + 2, little)
    } else {
        65536 * u16_at(b, o, little) + u16_at(b, o + 2, little)
    }
}

/// The 64-bit number at `o`.
pub open spec fn u64_at(b: Seq<u8>, o: int, little: bool) -> int {
    if little {
        u32_at(b, o, little) + 4294967296 * u32_at(b, o + 4, little)
    } else {
        4294967296 * u32_at(b, o, little) + u32_at(b, o + 4, little)
    }
}

/// Whether `n` bytes can be read at `o`, and the error if not.
pub open spec fn read_error(b: Seq<u8>, o: int, n: int) -> Option<ErrorModel> {
    if o + n > usize::MAX {
        Some(error::failure("ELF header offset overflow"@))
    } else if o + n > b.len() {
        Some(error::failure("ELF header read out of bounds"@))
    } else {
        None
    }
}

/// What reading a number gives: the number where all its bytes are there.
pub open spec fn reads(b: Seq<u8>, o: int, n: int, value: int) -> Result<int, ErrorModel> {
    match read_error(b, o, n) {
        Some(e) => Err(e),
        None => Ok(value),
    }
}

fn check_read(bytes: &[u8], offset: usize, len: usize) -> (r: Result<(), Error>)
    ensures
        match r {
            Ok(_) => read_error(bytes@, offset as int, len as int) is None,
            Err(e) => read_error(bytes@, offset as int, len as int) == Some(e@),
        },
{
    match offset.checked_add(len) {
        None => Err(Error::msg("ELF header offset overflow".to_owned())),
        Some(end) => {
            if end > bytes.len() {
                Err(Error::msg("ELF header read out of bounds".to_owned()))
            } else {
                Ok(())
            }
        },
    }
}

fn get_u16(b: &[u8], o: usize, little: bool) -> (r: u16)
    requires
        o + 2 <= b@.len(),
    ensures
        r == u16_at(b@, o as int, little),
{
    let x: u16 = b[o] as u16;
    let y: u16 = b[o + 1] as u16;
    if little {
        x + 256 * y
    } else {
        256 * x + y
    }
}

fn get_u32(b: &[u8], o: usize, little: bool) -> (r: u32)
    requires
        o + 4 <= b@.len(),
    ensures
        r == u32_at(b@, o as int, little),
{
    assert(b.len() == b@.len());
    let x: u32 = get_u16(b, o, little) as u32;
    let y: u32 = get_u16(b, o + 2, little) as u32;
    if little {
        x + 65536 * y
    } else {
        65536 * x + y
    }
}

fn get_u64(b: &[u8], o: usize, little: bool) -> (r: u64)
    requires
        o + 8 <= b@.len(),
    ensures
        r == u64_at(b@, o as int, little),
{
    assert(b.len() == b@.len());
    let x: u64 = get_u32(b, o, little) as u64;
    let y: u64 = get_u32(b, o + 4, little) as u64;
    if little {
        x + 4294967296 * y
    } else {
        4294967296 * x + y
    }
}

/// Reads a 16-bit number, in the given byte order.
pub fn read_u16(bytes: &[u8], offset: usize, little_endian: bool) -> (r: Result<u16, Error>)
    ensures
        match r {
            Ok(v) => reads(bytes@, offset as int, 2, u16_at(bytes@, offset as int, little_endian))
                == Ok::<int, ErrorModel>(v as int),
            Err(e) => read_error(bytes@, offset as int, 2) == Some(e@),
        },
{
    match check_read(bytes, offset, 2) {
        Ok(_) => Ok(get_u16(bytes, offset, little_endian)),
        Err(e) => Err(e),
    }
}

/// Reads a 32-bit number, in the given byte order.
pub fn read_u32(bytes: &[u8], offset: usize, little_endian: bool) -> (r: Result<u32, Error>)
    ensures
        match r {
            Ok(v) => reads(bytes@, offset as int, 4, u32_at(bytes@, offset as int, little_endian))
                == Ok::<int, ErrorModel>(v as int),
            Err(e) => read_error(bytes@, offset as int, 4) == Some(e@),
        },
{
    match check_read(bytes, offset, 4) {
        Ok(_) => Ok(get_u32(bytes, offset, little_endian)),
        Err(e) => Err(e),
    }
}

/// Reads a 64-bit number, in the given byte order.
pub fn read_u64(bytes: &[u8], offset: usize, little_endian: bool) -> (r: Result<u64, Error>)
    ensures
        match r {
            Ok(v) => reads(bytes@, offset as int, 8, u64_at(bytes@, offset as int, little_endian))
                == Ok::<int, ErrorModel>(v as int),
            Err(e) => read_error(bytes@, offset as int, 8) == Some(e@),
        },
{
    match check_read(bytes, offset, 8) {
        Ok(_) => Ok(get_u64(bytes, offset, little_endian)),
        Err(e) => Err(e),
    }
}

/// What reading a 64-bit number as a size gives: a number above the largest size is an error that
/// names `what`.
pub open spec fn size_at(b: Seq<u8>, o: int, little: bool, what: Seq<char>) -> Result<
    int,
    ErrorModel,
> {
    match read_error(b, o, 8) {
        Some(e) => Err(e),
        None => if u64_at(b, o, little) > usize::MAX {
            Err(
                error::caused(
                    what + " exceeds addressable size"@,
                    error::failure("out of range integral type conversion attempted"@),
                ),
            )
        } else {
            Ok(u64_at(b, o, little))
        },
    }
}

/// Reads a 64-bit number as a size.
pub fn read_u64_usize(bytes: &[u8], offset: usize, little_endian: bool, context: &str) -> (r: Result<
    usize,
    Error,
>)
    ensures
        match r {
            Ok(v) => size_at(bytes@, offset as int, little_endian, context@) == Ok::<
                int,
                ErrorModel,
            >(v as int),
            Err(e) => size_at(bytes@, offset as int, little_endian, context@) == Err::<
                int,
                ErrorModel,
            >(e@),
        },
{
    match read_u64(bytes, offset, little_endian) {
        Err(e) => Err(e),
        Ok(v) => {
            if v > usize::MAX as u64 {
                let mut message = context.to_owned();
                message.append(" exceeds addressable size");
                let cause = Error::msg(
                    "out of range integral type conversion attempted".to_owned(),
                );
                Err(Error::with_source(message, cause))
            } else {
                Ok(v as usize)
            }
        },
    }
}

// ---------------------------------------------------------------------------
// A whole file image
// ---------------------------------------------------------------------------

/// Whether the bytes begin with the ELF magic number.
pub open spec fn has_elf_magic(b: Seq<u8>) -> bool {
    b.len() >= 4 && b[0] == 0x7f && b[1] == 0x45 && b[2] == 0x4c && b[3] == 0x46
}

/// Whether the bytes begin with the ELF magic number.
pub fn starts_with_elf_magic(b: &[u8]) -> (r: bool)
    ensures
        r == has_elf_magic(b@),
{
    b.len() >= 4 && b[0] == 0x7f && b[1] == 0x45 && b[2] == 0x4c && b[3] == 0x46
}

/// The bytes of a path field before its terminator, if it has one.
pub open spec fn terminated(interp: Seq<u8>) -> Option<Seq<u8>> {
    let nul = text::first_where(interp, text::is_byte(0));
    if 0 <= nul < interp.len() {
        Some(interp.take(nul))
    } else {
        None
    }
}

/// The bytes of a path field before its terminator.
pub fn elf_interpreter_path<'a>(interp: &'a [u8]) -> (r: Option<&'a [u8]>)
    ensures
        match r {
            Some(path) => terminated(interp@) == Some(path@),
            None => terminated(interp@) is None,
        },
{
    let nul: usize = find_byte(interp, 0);
    if nul < interp.len() {
        let path = slice_subrange(interp, 0, nul);
        assert(path@ =~= interp@.take(nul as int));
        Some(path)
    } else {
        None
    }
}

/// Where the program headers lie: offset, size of one, how many, and the least size of one.
pub struct ProgramHeaders {
    pub offset: usize,
    pub entry_size: usize,
    pub count: usize,
    pub min_entry_size: usize,
}

/// Reads the place of the program headers. `None` stands for an unknown class.
pub open spec fn program_headers(b: Seq<u8>, little: bool) -> Result<
    Option<ProgramHeaders>,
    ErrorModel,
> {
    if b[4] == 1 {
        match (read_error(b, 28, 4), read_error(b, 42, 2), read_error(b, 44, 2)) {
            (Some(e), _, _) => Err(e),
            (None, Some(e), _) => Err(e),
            (None, None, Some(e)) => Err(e),
            (None, None, None) => Ok(
                Some(
                    ProgramHeaders {
                        offset: u32_at(b, 28, little) as usize,
                        entry_size: u16_at(b, 42, little) as usize,
                        count: u16_at(b, 44, little) as usize,
                        min_entry_size: 32,
                    },
                ),
            ),
        }
    } else if b[4] == 2 {
        match (
            size_at(b, 32, little, "ELF program header offset"@),
            read_error(b, 54, 2),
            read_error(b, 56, 2),
        ) {
            (Err(e), _, _) => Err(e),
            (Ok(_), Some(e), _) => Err(e),
            (Ok(_), None, Some(e)) => Err(e),
            (Ok(offset), None, None) => Ok(
                Some(
                    ProgramHeaders {
                        offset: offset as usize,
                        entry_size: u16_at(b, 54, little) as usize,
                        count: u16_at(b, 56, little) as usize,
                        min_entry_size: 56,
                    },
                ),
            ),
        }
    } else {
        Ok(None)
    }
}

/// The place of the interpreter path, as the program header at `start` states it.
pub open spec fn interpreter_range(b: Seq<u8>, start: int, little: bool) -> Result<
    (int, int),
    ErrorModel,
> {
    if b[4] == 1 {
        Ok((u32_at(b, start + 4, little), u32_at(b, start + 16, little)))
    } else {
        match (
            size_at(b, start + 8, little, "ELF interpreter segment offset"@),
            size_at(b, start + 32, little, "ELF interpreter segment size"@),
        ) {
            (Err(e), _) => Err(e),
            (Ok(_), Err(e)) => Err(e),
            (Ok(offset), Ok(size)) => Ok((offset, size)),
        }
    }
}

/// The interpreter path at a place in the file. An empty path stands for no interpreter.
pub open spec fn interpreter_text(b: Seq<u8>, offset: int, size: int) -> Result<
    Option<Seq<char>>,
    ErrorModel,
> {
    if offset + size > usize::MAX {
        Err(error::failure("ELF interpreter segment offset overflow"@))
    } else if offset + size > b.len() {
        Err(error::failure("ELF interpreter segment exceeds file size"@))
    } else {
        match terminated(b.subrange(offset, offset + size)) {
            None => Err(error::failure("ELF interpreter path is not NUL-terminated"@)),
            Some(path) => if !vstd::utf8::valid_utf8(path) {
                Err(
                    error::caused(
                        "ELF interpreter path is not valid UTF-8"@,
                        error::failure(text::utf8_error_text(path)),
                    ),
                )
            } else if vstd::utf8::decode_utf8(path).len() == 0 {
                Ok(None)
            } else {
                Ok(Some(vstd::utf8::decode_utf8(path)))
            },
        }
    }
}

/// The interpreter named by the first of the program headers from `index` on that names one.
/// Every header before it has to lie within the file.
pub open spec fn first_interpreter(b: Seq<u8>, little: bool, h: ProgramHeaders, index: int) -> Result<
    Option<Seq<char>>,
    ErrorModel,
>
    decreases h.count - index,
{
    let start = h.offset + index * h.entry_size;
    if index >= h.count {
        Ok(None)
    } else if start + h.entry_size > usize::MAX {
        Err(error::failure("ELF program header offset overflow"@))
    } else if start + h.entry_size > b.len() {
        Err(error::failure("ELF program header exceeds file size"@))
    } else if u32_at(b, start, little) != 3 {
        first_interpreter(b, little, h, index + 1)
    } else {
        match interpreter_range(b, start, little) {
            Err(e) => Err(e),
            Ok((offset, size)) => interpreter_text(b, offset, size),
        }
    }
}

/// The interpreter that a file image names.
pub open spec fn image_interpreter(b: Seq<u8>) -> Result<Option<Seq<char>>, ErrorModel> {
    if b.len() < 0x34 || !has_elf_magic(b) || !(b[5] == 1 || b[5] == 2) {
        Ok(None)
    } else {
        let little = b[5] == 1;
        match program_headers(b, little) {
            Err(e) => Err(e),
            Ok(None) => Ok(None),
            Ok(Some(h)) => if h.entry_size < h.min_entry_size {
                Err(error::failure("ELF program header entry too small"@))
            } else {
                first_interpreter(b, little, h, 0)
            },
        }
    }
}

/// A result as its contract speaks of it.
pub open spec fn interpreter_result(r: Result<Option<String>, Error>) -> Result<
    Option<Seq<char>>,
    ErrorModel,
> {
    match r {
        Ok(Some(s)) => Ok(Some(s@)),
        Ok(None) => Ok(None),
        Err(e) => Err(e@),
    }
}

fn read_program_headers(bytes: &[u8], little: bool) -> (r: Result<Option<ProgramHeaders>, Error>)
    requires
        bytes@.len() >= 0x34,
    ensures
        match r {
            Ok(h) => program_headers(bytes@, little) == Ok::<Option<ProgramHeaders>, ErrorModel>(h),
            Err(e) => program_headers(bytes@, little) == Err::<Option<ProgramHeaders>, ErrorModel>(
                e@,
            ),
        },
        r matches Ok(Some(h)) ==> h.entry_size <= 65535 && h.count <= 65535
            && h.min_entry_size == if bytes@[4] == 1 { 32usize } else { 56usize },
{
    if bytes[4] == 1 {
        let offset: u32 = match read_u32(bytes, 28, little) {
            Ok(v) => v,
            Err(e) => return Err(e),
        };
        let entry_size: u16 = match read_u16(bytes, 42, little) {
            Ok(v) => v,
            Err(e) => return Err(e),
        };
        let count: u16 = match read_u16(bytes, 44, little) {
            Ok(v) => v,
            Err(e) => return Err(e),
        };
        Ok(
            Some(
                ProgramHeaders {
                    offset: offset as usize,
                    entry_size: entry_size as usize,
                    count: count as usize,
                    min_entry_size: 32,
                },
            ),
        )
    } else if bytes[4] == 2 {
        let offset: usize = match read_u64_usize(bytes, 32, little, "ELF program header offset") {
            Ok(v) => v,
            Err(e) => return Err(e),
        };
        let entry_size: u16 = match read_u16(bytes, 54, little) {
            Ok(v) => v,
            Err(e) => return Err(e),
        };
        let count: u16 = match read_u16(bytes, 56, little) {
            Ok(v) => v,
            Err(e) => return Err(e),
        };
        Ok(
            Some(
                ProgramHeaders {
                    offset,
                    entry_size: entry_size as usize,
                    count: count as usize,
                    min_entry_size: 56,
                },
            ),
        )
    } else {
        Ok(None)
    }
}

fn read_interpreter_text(bytes: &[u8], offset: usize, size: usize) -> (r: Result<
    Option<String>,
    Error,
>)
    ensures
        interpreter_result(r) == interpreter_text(bytes@, offset as int, size as int),
{
    let end: usize = match offset.checked_add(size) {
        Some(end) => end,
        None => return Err(Error::msg("ELF interpreter segment offset overflow".to_owned())),
    };
    if end > bytes.len() {
        return Err(Error::msg("ELF interpreter segment exceeds file size".to_owned()));
    }
    let interp = slice_subrange(bytes, offset, end);
    let path = match elf_interpreter_path(interp) {
        Some(path) => path,
        None => return Err(Error::msg("ELF interpreter path is not NUL-terminated".to_owned())),
    };
    match utf8_text(path) {
        Err(e) => Err(
            Error::with_source(
                "ELF interpreter path is not valid UTF-8".to_owned(),
                Error::msg(e),
            ),
        ),
        Ok(s) => {
            if s.as_str().is_empty() {
                Ok(None)
            } else {
                Ok(Some(s))
            }
        },
    }
}

/// The interpreter that an ELF file image names. `Ok(None)` stands for an image that is not ELF
/// or that names none.
pub fn parse_elf_interpreter(bytes: &[u8]) -> (r: Result<Option<String>, Error>)
    ensures
        interpreter_result(r) == image_interpreter(bytes@),
{
    if bytes.len() < 0x34 || !starts_with_elf_magic(bytes) {
        return Ok(None);
    }
    if bytes[5] != 1 && bytes[5] != 2 {
        return Ok(None);
    }
    let little = bytes[5] == 1;
    let h = match read_program_headers(bytes, little) {
        Err(e) => return Err(e),
        Ok(None) => return Ok(None),
        Ok(Some(h)) => h,
    };
    if h.entry_size < h.min_entry_size {
        return Err(Error::msg("ELF program header entry too small".to_owned()));
    }
    let mut index: usize = 0;
    while index < h.count
        invariant
            index <= h.count <= 65535,
            h.min_entry_size <= h.entry_size <= 65535,
            h.min_entry_size == if bytes@[4] == 1 { 32usize } else { 56usize },
            bytes@.len() >= 0x34,
            image_interpreter(bytes@) == first_interpreter(bytes@, little, h, index as int),
        decreases h.count - index,
    {
        proof {
            assert(index * h.entry_size <= 65535 * 65535) by (nonlinear_arith)
                requires
                    index <= 65535,
                    h.entry_size <= 65535,
            ;
        }
        let relative: usize = index * h.entry_size;
        let start: usize = match h.offset.checked_add(relative) {
            Some(start) => start,
            None => return Err(Error::msg("ELF program header offset overflow".to_owned())),
        };
        let end: usize = match start.checked_add(h.entry_size) {
            Some(end) => end,
            None => return Err(Error::msg("ELF program header offset overflow".to_owned())),
        };
        if end > bytes.len() {
            return Err(Error::msg("ELF program header exceeds file size".to_owned()));
        }
        if get_u32(bytes, start, little) == 3 {
            if bytes[4] == 1 {
                let offset: usize = get_u32(bytes, start + 4, little) as usize;
                let size: usize = get_u32(bytes, start + 16, little) as usize;
                return read_interpreter_text(bytes, offset, size);
            }
            let offset: usize = match read_u64_usize(
                bytes,
                start + 8,
                little,
                "ELF interpreter segment offset",
            ) {
                Ok(v) => v,
                Err(e) => return Err(e),
            };
            let size: usize = match read_u64_usize(
                bytes,
                start + 32,
                little,
                "ELF interpreter segment size",
            ) {
                Ok(v) => v,
                Err(e) => return Err(e),
            };
            return read_interpreter_text(bytes, offset, size);
        }
        index = index + 1;
    }
    Ok(None)
}

// ---------------------------------------------------------------------------
// What the kernel runs
// ---------------------------------------------------------------------------

/// A processor architecture.
#[derive(Clone, Copy, Debug, PartialEq, Eq, Structural)]
pub enum Arch {
    X86,
    X86_64,
    Arm,
    Aarch64,
    Riscv64,
    Loongarch64,
    Powerpc,
    Powerpc64,
    S390x,
    Other,
}

/// The ELF machine numbers that an architecture runs. None are known for another architecture.
pub open spec fn machines(arch: Arch) -> Seq<u16> {
    match arch {
        Arch::X86 => seq![3u16],
        Arch::X86_64 => seq![62u16, 3u16],
        Arch::Arm => seq![40u16],
        Arch::Aarch64 => seq![183u16, 40u16],
        Arch::Riscv64 => seq![243u16],
        Arch::Loongarch64 => seq![258u16],
        Arch::Powerpc => seq![20u16],
        Arch::Powerpc64 => seq![21u16, 20u16],
        Arch::S390x => seq![22u16],
        Arch::Other => Seq::empty(),
    }
}

/// The ELF machine numbers that an architecture runs.
pub fn executable_elf_machines(arch: Arch) -> (r: Vec<u16>)
    ensures
        r@ == machines(arch),
{
    let mut out: Vec<u16> = Vec::new();
    match arch {
        Arch::X86 => {
            out.push(3);
        },
        Arch::X86_64 => {
            out.push(62);
            out.push(3);
        },
        Arch::Arm => {
            out.push(40);
        },
        Arch::Aarch64 => {
            out.push(183);
            out.push(40);
        },
        Arch::Riscv64 => {
            out.push(243);
        },
        Arch::Loongarch64 => {
            out.push(258);
        },
        Arch::Powerpc => {
            out.push(20);
        },
        Arch::Powerpc64 => {
            out.push(21);
            out.push(20);
        },
        Arch::S390x => {
            out.push(22);
        },
        Arch::Other => {},
    }
    proof {
        assert(out@ =~= machines(arch));
    }
    out
}

/// Whether the architecture may run an ELF file for `machine`. Where no machine number is known,
/// every file may run.
pub open spec fn may_execute(arch: Arch, machine: u16) -> bool {
    machines(arch).len() == 0 || machines(arch).contains(machine)
}

/// Whether the architecture may run an ELF file for `machine`.
pub fn elf_machine_may_execute(arch: Arch, machine: u16) -> (r: bool)
    ensures
        r == may_execute(arch, machine),
{
    let known = executable_elf_machines(arch);
    if known.len() == 0 {
        return true;
    }
    let mut i: usize = 0;
    while i < known.len()
        invariant
            i <= known@.len(),
            known@ == machines(arch),
            forall|j: int| 0 <= j < i ==> known@[j] != machine,
        decreases known@.len() - i,
    {
        if known[i] == machine {
            assert(known@[i as int] == machine);
            return true;
        }
        i = i + 1;
    }
    false
}

/// Whether a file in one order of bytes runs on a machine with the same or the other one.
pub open spec fn runs_order(little_endian: bool, native_little_endian: bool) -> bool {
    little_endian == native_little_endian
}

/// Whether a machine of the given byte order may run an ELF file of the given byte order.
pub fn elf_data_may_execute(little_endian: bool, native_little_endian: bool) -> (r: bool)
    ensures
        r == runs_order(little_endian, native_little_endian),
        r == (little_endian == native_little_endian),
{
    if native_little_endian {
        little_endian
    } else {
        !little_endian
    }
}

/// What is needed of an ELF header to read and judge the program headers.
#[derive(Clone, Copy, Debug, PartialEq, Eq, Structural)]
pub struct ElfHeader {
    pub wide: bool,
    pub little_endian: bool,
    pub table_offset: u64,
    pub count: usize,
    pub entry: u64,
}

impl ElfHeader {
    /// The size of one program header.
    pub open spec fn entry_size(self) -> int {
        if self.wide {
            56
        } else {
            32
        }
    }

    /// The size of the program header table.
    pub open spec fn table_len(self) -> int {
        self.start_of(self.count as int)
    }

    /// Where the program header at `index` begins in the table.
    pub open spec fn start_of(self, index: int) -> int {
        if self.wide {
            index * 56
        } else {
            index * 32
        }
    }

    /// The header of a file that the kernel goes on to read.
    pub open spec fn wf(self) -> bool {
        self.count <= 65535 && self.table_len() <= ELF_PROGRAM_HEADER_TABLE_MAX_LEN
    }

    /// The size of the program header table.
    pub fn table_size(&self) -> (r: usize)
        requires
            self.wf(),
        ensures
            r == self.table_len(),
    {
        if self.wide {
            self.count * 56
        } else {
            self.count * 32
        }
    }
}

/// The header that the first bytes of a file hold, if the kernel would accept it: the native byte
/// order and machine, an executable or shared object, and program headers of exactly the native
/// size in a table of a bounded length.
#[verifier::opaque]
pub open spec fn accepted_header(b: Seq<u8>, arch: Arch, native_little: bool) -> Option<ElfHeader> {
    let little = b[5] == 1;
    let wide = b[4] == 2;
    let e_type = u16_at(b, 16, little);
    let table_offset = if wide { u64_at(b, 32, little) } else { u32_at(b, 28, little) };
    let entry_size = if wide { u16_at(b, 54, little) } else { u16_at(b, 42, little) };
    let count = if wide { u16_at(b, 56, little) } else { u16_at(b, 44, little) };
    let entry = if wide { u64_at(b, 24, little) } else { u32_at(b, 24, little) };
    let h = ElfHeader {
        wide,
        little_endian: little,
        table_offset: table_offset as u64,
        count: count as usize,
        entry: entry as u64,
    };
    if b.len() < 0x34 || !has_elf_magic(b) {
        None
    } else if !(b[5] == 1 || b[5] == 2) || little != native_little {
        None
    } else if !(e_type == 2 || e_type == 3) || !may_execute(arch, u16_at(b, 18, little) as u16) {
        None
    } else if !(b[4] == 1 || b[4] == 2) || (wide && b.len() < 0x40) {
        None
    } else if table_offset > usize::MAX || entry_size != h.entry_size() {
        None
    } else if h.table_len() > ELF_PROGRAM_HEADER_TABLE_MAX_LEN {
        None
    } else {
        Some(h)
    }
}

/// Judges the first bytes of a file as an ELF header.
pub fn elf_header(header: &[u8], arch: Arch, native_little_endian: bool) -> (r: Option<ElfHeader>)
    ensures
        r == accepted_header(header@, arch, native_little_endian),
        r matches Some(h) ==> h.wf() && h.table_offset <= usize::MAX,
{
    proof {
        reveal(accepted_header);
    }
    if header.len() < 0x34 || !starts_with_elf_magic(header) {
        return None;
    }
    if header[5] != 1 && header[5] != 2 {
        return None;
    }
    let little = header[5] == 1;
    if !elf_data_may_execute(little, native_little_endian) {
        return None;
    }
    let e_type: u16 = get_u16(header, 16, little);
    if e_type != 2 && e_type != 3 {
        return None;
    }
    let machine: u16 = get_u16(header, 18, little);
    if !elf_machine_may_execute(arch, machine) {
        return None;
    }
    if header[4] != 1 && header[4] != 2 {
        return None;
    }
    let wide = header[4] == 2;
    if wide && header.len() < 0x40 {
        return None;
    }
    let table_offset: u64 = if wide {
        get_u64(header, 32, little)
    } else {
        get_u32(header, 28, little) as u64
    };
    if table_offset > usize::MAX as u64 {
        return None;
    }
    let entry_size: u16 = if wide {
        get_u16(header, 54, little)
    } else {
        get_u16(header, 42, little)
    };
    let count: u16 = if wide {
        get_u16(header, 56, little)
    } else {
        get_u16(header, 44, little)
    };
    let entry: u64 = if wide {
        get_u64(header, 24, little)
    } else {
        get_u32(header, 24, little) as u64
    };
    if entry_size != if wide { 56u16 } else { 32u16 } {
        return None;
    }
    let len: usize = if wide {
        count as usize * 56
    } else {
        count as usize * 32
    };
    if len > ELF_PROGRAM_HEADER_TABLE_MAX_LEN {
        return None;
    }
    Some(ElfHeader { wide, little_endian: little, table_offset, count: count as usize, entry })
}

/// One program header.
#[derive(Clone, Copy, Debug, PartialEq, Eq, Structural)]
pub struct Segment {
    pub kind: u32,
    pub offset: u64,
    pub file_size: u64,
    pub address: u64,
    pub memory_size: u64,
    pub flags: u32,
}

/// The program header at `index` of a table.
#[verifier::opaque]
pub open spec fn segment_of(h: ElfHeader, table: Seq<u8>, index: int) -> Segment {
    let start = h.start_of(index);
    let l = h.little_endian;
    if h.wide {
        Segment {
            kind: u32_at(table, start, l) as u32,
            offset: u64_at(table, start + 8, l) as u64,
            file_size: u64_at(table, start + 32, l) as u64,
            address: u64_at(table, start + 16, l) as u64,
            memory_size: u64_at(table, start + 40, l) as u64,
            flags: u32_at(table, start + 4, l) as u32,
        }
    } else {
        Segment {
            kind: u32_at(table, start, l) as u32,
            offset: u32_at(table, start + 4, l) as u64,
            file_size: u32_at(table, start + 16, l) as u64,
            address: u32_at(table, start + 8, l) as u64,
            memory_size: u32_at(table, start + 20, l) as u64,
            flags: u32_at(table, start + 24, l) as u32,
        }
    }
}

/// The program headers of a table.
pub open spec fn segments(h: ElfHeader, table: Seq<u8>) -> Seq<Segment> {
    Seq::new(h.count as nat, |i: int| segment_of(h, table, i))
}

fn read_segment(h: &ElfHeader, table: &[u8], index: usize) -> (r: Segment)
    requires
        h.wf(),
        table@.len() == h.table_len(),
        index < h.count,
    ensures
        r == segment_of(*h, table@, index as int),
        r == segments(*h, table@)[index as int],
{
    proof {
        reveal(segment_of);
        assert(table.len() == table@.len());
    }
    let l = h.little_endian;
    if h.wide {
        let start: usize = index * 56;
        Segment {
            kind: get_u32(table, start, l),
            offset: get_u64(table, start + 8, l),
            file_size: get_u64(table, start + 32, l),
            address: get_u64(table, start + 16, l),
            memory_size: get_u64(table, start + 40, l),
            flags: get_u32(table, start + 4, l),
        }
    } else {
        let start: usize = index * 32;
        Segment {
            kind: get_u32(table, start, l),
            offset: get_u32(table, start + 4, l) as u64,
            file_size: get_u32(table, start + 16, l) as u64,
            address: get_u32(table, start + 8, l) as u64,
            memory_size: get_u32(table, start + 20, l) as u64,
            flags: get_u32(table, start + 24, l),
        }
    }
}

impl Segment {
    pub open spec fn is_load(self) -> bool {
        self.kind == 1
    }

    pub open spec fn is_interpreter(self) -> bool {
        self.kind == 3
    }

    /// Whether the place and the size in the file can be addressed.
    pub open spec fn addressable(self) -> bool {
        self.offset <= usize::MAX && self.file_size <= usize::MAX
    }

    /// A loadable segment that the kernel can map: no more bytes in the file than in memory, and
    /// an end that does not wrap around.
    pub open spec fn mappable(self) -> bool {
        &&& self.addressable()
        &&& self.file_size <= self.memory_size
        &&& self.address + self.memory_size <= u64::MAX
    }

    /// Whether `entry` lies in this segment and may be executed there.
    pub open spec fn runs(self, entry: u64) -> bool {
        &&& self.is_load()
        &&& self.flags % 2 == 1
        &&& self.address <= entry < self.address + self.memory_size
        &&& self.address + self.memory_size <= u64::MAX
    }

    /// Whether an interpreter path of an accepted length lies within a file of `file_len` bytes.
    pub open spec fn holds_path(self, file_len: int) -> bool {
        &&& self.addressable()
        &&& 0 < self.file_size <= ELF_INTERPRETER_MAX_LEN
        &&& self.offset + self.file_size <= file_len
        &&& self.offset + self.file_size <= u64::MAX
    }
}

/// Whether a loadable segment has no more bytes in the file than in memory, and an end that does
/// not wrap around.
pub fn elf_load_segment_is_valid(file_size: u64, address: u64, memory_size: u64) -> (r: bool)
    ensures
        r == (file_size <= memory_size && address + memory_size <= u64::MAX),
{
    file_size <= memory_size && address.checked_add(memory_size).is_some()
}

/// Whether `entry` lies in a loadable segment that may be executed.
pub fn elf_entry_is_in_executable_load_segment(
    entry: u64,
    address: u64,
    memory_size: u64,
    flags: u32,
) -> (r: bool)
    ensures
        r == (flags % 2 == 1 && address + memory_size <= u64::MAX && address <= entry < address
            + memory_size),
{
    if flags % 2 != 1 || memory_size == 0 {
        return false;
    }
    match address.checked_add(memory_size) {
        None => false,
        Some(end) => address <= entry && entry < end,
    }
}

/// Whether a range lies within a file.
pub fn elf_file_range_is_valid(offset: u64, size: u64, file_len: u64) -> (r: bool)
    ensures
        r == (offset + size <= file_len),
{
    match offset.checked_add(size) {
        None => false,
        Some(end) => end <= file_len,
    }
}

/// What the kernel would do with a file that has an accepted header.
#[derive(Debug, PartialEq, Eq)]
pub enum ElfInterpreter {
    /// It runs the file with the interpreter of this path.
    Interpreter(Vec<u8>),
    /// It runs the file by itself.
    NoInterpreter,
    /// It refuses the file.
    Invalid,
}

/// What an [`ElfInterpreter`] says, with the path as a sequence of bytes.
pub enum ElfModel {
    Interpreter(Seq<u8>),
    NoInterpreter,
    Invalid,
}

impl View for ElfInterpreter {
    type V = ElfModel;

    open spec fn view(&self) -> ElfModel {
        match *self {
            ElfInterpreter::Interpreter(path) => ElfModel::Interpreter(path@),
            ElfInterpreter::NoInterpreter => ElfModel::NoInterpreter,
            ElfInterpreter::Invalid => ElfModel::Invalid,
        }
    }
}

pub open spec fn interpreter_pred() -> spec_fn(Segment) -> bool {
    |s: Segment| s.is_interpreter()
}

/// The index of the first program header that names an interpreter, or their number.
pub open spec fn interpreter_index(s: Seq<Segment>) -> int {
    text::first_where(s, interpreter_pred())
}

/// Whether every loadable segment at an index from `from` up to `to` can be mapped.
pub open spec fn loads_mappable(s: Seq<Segment>, from: int, to: int) -> bool {
    forall|i: int| from <= i < to && (#[trigger] s[i]).is_load() ==> s[i].mappable()
}

/// Whether a loadable segment is there.
pub open spec fn any_load(s: Seq<Segment>) -> bool {
    exists|i: int| 0 <= i < s.len() && (#[trigger] s[i]).is_load()
}

/// Whether the entry point lies in a loadable segment that may be executed.
pub open spec fn entry_runs(s: Seq<Segment>, entry: u64) -> bool {
    exists|i: int| 0 <= i < s.len() && (#[trigger] s[i]).runs(entry)
}

/// What the kernel does with a file, judged by its program headers, its length and the bytes of
/// the first interpreter path.
pub open spec fn judged(
    h: ElfHeader,
    s: Seq<Segment>,
    file_len: int,
    path_field: Seq<u8>,
) -> ElfModel {
    let k = interpreter_index(s);
    if !loads_mappable(s, 0, s.len() as int) || !any_load(s) {
        ElfModel::Invalid
    } else if k >= s.len() {
        if entry_runs(s, h.entry) {
            ElfModel::NoInterpreter
        } else {
            ElfModel::Invalid
        }
    } else if !s[k].holds_path(file_len) {
        ElfModel::Invalid
    } else {
        match terminated(path_field) {
            None => ElfModel::Invalid,
            Some(path) => if path.len() == 0 {
                ElfModel::Invalid
            } else {
                ElfModel::Interpreter(path)
            },
        }
    }
}

/// What to do once the program headers have been read.
#[derive(Debug, PartialEq, Eq)]
pub enum ElfPlan {
    /// The interpreter path has to be read: `len` bytes at `offset`. It is named by the program
    /// header at `index`.
    Read { index: usize, offset: u64, len: usize },
    /// The kernel's decision is known.
    Done(ElfInterpreter),
}

/// Judges the program headers up to the first one that names an interpreter.
pub fn elf_plan(h: &ElfHeader, table: &[u8], file_len: u64) -> (r: ElfPlan)
    requires
        h.wf(),
        table@.len() == h.table_len(),
    ensures
        ({
            let s = segments(*h, table@);
            let k = interpreter_index(s);
            match r {
                ElfPlan::Read { index, offset, len } => {
                    &&& k < s.len()
                    &&& index == k
                    &&& offset == s[k].offset
                    &&& len == s[k].file_size
                    &&& s[k].holds_path(file_len as int)
                    &&& loads_mappable(s, 0, k)
                },
                ElfPlan::Done(d) => {
                    ||| d@ == ElfModel::Invalid && !loads_mappable(s, 0, k)
                    ||| d@ == ElfModel::Invalid && k < s.len() && !s[k].holds_path(file_len as int)
                    ||| k >= s.len() && d@ == judged(*h, s, file_len as int, Seq::empty())
                },
            }
        }),
{
    let ghost s = segments(*h, table@);
    let mut has_load = false;
    let mut has_entry = false;
    let mut i: usize = 0;
    while i < h.count
        invariant
            h.wf(),
            table@.len() == h.table_len(),
            s == segments(*h, table@),
            i <= h.count,
            forall|j: int| 0 <= j < i ==> !(#[trigger] s[j]).is_interpreter(),
            loads_mappable(s, 0, i as int),
            has_load == (exists|j: int| 0 <= j < i && (#[trigger] s[j]).is_load()),
            has_entry == (exists|j: int| 0 <= j < i && (#[trigger] s[j]).runs(h.entry)),
        decreases h.count - i,
    {
        let seg = read_segment(h, table, i);
        if seg.kind == 3 {
            proof {
                text::lemma_first_where(s, interpreter_pred(), i as int);
            }
            if seg.offset > usize::MAX as u64 || seg.file_size > usize::MAX as u64
                || seg.file_size == 0 || seg.file_size > ELF_INTERPRETER_MAX_LEN
                || !elf_file_range_is_valid(seg.offset, seg.file_size, file_len) {
                return ElfPlan::Done(ElfInterpreter::Invalid);
            }
            return ElfPlan::Read { index: i, offset: seg.offset, len: seg.file_size as usize };
        }
        if seg.kind == 1 {
            if seg.offset > usize::MAX as u64 || seg.file_size > usize::MAX as u64
                || !elf_load_segment_is_valid(seg.file_size, seg.address, seg.memory_size) {
                proof {
                    text::lemma_first_where_bounds(s, interpreter_pred());
                    let k = interpreter_index(s);
                    assert(k > i) by {
                        if k <= i && k < s.len() {
                            assert(s[k].is_interpreter());
                        }
                    }
                    assert(s[i as int].is_load() && !s[i as int].mappable());
                }
                return ElfPlan::Done(ElfInterpreter::Invalid);
            }
            has_load = true;
            assert(s[i as int].is_load());
            if elf_entry_is_in_executable_load_segment(
                h.entry,
                seg.address,
                seg.memory_size,
                seg.flags,
            ) {
                has_entry = true;
                assert(s[i as int].runs(h.entry));
            }
        }
        i = i + 1;
    }
    proof {
        text::lemma_first_where(s, interpreter_pred(), s.len() as int);
    }
    if has_load && has_entry {
        ElfPlan::Done(ElfInterpreter::NoInterpreter)
    } else {
        ElfPlan::Done(ElfInterpreter::Invalid)
    }
}

/// Judges the rest of a file once the interpreter path that [`elf_plan`] asked for was read.
pub fn elf_finish(h: &ElfHeader, table: &[u8], index: usize, path_field: &[u8]) -> (r: ElfInterpreter)
    requires
        h.wf(),
        table@.len() == h.table_len(),
        index < h.count,
    ensures
        ({
            let s = segments(*h, table@);
            r@ == match terminated(path_field@) {
                None => ElfModel::Invalid,
                Some(path) => if path.len() == 0 || !any_load(s) || !loads_mappable(
                    s,
                    index + 1,
                    s.len() as int,
                ) {
                    ElfModel::Invalid
                } else {
                    ElfModel::Interpreter(path)
                },
            }
        }),
{
    let ghost s = segments(*h, table@);
    let path = match elf_interpreter_path(path_field) {
        None => return ElfInterpreter::Invalid,
        Some(path) => path,
    };
    if path.len() == 0 {
        return ElfInterpreter::Invalid;
    }
    let mut has_load = false;
    let mut i: usize = 0;
    while i < h.count
        invariant
            h.wf(),
            table@.len() == h.table_len(),
            s == segments(*h, table@),
            i <= h.count,
            index < h.count,
            loads_mappable(s, index + 1, i as int),
            has_load == (exists|j: int| 0 <= j < i && (#[trigger] s[j]).is_load()),
        decreases h.count - i,
    {
        let seg = read_segment(h, table, i);
        if seg.kind == 1 {
            if i > index && (seg.offset > usize::MAX as u64 || seg.file_size > usize::MAX as u64
                || !elf_load_segment_is_valid(seg.file_size, seg.address, seg.memory_size)) {
                assert(s[i as int].is_load() && !s[i as int].mappable());
                return ElfInterpreter::Invalid;
            }
            has_load = true;
            assert(s[i as int].is_load());
        }
        i = i + 1;
    }
    if has_load {
        let found = copy_bytes(path);
        ElfInterpreter::Interpreter(found)
    } else {
        ElfInterpreter::Invalid
    }
}

/// What the kernel does with a file of the given contents.
pub open spec fn kernel_choice(file: Seq<u8>, arch: Arch, native_little: bool) -> ElfModel {
    let prefix = if file.len() < ELF_HEADER_PREFIX_LEN {
        file
    } else {
        file.take(ELF_HEADER_PREFIX_LEN as int)
    };
    match accepted_header(prefix, arch, native_little) {
        None => ElfModel::Invalid,
        Some(h) => if h.table_offset + h.table_len() > file.len() {
            ElfModel::Invalid
        } else {
            let table = file.subrange(h.table_offset as int, h.table_offset + h.table_len());
            let s = segments(h, table);
            let k = interpreter_index(s);
            let field = if k < s.len() && s[k].holds_path(file.len() as int) {
                file.subrange(s[k].offset as int, s[k].offset + s[k].file_size)
            } else {
                Seq::empty()
            };
            judged(h, s, file.len() as int, field)
        },
    }
}

/// Judges a file that is held in memory.
pub fn read_elf_interpreter(file: &[u8], arch: Arch, native_little_endian: bool) -> (r:
    ElfInterpreter)
    ensures
        r@ == kernel_choice(file@, arch, native_little_endian),
{
    let prefix_len: usize = if file.len() < ELF_HEADER_PREFIX_LEN {
        file.len()
    } else {
        ELF_HEADER_PREFIX_LEN
    };
    let prefix = slice_subrange(file, 0, prefix_len);
    proof {
        if file@.len() < ELF_HEADER_PREFIX_LEN {
            assert(prefix@ =~= file@);
        } else {
            assert(prefix@ =~= file@.take(ELF_HEADER_PREFIX_LEN as int));
        }
    }
    let h = match elf_header(prefix, arch, native_little_endian) {
        None => return ElfInterpreter::Invalid,
        Some(h) => h,
    };
    let len: usize = h.table_size();
    let offset: usize = h.table_offset as usize;
    if offset > file.len() || len > file.len() - offset {
        return ElfInterpreter::Invalid;
    }
    let table = slice_subrange(file, offset, offset + len);
    let ghost s = segments(h, table@);
    let ghost k = interpreter_index(s);
    proof {
        text::lemma_first_where_bounds(s, interpreter_pred());
    }
    match elf_plan(&h, table, file.len() as u64) {
        ElfPlan::Done(d) => {
            proof {
                if k < s.len() {
                    if !loads_mappable(s, 0, k) {
                        assert(!loads_mappable(s, 0, s.len() as int));
                    }
                }
            }
            d
        },
        ElfPlan::Read { index, offset: at, len: size } => {
            assert(file.len() == file@.len());
            let start: usize = at as usize;
            let field = slice_subrange(file, start, start + size);
            let r = elf_finish(&h, table, index, field);
            proof {
                assert(s[k].is_interpreter());
                assert(loads_mappable(s, 0, s.len() as int) <==> loads_mappable(
                    s,
                    k + 1,
                    s.len() as int,
                )) by {
                    if loads_mappable(s, k + 1, s.len() as int) {
                        assert forall|i: int| 0 <= i < s.len() && (#[trigger] s[i]).is_load()
                            implies s[i].mappable() by {
                            if i < k {
                                assert(loads_mappable(s, 0, k));
                            }
                        }
                    }
                }
            }
            r
        },
    }
}

// ---------------------------------------------------------------------------
// Reading by pieces
// ---------------------------------------------------------------------------

/// The bytes of a file from `offset` on, as many as there are up to `len`.
pub open spec fn window(file: Seq<u8>, offset: int, len: int) -> Seq<u8> {
    if offset >= file.len() {
        Seq::empty()
    } else if offset + len > file.len() {
        file.skip(offset)
    } else {
        file.subrange(offset, offset + len)
    }
}

/// The first bytes of a file.
pub open spec fn prefix_of(file: Seq<u8>) -> Seq<u8> {
    if file.len() < ELF_HEADER_PREFIX_LEN {
        file
    } else {
        file.take(ELF_HEADER_PREFIX_LEN as int)
    }
}

/// The place of the first interpreter path, by the program headers.
pub open spec fn path_place(h: ElfHeader, table: Seq<u8>) -> (int, int) {
    let s = segments(h, table);
    let k = interpreter_index(s);
    (s[k].offset as int, s[k].file_size as int)
}

/// The pieces of a file that were read so far.
#[derive(Debug)]
pub struct ElfPieces {
    /// The first bytes.
    pub header: Vec<u8>,
    /// How long the file is.
    pub file_len: u64,
    /// The program headers, once they were read.
    pub table: Option<Vec<u8>>,
    /// The interpreter path, once it was read.
    pub path: Option<Vec<u8>>,
}

/// Whether the pieces are those of a file.
pub open spec fn pieces_of(p: ElfPieces, file: Seq<u8>, arch: Arch, native_little: bool) -> bool {
    &&& p.header@ == prefix_of(file)
    &&& p.file_len == file.len()
    &&& match (accepted_header(p.header@, arch, native_little), p.table) {
        (Some(h), Some(table)) => {
            &&& table@ == window(file, h.table_offset as int, h.table_len())
            &&& match p.path {
                Some(path) => path@ == window(
                    file,
                    path_place(h, table@).0,
                    path_place(h, table@).1,
                ),
                None => true,
            }
        },
        _ => true,
    }
}

/// What has to be read next, or what the kernel does with the file.
#[derive(Debug)]
pub enum ElfAsk {
    ReadTable { offset: u64, len: usize },
    ReadPath { offset: u64, len: usize },
    Done(ElfInterpreter),
}

/// Judges a file of which only pieces are read: the program headers and the interpreter path are
/// asked for where they are needed.
pub fn read_elf_interpreter_from_file(p: &ElfPieces, arch: Arch, native_little_endian: bool) -> (r:
    ElfAsk)
    ensures
        match r {
            ElfAsk::Done(d) => forall|file: Seq<u8>| #[trigger]
                pieces_of(*p, file, arch, native_little_endian) ==> d@ == kernel_choice(
                    file,
                    arch,
                    native_little_endian,
                ),
            ElfAsk::ReadTable { offset, len } => p.table is None && match accepted_header(
                p.header@,
                arch,
                native_little_endian,
            ) {
                Some(h) => offset == h.table_offset && len == h.table_len(),
                None => false,
            },
            ElfAsk::ReadPath { offset, len } => p.path is None && match (
                accepted_header(p.header@, arch, native_little_endian),
                p.table,
            ) {
                (Some(h), Some(table)) => {
                    let s = segments(h, table@);
                    let k = interpreter_index(s);
                    &&& k < s.len()
                    &&& s[k].holds_path(p.file_len as int)
                    &&& (offset as int, len as int) == path_place(h, table@)
                },
                _ => false,
            },
        },
{
    let ghost native = native_little_endian;
    let h = match elf_header(p.header.as_slice(), arch, native_little_endian) {
        None => return ElfAsk::Done(ElfInterpreter::Invalid),
        Some(h) => h,
    };
    let len: usize = h.table_size();
    let table = match &p.table {
        None => return ElfAsk::ReadTable { offset: h.table_offset, len },
        Some(table) => table.as_slice(),
    };
    if table.len() != len {
        return ElfAsk::Done(ElfInterpreter::Invalid);
    }
    let ghost s = segments(h, table@);
    let ghost k = interpreter_index(s);
    proof {
        text::lemma_first_where_bounds(s, interpreter_pred());
    }
    match elf_plan(&h, table, p.file_len) {
        ElfPlan::Done(d) => {
            proof {
                if k < s.len() && !loads_mappable(s, 0, k) {
                    assert(!loads_mappable(s, 0, s.len() as int));
                }
                assert forall|file: Seq<u8>| #[trigger] pieces_of(
                    *p,
                    file,
                    arch,
                    native,
                ) implies d@ == kernel_choice(file, arch, native) by {
                    if h.table_len() > 0 {
                        lemma_table_fits(h, file, table@);
                    } else {
                        let other = file.subrange(
                            h.table_offset as int,
                            h.table_offset + h.table_len(),
                        );
                        assert(!any_load(segments(h, other)));
                        assert(!any_load(s));
                    }
                }
            }
            ElfAsk::Done(d)
        },
        ElfPlan::Read { index, offset, len: size } => {
            let field = match &p.path {
                None => return ElfAsk::ReadPath { offset, len: size },
                Some(field) => field.as_slice(),
            };
            let d = elf_finish(&h, table, index, field);
            proof {
                assert(s[k].is_interpreter());
                assert(loads_mappable(s, 0, s.len() as int) <==> loads_mappable(
                    s,
                    k + 1,
                    s.len() as int,
                )) by {
                    if loads_mappable(s, k + 1, s.len() as int) {
                        assert forall|i: int| 0 <= i < s.len() && (#[trigger] s[i]).is_load()
                            implies s[i].mappable() by {
                            if i < k {
                                assert(loads_mappable(s, 0, k));
                            }
                        }
                    }
                }
                assert forall|file: Seq<u8>| #[trigger] pieces_of(
                    *p,
                    file,
                    arch,
                    native,
                ) implies d@ == kernel_choice(file, arch, native) by {
                    lemma_table_fits(h, file, table@);
                }
            }
            ElfAsk::Done(d)
        },
    }
}

proof fn lemma_table_fits(h: ElfHeader, file: Seq<u8>, table: Seq<u8>)
    requires
        table == window(file, h.table_offset as int, h.table_len()),
        table.len() == h.table_len(),
        h.table_len() > 0,
    ensures
        h.table_offset + h.table_len() <= file.len(),
        table == file.subrange(h.table_offset as int, h.table_offset + h.table_len()),
{
}

} // verus!
