//! What the judgement of a binary promises, stated of the bytes of the file.

use vstd::prelude::*;

use crate::elf::{self, Arch, ElfHeader, ElfModel};
use crate::text;

verus! {

/// The number that `len` bytes at `at` write.
pub open spec fn number(b: Seq<u8>, at: int, len: nat, little: bool) -> int
    decreases len,
{
    if len == 0 {
        0
    } else if little {
        b[at] + 256 * number(b, at + 1, (len - 1) as nat, little)
    } else {
        256 * number(b, at, (len - 1) as nat, little) + b[at + len - 1]
    }
}

proof fn lemma_half(b: Seq<u8>, at: int, little: bool)
    ensures
        number(b, at, 2, little) == elf::u16_at(b, at, little),
{
    reveal_with_fuel(number, 3);
}

proof fn lemma_word(b: Seq<u8>, at: int, little: bool)
    ensures
        number(b, at, 4, little) == elf::u32_at(b, at, little),
{
    reveal_with_fuel(number, 5);
}

proof fn lemma_long(b: Seq<u8>, at: int, little: bool)
    ensures
        number(b, at, 8, little) == elf::u64_at(b, at, little),
{
    reveal_with_fuel(number, 9);
}

/// Every number that a binary holds is the sum of its bytes, each worth 256 times its lower
/// neighbour, which comes first in one byte order and last in the other.
pub proof fn law_numbers_are_read_byte_by_byte(b: Seq<u8>, at: int, little: bool)
    ensures
        elf::u16_at(b, at, little) == number(b, at, 2, little),
        elf::u32_at(b, at, little) == number(b, at, 4, little),
        elf::u64_at(b, at, little) == number(b, at, 8, little),
{
    lemma_half(b, at, little);
    lemma_word(b, at, little);
    lemma_long(b, at, little);
}

/// The machines that each architecture runs, by number. Of another architecture nothing is known,
/// and every machine may run there.
pub proof fn law_machines_by_number(machine: u16)
    ensures
        elf::may_execute(Arch::X86, machine) <==> machine == 3,
        elf::may_execute(Arch::X86_64, machine) <==> machine == 62 || machine == 3,
        elf::may_execute(Arch::Arm, machine) <==> machine == 40,
        elf::may_execute(Arch::Aarch64, machine) <==> machine == 183 || machine == 40,
        elf::may_execute(Arch::Riscv64, machine) <==> machine == 243,
        elf::may_execute(Arch::Loongarch64, machine) <==> machine == 258,
        elf::may_execute(Arch::Powerpc, machine) <==> machine == 20,
        elf::may_execute(Arch::Powerpc64, machine) <==> machine == 21 || machine == 20,
        elf::may_execute(Arch::S390x, machine) <==> machine == 22,
        elf::may_execute(Arch::Other, machine),
{
    assert(elf::machines(Arch::X86)[0] == 3);
    assert(elf::machines(Arch::X86_64)[0] == 62 && elf::machines(Arch::X86_64)[1] == 3);
    assert(elf::machines(Arch::Arm)[0] == 40);
    assert(elf::machines(Arch::Aarch64)[0] == 183 && elf::machines(Arch::Aarch64)[1] == 40);
    assert(elf::machines(Arch::Riscv64)[0] == 243);
    assert(elf::machines(Arch::Loongarch64)[0] == 258);
    assert(elf::machines(Arch::Powerpc)[0] == 20);
    assert(elf::machines(Arch::Powerpc64)[0] == 21 && elf::machines(Arch::Powerpc64)[1] == 20);
    assert(elf::machines(Arch::S390x)[0] == 22);
}

/// Where a field stands: at `narrow` in a 32-bit file and at `wide` in a 64-bit file.
pub open spec fn pick(is_wide: bool, narrow: int, wide: int) -> int {
    if is_wide {
        wide
    } else {
        narrow
    }
}

/// How many bytes an address has.
pub open spec fn word_len(wide: bool) -> nat {
    if wide {
        8
    } else {
        4
    }
}

/// Whether the first bytes are those of a binary for this machine: the magic number, the class,
/// the byte order, one of the two types that can be run, the machine, and the right size of a
/// program header, of which there are at most a mebibyte.
pub open spec fn runnable_header(b: Seq<u8>, arch: Arch, wide: bool, little: bool) -> bool {
    &&& b.len() >= pick(wide, 52, 64)
    &&& b[0] == 0x7f
    &&& b[1] == 0x45
    &&& b[2] == 0x4c
    &&& b[3] == 0x46
    &&& b[4] == pick(wide, 1, 2)
    &&& b[5] == if little {
        1int
    } else {
        2
    }
    &&& number(b, 16, 2, little) == 2 || number(b, 16, 2, little) == 3
    &&& elf::may_execute(arch, number(b, 18, 2, little) as u16)
    &&& table_start(b, wide, little) <= usize::MAX
    &&& number(b, pick(wide, 42, 54), 2, little) == pick(wide, 32, 56)
    &&& header_count(b, wide, little) * pick(wide, 32, 56) <= 1048576
}

/// Where the program headers begin.
pub open spec fn table_start(b: Seq<u8>, wide: bool, little: bool) -> int {
    number(b, pick(wide, 28, 32), word_len(wide), little)
}

/// How many program headers there are.
pub open spec fn header_count(b: Seq<u8>, wide: bool, little: bool) -> int {
    number(b, pick(wide, 44, 56), 2, little)
}

proof fn lemma_fields(b: Seq<u8>, little: bool)
    ensures
        number(b, 16, 2, little) == elf::u16_at(b, 16, little),
        number(b, 18, 2, little) == elf::u16_at(b, 18, little),
        number(b, 28, 4, little) == elf::u32_at(b, 28, little),
        number(b, 32, 8, little) == elf::u64_at(b, 32, little),
        number(b, 24, 4, little) == elf::u32_at(b, 24, little),
        number(b, 24, 8, little) == elf::u64_at(b, 24, little),
        number(b, 42, 2, little) == elf::u16_at(b, 42, little),
        number(b, 54, 2, little) == elf::u16_at(b, 54, little),
        number(b, 44, 2, little) == elf::u16_at(b, 44, little),
        number(b, 56, 2, little) == elf::u16_at(b, 56, little),
{
    lemma_half(b, 16, little);
    lemma_half(b, 18, little);
    lemma_word(b, 28, little);
    lemma_long(b, 32, little);
    lemma_word(b, 24, little);
    lemma_long(b, 24, little);
    lemma_half(b, 42, little);
    lemma_half(b, 54, little);
    lemma_half(b, 44, little);
    lemma_half(b, 56, little);
}

/// A header is accepted exactly where it is that of a binary for this machine, of either class.
/// What is taken from it stands where the class says.
pub proof fn law_accepted_headers(b: Seq<u8>, arch: Arch, little: bool)
    ensures
        elf::accepted_header(b, arch, little) is Some <==> runnable_header(b, arch, true, little)
            || runnable_header(b, arch, false, little),
        elf::accepted_header(b, arch, little) matches Some(h) ==> {
            &&& runnable_header(b, arch, h.wide, little)
            &&& h.little_endian == little
            &&& h.table_offset == table_start(b, h.wide, little)
            &&& h.count == header_count(b, h.wide, little)
            &&& h.entry == number(b, 24, word_len(h.wide), little)
        },
{
    reveal(elf::accepted_header);
    lemma_fields(b, little);
}

/// Whether two files differ at most in their type.
pub open spec fn same_but_type(a: Seq<u8>, b: Seq<u8>) -> bool {
    a.len() == b.len() && forall|i: int|
        0 <= i < a.len() && i != 16 && i != 17 ==> #[trigger] a[i] == b[i]
}

/// A position-independent program is judged like any other: the two types that can be run make no
/// difference.
pub proof fn law_both_types_are_judged_alike(a: Seq<u8>, b: Seq<u8>, arch: Arch, little: bool)
    requires
        same_but_type(a, b),
        number(a, 16, 2, little) == 2 || number(a, 16, 2, little) == 3,
        number(b, 16, 2, little) == 2 || number(b, 16, 2, little) == 3,
    ensures
        elf::accepted_header(a, arch, little) == elf::accepted_header(b, arch, little),
{
    reveal(elf::accepted_header);
    lemma_half(a, 16, little);
    lemma_half(b, 16, little);
}

// ---------------------------------------------------------------------------
// Whole files
// ---------------------------------------------------------------------------

/// Where the program header at `i` begins in a file.
pub open spec fn header_at(b: Seq<u8>, wide: bool, little: bool, i: int) -> int {
    table_start(b, wide, little) + i * pick(wide, 32, 56)
}

/// What the program header at `i` is for.
pub open spec fn kind_at(b: Seq<u8>, wide: bool, little: bool, i: int) -> int {
    number(b, header_at(b, wide, little, i), 4, little)
}

/// An address or a size in the program header at `i`.
pub open spec fn field_at(
    b: Seq<u8>,
    wide: bool,
    little: bool,
    i: int,
    narrow: int,
    broad: int,
) -> int {
    number(b, header_at(b, wide, little, i) + pick(wide, narrow, broad), word_len(wide), little)
}

pub open spec fn offset_at(b: Seq<u8>, wide: bool, little: bool, i: int) -> int {
    field_at(b, wide, little, i, 4, 8)
}

pub open spec fn address_at(b: Seq<u8>, wide: bool, little: bool, i: int) -> int {
    field_at(b, wide, little, i, 8, 16)
}

pub open spec fn file_size_at(b: Seq<u8>, wide: bool, little: bool, i: int) -> int {
    field_at(b, wide, little, i, 16, 32)
}

pub open spec fn memory_size_at(b: Seq<u8>, wide: bool, little: bool, i: int) -> int {
    field_at(b, wide, little, i, 20, 40)
}

/// The flags in the program header at `i`.
pub open spec fn flags_at(b: Seq<u8>, wide: bool, little: bool, i: int) -> int {
    number(b, header_at(b, wide, little, i) + pick(wide, 24, 4), 4, little)
}

/// Whether a segment that is to be loaded can be: it has no more bytes in the file than in memory,
/// and its end can be addressed.
pub open spec fn can_be_loaded(b: Seq<u8>, wide: bool, little: bool, i: int) -> bool {
    &&& offset_at(b, wide, little, i) <= usize::MAX
    &&& file_size_at(b, wide, little, i) <= usize::MAX
    &&& file_size_at(b, wide, little, i) <= memory_size_at(b, wide, little, i)
    &&& address_at(b, wide, little, i) + memory_size_at(b, wide, little, i) <= 0xffff_ffff_ffff_ffff
}

/// Whether a file has a good header, all its program headers, something to load, and nothing to
/// load that cannot be.
pub open spec fn loadable(b: Seq<u8>, arch: Arch, wide: bool, little: bool) -> bool {
    &&& runnable_header(b, arch, wide, little)
    &&& header_at(b, wide, little, header_count(b, wide, little)) <= b.len()
    &&& exists|i: int|
        0 <= i < header_count(b, wide, little) && #[trigger] kind_at(b, wide, little, i) == 1
    &&& forall|i: int|
        0 <= i < header_count(b, wide, little) && #[trigger] kind_at(b, wide, little, i) == 1
            ==> can_be_loaded(b, wide, little, i)
}

/// Whether the program header at `k` is the first that names an interpreter.
pub open spec fn names_interpreter(b: Seq<u8>, wide: bool, little: bool, k: int) -> bool {
    &&& 0 <= k < header_count(b, wide, little)
    &&& kind_at(b, wide, little, k) == 3
    &&& forall|i: int| 0 <= i < k ==> #[trigger] kind_at(b, wide, little, i) != 3
}

proof fn lemma_subrange_number(b: Seq<u8>, from: int, to: int, at: int, len: nat, little: bool)
    requires
        0 <= from <= from + at,
        from + at + len <= to <= b.len(),
        0 <= at,
    ensures
        number(b.subrange(from, to), at, len, little) == number(b, from + at, len, little),
    decreases len,
{
    if len > 0 {
        if little {
            lemma_subrange_number(b, from, to, at + 1, (len - 1) as nat, little);
        } else {
            lemma_subrange_number(b, from, to, at, (len - 1) as nat, little);
        }
    }
}

proof fn lemma_number_bound(b: Seq<u8>, at: int, len: nat, little: bool)
    ensures
        0 <= number(b, at, len, little),
        len == 2 ==> number(b, at, len, little) <= 0xffff,
        len == 4 ==> number(b, at, len, little) <= 0xffff_ffff,
        len == 8 ==> number(b, at, len, little) <= 0xffff_ffff_ffff_ffff,
    decreases len,
{
    if len > 0 {
        if little {
            lemma_number_bound(b, at + 1, (len - 1) as nat, little);
        } else {
            lemma_number_bound(b, at, (len - 1) as nat, little);
        }
        if len == 2 {
            lemma_half(b, at, little);
        } else if len == 4 {
            lemma_word(b, at, little);
        } else if len == 8 {
            lemma_long(b, at, little);
        }
    }
}

/// The header of a file, of which only the first bytes are looked at.
proof fn lemma_front(b: Seq<u8>, arch: Arch, wide: bool, little: bool)
    requires
        b.len() >= 64,
    ensures
        runnable_header(b.take(64), arch, wide, little) == runnable_header(b, arch, wide, little),
        table_start(b.take(64), wide, little) == table_start(b, wide, little),
        header_count(b.take(64), wide, little) == header_count(b, wide, little),
        number(b.take(64), 24, word_len(wide), little) == number(b, 24, word_len(wide), little),
{
    assert(b.take(64) =~= b.subrange(0, 64));
    lemma_subrange_number(b, 0, 64, 16, 2, little);
    lemma_subrange_number(b, 0, 64, 18, 2, little);
    lemma_subrange_number(b, 0, 64, pick(wide, 28, 32), word_len(wide), little);
    lemma_subrange_number(b, 0, 64, pick(wide, 42, 54), 2, little);
    lemma_subrange_number(b, 0, 64, pick(wide, 44, 56), 2, little);
    lemma_subrange_number(b, 0, 64, 24, word_len(wide), little);
}

/// The header that is read from a whole file.
spec fn header_of(b: Seq<u8>, arch: Arch, little: bool) -> Option<ElfHeader> {
    elf::accepted_header(
        if b.len() < 64 {
            b
        } else {
            b.take(64)
        },
        arch,
        little,
    )
}

proof fn lemma_header(b: Seq<u8>, arch: Arch, little: bool)
    ensures
        header_of(b, arch, little) is Some <==> runnable_header(b, arch, true, little)
            || runnable_header(b, arch, false, little),
        header_of(b, arch, little) matches Some(h) ==> {
            &&& runnable_header(b, arch, h.wide, little)
            &&& h.little_endian == little
            &&& h.table_offset == table_start(b, h.wide, little)
            &&& h.count == header_count(b, h.wide, little)
            &&& h.entry == number(b, 24, word_len(h.wide), little)
        },
{
    if b.len() < 64 {
        law_accepted_headers(b, arch, little);
    } else {
        law_accepted_headers(b.take(64), arch, little);
        lemma_front(b, arch, true, little);
        lemma_front(b, arch, false, little);
    }
}

spec fn table_of(b: Seq<u8>, h: ElfHeader) -> Seq<u8> {
    b.subrange(h.table_offset as int, h.table_offset + h.table_len())
}

proof fn lemma_segment(b: Seq<u8>, h: ElfHeader, i: int)
    requires
        h.table_offset == table_start(b, h.wide, h.little_endian),
        h.table_offset + h.table_len() <= b.len(),
        0 <= i < h.count,
    ensures
        ({
            let s = elf::segment_of(h, table_of(b, h), i);
            let (w, l) = (h.wide, h.little_endian);
            &&& s.kind == kind_at(b, w, l, i)
            &&& s.offset == offset_at(b, w, l, i)
            &&& s.file_size == file_size_at(b, w, l, i)
            &&& s.address == address_at(b, w, l, i)
            &&& s.memory_size == memory_size_at(b, w, l, i)
            &&& s.flags == flags_at(b, w, l, i)
        }),
{
    reveal(elf::segment_of);
    let (w, l) = (h.wide, h.little_endian);
    let from = h.table_offset as int;
    let to = from + h.table_len();
    let t = table_of(b, h);
    let start = h.start_of(i);
    assert(start == i * pick(w, 32, 56));
    assert(start + pick(w, 32, 56) <= h.table_len()) by (nonlinear_arith)
        requires
            0 <= i < h.count,
            start == i * pick(w, 32, 56),
            h.table_len() == h.count * pick(w, 32, 56),
            pick(w, 32, 56) > 0,
    ;
    assert(start >= 0) by (nonlinear_arith)
        requires
            0 <= i,
            start == i * pick(w, 32, 56),
            pick(w, 32, 56) > 0,
    ;
    lemma_subrange_number(b, from, to, start, 4, l);
    lemma_word(t, start, l);
    lemma_number_bound(b, from + start, 4, l);
    if w {
        lemma_subrange_number(b, from, to, start + 4, 4, l);
        lemma_subrange_number(b, from, to, start + 8, 8, l);
        lemma_subrange_number(b, from, to, start + 16, 8, l);
        lemma_subrange_number(b, from, to, start + 32, 8, l);
        lemma_subrange_number(b, from, to, start + 40, 8, l);
        lemma_word(t, start + 4, l);
        lemma_long(t, start + 8, l);
        lemma_long(t, start + 16, l);
        lemma_long(t, start + 32, l);
        lemma_long(t, start + 40, l);
        lemma_number_bound(b, from + (start + 4), 4, l);
        lemma_number_bound(b, from + (start + 8), 8, l);
        lemma_number_bound(b, from + (start + 16), 8, l);
        lemma_number_bound(b, from + (start + 32), 8, l);
        lemma_number_bound(b, from + (start + 40), 8, l);
    } else {
        lemma_subrange_number(b, from, to, start + 4, 4, l);
        lemma_subrange_number(b, from, to, start + 8, 4, l);
        lemma_subrange_number(b, from, to, start + 16, 4, l);
        lemma_subrange_number(b, from, to, start + 20, 4, l);
        lemma_subrange_number(b, from, to, start + 24, 4, l);
        lemma_word(t, start + 4, l);
        lemma_word(t, start + 8, l);
        lemma_word(t, start + 16, l);
        lemma_word(t, start + 20, l);
        lemma_word(t, start + 24, l);
        lemma_number_bound(b, from + (start + 4), 4, l);
        lemma_number_bound(b, from + (start + 8), 4, l);
        lemma_number_bound(b, from + (start + 16), 4, l);
        lemma_number_bound(b, from + (start + 20), 4, l);
        lemma_number_bound(b, from + (start + 24), 4, l);
    }
}

proof fn lemma_segments(b: Seq<u8>, h: ElfHeader)
    requires
        h.table_offset == table_start(b, h.wide, h.little_endian),
        h.table_offset + h.table_len() <= b.len(),
    ensures
        ({
            let s = elf::segments(h, table_of(b, h));
            let (w, l) = (h.wide, h.little_endian);
            &&& s.len() == h.count
            &&& forall|i: int|
                0 <= i < h.count ==> {
                    &&& (#[trigger] s[i]).kind == kind_at(b, w, l, i)
                    &&& s[i].offset == offset_at(b, w, l, i)
                    &&& s[i].file_size == file_size_at(b, w, l, i)
                    &&& s[i].address == address_at(b, w, l, i)
                    &&& s[i].memory_size == memory_size_at(b, w, l, i)
                    &&& s[i].flags == flags_at(b, w, l, i)
                }
        }),
{
    let s = elf::segments(h, table_of(b, h));
    let (w, l) = (h.wide, h.little_endian);
    assert forall|i: int| 0 <= i < h.count implies {
        &&& (#[trigger] s[i]).kind == kind_at(b, w, l, i)
        &&& s[i].offset == offset_at(b, w, l, i)
        &&& s[i].file_size == file_size_at(b, w, l, i)
        &&& s[i].address == address_at(b, w, l, i)
        &&& s[i].memory_size == memory_size_at(b, w, l, i)
        &&& s[i].flags == flags_at(b, w, l, i)
    } by {
        lemma_segment(b, h, i);
    }
}

/// The class of a file is told by one byte, so a header cannot be good for both.
proof fn lemma_one_class(b: Seq<u8>, arch: Arch, wide: bool, little: bool)
    requires
        runnable_header(b, arch, wide, little),
    ensures
        header_of(b, arch, little) matches Some(h) && h.wide == wide,
{
    lemma_header(b, arch, little);
}

proof fn lemma_loadable(b: Seq<u8>, arch: Arch, h: ElfHeader)
    requires
        header_of(b, arch, h.little_endian) == Some(h),
    ensures
        ({
            let s = elf::segments(h, table_of(b, h));
            loadable(b, arch, h.wide, h.little_endian) <==> {
                &&& h.table_offset + h.table_len() <= b.len()
                &&& elf::loads_mappable(s, 0, s.len() as int)
                &&& elf::any_load(s)
            }
        }),
{
    let s = elf::segments(h, table_of(b, h));
    let (w, l) = (h.wide, h.little_endian);
    lemma_header(b, arch, l);
    assert(h.table_len() == h.count * pick(w, 32, 56));
    if h.table_offset + h.table_len() <= b.len() {
        lemma_segments(b, h);
        if loadable(b, arch, w, l) {
            let i = choose|i: int|
                0 <= i < header_count(b, w, l) && #[trigger] kind_at(b, w, l, i) == 1;
            assert(s[i].is_load());
            assert forall|j: int| 0 <= j < s.len() && (#[trigger] s[j]).is_load() implies
                s[j].mappable() by {
                assert(kind_at(b, w, l, j) == 1);
            }
        }
        if elf::loads_mappable(s, 0, s.len() as int) && elf::any_load(s) {
            let i = choose|i: int| 0 <= i < s.len() && (#[trigger] s[i]).is_load();
            assert(kind_at(b, w, l, i) == 1);
            assert forall|j: int|
                0 <= j < header_count(b, w, l) && #[trigger] kind_at(b, w, l, j) == 1 implies
                can_be_loaded(b, w, l, j) by {
                assert(s[j].is_load());
            }
        }
    }
}

proof fn lemma_interpreter_place(b: Seq<u8>, h: ElfHeader, k: int)
    requires
        h.table_offset == table_start(b, h.wide, h.little_endian),
        h.count == header_count(b, h.wide, h.little_endian),
        h.table_offset + h.table_len() <= b.len(),
        names_interpreter(b, h.wide, h.little_endian, k),
    ensures
        elf::interpreter_index(elf::segments(h, table_of(b, h))) == k,
{
    let s = elf::segments(h, table_of(b, h));
    lemma_segments(b, h);
    assert forall|i: int| 0 <= i < k implies !elf::interpreter_pred()(#[trigger] s[i]) by {
        assert(kind_at(b, h.wide, h.little_endian, i) != 3);
    }
    text::lemma_first_where(s, elf::interpreter_pred(), k);
}

/// A program with a loader is run by it: where the first program header that names an interpreter
/// points at a nonempty path with its terminator, of a length that is accepted and within the
/// file, that path is what is found. This holds of both classes, both byte orders, and both types.
pub proof fn law_loader_is_found(
    b: Seq<u8>,
    arch: Arch,
    wide: bool,
    little: bool,
    k: int,
    path: Seq<u8>,
)
    requires
        b.len() <= usize::MAX,
        loadable(b, arch, wide, little),
        names_interpreter(b, wide, little, k),
        path.len() > 0,
        !path.contains(0),
        path.len() < file_size_at(b, wide, little, k) <= 4096,
        offset_at(b, wide, little, k) + file_size_at(b, wide, little, k) <= b.len(),
        forall|j: int|
            0 <= j < path.len() ==> b[offset_at(b, wide, little, k) + j] == #[trigger] path[j],
        b[offset_at(b, wide, little, k) + path.len()] == 0,
    ensures
        elf::kernel_choice(b, arch, little) == ElfModel::Interpreter(path),
{
    lemma_one_class(b, arch, wide, little);
    lemma_header(b, arch, little);
    let h = header_of(b, arch, little)->0;
    lemma_loadable(b, arch, h);
    lemma_segments(b, h);
    lemma_interpreter_place(b, h, k);
    let s = elf::segments(h, table_of(b, h));
    let o = offset_at(b, wide, little, k);
    let n = file_size_at(b, wide, little, k);
    lemma_number_bound(b, header_at(b, wide, little, k) + pick(wide, 4, 8), word_len(wide), little);
    let field = b.subrange(o, o + n);
    assert(s[k].holds_path(b.len() as int));
    assert forall|j: int| 0 <= j < path.len() implies !text::is_byte(0)(#[trigger] field[j]) by {
        assert(field[j] == b[o + j] && b[o + j] == path[j]);
        assert(path.contains(path[j]));
    }
    assert(field[path.len() as int] == b[o + path.len()]);
    text::lemma_first_where(field, text::is_byte(0), path.len() as int);
    assert(field.take(path.len() as int) =~= path) by {
        assert forall|j: int| 0 <= j < path.len() implies field[j] == path[j] by {
            assert(field[j] == b[o + j] && b[o + j] == path[j]);
        }
    }
    assert(elf::terminated(field) == Some(path));
}

/// A program without a loader runs by itself exactly where its entry point lies in a loaded segment
/// that may be executed, and is refused otherwise.
pub proof fn law_static_program(b: Seq<u8>, arch: Arch, wide: bool, little: bool)
    requires
        loadable(b, arch, wide, little),
        forall|i: int|
            0 <= i < header_count(b, wide, little) ==> #[trigger] kind_at(b, wide, little, i) != 3,
    ensures
        elf::kernel_choice(b, arch, little) is NoInterpreter || elf::kernel_choice(
            b,
            arch,
            little,
        ) is Invalid,
        elf::kernel_choice(b, arch, little) is NoInterpreter <==> exists|i: int|
            {
                &&& 0 <= i < header_count(b, wide, little)
                &&& #[trigger] kind_at(b, wide, little, i) == 1
                &&& flags_at(b, wide, little, i) % 2 == 1
                &&& address_at(b, wide, little, i) <= number(b, 24, word_len(wide), little)
                &&& number(b, 24, word_len(wide), little) < address_at(b, wide, little, i)
                    + memory_size_at(b, wide, little, i)
            },
{
    lemma_one_class(b, arch, wide, little);
    lemma_header(b, arch, little);
    let h = header_of(b, arch, little)->0;
    lemma_loadable(b, arch, h);
    lemma_segments(b, h);
    let s = elf::segments(h, table_of(b, h));
    assert forall|i: int| 0 <= i < s.len() implies !elf::interpreter_pred()(#[trigger] s[i]) by {
        assert(kind_at(b, wide, little, i) != 3);
    }
    text::lemma_first_where(s, elf::interpreter_pred(), s.len() as int);
    let entry = number(b, 24, word_len(wide), little);
    if elf::entry_runs(s, h.entry) {
        let i = choose|i: int| 0 <= i < s.len() && (#[trigger] s[i]).runs(h.entry);
        assert(kind_at(b, wide, little, i) == 1);
    }
    if exists|i: int|
        {
            &&& 0 <= i < header_count(b, wide, little)
            &&& #[trigger] kind_at(b, wide, little, i) == 1
            &&& flags_at(b, wide, little, i) % 2 == 1
            &&& address_at(b, wide, little, i) <= entry
            &&& entry < address_at(b, wide, little, i) + memory_size_at(b, wide, little, i)
        } {
        let i = choose|i: int|
            {
                &&& 0 <= i < header_count(b, wide, little)
                &&& #[trigger] kind_at(b, wide, little, i) == 1
                &&& flags_at(b, wide, little, i) % 2 == 1
                &&& address_at(b, wide, little, i) <= entry
                &&& entry < address_at(b, wide, little, i) + memory_size_at(b, wide, little, i)
            };
        assert(can_be_loaded(b, wide, little, i));
        assert(s[i].runs(h.entry));
    }
}

/// Nothing else is taken for a program: whatever is not refused can be loaded, and an interpreter
/// that is found is the terminated path in the file that the first such program header points at.
pub proof fn law_the_rest_is_refused(b: Seq<u8>, arch: Arch, little: bool)
    ensures
        !(elf::kernel_choice(b, arch, little) is Invalid) ==> loadable(b, arch, true, little)
            || loadable(b, arch, false, little),
        elf::kernel_choice(b, arch, little) matches ElfModel::Interpreter(path) ==> exists|
            wide: bool,
            k: int,
        |
            {
                &&& #[trigger] names_interpreter(b, wide, little, k)
                &&& path.len() > 0
                &&& !path.contains(0)
                &&& path.len() < file_size_at(b, wide, little, k) <= 4096
                &&& offset_at(b, wide, little, k) + file_size_at(b, wide, little, k) <= b.len()
                &&& path == b.subrange(
                    offset_at(b, wide, little, k),
                    offset_at(b, wide, little, k) + path.len(),
                )
                &&& b[offset_at(b, wide, little, k) + path.len()] == 0
            },
{
    lemma_header(b, arch, little);
    if let Some(h) = header_of(b, arch, little) {
        lemma_loadable(b, arch, h);
        if h.table_offset + h.table_len() <= b.len() {
            lemma_segments(b, h);
            let s = elf::segments(h, table_of(b, h));
            if let ElfModel::Interpreter(path) = elf::kernel_choice(b, arch, little) {
                let k = elf::interpreter_index(s);
                text::lemma_first_where_bounds(s, elf::interpreter_pred());
                assert(elf::interpreter_pred()(s[k]));
                assert forall|i: int| 0 <= i < k implies #[trigger] kind_at(
                    b,
                    h.wide,
                    little,
                    i,
                ) != 3 by {
                    assert(!elf::interpreter_pred()(s[i]));
                }
                assert(names_interpreter(b, h.wide, little, k));
                let o = s[k].offset as int;
                let field = b.subrange(o, o + s[k].file_size);
                text::lemma_first_where_bounds(field, text::is_byte(0));
                assert(path == field.take(path.len() as int));
                assert(path =~= b.subrange(o, o + path.len()));
                assert(text::is_byte(0)(field[path.len() as int]));
                assert forall|j: int| 0 <= j < path.len() implies path[j] != 0 by {
                    assert(!text::is_byte(0)(field[j]));
                }
            }
        }
    }
}

} // verus!
