//! Which interpreter the image of a binary names, byte by byte.

use vstd::prelude::*;

use crate::elf::{self, ProgramHeaders};
use crate::elf_law;
use crate::error::ErrorModel;
use crate::text;

verus! {

/// Whether the bytes begin as an image of the class `class` does: 127, `E`, `L`, `F`, the class and the
/// order of bytes.
pub open spec fn is_image(b: Seq<u8>, class: u8, little: bool) -> bool {
    &&& 64 <= b.len() <= usize::MAX
    &&& b[0] == 127 && b[1] == 69 && b[2] == 76 && b[3] == 70
    &&& b[4] == class
    &&& b[5] == if little { 1u8 } else { 2u8 }
}

/// Where the table of program headers is.
pub open spec fn table_at(b: Seq<u8>, wide: bool, little: bool) -> int {
    if wide {
        elf_law::number(b, 32, 8, little)
    } else {
        elf_law::number(b, 28, 4, little)
    }
}

/// The size of a program header.
pub open spec fn entry_size(b: Seq<u8>, wide: bool, little: bool) -> int {
    elf_law::number(b, if wide { 54 } else { 42 }, 2, little)
}

/// How many program headers there are.
pub open spec fn entries(b: Seq<u8>, wide: bool, little: bool) -> int {
    elf_law::number(b, if wide { 56 } else { 44 }, 2, little)
}

/// Where the program header at `index` begins.
pub open spec fn entry_at(b: Seq<u8>, wide: bool, little: bool, index: int) -> int {
    table_at(b, wide, little) + index * entry_size(b, wide, little)
}

/// Whether the program header at `index` lies within the image.
pub open spec fn is_inside(b: Seq<u8>, wide: bool, little: bool, index: int) -> bool {
    entry_at(b, wide, little, index) + entry_size(b, wide, little) <= b.len()
}

/// Whether the program header at `index` names an interpreter.
pub open spec fn names_one(b: Seq<u8>, wide: bool, little: bool, index: int) -> bool {
    elf_law::number(b, entry_at(b, wide, little, index), 4, little) == 3
}

/// Where the name of the program header at `index` is.
pub open spec fn name_at(b: Seq<u8>, wide: bool, little: bool, index: int) -> int {
    let at = entry_at(b, wide, little, index);
    if wide {
        elf_law::number(b, at + 8, 8, little)
    } else {
        elf_law::number(b, at + 4, 4, little)
    }
}

/// How much room there is for the name of the program header at `index`.
pub open spec fn name_room(b: Seq<u8>, wide: bool, little: bool, index: int) -> int {
    let at = entry_at(b, wide, little, index);
    if wide {
        elf_law::number(b, at + 32, 8, little)
    } else {
        elf_law::number(b, at + 16, 4, little)
    }
}

/// The headers of an image, as they are read.
spec fn headers(b: Seq<u8>, wide: bool, little: bool) -> ProgramHeaders {
    ProgramHeaders {
        offset: table_at(b, wide, little) as usize,
        entry_size: entry_size(b, wide, little) as usize,
        count: entries(b, wide, little) as usize,
        min_entry_size: if wide { 56 } else { 32 },
    }
}

proof fn lemma_headers(b: Seq<u8>, wide: bool, little: bool)
    requires
        is_image(b, if wide { 2 } else { 1 }, little),
        table_at(b, wide, little) <= b.len(),
    ensures
        elf::program_headers(b, little) == Ok::<Option<ProgramHeaders>, ErrorModel>(
            Some(headers(b, wide, little)),
        ),
        0 <= table_at(b, wide, little),
        0 <= entry_size(b, wide, little) <= 65535,
        0 <= entries(b, wide, little) <= 65535,
        headers(b, wide, little).offset == table_at(b, wide, little),
        headers(b, wide, little).entry_size == entry_size(b, wide, little),
        headers(b, wide, little).count == entries(b, wide, little),
{
    elf_law::law_numbers_are_read_byte_by_byte(b, 28, little);
    elf_law::law_numbers_are_read_byte_by_byte(b, 32, little);
    elf_law::law_numbers_are_read_byte_by_byte(b, 42, little);
    elf_law::law_numbers_are_read_byte_by_byte(b, 44, little);
    elf_law::law_numbers_are_read_byte_by_byte(b, 54, little);
    elf_law::law_numbers_are_read_byte_by_byte(b, 56, little);
}

proof fn lemma_passed(b: Seq<u8>, wide: bool, little: bool, from: int, index: int)
    requires
        is_image(b, if wide { 2 } else { 1 }, little),
        table_at(b, wide, little) <= b.len(),
        0 <= from <= index <= entries(b, wide, little),
        forall|j: int|
            from <= j < index ==> #[trigger] is_inside(b, wide, little, j) && !names_one(
                b,
                wide,
                little,
                j,
            ),
    ensures
        elf::first_interpreter(b, little, headers(b, wide, little), from) == elf::first_interpreter(
            b,
            little,
            headers(b, wide, little),
            index,
        ),
    decreases index - from,
{
    lemma_headers(b, wide, little);
    if from < index {
        assert(is_inside(b, wide, little, from) && !names_one(b, wide, little, from));
        elf_law::law_numbers_are_read_byte_by_byte(b, entry_at(b, wide, little, from), little);
        lemma_passed(b, wide, little, from + 1, index);
    }
}

/// An image names the interpreter that its first program header of the type 3 names: the text up to the
/// first NUL byte of its place in the image. Nothing is named by an empty text.
pub proof fn law_images_name_an_interpreter(
    b: Seq<u8>,
    wide: bool,
    little: bool,
    index: int,
    path: Seq<u8>,
)
    requires
        is_image(b, if wide { 2 } else { 1 }, little),
        entry_size(b, wide, little) >= if wide { 56int } else { 32int },
        0 <= index < entries(b, wide, little),
        forall|j: int| 0 <= j <= index ==> #[trigger] is_inside(b, wide, little, j),
        forall|j: int| 0 <= j < index ==> !#[trigger] names_one(b, wide, little, j),
        names_one(b, wide, little, index),
        path.len() < name_room(b, wide, little, index),
        name_at(b, wide, little, index) + name_room(b, wide, little, index) <= b.len(),
        !path.contains(0),
        vstd::utf8::valid_utf8(path),
        ({
            let at = name_at(b, wide, little, index);
            b.subrange(at, at + path.len()) == path && b[at + path.len()] == 0
        }),
    ensures
        elf::image_interpreter(b) == Ok::<Option<Seq<char>>, ErrorModel>(
            if vstd::utf8::decode_utf8(path).len() == 0 {
                None
            } else {
                Some(vstd::utf8::decode_utf8(path))
            },
        ),
{
    let at = name_at(b, wide, little, index);
    let room = name_room(b, wide, little, index);
    let start = entry_at(b, wide, little, index);
    assert(is_inside(b, wide, little, 0));
    assert(is_inside(b, wide, little, index));
    assert(0 * entry_size(b, wide, little) == 0);
    lemma_headers(b, wide, little);
    lemma_passed(b, wide, little, 0, index);
    elf_law::law_numbers_are_read_byte_by_byte(b, start, little);
    elf_law::law_numbers_are_read_byte_by_byte(b, start + 4, little);
    elf_law::law_numbers_are_read_byte_by_byte(b, start + 8, little);
    elf_law::law_numbers_are_read_byte_by_byte(b, start + 16, little);
    elf_law::law_numbers_are_read_byte_by_byte(b, start + 32, little);
    assert(index * entry_size(b, wide, little) >= 0) by (nonlinear_arith)
        requires
            index >= 0,
            entry_size(b, wide, little) >= 0,
    ;
    let field = b.subrange(at, at + room);
    let p = text::is_byte(0);
    assert forall|i: int| 0 <= i < path.len() implies !p(#[trigger] field[i]) by {
        assert(field[i] == b.subrange(at, at + path.len())[i]);
        assert(path.contains(path[i]));
    }
    assert(field[path.len() as int] == 0);
    text::lemma_first_where(field, p, path.len() as int);
    assert(field.take(path.len() as int) =~= b.subrange(at, at + path.len()));
}

/// An image without such a program header names no interpreter, and neither do bytes that are no image.
pub proof fn law_images_without_an_interpreter(b: Seq<u8>, wide: bool, little: bool, other: Seq<u8>)
    requires
        is_image(b, if wide { 2 } else { 1 }, little),
        entry_size(b, wide, little) >= if wide { 56int } else { 32int },
        table_at(b, wide, little) <= b.len(),
        forall|j: int|
            0 <= j < entries(b, wide, little) ==> #[trigger] is_inside(b, wide, little, j)
                && !names_one(b, wide, little, j),
        other.len() < 52 || other[0] != 127 || other[1] != 69 || other[2] != 76 || other[3] != 70,
    ensures
        elf::image_interpreter(b) == Ok::<Option<Seq<char>>, ErrorModel>(None),
        elf::image_interpreter(other) == Ok::<Option<Seq<char>>, ErrorModel>(None),
{
    lemma_headers(b, wide, little);
    lemma_passed(b, wide, little, 0, entries(b, wide, little));
}

/// An image is refused where its program headers are too small, where one of them lies beyond its end, and
/// where the name of an interpreter does so or has no end. What comes before counts.
pub proof fn law_bad_images_are_refused(b: Seq<u8>, wide: bool, little: bool, index: int)
    requires
        is_image(b, if wide { 2 } else { 1 }, little),
        table_at(b, wide, little) <= b.len(),
        0 <= index < entries(b, wide, little),
        forall|j: int|
            0 <= j < index ==> #[trigger] is_inside(b, wide, little, j) && !names_one(
                b,
                wide,
                little,
                j,
            ),
    ensures
        entry_size(b, wide, little) < (if wide { 56int } else { 32int }) ==> elf::image_interpreter(
            b,
        ) is Err,
        !is_inside(b, wide, little, index) ==> elf::image_interpreter(b) is Err,
        ({
            let at = name_at(b, wide, little, index);
            let room = name_room(b, wide, little, index);
            is_inside(b, wide, little, index) && names_one(b, wide, little, index) && (at + room
                > b.len() || !b.subrange(at, at + room).contains(0)) ==> elf::image_interpreter(
                b,
            ) is Err
        }),
{
    let at = name_at(b, wide, little, index);
    let room = name_room(b, wide, little, index);
    let start = entry_at(b, wide, little, index);
    lemma_headers(b, wide, little);
    lemma_passed(b, wide, little, 0, index);
    elf_law::law_numbers_are_read_byte_by_byte(b, start, little);
    elf_law::law_numbers_are_read_byte_by_byte(b, start + 4, little);
    elf_law::law_numbers_are_read_byte_by_byte(b, start + 8, little);
    elf_law::law_numbers_are_read_byte_by_byte(b, start + 16, little);
    elf_law::law_numbers_are_read_byte_by_byte(b, start + 32, little);
    assert(index * entry_size(b, wide, little) >= 0) by (nonlinear_arith)
        requires
            index >= 0,
            entry_size(b, wide, little) >= 0,
    ;
    let field = b.subrange(at, at + room);
    let p = text::is_byte(0);
    text::lemma_first_where_bounds(field, p);
    let k = text::first_where(field, p);
    if k < field.len() {
        assert(field[k] == 0);
        assert(field.contains(field[k]));
    }
}

} // verus!
