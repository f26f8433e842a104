//! The model text format: what each line of a document means.
//!
//! A document is a sequence of lines. A line that begins with `v `, `vn ` or
//! `vt ` adds a row to the position, normal or texture table; a line that
//! begins with `f ` adds the triangles of one face; every other line is
//! skipped. The numeric fields of the table lines are not converted here:
//! the caller supplies their values, one per field, in document order.

use vstd::prelude::*;
use crate::scan::{fields_from, line_end, lemma_line_end_bounds};
use crate::types::{MeshError, TexturedVertex, ONE_BITS, ZERO_BITS};

verus! {

/// What a line asks for.
#[derive(Copy, Clone, Debug, PartialEq, Eq, Structural)]
pub enum Directive {
    Position,
    Normal,
    TexCoord,
    Face,
    Other,
}

/// The directive of a line, decided by its first two or three characters.
pub open spec fn directive(line: Seq<char>) -> Directive {
    if line.len() >= 2 && line[0] == 'v' && line[1] == ' ' {
        Directive::Position
    } else if line.len() >= 3 && line[0] == 'v' && line[1] == 'n' && line[2] == ' ' {
        Directive::Normal
    } else if line.len() >= 3 && line[0] == 'v' && line[1] == 't' && line[2] == ' ' {
        Directive::TexCoord
    } else if line.len() >= 2 && line[0] == 'f' && line[1] == ' ' {
        Directive::Face
    } else {
        Directive::Other
    }
}

/// Where the fields of a line begin, after its tag.
pub open spec fn payload_start(d: Directive) -> int {
    match d {
        Directive::Position => 2,
        Directive::Normal => 3,
        Directive::TexCoord => 3,
        Directive::Face => 2,
        Directive::Other => 0,
    }
}

/// How many numeric fields a line of this directive reads at most.
pub open spec fn field_limit(d: Directive) -> int {
    match d {
        Directive::Position => 4,
        Directive::Normal => 4,
        Directive::TexCoord => 3,
        Directive::Face => 0,
        Directive::Other => 0,
    }
}

/// The fields of a line, after its tag.
pub open spec fn line_fields(line: Seq<char>) -> Seq<Seq<char>> {
    fields_from(line, payload_start(directive(line)))
}

/// How many numeric fields a line reads: its fields, up to the limit of its
/// directive. Fields beyond the limit are never looked at.
pub open spec fn numeric_count(line: Seq<char>) -> int {
    let n = line_fields(line).len() as int;
    let limit = field_limit(directive(line));
    if n <= limit {
        n
    } else {
        limit
    }
}

/// The numeric fields that a line reads.
pub open spec fn line_numeric_fields(line: Seq<char>) -> Seq<Seq<char>> {
    line_fields(line).take(numeric_count(line))
}

/// The numeric fields read by the lines of `text` that start at or after
/// `from`, in order.
pub open spec fn document_fields_from(text: Seq<char>, from: int) -> Seq<Seq<char>>
    decreases text.len() - from,
    when 0 <= from <= text.len()
    via document_fields_from_decreases
{
    let end = line_end(text, from);
    let here = line_numeric_fields(text.subrange(from, end));
    if end < text.len() {
        here + document_fields_from(text, end + 1)
    } else {
        here
    }
}

#[via_fn]
proof fn document_fields_from_decreases(text: Seq<char>, from: int) {
    lemma_line_end_bounds(text, from);
}

/// Every numeric field of a document, in the order in which parsing needs
/// their values.
pub open spec fn document_fields(text: Seq<char>) -> Seq<Seq<char>> {
    document_fields_from(text, 0)
}

/// The value supplied for numeric field `k`, if any. A field beyond the end
/// of `values` has none.
pub open spec fn value_at(values: Seq<Option<u32>>, k: int) -> Option<u32> {
    if 0 <= k < values.len() {
        values[k]
    } else {
        None
    }
}

/// Whether each of the `count` fields from `cursor` on has a value.
pub open spec fn row_complete(values: Seq<Option<u32>>, cursor: int, count: int) -> bool {
    forall|i: int| 0 <= i < count ==> (#[trigger] value_at(values, cursor + i)) is Some
}

/// Component `i` of a row that reads `count` fields from `cursor` on: the
/// value of its field where the line has one, else `default`.
pub open spec fn component(
    values: Seq<Option<u32>>,
    cursor: int,
    count: int,
    i: int,
    default: u32,
) -> u32 {
    if i < count {
        match value_at(values, cursor + i) {
            Some(v) => v,
            None => default,
        }
    } else {
        default
    }
}

/// A four-component row.
pub open spec fn row4(values: Seq<Option<u32>>, cursor: int, count: int, default: u32) -> [u32; 4] {
    [
        component(values, cursor, count, 0, default),
        component(values, cursor, count, 1, default),
        component(values, cursor, count, 2, default),
        component(values, cursor, count, 3, default),
    ]
}

/// A three-component row.
pub open spec fn row3(values: Seq<Option<u32>>, cursor: int, count: int, default: u32) -> [u32; 3] {
    [
        component(values, cursor, count, 0, default),
        component(values, cursor, count, 1, default),
        component(values, cursor, count, 2, default),
    ]
}

/// Whether `c` is one of the ten decimal digits.
pub open spec fn is_digit(c: char) -> bool {
    0x30 <= c as u32 <= 0x39
}

/// The number that a run of decimal digits writes.
pub open spec fn digits_value(d: Seq<char>) -> nat
    decreases d.len(),
{
    if d.len() == 0 {
        0
    } else {
        10 * digits_value(d.drop_last()) + (d.last() as u32 - 0x30) as nat
    }
}

/// Whether every character of `d` is a decimal digit.
pub open spec fn all_digits(d: Seq<char>) -> bool {
    forall|i: int| 0 <= i < d.len() ==> is_digit(#[trigger] d[i])
}

/// The digits of an index reference: the reference without one leading `+`.
pub open spec fn index_digits(t: Seq<char>) -> Seq<char> {
    if t.len() > 0 && t[0] == '+' {
        t.skip(1)
    } else {
        t
    }
}

/// The number that an index reference writes: decimal digits, at least one,
/// after an optional `+`. Any other text, the empty one too, writes 0.
pub open spec fn index_value(t: Seq<char>) -> nat {
    let d = index_digits(t);
    if d.len() > 0 && all_digits(d) {
        digits_value(d)
    } else {
        0
    }
}

/// The table row that an index reference selects in a table of `len` rows:
/// the row it writes if the table has it, else row 0.
pub open spec fn resolve_index(t: Seq<char>, len: nat) -> int {
    let v = index_value(t);
    if v < len {
        v as int
    } else {
        0
    }
}

/// The first index at or after `from` that holds a `/`, or the length of `t`
/// if there is none.
pub open spec fn slash_end(t: Seq<char>, from: int) -> int
    decreases t.len() - from,
{
    if 0 <= from < t.len() && t[from] != '/' {
        slash_end(t, from + 1)
    } else {
        from
    }
}

/// Where part `k` of a corner begins. Parts are separated by `/`; a start
/// beyond the end of `t` means that the corner has no such part.
pub open spec fn part_start(t: Seq<char>, k: nat) -> int
    decreases k,
{
    if k == 0 {
        0
    } else {
        slash_end(t, part_start(t, (k - 1) as nat)) + 1
    }
}

/// Part `k` of a corner, empty where the corner has no such part.
pub open spec fn part(t: Seq<char>, k: nat) -> Seq<char> {
    let start = part_start(t, k);
    if 0 <= start <= t.len() {
        t.subrange(start, slash_end(t, start))
    } else {
        Seq::empty()
    }
}

/// The tables and triangles gathered so far.
pub struct ObjState {
    pub positions: Seq<[u32; 4]>,
    pub normals: Seq<[u32; 4]>,
    pub uvs: Seq<[u32; 3]>,
    pub triangles: Seq<TexturedVertex>,
    /// How many numeric fields the lines so far have read.
    pub consumed: int,
    /// Whether a numeric field without a value was read.
    pub failed: bool,
}

/// The state before the first line: each table holds its default row.
pub open spec fn initial_state() -> ObjState {
    ObjState {
        positions: seq![[ZERO_BITS, ZERO_BITS, ZERO_BITS, ONE_BITS]],
        normals: seq![[ZERO_BITS, ZERO_BITS, ZERO_BITS, ZERO_BITS]],
        uvs: seq![[ZERO_BITS, ZERO_BITS, ZERO_BITS]],
        triangles: Seq::empty(),
        consumed: 0,
        failed: false,
    }
}

/// The vertex of one face corner: part 0 selects the position, part 1 the
/// texture coordinate, part 2 the normal, each in the table as it stands
/// when the face is read.
pub open spec fn corner_vertex(
    positions: Seq<[u32; 4]>,
    normals: Seq<[u32; 4]>,
    uvs: Seq<[u32; 3]>,
    t: Seq<char>,
) -> TexturedVertex {
    TexturedVertex {
        position: positions[resolve_index(part(t, 0), positions.len())],
        normal: normals[resolve_index(part(t, 2), normals.len())],
        uv: uvs[resolve_index(part(t, 1), uvs.len())],
    }
}

/// The vertices of the corners of a face, in order.
pub open spec fn face_corners(
    positions: Seq<[u32; 4]>,
    normals: Seq<[u32; 4]>,
    uvs: Seq<[u32; 3]>,
    fields: Seq<Seq<char>>,
) -> Seq<TexturedVertex> {
    Seq::new(fields.len(), |i: int| corner_vertex(positions, normals, uvs, fields[i]))
}

/// The fan of a face: corner 0 with each pair of neighbours among the other
/// corners. A face of fewer than three corners has no triangle.
pub open spec fn fan(face: Seq<TexturedVertex>) -> Seq<TexturedVertex> {
    if face.len() < 3 {
        Seq::empty()
    } else {
        Seq::new(
            (3 * (face.len() - 2)) as nat,
            |k: int|
                if k % 3 == 0 {
                    face[0]
                } else {
                    face[k / 3 + k % 3]
                },
        )
    }
}

/// The state after one more line.
pub open spec fn apply_line(st: ObjState, line: Seq<char>, values: Seq<Option<u32>>) -> ObjState {
    let count = numeric_count(line);
    let complete = row_complete(values, st.consumed, count);
    match directive(line) {
        Directive::Position => if complete {
            ObjState {
                positions: st.positions.push(row4(values, st.consumed, count, ONE_BITS)),
                consumed: st.consumed + count,
                ..st
            }
        } else {
            ObjState { failed: true, ..st }
        },
        Directive::Normal => if complete {
            ObjState {
                normals: st.normals.push(row4(values, st.consumed, count, ZERO_BITS)),
                consumed: st.consumed + count,
                ..st
            }
        } else {
            ObjState { failed: true, ..st }
        },
        Directive::TexCoord => if complete {
            ObjState {
                uvs: st.uvs.push(row3(values, st.consumed, count, ZERO_BITS)),
                consumed: st.consumed + count,
                ..st
            }
        } else {
            ObjState { failed: true, ..st }
        },
        Directive::Face => ObjState {
            triangles: st.triangles + fan(
                face_corners(st.positions, st.normals, st.uvs, line_fields(line)),
            ),
            ..st
        },
        Directive::Other => st,
    }
}

/// The state after the lines of `text` that start at or after `from`, read
/// in order from state `st`. Reading stops at the first failure.
pub open spec fn parse_from(
    text: Seq<char>,
    from: int,
    st: ObjState,
    values: Seq<Option<u32>>,
) -> ObjState
    decreases text.len() - from,
    when 0 <= from <= text.len()
    via parse_from_decreases
{
    if st.failed {
        st
    } else {
        let end = line_end(text, from);
        let next = apply_line(st, text.subrange(from, end), values);
        if end < text.len() {
            parse_from(text, end + 1, next, values)
        } else {
            next
        }
    }
}

#[via_fn]
proof fn parse_from_decreases(text: Seq<char>, from: int, st: ObjState, values: Seq<Option<u32>>) {
    lemma_line_end_bounds(text, from);
}

/// What a document parses to, given the values of its numeric fields: its
/// triangles as a flat sequence of vertices, or `NumericFormat` where a
/// numeric field that a line reads has no value.
pub open spec fn parse_result(text: Seq<char>, values: Seq<Option<u32>>) -> Result<
    Seq<TexturedVertex>,
    MeshError,
> {
    let st = parse_from(text, 0, initial_state(), values);
    if st.failed {
        Err(MeshError::NumericFormat)
    } else {
        Ok(st.triangles)
    }
}

/// A face of `k >= 3` corners gives `k - 2` triangles, three vertices each;
/// a face of fewer corners gives none.
pub proof fn lemma_fan_len(face: Seq<TexturedVertex>)
    ensures
        face.len() >= 3 ==> fan(face).len() == 3 * (face.len() - 2),
        face.len() < 3 ==> fan(face).len() == 0,
{
}

/// Triangle `n` of the fan of a face joins corner 0 with the corners `n + 1`
/// and `n + 2`.
pub proof fn lemma_fan_triangle(face: Seq<TexturedVertex>, n: int)
    requires
        0 <= n < face.len() - 2,
    ensures
        fan(face)[3 * n] == face[0],
        fan(face)[3 * n + 1] == face[n + 1],
        fan(face)[3 * n + 2] == face[n + 2],
{
}

/// A face line of `k >= 3` corners adds exactly `k - 2` triangles to those
/// gathered before it, and leaves the tables as they were.
pub proof fn lemma_face_line_adds_fan(st: ObjState, line: Seq<char>, values: Seq<Option<u32>>)
    requires
        directive(line) == Directive::Face,
        line_fields(line).len() >= 3,
    ensures
        apply_line(st, line, values).triangles.len() == st.triangles.len() + 3 * (line_fields(
            line,
        ).len() - 2),
        apply_line(st, line, values).triangles.take(st.triangles.len() as int) == st.triangles,
        apply_line(st, line, values).positions == st.positions,
        apply_line(st, line, values).normals == st.normals,
        apply_line(st, line, values).uvs == st.uvs,
        !apply_line(st, line, values).failed <==> !st.failed,
{
    let face = face_corners(st.positions, st.normals, st.uvs, line_fields(line));
    lemma_fan_len(face);
    assert((st.triangles + fan(face)).take(st.triangles.len() as int) =~= st.triangles);
}

/// A reference that writes the number of a row that its table has selects
/// that row.
pub proof fn lemma_valid_reference_selects_its_row(
    positions: Seq<[u32; 4]>,
    normals: Seq<[u32; 4]>,
    uvs: Seq<[u32; 3]>,
    t: Seq<char>,
)
    ensures
        index_value(part(t, 0)) < positions.len() ==> corner_vertex(
            positions,
            normals,
            uvs,
            t,
        ).position == positions[index_value(part(t, 0)) as int],
        index_value(part(t, 1)) < uvs.len() ==> corner_vertex(positions, normals, uvs, t).uv
            == uvs[index_value(part(t, 1)) as int],
        index_value(part(t, 2)) < normals.len() ==> corner_vertex(
            positions,
            normals,
            uvs,
            t,
        ).normal == normals[index_value(part(t, 2)) as int],
{
}

/// A face line of three corners adds exactly three vertices, the vertices of
/// its corners in order, each built from the table rows that the corner
/// refers to.
pub proof fn lemma_triangle_line_adds_its_corners(
    st: ObjState,
    line: Seq<char>,
    values: Seq<Option<u32>>,
)
    requires
        directive(line) == Directive::Face,
        line_fields(line).len() == 3,
    ensures
        apply_line(st, line, values).triangles == st.triangles + seq![
            corner_vertex(st.positions, st.normals, st.uvs, line_fields(line)[0]),
            corner_vertex(st.positions, st.normals, st.uvs, line_fields(line)[1]),
            corner_vertex(st.positions, st.normals, st.uvs, line_fields(line)[2]),
        ],
{
    let face = face_corners(st.positions, st.normals, st.uvs, line_fields(line));
    assert(fan(face) =~= seq![face[0], face[1], face[2]]);
}

/// A position line whose fields all have values adds one row: the values of
/// its fields, then `1.0` for each component that the line has no field for.
/// So a line of three fields gives a point with `w = 1.0`.
pub proof fn lemma_position_line_fills_one(
    st: ObjState,
    line: Seq<char>,
    values: Seq<Option<u32>>,
    i: int,
)
    requires
        directive(line) == Directive::Position,
        row_complete(values, st.consumed, numeric_count(line)),
        0 <= i < 4,
    ensures
        apply_line(st, line, values).positions.len() == st.positions.len() + 1,
        i < numeric_count(line) ==> value_at(values, st.consumed + i) == Some(
            apply_line(st, line, values).positions.last()[i],
        ),
        i >= numeric_count(line) ==> apply_line(st, line, values).positions.last()[i] == ONE_BITS,
{
    assert(value_at(values, st.consumed + i) is Some || i >= numeric_count(line));
}

/// A normal line whose fields all have values adds one row: the values of
/// its fields, then `0.0` for each component that the line has no field for.
/// So a line of three fields gives a direction with `w = 0.0`.
pub proof fn lemma_normal_line_fills_zero(
    st: ObjState,
    line: Seq<char>,
    values: Seq<Option<u32>>,
    i: int,
)
    requires
        directive(line) == Directive::Normal,
        row_complete(values, st.consumed, numeric_count(line)),
        0 <= i < 4,
    ensures
        apply_line(st, line, values).normals.len() == st.normals.len() + 1,
        i < numeric_count(line) ==> value_at(values, st.consumed + i) == Some(
            apply_line(st, line, values).normals.last()[i],
        ),
        i >= numeric_count(line) ==> apply_line(st, line, values).normals.last()[i] == ZERO_BITS,
{
    assert(value_at(values, st.consumed + i) is Some || i >= numeric_count(line));
}

/// A texture line whose fields all have values adds one row: the values of
/// its fields, then `0.0` for each component that the line has no field for.
pub proof fn lemma_texture_line_fills_zero(
    st: ObjState,
    line: Seq<char>,
    values: Seq<Option<u32>>,
    i: int,
)
    requires
        directive(line) == Directive::TexCoord,
        row_complete(values, st.consumed, numeric_count(line)),
        0 <= i < 3,
    ensures
        apply_line(st, line, values).uvs.len() == st.uvs.len() + 1,
        i < numeric_count(line) ==> value_at(values, st.consumed + i) == Some(
            apply_line(st, line, values).uvs.last()[i],
        ),
        i >= numeric_count(line) ==> apply_line(st, line, values).uvs.last()[i] == ZERO_BITS,
{
    assert(value_at(values, st.consumed + i) is Some || i >= numeric_count(line));
}

/// Whether row 0 of each table is its default row.
pub open spec fn has_default_rows(st: ObjState) -> bool {
    &&& st.positions.len() > 0
    &&& st.normals.len() > 0
    &&& st.uvs.len() > 0
    &&& st.positions[0] == [ZERO_BITS, ZERO_BITS, ZERO_BITS, ONE_BITS]
    &&& st.normals[0] == [ZERO_BITS, ZERO_BITS, ZERO_BITS, ZERO_BITS]
    &&& st.uvs[0] == [ZERO_BITS, ZERO_BITS, ZERO_BITS]
}

/// Before the first line, row 0 of each table is its default row.
pub proof fn lemma_initial_state_has_default_rows()
    ensures
        has_default_rows(initial_state()),
{
}

/// No line changes row 0 of a table.
pub proof fn lemma_line_keeps_default_rows(
    st: ObjState,
    line: Seq<char>,
    values: Seq<Option<u32>>,
)
    requires
        has_default_rows(st),
    ensures
        has_default_rows(apply_line(st, line, values)),
{
}

/// Reading lines never changes the default rows.
pub proof fn lemma_default_rows_stay(
    text: Seq<char>,
    from: int,
    st: ObjState,
    values: Seq<Option<u32>>,
)
    requires
        0 <= from <= text.len(),
        has_default_rows(st),
    ensures
        has_default_rows(parse_from(text, from, st, values)),
    decreases text.len() - from,
{
    if !st.failed {
        let end = line_end(text, from);
        lemma_line_end_bounds(text, from);
        let next = apply_line(st, text.subrange(from, end), values);
        lemma_line_keeps_default_rows(st, text.subrange(from, end), values);
        if end < text.len() {
            lemma_default_rows_stay(text, end + 1, next, values);
        }
    }
}

/// An index reference that is empty selects row 0: a face corner with an
/// empty or missing part takes that attribute from row 0 of its table. Where
/// the tables have their default rows, a corner without a texture reference
/// so has the texture coordinate `(0, 0, 0)`.
pub proof fn lemma_empty_reference_selects_default(
    positions: Seq<[u32; 4]>,
    normals: Seq<[u32; 4]>,
    uvs: Seq<[u32; 3]>,
    t: Seq<char>,
)
    ensures
        part(t, 0).len() == 0 ==> corner_vertex(positions, normals, uvs, t).position
            == positions[0],
        part(t, 1).len() == 0 ==> corner_vertex(positions, normals, uvs, t).uv == uvs[0],
        part(t, 2).len() == 0 ==> corner_vertex(positions, normals, uvs, t).normal == normals[0],
{
}

/// Fields `cursor` to `cursor + a + b` all have values exactly when the
/// first `a` of them and the `b` after those have.
pub proof fn lemma_row_complete_split(values: Seq<Option<u32>>, cursor: int, a: int, b: int)
    requires
        0 <= a,
        0 <= b,
    ensures
        row_complete(values, cursor, a + b) <==> row_complete(values, cursor, a) && row_complete(
            values,
            cursor + a,
            b,
        ),
{
    if row_complete(values, cursor, a + b) {
        assert forall|i: int| 0 <= i < b implies (#[trigger] value_at(values, cursor + a + i))
            is Some by {
            assert(value_at(values, cursor + (a + i)) is Some);
        }
    }
    if row_complete(values, cursor, a) && row_complete(values, cursor + a, b) {
        assert forall|i: int| 0 <= i < a + b implies (#[trigger] value_at(values, cursor + i))
            is Some by {
            if i >= a {
                assert(value_at(values, cursor + a + (i - a)) is Some);
            }
        }
    }
}

/// Parsing succeeds exactly when every numeric field of the document has a
/// value, and then reads as many values as the document has numeric fields:
/// `values[k]` is read for `document_fields(text)[k]`.
pub proof fn lemma_parse_succeeds_iff_fields_valued(
    text: Seq<char>,
    from: int,
    st: ObjState,
    values: Seq<Option<u32>>,
)
    requires
        0 <= from <= text.len(),
        !st.failed,
    ensures
        !parse_from(text, from, st, values).failed <==> row_complete(
            values,
            st.consumed,
            document_fields_from(text, from).len() as int,
        ),
        !parse_from(text, from, st, values).failed ==> parse_from(text, from, st, values).consumed
            == st.consumed + document_fields_from(text, from).len(),
    decreases text.len() - from,
{
    let end = line_end(text, from);
    lemma_line_end_bounds(text, from);
    let line = text.subrange(from, end);
    let next = apply_line(st, line, values);
    let count = numeric_count(line);
    let here = line_numeric_fields(line);
    assert(here.len() == count);
    assert(0 <= count);
    assert(next.failed <==> !row_complete(values, st.consumed, count)) by {
        if directive(line) == Directive::Face || directive(line) == Directive::Other {
            assert(count == 0);
        }
    }
    if end < text.len() {
        let rest = document_fields_from(text, end + 1).len() as int;
        assert(document_fields_from(text, from).len() == count + rest);
        lemma_row_complete_split(values, st.consumed, count, rest);
        if !next.failed {
            assert(next.consumed == st.consumed + count);
            lemma_parse_succeeds_iff_fields_valued(text, end + 1, next, values);
        } else {
            assert(parse_from(text, end + 1, next, values) == next);
        }
    } else {
        assert(document_fields_from(text, from).len() == count);
    }
}

/// Parsing gathers whole triangles: after any number of lines the vertices
/// number a multiple of three.
pub proof fn lemma_parse_gives_whole_triangles(
    text: Seq<char>,
    from: int,
    st: ObjState,
    values: Seq<Option<u32>>,
)
    requires
        0 <= from <= text.len(),
        st.triangles.len() % 3 == 0,
    ensures
        parse_from(text, from, st, values).triangles.len() % 3 == 0,
    decreases text.len() - from,
{
    if !st.failed {
        let end = line_end(text, from);
        lemma_line_end_bounds(text, from);
        let line = text.subrange(from, end);
        let next = apply_line(st, line, values);
        lemma_fan_len(face_corners(st.positions, st.normals, st.uvs, line_fields(line)));
        assert(next.triangles.len() % 3 == 0);
        if end < text.len() {
            lemma_parse_gives_whole_triangles(text, end + 1, next, values);
        }
    }
}

} // verus!
