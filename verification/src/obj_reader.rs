//! Reading one line of a model document.

use vstd::prelude::*;
use crate::obj_format::{
    all_digits, component, corner_vertex, digits_value, directive, face_corners, fan,
    index_digits, is_digit, part, part_start, resolve_index, row4, row_complete,
    slash_end, value_at, Directive,
};
use crate::scan::{fields_from, find_field_end, find_field_start};
use crate::types::TexturedVertex;

verus! {

/// Decides the directive of a line.
pub fn classify(line: &[char]) -> (d: Directive)
    ensures
        d == directive(line@),
{
    let n = line.len();
    if n >= 2 && line[0] == 'v' && line[1] == ' ' {
        Directive::Position
    } else if n >= 3 && line[0] == 'v' && line[1] == 'n' && line[2] == ' ' {
        Directive::Normal
    } else if n >= 3 && line[0] == 'v' && line[1] == 't' && line[2] == ' ' {
        Directive::TexCoord
    } else if n >= 2 && line[0] == 'f' && line[1] == ' ' {
        Directive::Face
    } else {
        Directive::Other
    }
}

/// Counts the fields of `line` from `from` on, up to `limit`.
pub fn count_fields(line: &[char], from: usize, limit: usize) -> (n: usize)
    requires
        from <= line@.len(),
    ensures
        n == (if fields_from(line@, from as int).len() <= limit {
            fields_from(line@, from as int).len()
        } else {
            limit as nat
        }),
{
    let mut n: usize = 0;
    let mut pos: usize = from;
    let mut done = false;
    while n < limit && !done
        invariant
            from <= pos <= line@.len(),
            n <= limit,
            fields_from(line@, from as int).len() == n + fields_from(line@, pos as int).len(),
            done ==> fields_from(line@, pos as int).len() == 0,
        decreases limit - n + (if done { 0int } else { 1int }),
    {
        let start = find_field_start(line, pos);
        if start >= line.len() {
            done = true;
        } else {
            let end = find_field_end(line, start);
            n = n + 1;
            pos = end;
        }
    }
    n
}

/// Reads the `count` values of a row from `cursor` on; components without a
/// field take `default`. `None` where a field has no value.
pub fn read_row(values: &[Option<u32>], cursor: usize, count: usize, default: u32) -> (r: Option<
    [u32; 4],
>)
    requires
        cursor <= values@.len(),
        count <= 4,
    ensures
        r is Some <==> row_complete(values@, cursor as int, count as int),
        r is Some ==> r->Some_0 == row4(values@, cursor as int, count as int, default),
        r is Some ==> cursor + count <= values@.len() <= usize::MAX,
{
    if count > values.len() - cursor {
        assert(value_at(values@, cursor + (count - 1)) is None);
        return None;
    }
    let mut row: [u32; 4] = [default, default, default, default];
    let mut i: usize = 0;
    while i < count
        invariant
            i <= count <= 4,
            cursor + count <= values@.len() <= usize::MAX,
            forall|k: int|
                0 <= k < i ==> (#[trigger] value_at(values@, cursor + k)) is Some,
            forall|k: int|
                0 <= k < 4 ==> #[trigger] row[k] == (if k < i {
                    component(values@, cursor as int, count as int, k, default)
                } else {
                    default
                }),
        decreases count - i,
    {
        match values[cursor + i] {
            Some(v) => {
                row[i] = v;
            },
            None => {
                assert(value_at(values@, cursor + i) is None);
                return None;
            },
        }
        i = i + 1;
    }
    Some(row)
}

/// The number written by a prefix of a run of digits is no larger than the
/// number written by the whole run.
pub proof fn lemma_digits_value_prefix(d: Seq<char>, k: int)
    requires
        0 <= k <= d.len(),
    ensures
        digits_value(d.take(k)) <= digits_value(d),
    decreases d.len() - k,
{
    if k < d.len() {
        lemma_digits_value_prefix(d, k + 1);
        assert(d.take(k + 1).drop_last() =~= d.take(k));
    } else {
        assert(d.take(k) =~= d);
    }
}

/// Resolves the index reference `t[from..to]` against a table of `len` rows.
pub fn read_index(t: &[char], from: usize, to: usize, len: usize) -> (r: usize)
    requires
        from <= to <= t@.len(),
    ensures
        r == resolve_index(t@.subrange(from as int, to as int), len as nat),
        len > 0 ==> r < len,
{
    let ghost whole = t@.subrange(from as int, to as int);
    let mut start: usize = from;
    if start < to && t[start] == '+' {
        start = start + 1;
    }
    let ghost d = index_digits(whole);
    if start == to {
        return 0;
    }
    let mut acc: usize = 0;
    let mut i: usize = start;
    while i < to
        invariant
            start <= i <= to <= t@.len(),
            start < to,
            from <= to,
            whole == t@.subrange(from as int, to as int),
            d == t@.subrange(start as int, to as int),
            d == index_digits(whole),
            all_digits(d.take(i - start)),
            acc == digits_value(d.take(i - start)),
            i > start ==> acc < len,
        decreases to - i,
    {
        let c = t[i];
        let n: u32 = c as u32;
        if !(0x30 <= n && n <= 0x39) {
            assert(!is_digit(d[i - start]));
            return 0;
        }
        let digit: u128 = (n - 0x30) as u128;
        let next: u128 = acc as u128 * 10 + digit;
        proof {
            assert(d.take(i - start + 1).drop_last() =~= d.take(i - start));
            assert(all_digits(d.take(i - start + 1)));
        }
        if next >= len as u128 {
            proof {
                lemma_digits_value_prefix(d, i - start + 1);
            }
            return 0;
        }
        acc = next as usize;
        i = i + 1;
    }
    assert(d.take(i - start) =~= d);
    acc
}

/// Finds the `/` that ends the part of `t` starting at `from`.
pub fn find_slash(t: &[char], from: usize) -> (r: usize)
    requires
        from <= t@.len(),
    ensures
        r == slash_end(t@, from as int),
        from <= r <= t@.len(),
{
    let mut i: usize = from;
    while i < t.len() && t[i] != '/'
        invariant
            from <= i <= t@.len(),
            slash_end(t@, from as int) == slash_end(t@, i as int),
        decreases t@.len() - i,
    {
        i = i + 1;
    }
    i
}

/// Builds the vertex of one face corner from the tables as they stand.
pub fn read_corner(
    t: &[char],
    positions: &Vec<[u32; 4]>,
    normals: &Vec<[u32; 4]>,
    uvs: &Vec<[u32; 3]>,
) -> (v: TexturedVertex)
    requires
        positions@.len() > 0,
        normals@.len() > 0,
        uvs@.len() > 0,
    ensures
        v == corner_vertex(positions@, normals@, uvs@, t@),
{
    let n = t.len();
    let end0 = find_slash(t, 0);
    let p = read_index(t, 0, end0, positions.len());
    assert(part_start(t@, 1) == slash_end(t@, part_start(t@, 0)) + 1);
    let mut u: usize = 0;
    let mut m: usize = 0;
    if end0 < n {
        let start1 = end0 + 1;
        let end1 = find_slash(t, start1);
        u = read_index(t, start1, end1, uvs.len());
        assert(part_start(t@, 2) == end1 + 1);
        if end1 < n {
            let start2 = end1 + 1;
            let end2 = find_slash(t, start2);
            m = read_index(t, start2, end2, normals.len());
        }
    }
    TexturedVertex::new(positions[p], normals[m], uvs[u])
}

/// Reads the corners of a face line.
pub fn read_face(
    line: &[char],
    positions: &Vec<[u32; 4]>,
    normals: &Vec<[u32; 4]>,
    uvs: &Vec<[u32; 3]>,
) -> (face: Vec<TexturedVertex>)
    requires
        line@.len() >= 2,
        positions@.len() > 0,
        normals@.len() > 0,
        uvs@.len() > 0,
    ensures
        face@ == face_corners(positions@, normals@, uvs@, fields_from(line@, 2)),
{
    let mut face: Vec<TexturedVertex> = Vec::new();
    let mut pos: usize = 2;
    let ghost all = face_corners(positions@, normals@, uvs@, fields_from(line@, 2));
    loop
        invariant
            2 <= pos <= line@.len(),
            positions@.len() > 0,
            normals@.len() > 0,
            uvs@.len() > 0,
            all == face_corners(positions@, normals@, uvs@, fields_from(line@, 2)),
            all == face@ + face_corners(
                positions@,
                normals@,
                uvs@,
                fields_from(line@, pos as int),
            ),
        decreases line@.len() - pos,
    {
        let start = find_field_start(line, pos);
        if start >= line.len() {
            return face;
        }
        let end = find_field_end(line, start);
        let token = &line[start..end];
        let v = read_corner(token, positions, normals, uvs);
        face.push(v);
        pos = end;
    }
}

/// Appends the fan of `face` to `triangles`.
pub fn push_fan(triangles: &mut Vec<TexturedVertex>, face: &Vec<TexturedVertex>)
    ensures
        final(triangles)@ == old(triangles)@ + fan(face@),
{
    let n = face.len();
    if n < 3 {
        return ;
    }
    let mut i: usize = 1;
    while i < n - 1
        invariant
            3 <= n == face@.len(),
            1 <= i <= n - 1,
            triangles@ == old(triangles)@ + fan(face@).take(3 * (i - 1)),
        decreases n - i,
    {
        triangles.push(face[0]);
        triangles.push(face[i]);
        triangles.push(face[i + 1]);
        i = i + 1;
    }
}

} // verus!
