//! The mesh pipeline: parsing a model document and the operators on
//! triangle lists.

use vstd::prelude::*;
use crate::lattice::{
    all_inside, lattice_points, lemma_subdivision_inside, lemma_subdivision_len,
    lemma_subdivision_unit, lower_cell, row_cells, rows, subdivision, unit_triangles, upper_cell,
    LatticeVertex,
};
use crate::obj_format::{
    apply_line, directive, document_fields, document_fields_from, field_limit, initial_state,
    lemma_parse_gives_whole_triangles, line_fields, line_numeric_fields, parse_from,
    parse_result, payload_start, Directive, ObjState,
};
use crate::obj_reader::{classify, count_fields, push_fan, read_face, read_row};
use crate::scan::{chars_of, fields_from, find_field_end, find_field_start, find_line_end};
use crate::types::{MeshError, TexturedVertex, ONE_BITS, ZERO_BITS};

verus! {

/// `String::push` appends one character to the string.
pub assume_specification[ String::push ](s: &mut String, c: char)
    ensures
        final(s)@ == old(s)@.push(c),
;

/// The text of `chars` as a string.
fn string_of(chars: &[char]) -> (s: String)
    ensures
        s@ == chars@,
{
    let mut s = String::new();
    let mut i: usize = 0;
    while i < chars.len()
        invariant
            i <= chars@.len(),
            s@ == chars@.take(i as int),
        decreases chars@.len() - i,
    {
        s.push(chars[i]);
        i = i + 1;
    }
    s
}

/// Where the fields of a line of directive `d` begin.
fn payload_offset(d: Directive) -> (r: usize)
    ensures
        r == payload_start(d),
{
    match d {
        Directive::Position => 2,
        Directive::Normal => 3,
        Directive::TexCoord => 3,
        Directive::Face => 2,
        Directive::Other => 0,
    }
}

/// How many numeric fields a line of directive `d` reads at most.
fn max_fields(d: Directive) -> (r: usize)
    ensures
        r == field_limit(d),
{
    match d {
        Directive::Position => 4,
        Directive::Normal => 4,
        Directive::TexCoord => 3,
        Directive::Face => 0,
        Directive::Other => 0,
    }
}

/// Appends the numeric fields that `line` reads to `out`.
fn push_line_fields(line: &[char], out: &mut Vec<String>, Ghost(texts): Ghost<Seq<Seq<char>>>)
    requires
        old(out)@.len() == texts.len(),
        forall|k: int| 0 <= k < texts.len() ==> (#[trigger] old(out)@[k])@ == texts[k],
    ensures
        final(out)@.len() == (texts + line_numeric_fields(line@)).len(),
        forall|k: int|
            0 <= k < final(out)@.len() ==> (#[trigger] final(out)@[k])@ == (texts
                + line_numeric_fields(line@))[k],
{
    let d = classify(line);
    let limit = max_fields(d);
    let mut pos: usize = payload_offset(d);
    let mut n: usize = 0;
    let mut done = false;
    let ghost mut seen: Seq<Seq<char>> = Seq::empty();
    while n < limit && !done
        invariant
            pos <= line@.len(),
            n <= limit == field_limit(directive(line@)),
            seen.len() == n,
            line_fields(line@) == seen + fields_from(line@, pos as int),
            done ==> fields_from(line@, pos as int).len() == 0,
            out@.len() == texts.len() + n,
            forall|k: int| 0 <= k < out@.len() ==> (#[trigger] out@[k])@ == (texts + seen)[k],
        decreases limit - n + (if done { 0int } else { 1int }),
    {
        let start = find_field_start(line, pos);
        if start >= line.len() {
            done = true;
        } else {
            let end = find_field_end(line, start);
            let token = string_of(&line[start..end]);
            proof {
                seen = seen.push(token@);
            }
            out.push(token);
            n = n + 1;
            pos = end;
        }
    }
}

/// The numeric fields of a document, in the order in which `parse_uv_obj`
/// reads their values: the first four fields of each `v` and `vn` line and
/// the first three of each `vt` line.
pub fn numeric_fields(text: &str) -> (fields: Vec<String>)
    ensures
        fields@.len() == document_fields(text@).len(),
        forall|k: int|
            0 <= k < fields@.len() ==> (#[trigger] fields@[k])@ == document_fields(text@)[k],
{
    let chars = chars_of(text);
    let s = chars.as_slice();
    let mut out: Vec<String> = Vec::new();
    let mut from: usize = 0;
    let ghost mut texts: Seq<Seq<char>> = Seq::empty();
    loop
        invariant
            s@ == text@,
            from <= s@.len(),
            out@.len() == texts.len(),
            forall|k: int| 0 <= k < texts.len() ==> (#[trigger] out@[k])@ == texts[k],
            document_fields(text@) == texts + document_fields_from(s@, from as int),
        decreases s@.len() - from,
    {
        let end = find_line_end(s, from);
        let line = &s[from..end];
        push_line_fields(line, &mut out, Ghost(texts));
        proof {
            texts = texts + line_numeric_fields(line@);
        }
        if end >= s.len() {
            return out;
        }
        from = end + 1;
    }
}

/// Parses a model document into its triangles, a flat list of vertices,
/// three per triangle, in document order.
///
/// `values[k]` is the value of numeric field `k` of the document, as
/// `numeric_fields` lists them, or `None` where that field is no number; a
/// field beyond the end of `values` counts as no number. Parsing fails with
/// `NumericFormat` as soon as a line reads such a field. Index references of
/// faces never fail: one that is missing, empty, no number or beyond the
/// rows read so far selects row 0 of its table, the default row.
pub fn parse_uv_obj(text: &str, values: &[Option<u32>]) -> (r: Result<
    Vec<TexturedVertex>,
    MeshError,
>)
    ensures
        match r {
            Ok(mesh) => parse_result(text@, values@) == Ok::<Seq<TexturedVertex>, MeshError>(
                mesh@,
            ),
            Err(e) => parse_result(text@, values@) == Err::<Seq<TexturedVertex>, MeshError>(e),
        },
        r is Ok ==> r->Ok_0@.len() % 3 == 0,
{
    let chars = chars_of(text);
    let s = chars.as_slice();
    let mut positions: Vec<[u32; 4]> = Vec::new();
    positions.push([ZERO_BITS, ZERO_BITS, ZERO_BITS, ONE_BITS]);
    let mut normals: Vec<[u32; 4]> = Vec::new();
    normals.push([ZERO_BITS, ZERO_BITS, ZERO_BITS, ZERO_BITS]);
    let mut uvs: Vec<[u32; 3]> = Vec::new();
    uvs.push([ZERO_BITS, ZERO_BITS, ZERO_BITS]);
    let mut triangles: Vec<TexturedVertex> = Vec::new();
    let mut cursor: usize = 0;
    let mut from: usize = 0;
    let ghost whole = parse_from(text@, 0, initial_state(), values@);
    proof {
        lemma_parse_gives_whole_triangles(text@, 0, initial_state(), values@);
    }
    loop
        invariant
            s@ == text@,
            from <= s@.len(),
            cursor <= values@.len(),
            positions@.len() > 0,
            normals@.len() > 0,
            uvs@.len() > 0,
            whole == parse_from(text@, 0, initial_state(), values@),
            whole.triangles.len() % 3 == 0,
            whole == parse_from(
                s@,
                from as int,
                ObjState {
                    positions: positions@,
                    normals: normals@,
                    uvs: uvs@,
                    triangles: triangles@,
                    consumed: cursor as int,
                    failed: false,
                },
                values@,
            ),
        decreases s@.len() - from,
    {
        let ghost st = ObjState {
            positions: positions@,
            normals: normals@,
            uvs: uvs@,
            triangles: triangles@,
            consumed: cursor as int,
            failed: false,
        };
        let end = find_line_end(s, from);
        let line = &s[from..end];
        let ghost next = apply_line(st, line@, values@);
        let mut failed = false;
        match classify(line) {
            Directive::Position => {
                let count = count_fields(line, 2, 4);
                match read_row(values, cursor, count, ONE_BITS) {
                    Some(row) => {
                        positions.push(row);
                        cursor = cursor + count;
                    },
                    None => {
                        failed = true;
                    },
                }
            },
            Directive::Normal => {
                let count = count_fields(line, 3, 4);
                match read_row(values, cursor, count, ZERO_BITS) {
                    Some(row) => {
                        normals.push(row);
                        cursor = cursor + count;
                    },
                    None => {
                        failed = true;
                    },
                }
            },
            Directive::TexCoord => {
                let count = count_fields(line, 3, 3);
                match read_row(values, cursor, count, ZERO_BITS) {
                    Some(row) => {
                        let uv = [row[0], row[1], row[2]];
                        uvs.push(uv);
                        cursor = cursor + count;
                    },
                    None => {
                        failed = true;
                    },
                }
            },
            Directive::Face => {
                let face = read_face(line, &positions, &normals, &uvs);
                push_fan(&mut triangles, &face);
            },
            Directive::Other => {},
        }
        if failed {
            assert(end < s@.len() ==> parse_from(s@, end + 1, next, values@) == next);
            return Err(MeshError::NumericFormat);
        }
        if end >= s.len() {
            return Ok(triangles);
        }
        from = end + 1;
    }
}

/// Why subdividing a model of `len` vertices by `factor` is refused, if it
/// is: a vertex count that is no multiple of three, else a factor of zero.
pub open spec fn subdivide_refusal(len: nat, factor: nat) -> Option<MeshError> {
    if len % 3 != 0 {
        Some(MeshError::MalformedMesh)
    } else if factor == 0 {
        Some(MeshError::ZeroFactor)
    } else {
        None
    }
}

/// Cuts every triangle of `model` into `factor * factor` triangles and
/// returns their corners as lattice points, three per triangle, in the order
/// of the model's triangles and, within one, by rows and cells.
pub fn subdivide(model: &Vec<TexturedVertex>, factor: usize) -> (r: Result<
    Vec<LatticeVertex>,
    MeshError,
>)
    ensures
        match r {
            Ok(plan) => {
                &&& subdivide_refusal(model@.len(), factor as nat) is None
                &&& lattice_points(plan@) == subdivision((model@.len() / 3) as nat, factor as nat)
                &&& plan@.len() == 3 * ((model@.len() / 3) * factor * factor)
                &&& all_inside(lattice_points(plan@), (model@.len() / 3) as nat, factor as nat)
                &&& unit_triangles(lattice_points(plan@))
            },
            Err(e) => subdivide_refusal(model@.len(), factor as nat) == Some(e),
        },
{
    if model.len() % 3 != 0 {
        return Err(MeshError::MalformedMesh);
    }
    if factor == 0 {
        return Err(MeshError::ZeroFactor);
    }
    let count = model.len() / 3;
    let mut out: Vec<LatticeVertex> = Vec::new();
    let mut t: usize = 0;
    while t < count
        invariant
            t <= count,
            lattice_points(out@) == subdivision(t as nat, factor as nat),
        decreases count - t,
    {
        let ghost done = lattice_points(out@);
        let mut i: usize = 0;
        while i < factor
            invariant
                i <= factor,
                lattice_points(out@) == done + rows(t as int, factor as nat, i as nat),
            decreases factor - i,
        {
            let ghost above = lattice_points(out@);
            let mut j: usize = 0;
            while j < factor - i
                invariant
                    i < factor,
                    j <= factor - i,
                    lattice_points(out@) == above + row_cells(t as int, i as int, j as nat),
                decreases factor - i - j,
            {
                let ghost before = lattice_points(out@);
                out.push(LatticeVertex { triangle: t, i: i, j: j });
                out.push(LatticeVertex { triangle: t, i: i + 1, j: j });
                out.push(LatticeVertex { triangle: t, i: i, j: j + 1 });
                if j > 0 {
                    out.push(LatticeVertex { triangle: t, i: i, j: j });
                    out.push(LatticeVertex { triangle: t, i: i + 1, j: j - 1 });
                    out.push(LatticeVertex { triangle: t, i: i + 1, j: j });
                    assert(lattice_points(out@) =~= before + upper_cell(
                        t as int,
                        i as int,
                        j as int,
                    ) + lower_cell(t as int, i as int, j as int));
                }
                j = j + 1;
            }
            i = i + 1;
        }
        t = t + 1;
    }
    proof {
        lemma_subdivision_len(count as nat, factor as nat);
        lemma_subdivision_inside(count as nat, factor as nat, count as nat);
        lemma_subdivision_unit(count as nat, factor as nat);
    }
    Ok(out)
}

/// The triangles of a model: triangle `k` has the vertices `3 * k`,
/// `3 * k + 1` and `3 * k + 2` as its corners.
pub open spec fn grouped(model: Seq<TexturedVertex>) -> Seq<[TexturedVertex; 3]> {
    Seq::new(model.len() / 3, |k: int| [model[3 * k], model[3 * k + 1], model[3 * k + 2]])
}

/// Groups the vertices of a model into its triangles. Fails with
/// `MalformedMesh` exactly when the last triangle would be partial.
pub fn triangles(model: &Vec<TexturedVertex>) -> (r: Result<Vec<[TexturedVertex; 3]>, MeshError>)
    ensures
        match r {
            Ok(groups) => model@.len() % 3 == 0 && groups@ == grouped(model@),
            Err(e) => model@.len() % 3 != 0 && e == MeshError::MalformedMesh,
        },
{
    if model.len() % 3 != 0 {
        return Err(MeshError::MalformedMesh);
    }
    let count = model.len() / 3;
    let mut out: Vec<[TexturedVertex; 3]> = Vec::new();
    let mut k: usize = 0;
    while k < count
        invariant
            k <= count == model@.len() / 3,
            model@.len() % 3 == 0,
            model@.len() <= usize::MAX,
            out@ == grouped(model@).take(k as int),
        decreases count - k,
    {
        let group = [model[3 * k], model[3 * k + 1], model[3 * k + 2]];
        out.push(group);
        k = k + 1;
    }
    Ok(out)
}

/// A direction as a homogeneous vector: the three components, then `0.0`.
pub open spec fn direction(d: [u32; 3]) -> [u32; 4] {
    [d[0], d[1], d[2], ZERO_BITS]
}

/// A point as a homogeneous vector: the three components, then `1.0`.
pub open spec fn point(p: [u32; 3]) -> [u32; 4] {
    [p[0], p[1], p[2], ONE_BITS]
}

/// Builds the homogeneous vector of a direction.
fn direction_of(d: &[u32; 3]) -> (r: [u32; 4])
    ensures
        r == direction(*d),
{
    let r = [d[0], d[1], d[2], ZERO_BITS];
    r
}

/// Builds the homogeneous vector of a point.
fn point_of(p: &[u32; 3]) -> (r: [u32; 4])
    ensures
        r == point(*p),
{
    let r = [p[0], p[1], p[2], ONE_BITS];
    r
}

/// The model with the normal of triangle `k` given to each of its three
/// corners; positions and texture coordinates stay.
pub open spec fn with_face_normals(model: Seq<TexturedVertex>, normals: Seq<[u32; 3]>) -> Seq<
    TexturedVertex,
> {
    Seq::new(
        model.len(),
        |k: int|
            TexturedVertex {
                position: model[k].position,
                normal: direction(normals[k / 3]),
                uv: model[k].uv,
            },
    )
}

/// Whether the three corners of every triangle of `mesh` carry the same
/// normal, bit for bit.
pub open spec fn flat(mesh: Seq<TexturedVertex>) -> bool {
    forall|t: int|
        0 <= t && 3 * t + 2 < mesh.len() ==> {
            &&& (#[trigger] mesh[3 * t]).normal == mesh[3 * t + 1].normal
            &&& mesh[3 * t].normal == mesh[3 * t + 2].normal
        }
}

/// A model whose normals were given per triangle is flat.
pub proof fn lemma_face_normals_flat(model: Seq<TexturedVertex>, normals: Seq<[u32; 3]>)
    ensures
        flat(with_face_normals(model, normals)),
{
}

/// What resetting the normals of a model gives: `MalformedMesh` where the
/// vertices do not group into triangles, `ValueCount` where the normals do
/// not number one per triangle.
pub open spec fn reset_normals_result(model: Seq<TexturedVertex>, normals: Seq<[u32; 3]>) -> Result<
    Seq<TexturedVertex>,
    MeshError,
> {
    if model.len() % 3 != 0 {
        Err(MeshError::MalformedMesh)
    } else if normals.len() != model.len() / 3 {
        Err(MeshError::ValueCount)
    } else {
        Ok(with_face_normals(model, normals))
    }
}

/// Gives each triangle one flat normal. `face_normals[k]` holds the first
/// three components of the normal of triangle `k`, which the caller has
/// computed from its corners; the fourth component is set to `0.0`. Whatever
/// normal a vertex carried before is overwritten.
pub fn reset_normals(model: &Vec<TexturedVertex>, face_normals: &Vec<[u32; 3]>) -> (r: Result<
    Vec<TexturedVertex>,
    MeshError,
>)
    ensures
        match r {
            Ok(mesh) => reset_normals_result(model@, face_normals@) == Ok::<
                Seq<TexturedVertex>,
                MeshError,
            >(mesh@),
            Err(e) => reset_normals_result(model@, face_normals@) == Err::<
                Seq<TexturedVertex>,
                MeshError,
            >(e),
        },
        r is Ok ==> flat(r->Ok_0@),
{
    if model.len() % 3 != 0 {
        return Err(MeshError::MalformedMesh);
    }
    if face_normals.len() != model.len() / 3 {
        return Err(MeshError::ValueCount);
    }
    let mut out: Vec<TexturedVertex> = Vec::new();
    let mut k: usize = 0;
    while k < model.len()
        invariant
            k <= model@.len(),
            model@.len() % 3 == 0,
            face_normals@.len() == model@.len() / 3,
            out@ == with_face_normals(model@, face_normals@).take(k as int),
        decreases model@.len() - k,
    {
        let v = &model[k];
        out.push(TexturedVertex::new(v.position, direction_of(&face_normals[k / 3]), v.uv));
        k = k + 1;
    }
    assert(with_face_normals(model@, face_normals@).take(k as int) =~= with_face_normals(
        model@,
        face_normals@,
    ));
    proof {
        lemma_face_normals_flat(model@, face_normals@);
    }
    Ok(out)
}

/// The model with vertex `k` moved onto the unit sphere at `directions[k]`:
/// its position is that point, its normal that direction; texture
/// coordinates stay.
pub open spec fn on_sphere(model: Seq<TexturedVertex>, directions: Seq<[u32; 3]>) -> Seq<
    TexturedVertex,
> {
    Seq::new(
        model.len(),
        |k: int|
            TexturedVertex {
                position: point(directions[k]),
                normal: direction(directions[k]),
                uv: model[k].uv,
            },
    )
}

/// Projecting a projected model again, with the directions that the first
/// projection gave it, changes nothing.
pub proof fn lemma_on_sphere_again(model: Seq<TexturedVertex>, directions: Seq<[u32; 3]>)
    ensures
        on_sphere(on_sphere(model, directions), directions) == on_sphere(model, directions),
{
}

/// What projecting a model onto the unit sphere gives: `MalformedMesh`
/// where the vertices do not group into triangles, `ValueCount` where the
/// directions do not number one per vertex.
pub open spec fn sphereize_result(model: Seq<TexturedVertex>, directions: Seq<[u32; 3]>) -> Result<
    Seq<TexturedVertex>,
    MeshError,
> {
    if model.len() % 3 != 0 {
        Err(MeshError::MalformedMesh)
    } else if directions.len() != model.len() {
        Err(MeshError::ValueCount)
    } else {
        Ok(on_sphere(model, directions))
    }
}

/// Projects a model onto the unit sphere. `directions[k]` holds the first
/// three components of the position of vertex `k` rescaled to unit length,
/// which the caller has computed.
pub fn sphereize(model: &Vec<TexturedVertex>, directions: &Vec<[u32; 3]>) -> (r: Result<
    Vec<TexturedVertex>,
    MeshError,
>)
    ensures
        match r {
            Ok(mesh) => sphereize_result(model@, directions@) == Ok::<
                Seq<TexturedVertex>,
                MeshError,
            >(mesh@),
            Err(e) => sphereize_result(model@, directions@) == Err::<
                Seq<TexturedVertex>,
                MeshError,
            >(e),
        },
{
    if model.len() % 3 != 0 {
        return Err(MeshError::MalformedMesh);
    }
    if directions.len() != model.len() {
        return Err(MeshError::ValueCount);
    }
    let mut out: Vec<TexturedVertex> = Vec::new();
    let mut k: usize = 0;
    while k < model.len()
        invariant
            k <= model@.len(),
            directions@.len() == model@.len(),
            out@ == on_sphere(model@, directions@).take(k as int),
        decreases model@.len() - k,
    {
        let d = &directions[k];
        out.push(TexturedVertex::new(point_of(d), direction_of(d), model[k].uv));
        k = k + 1;
    }
    assert(on_sphere(model@, directions@).take(k as int) =~= on_sphere(model@, directions@));
    Ok(out)
}

/// The model with vertex `k` moved to `positions[k]`; normals and texture
/// coordinates stay.
pub open spec fn moved(model: Seq<TexturedVertex>, positions: Seq<[u32; 3]>) -> Seq<
    TexturedVertex,
> {
    Seq::new(
        model.len(),
        |k: int|
            TexturedVertex {
                position: point(positions[k]),
                normal: model[k].normal,
                uv: model[k].uv,
            },
    )
}

/// What moving the vertices of a model gives: `MalformedMesh` where the
/// vertices do not group into triangles, `ValueCount` where the positions do
/// not number one per vertex.
pub open spec fn reposition_result(model: Seq<TexturedVertex>, positions: Seq<[u32; 3]>) -> Result<
    Seq<TexturedVertex>,
    MeshError,
> {
    if model.len() % 3 != 0 {
        Err(MeshError::MalformedMesh)
    } else if positions.len() != model.len() {
        Err(MeshError::ValueCount)
    } else {
        Ok(moved(model, positions))
    }
}

/// Moves vertex `k` of a model to `positions[k]`, a point (`w = 1.0`).
pub fn reposition(model: &Vec<TexturedVertex>, positions: &Vec<[u32; 3]>) -> (r: Result<
    Vec<TexturedVertex>,
    MeshError,
>)
    ensures
        match r {
            Ok(mesh) => reposition_result(model@, positions@) == Ok::<
                Seq<TexturedVertex>,
                MeshError,
            >(mesh@),
            Err(e) => reposition_result(model@, positions@) == Err::<
                Seq<TexturedVertex>,
                MeshError,
            >(e),
        },
{
    if model.len() % 3 != 0 {
        return Err(MeshError::MalformedMesh);
    }
    if positions.len() != model.len() {
        return Err(MeshError::ValueCount);
    }
    let mut shifted: Vec<TexturedVertex> = Vec::new();
    let mut k: usize = 0;
    while k < model.len()
        invariant
            k <= model@.len(),
            positions@.len() == model@.len(),
            shifted@ == moved(model@, positions@).take(k as int),
        decreases model@.len() - k,
    {
        let v = &model[k];
        shifted.push(TexturedVertex::new(point_of(&positions[k]), v.normal, v.uv));
        k = k + 1;
    }
    assert(moved(model@, positions@).take(k as int) =~= moved(model@, positions@));
    Ok(shifted)
}

/// What displacing a model gives: the moved model with its normals reset,
/// or the error of whichever of the two steps fails first.
pub open spec fn displace_result(
    model: Seq<TexturedVertex>,
    positions: Seq<[u32; 3]>,
    normals: Seq<[u32; 3]>,
) -> Result<Seq<TexturedVertex>, MeshError> {
    match reposition_result(model, positions) {
        Ok(shifted) => reset_normals_result(shifted, normals),
        Err(e) => Err(e),
    }
}

/// Displaces a model and resets its normals. `positions[k]` holds the first
/// three components of the displaced position of vertex `k`, and
/// `face_normals[t]` those of the normal of displaced triangle `t`, that is
/// of triangle `t` of `reposition(model, positions)`; the caller has
/// computed both.
pub fn displace(
    model: &Vec<TexturedVertex>,
    positions: &Vec<[u32; 3]>,
    face_normals: &Vec<[u32; 3]>,
) -> (r: Result<Vec<TexturedVertex>, MeshError>)
    ensures
        match r {
            Ok(mesh) => displace_result(model@, positions@, face_normals@) == Ok::<
                Seq<TexturedVertex>,
                MeshError,
            >(mesh@),
            Err(e) => displace_result(model@, positions@, face_normals@) == Err::<
                Seq<TexturedVertex>,
                MeshError,
            >(e),
        },
        r is Ok ==> flat(r->Ok_0@),
{
    match reposition(model, positions) {
        Ok(shifted) => reset_normals(&shifted, face_normals),
        Err(e) => Err(e),
    }
}

} // verus!
