use mesh_geometry::obj_tools::{numeric_fields, parse_uv_obj};
use mesh_geometry::scan::is_space_char;
use mesh_geometry::types::{MeshError, TexturedVertex, ONE_BITS, ZERO_BITS};

fn values_of(text: &str) -> Vec<Option<u32>> {
    numeric_fields(text)
        .iter()
        .map(|t| t.parse::<f32>().ok().map(f32::to_bits))
        .collect()
}

fn parse(text: &str) -> Result<Vec<TexturedVertex>, MeshError> {
    parse_uv_obj(text, &values_of(text))
}

fn bits4(a: [f32; 4]) -> [u32; 4] {
    [a[0].to_bits(), a[1].to_bits(), a[2].to_bits(), a[3].to_bits()]
}

fn bits3(a: [f32; 3]) -> [u32; 3] {
    [a[0].to_bits(), a[1].to_bits(), a[2].to_bits()]
}

fn point(x: f32, y: f32, z: f32) -> TexturedVertex {
    TexturedVertex::new(bits4([x, y, z, 1.0]), [0; 4], [0; 3])
}

const DEFAULT_POSITION: [u32; 4] = [0, 0, 0, 0x3f80_0000];

#[test]
fn unit_constants_are_the_float_bit_patterns() {
    assert_eq!(ONE_BITS, 1.0f32.to_bits());
    assert_eq!(ZERO_BITS, 0.0f32.to_bits());
}

#[test]
fn single_triangle_matches_table_rows() {
    let text = "v 0 0 0\nv 1 0 0\nv 0 1 0\nvn 0 0 1\nvt 0.5 0.25\nf 1/1/1 2/1/1 3/1/1\n";
    let mesh = parse(text).unwrap();
    assert_eq!(mesh.len(), 3);
    let normal = bits4([0.0, 0.0, 1.0, 0.0]);
    let uv = bits3([0.5, 0.25, 0.0]);
    assert_eq!(mesh[0], TexturedVertex::new(bits4([0.0, 0.0, 0.0, 1.0]), normal, uv));
    assert_eq!(mesh[1], TexturedVertex::new(bits4([1.0, 0.0, 0.0, 1.0]), normal, uv));
    assert_eq!(mesh[2], TexturedVertex::new(bits4([0.0, 1.0, 0.0, 1.0]), normal, uv));
}

#[test]
fn references_select_distinct_rows_of_each_table() {
    let text = "v 1 2 3\nv 4 5 6\nv 7 8 9\nvn 1 0 0\nvn 0 1 0\nvt 0.1 0.2\nvt 0.3 0.4 0.5\n\
                f 3/2/1 1/1/2 2/2/2\n";
    let mesh = parse(text).unwrap();
    assert_eq!(
        mesh,
        vec![
            TexturedVertex::new(
                bits4([7.0, 8.0, 9.0, 1.0]),
                bits4([1.0, 0.0, 0.0, 0.0]),
                bits3([0.3, 0.4, 0.5])
            ),
            TexturedVertex::new(
                bits4([1.0, 2.0, 3.0, 1.0]),
                bits4([0.0, 1.0, 0.0, 0.0]),
                bits3([0.1, 0.2, 0.0])
            ),
            TexturedVertex::new(
                bits4([4.0, 5.0, 6.0, 1.0]),
                bits4([0.0, 1.0, 0.0, 0.0]),
                bits3([0.3, 0.4, 0.5])
            ),
        ]
    );
}

#[test]
fn three_field_position_gets_unit_w() {
    let mesh = parse("v 2 3 4\nf 1 1 1\n").unwrap();
    assert_eq!(mesh[0].position, bits4([2.0, 3.0, 4.0, 1.0]));
}

#[test]
fn four_field_position_keeps_its_w() {
    let mesh = parse("v 2 3 4 0.5\nf 1 1 1\n").unwrap();
    assert_eq!(mesh[0].position, bits4([2.0, 3.0, 4.0, 0.5]));
}

#[test]
fn short_position_fills_every_missing_component_with_one() {
    let mesh = parse("v 5\nf 1 1 1\n").unwrap();
    assert_eq!(mesh[0].position, bits4([5.0, 1.0, 1.0, 1.0]));
}

#[test]
fn three_field_normal_gets_zero_w() {
    let mesh = parse("v 0 0 0\nvn 0 1 0\nf 1//1 1//1 1//1\n").unwrap();
    assert_eq!(mesh[0].normal, bits4([0.0, 1.0, 0.0, 0.0]));
}

#[test]
fn empty_uv_reference_gives_zero_uv() {
    let mesh = parse("v 1 1 1\nvt 0.5 0.5\nvn 0 0 1\nf 1//1 1//1 1//1\n").unwrap();
    assert_eq!(mesh.len(), 3);
    for v in mesh {
        assert_eq!(v.uv, bits3([0.0, 0.0, 0.0]));
        assert_eq!(v.normal, bits4([0.0, 0.0, 1.0, 0.0]));
    }
}

#[test]
fn missing_references_give_default_normal_and_uv() {
    let mesh = parse("v 1 1 1\nvt 0.5 0.5\nvn 0 0 1\nf 1 1 1\n").unwrap();
    for v in mesh {
        assert_eq!(v.position, bits4([1.0, 1.0, 1.0, 1.0]));
        assert_eq!(v.uv, [0, 0, 0]);
        assert_eq!(v.normal, [0, 0, 0, 0]);
    }
}

#[test]
fn two_field_texture_gets_zero_third() {
    let mesh = parse("v 0 0 0\nvt 0.25 0.75\nf 1/1 1/1 1/1\n").unwrap();
    assert_eq!(mesh[0].uv, bits3([0.25, 0.75, 0.0]));
}

#[test]
fn quad_gives_two_triangles() {
    let text = "v 0 0 0\nv 1 0 0\nv 1 1 0\nv 0 1 0\nf 1 2 3 4\n";
    let mesh = parse(text).unwrap();
    let c = [
        point(0.0, 0.0, 0.0),
        point(1.0, 0.0, 0.0),
        point(1.0, 1.0, 0.0),
        point(0.0, 1.0, 0.0),
    ];
    assert_eq!(mesh, vec![c[0], c[1], c[2], c[0], c[2], c[3]]);
}

#[test]
fn pentagon_gives_three_triangles() {
    let text = "v 0 0 0\nv 1 0 0\nv 2 1 0\nv 1 2 0\nv 0 1 0\nf 1 2 3 4 5\n";
    let mesh = parse(text).unwrap();
    let c = [
        point(0.0, 0.0, 0.0),
        point(1.0, 0.0, 0.0),
        point(2.0, 1.0, 0.0),
        point(1.0, 2.0, 0.0),
        point(0.0, 1.0, 0.0),
    ];
    assert_eq!(mesh.len(), 9);
    assert_eq!(mesh, vec![c[0], c[1], c[2], c[0], c[2], c[3], c[0], c[3], c[4]]);
}

#[test]
fn face_of_k_corners_gives_k_minus_two_triangles() {
    for k in 3..12usize {
        let mut text = String::from("v 1 2 3\nf");
        for _ in 0..k {
            text.push_str(" 1");
        }
        text.push('\n');
        assert_eq!(parse(&text).unwrap().len(), 3 * (k - 2));
    }
}

#[test]
fn face_of_fewer_than_three_corners_gives_nothing() {
    assert_eq!(parse("v 0 0 0\nf 1 1\n").unwrap(), vec![]);
    assert_eq!(parse("v 0 0 0\nf 1\n").unwrap(), vec![]);
    assert_eq!(parse("v 0 0 0\nf \n").unwrap(), vec![]);
}

#[test]
fn faces_come_out_in_document_order() {
    let text = "v 1 0 0\nv 2 0 0\nf 1 1 1\nf 2 2 2\n";
    let mesh = parse(text).unwrap();
    let a = point(1.0, 0.0, 0.0);
    let b = point(2.0, 0.0, 0.0);
    assert_eq!(mesh, vec![a, a, a, b, b, b]);
}

#[test]
fn bad_number_is_fatal() {
    assert_eq!(parse("v 0 zero 0\n"), Err(MeshError::NumericFormat));
    assert_eq!(parse("vn 0 0 1x\n"), Err(MeshError::NumericFormat));
    assert_eq!(parse("vt 0.5 ?\n"), Err(MeshError::NumericFormat));
}

#[test]
fn bad_number_after_good_lines_is_fatal() {
    let text = "v 0 0 0\nv 1 0 0\nv 0 1 0\nf 1 2 3\nv 1 2 three\nf 1 2 3\n";
    assert_eq!(parse(text), Err(MeshError::NumericFormat));
}

#[test]
fn fields_beyond_the_limit_are_never_read() {
    let mesh = parse("v 1 2 3 4 junk 6\nvt 0.5 0.5 0.5 junk\nf 1/1 1/1 1/1\n").unwrap();
    assert_eq!(mesh[0].position, bits4([1.0, 2.0, 3.0, 4.0]));
    assert_eq!(mesh[0].uv, bits3([0.5, 0.5, 0.5]));
}

#[test]
fn missing_value_counts_as_no_number() {
    let text = "v 1 2 3\nv 4 5 6\nf 1 2 1\n";
    let mut values = values_of(text);
    assert_eq!(values.len(), 6);
    values.pop();
    assert_eq!(parse_uv_obj(text, &values), Err(MeshError::NumericFormat));
    assert_eq!(parse_uv_obj(text, &[]), Err(MeshError::NumericFormat));
}

#[test]
fn surplus_values_are_ignored() {
    let text = "v 1 2 3\nf 1 1 1\n";
    let mut values = values_of(text);
    values.push(Some(7));
    values.push(None);
    assert_eq!(parse_uv_obj(text, &values), parse(text));
    assert_eq!(parse(text).unwrap().len(), 3);
}

#[test]
fn values_are_taken_as_given() {
    let text = "v a b c\nf 1 1 1\n";
    let values = [Some(11), Some(22), Some(33)];
    let mesh = parse_uv_obj(text, &values).unwrap();
    assert_eq!(mesh[0].position, [11, 22, 33, ONE_BITS]);
}

#[test]
fn malformed_references_select_the_default_row() {
    let text = "v 1 0 0\nv 0 1 0\nv 0 0 1\nf x 2 3\nf 9 2 3\nf -1 2 3\nf 0 2 3\nf 1.5 2 3\nf + 2 3\n";
    let mesh = parse(text).unwrap();
    assert_eq!(mesh.len(), 18);
    for t in 0..6 {
        assert_eq!(mesh[3 * t].position, DEFAULT_POSITION);
        assert_eq!(mesh[3 * t + 1], point(0.0, 1.0, 0.0));
        assert_eq!(mesh[3 * t + 2], point(0.0, 0.0, 1.0));
    }
}

#[test]
fn reference_may_carry_a_plus_sign_and_leading_zeros() {
    let text = "v 1 0 0\nv 0 1 0\nf +2 002 +02\n";
    let mesh = parse(text).unwrap();
    let b = point(0.0, 1.0, 0.0);
    assert_eq!(mesh, vec![b, b, b]);
}

#[test]
fn huge_reference_selects_the_default_row() {
    let text = "v 1 0 0\nf 99999999999999999999999999999999999999999999 1 1\n";
    let mesh = parse(text).unwrap();
    assert_eq!(mesh[0].position, DEFAULT_POSITION);
    assert_eq!(mesh[1], point(1.0, 0.0, 0.0));
}

#[test]
fn reference_to_a_row_not_yet_read_selects_the_default_row() {
    let text = "f 1 1 1\nv 5 5 5\nf 1 1 1\n";
    let mesh = parse(text).unwrap();
    assert_eq!(mesh.len(), 6);
    assert_eq!(mesh[0].position, DEFAULT_POSITION);
    assert_eq!(mesh[3], point(5.0, 5.0, 5.0));
}

#[test]
fn parts_after_the_third_are_ignored() {
    let text = "v 1 0 0\nvt 0.5 0.5\nvn 0 0 1\nf 1/1/1/zzz 1/1/1/9 1/1/1/\n";
    let mesh = parse(text).unwrap();
    let v = TexturedVertex::new(
        bits4([1.0, 0.0, 0.0, 1.0]),
        bits4([0.0, 0.0, 1.0, 0.0]),
        bits3([0.5, 0.5, 0.0]),
    );
    assert_eq!(mesh, vec![v, v, v]);
}

#[test]
fn other_lines_are_skipped() {
    let text = "# v 1 2 3\no thing\ng group\nusemtl m\ns off\nvp 1 2 3\nv\t1 2 3\n v 1 2 3\n\nV 1 2 3\nfoo\n";
    assert_eq!(parse(text).unwrap(), vec![]);
    assert_eq!(numeric_fields(text), Vec::<String>::new());
}

#[test]
fn empty_document_has_no_triangle() {
    assert_eq!(parse("").unwrap(), vec![]);
    assert_eq!(parse("\n\n").unwrap(), vec![]);
}

#[test]
fn last_line_needs_no_line_feed() {
    let mesh = parse("v 1 2 3\nf 1 1 1").unwrap();
    assert_eq!(mesh.len(), 3);
    assert_eq!(mesh[2], point(1.0, 2.0, 3.0));
}

#[test]
fn carriage_returns_and_blanks_separate_fields() {
    let text = "v 1   2\t3\r\nv\u{a0}9 9 9\r\nf   1  1\u{3000}1 \r\n";
    let mesh = parse(text).unwrap();
    assert_eq!(mesh, vec![point(1.0, 2.0, 3.0); 3]);
    assert_eq!(numeric_fields(text), vec!["1", "2", "3"]);
}

#[test]
fn numeric_fields_lists_what_parsing_reads() {
    let text = "v 1 2 3 4 5\nvt 0.5 0.25 0.125 9\nf 1 2 3\n# v 9\nvn -1e3 nope\nv\n";
    assert_eq!(numeric_fields(text), vec!["1", "2", "3", "4", "0.5", "0.25", "0.125", "-1e3", "nope"]);
}

#[test]
fn separators_are_the_unicode_white_space() {
    let mut c = 0u32;
    while c <= 0x10ffff {
        if let Some(ch) = char::from_u32(c) {
            assert_eq!(is_space_char(ch), ch.is_whitespace(), "U+{:04X}", c);
        }
        c += 1;
    }
}
