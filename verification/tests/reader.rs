use mesh_geometry::obj_format::Directive;
use mesh_geometry::obj_reader::{
    classify, count_fields, find_slash, push_fan, read_corner, read_face, read_index, read_row,
};
use mesh_geometry::scan::{chars_of, find_field_end, find_field_start, find_line_end};
use mesh_geometry::types::TexturedVertex;

fn chars(s: &str) -> Vec<char> {
    s.chars().collect()
}

fn v(n: u32) -> TexturedVertex {
    TexturedVertex::new([n, 0, 0, 0], [0, n, 0, 0], [0, 0, n])
}

#[test]
fn chars_of_lists_every_character() {
    assert_eq!(chars_of("v 1\u{e9}\n"), vec!['v', ' ', '1', '\u{e9}', '\n']);
    assert_eq!(chars_of(""), Vec::<char>::new());
}

#[test]
fn line_ends_at_the_line_feed() {
    let s = chars("ab\ncd\n\nxyz");
    assert_eq!(find_line_end(&s, 0), 2);
    assert_eq!(find_line_end(&s, 2), 2);
    assert_eq!(find_line_end(&s, 3), 5);
    assert_eq!(find_line_end(&s, 6), 6);
    assert_eq!(find_line_end(&s, 7), 10);
    assert_eq!(find_line_end(&s, 10), 10);
}

#[test]
fn fields_are_runs_between_separators() {
    let s = chars("  ab \t c");
    assert_eq!(find_field_start(&s, 0), 2);
    assert_eq!(find_field_end(&s, 2), 4);
    assert_eq!(find_field_start(&s, 4), 7);
    assert_eq!(find_field_end(&s, 7), 8);
    assert_eq!(find_field_start(&s, 8), 8);
    assert_eq!(find_field_end(&s, 8), 8);
    assert_eq!(find_field_end(&s, 0), 0);
}

#[test]
fn directive_is_decided_by_the_tag() {
    assert_eq!(classify(&chars("v 1 2 3")), Directive::Position);
    assert_eq!(classify(&chars("v ")), Directive::Position);
    assert_eq!(classify(&chars("vn 1 2 3")), Directive::Normal);
    assert_eq!(classify(&chars("vt 1 2")), Directive::TexCoord);
    assert_eq!(classify(&chars("f 1 2 3")), Directive::Face);
    assert_eq!(classify(&chars("v")), Directive::Other);
    assert_eq!(classify(&chars("vn")), Directive::Other);
    assert_eq!(classify(&chars("vn\t1")), Directive::Other);
    assert_eq!(classify(&chars("vp 1 2")), Directive::Other);
    assert_eq!(classify(&chars(" f 1 2 3")), Directive::Other);
    assert_eq!(classify(&chars("F 1 2 3")), Directive::Other);
    assert_eq!(classify(&chars("")), Directive::Other);
    assert_eq!(classify(&chars("# f 1 2 3")), Directive::Other);
}

#[test]
fn fields_are_counted_up_to_the_limit() {
    let line = chars("v 1 2 3 4 5");
    assert_eq!(count_fields(&line, 2, 4), 4);
    assert_eq!(count_fields(&line, 2, 9), 5);
    assert_eq!(count_fields(&line, 2, 0), 0);
    assert_eq!(count_fields(&chars("v   "), 2, 4), 0);
    assert_eq!(count_fields(&chars("vt 0.5"), 3, 3), 1);
}

#[test]
fn row_takes_values_then_defaults() {
    let values = [Some(1), Some(2), Some(3), None, Some(5)];
    assert_eq!(read_row(&values, 0, 3, 9), Some([1, 2, 3, 9]));
    assert_eq!(read_row(&values, 1, 2, 9), Some([2, 3, 9, 9]));
    assert_eq!(read_row(&values, 4, 1, 9), Some([5, 9, 9, 9]));
    assert_eq!(read_row(&values, 5, 0, 9), Some([9, 9, 9, 9]));
    assert_eq!(read_row(&values, 0, 4, 9), None);
    assert_eq!(read_row(&values, 3, 1, 9), None);
    assert_eq!(read_row(&values, 4, 2, 9), None);
    assert_eq!(read_row(&values, 5, 1, 9), None);
}

#[test]
fn index_is_decimal_and_within_the_table() {
    let idx = |s: &str, len: usize| {
        let t = chars(s);
        read_index(&t, 0, t.len(), len)
    };
    assert_eq!(idx("0", 5), 0);
    assert_eq!(idx("4", 5), 4);
    assert_eq!(idx("5", 5), 0);
    assert_eq!(idx("12", 13), 12);
    assert_eq!(idx("12", 12), 0);
    assert_eq!(idx("+3", 5), 3);
    assert_eq!(idx("003", 5), 3);
    assert_eq!(idx("", 5), 0);
    assert_eq!(idx("+", 5), 0);
    assert_eq!(idx("++3", 5), 0);
    assert_eq!(idx("-3", 5), 0);
    assert_eq!(idx("3 ", 5), 0);
    assert_eq!(idx("3a", 5), 0);
    assert_eq!(idx("a3", 5), 0);
    assert_eq!(idx("\u{663}", 5), 0);
    assert_eq!(idx("340282366920938463463374607431768211456", usize::MAX), 0);
    assert_eq!(idx("18446744073709551616", usize::MAX), 0);
    assert_eq!(idx("1", 0), 0);
    let t = chars("x12y");
    assert_eq!(read_index(&t, 1, 3, 20), 12);
    assert_eq!(read_index(&t, 1, 1, 20), 0);
}

#[test]
fn slash_ends_a_part() {
    let t = chars("12//3");
    assert_eq!(find_slash(&t, 0), 2);
    assert_eq!(find_slash(&t, 3), 3);
    assert_eq!(find_slash(&t, 4), 5);
    assert_eq!(find_slash(&t, 5), 5);
}

#[test]
fn corner_takes_position_then_texture_then_normal() {
    let positions = vec![[0, 0, 0, 0], [1, 1, 1, 1], [2, 2, 2, 2]];
    let normals = vec![[10, 10, 10, 10], [11, 11, 11, 11]];
    let uvs = vec![[20, 20, 20], [21, 21, 21], [22, 22, 22], [23, 23, 23]];
    let corner = |s: &str| {
        let c = read_corner(&chars(s), &positions, &normals, &uvs);
        (c.position[0], c.uv[0], c.normal[0])
    };
    assert_eq!(corner("2/3/1"), (2, 23, 11));
    assert_eq!(corner("2"), (2, 20, 10));
    assert_eq!(corner("2/3"), (2, 23, 10));
    assert_eq!(corner("2//1"), (2, 20, 11));
    assert_eq!(corner("/3/1"), (0, 23, 11));
    assert_eq!(corner("//"), (0, 20, 10));
    assert_eq!(corner("1/1/1/2/2"), (1, 21, 11));
    assert_eq!(corner("3/4/2"), (0, 20, 10));
    assert_eq!(corner("2/x/1"), (2, 20, 11));
    assert_eq!(corner(""), (0, 20, 10));
}

#[test]
fn face_reads_every_corner() {
    let positions = vec![[0, 0, 0, 0], [1, 1, 1, 1], [2, 2, 2, 2]];
    let normals = vec![[10, 10, 10, 10]];
    let uvs = vec![[20, 20, 20]];
    let face = read_face(&chars("f 1  2 1\t2 "), &positions, &normals, &uvs);
    let firsts: Vec<u32> = face.iter().map(|c| c.position[0]).collect();
    assert_eq!(firsts, vec![1, 2, 1, 2]);
    assert_eq!(read_face(&chars("f "), &positions, &normals, &uvs), vec![]);
}

#[test]
fn fan_joins_corner_zero_to_each_pair() {
    let mut out = vec![v(99)];
    push_fan(&mut out, &vec![v(0), v(1), v(2), v(3), v(4)]);
    assert_eq!(out, vec![v(99), v(0), v(1), v(2), v(0), v(2), v(3), v(0), v(3), v(4)]);
    push_fan(&mut out, &vec![v(7), v(8)]);
    push_fan(&mut out, &vec![]);
    assert_eq!(out.len(), 10);
    push_fan(&mut out, &vec![v(5), v(6), v(7)]);
    assert_eq!(out[10..], [v(5), v(6), v(7)]);
}
