//! STL files, binary and ASCII.
use vstd::prelude::*;
use crate::error::{is_parse_failed, Model3DError};
use crate::float_bits::{le_u32, u32_from_le};
use crate::mesh::MeshData;
use crate::text::{
    lemma_split_on_len, split_on, starts_with, starts_with_at, str_to_chars, text_lines, trim,
    trim_range, word_ranges, words,
};

verus! {

/// The little-endian `u32` at `off` in `d`.
pub open spec fn le_u32_at(d: Seq<u8>, off: int) -> u32 {
    le_u32(d[off], d[off + 1], d[off + 2], d[off + 3]) as u32
}

/// Three little-endian binary32 bit patterns starting at `off` in `d`.
pub open spec fn vec3_at(d: Seq<u8>, off: int) -> [u32; 3] {
    [le_u32_at(d, off), le_u32_at(d, off + 4), le_u32_at(d, off + 8)]
}

/// The triangle count of a binary STL file: the `u32` after its 80-byte header.
pub open spec fn binary_stl_triangle_count(d: Seq<u8>) -> int {
    le_u32_at(d, 80) as int
}

/// The size that a binary STL file with `d`'s triangle count needs: the header,
/// the count, and 50 bytes per triangle (normal, three vertices, attribute).
pub open spec fn binary_stl_needed_len(d: Seq<u8>) -> int {
    84 + 50 * binary_stl_triangle_count(d)
}

/// Vertex `j` of a binary STL file: vertex `j % 3` of triangle `j / 3`.
pub open spec fn binary_stl_vertex(d: Seq<u8>, j: int) -> [u32; 3] {
    vec3_at(d, 84 + 50 * (j / 3) + 12 + 12 * (j % 3))
}

/// The normal of vertex `j` of a binary STL file: that of triangle `j / 3`.
pub open spec fn binary_stl_normal(d: Seq<u8>, j: int) -> [u32; 3] {
    vec3_at(d, 84 + 50 * (j / 3))
}

/// `m` is the mesh of the binary STL file `d`: one vertex per triangle corner,
/// each with its triangle's normal, and nothing else.
pub open spec fn is_binary_stl_mesh(d: Seq<u8>, m: MeshData) -> bool {
    &&& m.vertices@.len() == 3 * binary_stl_triangle_count(d)
    &&& forall|j: int| 0 <= j < m.vertices@.len() ==> #[trigger] m.vertices@[j] == binary_stl_vertex(d, j)
    &&& m.normals matches Some(ns) && ns@.len() == m.vertices@.len()
        && forall|j: int| 0 <= j < ns@.len() ==> #[trigger] ns@[j] == binary_stl_normal(d, j)
    &&& m.uvs is None
    &&& m.indices is None
    &&& m.colors is None
}

/// A file is taken for binary STL when it is longer than five bytes and does
/// not begin with `solid`.
pub open spec fn is_binary_stl(d: Seq<u8>) -> bool {
    d.len() > 5 && !(d[0] == 0x73u8 && d[1] == 0x6fu8 && d[2] == 0x6cu8 && d[3] == 0x69u8 && d[4] == 0x64u8)
}

fn read_u32_le(data: &[u8], off: usize) -> (r: u32)
    requires
        off + 4 <= data.len(),
    ensures
        r == le_u32_at(data@, off as int),
{
    u32_from_le(data[off], data[off + 1], data[off + 2], data[off + 3])
}

fn read_vec3(data: &[u8], off: usize) -> (r: [u32; 3])
    requires
        off + 12 <= data.len(),
    ensures
        r == vec3_at(data@, off as int),
{
    [read_u32_le(data, off), read_u32_le(data, off + 4), read_u32_le(data, off + 8)]
}

proof fn lemma_div_mod_3(t: int, c: int)
    requires
        0 <= t,
        0 <= c < 3,
    ensures
        (3 * t + c) / 3 == t,
        (3 * t + c) % 3 == c,
{
}

/// The three vertices of a binary STL triangle carry that triangle's normal:
/// vertex `3t + c` has the normal stored at the start of triangle `t`, and its
/// coordinates are the `c`-th vertex of that triangle.
pub proof fn lemma_binary_stl_triangle_vertices(d: Seq<u8>, m: MeshData, t: int, c: int)
    requires
        is_binary_stl_mesh(d, m),
        0 <= t < binary_stl_triangle_count(d),
        0 <= c < 3,
    ensures
        m.normals->0@[3 * t + c] == vec3_at(d, 84 + 50 * t),
        m.vertices@[3 * t + c] == vec3_at(d, 84 + 50 * t + 12 + 12 * c),
{
    lemma_div_mod_3(t, c);
    assert(m.normals->0@[3 * t + c] == binary_stl_normal(d, 3 * t + c));
    assert(m.vertices@[3 * t + c] == binary_stl_vertex(d, 3 * t + c));
}

/// Parses a binary STL file: an 80-byte header, a little-endian triangle count,
/// then per triangle a normal, three vertices and a 2-byte attribute count.
pub fn parse_binary_stl(data: &[u8]) -> (r: Result<MeshData, Model3DError>)
    ensures
        data@.len() < 84 ==> (r matches Err(e) && is_parse_failed(e, "Binary STL file too small"@)),
        data@.len() >= 84 && data@.len() < binary_stl_needed_len(data@) ==> (r matches Err(e)
            && is_parse_failed(e, "Unexpected end of STL file"@)),
        data@.len() >= 84 && data@.len() >= binary_stl_needed_len(data@) ==> (r matches Ok(m)
            && is_binary_stl_mesh(data@, m)),
{
    if data.len() < 84 {
        return Err(Model3DError::ParseFailed("Binary STL file too small".to_owned()));
    }
    let triangle_count = read_u32_le(data, 80) as usize;
    let mut vertices: Vec<[u32; 3]> = Vec::new();
    let mut normals: Vec<[u32; 3]> = Vec::new();
    let mut offset: usize = 84;
    let mut t: usize = 0;
    while t < triangle_count
        invariant
            data@.len() >= 84,
            triangle_count == binary_stl_triangle_count(data@),
            t <= triangle_count,
            offset == 84 + 50 * t,
            offset <= data@.len(),
            vertices@.len() == 3 * t,
            normals@.len() == 3 * t,
            forall|j: int| 0 <= j < vertices@.len() ==> #[trigger] vertices@[j] == binary_stl_vertex(data@, j),
            forall|j: int| 0 <= j < normals@.len() ==> #[trigger] normals@[j] == binary_stl_normal(data@, j),
        decreases triangle_count - t,
    {
        if data.len() - offset < 50 {
            return Err(Model3DError::ParseFailed("Unexpected end of STL file".to_owned()));
        }
        let normal = read_vec3(data, offset);
        let mut c: usize = 0;
        while c < 3
            invariant
                c <= 3,
                offset == 84 + 50 * t,
                offset + 50 <= data.len(),
                normal == vec3_at(data@, offset as int),
                vertices@.len() == 3 * t + c,
                normals@.len() == 3 * t + c,
                forall|j: int| 0 <= j < vertices@.len() ==> #[trigger] vertices@[j] == binary_stl_vertex(data@, j),
                forall|j: int| 0 <= j < normals@.len() ==> #[trigger] normals@[j] == binary_stl_normal(data@, j),
            decreases 3 - c,
        {
            let vertex = read_vec3(data, offset + 12 + 12 * c);
            proof {
                lemma_div_mod_3(t as int, c as int);
            }
            vertices.push(vertex);
            normals.push(normal);
            c += 1;
        }
        offset += 50;
        t += 1;
    }
    Ok(MeshData { vertices, normals: Some(normals), uvs: None, indices: None, colors: None })
}

/// `bits` is what the coordinate parser `f` gives for some text whose chars are `tok`.
pub open spec fn coord_from<F: Fn(&[char]) -> u32>(f: F, tok: Seq<char>, bits: u32) -> bool {
    exists|s: &[char]| s@ == tok && #[trigger] call_ensures(f, (s,), bits)
}

/// What an ASCII STL text says, word by word: the words of the `facet normal`
/// line in force, and for each `vertex` line its three coordinate words with
/// the normal words in force at it (`None` before any facet normal).
pub struct AsciiStlScan {
    pub normal: Option<Seq<Seq<char>>>,
    pub vertex_words: Seq<Seq<Seq<char>>>,
    pub normal_words: Seq<Option<Seq<Seq<char>>>>,
}

/// One line of an ASCII STL text, trimmed: a `facet normal` line with at least
/// five words sets the normal to words 2 to 4; a `vertex` line with at least
/// four words adds a vertex of words 1 to 3; any other line changes nothing.
pub open spec fn ascii_stl_line(st: AsciiStlScan, raw: Seq<char>) -> AsciiStlScan {
    let line = trim(raw);
    let p = words(line);
    if starts_with(line, "facet normal"@) {
        if p.len() >= 5 {
            AsciiStlScan { normal: Some(p.subrange(2, 5)), ..st }
        } else {
            st
        }
    } else if starts_with(line, "vertex"@) {
        if p.len() >= 4 {
            AsciiStlScan {
                vertex_words: st.vertex_words.push(p.subrange(1, 4)),
                normal_words: st.normal_words.push(st.normal),
                ..st
            }
        } else {
            st
        }
    } else {
        st
    }
}

/// The scan of the lines `ls`, in order, from no normal and no vertex.
pub open spec fn ascii_stl_scan(ls: Seq<Seq<char>>) -> AsciiStlScan
    decreases ls.len(),
{
    if ls.len() == 0 {
        AsciiStlScan { normal: None, vertex_words: Seq::empty(), normal_words: Seq::empty() }
    } else {
        ascii_stl_line(ascii_stl_scan(ls.drop_last()), ls.last())
    }
}

/// The normal coordinate `bits` stands for the normal words `w` in force
/// (all-zero bits, the value 0.0, where none is).
pub open spec fn normal_coord_from<F: Fn(&[char]) -> u32>(
    f: F,
    w: Option<Seq<Seq<char>>>,
    axis: int,
    bits: u32,
) -> bool {
    match w {
        None => bits == 0,
        Some(ws) => coord_from(f, ws[axis], bits),
    }
}

/// `vertices` and `normals` stand, coordinate by coordinate through `f`, for
/// the vertex and normal words of `sc`.
pub open spec fn stl_coords_match<F: Fn(&[char]) -> u32>(
    f: F,
    sc: AsciiStlScan,
    vertices: Seq<[u32; 3]>,
    normals: Seq<[u32; 3]>,
) -> bool {
    &&& vertices.len() == sc.vertex_words.len()
    &&& normals.len() == sc.vertex_words.len()
    &&& sc.normal_words.len() == sc.vertex_words.len()
    &&& forall|j: int, axis: int|
        0 <= j < vertices.len() && 0 <= axis < 3 ==> coord_from(f, sc.vertex_words[j][axis], #[trigger] vertices[j][axis])
    &&& forall|j: int, axis: int|
        0 <= j < normals.len() && 0 <= axis < 3 ==> normal_coord_from(f, sc.normal_words[j], axis, #[trigger] normals[j][axis])
}

/// `m` is the mesh of the ASCII STL text `text`, its coordinates read by `f`.
pub open spec fn is_ascii_stl_mesh<F: Fn(&[char]) -> u32>(f: F, text: Seq<char>, m: MeshData) -> bool {
    &&& m.normals matches Some(ns) && stl_coords_match(f, ascii_stl_scan(text_lines(text)), m.vertices@, ns@)
    &&& m.uvs is None
    &&& m.indices is None
    &&& m.colors is None
}

fn scan_stl_line<F: Fn(&[char]) -> u32>(
    c: &Vec<char>,
    a: usize,
    b: usize,
    parse_coord: &F,
    current: &mut [u32; 3],
    vertices: &mut Vec<[u32; 3]>,
    normals: &mut Vec<[u32; 3]>,
    Ghost(st): Ghost<AsciiStlScan>,
) -> (r: Ghost<AsciiStlScan>)
    requires
        a <= b <= c@.len(),
        forall|s: &[char]| call_requires(*parse_coord, (s,)),
        stl_coords_match(*parse_coord, st, old(vertices)@, old(normals)@),
        forall|axis: int| 0 <= axis < 3 ==> normal_coord_from(*parse_coord, st.normal, axis, #[trigger] old(current)[axis]),
        st.normal matches Some(w) ==> w.len() == 3,
    ensures
        r@ == ascii_stl_line(st, c@.subrange(a as int, b as int)),
        stl_coords_match(*parse_coord, r@, final(vertices)@, final(normals)@),
        forall|axis: int| 0 <= axis < 3 ==> normal_coord_from(*parse_coord, r@.normal, axis, #[trigger] final(current)[axis]),
        r@.normal matches Some(w) ==> w.len() == 3,
{
    let facet: [char; 12] = ['f', 'a', 'c', 'e', 't', ' ', 'n', 'o', 'r', 'm', 'a', 'l'];
    let vertex: [char; 6] = ['v', 'e', 'r', 't', 'e', 'x'];
    proof {
        reveal_strlit("facet normal");
        reveal_strlit("vertex");
        assert(facet@ =~= "facet normal"@);
        assert(vertex@ =~= "vertex"@);
    }
    let (ta, tb) = trim_range(c, a, b);
    let ghost line = c@.subrange(ta as int, tb as int);
    if starts_with_at(c, ta, tb, facet.as_slice()) {
        let parts = word_ranges(c, ta, tb);
        if parts.len() >= 5 {
            let t0 = parse_coord(&c.as_slice()[parts[2].0..parts[2].1]);
            let t1 = parse_coord(&c.as_slice()[parts[3].0..parts[3].1]);
            let t2 = parse_coord(&c.as_slice()[parts[4].0..parts[4].1]);
            *current = [t0, t1, t2];
            let ghost w = words(line).subrange(2, 5);
            assert(coord_from(*parse_coord, w[0], current[0]));
            assert(coord_from(*parse_coord, w[1], current[1]));
            assert(coord_from(*parse_coord, w[2], current[2]));
            return Ghost(AsciiStlScan { normal: Some(w), ..st });
        }
        Ghost(st)
    } else if starts_with_at(c, ta, tb, vertex.as_slice()) {
        let parts = word_ranges(c, ta, tb);
        if parts.len() >= 4 {
            let v0 = parse_coord(&c.as_slice()[parts[1].0..parts[1].1]);
            let v1 = parse_coord(&c.as_slice()[parts[2].0..parts[2].1]);
            let v2 = parse_coord(&c.as_slice()[parts[3].0..parts[3].1]);
            let ghost w = words(line).subrange(1, 4);
            let ghost ov = vertices@;
            let ghost on = normals@;
            assert(coord_from(*parse_coord, w[0], v0));
            assert(coord_from(*parse_coord, w[1], v1));
            assert(coord_from(*parse_coord, w[2], v2));
            vertices.push([v0, v1, v2]);
            normals.push(*current);
            let ghost nst = AsciiStlScan {
                vertex_words: st.vertex_words.push(w),
                normal_words: st.normal_words.push(st.normal),
                ..st
            };
            assert forall|j: int, axis: int|
                0 <= j < vertices@.len() && 0 <= axis < 3 implies coord_from(*parse_coord, nst.vertex_words[j][axis], #[trigger] vertices@[j][axis]) by {
                if j < ov.len() {
                    assert(vertices@[j] == ov[j]);
                }
            }
            assert forall|j: int, axis: int|
                0 <= j < normals@.len() && 0 <= axis < 3 implies normal_coord_from(*parse_coord, nst.normal_words[j], axis, #[trigger] normals@[j][axis]) by {
                if j < on.len() {
                    assert(normals@[j] == on[j]);
                }
            }
            return Ghost(nst);
        }
        Ghost(st)
    } else {
        Ghost(st)
    }
}

/// Parses an ASCII STL file: `facet normal nx ny nz` lines set the normal of
/// the `vertex x y z` lines that follow; `parse_coord` reads each coordinate.
pub fn parse_ascii_stl<F: Fn(&[char]) -> u32>(data: &[u8], parse_coord: F) -> (r: Result<MeshData, Model3DError>)
    requires
        forall|s: &[char]| call_requires(parse_coord, (s,)),
    ensures
        !vstd::utf8::valid_utf8(data@) ==> (r matches Err(e) && is_parse_failed(
            e,
            "Invalid UTF-8 in STL: "@ + crate::text::utf8_error_text(data@),
        )),
        vstd::utf8::valid_utf8(data@) ==> (r matches Ok(m) && is_ascii_stl_mesh(
            parse_coord,
            vstd::utf8::decode_utf8(data@),
            m,
        )),
{
    let content = match crate::text::str_from_utf8(data) {
        Ok(s) => s,
        Err(msg) => {
            let mut text = "Invalid UTF-8 in STL: ".to_owned();
            text.append(msg.as_str());
            return Err(Model3DError::ParseFailed(text));
        },
    };
    let c = str_to_chars(content);
    let mut vertices: Vec<[u32; 3]> = Vec::new();
    let mut normals: Vec<[u32; 3]> = Vec::new();
    let mut current: [u32; 3] = [0, 0, 0];
    let ghost mut st = ascii_stl_scan(Seq::empty());
    let n = c.len();
    let mut start: usize = 0;
    let mut i: usize = 0;
    proof {
        assert(c@.subrange(0, 0) =~= Seq::<char>::empty());
    }
    while i < n
        invariant
            n == c@.len(),
            start <= i <= n,
            forall|s: &[char]| call_requires(parse_coord, (s,)),
            split_on(c@.subrange(0, i as int), '\n').last() == c@.subrange(start as int, i as int),
            st == ascii_stl_scan(split_on(c@.subrange(0, i as int), '\n').drop_last()),
            stl_coords_match(parse_coord, st, vertices@, normals@),
            forall|axis: int| 0 <= axis < 3 ==> normal_coord_from(parse_coord, st.normal, axis, #[trigger] current[axis]),
            st.normal matches Some(w) ==> w.len() == 3,
        decreases n - i,
    {
        let ghost s0 = c@.subrange(0, i as int);
        let ghost s1 = c@.subrange(0, i + 1);
        proof {
            assert(s1.drop_last() =~= s0);
            lemma_split_on_len(s0, '\n');
        }
        let ghost p0 = split_on(s0, '\n');
        if c[i] == '\n' {
            let Ghost(next) = scan_stl_line(&c, start, i, &parse_coord, &mut current, &mut vertices, &mut normals, Ghost(st));
            proof {
                assert(split_on(s1, '\n') == p0.push(Seq::empty()));
                assert(split_on(s1, '\n').drop_last() == p0);
                assert(p0 =~= p0.drop_last().push(p0.last()));
                st = next;
            }
            start = i + 1;
            assert(split_on(s1, '\n').last() =~= c@.subrange(start as int, i + 1));
        } else {
            assert(split_on(s1, '\n') == p0.update(p0.len() - 1, p0.last().push(c@[i as int])));
            assert(split_on(s1, '\n').drop_last() =~= p0.drop_last());
            assert(split_on(s1, '\n').last() =~= c@.subrange(start as int, i + 1));
        }
        i += 1;
    }
    let ghost whole = c@.subrange(0, n as int);
    let ghost pieces = split_on(whole, '\n');
    proof {
        lemma_split_on_len(whole, '\n');
        assert(pieces =~= pieces.drop_last().push(pieces.last()));
    }
    let ghost before = st;
    let Ghost(last) = scan_stl_line(&c, start, n, &parse_coord, &mut current, &mut vertices, &mut normals, Ghost(st));
    proof {
        assert(whole =~= c@);
        assert(last == ascii_stl_scan(pieces));
        if pieces.last().len() == 0 {
            lemma_ascii_stl_empty_line(before);
            assert(text_lines(c@) == pieces.drop_last());
            assert(c@.subrange(start as int, n as int) =~= Seq::<char>::empty());
            assert(last == before);
        }
        assert(last == ascii_stl_scan(text_lines(c@)));
        assert(c@ == vstd::utf8::decode_utf8(data@));
    }
    Ok(MeshData { vertices, normals: Some(normals), uvs: None, indices: None, colors: None })
}

/// An empty line changes nothing in the scan of an ASCII STL text.
proof fn lemma_ascii_stl_empty_line(st: AsciiStlScan)
    ensures
        ascii_stl_line(st, Seq::empty()) == st,
{
    reveal_strlit("facet normal");
    reveal_strlit("vertex");
    assert(trim(Seq::<char>::empty()) =~= Seq::<char>::empty());
}

} // verus!
