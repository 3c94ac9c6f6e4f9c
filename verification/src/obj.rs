//! Wavefront OBJ text.
use vstd::prelude::*;
use crate::mesh::MeshData;
use crate::stl::coord_from;
use crate::text::{
    before_first, before_first_end, lemma_split_on_len, parse_u32_range, parse_u32_spec,
    range_equals, split_on, starts_with, starts_with_at, str_to_chars, text_lines, trim,
    trim_range, word_ranges, words,
};

verus! {

/// What an OBJ text says, word by word: the coordinate words of its `v`,
/// `vn` and `vt` lines, and the 0-based vertex indices of its `f` lines.
pub struct ObjScan {
    pub vertex_words: Seq<Seq<Seq<char>>>,
    pub normal_words: Seq<Seq<Seq<char>>>,
    pub uv_words: Seq<Seq<Seq<char>>>,
    pub indices: Seq<u32>,
}

/// The 0-based indices that the face words `ws` give: each word's part before
/// its first `/` read as a `u32`; words that do not read as one, or read as 0,
/// give nothing; the others give one less than their value.
pub open spec fn face_indices(ws: Seq<Seq<char>>) -> Seq<u32>
    decreases ws.len(),
{
    if ws.len() == 0 {
        Seq::empty()
    } else {
        let prev = face_indices(ws.drop_last());
        match parse_u32_spec(before_first(ws.last(), '/')) {
            Some(idx) => if idx > 0 { prev.push((idx - 1) as u32) } else { prev },
            None => prev,
        }
    }
}

/// Face words are read one after another: a word whose part before `/` is the
/// number `v` (from 1) adds the 0-based index `v - 1`; a word whose part
/// before `/` is 0 or no number adds nothing.
pub proof fn lemma_face_index_is_one_less_than_written(ws: Seq<Seq<char>>, w: Seq<char>)
    ensures
        parse_u32_spec(before_first(w, '/')) matches Some(v) ==> (v > 0 ==> face_indices(ws.push(w))
            == face_indices(ws).push((v - 1) as u32)),
        parse_u32_spec(before_first(w, '/')) == Some(0u32) ==> face_indices(ws.push(w)) == face_indices(ws),
        parse_u32_spec(before_first(w, '/')) is None ==> face_indices(ws.push(w)) == face_indices(ws),
{
    assert(ws.push(w).drop_last() =~= ws);
    assert(ws.push(w).last() == w);
}

/// One line of an OBJ text, trimmed: empty lines and `#` comments change
/// nothing; `v x y z`, `vn x y z` (at least four words) and `vt u v` (at least
/// three) add their coordinate words; `f i j k ...` (at least four words) adds
/// the indices of its words after the first; anything else changes nothing.
pub open spec fn obj_line(st: ObjScan, raw: Seq<char>) -> ObjScan {
    let line = trim(raw);
    let p = words(line);
    if line.len() == 0 || starts_with(line, "#"@) || p.len() == 0 {
        st
    } else if p[0] == "v"@ && p.len() >= 4 {
        ObjScan { vertex_words: st.vertex_words.push(p.subrange(1, 4)), ..st }
    } else if p[0] == "vn"@ && p.len() >= 4 {
        ObjScan { normal_words: st.normal_words.push(p.subrange(1, 4)), ..st }
    } else if p[0] == "vt"@ && p.len() >= 3 {
        ObjScan { uv_words: st.uv_words.push(p.subrange(1, 3)), ..st }
    } else if p[0] == "f"@ && p.len() >= 4 {
        ObjScan { indices: st.indices + face_indices(p.subrange(1, p.len() as int)), ..st }
    } else {
        st
    }
}

/// The scan of the lines `ls`, in order, from nothing.
pub open spec fn obj_scan(ls: Seq<Seq<char>>) -> ObjScan
    decreases ls.len(),
{
    if ls.len() == 0 {
        ObjScan {
            vertex_words: Seq::empty(),
            normal_words: Seq::empty(),
            uv_words: Seq::empty(),
            indices: Seq::empty(),
        }
    } else {
        obj_line(obj_scan(ls.drop_last()), ls.last())
    }
}

/// `vs` stands, coordinate by coordinate through `f`, for the words `ws`.
pub open spec fn coords3_match<F: Fn(&[char]) -> u32>(f: F, ws: Seq<Seq<Seq<char>>>, vs: Seq<[u32; 3]>) -> bool {
    &&& vs.len() == ws.len()
    &&& forall|j: int, axis: int|
        0 <= j < vs.len() && 0 <= axis < 3 ==> coord_from(f, ws[j][axis], #[trigger] vs[j][axis])
}

/// `vs` stands, coordinate by coordinate through `f`, for the words `ws`.
pub open spec fn coords2_match<F: Fn(&[char]) -> u32>(f: F, ws: Seq<Seq<Seq<char>>>, vs: Seq<[u32; 2]>) -> bool {
    &&& vs.len() == ws.len()
    &&& forall|j: int, axis: int|
        0 <= j < vs.len() && 0 <= axis < 2 ==> coord_from(f, ws[j][axis], #[trigger] vs[j][axis])
}

/// `m` is the mesh of the OBJ text `text`, its coordinates read by `f`:
/// normals, texture coordinates and indices are present when the text has any.
pub open spec fn is_obj_mesh<F: Fn(&[char]) -> u32>(f: F, text: Seq<char>, m: MeshData) -> bool {
    let sc = obj_scan(text_lines(text));
    &&& coords3_match(f, sc.vertex_words, m.vertices@)
    &&& match m.normals {
        None => sc.normal_words.len() == 0,
        Some(ns) => sc.normal_words.len() > 0 && coords3_match(f, sc.normal_words, ns@),
    }
    &&& match m.uvs {
        None => sc.uv_words.len() == 0,
        Some(us) => sc.uv_words.len() > 0 && coords2_match(f, sc.uv_words, us@),
    }
    &&& match m.indices {
        None => sc.indices.len() == 0,
        Some(ix) => sc.indices.len() > 0 && ix@ == sc.indices,
    }
    &&& m.colors is None
}

/// Ranges `r` are the words `ws` of `c`.
pub open spec fn ranges_are(c: Seq<char>, r: Seq<(usize, usize)>, ws: Seq<Seq<char>>) -> bool {
    &&& r.len() == ws.len()
    &&& forall|k: int| 0 <= k < r.len() ==> (#[trigger] r[k]).0 <= r[k].1 <= c.len()
    &&& forall|k: int| 0 <= k < r.len() ==> c.subrange((#[trigger] r[k]).0 as int, r[k].1 as int) == ws[k]
}

fn push_face_indices(c: &Vec<char>, parts: &Vec<(usize, usize)>, indices: &mut Vec<u32>)
    requires
        ranges_are(c@, parts@, words_of_ranges(c@, parts@)),
        parts@.len() >= 1,
    ensures
        final(indices)@ == old(indices)@ + face_indices(
            words_of_ranges(c@, parts@).subrange(1, parts@.len() as int),
        ),
{
    let ghost ws = words_of_ranges(c@, parts@);
    let mut i: usize = 1;
    proof {
        assert(ws.subrange(1, 1) =~= Seq::<Seq<char>>::empty());
        assert(indices@ + Seq::<u32>::empty() =~= indices@);
    }
    while i < parts.len()
        invariant
            1 <= i <= parts@.len(),
            ws == words_of_ranges(c@, parts@),
            ranges_are(c@, parts@, ws),
            indices@ == old(indices)@ + face_indices(ws.subrange(1, i as int)),
        decreases parts@.len() - i,
    {
        let (a, b) = parts[i];
        let e = before_first_end(c, a, b, '/');
        let parsed = parse_u32_range(c, a, e);
        let ghost before = indices@;
        proof {
            assert(ws.subrange(1, i + 1).drop_last() =~= ws.subrange(1, i as int));
            assert(ws.subrange(1, i + 1).last() == ws[i as int]);
        }
        match parsed {
            Some(idx) => {
                if idx > 0 {
                    indices.push(idx - 1);
                    assert(indices@ =~= old(indices)@ + face_indices(ws.subrange(1, i + 1)));
                }
            },
            None => {},
        }
        i += 1;
    }
}

/// The words that ranges `r` of `c` cover.
pub open spec fn words_of_ranges(c: Seq<char>, r: Seq<(usize, usize)>) -> Seq<Seq<char>> {
    Seq::new(r.len(), |k: int| c.subrange(r[k].0 as int, r[k].1 as int))
}

fn read_coords<F: Fn(&[char]) -> u32>(
    c: &Vec<char>,
    parts: &Vec<(usize, usize)>,
    parse_coord: &F,
    k: usize,
) -> (r: u32)
    requires
        k < parts@.len(),
        parts@[k as int].0 <= parts@[k as int].1 <= c@.len(),
        forall|s: &[char]| call_requires(*parse_coord, (s,)),
    ensures
        coord_from(*parse_coord, c@.subrange(parts@[k as int].0 as int, parts@[k as int].1 as int), r),
{
    let tok = &c.as_slice()[parts[k].0..parts[k].1];
    let r = parse_coord(tok);
    assert(coord_from(*parse_coord, tok@, r));
    r
}

struct ObjBuffers {
    vertices: Vec<[u32; 3]>,
    normals: Vec<[u32; 3]>,
    uvs: Vec<[u32; 2]>,
    indices: Vec<u32>,
}

/// The buffers `b` stand for the scan `st` through `f`.
spec fn buffers_match<F: Fn(&[char]) -> u32>(f: F, st: ObjScan, b: ObjBuffers) -> bool {
    &&& coords3_match(f, st.vertex_words, b.vertices@)
    &&& coords3_match(f, st.normal_words, b.normals@)
    &&& coords2_match(f, st.uv_words, b.uvs@)
    &&& b.indices@ == st.indices
}

fn scan_obj_line<F: Fn(&[char]) -> u32>(
    c: &Vec<char>,
    a: usize,
    b: usize,
    parse_coord: &F,
    buf: &mut ObjBuffers,
    Ghost(st): Ghost<ObjScan>,
) -> (r: Ghost<ObjScan>)
    requires
        a <= b <= c@.len(),
        forall|s: &[char]| call_requires(*parse_coord, (s,)),
        buffers_match(*parse_coord, st, *old(buf)),
    ensures
        r@ == obj_line(st, c@.subrange(a as int, b as int)),
        buffers_match(*parse_coord, r@, *final(buf)),
{
    let hash: [char; 1] = ['#'];
    let kw_v: [char; 1] = ['v'];
    let kw_vn: [char; 2] = ['v', 'n'];
    let kw_vt: [char; 2] = ['v', 't'];
    let kw_f: [char; 1] = ['f'];
    proof {
        reveal_strlit("#");
        reveal_strlit("v");
        reveal_strlit("vn");
        reveal_strlit("vt");
        reveal_strlit("f");
        assert(hash@ =~= "#"@);
        assert(kw_v@ =~= "v"@);
        assert(kw_vn@ =~= "vn"@);
        assert(kw_vt@ =~= "vt"@);
        assert(kw_f@ =~= "f"@);
    }
    let (ta, tb) = trim_range(c, a, b);
    let ghost line = c@.subrange(ta as int, tb as int);
    if ta == tb || starts_with_at(c, ta, tb, hash.as_slice()) {
        return Ghost(st);
    }
    let parts = word_ranges(c, ta, tb);
    let ghost p = words(line);
    proof {
        assert(words_of_ranges(c@, parts@) =~= p);
    }
    if parts.len() == 0 {
        return Ghost(st);
    }
    let (w0a, w0b) = parts[0];
    if range_equals(c, w0a, w0b, kw_v.as_slice()) && parts.len() >= 4 {
        let x = read_coords(c, &parts, parse_coord, 1);
        let y = read_coords(c, &parts, parse_coord, 2);
        let z = read_coords(c, &parts, parse_coord, 3);
        let ghost old_v = buf.vertices@;
        buf.vertices.push([x, y, z]);
        let ghost nst = ObjScan { vertex_words: st.vertex_words.push(p.subrange(1, 4)), ..st };
        assert forall|j: int, axis: int| 0 <= j < buf.vertices@.len() && 0 <= axis < 3 implies coord_from(
            *parse_coord,
            nst.vertex_words[j][axis],
            #[trigger] buf.vertices@[j][axis],
        ) by {
            if j < old_v.len() {
                assert(buf.vertices@[j] == old_v[j]);
            }
        }
        Ghost(nst)
    } else if range_equals(c, w0a, w0b, kw_vn.as_slice()) && parts.len() >= 4 {
        let x = read_coords(c, &parts, parse_coord, 1);
        let y = read_coords(c, &parts, parse_coord, 2);
        let z = read_coords(c, &parts, parse_coord, 3);
        let ghost old_n = buf.normals@;
        buf.normals.push([x, y, z]);
        let ghost nst = ObjScan { normal_words: st.normal_words.push(p.subrange(1, 4)), ..st };
        assert forall|j: int, axis: int| 0 <= j < buf.normals@.len() && 0 <= axis < 3 implies coord_from(
            *parse_coord,
            nst.normal_words[j][axis],
            #[trigger] buf.normals@[j][axis],
        ) by {
            if j < old_n.len() {
                assert(buf.normals@[j] == old_n[j]);
            }
        }
        Ghost(nst)
    } else if range_equals(c, w0a, w0b, kw_vt.as_slice()) && parts.len() >= 3 {
        let u = read_coords(c, &parts, parse_coord, 1);
        let v = read_coords(c, &parts, parse_coord, 2);
        let ghost old_u = buf.uvs@;
        buf.uvs.push([u, v]);
        let ghost nst = ObjScan { uv_words: st.uv_words.push(p.subrange(1, 3)), ..st };
        assert forall|j: int, axis: int| 0 <= j < buf.uvs@.len() && 0 <= axis < 2 implies coord_from(
            *parse_coord,
            nst.uv_words[j][axis],
            #[trigger] buf.uvs@[j][axis],
        ) by {
            if j < old_u.len() {
                assert(buf.uvs@[j] == old_u[j]);
            }
        }
        Ghost(nst)
    } else if range_equals(c, w0a, w0b, kw_f.as_slice()) && parts.len() >= 4 {
        push_face_indices(c, &parts, &mut buf.indices);
        Ghost(ObjScan { indices: st.indices + face_indices(p.subrange(1, p.len() as int)), ..st })
    } else {
        Ghost(st)
    }
}

/// Parses OBJ text: `v`, `vn` and `vt` lines give vertices, normals and
/// texture coordinates (each coordinate read by `parse_coord`), `f` lines give
/// 0-based vertex indices (the part of each face word before `/`, less one).
pub fn parse_obj_text<F: Fn(&[char]) -> u32>(content: &str, parse_coord: F) -> (r: MeshData)
    requires
        forall|s: &[char]| call_requires(parse_coord, (s,)),
    ensures
        is_obj_mesh(parse_coord, content@, r),
{
    let c = str_to_chars(content);
    let mut buf = ObjBuffers { vertices: Vec::new(), normals: Vec::new(), uvs: Vec::new(), indices: Vec::new() };
    let ghost mut st = obj_scan(Seq::empty());
    let n = c.len();
    let mut start: usize = 0;
    let mut i: usize = 0;
    proof {
        assert(c@.subrange(0, 0) =~= Seq::<char>::empty());
    }
    while i < n
        invariant
            n == c@.len(),
            start <= i <= n,
            forall|s: &[char]| call_requires(parse_coord, (s,)),
            split_on(c@.subrange(0, i as int), '\n').last() == c@.subrange(start as int, i as int),
            st == obj_scan(split_on(c@.subrange(0, i as int), '\n').drop_last()),
            buffers_match(parse_coord, st, buf),
        decreases n - i,
    {
        let ghost s0 = c@.subrange(0, i as int);
        let ghost s1 = c@.subrange(0, i + 1);
        proof {
            assert(s1.drop_last() =~= s0);
            lemma_split_on_len(s0, '\n');
        }
        let ghost p0 = split_on(s0, '\n');
        if c[i] == '\n' {
            let Ghost(next) = scan_obj_line(&c, start, i, &parse_coord, &mut buf, Ghost(st));
            proof {
                assert(split_on(s1, '\n') == p0.push(Seq::empty()));
                assert(split_on(s1, '\n').drop_last() == p0);
                assert(p0 =~= p0.drop_last().push(p0.last()));
                st = next;
            }
            start = i + 1;
            assert(split_on(s1, '\n').last() =~= c@.subrange(start as int, i + 1));
        } else {
            assert(split_on(s1, '\n') == p0.update(p0.len() - 1, p0.last().push(c@[i as int])));
            assert(split_on(s1, '\n').drop_last() =~= p0.drop_last());
            assert(split_on(s1, '\n').last() =~= c@.subrange(start as int, i + 1));
        }
        i += 1;
    }
    let ghost whole = c@.subrange(0, n as int);
    let ghost pieces = split_on(whole, '\n');
    proof {
        lemma_split_on_len(whole, '\n');
        assert(pieces =~= pieces.drop_last().push(pieces.last()));
    }
    let ghost before = st;
    let Ghost(last) = scan_obj_line(&c, start, n, &parse_coord, &mut buf, Ghost(st));
    proof {
        assert(whole =~= c@);
        assert(last == obj_scan(pieces));
        if pieces.last().len() == 0 {
            assert(c@.subrange(start as int, n as int) =~= Seq::<char>::empty());
            assert(trim(Seq::<char>::empty()) =~= Seq::<char>::empty());
            assert(last == before);
            assert(text_lines(c@) == pieces.drop_last());
        }
        assert(last == obj_scan(text_lines(c@)));
    }
    let ObjBuffers { vertices, normals, uvs, indices } = buf;
    MeshData {
        vertices,
        normals: if normals.len() == 0 { None } else { Some(normals) },
        uvs: if uvs.len() == 0 { None } else { Some(uvs) },
        indices: if indices.len() == 0 { None } else { Some(indices) },
        colors: None,
    }
}

} // verus!
