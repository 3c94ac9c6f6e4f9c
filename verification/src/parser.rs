//! Choosing the parser of a 3D model file and wrapping its result.
use vstd::prelude::*;
use crate::error::{is_parse_failed, is_unsupported_format, Model3DError};
use crate::mesh::{is_empty_mesh, MeshData, ParsedMesh};
use crate::obj::{is_obj_mesh, parse_obj_text};
use crate::stl::{
    binary_stl_needed_len, is_ascii_stl_mesh, is_binary_stl, is_binary_stl_mesh, parse_ascii_stl,
    parse_binary_stl,
};
use crate::text::{range_equals, str_to_chars};

verus! {

/// What `str::to_lowercase` gives for the chars `s` (the Unicode lowercase
/// mapping, a function of `s`).
pub uninterp spec fn lowercase_of(s: Seq<char>) -> Seq<char>;

/// `str::to_lowercase`. Claimed: its result is `lowercase_of` the text, and it
/// is empty exactly when the text is (each char lowercases to one or more).
#[verifier::external_body]
pub(crate) fn str_to_lowercase(s: &str) -> (r: String)
    ensures
        r@ == lowercase_of(s@),
        r@.len() == 0 <==> s@.len() == 0,
{
    s.to_lowercase()
}

/// The 3D formats that files are parsed as.
#[derive(Clone, Copy, PartialEq, Eq, Structural, Debug)]
pub enum MeshFormat {
    Stl,
    Obj,
    Ply,
    ThreeMf,
    Gltf,
}

/// The format name recorded with a parsed mesh.
pub open spec fn format_name_of(f: MeshFormat) -> Seq<char> {
    match f {
        MeshFormat::Stl => "stl"@,
        MeshFormat::Obj => "obj"@,
        MeshFormat::Ply => "ply"@,
        MeshFormat::ThreeMf => "3mf"@,
        MeshFormat::Gltf => "gltf"@,
    }
}

/// The format of a lowercased extension: `stl`, `obj`, `ply`, `3mf`, and
/// `gltf` or `glb` for glTF; `None` for any other.
pub open spec fn format_of_extension(ext: Seq<char>) -> Option<MeshFormat> {
    if ext == "stl"@ {
        Some(MeshFormat::Stl)
    } else if ext == "obj"@ {
        Some(MeshFormat::Obj)
    } else if ext == "ply"@ {
        Some(MeshFormat::Ply)
    } else if ext == "3mf"@ {
        Some(MeshFormat::ThreeMf)
    } else if ext == "gltf"@ || ext == "glb"@ {
        Some(MeshFormat::Gltf)
    } else {
        None
    }
}

/// The name that a parsed mesh records for its format is an extension that
/// selects that same format again.
pub proof fn lemma_format_name_selects_format(f: MeshFormat)
    ensures
        format_of_extension(format_name_of(f)) == Some(f),
{
    reveal_strlit("stl");
    reveal_strlit("obj");
    reveal_strlit("ply");
    reveal_strlit("3mf");
    reveal_strlit("gltf");
    reveal_strlit("glb");
    assert("stl"@[0] != "obj"@[0] && "stl"@[0] != "ply"@[0] && "stl"@[0] != "3mf"@[0]);
    assert("obj"@[0] != "ply"@[0] && "obj"@[0] != "3mf"@[0] && "ply"@[0] != "3mf"@[0]);
    assert("gltf"@.len() != "stl"@.len());
}

/// `pm` is a parsed mesh of format name `name` with no materials or textures.
pub open spec fn is_parsed_as(pm: ParsedMesh, name: Seq<char>) -> bool {
    pm.format@ == name && pm.materials_count == 0 && pm.textures_count == 0
}

impl MeshFormat {
    /// The name of the format.
    pub fn name(&self) -> (r: String)
        ensures
            r@ == format_name_of(*self),
    {
        match self {
            MeshFormat::Stl => "stl".to_owned(),
            MeshFormat::Obj => "obj".to_owned(),
            MeshFormat::Ply => "ply".to_owned(),
            MeshFormat::ThreeMf => "3mf".to_owned(),
            MeshFormat::Gltf => "gltf".to_owned(),
        }
    }
}

/// Parser for the 3D mesh formats.
pub struct MeshParser;

impl MeshParser {
    /// The format of an extension that is already lowercase.
    pub fn format_from_lowercase(ext: &str) -> (r: Result<MeshFormat, Model3DError>)
        ensures
            format_of_extension(ext@) matches Some(f) ==> r == Ok::<MeshFormat, Model3DError>(f),
            format_of_extension(ext@) is None ==> (r matches Err(e) && is_unsupported_format(e, ext@)),
    {
        proof {
            reveal_strlit("stl");
            reveal_strlit("obj");
            reveal_strlit("ply");
            reveal_strlit("3mf");
            reveal_strlit("gltf");
            reveal_strlit("glb");
        }
        let c = str_to_chars(ext);
        let n = c.len();
        let stl: [char; 3] = ['s', 't', 'l'];
        let obj: [char; 3] = ['o', 'b', 'j'];
        let ply: [char; 3] = ['p', 'l', 'y'];
        let three_mf: [char; 3] = ['3', 'm', 'f'];
        let gltf: [char; 4] = ['g', 'l', 't', 'f'];
        let glb: [char; 3] = ['g', 'l', 'b'];
        assert(stl@ =~= "stl"@);
        assert(obj@ =~= "obj"@);
        assert(ply@ =~= "ply"@);
        assert(three_mf@ =~= "3mf"@);
        assert(gltf@ =~= "gltf"@);
        assert(glb@ =~= "glb"@);
        assert(c@.subrange(0, n as int) =~= ext@);
        if range_equals(&c, 0, n, stl.as_slice()) {
            Ok(MeshFormat::Stl)
        } else if range_equals(&c, 0, n, obj.as_slice()) {
            Ok(MeshFormat::Obj)
        } else if range_equals(&c, 0, n, ply.as_slice()) {
            Ok(MeshFormat::Ply)
        } else if range_equals(&c, 0, n, three_mf.as_slice()) {
            Ok(MeshFormat::ThreeMf)
        } else if range_equals(&c, 0, n, gltf.as_slice()) || range_equals(&c, 0, n, glb.as_slice()) {
            Ok(MeshFormat::Gltf)
        } else {
            Err(Model3DError::UnsupportedFormat(ext.to_owned()))
        }
    }

    /// The format of a file from its extension (`None` when it has none, or
    /// one that is not Unicode), compared in lowercase.
    pub fn detect_format(extension: Option<&str>) -> (r: Result<MeshFormat, Model3DError>)
        ensures
            extension is None ==> (r matches Err(e) && is_parse_failed(e, "No file extension"@)),
            extension matches Some(x) ==> ({
                let lower = lowercase_of(x@);
                &&& format_of_extension(lower) matches Some(f) ==> r == Ok::<MeshFormat, Model3DError>(f)
                &&& format_of_extension(lower) is None ==> (r matches Err(e) && is_unsupported_format(e, lower))
            }),
    {
        match extension {
            None => Err(Model3DError::ParseFailed("No file extension".to_owned())),
            Some(x) => {
                let lower = str_to_lowercase(x);
                Self::format_from_lowercase(lower.as_str())
            },
        }
    }

    /// Parses the bytes of an STL file: binary unless it is at most five bytes
    /// long or begins with `solid`, ASCII otherwise.
    pub fn parse_stl<F: Fn(&[char]) -> u32>(data: &[u8], parse_coord: F) -> (r: Result<ParsedMesh, Model3DError>)
        requires
            forall|s: &[char]| call_requires(parse_coord, (s,)),
        ensures
            is_binary_stl(data@) && data@.len() < 84 ==> (r matches Err(e) && is_parse_failed(e, "Binary STL file too small"@)),
            is_binary_stl(data@) && data@.len() >= 84 && data@.len() < binary_stl_needed_len(data@) ==> (r matches Err(e)
                && is_parse_failed(e, "Unexpected end of STL file"@)),
            is_binary_stl(data@) && data@.len() >= 84 && data@.len() >= binary_stl_needed_len(data@) ==> (r matches Ok(pm)
                && is_binary_stl_mesh(data@, pm.data) && is_parsed_as(pm, "stl"@)),
            !is_binary_stl(data@) && !vstd::utf8::valid_utf8(data@) ==> (r matches Err(e) && is_parse_failed(
                e,
                "Invalid UTF-8 in STL: "@ + crate::text::utf8_error_text(data@),
            )),
            !is_binary_stl(data@) && vstd::utf8::valid_utf8(data@) ==> (r matches Ok(pm) && is_ascii_stl_mesh(
                parse_coord,
                vstd::utf8::decode_utf8(data@),
                pm.data,
            ) && is_parsed_as(pm, "stl"@)),
    {
        let is_binary = data.len() > 5 && !(data[0] == 0x73u8 && data[1] == 0x6fu8 && data[2] == 0x6cu8
            && data[3] == 0x69u8 && data[4] == 0x64u8);
        let mesh = if is_binary {
            parse_binary_stl(data)?
        } else {
            parse_ascii_stl(data, parse_coord)?
        };
        proof {
            reveal_strlit("stl");
        }
        Ok(ParsedMesh { data: mesh, format: "stl".to_owned(), materials_count: 0, textures_count: 0 })
    }

    /// Parses OBJ text into a parsed mesh of format `obj`.
    pub fn parse_obj<F: Fn(&[char]) -> u32>(content: &str, parse_coord: F) -> (r: ParsedMesh)
        requires
            forall|s: &[char]| call_requires(parse_coord, (s,)),
        ensures
            is_obj_mesh(parse_coord, content@, r.data),
            is_parsed_as(r, "obj"@),
    {
        let data = parse_obj_text(content, parse_coord);
        ParsedMesh { data, format: "obj".to_owned(), materials_count: 0, textures_count: 0 }
    }

    /// The result for the formats that are recognised but not read yet (PLY,
    /// 3MF, glTF): an empty mesh under the format's name.
    pub fn parse_placeholder(format: MeshFormat) -> (r: ParsedMesh)
        ensures
            is_empty_mesh(r.data),
            is_parsed_as(r, format_name_of(format)),
    {
        ParsedMesh { data: MeshData::new(), format: format.name(), materials_count: 0, textures_count: 0 }
    }
}

} // verus!
