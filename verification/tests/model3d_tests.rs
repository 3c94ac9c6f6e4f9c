use model3d::error::Model3DError;
use model3d::float_bits::{f32_bits_gt, f32_bits_lt, u32_from_le};
use model3d::geometry::GeometryAnalyzer;
use model3d::mesh::MeshData;
use model3d::obj::parse_obj_text;
use model3d::parser::{MeshFormat, MeshParser};
use model3d::processor::{
    join_tags, FileOutcome, Model3DProcessor, Model3DProcessorError, ModelPipeline,
    NonCriticalModel3DProcessorError, PipelineAction, PipelineEvent, PipelineStage, RpcErrorCode, RunProgress,
};
use model3d::stl::{parse_ascii_stl, parse_binary_stl};
use model3d::tagger::{AITagResult, AITagger, TaggingStage, TaggingStep};
use model3d::text::{i32_to_decimal, u64_to_decimal};
use model3d::thumbnail::Thumbnailer3D;

fn coord(s: &[char]) -> u32 {
    s.iter().collect::<String>().parse::<f32>().unwrap_or(0.0).to_bits()
}

fn v3(x: f32, y: f32, z: f32) -> [u32; 3] {
    [x.to_bits(), y.to_bits(), z.to_bits()]
}

fn f3(v: [u32; 3]) -> [f32; 3] {
    [f32::from_bits(v[0]), f32::from_bits(v[1]), f32::from_bits(v[2])]
}

fn parse_failed_text(e: &Model3DError) -> Option<String> {
    match e {
        Model3DError::ParseFailed(m) => Some(m.clone()),
        _ => None,
    }
}

#[test]
fn test_bounding_box() {
    let vertices = vec![v3(0.0, 0.0, 0.0), v3(1.0, 1.0, 1.0), v3(-1.0, -1.0, -1.0)];
    let (min, max) = GeometryAnalyzer::calculate_bounding_box(&vertices);

    assert_eq!(f3(min), [-1.0, -1.0, -1.0]);
    assert_eq!(f3(max), [1.0, 1.0, 1.0]);
}

#[test]
fn bounding_box_keeps_first_of_equal_zeros_and_skips_nan() {
    let vertices = vec![v3(0.0, f32::NAN, 2.0), v3(-0.0, 1.0, f32::NAN), v3(0.5, -3.0, -1.0)];
    let (min, max) = GeometryAnalyzer::calculate_bounding_box(&vertices);
    assert_eq!(min[0], 0.0f32.to_bits());
    assert!(f32::from_bits(min[1]).is_nan());
    assert_eq!(f32::from_bits(min[2]), -1.0);
    assert_eq!(f32::from_bits(max[0]), 0.5);
    assert_eq!(f32::from_bits(max[2]), 2.0);
}

#[test]
fn bit_pattern_order_is_float_order() {
    let samples: Vec<f32> = vec![
        0.0, -0.0, 1.0, -1.0, 0.5, -0.5, 1e-45, -1e-45, 1.17e-38, -1.17e-38, 3.4e38, -3.4e38,
        f32::INFINITY, f32::NEG_INFINITY, f32::NAN, -f32::NAN, 123.25, -7.75, f32::MIN_POSITIVE,
    ];
    for &a in &samples {
        for &b in &samples {
            assert_eq!(f32_bits_lt(a.to_bits(), b.to_bits()), a < b, "{} < {}", a, b);
            assert_eq!(f32_bits_gt(a.to_bits(), b.to_bits()), a > b, "{} > {}", a, b);
        }
    }
}

#[test]
fn le_u32_reads_little_endian() {
    assert_eq!(u32_from_le(1, 2, 3, 4), 0x0403_0201);
    assert_eq!(u32_from_le(0xff, 0xff, 0xff, 0xff), u32::MAX);
}

fn binary_stl(triangles: &[([f32; 3], [[f32; 3]; 3])], count: u32) -> Vec<u8> {
    let mut d = vec![0u8; 80];
    d.extend_from_slice(&count.to_le_bytes());
    for (n, vs) in triangles {
        for x in n {
            d.extend_from_slice(&x.to_le_bytes());
        }
        for v in vs {
            for x in v {
                d.extend_from_slice(&x.to_le_bytes());
            }
        }
        d.extend_from_slice(&[0, 0]);
    }
    d
}

#[test]
fn binary_stl_gives_three_vertices_per_triangle() {
    let data = binary_stl(
        &[
            ([0.0, 0.0, 1.0], [[0.0, 0.0, 0.0], [1.0, 0.0, 0.0], [0.0, 1.0, 0.0]]),
            ([1.0, 0.0, 0.0], [[1.0, 2.0, 3.0], [4.0, 5.0, 6.0], [7.0, 8.5, -9.0]]),
        ],
        2,
    );
    let m = parse_binary_stl(&data).ok().unwrap();
    assert_eq!(m.vertex_count(), 6);
    assert_eq!(m.face_count(), 2);
    assert_eq!(f3(m.vertices[5]), [7.0, 8.5, -9.0]);
    let normals = m.normals.unwrap();
    assert_eq!(normals.len(), 6);
    assert_eq!(f3(normals[0]), [0.0, 0.0, 1.0]);
    assert_eq!(f3(normals[3]), [1.0, 0.0, 0.0]);
    assert_eq!(f3(normals[5]), [1.0, 0.0, 0.0]);
    assert!(m.uvs.is_none() && m.indices.is_none() && m.colors.is_none());
}

#[test]
fn binary_stl_errors() {
    let e = parse_binary_stl(&[0u8; 83]).err().unwrap();
    assert_eq!(parse_failed_text(&e).unwrap(), "Binary STL file too small");
    let data = binary_stl(&[([0.0; 3], [[0.0; 3]; 3])], 2);
    let e = parse_binary_stl(&data).err().unwrap();
    assert_eq!(parse_failed_text(&e).unwrap(), "Unexpected end of STL file");
    let empty = parse_binary_stl(&binary_stl(&[], 0)).ok().unwrap();
    assert_eq!(empty.vertex_count(), 0);
}

#[test]
fn ascii_stl_reads_facets() {
    let text = "solid cube\n  vertex 9 9 9\nfacet normal 0 0 1\r\n outer loop\n  vertex 0 0 0\n  vertex 1 0 0\n  vertex 0 1 0\n endloop\nendfacet\nfacet normal 1\nvertex 2 x 3\nvertex 1 2\nendsolid";
    let m = parse_ascii_stl(text.as_bytes(), coord).ok().unwrap();
    assert_eq!(m.vertex_count(), 5);
    assert_eq!(f3(m.vertices[0]), [9.0, 9.0, 9.0]);
    assert_eq!(f3(m.vertices[2]), [1.0, 0.0, 0.0]);
    assert_eq!(f3(m.vertices[4]), [2.0, 0.0, 3.0]);
    let normals = m.normals.unwrap();
    assert_eq!(f3(normals[0]), [0.0, 0.0, 0.0]);
    assert_eq!(f3(normals[1]), [0.0, 0.0, 1.0]);
    assert_eq!(f3(normals[4]), [0.0, 0.0, 1.0]);
}

#[test]
fn ascii_stl_rejects_invalid_utf8() {
    let data = b"solid \xff\xfe";
    let e = parse_ascii_stl(data, coord).err().unwrap();
    let expected = format!("Invalid UTF-8 in STL: {}", std::str::from_utf8(data).unwrap_err());
    assert_eq!(parse_failed_text(&e).unwrap(), expected);
}

#[test]
fn stl_dispatch_by_header() {
    let ascii = b"solid\nvertex 1 2 3\n";
    let pm = MeshParser::parse_stl(ascii, coord).ok().unwrap();
    assert_eq!(pm.format, "stl");
    assert_eq!(pm.data.vertex_count(), 1);
    let pm = MeshParser::parse_stl(b"solid", coord).ok().unwrap();
    assert_eq!(pm.data.vertex_count(), 0);
    let e = MeshParser::parse_stl(b"binary", coord).err().unwrap();
    assert_eq!(parse_failed_text(&e).unwrap(), "Binary STL file too small");
    let data = binary_stl(&[([0.0; 3], [[1.0; 3]; 3])], 1);
    let pm = MeshParser::parse_stl(&data, coord).ok().unwrap();
    assert_eq!(pm.data.vertex_count(), 3);
    assert_eq!(pm.materials_count, 0);
    assert_eq!(pm.textures_count, 0);
}

#[test]
fn obj_reads_vertices_attributes_and_faces() {
    let text = "# comment\nv 1 2 3\nv 4 5 6 7\nv 1 2\nvn 0 0 1\nvt 0.5 0.25\n\n  f 1/1/1 2//1 3 +4 0 x -1 99999999999\nf 1 2\nfoo bar\n";
    let m = parse_obj_text(text, coord);
    assert_eq!(m.vertex_count(), 2);
    assert_eq!(f3(m.vertices[1]), [4.0, 5.0, 6.0]);
    let normals = m.normals.unwrap();
    assert_eq!(normals.len(), 1);
    let uvs = m.uvs.unwrap();
    assert_eq!([f32::from_bits(uvs[0][0]), f32::from_bits(uvs[0][1])], [0.5, 0.25]);
    assert_eq!(m.indices.unwrap(), vec![0, 1, 2, 3]);
    assert!(m.colors.is_none());
}

#[test]
fn obj_without_attributes_has_none() {
    let pm = MeshParser::parse_obj("v 0 0 0\nv 1 0 0\nv 0 1 0", coord);
    assert_eq!(pm.format, "obj");
    assert!(pm.data.normals.is_none() && pm.data.uvs.is_none() && pm.data.indices.is_none());
    assert_eq!(pm.data.face_count(), 1);
}

#[test]
fn formats_by_extension() {
    assert!(matches!(MeshParser::detect_format(Some("STL")), Ok(MeshFormat::Stl)));
    assert!(matches!(MeshParser::detect_format(Some("obj")), Ok(MeshFormat::Obj)));
    assert!(matches!(MeshParser::detect_format(Some("Ply")), Ok(MeshFormat::Ply)));
    assert!(matches!(MeshParser::detect_format(Some("3MF")), Ok(MeshFormat::ThreeMf)));
    assert!(matches!(MeshParser::detect_format(Some("GLB")), Ok(MeshFormat::Gltf)));
    assert!(matches!(MeshParser::detect_format(Some("gltf")), Ok(MeshFormat::Gltf)));
    match MeshParser::detect_format(Some("FBX")) {
        Err(Model3DError::UnsupportedFormat(e)) => assert_eq!(e, "fbx"),
        _ => panic!("fbx is not supported"),
    }
    let e = MeshParser::detect_format(None).err().unwrap();
    assert_eq!(parse_failed_text(&e).unwrap(), "No file extension");
    let pm = MeshParser::parse_placeholder(MeshFormat::ThreeMf);
    assert_eq!(pm.format, "3mf");
    assert_eq!(pm.data.vertex_count(), 0);
    assert_eq!(MeshFormat::Gltf.name(), "gltf");
}

#[test]
fn mesh_counts() {
    let mut m = MeshData::new();
    assert_eq!(m.vertex_count(), 0);
    assert_eq!(m.face_count(), 0);
    m.vertices = vec![[0; 3]; 7];
    assert_eq!(m.face_count(), 2);
    m.indices = Some(vec![0; 10]);
    assert_eq!(m.face_count(), 3);
    let d = MeshData::default();
    assert!(d.normals.is_none() && d.vertices.is_empty());
}

#[test]
fn analysis_of_a_closed_box() {
    let mut m = MeshData::new();
    m.vertices = vec![
        v3(0.0, 0.0, 0.0), v3(1.0, 0.0, 0.0), v3(1.0, 1.0, 0.0), v3(0.0, 1.0, 0.0),
        v3(0.0, 0.0, 2.0), v3(1.0, 0.0, 2.0), v3(1.0, 1.0, 2.0), v3(0.0, 1.0, 2.0),
    ];
    m.indices = Some(vec![0; 36]);
    let g = GeometryAnalyzer::analyze(&m).ok().unwrap();
    assert_eq!(g.vertices_count, 8);
    assert_eq!(g.faces_count, 12);
    assert_eq!(g.edges_count, 18);
    assert!(g.is_closed && g.is_manifold);
    assert!(!g.has_normals && !g.has_uvs && !g.has_colors);
    assert_eq!(f3(g.bbox_max), [1.0, 1.0, 2.0]);
    assert_eq!(GeometryAnalyzer::summed_triangle_count(&m), 2);
}

#[test]
fn analysis_errors_and_topology() {
    let e = GeometryAnalyzer::analyze(&MeshData::new()).err().unwrap();
    match e {
        Model3DError::GeometryAnalysisFailed(m) => assert_eq!(m, "Mesh has no vertices"),
        _ => panic!("expected a geometry error"),
    }
    let mut m = MeshData::new();
    m.vertices = vec![[0; 3]; 100];
    assert_eq!(GeometryAnalyzer::check_topology(&m), (true, false));
    m.vertices = vec![[0; 3]; 2];
    assert_eq!(GeometryAnalyzer::check_topology(&m), (false, true));
    assert_eq!(GeometryAnalyzer::estimate_edges(5), 7);
}

#[test]
fn heuristic_and_parsed_tags() {
    let t = AITagger::generate_heuristic_tags();
    assert_eq!(t.tags, vec!["3d-model", "mesh", "geometry"]);
    assert_eq!(t.description, "3D model file");
    assert_eq!(t.category, "model");
    assert_eq!(t.confidence_percent, 50);
    assert_eq!(AITagger::parse_tag_list(" Chair, Wooden ,, MODERN  ,\t"), vec!["chair", "wooden", "modern"]);
    assert_eq!(AITagger::parse_tag_list(""), Vec::<String>::new());
    assert_eq!(AITagger::parse_tag_list("a,,b"), vec!["a", "b"]);
    assert_eq!(AITagger::parse_tag_list("ÄRMEL, Tür"), vec!["ärmel", "tür"]);
    let n = AITagResult::new();
    assert!(n.tags.is_empty() && n.description.is_empty());
    assert_eq!(n.category, "unknown");
    assert_eq!(n.confidence_percent, 0);
}

#[test]
fn tagging_conversation() {
    match AITagger::start_tagging(&vec!["a.png".to_string()], false) {
        TaggingStep::Done(t) => assert_eq!(t.confidence_percent, 50),
        _ => panic!("no AI means heuristics"),
    }
    match AITagger::start_tagging(&vec![], true) {
        TaggingStep::Done(t) => assert_eq!(t.category, "model"),
        _ => panic!("no thumbnail means heuristics"),
    }
    let step = AITagger::start_tagging(&vec!["front.png".to_string(), "side.png".to_string()], true);
    let (state, prompt) = match step {
        TaggingStep::Ask { state, prompt } => (state, prompt),
        _ => panic!("expected a question"),
    };
    assert_eq!(state.image, "front.png");
    assert!(prompt.starts_with("Describe this 3D model in one sentence. Focus"));
    let (state, prompt) = match AITagger::advance_tagging(state, Ok("A chair.".to_string())) {
        TaggingStep::Ask { state, prompt } => (state, prompt),
        _ => panic!("expected a question"),
    };
    assert!(prompt.starts_with("List 5-7 relevant tags"));
    let (state, prompt) = match AITagger::advance_tagging(state, Ok("Chair, Furniture".to_string())) {
        TaggingStep::Ask { state, prompt } => (state, prompt),
        _ => panic!("expected a question"),
    };
    assert!(prompt.starts_with("Classify this 3D model"));
    match &state.stage {
        TaggingStage::Category { description, tags } => {
            assert_eq!(description, "A chair.");
            assert_eq!(tags, &vec!["chair", "furniture"]);
        }
        _ => panic!("expected the category stage"),
    }
    match AITagger::advance_tagging(state, Ok("  Furniture\n".to_string())) {
        TaggingStep::Done(t) => {
            assert_eq!(t.category, "furniture");
            assert_eq!(t.confidence_percent, 80);
            assert_eq!(t.tags, vec!["chair", "furniture"]);
        }
        _ => panic!("expected the result"),
    }
    let state = model3d::tagger::TaggingState { image: "x".to_string(), stage: TaggingStage::Description, fallback: true };
    match AITagger::advance_tagging(state, Err(Model3DError::AITaggingFailed("down".to_string()))) {
        TaggingStep::Done(t) => assert_eq!(t.tags, vec!["3d-model", "mesh", "geometry"]),
        _ => panic!("a failure falls back to heuristics"),
    }
}

#[test]
fn tagging_from_renders_uses_the_model() {
    match AITagger::tag_from_renders(&vec![]) {
        TaggingStep::Failed(Model3DError::AITaggingFailed(m)) => assert_eq!(m, "No thumbnails provided"),
        _ => panic!("no view is a failure"),
    }
    let (state, prompt) = match AITagger::tag_from_renders(&vec!["top.png".to_string(), "side.png".to_string()]) {
        TaggingStep::Ask { state, prompt } => (state, prompt),
        _ => panic!("expected a question"),
    };
    assert_eq!(state.image, "top.png");
    assert!(!state.fallback);
    assert!(prompt.starts_with("Describe this 3D model in one sentence."));
    let (state, _) = match AITagger::advance_tagging(state, Ok("A lamp.".to_string())) {
        TaggingStep::Ask { state, prompt } => (state, prompt),
        _ => panic!("expected a question"),
    };
    assert!(!state.fallback);
    match AITagger::advance_tagging(state, Err(Model3DError::AITaggingFailed("timeout".to_string()))) {
        TaggingStep::Failed(Model3DError::AITaggingFailed(m)) => assert_eq!(m, "timeout"),
        _ => panic!("without fallback a failure ends tagging"),
    }
}

#[test]
fn falling_back_conversation_ends_within_three_questions() {
    let mut step = AITagger::start_tagging(&vec!["v.png".to_string()], true);
    let mut questions = 0;
    loop {
        match step {
            TaggingStep::Ask { state, .. } => {
                assert!(state.fallback);
                questions += 1;
                step = AITagger::advance_tagging(state, Ok("Robot, Metal".to_string()));
            }
            TaggingStep::Done(t) => {
                assert_eq!(t.category, "robot, metal");
                assert_eq!(t.confidence_percent, 80);
                break;
            }
            TaggingStep::Failed(_) => panic!("a falling-back conversation never fails"),
        }
    }
    assert_eq!(questions, 3);
}

#[test]
fn ollama_request_parts() {
    assert_eq!(AITagger::ollama_url(None), "http://localhost:11434");
    assert_eq!(AITagger::ollama_url(Some("http://h:1".to_string())), "http://h:1");
    assert_eq!(AITagger::ollama_model(None), "llama3.2-vision");
    assert_eq!(AITagger::generate_endpoint("http://h:1"), "http://h:1/api/generate");
    let req = AITagger::vision_request("m".to_string(), "p".to_string(), b"hello");
    assert_eq!(req.images, vec!["aGVsbG8="]);
    assert!(!req.stream);
    let req = AITagger::vision_request("m".to_string(), "p".to_string(), b"hell");
    assert_eq!(req.images, vec!["aGVsbA=="]);
    match AITagger::read_reply(false, "500 Internal Server Error", None) {
        Err(Model3DError::AITaggingFailed(m)) => assert_eq!(m, "Ollama API returned error: 500 Internal Server Error"),
        _ => panic!("expected a failure"),
    }
    match AITagger::read_reply(true, "200 OK", None) {
        Err(Model3DError::AITaggingFailed(m)) => assert_eq!(m, "No response from Ollama"),
        _ => panic!("expected a failure"),
    }
    assert_eq!(AITagger::read_reply(true, "200 OK", Some("hi".to_string())).ok().unwrap(), "hi");
    match AITagger::select_image(&vec![]) {
        Err(Model3DError::AITaggingFailed(m)) => assert_eq!(m, "No thumbnails provided"),
        _ => panic!("expected a failure"),
    }
}

#[test]
fn thumbnail_names() {
    assert_eq!(
        Thumbnailer3D::multi_view_file_names(),
        vec!["thumb_front.png", "thumb_side.png", "thumb_top.png", "thumb_perspective.png"]
    );
    assert_eq!(Thumbnailer3D::thumbnail_file_name("teapot"), "teapot.png");
    assert_eq!(Thumbnailer3D::thumbnails_dir_name(), ".thumbnails");
}

#[test]
fn error_texts() {
    assert_eq!(Model3DError::ParseFailed("x".to_string()).message(), "failed to parse 3D model: x");
    assert_eq!(
        Model3DError::UnsupportedExtension(-42, "fbx".to_string()).message(),
        "file_path with unsupported extension: <id='-42', extension='fbx'>"
    );
    assert_eq!(Model3DError::FileTooBig(7, 1234567).message(), "file_path too big: <id='7', size='1234567'>");
    assert_eq!(
        Model3DProcessorError::AI(Model3DError::UnsupportedFormat("abc".to_string())).message(),
        "3D model processing error: unsupported 3D format: abc"
    );
    assert_eq!(Model3DProcessorError::Database("gone".to_string()).message(), "database error: gone");
    assert_eq!(
        Model3DProcessorError::NonCritical(NonCriticalModel3DProcessorError::ThumbnailGenerationFailed("io".to_string())).message(),
        "Failed to generate thumbnail: io"
    );
    let (code, m) = Model3DProcessorError::Database("gone".to_string()).rpc_error();
    assert!(matches!(code, RpcErrorCode::InternalServerError));
    assert_eq!(m, "gone");
    let (code, m) = Model3DProcessorError::AI(Model3DError::ParseFailed("bad".to_string())).rpc_error();
    assert!(matches!(code, RpcErrorCode::InternalServerError));
    assert_eq!(m, "failed to parse 3D model: bad");
    let (_, m) = Model3DProcessorError::NonCritical(NonCriticalModel3DProcessorError::AITaggingFailed("x".to_string())).rpc_error();
    assert_eq!(m, "AI tagging failed: x");
    assert_eq!(u64_to_decimal(0), "0");
    assert_eq!(u64_to_decimal(u64::MAX), u64::MAX.to_string());
    assert_eq!(i32_to_decimal(i32::MIN), i32::MIN.to_string());
}

#[test]
fn run_progress_counts() {
    let mut p = RunProgress::start(3);
    assert_eq!(p.record(FileOutcome::Skipped), None);
    assert_eq!(p.record(FileOutcome::Processed), Some(1));
    assert_eq!(p.record(FileOutcome::Failed), Some(1));
    assert_eq!(p.report(), (1, 3));
    let job = Model3DProcessor::new(4, "/models".to_string(), None, true);
    let q = job.file_query(Some("/sub".to_string()));
    assert_eq!(q.location_id, 4);
    assert_eq!(q.extensions.len(), 11);
    assert_eq!(q.path_prefix.as_deref(), Some("/sub"));
    assert_eq!(join_tags(&vec!["a".to_string(), "b".to_string(), "c".to_string()]), "a, b, c");
    assert_eq!(join_tags(&vec![]), "");
}

fn triangle_mesh() -> model3d::mesh::ParsedMesh {
    let mut data = MeshData::new();
    data.vertices = vec![v3(0.0, 0.0, 0.0), v3(1.0, 0.0, 0.0), v3(0.0, 1.0, 0.0)];
    model3d::mesh::ParsedMesh { data, format: "obj".to_string(), materials_count: 0, textures_count: 0 }
}

#[test]
fn pipeline_with_tags() {
    let (p, a) = ModelPipeline::start(true, true, "teapot".to_string(), Some(9));
    assert!(matches!(a, PipelineAction::ParseModel));
    assert!(!p.accepts(&PipelineEvent::ThumbnailWritten(Ok(()))));
    assert!(p.accepts(&PipelineEvent::Parsed(Ok(triangle_mesh()))));
    let (p, a) = p.step(PipelineEvent::Parsed(Ok(triangle_mesh())));
    assert!(p.accepts(&PipelineEvent::ThumbnailWritten(Ok(()))));
    match a {
        PipelineAction::WriteThumbnail { dir_name, file_name, features } => {
            assert_eq!(dir_name, ".thumbnails");
            assert_eq!(file_name, "teapot.png");
            assert_eq!(features.vertices_count, 3);
        }
        _ => panic!("expected the thumbnail"),
    }
    let (p, a) = p.step(PipelineEvent::ThumbnailWritten(Ok(())));
    assert!(matches!(a, PipelineAction::TagThumbnail));
    let (p, a) = p.step(PipelineEvent::Tagged(Ok(AITagger::generate_heuristic_tags())));
    match a {
        PipelineAction::StoreRecord { object_id, record } => {
            assert_eq!(object_id, 9);
            assert_eq!(record.faces_count, 1);
        }
        _ => panic!("expected the record"),
    }
    let (p, a) = p.step(PipelineEvent::RecordStored(Ok(())));
    match a {
        PipelineAction::StoreTags { object_id, tags } => {
            assert_eq!(object_id, 9);
            assert_eq!(tags.tags, "3d-model, mesh, geometry");
        }
        _ => panic!("expected the tags"),
    }
    let (p, a) = p.step(PipelineEvent::TagsStored(Ok(())));
    assert!(matches!(a, PipelineAction::Finish(Ok(()))));
    assert!(p.stage == PipelineStage::Finished);
}

#[test]
fn pipeline_failures() {
    let (p, _) = ModelPipeline::start(false, false, "x".to_string(), Some(1));
    let (_, a) = p.step(PipelineEvent::Parsed(Ok(triangle_mesh())));
    match a {
        PipelineAction::Finish(Err(Model3DProcessorError::AI(Model3DError::ParseFailed(m)))) => assert_eq!(m, "No parent directory"),
        _ => panic!("expected the missing parent"),
    }
    let (p, _) = ModelPipeline::start(false, true, "x".to_string(), None);
    let (p, _) = p.step(PipelineEvent::Parsed(Ok(triangle_mesh())));
    let (_, a) = p.step(PipelineEvent::ThumbnailWritten(Ok(())));
    match a {
        PipelineAction::Finish(Err(Model3DProcessorError::AI(Model3DError::IsolateFilePathData(m)))) => assert_eq!(m, "file_path.object_id"),
        _ => panic!("expected the missing object"),
    }
    let (p, _) = ModelPipeline::start(false, true, "x".to_string(), Some(2));
    let (p, _) = p.step(PipelineEvent::Parsed(Ok(triangle_mesh())));
    let (p, _) = p.step(PipelineEvent::ThumbnailWritten(Ok(())));
    let (_, a) = p.step(PipelineEvent::RecordStored(Err("locked".to_string())));
    match a {
        PipelineAction::Finish(Err(Model3DProcessorError::Database(m))) => assert_eq!(m, "locked"),
        _ => panic!("expected the database failure"),
    }
    let (p, _) = ModelPipeline::start(false, true, "x".to_string(), Some(2));
    let (_, a) = p.step(PipelineEvent::Parsed(Ok(model3d::mesh::ParsedMesh {
        data: MeshData::new(),
        format: "ply".to_string(),
        materials_count: 0,
        textures_count: 0,
    })));
    match a {
        PipelineAction::Finish(Err(Model3DProcessorError::AI(Model3DError::GeometryAnalysisFailed(m)))) => assert_eq!(m, "Mesh has no vertices"),
        _ => panic!("expected the empty mesh failure"),
    }
}

#[test]
fn ascii_stl_keyword_prefixes() {
    let text = "facet normal 1 2 3 extra\nvertexfoo 4 5 6\nvertex 7\nfacet normalx 0 0 9\nvertex 1 1 1\n";
    let m = parse_ascii_stl(text.as_bytes(), coord).ok().unwrap();
    assert_eq!(m.vertex_count(), 2);
    assert_eq!(f3(m.vertices[0]), [4.0, 5.0, 6.0]);
    let normals = m.normals.unwrap();
    assert_eq!(f3(normals[0]), [1.0, 2.0, 3.0]);
    assert_eq!(f3(normals[1]), [0.0, 0.0, 9.0]);
}

#[test]
fn obj_short_lines_are_ignored() {
    let m = parse_obj_text("vn 1 2\nvt 1\nv 1 2 3\nf 1 2 3\n", coord);
    assert!(m.normals.is_none());
    assert!(m.uvs.is_none());
    assert_eq!(m.indices.unwrap(), vec![0, 1, 2]);
}
