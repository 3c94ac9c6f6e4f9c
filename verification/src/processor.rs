//! The job that processes the 3D models of a location: which files it takes,
//! how a run counts its progress, and the steps that one model goes through.
use vstd::prelude::*;
use crate::error::{model3d_error_text, Model3DError};
use crate::geometry::{bbox_max_of, bbox_min_of, features_of, spec_is_closed, GeometryAnalyzer, GeometryFeatures};
use crate::mesh::{spec_face_count, ParsedMesh};
use crate::parser::format_of_extension;
use crate::tagger::{texts, AITagResult};
use crate::thumbnail::Thumbnailer3D;

verus! {

/// Errors of a model that do not stop the job.
pub enum NonCriticalModel3DProcessorError {
    ParseFailed(String),
    GeometryAnalysisFailed(String),
    ThumbnailGenerationFailed(String),
    AITaggingFailed(String),
}

/// Errors of the 3D model job.
pub enum Model3DProcessorError {
    /// A database query failed; the query error's text.
    Database(String),
    /// Parsing, analysis, thumbnail or tagging of a model failed.
    AI(Model3DError),
    NonCritical(NonCriticalModel3DProcessorError),
}

/// The text of a non-critical error.
pub open spec fn non_critical_text(e: NonCriticalModel3DProcessorError) -> Seq<char> {
    match e {
        NonCriticalModel3DProcessorError::ParseFailed(m) => "Failed to parse 3D model: "@ + m@,
        NonCriticalModel3DProcessorError::GeometryAnalysisFailed(m) => "Failed to analyze geometry: "@ + m@,
        NonCriticalModel3DProcessorError::ThumbnailGenerationFailed(m) => "Failed to generate thumbnail: "@ + m@,
        NonCriticalModel3DProcessorError::AITaggingFailed(m) => "AI tagging failed: "@ + m@,
    }
}

/// The text of a job error.
pub open spec fn processor_error_text(e: Model3DProcessorError) -> Seq<char> {
    match e {
        Model3DProcessorError::Database(m) => "database error: "@ + m@,
        Model3DProcessorError::AI(inner) => "3D model processing error: "@ + model3d_error_text(inner),
        Model3DProcessorError::NonCritical(inner) => non_critical_text(inner),
    }
}

/// The codes of an error answered to an RPC client.
pub enum RpcErrorCode {
    BadRequest,
    Unauthorized,
    Forbidden,
    NotFound,
    Timeout,
    Conflict,
    PreconditionFailed,
    PayloadTooLarge,
    MethodNotSupported,
    ClientClosedRequest,
    InternalServerError,
}

/// The message that an RPC client gets for a job error: the text of the error
/// inside it, without the job error's prefix.
pub open spec fn rpc_message_text(e: Model3DProcessorError) -> Seq<char> {
    match e {
        Model3DProcessorError::Database(m) => m@,
        Model3DProcessorError::AI(inner) => model3d_error_text(inner),
        Model3DProcessorError::NonCritical(inner) => non_critical_text(inner),
    }
}

fn prefixed(prefix: &str, text: &str) -> (r: String)
    ensures
        r@ == prefix@ + text@,
{
    let mut r = prefix.to_owned();
    r.append(text);
    r
}

impl NonCriticalModel3DProcessorError {
    /// The text of the error.
    pub fn message(&self) -> (r: String)
        ensures
            r@ == non_critical_text(*self),
    {
        match self {
            NonCriticalModel3DProcessorError::ParseFailed(m) => prefixed("Failed to parse 3D model: ", m.as_str()),
            NonCriticalModel3DProcessorError::GeometryAnalysisFailed(m) => prefixed("Failed to analyze geometry: ", m.as_str()),
            NonCriticalModel3DProcessorError::ThumbnailGenerationFailed(m) => prefixed("Failed to generate thumbnail: ", m.as_str()),
            NonCriticalModel3DProcessorError::AITaggingFailed(m) => prefixed("AI tagging failed: ", m.as_str()),
        }
    }
}

impl Model3DProcessorError {
    /// The text of the error.
    pub fn message(&self) -> (r: String)
        ensures
            r@ == processor_error_text(*self),
    {
        match self {
            Model3DProcessorError::Database(m) => prefixed("database error: ", m.as_str()),
            Model3DProcessorError::AI(inner) => prefixed("3D model processing error: ", inner.message().as_str()),
            Model3DProcessorError::NonCritical(inner) => inner.message(),
        }
    }

    /// What an RPC client is answered for the error: an internal server
    /// error, with the text of the error inside it.
    pub fn rpc_error(&self) -> (r: (RpcErrorCode, String))
        ensures
            r.0 is InternalServerError,
            r.1@ == rpc_message_text(*self),
    {
        let message = match self {
            Model3DProcessorError::Database(m) => m.clone(),
            Model3DProcessorError::AI(inner) => inner.message(),
            Model3DProcessorError::NonCritical(inner) => inner.message(),
        };
        (RpcErrorCode::InternalServerError, message)
    }
}

/// The 3D model job of a location.
pub struct Model3DProcessor {
    pub location_id: i32,
    pub location_path: String,
    pub sub_path: Option<String>,
    pub enable_ai_tagging: bool,
}

/// The file paths that the job processes: those of a location with one of the
/// 3D model extensions, under `path_prefix` when there is one.
pub struct ModelFileQuery {
    pub location_id: i32,
    pub extensions: Vec<String>,
    pub path_prefix: Option<String>,
}

/// The extensions of the files that the job looks for.
pub open spec fn model_extensions() -> Seq<Seq<char>> {
    seq!["stl"@, "obj"@, "fbx"@, "3mf"@, "ply"@, "gltf"@, "glb"@, "dae"@, "blend"@, "step"@, "stp"@]
}

/// Every extension that the parsers read (STL, OBJ, PLY, 3MF, glTF and GLB)
/// is among those that the job looks for.
pub proof fn lemma_parsed_extensions_are_queried(ext: Seq<char>)
    ensures
        format_of_extension(ext) is Some ==> model_extensions().contains(ext),
        model_extensions().contains("stl"@),
        model_extensions().contains("obj"@),
        model_extensions().contains("ply"@),
        model_extensions().contains("3mf"@),
        model_extensions().contains("gltf"@),
        model_extensions().contains("glb"@),
{
    let m = model_extensions();
    assert(m[0] == "stl"@);
    assert(m[1] == "obj"@);
    assert(m[4] == "ply"@);
    assert(m[3] == "3mf"@);
    assert(m[5] == "gltf"@);
    assert(m[6] == "glb"@);
}

impl Model3DProcessor {
    /// A job for a location (its id and path), below `sub_path` if given.
    pub fn new(location_id: i32, location_path: String, sub_path: Option<String>, enable_ai_tagging: bool) -> (r: Self)
        ensures
            r.location_id == location_id,
            r.location_path == location_path,
            r.sub_path == sub_path,
            r.enable_ai_tagging == enable_ai_tagging,
    {
        Model3DProcessor { location_id, location_path, sub_path, enable_ai_tagging }
    }

    /// The 3D model extensions the job looks for.
    pub fn model_extensions() -> (r: Vec<String>)
        ensures
            texts(r@) == model_extensions(),
    {
        let mut r: Vec<String> = Vec::new();
        r.push("stl".to_owned());
        r.push("obj".to_owned());
        r.push("fbx".to_owned());
        r.push("3mf".to_owned());
        r.push("ply".to_owned());
        r.push("gltf".to_owned());
        r.push("glb".to_owned());
        r.push("dae".to_owned());
        r.push("blend".to_owned());
        r.push("step".to_owned());
        r.push("stp".to_owned());
        assert(texts(r@) =~= model_extensions());
        r
    }

    /// The query for the job's files: its location, the model extensions, and
    /// the sub path (as text, when it has a text form) as materialized-path prefix.
    pub fn file_query(&self, sub_path_text: Option<String>) -> (r: ModelFileQuery)
        ensures
            r.location_id == self.location_id,
            texts(r.extensions@) == model_extensions(),
            r.path_prefix == sub_path_text,
    {
        ModelFileQuery { location_id: self.location_id, extensions: Self::model_extensions(), path_prefix: sub_path_text }
    }
}

/// How the processing of one file ended.
pub enum FileOutcome {
    /// The file was processed and stored.
    Processed,
    /// Processing the file failed; the job goes on.
    Failed,
    /// The file path record could not be resolved to a path; the file is skipped.
    Skipped,
}

/// The progress of a run: files found, files visited, files processed.
pub struct RunProgress {
    pub total: usize,
    pub visited: usize,
    pub processed: usize,
}

/// The counts of a run are consistent.
pub open spec fn progress_ok(p: RunProgress) -> bool {
    p.processed <= p.visited <= p.total
}

impl RunProgress {
    /// The progress of a run over `total` files, before any.
    pub fn start(total: usize) -> (r: Self)
        ensures
            r.total == total,
            r.visited == 0,
            r.processed == 0,
            progress_ok(r),
    {
        RunProgress { total, visited: 0, processed: 0 }
    }

    /// Records the outcome of the next file. The progress update to report
    /// (the number of files processed so far) comes back, except for a skipped
    /// file, which reports none.
    pub fn record(&mut self, outcome: FileOutcome) -> (r: Option<usize>)
        requires
            progress_ok(*old(self)),
            old(self).visited < old(self).total,
        ensures
            progress_ok(*final(self)),
            final(self).total == old(self).total,
            final(self).visited == old(self).visited + 1,
            final(self).processed == old(self).processed + (if outcome is Processed { 1int } else { 0 }),
            outcome is Skipped ==> r is None,
            !(outcome is Skipped) ==> r == Some(final(self).processed),
    {
        self.visited = self.visited + 1;
        match outcome {
            FileOutcome::Processed => {
                self.processed = self.processed + 1;
                Some(self.processed)
            },
            FileOutcome::Failed => Some(self.processed),
            FileOutcome::Skipped => None,
        }
    }

    /// The report of the run: (processed, total).
    pub fn report(&self) -> (r: (u64, u64))
        ensures
            r.0 == self.processed,
            r.1 == self.total,
    {
        (self.processed as u64, self.total as u64)
    }
}

/// What is stored of a model's features and parse metadata.
#[derive(Clone, Copy)]
pub struct Model3DRecord {
    pub vertices_count: i64,
    pub faces_count: i64,
    pub edges_count: i64,
    pub bbox_min: [u32; 3],
    pub bbox_max: [u32; 3],
    pub is_manifold: bool,
    pub is_closed: bool,
    pub has_normals: bool,
    pub has_uvs: bool,
    pub has_colors: bool,
    pub materials_count: i32,
    pub textures_count: i32,
}

/// What is stored of a model's tags: the tags joined by `, `.
pub struct AITagsRecord {
    pub tags: String,
    pub description: String,
    pub category: String,
}

/// The texts `ts` joined by `sep`.
pub open spec fn joined(ts: Seq<Seq<char>>, sep: Seq<char>) -> Seq<char>
    decreases ts.len(),
{
    if ts.len() == 0 {
        Seq::empty()
    } else if ts.len() == 1 {
        ts[0]
    } else {
        joined(ts.drop_last(), sep) + sep + ts.last()
    }
}

/// `r` records the features `g` and the counts of `pm`.
pub open spec fn is_record_of(r: Model3DRecord, g: GeometryFeatures, pm: ParsedMesh) -> bool {
    &&& r.vertices_count == g.vertices_count as i64
    &&& r.faces_count == g.faces_count as i64
    &&& r.edges_count == g.edges_count as i64
    &&& r.bbox_min == g.bbox_min
    &&& r.bbox_max == g.bbox_max
    &&& r.is_manifold == g.is_manifold
    &&& r.is_closed == g.is_closed
    &&& r.has_normals == g.has_normals
    &&& r.has_uvs == g.has_uvs
    &&& r.has_colors == g.has_colors
    &&& r.materials_count == pm.materials_count as i32
    &&& r.textures_count == pm.textures_count as i32
}

impl Model3DRecord {
    /// The record of a model's features and its parse metadata.
    pub fn from_features(g: &GeometryFeatures, pm: &ParsedMesh) -> (r: Self)
        ensures
            is_record_of(r, *g, *pm),
    {
        Model3DRecord {
            vertices_count: g.vertices_count as i64,
            faces_count: g.faces_count as i64,
            edges_count: g.edges_count as i64,
            bbox_min: g.bbox_min,
            bbox_max: g.bbox_max,
            is_manifold: g.is_manifold,
            is_closed: g.is_closed,
            has_normals: g.has_normals,
            has_uvs: g.has_uvs,
            has_colors: g.has_colors,
            materials_count: pm.materials_count as i32,
            textures_count: pm.textures_count as i32,
        }
    }
}

/// The tags joined by `, `.
pub fn join_tags(tags: &Vec<String>) -> (r: String)
    ensures
        r@ == joined(texts(tags@), ", "@),
{
    let mut r = String::new();
    let mut i: usize = 0;
    proof {
        assert(texts(tags@).subrange(0, 0) =~= Seq::<Seq<char>>::empty());
    }
    while i < tags.len()
        invariant
            i <= tags@.len(),
            r@ == joined(texts(tags@).subrange(0, i as int), ", "@),
        decreases tags@.len() - i,
    {
        let ghost prev = texts(tags@).subrange(0, i as int);
        let ghost next = texts(tags@).subrange(0, i + 1);
        assert(next.drop_last() =~= prev);
        assert(next.last() == tags@[i as int]@);
        if i > 0 {
            r.append(", ");
        }
        r.append(tags[i].as_str());
        proof {
            if i == 0 {
                assert(r@ =~= next[0]);
            }
        }
        i += 1;
    }
    assert(texts(tags@).subrange(0, tags@.len() as int) =~= texts(tags@));
    r
}

impl AITagsRecord {
    /// The record of a tagging result.
    pub fn from_tags(t: AITagResult) -> (r: Self)
        ensures
            r.tags@ == joined(texts(t.tags@), ", "@),
            r.description == t.description,
            r.category == t.category,
    {
        AITagsRecord { tags: join_tags(&t.tags), description: t.description, category: t.category }
    }
}

/// Where the processing of one model stands.
#[derive(PartialEq, Eq, Structural)]
pub enum PipelineStage {
    Parsing,
    WritingThumbnail,
    Tagging,
    Storing,
    StoringTags,
    Finished,
}

/// The processing of one model file. `has_parent_dir` and `file_stem` describe
/// its path; `object_id` is the object of its file path record, if any.
pub struct ModelPipeline {
    pub enable_ai_tagging: bool,
    pub has_parent_dir: bool,
    pub file_stem: String,
    pub object_id: Option<i32>,
    pub stage: PipelineStage,
    pub record: Option<Model3DRecord>,
    pub tags: Option<AITagResult>,
}

/// What the outside work of a step gave.
pub enum PipelineEvent {
    Parsed(Result<ParsedMesh, Model3DError>),
    ThumbnailWritten(Result<(), Model3DError>),
    Tagged(Result<AITagResult, Model3DError>),
    /// Storing the record; a database failure's text.
    RecordStored(Result<(), String>),
    /// Storing the tags; a database failure's text.
    TagsStored(Result<(), String>),
}

/// The outside work to do next.
pub enum PipelineAction {
    /// Read and parse the model file.
    ParseModel,
    /// Render the thumbnail of the model into `dir_name` (beside the model) as `file_name`.
    WriteThumbnail { dir_name: String, file_name: String, features: GeometryFeatures },
    /// Tag the thumbnail (with the vision model).
    TagThumbnail,
    /// Store the model's record for its object.
    StoreRecord { object_id: i32, record: Model3DRecord },
    /// Store the model's tags for its object.
    StoreTags { object_id: i32, tags: AITagsRecord },
    /// Processing is over, with this outcome.
    Finish(Result<(), Model3DProcessorError>),
}

/// `e` is the event that stage `s` waits for.
pub open spec fn event_fits(s: PipelineStage, e: PipelineEvent) -> bool {
    match s {
        PipelineStage::Parsing => e is Parsed,
        PipelineStage::WritingThumbnail => e is ThumbnailWritten,
        PipelineStage::Tagging => e is Tagged,
        PipelineStage::Storing => e is RecordStored,
        PipelineStage::StoringTags => e is TagsStored,
        PipelineStage::Finished => false,
    }
}

/// `a` ends processing with the library error `e`.
pub open spec fn fails_with(a: PipelineAction, e: Model3DError) -> bool {
    a matches PipelineAction::Finish(Err(Model3DProcessorError::AI(x))) && x == e
}

/// `a` ends processing with a library error that meets `pred`.
pub open spec fn fails_with_ai(a: PipelineAction, pred: spec_fn(Model3DError) -> bool) -> bool {
    a matches PipelineAction::Finish(Err(Model3DProcessorError::AI(x))) && pred(x)
}

/// `a` ends processing with the database failure `m`.
pub open spec fn fails_in_database(a: PipelineAction, m: String) -> bool {
    a matches PipelineAction::Finish(Err(Model3DProcessorError::Database(x))) && x == m
}

/// After the thumbnail (and the tags, if any): store the record for the
/// object, or fail when the file path has no object.
pub open spec fn stores_or_fails(p: ModelPipeline, a: PipelineAction) -> bool {
    match p.object_id {
        None => p.stage == PipelineStage::Finished && fails_with_ai(
            a,
            |x: Model3DError| x matches Model3DError::IsolateFilePathData(m) && m@ == "file_path.object_id"@,
        ),
        Some(id) => p.stage == PipelineStage::Storing && p.record is Some && (a matches PipelineAction::StoreRecord {
            object_id,
            record,
        } && object_id == id && Some(record) == p.record),
    }
}

/// `a` renders the thumbnail of the parsed model `pm` (named after `stem`) with
/// its features, and `p` keeps the record of those features.
pub open spec fn writes_thumbnail(p: ModelPipeline, a: PipelineAction, pm: ParsedMesh, stem: String) -> bool {
    &&& p.stage == PipelineStage::WritingThumbnail
    &&& match a {
        PipelineAction::WriteThumbnail { dir_name, file_name, features } => {
            &&& dir_name@ == ".thumbnails"@
            &&& file_name@ == stem@ + ".png"@
            &&& features_of(pm.data, features)
            &&& p.record matches Some(rec) && is_record_of(rec, features, pm)
        },
        _ => false,
    }
}

/// `a` stores the tags `t` for the object `id`.
pub open spec fn stores_tags(p: ModelPipeline, a: PipelineAction, t: AITagResult, id: Option<i32>) -> bool {
    &&& p.stage == PipelineStage::StoringTags
    &&& match a {
        PipelineAction::StoreTags { object_id, tags } => {
            &&& Some(object_id) == id
            &&& tags.tags@ == joined(texts(t.tags@), ", "@)
            &&& tags.description == t.description
            &&& tags.category == t.category
        },
        _ => false,
    }
}

/// The fields that a stage needs are there: the record from the thumbnail on,
/// the object once storing; and no tags before tagging.
pub open spec fn pipeline_ok(p: ModelPipeline) -> bool {
    &&& (p.stage == PipelineStage::WritingThumbnail || p.stage == PipelineStage::Tagging
        || p.stage == PipelineStage::Storing) ==> p.record is Some
    &&& (p.stage == PipelineStage::Storing || p.stage == PipelineStage::StoringTags) ==> p.object_id is Some
    &&& (p.stage == PipelineStage::Parsing || p.stage == PipelineStage::WritingThumbnail
        || p.stage == PipelineStage::Tagging) ==> p.tags is None
}

/// Once the thumbnail of a parsed model is being written, the record that the
/// model will be stored with holds that model's analysis: the bounding box of
/// its vertices, its counts (where they fit the stored integers), its
/// topology, its attributes and its material and texture counts.
pub proof fn lemma_record_holds_model_analysis(p: ModelPipeline, a: PipelineAction, pm: ParsedMesh, stem: String)
    requires
        writes_thumbnail(p, a, pm, stem),
    ensures
        p.record is Some,
        forall|axis: int|
            0 <= axis < 3 ==> (#[trigger] p.record->0.bbox_min[axis]) == bbox_min_of(pm.data.vertices@, axis),
        forall|axis: int|
            0 <= axis < 3 ==> (#[trigger] p.record->0.bbox_max[axis]) == bbox_max_of(pm.data.vertices@, axis),
        pm.data.vertices@.len() <= i64::MAX ==> p.record->0.vertices_count == pm.data.vertices@.len(),
        spec_face_count(pm.data) <= i64::MAX ==> p.record->0.faces_count == spec_face_count(pm.data),
        3 * spec_face_count(pm.data) <= i64::MAX ==> 2 * p.record->0.edges_count <= 3 * spec_face_count(pm.data)
            < 2 * p.record->0.edges_count + 2,
        p.record->0.is_manifold == (pm.data.vertices@.len() > 0 && spec_face_count(pm.data) > 0),
        p.record->0.is_closed == spec_is_closed(pm.data),
        p.record->0.has_normals == pm.data.normals is Some,
        p.record->0.has_uvs == pm.data.uvs is Some,
        p.record->0.has_colors == pm.data.colors is Some,
        pm.materials_count <= i32::MAX ==> p.record->0.materials_count == pm.materials_count,
        pm.textures_count <= i32::MAX ==> p.record->0.textures_count == pm.textures_count,
{
}

/// A record is stored only as the one that the pipeline keeps: storing for an
/// object stores exactly the kept record, for that object.
pub proof fn lemma_stored_record_is_kept_record(p: ModelPipeline, a: PipelineAction)
    requires
        stores_or_fails(p, a),
        p.object_id is Some,
    ensures
        a matches PipelineAction::StoreRecord { object_id, record } && Some(object_id) == p.object_id
            && Some(record) == p.record,
{
}

impl ModelPipeline {
    /// The processing of a model, at its start: parse the file.
    pub fn start(enable_ai_tagging: bool, has_parent_dir: bool, file_stem: String, object_id: Option<i32>) -> (r: (
        Self,
        PipelineAction,
    ))
        ensures
            r.0.stage == PipelineStage::Parsing,
            r.0.enable_ai_tagging == enable_ai_tagging,
            r.0.has_parent_dir == has_parent_dir,
            r.0.file_stem == file_stem,
            r.0.object_id == object_id,
            r.0.record is None,
            r.0.tags is None,
            r.1 is ParseModel,
            pipeline_ok(r.0),
    {
        (
            ModelPipeline {
                enable_ai_tagging,
                has_parent_dir,
                file_stem,
                object_id,
                stage: PipelineStage::Parsing,
                record: None,
                tags: None,
            },
            PipelineAction::ParseModel,
        )
    }

    /// Whether `event` is what the current stage waits for, with the fields
    /// that the stage needs: when it is, `step` may take it.
    pub fn accepts(&self, event: &PipelineEvent) -> (r: bool)
        ensures
            r == (event_fits(self.stage, *event) && pipeline_ok(*self)),
    {
        let fits = match (&self.stage, event) {
            (PipelineStage::Parsing, PipelineEvent::Parsed(_)) => true,
            (PipelineStage::WritingThumbnail, PipelineEvent::ThumbnailWritten(_)) => true,
            (PipelineStage::Tagging, PipelineEvent::Tagged(_)) => true,
            (PipelineStage::Storing, PipelineEvent::RecordStored(_)) => true,
            (PipelineStage::StoringTags, PipelineEvent::TagsStored(_)) => true,
            _ => false,
        };
        let has_record = self.record.is_some();
        let has_object = self.object_id.is_some();
        let no_tags = self.tags.is_none();
        let ok = match self.stage {
            PipelineStage::Parsing => no_tags,
            PipelineStage::WritingThumbnail => has_record && no_tags,
            PipelineStage::Tagging => has_record && no_tags,
            PipelineStage::Storing => has_record && has_object,
            PipelineStage::StoringTags => has_object,
            PipelineStage::Finished => true,
        };
        fits && ok
    }

    fn store_next(self) -> (r: (Self, PipelineAction))
        requires
            self.record is Some,
        ensures
            stores_or_fails(r.0, r.1),
            pipeline_ok(r.0),
            r.0.object_id == self.object_id,
            r.0.record == self.record,
            r.0.tags == self.tags,
            r.0.enable_ai_tagging == self.enable_ai_tagging,
    {
        match self.object_id {
            None => {
                let p = ModelPipeline { stage: PipelineStage::Finished, ..self };
                proof {
                    reveal_strlit("file_path.object_id");
                }
                (p, PipelineAction::Finish(Err(Model3DProcessorError::AI(Model3DError::IsolateFilePathData("file_path.object_id".to_owned())))))
            },
            Some(id) => {
                let record = self.record.unwrap();
                let p = ModelPipeline { stage: PipelineStage::Storing, ..self };
                (p, PipelineAction::StoreRecord { object_id: id, record })
            },
        }
    }

    /// The next step, after the outside work of the current one gave `event`.
    pub fn step(self, event: PipelineEvent) -> (r: (Self, PipelineAction))
        requires
            event_fits(self.stage, event),
            pipeline_ok(self),
        ensures
            pipeline_ok(r.0),
            r.0.object_id == self.object_id,
            r.0.enable_ai_tagging == self.enable_ai_tagging,
            // parsing
            event matches PipelineEvent::Parsed(Err(e)) ==> r.0.stage == PipelineStage::Finished && fails_with(r.1, e),
            event matches PipelineEvent::Parsed(Ok(pm)) && pm.data.vertices@.len() == 0 ==> r.0.stage
                == PipelineStage::Finished && fails_with_ai(
                r.1,
                |x: Model3DError| x matches Model3DError::GeometryAnalysisFailed(m) && m@ == "Mesh has no vertices"@,
            ),
            event matches PipelineEvent::Parsed(Ok(pm)) && pm.data.vertices@.len() > 0 && !self.has_parent_dir ==> r.0.stage
                == PipelineStage::Finished && fails_with_ai(
                r.1,
                |x: Model3DError| x matches Model3DError::ParseFailed(m) && m@ == "No parent directory"@,
            ),
            match event {
                PipelineEvent::Parsed(Ok(pm)) => pm.data.vertices@.len() > 0 && self.has_parent_dir ==> writes_thumbnail(
                    r.0,
                    r.1,
                    pm,
                    self.file_stem,
                ),
                _ => true,
            },
            // thumbnail
            event matches PipelineEvent::ThumbnailWritten(Err(e)) ==> r.0.stage == PipelineStage::Finished && fails_with(r.1, e),
            event matches PipelineEvent::ThumbnailWritten(Ok(_)) && self.enable_ai_tagging ==> r.0.stage
                == PipelineStage::Tagging && r.1 is TagThumbnail && r.0.record == self.record,
            event matches PipelineEvent::ThumbnailWritten(Ok(_)) && !self.enable_ai_tagging ==> stores_or_fails(r.0, r.1)
                && r.0.record == self.record && r.0.tags is None,
            // tagging
            event matches PipelineEvent::Tagged(Err(e)) ==> r.0.stage == PipelineStage::Finished && fails_with(r.1, e),
            event matches PipelineEvent::Tagged(Ok(t)) ==> stores_or_fails(r.0, r.1) && r.0.record == self.record
                && r.0.tags == Some(t),
            // storing
            event matches PipelineEvent::RecordStored(Err(m)) ==> r.0.stage == PipelineStage::Finished
                && fails_in_database(r.1, m),
            event matches PipelineEvent::RecordStored(Ok(_)) && self.tags is None ==> r.0.stage == PipelineStage::Finished
                && r.1 matches PipelineAction::Finish(Ok(_)),
            match (event, self.tags) {
                (PipelineEvent::RecordStored(Ok(_)), Some(t)) => stores_tags(r.0, r.1, t, self.object_id),
                _ => true,
            },
            event matches PipelineEvent::TagsStored(Err(m)) ==> r.0.stage == PipelineStage::Finished
                && fails_in_database(r.1, m),
            event matches PipelineEvent::TagsStored(Ok(_)) ==> r.0.stage == PipelineStage::Finished
                && r.1 matches PipelineAction::Finish(Ok(_)),
    {
        match event {
            PipelineEvent::Parsed(Err(e)) => {
                (ModelPipeline { stage: PipelineStage::Finished, ..self }, PipelineAction::Finish(Err(Model3DProcessorError::AI(e))))
            },
            PipelineEvent::Parsed(Ok(pm)) => {
                match GeometryAnalyzer::analyze(&pm.data) {
                    Err(e) => (
                        ModelPipeline { stage: PipelineStage::Finished, ..self },
                        PipelineAction::Finish(Err(Model3DProcessorError::AI(e))),
                    ),
                    Ok(features) => {
                        if !self.has_parent_dir {
                            return (
                                ModelPipeline { stage: PipelineStage::Finished, ..self },
                                PipelineAction::Finish(
                                    Err(Model3DProcessorError::AI(Model3DError::ParseFailed("No parent directory".to_owned()))),
                                ),
                            );
                        }
                        let record = Model3DRecord::from_features(&features, &pm);
                        let file_name = Thumbnailer3D::thumbnail_file_name(self.file_stem.as_str());
                        let dir_name = Thumbnailer3D::thumbnails_dir_name();
                        (
                            ModelPipeline { stage: PipelineStage::WritingThumbnail, record: Some(record), ..self },
                            PipelineAction::WriteThumbnail { dir_name, file_name, features },
                        )
                    },
                }
            },
            PipelineEvent::ThumbnailWritten(Err(e)) => {
                (ModelPipeline { stage: PipelineStage::Finished, ..self }, PipelineAction::Finish(Err(Model3DProcessorError::AI(e))))
            },
            PipelineEvent::ThumbnailWritten(Ok(())) => {
                if self.enable_ai_tagging {
                    (ModelPipeline { stage: PipelineStage::Tagging, ..self }, PipelineAction::TagThumbnail)
                } else {
                    self.store_next()
                }
            },
            PipelineEvent::Tagged(Err(e)) => {
                (ModelPipeline { stage: PipelineStage::Finished, ..self }, PipelineAction::Finish(Err(Model3DProcessorError::AI(e))))
            },
            PipelineEvent::Tagged(Ok(t)) => {
                let p = ModelPipeline { tags: Some(t), ..self };
                p.store_next()
            },
            PipelineEvent::RecordStored(Err(m)) => {
                (ModelPipeline { stage: PipelineStage::Finished, ..self }, PipelineAction::Finish(Err(Model3DProcessorError::Database(m))))
            },
            PipelineEvent::RecordStored(Ok(())) => {
                match self.tags {
                    None => (ModelPipeline { stage: PipelineStage::Finished, tags: None, ..self }, PipelineAction::Finish(Ok(()))),
                    Some(t) => {
                        let object_id = match self.object_id {
                            Some(id) => id,
                            None => 0,
                        };
                        let record = AITagsRecord::from_tags(t);
                        (
                            ModelPipeline { stage: PipelineStage::StoringTags, tags: None, ..self },
                            PipelineAction::StoreTags { object_id, tags: record },
                        )
                    },
                }
            },
            PipelineEvent::TagsStored(Err(m)) => {
                (ModelPipeline { stage: PipelineStage::Finished, ..self }, PipelineAction::Finish(Err(Model3DProcessorError::Database(m))))
            },
            PipelineEvent::TagsStored(Ok(())) => {
                (ModelPipeline { stage: PipelineStage::Finished, ..self }, PipelineAction::Finish(Ok(())))
            },
        }
    }
}

} // verus!
