//! Semantic tags for 3D models: heuristic tags, and the conversation with a
//! local vision model (Ollama) that yields a description, tags and a category.
use vstd::prelude::*;
use crate::error::{is_tagging_failed, Model3DError};
use crate::parser::{lowercase_of, str_to_lowercase};
use crate::text::{lemma_split_on_len, non_empty, split_on, str_to_chars, trim, trim_range};
use vstd::string::StrSliceExecFns;

verus! {

/// The result of tagging a model. `confidence_percent` is the confidence in
/// hundredths (0 to 100).
pub struct AITagResult {
    pub tags: Vec<String>,
    pub description: String,
    pub category: String,
    pub confidence_percent: u8,
}

/// The texts of a list of strings.
pub open spec fn texts(v: Seq<String>) -> Seq<Seq<char>> {
    Seq::new(v.len(), |k: int| v[k]@)
}

/// `r` is the result of the heuristic tagger: tags `3d-model`, `mesh` and
/// `geometry`, description `3D model file`, category `model`, confidence 0.5.
pub open spec fn is_heuristic_result(r: AITagResult) -> bool {
    &&& texts(r.tags@) == seq!["3d-model"@, "mesh"@, "geometry"@]
    &&& r.description@ == "3D model file"@
    &&& r.category@ == "model"@
    &&& r.confidence_percent == 50
}

/// The tags that a comma-separated reply gives: each piece between commas
/// trimmed, the empty ones left out, the others lowercased.
pub open spec fn tag_list_of(reply: Seq<char>) -> Seq<Seq<char>> {
    lowered(non_empty(trimmed_pieces(split_on(reply, ','))))
}

/// Each piece trimmed.
pub open spec fn trimmed_pieces(ps: Seq<Seq<char>>) -> Seq<Seq<char>> {
    Seq::new(ps.len(), |k: int| trim(ps[k]))
}

/// Each piece lowercased.
pub open spec fn lowered(ps: Seq<Seq<char>>) -> Seq<Seq<char>> {
    Seq::new(ps.len(), |k: int| lowercase_of(ps[k]))
}

/// The prompt that asks for a one-sentence description.
pub open spec fn description_prompt_text() -> Seq<char> {
    "Describe this 3D model in one sentence. Focus on what object it represents and its key characteristics."@
}

/// The prompt that asks for comma-separated tags.
pub open spec fn tags_prompt_text() -> Seq<char> {
    "List 5-7 relevant tags for this 3D model, separated by commas. Include object type, style, complexity, and intended use."@
}

/// The prompt that asks for a category.
pub open spec fn category_prompt_text() -> Seq<char> {
    "Classify this 3D model into one category: mechanical, organic, architectural, character, vehicle, furniture, or abstract."@
}

impl AITagResult {
    /// An empty result: no tags, no description, category `unknown`, confidence 0.
    pub fn new() -> (r: Self)
        ensures
            r.tags@.len() == 0,
            r.description@ == Seq::<char>::empty(),
            r.category@ == "unknown"@,
            r.confidence_percent == 0,
    {
        AITagResult { tags: Vec::new(), description: String::new(), category: "unknown".to_owned(), confidence_percent: 0 }
    }
}

impl Default for AITagResult {
    fn default() -> (r: Self)
        ensures
            r.tags@.len() == 0,
            r.description@ == Seq::<char>::empty(),
            r.category@ == "unknown"@,
            r.confidence_percent == 0,
    {
        Self::new()
    }
}

/// Where the conversation with the vision model stands.
pub enum TaggingStage {
    /// The description has been asked for.
    Description,
    /// The tags have been asked for, after this description.
    Tags { description: String },
    /// The category has been asked for, after this description and these tags.
    Category { description: String, tags: Vec<String> },
}

/// The conversation about one rendered image. With `fallback`, a failed
/// question ends the conversation with the heuristic tags; without it, with
/// the failure.
pub struct TaggingState {
    pub image: String,
    pub stage: TaggingStage,
    pub fallback: bool,
}

/// What to do next: ask the vision model `prompt` about the state's image,
/// take the finished result, or report the failure that ended tagging.
pub enum TaggingStep {
    Ask { state: TaggingState, prompt: String },
    Done(AITagResult),
    Failed(Model3DError),
}

/// `s` asks `prompt` at stage `Description` about `image`, falling back or not
/// as `fallback` says.
pub open spec fn asks_description(s: TaggingStep, image: Seq<char>, fallback: bool) -> bool {
    s matches TaggingStep::Ask { state, prompt } && state.image@ == image && state.fallback == fallback
        && state.stage is Description && prompt@ == description_prompt_text()
}

/// `s` asks for tags about `image`, after the description `description`.
pub open spec fn asks_tags(s: TaggingStep, image: String, description: String, fallback: bool) -> bool {
    match s {
        TaggingStep::Ask { state, prompt } => {
            &&& state.image == image
            &&& state.fallback == fallback
            &&& prompt@ == tags_prompt_text()
            &&& state.stage matches TaggingStage::Tags { description: d } && d == description
        },
        _ => false,
    }
}

/// `s` asks for the category of `image`, after `description` and tags `tags`.
pub open spec fn asks_category(
    s: TaggingStep,
    image: String,
    description: String,
    tags: Seq<Seq<char>>,
    fallback: bool,
) -> bool {
    match s {
        TaggingStep::Ask { state, prompt } => {
            &&& state.image == image
            &&& state.fallback == fallback
            &&& prompt@ == category_prompt_text()
            &&& state.stage matches TaggingStage::Category { description: d, tags: t } && d == description
                && texts(t@) == tags
        },
        _ => false,
    }
}

/// The position of a stage in the conversation: description, tags, category.
pub open spec fn stage_rank(s: TaggingStage) -> int {
    match s {
        TaggingStage::Description => 0,
        TaggingStage::Tags { .. } => 1,
        TaggingStage::Category { .. } => 2,
    }
}

/// `r` can open a conversation that falls back: a result, or the first
/// question with fallback on; never a failure.
pub open spec fn opens_falling_back(r: TaggingStep) -> bool {
    match r {
        TaggingStep::Done(_) => true,
        TaggingStep::Ask { state, .. } => state.fallback && stage_rank(state.stage) == 0,
        TaggingStep::Failed(_) => false,
    }
}

/// `r` can follow a reply at `state` in a conversation that falls back: a
/// result, or a question at a later stage with fallback still on; never a
/// failure.
pub open spec fn continues_falling_back(state: TaggingState, r: TaggingStep) -> bool {
    match r {
        TaggingStep::Done(_) => true,
        TaggingStep::Ask { state: next, .. } => next.fallback && stage_rank(next.stage) > stage_rank(state.stage),
        TaggingStep::Failed(_) => false,
    }
}

/// A conversation that falls back never fails, and it ends after at most
/// three questions: in a run of steps that opens falling back, and where each
/// step is a question followed by a step that continues falling back from it,
/// no step is a failure and there are at most four steps.
pub proof fn lemma_falling_back_conversation_never_fails(steps: Seq<TaggingStep>)
    requires
        steps.len() > 0,
        opens_falling_back(steps[0]),
        forall|k: int|
            0 <= k < steps.len() - 1 ==> (#[trigger] steps[k] matches TaggingStep::Ask { state, .. }
                && continues_falling_back(state, steps[k + 1])),
    ensures
        forall|k: int| 0 <= k < steps.len() ==> !(#[trigger] steps[k] is Failed),
        steps.len() <= 4,
{
    assert forall|k: int| 0 <= k < steps.len() implies !(#[trigger] steps[k] is Failed)
        && (steps[k] matches TaggingStep::Ask { state, .. } ==> stage_rank(state.stage) >= k) by {
        lemma_falling_back_prefix(steps, k);
    }
    if steps.len() > 4 {
        let s3 = steps[3];
        assert(s3 matches TaggingStep::Ask { state, .. } && stage_rank(state.stage) >= 3);
    }
}

/// Step `k` of such a run is no failure, and a question there is at stage `k`
/// or later.
proof fn lemma_falling_back_prefix(steps: Seq<TaggingStep>, k: int)
    requires
        0 <= k < steps.len(),
        opens_falling_back(steps[0]),
        forall|j: int|
            0 <= j < steps.len() - 1 ==> (#[trigger] steps[j] matches TaggingStep::Ask { state, .. }
                && continues_falling_back(state, steps[j + 1])),
    ensures
        !(steps[k] is Failed),
        steps[k] matches TaggingStep::Ask { state, .. } ==> stage_rank(state.stage) >= k,
    decreases k,
{
    if k > 0 {
        lemma_falling_back_prefix(steps, k - 1);
        let prev = steps[k - 1];
        assert(prev matches TaggingStep::Ask { state, .. } && continues_falling_back(state, steps[k]));
    }
}

/// `s` completes the result with `description`, `tags`, the category reply
/// `reply` trimmed and lowercased, and confidence 0.8.
pub open spec fn finishes_with(s: TaggingStep, description: String, tags: Vec<String>, reply: Seq<char>) -> bool {
    match s {
        TaggingStep::Done(t) => {
            &&& t.description == description
            &&& t.tags == tags
            &&& t.category@ == lowercase_of(trim(reply))
            &&& t.confidence_percent == 80
        },
        _ => false,
    }
}

/// A request to Ollama's generate endpoint.
pub struct OllamaRequest {
    pub model: String,
    pub prompt: String,
    pub images: Vec<String>,
    pub stream: bool,
}

/// The char of the standard base64 alphabet for the sextet `i`.
pub open spec fn base64_char(i: int) -> char {
    if i < 26 {
        (65 + i) as char
    } else if i < 52 {
        (97 + i - 26) as char
    } else if i < 62 {
        (48 + i - 52) as char
    } else if i == 62 {
        '+'
    } else {
        '/'
    }
}

/// Standard base64 with padding (RFC 4648, section 4): each three bytes give
/// four chars; a final one or two bytes give two or three chars and `=`s.
pub open spec fn base64_standard(d: Seq<u8>) -> Seq<char>
    decreases d.len(),
{
    if d.len() == 0 {
        Seq::empty()
    } else {
        let b0 = d[0] as int;
        let b1 = if d.len() > 1 { d[1] as int } else { 0 };
        let b2 = if d.len() > 2 { d[2] as int } else { 0 };
        let c0 = base64_char(b0 / 4);
        let c1 = base64_char((b0 % 4) * 16 + b1 / 16);
        let c2 = if d.len() > 1 { base64_char((b1 % 16) * 4 + b2 / 64) } else { '=' };
        let c3 = if d.len() > 2 { base64_char(b2 % 64) } else { '=' };
        if d.len() <= 3 {
            seq![c0, c1, c2, c3]
        } else {
            seq![c0, c1, c2, c3] + base64_standard(d.subrange(3, d.len() as int))
        }
    }
}

/// `base64::encode` (the standard alphabet, with padding). Claimed: its text
/// is `base64_standard` of the bytes.
#[verifier::external_body]
#[allow(deprecated)]
fn encode_base64(data: &[u8]) -> (r: String)
    ensures
        r@ == base64_standard(data@),
{
    base64::encode(data)
}

/// The tags of pieces `ps` followed by `x`: those of `ps`, then `x` trimmed
/// and lowercased if it is not empty once trimmed.
proof fn lemma_tags_push(ps: Seq<Seq<char>>, x: Seq<char>)
    ensures
        lowered(non_empty(trimmed_pieces(ps.push(x)))) == (if trim(x).len() == 0 {
            lowered(non_empty(trimmed_pieces(ps)))
        } else {
            lowered(non_empty(trimmed_pieces(ps))).push(lowercase_of(trim(x)))
        }),
{
    let tp = trimmed_pieces(ps.push(x));
    assert(tp.drop_last() =~= trimmed_pieces(ps));
    assert(tp.last() == trim(x));
    let q = non_empty(trimmed_pieces(ps));
    assert(lowered(q.push(trim(x))) =~= lowered(q).push(lowercase_of(trim(x))));
}

/// Adds the trimmed, lowercased piece `c[a..b]` of `reply` to `out` if it is
/// not empty.
fn push_tag(reply: &str, c: &Vec<char>, a: usize, b: usize, out: &mut Vec<String>)
    requires
        c@ == reply@,
        a <= b <= c@.len(),
    ensures
        texts(final(out)@) == (if trim(c@.subrange(a as int, b as int)).len() == 0 {
            texts(old(out)@)
        } else {
            texts(old(out)@).push(lowercase_of(trim(c@.subrange(a as int, b as int))))
        }),
{
    let (ta, tb) = trim_range(c, a, b);
    let piece = reply.substring_char(ta, tb);
    let lower = str_to_lowercase(piece);
    if !lower.as_str().is_empty() {
        let ghost before = out@;
        out.push(lower);
        assert(texts(out@) =~= texts(before).push(lowercase_of(trim(c@.subrange(a as int, b as int)))));
    }
}

/// AI-powered semantic tagger for 3D models.
pub struct AITagger;

impl AITagger {
    /// The tags given when no vision model is used or it fails.
    pub fn generate_heuristic_tags() -> (r: AITagResult)
        ensures
            is_heuristic_result(r),
    {
        proof {
            reveal_strlit("3d-model");
            reveal_strlit("mesh");
            reveal_strlit("geometry");
        }
        let mut tags: Vec<String> = Vec::new();
        tags.push("3d-model".to_owned());
        tags.push("mesh".to_owned());
        tags.push("geometry".to_owned());
        let r = AITagResult {
            tags,
            description: "3D model file".to_owned(),
            category: "model".to_owned(),
            confidence_percent: 50,
        };
        assert(texts(r.tags@) =~= seq!["3d-model"@, "mesh"@, "geometry"@]);
        r
    }

    /// The first step of tagging the rendered views with the vision model,
    /// without falling back: none to show it is a failure; else ask for a
    /// description of the first view. A failed question then ends tagging
    /// with that failure.
    pub fn tag_from_renders(thumbnail_paths: &Vec<String>) -> (r: TaggingStep)
        ensures
            thumbnail_paths@.len() == 0 ==> (r matches TaggingStep::Failed(e) && is_tagging_failed(
                e,
                "No thumbnails provided"@,
            )),
            thumbnail_paths@.len() > 0 ==> asks_description(r, thumbnail_paths@[0]@, false),
    {
        match Self::select_image(thumbnail_paths) {
            Ok(image) => TaggingStep::Ask {
                state: TaggingState { image, stage: TaggingStage::Description, fallback: false },
                prompt: Self::description_prompt(),
            },
            Err(e) => TaggingStep::Failed(e),
        }
    }

    /// The tags that a comma-separated reply of the vision model gives.
    pub fn parse_tag_list(reply: &str) -> (r: Vec<String>)
        ensures
            texts(r@) == tag_list_of(reply@),
    {
        let c = str_to_chars(reply);
        let n = c.len();
        let mut out: Vec<String> = Vec::new();
        let mut start: usize = 0;
        let mut i: usize = 0;
        proof {
            assert(c@.subrange(0, 0) =~= Seq::<char>::empty());
            assert(texts(out@) =~= Seq::<Seq<char>>::empty());
            assert(trimmed_pieces(split_on(c@.subrange(0, 0), ',').drop_last()) =~= Seq::<Seq<char>>::empty());
            assert(lowered(Seq::<Seq<char>>::empty()) =~= Seq::<Seq<char>>::empty());
        }
        while i < n
            invariant
                n == c@.len(),
                c@ == reply@,
                start <= i <= n,
                split_on(c@.subrange(0, i as int), ',').last() == c@.subrange(start as int, i as int),
                texts(out@) == lowered(non_empty(trimmed_pieces(split_on(c@.subrange(0, i as int), ',').drop_last()))),
            decreases n - i,
        {
            let ghost s0 = c@.subrange(0, i as int);
            let ghost s1 = c@.subrange(0, i + 1);
            proof {
                lemma_split_on_len(s0, ',');
                assert(s1.drop_last() =~= s0);
            }
            let ghost p0 = split_on(s0, ',');
            if c[i] == ',' {
                push_tag(reply, &c, start, i, &mut out);
                proof {
                    assert(p0 =~= p0.drop_last().push(p0.last()));
                    lemma_tags_push(p0.drop_last(), p0.last());
                    assert(split_on(s1, ',') == p0.push(Seq::empty()));
                    assert(split_on(s1, ',').drop_last() == p0);
                }
                start = i + 1;
                assert(split_on(s1, ',').last() =~= c@.subrange(start as int, i + 1));
            } else {
                assert(split_on(s1, ',') == p0.update(p0.len() - 1, p0.last().push(c@[i as int])));
                assert(split_on(s1, ',').drop_last() =~= p0.drop_last());
                assert(split_on(s1, ',').last() =~= c@.subrange(start as int, i + 1));
            }
            i += 1;
        }
        let ghost p = split_on(c@.subrange(0, n as int), ',');
        proof {
            lemma_split_on_len(c@.subrange(0, n as int), ',');
            assert(p =~= p.drop_last().push(p.last()));
            lemma_tags_push(p.drop_last(), p.last());
            assert(c@.subrange(0, n as int) =~= reply@);
        }
        push_tag(reply, &c, start, n, &mut out);
        out
    }

    /// The image to ask about: the first rendered view; none when there is none.
    pub fn select_image(thumbnail_paths: &Vec<String>) -> (r: Result<String, Model3DError>)
        ensures
            thumbnail_paths@.len() == 0 ==> (r matches Err(e) && is_tagging_failed(e, "No thumbnails provided"@)),
            thumbnail_paths@.len() > 0 ==> (r matches Ok(p) && p@ == thumbnail_paths@[0]@),
    {
        if thumbnail_paths.len() == 0 {
            return Err(Model3DError::AITaggingFailed("No thumbnails provided".to_owned()));
        }
        Ok(thumbnail_paths[0].clone())
    }

    /// The first step of tagging: the heuristic tags when the vision model is
    /// not enabled or there is no view to show it; else ask for a description
    /// of the first view.
    pub fn start_tagging(thumbnail_paths: &Vec<String>, enable_ai: bool) -> (r: TaggingStep)
        ensures
            !enable_ai ==> (r matches TaggingStep::Done(t) && is_heuristic_result(t)),
            enable_ai && thumbnail_paths@.len() == 0 ==> (r matches TaggingStep::Done(t) && is_heuristic_result(t)),
            enable_ai && thumbnail_paths@.len() > 0 ==> asks_description(r, thumbnail_paths@[0]@, true),
            opens_falling_back(r),
    {
        if !enable_ai {
            return TaggingStep::Done(Self::generate_heuristic_tags());
        }
        match Self::select_image(thumbnail_paths) {
            Ok(image) => TaggingStep::Ask {
                state: TaggingState { image, stage: TaggingStage::Description, fallback: true },
                prompt: Self::description_prompt(),
            },
            Err(_) => TaggingStep::Done(Self::generate_heuristic_tags()),
        }
    }

    /// The next step after the vision model's reply: a failure falls back to
    /// the heuristic tags, or ends tagging with it when the conversation does
    /// not fall back; a description leads to asking for tags; tags (parsed
    /// from the reply) lead to asking for the category; the category (trimmed
    /// and lowercased) completes the result, with confidence 0.8.
    pub fn advance_tagging(state: TaggingState, reply: Result<String, Model3DError>) -> (r: TaggingStep)
        ensures
            reply is Err && state.fallback ==> (r matches TaggingStep::Done(t) && is_heuristic_result(t)),
            !state.fallback ==> (reply matches Err(e) ==> (r matches TaggingStep::Failed(x) && x == e)),
            reply matches Ok(text) ==> match state.stage {
                TaggingStage::Description => asks_tags(r, state.image, text, state.fallback),
                TaggingStage::Tags { description } => asks_category(
                    r,
                    state.image,
                    description,
                    tag_list_of(text@),
                    state.fallback,
                ),
                TaggingStage::Category { description, tags } => finishes_with(r, description, tags, text@),
            },
            state.fallback ==> continues_falling_back(state, r),
    {
        let text = match reply {
            Ok(t) => t,
            Err(e) => {
                if state.fallback {
                    return TaggingStep::Done(Self::generate_heuristic_tags());
                } else {
                    return TaggingStep::Failed(e);
                }
            },
        };
        let image = state.image;
        let fallback = state.fallback;
        match state.stage {
            TaggingStage::Description => TaggingStep::Ask {
                state: TaggingState { image, stage: TaggingStage::Tags { description: text }, fallback },
                prompt: Self::tags_prompt(),
            },
            TaggingStage::Tags { description } => {
                let tags = Self::parse_tag_list(text.as_str());
                TaggingStep::Ask {
                    state: TaggingState { image, stage: TaggingStage::Category { description, tags }, fallback },
                    prompt: Self::category_prompt(),
                }
            },
            TaggingStage::Category { description, tags } => {
                let c = str_to_chars(text.as_str());
                let (ta, tb) = trim_range(&c, 0, c.len());
                assert(c@.subrange(0, c@.len() as int) =~= text@);
                let category = str_to_lowercase(text.as_str().substring_char(ta, tb));
                TaggingStep::Done(AITagResult { tags, description, category, confidence_percent: 80 })
            },
        }
    }

    /// The prompt that asks for a description.
    pub fn description_prompt() -> (r: String)
        ensures
            r@ == description_prompt_text(),
    {
        "Describe this 3D model in one sentence. Focus on what object it represents and its key characteristics.".to_owned()
    }

    /// The prompt that asks for tags.
    pub fn tags_prompt() -> (r: String)
        ensures
            r@ == tags_prompt_text(),
    {
        "List 5-7 relevant tags for this 3D model, separated by commas. Include object type, style, complexity, and intended use.".to_owned()
    }

    /// The prompt that asks for a category.
    pub fn category_prompt() -> (r: String)
        ensures
            r@ == category_prompt_text(),
    {
        "Classify this 3D model into one category: mechanical, organic, architectural, character, vehicle, furniture, or abstract.".to_owned()
    }

    /// The Ollama server: the configured one, else the default local one.
    pub fn ollama_url(configured: Option<String>) -> (r: String)
        ensures
            configured matches Some(u) ==> r == u,
            configured is None ==> r@ == "http://localhost:11434"@,
    {
        match configured {
            Some(u) => u,
            None => "http://localhost:11434".to_owned(),
        }
    }

    /// The vision model: the configured one, else `llama3.2-vision`.
    pub fn ollama_model(configured: Option<String>) -> (r: String)
        ensures
            configured matches Some(m) ==> r == m,
            configured is None ==> r@ == "llama3.2-vision"@,
    {
        match configured {
            Some(m) => m,
            None => "llama3.2-vision".to_owned(),
        }
    }

    /// The generate endpoint of an Ollama server.
    pub fn generate_endpoint(url: &str) -> (r: String)
        ensures
            r@ == url@ + "/api/generate"@,
    {
        let mut r = url.to_owned();
        r.append("/api/generate");
        r
    }

    /// The request that shows the vision model an image (base64-encoded) with a
    /// prompt, for one complete reply.
    pub fn vision_request(model: String, prompt: String, image_data: &[u8]) -> (r: OllamaRequest)
        ensures
            r.model == model,
            r.prompt == prompt,
            r.images@.len() == 1,
            r.images@[0]@ == base64_standard(image_data@),
            !r.stream,
    {
        let mut images: Vec<String> = Vec::new();
        images.push(encode_base64(image_data));
        OllamaRequest { model, prompt, images, stream: false }
    }

    /// The text of the vision model's reply: an error when the server answered
    /// with a failure status (`status` is its text) or the reply has no
    /// `response` text.
    pub fn read_reply(success: bool, status: &str, response: Option<String>) -> (r: Result<String, Model3DError>)
        ensures
            !success ==> (r matches Err(e) && is_tagging_failed(e, "Ollama API returned error: "@ + status@)),
            success && response is None ==> (r matches Err(e) && is_tagging_failed(e, "No response from Ollama"@)),
            success && response is Some ==> r == Ok::<String, Model3DError>(response->0),
    {
        if !success {
            let mut m = "Ollama API returned error: ".to_owned();
            m.append(status);
            return Err(Model3DError::AITaggingFailed(m));
        }
        match response {
            Some(t) => Ok(t),
            None => Err(Model3DError::AITaggingFailed("No response from Ollama".to_owned())),
        }
    }
}

} // verus!
