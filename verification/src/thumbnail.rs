//! Where the thumbnails of a 3D model are written.
use vstd::prelude::*;

verus! {

/// The names of the views that multi-view thumbnails are made for.
pub open spec fn view_names() -> Seq<Seq<char>> {
    seq!["front"@, "side"@, "top"@, "perspective"@]
}

/// The file name of the thumbnail of view `view`: `thumb_<view>.png`.
pub open spec fn view_file_name_of(view: Seq<char>) -> Seq<char> {
    "thumb_"@ + view + ".png"@
}

/// Generates thumbnails for 3D models.
pub struct Thumbnailer3D;

impl Thumbnailer3D {
    /// The file name of the thumbnail of view `view`.
    pub fn view_file_name(view: &str) -> (r: String)
        ensures
            r@ == view_file_name_of(view@),
    {
        let mut r = "thumb_".to_owned();
        r.append(view);
        r.append(".png");
        r
    }

    /// The file names of the multi-view thumbnails, in the order front, side,
    /// top, perspective.
    pub fn multi_view_file_names() -> (r: Vec<String>)
        ensures
            r@.len() == 4,
            forall|k: int| 0 <= k < 4 ==> (#[trigger] r@[k])@ == view_file_name_of(view_names()[k]),
    {
        let mut r: Vec<String> = Vec::new();
        r.push(Self::view_file_name("front"));
        r.push(Self::view_file_name("side"));
        r.push(Self::view_file_name("top"));
        r.push(Self::view_file_name("perspective"));
        r
    }

    /// The directory, beside a model, that holds its thumbnail.
    pub fn thumbnails_dir_name() -> (r: String)
        ensures
            r@ == ".thumbnails"@,
    {
        ".thumbnails".to_owned()
    }

    /// The file name of a model's thumbnail: its file stem with `.png`.
    pub fn thumbnail_file_name(stem: &str) -> (r: String)
        ensures
            r@ == stem@ + ".png"@,
    {
        let mut r = stem.to_owned();
        r.append(".png");
        r
    }
}

} // verus!
