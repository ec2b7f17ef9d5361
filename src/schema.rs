use vstd::prelude::*;

verus! {

/// The service's reply: one record per submitted image, in submission order.
#[derive(Debug)]
pub struct Response {
    pub responses: Vec<ResponseItem>,
}

/// The recognition result for one image.
#[allow(non_snake_case)]
#[derive(Debug)]
pub struct ResponseItem {
    pub textAnnotations: Vec<TextAnnotation>,
    pub fullTextAnnotation: FullTextAnnotation,
}

/// One recognised fragment of text, with the polygon that encloses it.
#[allow(non_snake_case)]
#[derive(Debug)]
pub struct TextAnnotation {
    pub locale: Option<String>,
    pub description: String,
    pub boundingPoly: BoundingPoly,
}

#[derive(Debug)]
pub struct BoundingPoly {
    pub vertices: Vec<Vertices>,
}

/// A corner of a bounding polygon, in pixels.
#[derive(Debug, Clone, Copy, PartialEq, Eq)]
pub struct Vertices {
    pub x: i32,
    pub y: i32,
}

/// All text recognised in one image, with the page dimensions.
#[derive(Debug)]
pub struct FullTextAnnotation {
    pub text: String,
    pub pages: Vec<Page>,
}

#[derive(Debug, Clone, Copy, PartialEq, Eq)]
pub struct Page {
    pub width: i32,
    pub height: i32,
}

/// A batch request: one sub-request per image.
#[derive(Debug)]
pub struct Request {
    pub requests: Vec<RequestItem>,
}

/// The sub-request for one image: its content and the detections asked for.
#[derive(Debug)]
pub struct RequestItem {
    pub image: Image,
    pub features: Vec<Feature>,
}

/// A detection mode, named as the service names it (its wire key is `type`).
#[derive(Debug)]
pub struct Feature {
    pub feature_type: String,
}

/// An image's content as a base64 payload without a data-URI prefix.
#[derive(Debug)]
pub struct Image {
    pub content: String,
}

/// The full recognised text of one image: the only datum kept per image.
#[derive(Debug, Clone)]
pub struct ExtractedText {
    pub text: String,
}

/// The one detection mode this library asks for.
pub const TEXT_DETECTION: &'static str = "TEXT_DETECTION";

/// The full texts of a sequence of response records, in order.
pub open spec fn full_texts(items: Seq<ResponseItem>) -> Seq<Seq<char>> {
    items.map_values(|it: ResponseItem| it.fullTextAnnotation.text@)
}

/// The texts held by a sequence of extracted values, in order.
pub open spec fn extracted_texts(items: Seq<ExtractedText>) -> Seq<Seq<char>> {
    items.map_values(|e: ExtractedText| e.text@)
}

/// The views of a sequence of strings.
pub open spec fn string_views(items: Seq<String>) -> Seq<Seq<char>> {
    items.map_values(|s: String| s@)
}

/// A sub-request asks for text detection, and for nothing else.
pub open spec fn asks_text_detection(item: RequestItem) -> bool {
    &&& item.features@.len() == 1
    &&& item.features@[0].feature_type@ == TEXT_DETECTION@
}

/// `r` holds one text-detection sub-request per image of `images`, in order,
/// each carrying that image's content.
pub open spec fn requests_for(r: Request, images: Seq<Seq<char>>) -> bool {
    &&& r.requests@.len() == images.len()
    &&& forall|i: int|
        0 <= i < images.len() ==> {
            &&& (#[trigger] r.requests@[i]).image.content@ == images[i]
            &&& asks_text_detection(r.requests@[i])
        }
}

} // verus!
