use vstd::prelude::*;
use vstd::string::*;
use crate::schema::{
    extracted_texts, full_texts, requests_for, string_views, ExtractedText, Feature, Image,
    Request, RequestItem, Response, TEXT_DETECTION,
};

verus! {

/// The text-detection sub-request for one base64 image.
fn request_item(base64_image: &String) -> (r: RequestItem)
    ensures
        r.image.content@ == base64_image@,
        r.features@.len() == 1,
        r.features@[0].feature_type@ == TEXT_DETECTION@,
{
    let feature = Feature { feature_type: String::from_str(TEXT_DETECTION) };
    RequestItem { image: Image { content: base64_image.clone() }, features: vec![feature] }
}

/// Builds the request for one batch: a text-detection sub-request per image,
/// in the order of the batch.
pub fn prepare_request_body(base64_images: &Vec<String>) -> (r: Request)
    ensures
        requests_for(r, string_views(base64_images@)),
{
    let mut requests: Vec<RequestItem> = Vec::new();
    let mut i: usize = 0;
    while i < base64_images.len()
        invariant
            i <= base64_images@.len(),
            requests_for(Request { requests }, string_views(base64_images@.take(i as int))),
        decreases base64_images@.len() - i,
    {
        let item = request_item(&base64_images[i]);
        requests.push(item);
        i += 1;
        assert(string_views(base64_images@.take(i as int)) =~= string_views(
            base64_images@.take(i - 1),
        ).push(base64_images@[i - 1]@));
    }
    assert(base64_images@.take(i as int) =~= base64_images@);
    Request { requests }
}

/// The full text of each record of a response, in the order of the records.
pub fn response_to_output(response: &Response) -> (r: Vec<ExtractedText>)
    ensures
        extracted_texts(r@) == full_texts(response.responses@),
{
    let mut out: Vec<ExtractedText> = Vec::new();
    let mut i: usize = 0;
    while i < response.responses.len()
        invariant
            i <= response.responses@.len(),
            extracted_texts(out@) =~= full_texts(response.responses@.take(i as int)),
        decreases response.responses@.len() - i,
    {
        let text = response.responses[i].fullTextAnnotation.text.clone();
        out.push(ExtractedText { text });
        i += 1;
        assert(full_texts(response.responses@.take(i as int)) =~= full_texts(
            response.responses@.take(i - 1),
        ).push(response.responses@[i - 1].fullTextAnnotation.text@));
    }
    assert(response.responses@.take(i as int) =~= response.responses@);
    out
}

} // verus!
