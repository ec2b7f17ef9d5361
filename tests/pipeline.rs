use vision_ocr::batch::{batches, BATCH_SIZE};
use vision_ocr::cli::{directory_argument, output_file_argument};
use vision_ocr::encoding::base64_payload;
use vision_ocr::discovery::{is_supported_image, select_images};
use vision_ocr::schema::{
    BoundingPoly, ExtractedText, FullTextAnnotation, Page, Response, ResponseItem,
    TextAnnotation, Vertices, TEXT_DETECTION,
};
use vision_ocr::session::{Reply, RunError, Session, Step};
use vision_ocr::vision::{prepare_request_body, response_to_output};

fn strings(items: &[&str]) -> Vec<String> {
    items.iter().map(|s| s.to_string()).collect()
}

fn item(text: &str) -> ResponseItem {
    ResponseItem {
        textAnnotations: vec![TextAnnotation {
            locale: Some("en".to_string()),
            description: text.to_string(),
            boundingPoly: BoundingPoly { vertices: vec![Vertices { x: 1, y: 2 }] },
        }],
        fullTextAnnotation: FullTextAnnotation {
            text: text.to_string(),
            pages: vec![Page { width: 10, height: 20 }],
        },
    }
}

fn texts(collected: &[ExtractedText]) -> Vec<String> {
    collected.iter().map(|e| e.text.clone()).collect()
}

#[test]
fn supported_extensions_are_recognised() {
    for name in [
        "./a.jpeg", "./a.png", "./a.gif", "./a.bmp", "./a.webp", "./a.raw", "./a.ico", "./a.pdf",
        "./a.tiff",
    ] {
        assert!(is_supported_image(name), "{}", name);
    }
}

#[test]
fn other_names_are_not_images() {
    for name in [
        "./a.PNG", "./a.jpg", "./a.txt", "./noext", "png", "./a.png.bak", "./dir.png/file", "",
        "./a.",
    ] {
        assert!(!is_supported_image(name), "{}", name);
    }
    assert!(is_supported_image("./archive.tar.png"));
}

#[test]
fn selection_keeps_exactly_the_supported_paths_in_order() {
    let paths = strings(&["./b.jpeg", "./notes.txt", "./a.png", "./README", "./c.Gif", "./d.tiff"]);
    assert_eq!(select_images(&paths), strings(&["./b.jpeg", "./a.png", "./d.tiff"]));
    assert!(select_images(&Vec::new()).is_empty());
}

#[test]
fn extension_case_must_match_exactly() {
    let paths = strings(&["./d/A.PNG", "./d/b.Png", "./d/c.JPEG", "./d/d.png"]);
    assert_eq!(select_images(&paths), strings(&["./d/d.png"]));
}

#[test]
fn missing_or_unlisted_extensions_are_dropped() {
    let paths = strings(&["./d/x.txt", "./d/noext", "./d/y.jpg", "./d/z.jpeg", "./d/w.tiff"]);
    assert_eq!(select_images(&paths), strings(&["./d/z.jpeg", "./d/w.tiff"]));
}

#[test]
fn only_the_last_extension_counts() {
    let paths = strings(&["./d/a.png.txt", "./d/b.txt.png"]);
    assert_eq!(select_images(&paths), strings(&["./d/b.txt.png"]));
}

#[test]
fn payload_loses_its_data_uri_prefix() {
    assert_eq!(base64_payload("data:image/png;base64,Zm9v"), "Zm9v");
    assert_eq!(base64_payload("data:image/jpeg;base64,"), "");
    assert_eq!(base64_payload("Zm9vYmFy"), "Zm9vYmFy");
    assert_eq!(base64_payload("a,b,c"), "b,c");
}

#[test]
fn batches_cover_the_input_in_order() {
    let items: Vec<String> = (0..33).map(|i| format!("img{}", i)).collect();
    let r = batches(&items, BATCH_SIZE);
    assert_eq!(r.len(), 3);
    assert_eq!(r[0].len(), 16);
    assert_eq!(r[1].len(), 16);
    assert_eq!(r[2].len(), 1);
    assert_eq!(r.concat(), items);
    assert_eq!(r[2][0], "img32");
}

#[test]
fn batches_of_an_exact_multiple_are_all_full() {
    let items: Vec<String> = (0..32).map(|i| format!("{}", i)).collect();
    let r = batches(&items, 16);
    assert_eq!(r.len(), 2);
    assert!(r.iter().all(|b| b.len() == 16));
    assert_eq!(r.concat(), items);
    let r = batches(&items, 5);
    assert_eq!(r.iter().map(|b| b.len()).collect::<Vec<_>>(), vec![5, 5, 5, 5, 5, 5, 2]);
    assert!(batches(&Vec::new(), 16).is_empty());
}

#[test]
fn request_has_one_text_detection_per_image() {
    let images = strings(&["Zm9v", "YmFy", "YmF6"]);
    let req = prepare_request_body(&images);
    assert_eq!(req.requests.len(), 3);
    for (i, sub) in req.requests.iter().enumerate() {
        assert_eq!(sub.image.content, images[i]);
        assert_eq!(sub.features.len(), 1);
        assert_eq!(sub.features[0].feature_type, "TEXT_DETECTION");
        assert_eq!(sub.features[0].feature_type, TEXT_DETECTION);
    }
    assert!(prepare_request_body(&Vec::new()).requests.is_empty());
}

#[test]
fn output_holds_each_full_text_in_order() {
    let resp = Response { responses: vec![item("hello"), item("world")] };
    assert_eq!(texts(&response_to_output(&resp)), strings(&["hello", "world"]));
    assert!(response_to_output(&Response { responses: vec![] }).is_empty());
}

#[test]
fn empty_directory_is_refused_before_any_request() {
    assert_eq!(Session::new(&Vec::new()).err(), Some(RunError::NoImages));
}

#[test]
fn two_images_give_two_texts() {
    let mut s = Session::new(&strings(&["Zm9v", "YmFy"])).unwrap();
    let req = s.current_request();
    assert_eq!(req.requests.len(), 2);
    assert_eq!(req.requests[0].image.content, "Zm9v");
    let step = s.on_reply(Reply::Parsed(Response { responses: vec![item("hello"), item("world")] }));
    assert!(matches!(step, Step::Done));
    assert!(s.finished);
    assert_eq!(texts(&s.collected), strings(&["hello", "world"]));
}

#[test]
fn later_batches_follow_in_order() {
    let images: Vec<String> = (0..17).map(|i| format!("img{}", i)).collect();
    let mut s = Session::new(&images).unwrap();
    assert_eq!(s.current_request().requests.len(), 16);
    let replies: Vec<ResponseItem> = (0..16).map(|i| item(&format!("t{}", i))).collect();
    match s.on_reply(Reply::Parsed(Response { responses: replies })) {
        Step::Submit(req) => {
            assert_eq!(req.requests.len(), 1);
            assert_eq!(req.requests[0].image.content, "img16");
        }
        _ => panic!("expected a second request"),
    }
    assert!(!s.finished);
    let step = s.on_reply(Reply::Parsed(Response { responses: vec![item("last")] }));
    assert!(matches!(step, Step::Done));
    assert_eq!(s.collected.len(), 17);
    assert_eq!(s.collected[0].text, "t0");
    assert_eq!(s.collected[16].text, "last");
}

#[test]
fn unparsed_reply_is_handed_back_for_the_log() {
    let mut s = Session::new(&strings(&["Zm9v"])).unwrap();
    match s.on_reply(Reply::Unparsed("<html>bad gateway</html>".to_string())) {
        Step::WriteLog(body) => assert_eq!(body, "<html>bad gateway</html>"),
        _ => panic!("expected the body for the log"),
    }
    assert!(s.finished);
    assert!(s.collected.is_empty());
}

#[test]
fn arguments_pick_directory_and_output() {
    assert_eq!(directory_argument(&strings(&["ocr"])), "./");
    assert_eq!(directory_argument(&strings(&["ocr", "imgs"])), "imgs");
    assert_eq!(output_file_argument(&strings(&["ocr", "imgs"])), None);
    assert_eq!(output_file_argument(&strings(&["ocr", "imgs", "out.json"])), Some("out.json".to_string()));
    assert_eq!(
        output_file_argument(&strings(&["ocr", "imgs", "out.json", "x"])),
        Some("out.json".to_string())
    );
}
