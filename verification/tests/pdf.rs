use fintally::errors::AppError;
use fintally::rag::pdf::{extract_text_with_lopdf, join_page_texts};
use lopdf::content::{Content, Operation};
use lopdf::{Dictionary, Document, Object, Stream};

fn one_page_pdf(text: &str) -> Vec<u8> {
    let mut doc = Document::with_version("1.5");
    let pages_id = doc.new_object_id();
    let mut font = Dictionary::new();
    font.set("Type", "Font");
    font.set("Subtype", "Type1");
    font.set("BaseFont", "Courier");
    let font_id = doc.add_object(font);
    let mut font_names = Dictionary::new();
    font_names.set("F1", font_id);
    let mut resources = Dictionary::new();
    resources.set("Font", font_names);
    let resources_id = doc.add_object(resources);
    let content = Content {
        operations: vec![
            Operation::new("BT", vec![]),
            Operation::new("Tf", vec!["F1".into(), 24.into()]),
            Operation::new("Td", vec![100.into(), 600.into()]),
            Operation::new("Tj", vec![Object::string_literal(text)]),
            Operation::new("ET", vec![]),
        ],
    };
    let content_id = doc.add_object(Stream::new(Dictionary::new(), content.encode().unwrap()));
    let mut page = Dictionary::new();
    page.set("Type", "Page");
    page.set("Parent", pages_id);
    page.set("Contents", content_id);
    let page_id = doc.add_object(page);
    let mut pages = Dictionary::new();
    pages.set("Type", "Pages");
    pages.set("Kids", vec![Object::Reference(page_id)]);
    pages.set("Count", 1);
    pages.set("Resources", resources_id);
    pages.set(
        "MediaBox",
        vec![Object::Integer(0), Object::Integer(0), Object::Integer(595), Object::Integer(842)],
    );
    doc.objects.insert(pages_id, Object::Dictionary(pages));
    let mut catalog = Dictionary::new();
    catalog.set("Type", "Catalog");
    catalog.set("Pages", pages_id);
    let catalog_id = doc.add_object(catalog);
    doc.trailer.set("Root", catalog_id);
    let mut out = Vec::new();
    doc.save_to(&mut out).unwrap();
    out
}

#[test]
fn page_texts_are_joined_in_order() {
    let texts = vec![Some("first".to_string()), None, Some("third".to_string())];
    assert_eq!(join_page_texts(&texts), "first\nthird\n");
    assert_eq!(join_page_texts(&vec![]), "");
}

#[test]
fn bytes_that_are_not_a_pdf_are_refused() {
    match extract_text_with_lopdf(b"this is not a pdf") {
        Err(AppError::InferenceError(m)) => {
            assert!(m.starts_with("Failed parsing PDF binary structure: "))
        }
        other => panic!("unexpected result: {other:?}"),
    }
}

#[test]
fn the_text_layer_of_a_pdf_is_read() {
    let bytes = one_page_pdf("Tax slab 30");
    let text = extract_text_with_lopdf(&bytes).unwrap();
    assert!(text.contains("Tax slab 30"), "{text:?}");
    assert!(text.ends_with('\n'));
}
