use o_sovereign::multimodal::{FileKind, ModalityType, MultimodalInput, MultimodalMetadata, MultimodalProcessor};

#[test]
fn test_text_processing() {
    let processor = MultimodalProcessor::new();
    let input = processor.process_text("Hello, world!");

    assert!(matches!(input.modality, ModalityType::Text));
    assert_eq!(input.content, "Hello, world!");
    assert!(!input.metadata.is_base64);
}

#[test]
fn test_format_for_ai() {
    let processor = MultimodalProcessor::new();
    let inputs = vec![
        processor.process_text("Analyze this code:"),
        MultimodalInput {
            modality: ModalityType::File { extension: "rs".to_string() },
            content: "fn main() {}".to_string(),
            metadata: MultimodalMetadata {
                file_path: Some("main.rs".to_string()),
                size: 12,
                is_base64: false,
                extra: vec![],
            },
        },
    ];

    let formatted = processor.format_for_ai(&inputs);
    assert!(formatted.contains("Text"));
    assert!(formatted.contains("File (.rs)"));
    assert!(formatted.contains("```rs"));
    assert_eq!(
        formatted,
        "\n### Input 1: Text\nAnalyze this code:\n\n### Input 2: File (.rs)\nFile: main.rs\n```rs\nfn main() {}\n```\n"
    );
}

#[test]
fn files_are_classified_by_extension_and_size() {
    let mut processor = MultimodalProcessor::default();
    let (kind, ext) = processor.classify_file("photo.JPG", 10).unwrap();
    assert_eq!(kind, FileKind::Image);
    assert_eq!(ext, "jpg");
    assert_eq!(processor.classify_file("doc.pdf", 10).unwrap().0, FileKind::Pdf);
    assert_eq!(processor.classify_file("lib.rs", 10).unwrap().0, FileKind::Text);
    assert_eq!(processor.classify_file("blob", 10).unwrap(), (FileKind::Binary, "".to_string()));
    processor.set_max_file_size(5);
    assert_eq!(processor.classify_file("a.txt", 6).unwrap_err(), "File too large: 6 bytes (max: 5 bytes)");
}

#[test]
fn inputs_from_file_contents() {
    let processor = MultimodalProcessor::new();
    let img = processor.process_image("a.png", "png", 3, vec![1, 2, 3]);
    assert_eq!(img.content, "AQID");
    assert!(matches!(img.modality, ModalityType::Image { ref mime_type } if mime_type == "image/png"));
    let text = processor.process_text_file("a.md", "md", 8, "one\ntwo\n".to_string());
    assert_eq!(text.metadata.extra[0], ("line_count".to_string(), "2".to_string()));
    assert_eq!(text.metadata.extra[1], ("language".to_string(), "md".to_string()));
    let pdf = processor.process_pdf("x.pdf", 2, vec![255, 0]);
    assert_eq!(pdf.content, "/wA=");
    let prompt = processor.format_for_ai(&vec![img, pdf]);
    assert_eq!(
        prompt,
        "\n### Input 1: Image (image/png)\n[Image encoded as Base64]\nSource: a.png\nSize: 3 bytes\n\n### Input 2: PDF Document\n[PDF encoded as Base64]\nSource: x.pdf\n"
    );
    assert_eq!(processor.process_text("é").metadata.size, 2);
}
