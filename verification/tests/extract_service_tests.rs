use deskpet::extract_service::{
    count_chinese_words, decode_txt, document_format, extract_from_bytes, extract_text,
    extract_text_from_docx_xml, search_in_text, DocumentFormat,
};
use std::io::Write;

fn docx_bytes(xml: &str) -> Vec<u8> {
    let mut w = zip::ZipWriter::new(std::io::Cursor::new(Vec::new()));
    let options = zip::write::SimpleFileOptions::default()
        .compression_method(zip::CompressionMethod::Stored);
    w.start_file("word/document.xml", options).unwrap();
    w.write_all(xml.as_bytes()).unwrap();
    w.finish().unwrap().into_inner()
}

#[test]
fn counts_cjk_characters_and_letters() {
    assert_eq!(count_chinese_words("你好world"), 7);
    assert_eq!(count_chinese_words("123 !?"), 0);
    assert_eq!(count_chinese_words("。，"), 1);
    assert_eq!(count_chinese_words(""), 0);
}

#[test]
fn docx_xml_runs_become_paragraph_lines() {
    let xml = "<w:document><w:body><w:p><w:r><w:t>第一段</w:t></w:r></w:p><w:p><w:r><w:t xml:space=\"preserve\">第二 段</w:t></w:r></w:p></w:body></w:document>";
    assert_eq!(extract_text_from_docx_xml(xml), "第一段\n第二 段");
}

#[test]
fn docx_xml_without_runs_is_empty() {
    assert_eq!(extract_text_from_docx_xml("<w:p></w:p><w:p></w:p>"), "");
    assert_eq!(extract_text_from_docx_xml(""), "");
}

#[test]
fn search_finds_keyword_ignoring_case() {
    let text = "Hello World, this is a Test of searching.";
    let r = search_in_text(text, "test", 10);
    assert_eq!(r, "……is a Test of s……");
}

#[test]
fn search_without_match_or_input_is_empty() {
    assert_eq!(search_in_text("abc", "xyz", 10), "");
    assert_eq!(search_in_text("", "a", 10), "");
    assert_eq!(search_in_text("abc", "", 10), "");
}

#[test]
fn search_in_chinese_text_uses_character_positions() {
    let r = search_in_text("今天天气很好，我们去公园散步吧", "公园", 4);
    assert_eq!(r, "……们去公园散步……");
}

#[test]
fn txt_decoding_prefers_utf8_then_gbk() {
    assert_eq!(decode_txt(&"你好".as_bytes().to_vec()), "你好");
    assert_eq!(decode_txt(&vec![0xC4, 0xE3, 0xBA, 0xC3]), "你好");
}

#[test]
fn format_comes_from_the_extension() {
    assert!(matches!(document_format("txt"), Ok(DocumentFormat::Txt)));
    assert!(matches!(document_format("docx"), Ok(DocumentFormat::Docx)));
    assert_eq!(
        document_format("pdf").unwrap_err(),
        "暂不支持的格式：.pdf，请使用 .txt 或 .docx"
    );
}

#[test]
fn extract_text_of_a_txt_file() {
    let doc = extract_text("/tmp/notes/故事.TXT", &Ok("主角名叫Amy。".as_bytes().to_vec())).unwrap();
    assert_eq!(doc.title, "故事");
    assert_eq!(doc.file_type, "txt");
    assert_eq!(doc.full_text, "主角名叫Amy。");
    assert_eq!(doc.word_count, 8);
}

#[test]
fn extract_text_reports_unsupported_format_before_reading() {
    let r = extract_text("/tmp/a.pdf", &Err("no such file".to_string()));
    assert_eq!(r.unwrap_err(), "暂不支持的格式：.pdf，请使用 .txt 或 .docx");
}

#[test]
fn extract_text_lowercases_the_refused_extension() {
    let r = extract_text("C:/docs/notes.PDF", &Ok(b"%PDF".to_vec()));
    assert_eq!(r.unwrap_err(), "暂不支持的格式：.pdf，请使用 .txt 或 .docx");
    let r = extract_text("/tmp/README", &Ok(b"x".to_vec()));
    assert_eq!(r.unwrap_err(), "暂不支持的格式：.，请使用 .txt 或 .docx");
}

#[test]
fn extract_text_reports_failed_read() {
    let r = extract_text("/tmp/a.txt", &Err("no such file".to_string()));
    assert_eq!(r.unwrap_err(), "读取文件失败: no such file");
}

#[test]
fn extract_text_of_a_docx_file() {
    let bytes = docx_bytes("<w:p><w:r><w:t>你好</w:t></w:r></w:p><w:p><w:r><w:t>世界</w:t></w:r></w:p>");
    let doc = extract_text("/tmp/书.docx", &Ok(bytes)).unwrap();
    assert_eq!(doc.file_type, "docx");
    assert_eq!(doc.full_text, "你好\n世界");
    assert_eq!(doc.word_count, 4);
}

#[test]
fn docx_without_body_is_refused() {
    let r = extract_from_bytes("x", DocumentFormat::Docx, &b"not a zip".to_vec());
    assert!(r.unwrap_err().starts_with("解析docx失败: "));
    let mut w = zip::ZipWriter::new(std::io::Cursor::new(Vec::new()));
    let options = zip::write::SimpleFileOptions::default()
        .compression_method(zip::CompressionMethod::Stored);
    w.start_file("other.xml", options).unwrap();
    w.write_all(b"<x/>").unwrap();
    let bytes = w.finish().unwrap().into_inner();
    let r2 = extract_from_bytes("x", DocumentFormat::Docx, &bytes);
    assert_eq!(r2.unwrap_err(), "无效的docx文件：未找到word/document.xml");
}

#[test]
fn txt_that_is_neither_utf8_nor_gbk_is_decoded_lossily() {
    assert_eq!(decode_txt(&vec![0xFF, 0x41]), "\u{FFFD}A");
}
