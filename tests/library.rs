use trame::api::{bearer_token, validate_signup, SignupRejection, SignupRequest};
use trame::chunker::{parse_chunks, ChunkType};
use trame::hashing::compute_hash;
use trame::model::{Chunk, Config};
use trame::reconcile::{build_chunk, reconcile_chunks};
use trame::service::{expiry_status, generate_token, Route, Router, SessionCheck};

#[test]
fn scan_heading_then_paragraph_texts() {
    let chunks = parse_chunks("# Title\n\nSome text");
    assert_eq!(chunks.len(), 2);
    assert_eq!(chunks[0].content, "# Title");
    assert_eq!(chunks[0].start_offset, 0);
    assert_eq!(chunks[0].end_offset, 8);
    assert_eq!(chunks[1].content, "Some text");
    assert_eq!(chunks[1].start_offset, 9);
    assert_eq!(chunks[1].end_offset, 18);
}

#[test]
fn scan_code_block_spans_both_fences() {
    let text = "```lang\ncode\n```";
    let chunks = parse_chunks(text);
    assert_eq!(chunks.len(), 1);
    assert_eq!(chunks[0].chunk_type, ChunkType::CodeBlock);
    assert_eq!(chunks[0].content, text);
    assert_eq!(chunks[0].heading_level, None);
}

#[test]
fn scan_unterminated_fence_runs_to_end() {
    let chunks = parse_chunks("```\nabc\n\n# not a heading");
    assert_eq!(chunks.len(), 1);
    assert_eq!(chunks[0].chunk_type, ChunkType::CodeBlock);
    assert_eq!(chunks[0].end_offset, 24);
}

#[test]
fn scan_list_holds_all_lines() {
    let chunks = parse_chunks("- a\n- b\n- c");
    assert_eq!(chunks.len(), 1);
    assert_eq!(chunks[0].chunk_type, ChunkType::List);
    assert_eq!(chunks[0].content, "- a\n- b\n- c");
}

#[test]
fn scan_list_across_one_blank_line() {
    let chunks = parse_chunks("1. a\n\n2) b\n\n\n- c");
    assert_eq!(chunks.len(), 2);
    assert_eq!(chunks[0].content, "1. a\n\n2) b");
    assert_eq!(chunks[1].content, "- c");
}

#[test]
fn scan_rule_between_paragraphs() {
    let chunks = parse_chunks("text\n\n---\n\nmore text");
    assert_eq!(chunks.len(), 3);
    assert_eq!(chunks[0].chunk_type, ChunkType::Paragraph);
    assert_eq!(chunks[0].content, "text");
    assert_eq!(chunks[1].chunk_type, ChunkType::HorizontalRule);
    assert_eq!(chunks[1].content, "---");
    assert_eq!(chunks[2].chunk_type, ChunkType::Paragraph);
    assert_eq!(chunks[2].content, "more text");
}

#[test]
fn scan_heading_levels_cap_and_need_space() {
    let chunks = parse_chunks("###### six\n####### seven\n#tag");
    assert_eq!(chunks.len(), 2);
    assert_eq!(chunks[0].chunk_type, ChunkType::Heading);
    assert_eq!(chunks[0].heading_level, Some(6));
    assert_eq!(chunks[1].chunk_type, ChunkType::Paragraph);
    assert_eq!(chunks[1].content, "####### seven\n#tag");
}

#[test]
fn scan_hash_without_space_stays_in_paragraph() {
    let chunks = parse_chunks("#a\n#b");
    assert_eq!(chunks.len(), 1);
    assert_eq!(chunks[0].chunk_type, ChunkType::Paragraph);
    assert_eq!(chunks[0].content, "#a\n#b");
    assert_eq!(chunks[0].start_offset, 0);
    assert_eq!(chunks[0].end_offset, 5);
}

#[test]
fn scan_paragraph_ends_at_heading() {
    let chunks = parse_chunks("text\n## Next");
    assert_eq!(chunks.len(), 2);
    assert_eq!(chunks[0].content, "text");
    assert_eq!(chunks[1].heading_level, Some(2));
}

#[test]
fn scan_fence_closes_only_at_line_start() {
    let text = "```\na ```b\n```";
    let chunks = parse_chunks(text);
    assert_eq!(chunks.len(), 1);
    assert_eq!(chunks[0].chunk_type, ChunkType::CodeBlock);
    assert_eq!(chunks[0].content, text);
    assert_eq!(chunks[0].end_offset, 14);
}

#[test]
fn scan_offsets_count_characters() {
    let chunks = parse_chunks("é\n\nb");
    assert_eq!(chunks.len(), 2);
    assert_eq!(chunks[1].start_offset, 3);
    assert_eq!(chunks[1].end_offset, 4);
}

#[test]
fn scan_blank_text_has_no_blocks() {
    assert!(parse_chunks("  \n\n\t").is_empty());
}

#[test]
fn round_trip_of_offsets() {
    let text = "# A  \n\npara one\npara two  \n\n* x\n* y\n\n***\n```\nq\n```\n";
    let chars: Vec<char> = text.chars().collect();
    for c in parse_chunks(text) {
        let span: String = chars[c.start_offset..c.end_offset].iter().collect();
        let expected = match c.chunk_type {
            ChunkType::CodeBlock => span.clone(),
            ChunkType::Paragraph => span.trim().to_string(),
            _ => span.trim_end().to_string(),
        };
        assert_eq!(c.content, expected);
    }
}

#[test]
fn hash_is_32_lower_hex_digits() {
    let h = compute_hash("Hello world");
    assert_eq!(h.len(), 32);
    assert!(h.chars().all(|c| c.is_ascii_hexdigit() && !c.is_ascii_uppercase()));
    assert_eq!(h, "64ec88ca00b268e5ba1a35678a1b5316");
}

#[test]
fn hash_ignores_outer_whitespace_only() {
    assert_eq!(compute_hash("  Hello world\n"), compute_hash("Hello world"));
    assert_ne!(compute_hash("Hello  world"), compute_hash("Hello world"));
}

fn record(hash: &str, created: &str) -> Chunk {
    Chunk {
        id: "old".to_string(),
        note_id: "n1".to_string(),
        sequence: 0,
        chunk_type: "paragraph".to_string(),
        heading_level: None,
        content: String::new(),
        content_hash: hash.to_string(),
        start_offset: 0,
        end_offset: 0,
        created_at: created.to_string(),
        updated_at: created.to_string(),
    }
}

#[test]
fn reconcile_carries_timestamps_by_hash() {
    let prev = vec![record(&compute_hash("kept"), "t0")];
    let out = reconcile_chunks("n1", &prev, "# New\n\nkept", "t1");
    assert_eq!(out.len(), 2);
    assert_eq!(out[0].sequence, 0);
    assert_eq!(out[0].chunk_type, "heading");
    assert_eq!(out[0].heading_level, Some(1));
    assert_eq!(out[0].created_at, "t1");
    assert_eq!(out[0].updated_at, "t1");
    assert_eq!(out[1].sequence, 1);
    assert_eq!(out[1].content, "kept");
    assert_eq!(out[1].created_at, "t0");
    assert_eq!(out[1].note_id, "n1");
    assert_eq!(out[1].content_hash, compute_hash("kept"));
}

#[test]
fn reconcile_twice_is_stable() {
    let text = "# T\n\nbody\n\n- a\n- b";
    let first = reconcile_chunks("n1", &Vec::new(), text, "t1");
    let second = reconcile_chunks("n1", &first, text, "t2");
    assert_eq!(first.len(), 3);
    assert_eq!(second.len(), first.len());
    for i in 0..first.len() {
        assert_eq!(second[i].content_hash, first[i].content_hash);
        assert_eq!(second[i].sequence, first[i].sequence);
        assert_eq!(second[i].created_at, "t1");
    }
}

#[test]
fn reconcile_duplicate_hashes_take_last() {
    let h = compute_hash("same");
    let prev = vec![record(&h, "early"), record(&h, "late")];
    let out = reconcile_chunks("n1", &prev, "same", "now");
    assert_eq!(out[0].created_at, "late");
    let chunk = trame::chunker::chunk_and_hash("same").remove(0);
    let built = build_chunk("n1", 4, &chunk, &prev, "now", "id9".to_string());
    assert_eq!(built.id, "id9");
    assert_eq!(built.sequence, 4);
    assert_eq!(built.created_at, "late");
}

#[test]
fn signup_validation() {
    let req = |e: &str, p: &str| SignupRequest { email: e.to_string(), password: p.to_string() };
    assert_eq!(validate_signup(&req("", "longenough")), Err(SignupRejection::InvalidEmail));
    assert_eq!(validate_signup(&req("nobody", "longenough")), Err(SignupRejection::InvalidEmail));
    assert_eq!(validate_signup(&req("a@b", "short")), Err(SignupRejection::PasswordTooShort));
    assert_eq!(validate_signup(&req("a@b", "12345678")), Ok(()));
    assert_eq!(SignupRejection::InvalidEmail.message(), "Invalid email");
}

#[test]
fn bearer_extraction() {
    assert_eq!(bearer_token(Some("Bearer abc")), Some("abc".to_string()));
    assert_eq!(bearer_token(Some("Basic abc")), None);
    assert_eq!(bearer_token(Some("Bear")), None);
    assert_eq!(bearer_token(None), None);
}

#[test]
fn routes() {
    assert_eq!(Router::resolve("POST", "/api/signup"), Route::Signup);
    assert_eq!(Router::resolve("PUT", "/api/note"), Route::UpdateNote);
    assert_eq!(Router::resolve("GET", "/index.html"), Route::Frontend);
    assert_eq!(Router::resolve("OPTIONS", "/anything"), Route::Preflight);
    assert_eq!(Router::resolve("GET", "/api/signup"), Route::NotFound);
}

#[test]
fn expiry() {
    assert_eq!(expiry_status(None, (5, 0)), SessionCheck::Unreadable);
    assert_eq!(expiry_status(Some((4, 999)), (5, 0)), SessionCheck::Expired);
    assert_eq!(expiry_status(Some((5, 0)), (5, 0)), SessionCheck::Valid);
}

#[test]
fn token_shape() {
    let t = generate_token();
    assert_eq!(t.len(), 43);
    assert!(t.chars().all(|c| c.is_ascii_alphanumeric() || c == '-' || c == '_'));
    assert_ne!(t, generate_token());
}

#[test]
fn config_defaults() {
    let c = Config::from_values(None, None, Some("x.db".to_string()), None);
    assert_eq!(c.port, 3000);
    assert_eq!(c.host, "0.0.0.0");
    assert_eq!(c.database_url, "x.db");
    assert_eq!(c.allowed_origin, "*");
}
