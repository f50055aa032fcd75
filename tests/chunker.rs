use trame::chunker::{chunk_and_hash, parse_chunks, ChunkType};
use trame::hashing::compute_hash;

#[test]
fn test_empty_content() {
    let chunks = parse_chunks("");
    assert!(chunks.is_empty());
}

#[test]
fn test_single_paragraph() {
    let chunks = parse_chunks("Hello world");
    assert_eq!(chunks.len(), 1);
    assert_eq!(chunks[0].chunk_type, ChunkType::Paragraph);
    assert_eq!(chunks[0].content, "Hello world");
}

#[test]
fn test_heading() {
    let chunks = parse_chunks("# Title\n\nSome text");
    assert_eq!(chunks.len(), 2);
    assert_eq!(chunks[0].chunk_type, ChunkType::Heading);
    assert_eq!(chunks[0].heading_level, Some(1));
    assert_eq!(chunks[0].content, "# Title");
    assert_eq!(chunks[1].chunk_type, ChunkType::Paragraph);
}

#[test]
fn test_multiple_headings() {
    let chunks = parse_chunks("# H1\n## H2\n### H3");
    assert_eq!(chunks.len(), 3);
    assert_eq!(chunks[0].heading_level, Some(1));
    assert_eq!(chunks[1].heading_level, Some(2));
    assert_eq!(chunks[2].heading_level, Some(3));
}

#[test]
fn test_code_block() {
    let content = "```rust\nfn main() {}\n```";
    let chunks = parse_chunks(content);
    assert_eq!(chunks.len(), 1);
    assert_eq!(chunks[0].chunk_type, ChunkType::CodeBlock);
}

#[test]
fn test_list() {
    let content = "- item 1\n- item 2\n- item 3";
    let chunks = parse_chunks(content);
    assert_eq!(chunks.len(), 1);
    assert_eq!(chunks[0].chunk_type, ChunkType::List);
}

#[test]
fn test_horizontal_rule() {
    let content = "text\n\n---\n\nmore text";
    let chunks = parse_chunks(content);
    assert_eq!(chunks.len(), 3);
    assert_eq!(chunks[1].chunk_type, ChunkType::HorizontalRule);
}

#[test]
fn test_hash_consistency() {
    let hash1 = compute_hash("Hello world");
    let hash2 = compute_hash("Hello world");
    let hash3 = compute_hash("Hello world ");
    assert_eq!(hash1, hash2);
    assert_eq!(hash1, hash3);
}

#[test]
fn test_hash_difference() {
    let hash1 = compute_hash("Hello");
    let hash2 = compute_hash("World");
    assert_ne!(hash1, hash2);
}

#[test]
fn test_chunk_and_hash() {
    let chunks = chunk_and_hash("# Title\n\nParagraph");
    assert_eq!(chunks.len(), 2);
    assert!(!chunks[0].content_hash.is_empty());
    assert_eq!(chunks[0].content_hash.len(), 32);
}

#[test]
fn test_complex_document() {
    let content = r#"# My Document

This is the intro paragraph.

## Section 1

Some content here.

- List item 1
- List item 2

```python
print("hello")
```

---

## Section 2

Final thoughts."#;

    let chunks = parse_chunks(content);
    assert!(chunks.len() >= 7);
    assert_eq!(chunks[0].chunk_type, ChunkType::Heading);
    assert_eq!(chunks[0].heading_level, Some(1));
}
