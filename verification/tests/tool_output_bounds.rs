use luminus::tool_output::{ArtifactId, BoundedOutput, Bounds, TruncationKind};


// ── ArtifactId ──────────────────────────────────────────────────────────

#[test]
fn artifact_id_round_trips() {
    let id = ArtifactId::new("abc-123");
    assert_eq!(id.as_str(), "abc-123");
    assert_eq!(id.as_ref(), "abc-123");
}

#[test]
fn artifact_id_equality_and_ordering() {
    let a = ArtifactId::new("a");
    let b = ArtifactId::new("a");
    let c = ArtifactId::new("b");
    assert_eq!(a, b);
    assert_ne!(a, c);
    assert!(a < c);
}

// ── Bounds defaults ──────────────────────────────────────────────────────

#[test]
fn bounds_default_is_capped() {
    let b = Bounds::default();
    assert_eq!(b.max_bytes, Some(4_096));
    assert_eq!(b.max_lines, Some(200));
}

#[test]
fn bounds_unbounded_is_none() {
    let b = Bounds::unbounded();
    assert!(b.max_bytes.is_none());
    assert!(b.max_lines.is_none());
}

// ── Small / no-truncation cases ───────────────────────────────────────────

#[test]
fn truncate_small_input_is_not_truncated() {
    let input = "hello world";
    let out = BoundedOutput::truncate(input, Bounds::default());
    assert!(!out.truncated);
    assert_eq!(out.truncation, TruncationKind::Untruncated);
    assert_eq!(out.preview, input);
    assert_eq!(out.total_bytes, input.len());
    assert_eq!(out.total_lines, 1);
    assert_eq!(out.bytes_omitted, 0);
    assert_eq!(out.lines_omitted, 0);
    assert!(out.full_output.is_none());
    assert!(out.artifact_id.is_none());
}

#[test]
fn truncate_empty_input() {
    let out = BoundedOutput::truncate("", Bounds::default());
    assert!(!out.truncated);
    assert_eq!(out.preview, "");
    assert_eq!(out.total_bytes, 0);
    assert_eq!(out.total_lines, 0);
}

// ── Byte truncation ────────────────────────────────────────────────────────

#[test]
fn truncate_by_bytes_cuts_on_char_boundary() {
    // Each char is 2 bytes; cap at 5 bytes → must keep 2 chars (4 bytes),
    // not 2.5 chars.
    let input = "αβγδ"; // 8 bytes
    let bounds = Bounds {
        max_bytes: Some(5),
        max_lines: None,
    };
    let out = BoundedOutput::truncate(input, bounds);
    assert!(out.truncated);
    assert_eq!(out.truncation, TruncationKind::Bytes);
    assert_eq!(out.preview, "αβ");
    assert_eq!(out.preview.len(), 4);
    assert!(out.preview.len() <= 5);
    assert_eq!(out.total_bytes, 8);
    assert_eq!(out.bytes_omitted, 4);
    assert_eq!(out.full_output.as_deref(), Some(input));
}

#[test]
fn truncate_by_bytes_ascii() {
    let input = "abcdefghij"; // 10 bytes
    let bounds = Bounds {
        max_bytes: Some(4),
        max_lines: None,
    };
    let out = BoundedOutput::truncate(input, bounds);
    assert!(out.truncated);
    assert_eq!(out.truncation, TruncationKind::Bytes);
    assert_eq!(out.preview, "abcd");
    assert_eq!(out.total_bytes, 10);
    assert_eq!(out.bytes_omitted, 6);
}

#[test]
fn truncate_by_bytes_exactly_at_boundary_is_not_truncated() {
    let input = "abcdef"; // 6 bytes
    let bounds = Bounds {
        max_bytes: Some(6),
        max_lines: None,
    };
    let out = BoundedOutput::truncate(input, bounds);
    assert!(!out.truncated);
    assert_eq!(out.truncation, TruncationKind::Untruncated);
    assert_eq!(out.preview, input);
    assert_eq!(out.bytes_omitted, 0);
}

#[test]
fn truncate_by_bytes_one_over_boundary() {
    let input = "abcdef"; // 6 bytes
    let bounds = Bounds {
        max_bytes: Some(5),
        max_lines: None,
    };
    let out = BoundedOutput::truncate(input, bounds);
    assert!(out.truncated);
    assert_eq!(out.preview, "abcde");
    assert_eq!(out.bytes_omitted, 1);
}

#[test]
fn truncate_preserves_4_byte_emoji() {
    // 🚀 is 4 bytes; cap at 4 → keep exactly one emoji and truncate the rest.
    let input = "🚀🚀"; // 8 bytes
    let bounds = Bounds {
        max_bytes: Some(4),
        max_lines: None,
    };
    let out = BoundedOutput::truncate(input, bounds);
    assert!(out.truncated);
    assert_eq!(out.preview, "🚀");
}

#[test]
fn truncate_4_byte_emoji_over_cap() {
    let input = "🚀🚀"; // 8 bytes
    let bounds = Bounds {
        max_bytes: Some(5),
        max_lines: None,
    };
    let out = BoundedOutput::truncate(input, bounds);
    assert!(out.truncated);
    assert_eq!(out.preview, "🚀"); // can't fit 2 emoji in 5 bytes
    assert_eq!(out.preview.len(), 4);
    assert_eq!(out.bytes_omitted, 4);
}

#[test]
fn truncate_zero_byte_cap_yields_empty_preview() {
    let input = "abc";
    let bounds = Bounds {
        max_bytes: Some(0),
        max_lines: None,
    };
    let out = BoundedOutput::truncate(input, bounds);
    assert!(out.truncated);
    assert_eq!(out.preview, "");
    assert_eq!(out.total_bytes, 3);
    assert_eq!(out.bytes_omitted, 3);
}

// ── Line truncation ────────────────────────────────────────────────────────

#[test]
fn truncate_by_lines() {
    let input = "line1\nline2\nline3\nline4";
    let bounds = Bounds {
        max_bytes: None,
        max_lines: Some(2),
    };
    let out = BoundedOutput::truncate(input, bounds);
    assert!(out.truncated);
    assert_eq!(out.truncation, TruncationKind::Lines);
    assert_eq!(out.preview, "line1\nline2");
    assert_eq!(out.total_lines, 4);
    assert_eq!(out.lines_omitted, 2);
    assert_eq!(out.full_output.as_deref(), Some(input));
}

#[test]
fn truncate_by_lines_exactly_at_count_is_not_truncated() {
    let input = "line1\nline2";
    let bounds = Bounds {
        max_bytes: None,
        max_lines: Some(2),
    };
    let out = BoundedOutput::truncate(input, bounds);
    assert!(!out.truncated);
    assert_eq!(out.preview, input);
    assert_eq!(out.lines_omitted, 0);
}

#[test]
fn truncate_by_lines_with_trailing_newline() {
    // "a\nb\n" — .lines() yields ["a","b"] (2 lines); but the raw string
    // has a trailing newline. We define total_lines via str::lines().count().
    let input = "a\nb\n";
    let bounds = Bounds {
        max_bytes: None,
        max_lines: Some(2),
    };
    let out = BoundedOutput::truncate(input, bounds);
    assert!(!out.truncated);
    assert_eq!(out.total_lines, 2);
    // preview should contain all content up to the line cap; trailing
    // newline beyond the last kept line is trimmed.
    assert_eq!(out.preview, "a\nb\n");
}

#[test]
fn truncate_by_lines_one_over() {
    let input = "a\nb\nc";
    let bounds = Bounds {
        max_bytes: None,
        max_lines: Some(2),
    };
    let out = BoundedOutput::truncate(input, bounds);
    assert!(out.truncated);
    assert_eq!(out.preview, "a\nb");
    assert_eq!(out.lines_omitted, 1);
}

#[test]
fn truncate_zero_lines_yields_empty_preview() {
    let input = "a\nb";
    let bounds = Bounds {
        max_bytes: None,
        max_lines: Some(0),
    };
    let out = BoundedOutput::truncate(input, bounds);
    assert!(out.truncated);
    assert_eq!(out.preview, "");
    assert_eq!(out.total_lines, 2);
    assert_eq!(out.lines_omitted, 2);
}

// ── Both limits ────────────────────────────────────────────────────────────

#[test]
fn truncate_both_limits_line_cap_dominates() {
    // 3 short lines; byte cap is huge, line cap is 1.
    let input = "aaa\nbbb\nccc";
    let bounds = Bounds {
        max_bytes: Some(10_000),
        max_lines: Some(1),
    };
    let out = BoundedOutput::truncate(input, bounds);
    assert!(out.truncated);
    assert_eq!(out.truncation, TruncationKind::Lines);
    assert_eq!(out.preview, "aaa");
    assert_eq!(out.lines_omitted, 2);
}

#[test]
fn truncate_both_limits_byte_cap_dominates() {
    // 2 lines, each 5 bytes; byte cap is 3.
    let input = "aaaaa\nbbbbb";
    let bounds = Bounds {
        max_bytes: Some(3),
        max_lines: Some(10_000),
    };
    let out = BoundedOutput::truncate(input, bounds);
    assert!(out.truncated);
    assert_eq!(out.truncation, TruncationKind::Bytes);
    assert_eq!(out.preview, "aaa");
    assert_eq!(out.bytes_omitted, 8); // 11 - 3
}

#[test]
fn truncate_both_limits_both_active() {
    // 4 lines of 4 bytes each (plus newlines). Byte cap 6, line cap 2.
    // Line cap 2 → "aaaa\nbbbb" = 9 bytes > 6 → byte cap also kicks in.
    let input = "aaaa\nbbbb\ncccc\ndddd";
    let bounds = Bounds {
        max_bytes: Some(6),
        max_lines: Some(2),
    };
    let out = BoundedOutput::truncate(input, bounds);
    assert!(out.truncated);
    assert_eq!(out.truncation, TruncationKind::Both);
    // Line cap selects "aaaa\nbbbb" (9 bytes), byte cap then cuts to 6 → "aaaa\nb"
    assert_eq!(out.preview, "aaaa\nb");
    assert_eq!(out.preview.len(), 6);
}

// ── full_output only set when truncated ────────────────────────────────────

#[test]
fn full_output_not_set_when_not_truncated() {
    let input = "small";
    let out = BoundedOutput::truncate(input, Bounds::default());
    assert!(!out.truncated);
    assert!(out.full_output.is_none());
}

#[test]
fn full_output_set_when_truncated() {
    let input = "abcdefghij";
    let bounds = Bounds {
        max_bytes: Some(3),
        max_lines: None,
    };
    let out = BoundedOutput::truncate(input, bounds);
    assert!(out.truncated);
    assert_eq!(out.full_output.as_deref(), Some(input));
}

// ── Builders ─────────────────────────────────────────────────────────────────

#[test]
fn from_parts_defaults_optional_fields_to_none() {
    let out = BoundedOutput::from_parts("prev".into(), 4, 1, false, TruncationKind::Untruncated, 0, 0);
    assert!(out.artifact_id.is_none());
    assert!(out.full_output.is_none());
}

#[test]
fn with_artifact_id_sets_field() {
    let out = BoundedOutput::from_parts("p".into(), 1, 1, false, TruncationKind::Untruncated, 0, 0)
        .with_artifact_id(ArtifactId::new("art-1"));
    assert_eq!(
        out.artifact_id.as_ref().map(ArtifactId::as_str),
        Some("art-1")
    );
}

#[test]
fn with_full_output_sets_field() {
    let out = BoundedOutput::from_parts("p".into(), 1, 1, false, TruncationKind::Untruncated, 0, 0)
        .with_full_output("full".into());
    assert_eq!(out.full_output.as_deref(), Some("full"));
}

#[test]
fn builders_chain() {
    let out = BoundedOutput::from_parts("p".into(), 1, 1, false, TruncationKind::Untruncated, 0, 0)
        .with_artifact_id(ArtifactId::new("x"))
        .with_full_output("f".into());
    assert_eq!(out.artifact_id.as_ref().map(ArtifactId::as_str), Some("x"));
    assert_eq!(out.full_output.as_deref(), Some("f"));
}

// ── Unicode edge cases ───────────────────────────────────────────────────────

#[test]
fn truncate_mixed_ascii_unicode_byte_cap() {
    // "aéβ" = 1 + 2 + 2 = 5 bytes
    let input = "aéβ";
    let bounds = Bounds {
        max_bytes: Some(2),
        max_lines: None,
    };
    let out = BoundedOutput::truncate(input, bounds);
    assert!(out.truncated);
    assert_eq!(out.preview, "a"); // 'a' is 1 byte; 'é' is 2 bytes → total 3 > 2
    assert_eq!(out.preview.len(), 1);
    assert_eq!(out.total_bytes, 5);
    assert_eq!(out.bytes_omitted, 4);
}

#[test]
fn truncate_crlf_line_endings() {
    // CRLF: str::lines() handles \r\n correctly.
    let input = "a\r\nb\r\nc";
    let bounds = Bounds {
        max_bytes: None,
        max_lines: Some(2),
    };
    let out = BoundedOutput::truncate(input, bounds);
    assert!(out.truncated);
    assert_eq!(out.total_lines, 3);
    // We keep the first 2 lines including their original line endings.
    assert_eq!(out.preview, "a\r\nb");
    assert_eq!(out.lines_omitted, 1);
}

#[test]
fn truncate_unicode_lines_byte_cap_preserves_char_boundary() {
    // Two lines: "αβ\nγδ" — each line is 4 bytes; total 9 bytes (8 + \n).
    let input = "αβ\nγδ";
    let bounds = Bounds {
        max_bytes: Some(6),
        max_lines: None,
    };
    let out = BoundedOutput::truncate(input, bounds);
    assert!(out.truncated);
    // 6 bytes: "αβ\n" = 5 bytes, + "γ" = 7 > 6, so "αβ\n" only?
    // Actually "αβ\n" = 2+2+1 = 5 bytes; adding "γ" (2 bytes) = 7 > 6.
    // So preview = "αβ\n" (5 bytes).
    assert!(out.preview.len() <= 6);
    assert!(out.preview.is_char_boundary(out.preview.len()) || out.preview.is_empty());
    assert_eq!(out.total_bytes, 9);
}

#[test]
fn truncate_preserves_valid_utf8() {
    // Fuzz-ish: build a string with mixed multibyte chars, truncate at
    // various byte caps, and assert preview is always valid UTF-8 and
    // never exceeds the cap.
    let chars = ['a', 'é', 'β', '🚀', '中', '\n'];
    let mut input = String::new();
    for _ in 0..100 {
        for &c in &chars {
            input.push(c);
        }
    }
    for cap in [1, 2, 3, 4, 5, 7, 10, 13, 50, 100, 1000] {
        let bounds = Bounds {
            max_bytes: Some(cap),
            max_lines: None,
        };
        let out = BoundedOutput::truncate(&input, bounds);
        assert!(
            out.preview.len() <= cap,
            "cap {} exceeded: preview len {}",
            cap,
            out.preview.len()
        );
        // preview is a String so it's always valid UTF-8 by construction;
        // additionally assert char boundary safety.
        assert!(out.preview.is_char_boundary(out.preview.len()));
        assert_eq!(out.total_bytes, input.len());
        if out.truncated {
            assert_eq!(out.bytes_omitted, input.len() - out.preview.len());
        }
    }
}
