use anolisa::episode::{
    duration_between, duration_of, extract_edit_cycle, extract_episodes, extract_error_recovery,
    extract_general_chains, extract_promote_chain, make_step, Episode, EpisodeOutcome,
    EpisodeStep, FactCategory, OwnedAuditEntry,
};
use chrono::Utc;

fn make_entry(
    tool: &str,
    path: &str,
    ok: bool,
    error: Option<&str>,
    bytes: Option<u64>,
) -> OwnedAuditEntry {
    OwnedAuditEntry {
        ts: Utc::now().to_rfc3339(),
        tool: tool.to_string(),
        path: path.to_string(),
        ok,
        bytes,
        error: error.map(String::from),
        trace_id: None,
    }
}

fn at(ts: &str, tool: &str, path: &str, ok: bool) -> OwnedAuditEntry {
    OwnedAuditEntry {
        ts: ts.to_string(),
        tool: tool.to_string(),
        path: path.to_string(),
        ok,
        bytes: None,
        error: if ok { None } else { Some("boom".to_string()) },
        trace_id: None,
    }
}

fn sample() -> Episode {
    Episode::stamped(
        "01ARZ3NDEKTSV4RRFFQ69G5FAV".to_string(),
        "2026-01-02T03:04:05+00:00".to_string(),
        "s1",
        "mem_grep a\nb".to_string(),
        vec![
            EpisodeStep {
                step: 1,
                tool: "mem_grep".to_string(),
                input: "src/a.rs".to_string(),
                result: "3 bytes".to_string(),
            },
            EpisodeStep {
                step: 2,
                tool: "mem_note".to_string(),
                input: String::new(),
                result: String::new(),
            },
        ],
        EpisodeOutcome::Partial,
        1,
        7,
    )
}

#[test]
fn detects_edit_verify_cycle() {
    let entries = vec![
        make_entry("memory_search", "bm25:rust config", true, None, Some(3)),
        make_entry("mem_read", "src/config.rs", true, None, Some(200)),
        make_entry("mem_edit", "src/config.rs", true, None, Some(1)),
        make_entry("mem_read", "src/config.rs", true, None, Some(200)),
    ];
    let episodes = extract_edit_cycle(&entries, "test-sid");
    assert_eq!(episodes.len(), 1);
    assert_eq!(episodes[0].chain.len(), 4);
    assert_eq!(episodes[0].outcome, EpisodeOutcome::Success);
}

#[test]
fn detects_promote_chain() {
    let entries = vec![
        make_entry("mem_read", "notes/template.md", true, None, Some(100)),
        make_entry("mem_write", "scratch/new.md", true, None, Some(150)),
        make_entry(
            "mem_promote",
            "scratch/new.md -> notes/new.md",
            true,
            None,
            Some(150),
        ),
    ];
    let episodes = extract_promote_chain(&entries, "test-sid");
    assert_eq!(episodes.len(), 1);
    assert_eq!(episodes[0].chain.len(), 3);
    assert_eq!(episodes[0].outcome, EpisodeOutcome::Promoted);
}

#[test]
fn detects_error_recovery() {
    let entries = vec![
        make_entry(
            "mem_write",
            "notes/x.md",
            false,
            Some("already exists"),
            None,
        ),
        make_entry("mem_write", "notes/x.md", true, None, Some(100)),
    ];
    let episodes = extract_error_recovery(&entries, "test-sid");
    assert_eq!(episodes.len(), 1);
    assert_eq!(episodes[0].outcome, EpisodeOutcome::Recovered);
}

#[test]
fn episode_to_fact() {
    let entries = vec![
        make_entry("memory_search", "bm25:rust config", true, None, Some(3)),
        make_entry("mem_read", "src/config.rs", true, None, Some(200)),
        make_entry("mem_edit", "src/config.rs", true, None, Some(1)),
        make_entry("mem_read", "src/config.rs", true, None, Some(200)),
    ];
    let episodes = extract_edit_cycle(&entries, "test-sid");
    assert_eq!(episodes.len(), 1);
    let fact = episodes[0].to_fact();
    assert_eq!(fact.category, FactCategory::Episodic);
    assert!(
        fact.title.contains("情景") || fact.content.contains("episodic"),
        "fact title: {} content: {}",
        fact.title,
        &fact.content[..100.min(fact.content.len())]
    );
    assert!(f64::from(fact.confidence_tenths) / 10.0 >= 0.9);
}

#[test]
fn episode_markdown_has_frontmatter() {
    let entries = vec![
        make_entry("memory_search", "bm25:rust", true, None, Some(3)),
        make_entry("mem_read", "src/lib.rs", true, None, Some(100)),
        make_entry("mem_edit", "src/lib.rs", true, None, Some(1)),
        make_entry("mem_read", "src/lib.rs", true, None, Some(100)),
    ];
    let episodes = extract_edit_cycle(&entries, "test-sid");
    let md = episodes[0].to_markdown();
    assert!(md.starts_with("---\n"));
    assert!(md.contains("outcome: success"));
    assert!(md.contains("## Step 1: memory_search"));
}

#[test]
fn markdown_is_exact() {
    assert_eq!(
        sample().to_markdown(),
        "---\n\
         id: 01ARZ3NDEKTSV4RRFFQ69G5FAV\n\
         session_id: s1\n\
         trigger: mem_grep a b\n\
         outcome: partial\n\
         error_count: 1\n\
         duration_secs: 7\n\
         created_at: 2026-01-02T03:04:05+00:00\n\
         ---\n\n\
         ## Step 1: mem_grep\n\
         - Input: `src/a.rs`\n\
         - Result: 3 bytes\n\n\
         ## Step 2: mem_note\n\n"
    );
}

#[test]
fn fact_is_exact() {
    let fact = sample().to_fact();
    assert_eq!(fact.session_id, "s1");
    assert_eq!(fact.title, "情景: mem_grep a\nb");
    assert_eq!(
        fact.content,
        "Episode (2 steps, partial): mem_grep a\nb\n\n\
         Step 1: mem_grep → 3 bytes\n\
         Step 2: mem_note → \n\n\
         Chain: mem_grep: src/a.rs → mem_note: "
    );
    assert_eq!(fact.source, "episodic");
    assert_eq!(fact.paths, vec!["src/a.rs".to_string()]);
    assert_eq!(fact.confidence_tenths, 7);
}

#[test]
fn confidence_follows_the_outcome() {
    let cases = [
        (EpisodeOutcome::Success, "success", 9),
        (EpisodeOutcome::Promoted, "promoted", 9),
        (EpisodeOutcome::Recovered, "recovered", 9),
        (EpisodeOutcome::Partial, "partial", 7),
        (EpisodeOutcome::Failed, "failed", 5),
    ];
    for (outcome, word, tenths) in cases {
        let mut e = sample();
        e.outcome = outcome;
        assert_eq!(outcome.as_str(), word);
        assert_eq!(e.to_fact().confidence_tenths, tenths);
    }
}

#[test]
fn sanitize_blanks_control_characters() {
    assert_eq!(Episode::sanitize("a\nb\rc\td\u{7f}é\u{80}"), "a b c d é\u{80}");
}

#[test]
fn new_episodes_carry_identifier_and_time() {
    let one = Episode::new("s", "t".to_string(), Vec::new(), EpisodeOutcome::Failed, 0, 0);
    let two = Episode::new("s", "t".to_string(), Vec::new(), EpisodeOutcome::Failed, 0, 0);
    assert_eq!(one.id.len(), 26);
    assert!(one
        .id
        .chars()
        .all(|c| "0123456789ABCDEFGHJKMNPQRSTVWXYZ".contains(c)));
    assert_ne!(one.id, two.id);
    assert!(chrono::DateTime::parse_from_rfc3339(&one.created_at).is_ok());
    assert!(one.created_at.ends_with("+00:00"));
}

#[test]
fn durations_are_whole_seconds_and_never_negative() {
    assert_eq!(
        duration_between("2026-01-01T00:00:00Z", "2026-01-01T00:01:30.9+00:00"),
        90
    );
    assert_eq!(
        duration_between("2026-01-01T00:00:00Z", "2026-01-01T02:00:00+01:00"),
        3600
    );
    assert_eq!(
        duration_between("2026-01-01T00:00:10Z", "2026-01-01T00:00:00Z"),
        0
    );
    assert_eq!(duration_between("yesterday", "2026-01-01T00:00:00Z"), 0);
    assert_eq!(duration_of(Some(-5)), 0);
    assert_eq!(duration_of(Some(5)), 5);
    assert_eq!(duration_of(None), 0);
}

#[test]
fn step_results_tell_bytes_errors_and_defaults() {
    let s = make_step(1, &make_entry("t", "p", true, None, Some(12)));
    assert_eq!((s.step, s.tool.as_str(), s.input.as_str()), (1, "t", "p"));
    assert_eq!(s.result, "12 bytes");
    assert_eq!(make_step(1, &make_entry("t", "p", true, None, None)).result, "ok");
    assert_eq!(
        make_step(1, &make_entry("t", "p", false, Some("no"), Some(1))).result,
        "no"
    );
    assert_eq!(
        make_step(1, &make_entry("t", "p", false, None, None)).result,
        "failed"
    );
}

#[test]
fn edit_cycles_do_not_overlap_and_count_errors() {
    let t = |s: u32| format!("2026-01-01T00:00:{s:02}Z");
    let entries = vec![
        at(&t(0), "mem_grep", "x", true),
        at(&t(1), "mem_grep", "y", true),
        at(&t(2), "mem_read", "a", true),
        at(&t(3), "mem_edit", "a", false),
        at(&t(5), "mem_read", "a", false),
    ];
    let episodes = extract_edit_cycle(&entries, "sid");
    assert_eq!(episodes.len(), 1);
    let e = &episodes[0];
    assert_eq!(e.trigger, "mem_grep y");
    assert_eq!(e.outcome, EpisodeOutcome::Partial);
    assert_eq!(e.error_count, 2);
    assert_eq!(e.duration_secs, 4);
    assert_eq!(e.session_id, "sid");
    assert_eq!(e.chain[3].step, 4);
}

#[test]
fn promotion_needs_a_read_before_the_draft() {
    let t = "2026-01-01T00:00:00Z";
    let late_read = vec![
        at(t, "mem_write", "scratch/n", true),
        at(t, "mem_read", "a", true),
        at(t, "mem_promote", "p", true),
    ];
    assert_eq!(extract_promote_chain(&late_read, "s").len(), 0);
    let elsewhere = vec![
        at(t, "mem_read", "a", true),
        at(t, "mem_write", "notes/n", true),
        at(t, "mem_promote", "p", true),
    ];
    assert_eq!(extract_promote_chain(&elsewhere, "s").len(), 0);
    let nearest = vec![
        at(t, "mem_read", "far", true),
        at(t, "mem_read", "near", true),
        at(t, "mem_write", "scratch/1", true),
        at(t, "mem_write", "scratch/2", true),
        at(t, "mem_promote", "p", true),
    ];
    let found = extract_promote_chain(&nearest, "s");
    assert_eq!(found.len(), 1);
    assert_eq!(found[0].trigger, "promote: p");
    assert_eq!(found[0].chain[0].input, "near");
    assert_eq!(found[0].chain[1].input, "scratch/2");
    assert_eq!(found[0].error_count, 0);
}

#[test]
fn recovery_looks_three_calls_ahead() {
    let t = "2026-01-01T00:00:00Z";
    let mut entries = vec![
        at(t, "a", "1", false),
        at(t, "b", "2", false),
        at(t, "c", "3", false),
        at(t, "d", "4", true),
    ];
    assert_eq!(extract_error_recovery(&entries, "s").len(), 3);
    entries.insert(3, at(t, "e", "5", false));
    let found = extract_error_recovery(&entries, "s");
    assert_eq!(found.len(), 3);
    assert_eq!(found[0].trigger, "error recovery: b");
    assert_eq!(found[0].chain[1].tool, "d");
    entries[0].error = None;
    entries[1].error = None;
    assert_eq!(extract_error_recovery(&entries, "s").len(), 2);
}

#[test]
fn task_chains_end_at_noise() {
    let t = |s: u32| format!("2026-01-01T00:00:{s:02}Z");
    let entries = vec![
        at(&t(0), "mem_read", "a", true),
        at(&t(1), "mem_write", "b", false),
        at(&t(3), "mem_list", "", true),
        at(&t(4), "mem_read", "c", true),
        at(&t(5), "mem_read", "c", true),
        at(&t(6), "mem_read", "d", true),
        at(&t(7), "mem_read", "c", true),
        at(&t(9), "mem_edit", "c", true),
    ];
    let found = extract_general_chains(&entries, "s", 2);
    assert_eq!(found.len(), 2);
    assert_eq!(found[0].trigger, "task chain: 2 tools");
    assert_eq!(found[0].outcome, EpisodeOutcome::Partial);
    assert_eq!(found[0].error_count, 1);
    assert_eq!(found[0].duration_secs, 1);
    assert_eq!(found[1].trigger, "task chain: 3 tools");
    assert_eq!(found[1].outcome, EpisodeOutcome::Success);
    assert_eq!(found[1].duration_secs, 3);
    assert_eq!(found[1].chain[2].step, 3);
    assert_eq!(extract_general_chains(&entries, "s", 3).len(), 1);
    assert_eq!(extract_general_chains(&entries, "s", 0).len(), 3);
}

#[test]
fn longest_episodes_come_first_and_no_more_than_asked_for() {
    let t = "2026-01-01T00:00:00Z";
    let entries = vec![
        at(t, "mem_write", "x", false),
        at(t, "memory_search", "q", true),
        at(t, "mem_read", "a", true),
        at(t, "mem_edit", "a", true),
        at(t, "mem_read", "a", true),
    ];
    let all = extract_episodes(&entries, "sid", 3, 10);
    let lengths: Vec<usize> = all.iter().map(|e| e.chain.len()).collect();
    assert_eq!(lengths, vec![5, 4, 2]);
    assert!(all.iter().all(|e| e.session_id == "sid" && e.id.len() == 26));
    let some = extract_episodes(&entries, "sid", 3, 2);
    assert_eq!(some.len(), 2);
    assert_eq!(some[1].trigger, "memory_search q");
    assert_eq!(extract_episodes(&entries, "sid", 3, 0).len(), 0);
    assert_eq!(extract_episodes(&[], "sid", 0, 5).len(), 0);
}

#[test]
fn episodes_of_one_length_keep_the_order_of_the_patterns() {
    let t = "2026-01-01T00:00:00Z";
    let entries = vec![
        at(t, "mem_read", "a", true),
        at(t, "mem_write", "scratch/a", true),
        at(t, "mem_promote", "a", true),
    ];
    let all = extract_episodes(&entries, "sid", 3, 10);
    assert_eq!(all.len(), 2);
    assert_eq!(all[0].outcome, EpisodeOutcome::Promoted);
    assert_eq!(all[1].trigger, "task chain: 3 tools");
}
