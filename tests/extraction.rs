use fpl_grade::extract::{
    fpl, fpl_grade, get_fpl_grade, get_match_prefix_and_suffix, grade, max_grade, target_grade,
};
use fpl_grade::normalize::{collapse_whitespace, normalize};
use fpl_grade::records::{dedup_records, Record};
use fpl_grade::render::html_text_cell;

fn pair(rest: &str, value: &str) -> Option<(String, String)> {
    Some((rest.to_string(), value.to_string()))
}

#[test]
fn test_fpl() {
    assert_eq!(fpl("fpl"), pair("", "fpl"));
    assert_eq!(fpl("full peformance"), pair("", "full peformance"));
    assert_eq!(fpl("full perf."), pair("", "full perf."));
    assert_eq!(fpl("full perfformance"), pair("", "full perfformance"));
    assert_eq!(fpl("full performance"), pair("", "full performance"));
    assert_eq!(fpl("full performane"), pair("", "full performane"));
    assert_eq!(fpl("full perfromance "), pair("", "full perfromance "));
    assert_eq!(fpl("full-performance"), pair("", "full-performance"));

    assert_eq!(
        fpl("full performance level"),
        pair("", "full performance level")
    );

    assert_eq!(
        fpl("full perormance level"),
        pair("", "full perormance level")
    );

    assert_eq!(
        fpl("fullperformance level"),
        pair("", "fullperformance level")
    );
}

#[test]
fn test_grade() {
    assert_eq!(grade("1"), pair("", "1"));
    assert_eq!(grade("12"), pair("", "12"));
    assert_eq!(grade("gs 11"), pair("", "11"));
    assert_eq!(grade("gs-0510-09"), pair("", "09"));
    assert_eq!(grade("gs-0998-6"), pair("", "6"));
    assert_eq!(grade("gs-13"), pair("", "13"));
    assert_eq!(grade("gs- 13"), pair("", "13"));
    assert_eq!(grade("gs-13.xxx"), pair(".xxx", "13"));
    assert_eq!(grade("gs-13-"), pair("-", "13"));
    assert_eq!(grade("gs-201-13"), pair("", "13"));
    assert_eq!(grade("gs-7"), pair("", "7"));
    assert_eq!(grade("gs15"), pair("", "15"));
    assert_eq!(grade("gs7"), pair("", "7"));
    assert_eq!(grade("wg 7"), pair("", "7"));
    assert_eq!(grade("wg-08"), pair("", "08"));
    assert_eq!(grade("wl-08"), pair("", "08"));
    assert_eq!(grade("ws-7"), pair("", "7"));
    assert_eq!(grade("gs.0343.18"), pair("", "18"));

    assert!(grade("123").is_none());
    assert!(grade("gs 123").is_none());
    assert!(grade("gs-123").is_none());
    assert!(grade("gs-1234-").is_none());
    assert!(grade("gs-1234-123").is_none());
    assert!(grade("gs-12345-12").is_none());
    assert!(grade("gs123").is_none());
}

#[test]
fn test_max_grade() {
    assert_eq!(max_grade("gs-11/12/13"), pair("", "13"));
    assert_eq!(max_grade("gs-5 / gs-6 / gs-7"), pair("", "7"));
}

#[test]
fn test_normalize() {
    assert_eq!(normalize(""), "");
    assert_eq!(normalize("\n\nabc   \t  DEF 1\n2\t3\n  "), "abc def 1 2 3");
}

#[test]
fn extract_fpl_with_colon() {
    assert_eq!(get_fpl_grade("fpl: gs-13"), Some("13".to_string()));
}

#[test]
fn extract_full_performance_level_series_and_grade() {
    assert_eq!(
        get_fpl_grade("full performance level is at GS-0510-09"),
        Some("09".to_string())
    );
}

#[test]
fn extract_targeted_to() {
    assert_eq!(get_fpl_grade("targeted to GS-7"), Some("7".to_string()));
}

#[test]
fn extract_unrelated_text_is_absent() {
    assert_eq!(get_fpl_grade("this is unrelated text"), None);
    assert!(get_match_prefix_and_suffix("this is unrelated text").is_none());
    assert_eq!(html_text_cell("this is unrelated text"), "this is unrelated text");
}

#[test]
fn extract_without_keyword_is_absent() {
    assert_eq!(get_fpl_grade("grade gs-13 at level 7"), None);
    assert_eq!(get_fpl_grade(""), None);
}

#[test]
fn extract_is_case_insensitive() {
    assert_eq!(get_fpl_grade("FULL PERFORMANCE LEVEL: GS-12"), Some("12".to_string()));
    assert_eq!(get_fpl_grade("The FPL of this position is GS 11"), Some("11".to_string()));
}

#[test]
fn extract_scans_past_failed_candidates() {
    assert_eq!(
        get_fpl_grade("full performance unknown; fpl (fpl) gs-9/11"),
        Some("11".to_string())
    );
}

#[test]
fn extract_prefers_phrase_over_target() {
    assert_eq!(
        get_fpl_grade("targeted to gs-5, full performance level gs-12"),
        Some("12".to_string())
    );
}

#[test]
fn extract_career_ladder_grade() {
    assert_eq!(
        get_fpl_grade("full  career ladder grade of a career ladder position gs-0343-13"),
        Some("13".to_string())
    );
    assert_eq!(get_fpl_grade("poll grade = 14"), Some("14".to_string()));
}

#[test]
fn extract_target_position_posted() {
    assert_eq!(
        get_fpl_grade("target position posted as at a gs-2210-12"),
        Some("12".to_string())
    );
    assert_eq!(target_grade("target position , 9 more"), pair("more", "9"));
}

#[test]
fn fpl_grade_keeps_rest() {
    assert_eq!(fpl_grade("fpl is gs-12 / 13 and more"), pair("and more", "13"));
    assert_eq!(fpl_grade("fpl is unknown"), None);
}

#[test]
fn performance_spellings_all_match() {
    for v in [
        "peformance",
        "perf.",
        "perfformance",
        "performance",
        "performane",
        "perfromance",
        "perormance",
    ] {
        let text = format!("full {} level gs-11", v);
        assert_eq!(get_fpl_grade(&text), Some("11".to_string()), "{}", v);
    }
    assert_eq!(get_fpl_grade("full perfomance level gs-11"), None);
}

#[test]
fn ambiguous_series_rejected() {
    assert_eq!(get_fpl_grade("fpl gs-123"), None);
    assert_eq!(get_fpl_grade("fpl gs-1234-123"), None);
    assert_eq!(get_fpl_grade("fpl gs-12345-12"), None);
    assert_eq!(get_fpl_grade("fpl gs123"), None);
}

#[test]
fn match_span_reconstructs_text() {
    let text = "the fpl is gs-11/12 for now";
    let m = get_match_prefix_and_suffix(text).unwrap();
    assert_eq!(m.prefix, "the fpl is gs-11/");
    assert_eq!(m.matched, "12");
    assert_eq!(m.suffix, " for now");
    assert_eq!(format!("{}{}{}", m.prefix, m.matched, m.suffix), text);
}

#[test]
fn html_cell_escapes_and_highlights() {
    assert_eq!(
        html_text_cell("a<b & fpl: 7 >"),
        "a&lt;b &amp; fpl: <span class='fpl'>7</span> &gt;"
    );
}

#[test]
fn dedup_keeps_first_of_each_normalized_text() {
    let mut records = vec![
        Record { id: 1, text: "A".to_string() },
        Record { id: 2, text: "a  ".to_string() },
        Record { id: 3, text: "B".to_string() },
    ];
    dedup_records(&mut records);
    assert_eq!(records.len(), 2);
    assert_eq!((records[0].id, records[0].text.as_str()), (1, "a"));
    assert_eq!((records[1].id, records[1].text.as_str()), (3, "b"));
}

#[test]
fn dedup_sorts_by_text() {
    let mut records = vec![
        Record { id: 7, text: "zeta".to_string() },
        Record { id: 8, text: "Alpha  beta".to_string() },
        Record { id: 9, text: "alpha\tbeta".to_string() },
        Record { id: 10, text: "mid".to_string() },
    ];
    dedup_records(&mut records);
    let got: Vec<(usize, &str)> = records.iter().map(|r| (r.id, r.text.as_str())).collect();
    assert_eq!(got, vec![(8, "alpha beta"), (10, "mid"), (7, "zeta")]);
}

#[test]
fn dedup_of_empty_is_empty() {
    let mut records: Vec<Record> = Vec::new();
    dedup_records(&mut records);
    assert!(records.is_empty());
}

#[test]
fn normalize_is_idempotent_on_examples() {
    for s in ["  A  b\u{a0}C\n", "", "x", "\u{3000}Mixed\tCASE  text "] {
        let once = normalize(s);
        assert_eq!(normalize(&once), once);
    }
    assert_eq!(normalize("\u{a0}Über\u{2003}ALLES"), "über alles");
}

#[test]
fn collapse_keeps_case() {
    assert_eq!(collapse_whitespace("  Ab \t\n Cd  "), "Ab Cd");
}
