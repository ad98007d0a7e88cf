use aurelia::lyrics::{accept_server_lrc, accept_server_lyrics, first_lyrics_source, LyricsSource};
use aurelia::lyrics::{
    parsed_lyrics_from_parts, section_from_range, LyricsSectionRange, ParsedLyrics,
    ParsedLyricsLine, ParsedLyricsWord,
};

fn line(time_ms: i64, end: Option<i64>, text: &str) -> ParsedLyricsLine {
    ParsedLyricsLine {
        time_ms,
        end_time_ms: end,
        line: text.to_string(),
        words: Some(vec![ParsedLyricsWord { time_ms, end_time_ms: end, word: text.to_string() }]),
        agent_id: None,
    }
}

fn range(name: &str, start: usize, end: usize) -> LyricsSectionRange {
    LyricsSectionRange { name: name.to_string(), start_line_index: start, end_line_index: end }
}

#[test]
fn validity_needs_some_lines() {
    let empty = parsed_lyrics_from_parts(vec![], vec![], None, None, None, None);
    assert!(!empty.is_valid());
    assert!(empty.are_from_remote);
    let plain = parsed_lyrics_from_parts(vec!["la".to_string()], vec![], None, None, None, None);
    assert!(plain.is_valid());
    let synced = ParsedLyrics { synced: vec![line(0, None, "x")], ..empty.clone() };
    assert!(synced.is_valid());
}

#[test]
fn sections_take_their_lines_and_times() {
    let synced = vec![line(100, Some(900), "a"), line(1000, None, "b"), line(2000, Some(2500), "c")];
    let verse = section_from_range(&synced, &range("Verse", 0, 2));
    assert_eq!(verse.lines.len(), 2);
    assert_eq!(verse.start_time_ms, 100);
    assert_eq!(verse.end_time_ms, 1000);
    let clamped = section_from_range(&synced, &range("Outro", 2, 99));
    assert_eq!(clamped.lines, vec![synced[2].clone()]);
    assert_eq!(clamped.end_time_ms, 2500);
    let reversed = section_from_range(&synced, &range("Odd", 2, 1));
    assert!(reversed.lines.is_empty());
    assert_eq!((reversed.start_time_ms, reversed.end_time_ms), (0, 0));
    let all = parsed_lyrics_from_parts(
        vec![],
        synced.clone(),
        Some(vec![range("Verse", 0, 2), range("Chorus", 5, 9)]),
        None,
        Some(vec!["W".to_string()]),
        Some("en".to_string()),
    );
    let sections = all.sections.unwrap();
    assert_eq!(sections.len(), 2);
    assert_eq!(sections[0].name, "Verse");
    assert!(sections[1].lines.is_empty());
    assert_eq!(all.language.as_deref(), Some("en"));
}

#[test]
fn lyrics_sources_are_chosen_in_order() {
    assert_eq!(first_lyrics_source("http://srv", "tok", "item"), LyricsSource::Server);
    assert_eq!(first_lyrics_source("", "tok", "item"), LyricsSource::LrcLib);
    assert_eq!(first_lyrics_source("http://srv", "tok", ""), LyricsSource::LrcLib);

    let empty = parsed_lyrics_from_parts(vec![], vec![], None, None, None, None);
    assert_eq!(accept_server_lyrics(Some(empty)).err(), Some(LyricsSource::LrcLib));
    assert_eq!(accept_server_lyrics(None).err(), Some(LyricsSource::LrcLib));
    let plain = parsed_lyrics_from_parts(vec!["la".to_string()], vec![], None, None, None, None);
    assert_eq!(accept_server_lyrics(Some(plain)).unwrap().plain, vec!["la".to_string()]);

    assert_eq!(accept_server_lrc(Some("  \n ".to_string())), Err(LyricsSource::LrcLib));
    assert_eq!(accept_server_lrc(Some("[00:01.00] hi".to_string())), Ok("[00:01.00] hi".to_string()));
    assert_eq!(accept_server_lrc(None), Err(LyricsSource::LrcLib));
}
