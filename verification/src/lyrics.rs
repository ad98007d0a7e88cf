//! Parsed lyrics shared across clients, and the grouping of synced lines
//! into named sections.
use vstd::prelude::*;
use crate::models::Duplicate;

verus! {

/// Word-level synchronized lyric entry.
#[derive(Clone, Debug, PartialEq, Eq)]
pub struct ParsedLyricsWord {
    pub time_ms: i64,
    pub end_time_ms: Option<i64>,
    pub word: String,
}

/// Line-level synchronized lyric entry.
#[derive(Clone, Debug, PartialEq, Eq)]
pub struct ParsedLyricsLine {
    pub time_ms: i64,
    pub end_time_ms: Option<i64>,
    pub line: String,
    pub words: Option<Vec<ParsedLyricsWord>>,
    /// Agent/singer identifier (e.g. "v1", "v2000") for multi-singer attribution.
    pub agent_id: Option<String>,
}

/// The value of a [`ParsedLyricsLine`].
pub struct ParsedLyricsLineV {
    pub time_ms: i64,
    pub end_time_ms: Option<i64>,
    pub line: String,
    pub words: Option<Seq<ParsedLyricsWord>>,
    pub agent_id: Option<String>,
}

impl View for ParsedLyricsLine {
    type V = ParsedLyricsLineV;

    open spec fn view(&self) -> ParsedLyricsLineV {
        ParsedLyricsLineV {
            time_ms: self.time_ms,
            end_time_ms: self.end_time_ms,
            line: self.line,
            words: match self.words {
                Some(w) => Some(w@),
                None => None,
            },
            agent_id: self.agent_id,
        }
    }
}

fn duplicate_word(w: &ParsedLyricsWord) -> (r: ParsedLyricsWord)
    ensures
        r == *w,
{
    ParsedLyricsWord { time_ms: w.time_ms, end_time_ms: w.end_time_ms, word: w.word.clone() }
}

impl Duplicate for ParsedLyricsLine {
    fn duplicate(&self) -> (r: ParsedLyricsLine)
        ensures
            r@ == self@,
    {
        let words = match &self.words {
            Some(ws) => {
                let mut out: Vec<ParsedLyricsWord> = Vec::new();
                let mut i: usize = 0;
                while i < ws.len()
                    invariant
                        i <= ws@.len(),
                        out@ == ws@.take(i as int),
                    decreases ws@.len() - i,
                {
                    out.push(duplicate_word(&ws[i]));
                    assert(out@ =~= ws@.take(i + 1));
                    i = i + 1;
                }
                assert(out@ =~= ws@);
                Some(out)
            },
            None => None,
        };
        ParsedLyricsLine {
            time_ms: self.time_ms,
            end_time_ms: self.end_time_ms,
            line: self.line.clone(),
            words,
            agent_id: self.agent_id.clone(),
        }
    }
}

/// The views of a sequence of lines.
pub open spec fn line_views(s: Seq<ParsedLyricsLine>) -> Seq<ParsedLyricsLineV> {
    s.map_values(|l: ParsedLyricsLine| l@)
}

/// A named section of the song (e.g. Verse, Chorus, Bridge).
#[derive(Clone, Debug, PartialEq, Eq)]
pub struct ParsedLyricsSection {
    /// Section name (e.g. "Verse", "Chorus", "Bridge", "Intro", "Outro").
    pub name: String,
    /// Start time in milliseconds.
    pub start_time_ms: i64,
    /// End time in milliseconds.
    pub end_time_ms: i64,
    /// Lines belonging to this section.
    pub lines: Vec<ParsedLyricsLine>,
    /// Default agent for this section, if any.
    pub agent_id: Option<String>,
}

/// A singer/performer agent definition.
#[derive(Clone, Debug, PartialEq, Eq)]
pub struct ParsedLyricsAgent {
    /// Unique identifier (e.g. "v1", "v2000").
    pub id: String,
    /// Agent type: "person" for a singer, "other" for background/samples.
    pub agent_type: String,
}

/// Parsed lyrics payload returned by the shared parser.
#[derive(Clone, Debug, PartialEq, Eq)]
pub struct ParsedLyrics {
    pub plain: Vec<String>,
    pub synced: Vec<ParsedLyricsLine>,
    pub sections: Option<Vec<ParsedLyricsSection>>,
    pub agents: Option<Vec<ParsedLyricsAgent>>,
    pub songwriters: Option<Vec<String>>,
    pub language: Option<String>,
    pub are_from_remote: bool,
}

impl ParsedLyrics {
    /// The lyrics hold synced lines or plain lines.
    pub fn is_valid(&self) -> (b: bool)
        ensures
            b == (self.synced@.len() > 0 || self.plain@.len() > 0),
    {
        self.synced.len() > 0 || self.plain.len() > 0
    }
}

/// A section as the lyrics parser reports it: a name and a range of synced
/// line indexes (start inclusive, end exclusive).
#[derive(Clone, Debug, PartialEq, Eq)]
pub struct LyricsSectionRange {
    pub name: String,
    pub start_line_index: usize,
    pub end_line_index: usize,
}

/// `i` clamped to at most `n`.
pub open spec fn clamp_index(i: usize, n: int) -> int {
    if (i as int) < n {
        i as int
    } else {
        n
    }
}

/// The synced lines a section range covers, its indexes clamped to the
/// line count (none when the start is past the end).
pub open spec fn section_lines(
    synced: Seq<ParsedLyricsLineV>,
    r: LyricsSectionRange,
) -> Seq<ParsedLyricsLineV> {
    let start = clamp_index(r.start_line_index, synced.len() as int);
    let end = clamp_index(r.end_line_index, synced.len() as int);
    if start <= end {
        synced.subrange(start, end)
    } else {
        seq![]
    }
}

/// The start of a section: its first line's time, or 0.
pub open spec fn section_start(lines: Seq<ParsedLyricsLineV>) -> i64 {
    if lines.len() > 0 {
        lines[0].time_ms
    } else {
        0
    }
}

/// The end of a section: its last line's end time, else that line's time,
/// else the section's start.
pub open spec fn section_end(lines: Seq<ParsedLyricsLineV>) -> i64 {
    if lines.len() > 0 {
        match lines.last().end_time_ms {
            Some(e) => e,
            None => lines.last().time_ms,
        }
    } else {
        section_start(lines)
    }
}

/// `s` is the section built from range `r` over the synced lines.
pub open spec fn built_section(
    s: ParsedLyricsSection,
    synced: Seq<ParsedLyricsLineV>,
    r: LyricsSectionRange,
) -> bool {
    let lines = section_lines(synced, r);
    &&& s.name == r.name
    &&& line_views(s.lines@) == lines
    &&& s.start_time_ms == section_start(lines)
    &&& s.end_time_ms == section_end(lines)
    &&& s.agent_id is None
}

/// Builds a section from a range of synced line indexes: the covered lines
/// (indexes clamped to the line count), timed from the first line's start
/// to the last line's end.
pub fn section_from_range(synced: &Vec<ParsedLyricsLine>, r: &LyricsSectionRange) -> (s: ParsedLyricsSection)
    ensures
        built_section(s, line_views(synced@), *r),
{
    let ghost sv = line_views(synced@);
    let n = synced.len();
    let start = if r.start_line_index < n {
        r.start_line_index
    } else {
        n
    };
    let end = if r.end_line_index < n {
        r.end_line_index
    } else {
        n
    };
    let mut lines: Vec<ParsedLyricsLine> = Vec::new();
    if start <= end {
        let mut i: usize = start;
        while i < end
            invariant
                start <= i <= end,
                end <= synced@.len(),
                sv == line_views(synced@),
                line_views(lines@) == sv.subrange(start as int, i as int),
            decreases end - i,
        {
            let ghost prev = line_views(lines@);
            lines.push(synced[i].duplicate());
            assert(line_views(lines@) =~= prev.push(sv[i as int]));
            assert(sv.subrange(start as int, i + 1) =~= sv.subrange(start as int, i as int).push(
                sv[i as int],
            ));
            i = i + 1;
        }
    } else {
        assert(line_views(lines@) =~= Seq::<ParsedLyricsLineV>::empty());
    }
    let ghost lv = line_views(lines@);
    let start_time_ms: i64 = if lines.len() > 0 {
        lines[0].time_ms
    } else {
        0
    };
    let end_time_ms: i64 = if lines.len() > 0 {
        let last = &lines[lines.len() - 1];
        match last.end_time_ms {
            Some(e) => e,
            None => last.time_ms,
        }
    } else {
        start_time_ms
    };
    proof {
        if lv.len() > 0 {
            assert(lv[0] == lines@[0]@);
            assert(lv.last() == lines@[lines@.len() - 1]@);
        }
    }
    ParsedLyricsSection { name: r.name.clone(), start_time_ms, end_time_ms, lines, agent_id: None }
}

/// Assembles the parser's lyrics: the synced lines grouped into the given
/// section ranges, marked as coming from a remote source.
pub fn parsed_lyrics_from_parts(
    plain: Vec<String>,
    synced: Vec<ParsedLyricsLine>,
    sections: Option<Vec<LyricsSectionRange>>,
    agents: Option<Vec<ParsedLyricsAgent>>,
    songwriters: Option<Vec<String>>,
    language: Option<String>,
) -> (p: ParsedLyrics)
    ensures
        p.plain == plain,
        line_views(p.synced@) == line_views(synced@),
        match sections {
            Some(rs) => p.sections matches Some(ss) && ss@.len() == rs@.len() && forall|i: int|
                0 <= i < rs@.len() ==> built_section(
                    #[trigger] ss@[i],
                    line_views(synced@),
                    rs@[i],
                ),
            None => p.sections is None,
        },
        p.agents == agents,
        p.songwriters == songwriters,
        p.language == language,
        p.are_from_remote,
{
    let built = match &sections {
        Some(rs) => {
            let mut out: Vec<ParsedLyricsSection> = Vec::new();
            let mut i: usize = 0;
            while i < rs.len()
                invariant
                    i <= rs@.len(),
                    out@.len() == i,
                    forall|j: int|
                        0 <= j < i ==> built_section(#[trigger] out@[j], line_views(synced@), rs@[j]),
                decreases rs@.len() - i,
            {
                out.push(section_from_range(&synced, &rs[i]));
                i = i + 1;
            }
            Some(out)
        },
        None => None,
    };
    ParsedLyrics {
        plain,
        synced,
        sections: built,
        agents,
        songwriters,
        language,
        are_from_remote: true,
    }
}

/// Where lyrics are looked for next.
#[derive(Clone, Copy, Debug, PartialEq, Eq)]
pub enum LyricsSource {
    /// The media server's own lyrics of the item.
    Server,
    /// The LRCLIB search by artist and title.
    LrcLib,
}

/// Whether the media server is asked first: only with a server, a token
/// and an item, and when the token is a Jellyfin server's (every token is).
pub open spec fn server_first(server_url: Seq<char>, token: Seq<char>, item_id: Seq<char>) -> bool {
    server_url.len() > 0 && token.len() > 0 && item_id.len() > 0
}

/// The first place lyrics are looked for.
pub fn first_lyrics_source(server_url: &str, token: &str, item_id: &str) -> (s: LyricsSource)
    ensures
        s == (if server_first(server_url@, token@, item_id@) {
            LyricsSource::Server
        } else {
            LyricsSource::LrcLib
        }),
{
    let provider = crate::models::infer_provider_from_token(token);
    if server_url.unicode_len() > 0 && token.unicode_len() > 0 && item_id.unicode_len() > 0
        && provider == crate::models::BackendProvider::Jellyfin {
        LyricsSource::Server
    } else {
        LyricsSource::LrcLib
    }
}

/// What the server's lyrics come to: kept when valid, else the search
/// falls back to LRCLIB (also when the server had none).
pub fn accept_server_lyrics(found: Option<ParsedLyrics>) -> (r: Result<ParsedLyrics, LyricsSource>)
    ensures
        match found {
            Some(p) => if p.synced@.len() > 0 || p.plain@.len() > 0 {
                r == Ok::<ParsedLyrics, LyricsSource>(p)
            } else {
                r == Err::<ParsedLyrics, LyricsSource>(LyricsSource::LrcLib)
            },
            None => r == Err::<ParsedLyrics, LyricsSource>(LyricsSource::LrcLib),
        },
{
    match found {
        Some(p) => if p.is_valid() {
            Ok(p)
        } else {
            Err(LyricsSource::LrcLib)
        },
        None => Err(LyricsSource::LrcLib),
    }
}

/// What the server's LRC text comes to: kept when it holds more than
/// whitespace, else the search falls back to LRCLIB.
pub fn accept_server_lrc(found: Option<String>) -> (r: Result<String, LyricsSource>)
    ensures
        match found {
            Some(t) => if crate::profile_storage::trimmed(t@).len() > 0 {
                r == Ok::<String, LyricsSource>(t)
            } else {
                r == Err::<String, LyricsSource>(LyricsSource::LrcLib)
            },
            None => r == Err::<String, LyricsSource>(LyricsSource::LrcLib),
        },
{
    match found {
        Some(t) => {
            let trimmed = crate::profile_storage::trim_whitespace(t.as_str());
            if trimmed.unicode_len() > 0 {
                Ok(t)
            } else {
                Err(LyricsSource::LrcLib)
            }
        },
        None => Err(LyricsSource::LrcLib),
    }
}

} // verus!
